# vk-compute-bench

A Vulkan compute benchmark for the AMD Radeon 890M, whose decisions are verified with
Verus.

- `src/` is the library. A benchmark is a state machine (`run`, `host`, `setup`): it
  names the next call to make on the device and is told how that call went. `gpu` is a
  model of the device; `run_laws`, `script`, `host` and `setup` prove that every run
  asks the device only for what it may be asked for, follows its script, and leaves
  nothing behind; `pipeline` proves the last of these beside other live pipelines.
  `job` and `plan` hold the benchmarks, `report` and `table` what is shown of them,
  `memory` how words and buffers lie in memory and how they are copied.
- `app/` is the program: it makes the calls, and does the floating-point arithmetic.
- `tests/` runs the library on concrete values.

The program compiles the shaders of the directory `shaders` with `glslangValidator`
when it needs them.

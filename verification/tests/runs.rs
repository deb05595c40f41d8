use vk_compute_bench::actions::{
    Action, Command, Fill, Location, Outcome, Pass, RunError, Shader,
};
use vk_compute_bench::job::{
    bench_matmul, bench_memory_bandwidth, bench_reduction, bench_saxpy, BufferPlan, Groups, Job,
};
use vk_compute_bench::run::Run;

/// Carries a run to its end. The device has memory of its own if `local`.
fn drive(run: &mut Run, local: bool, start: u64, stop: u64) -> Vec<Action> {
    let mut trace = Vec::new();
    while !run.is_finished() {
        let action = run.action();
        trace.push(action);
        let outcome = match action {
            Action::AllocateMemory { location: Location::GpuOnly, .. } if !local => {
                Outcome::NoMemory
            }
            Action::ReadTimestamps { .. } => Outcome::Timestamps { start, stop },
            _ => Outcome::Done,
        };
        assert_eq!(run.advance(outcome), Ok(()));
    }
    trace
}

fn pass(timed: bool, size: u32, x: u32, y: u32) -> Vec<Action> {
    let mut list = vec![Action::BeginCommandBuffer { flags: 1 }];
    if timed {
        list.push(Action::Record(Command::ResetQueries { first: 0, count: 2 }));
        list.push(Action::Record(Command::WriteTimestamp {
            stage: 0x1,
            query: 0,
        }));
    }
    list.push(Action::Record(Command::BindPipeline { bind_point: 1 }));
    list.push(Action::Record(Command::BindDescriptorSet { bind_point: 1, first_set: 0 }));
    list.push(Action::Record(Command::PushConstants { stages: 0x20, offset: 0, size }));
    list.push(Action::Record(Command::Dispatch { x, y, z: 1 }));
    if timed {
        list.push(Action::Record(Command::WriteTimestamp {
            stage: 0x2000,
            query: 1,
        }));
    }
    list.push(Action::EndCommandBuffer);
    list.push(Action::CreateFence { flags: 0 });
    list.push(Action::Submit);
    list.push(Action::WaitForFence { all: true, timeout: u64::MAX });
    list.push(Action::DestroyFence);
    list
}

fn prepare(shader: Shader, buffers: u32, push_size: u32) -> Vec<Action> {
    vec![
        Action::CreateSetLayout { bindings: buffers },
        Action::CreateShaderModule { shader },
        Action::CreatePipelineLayout { stages: 0x20, push_offset: 0, push_size },
        Action::CreatePipeline { stage: 0x20, entry: "main" },
        Action::DestroyShaderModule,
        Action::CreateDescriptorPool { kind: 7, max_sets: 1, max_descriptors: buffers },
        Action::AllocateDescriptorSet,
    ]
}

fn make(slot: usize, size: u64, location: Location) -> Vec<Action> {
    vec![
        Action::CreateBuffer { slot, size },
        Action::AllocateMemory { slot, location },
        Action::BindMemory { slot },
    ]
}

fn passes(buffers: u32, size: u32, x: u32, y: u32) -> Vec<Action> {
    let mut list = vec![
        Action::WriteDescriptorSet { count: buffers },
        Action::AllocateCommandBuffer { level: 0, buffers: 1 },
        Action::CreateQueryPool { kind: 2, count: 2 },
    ];
    list.extend(pass(false, size, x, y));
    list.push(Action::ResetCommandBuffer { flags: 0 });
    list.extend(pass(true, size, x, y));
    list.push(Action::ReadTimestamps { first: 0, count: 2, flags: 1 });
    list.push(Action::DestroyQueryPool);
    list.push(Action::FreeCommandBuffer);
    for slot in 0..buffers as usize {
        list.push(Action::DestroyBuffer { slot });
        list.push(Action::FreeMemory { slot });
    }
    list.push(Action::DestroyPipeline);
    list.push(Action::DestroyPipelineLayout);
    list.push(Action::DestroyDescriptorPool);
    list.push(Action::DestroySetLayout);
    list
}

#[test]
fn saxpy_follows_its_script() {
    let n = 16 * 1024 * 1024usize;
    let size = 64 * 1024 * 1024u64;
    let mut expected = prepare(Shader::Saxpy, 3, 8);
    for slot in 0..3 {
        expected.extend(make(slot, size, Location::CpuToGpu));
    }
    expected.push(Action::Generate { slot: 0, fill: Fill::Random { count: n } });
    expected.push(Action::Generate { slot: 1, fill: Fill::Random { count: n } });
    expected.push(Action::Upload { slot: 0, floats: n });
    expected.push(Action::Upload { slot: 1, floats: n });
    expected.extend(passes(3, 8, 65536, 1));
    let mut run = Run::new(bench_saxpy());
    assert_eq!(drive(&mut run, true, 100, 350), expected);
    assert_eq!(run.ticks(), Some(250));
    assert!(run.all_as_planned());
    assert_eq!(run.action(), Action::Finished);
}

#[test]
fn copy_with_device_memory_follows_its_script() {
    let n = 16 * 1024 * 1024usize;
    let size = 64 * 1024 * 1024u64;
    let mut expected = prepare(Shader::Copy, 2, 4);
    expected.extend(make(0, size, Location::CpuToGpu));
    expected.extend(make(1, size, Location::GpuOnly));
    expected.push(Action::Generate { slot: 0, fill: Fill::Ramp { count: n } });
    expected.push(Action::Upload { slot: 0, floats: n });
    expected.extend(passes(2, 4, 65536, 1));
    let mut run = Run::new(bench_memory_bandwidth().0);
    assert_eq!(drive(&mut run, true, 0, 1), expected);
    assert!(run.all_as_planned());
}

#[test]
fn copy_without_device_memory_falls_back_and_says_so() {
    let n = 16 * 1024 * 1024usize;
    let size = 64 * 1024 * 1024u64;
    let mut expected = prepare(Shader::Copy, 2, 4);
    expected.extend(make(0, size, Location::CpuToGpu));
    expected.push(Action::CreateBuffer { slot: 1, size });
    expected.push(Action::AllocateMemory { slot: 1, location: Location::GpuOnly });
    expected.push(Action::DestroyBuffer { slot: 1 });
    expected.extend(make(1, size, Location::CpuToGpu));
    expected.push(Action::NoteSharedMemory {
        text: "  [note] GpuOnly alloc failed; dst buffer using CpuToGpu (UMA shared memory)",
    });
    expected.push(Action::Generate { slot: 0, fill: Fill::Ramp { count: n } });
    expected.push(Action::Upload { slot: 0, floats: n });
    expected.extend(passes(2, 4, 65536, 1));
    let mut run = Run::new(bench_memory_bandwidth().0);
    assert_eq!(drive(&mut run, false, 0, 1), expected);
    assert!(!run.all_as_planned());
}

#[test]
fn reduction_and_matmul_follow_their_scripts() {
    let mut run = Run::new(bench_reduction());
    let trace = drive(&mut run, true, 0, 1);
    let mut expected = prepare(Shader::Reduce, 2, 4);
    expected.extend(make(0, 64 * 1024 * 1024, Location::CpuToGpu));
    expected.extend(make(1, 65536 * 4, Location::CpuToGpu));
    expected.push(Action::Generate { slot: 0, fill: Fill::Ones { count: 16 * 1024 * 1024 } });
    expected.push(Action::Upload { slot: 0, floats: 16 * 1024 * 1024 });
    expected.extend(passes(2, 4, 65536, 1));
    assert_eq!(trace, expected);

    let mut run = Run::new(bench_matmul());
    let trace = drive(&mut run, true, 0, 1);
    let count = 1024 * 1024;
    let mut expected = prepare(Shader::Matmul, 3, 12);
    for slot in 0..3 {
        expected.extend(make(slot, 4 * 1024 * 1024, Location::CpuToGpu));
    }
    expected.push(Action::Generate { slot: 0, fill: Fill::Random { count } });
    expected.push(Action::Generate { slot: 1, fill: Fill::Random { count } });
    expected.push(Action::Upload { slot: 0, floats: count });
    expected.push(Action::Upload { slot: 1, floats: count });
    expected.extend(passes(3, 12, 64, 64));
    assert_eq!(trace, expected);
}

#[test]
fn timed_pass_brackets_the_warmup() {
    let job = bench_saxpy();
    let warmup = job.commands(Pass::Warmup);
    let timed = job.commands(Pass::Timed);
    assert_eq!(warmup.len(), 4);
    assert_eq!(timed.len(), 7);
    assert_eq!(timed[0], Command::ResetQueries { first: 0, count: 2 });
    assert_eq!(
        timed[1],
        Command::WriteTimestamp { stage: 0x1, query: 0 }
    );
    assert_eq!(timed[2..6], warmup[..]);
    assert_eq!(
        timed[6],
        Command::WriteTimestamp { stage: 0x2000, query: 1 }
    );
}

#[test]
fn clock_may_start_over() {
    let mut run = Run::new(bench_saxpy());
    drive(&mut run, true, u64::MAX - 9, 5);
    assert_eq!(run.ticks(), Some(15));
    let mut run = Run::new(bench_saxpy());
    drive(&mut run, true, 7, 7);
    assert_eq!(run.ticks(), Some(0));
}

#[test]
fn no_memory_without_alternative_is_an_error() {
    let mut run = Run::new(bench_saxpy());
    while !matches!(run.action(), Action::AllocateMemory { .. }) {
        assert_eq!(run.advance(Outcome::Done), Ok(()));
    }
    let before = run.action();
    assert_eq!(run.advance(Outcome::NoMemory), Err(RunError::OutOfMemory));
    assert_eq!(run.action(), before);
}

#[test]
fn fallback_memory_may_run_out_too() {
    let mut run = Run::new(bench_memory_bandwidth().0);
    let target = Action::AllocateMemory { slot: 1, location: Location::GpuOnly };
    while run.action() != target {
        assert_eq!(run.advance(Outcome::Done), Ok(()));
    }
    assert_eq!(run.advance(Outcome::NoMemory), Ok(()));
    assert_eq!(run.advance(Outcome::Done), Ok(()));
    assert_eq!(run.advance(Outcome::Done), Ok(()));
    assert_eq!(
        run.action(),
        Action::AllocateMemory { slot: 1, location: Location::CpuToGpu }
    );
    assert_eq!(run.advance(Outcome::NoMemory), Err(RunError::OutOfMemory));
}

#[test]
fn outcomes_out_of_turn_are_refused() {
    let mut run = Run::new(bench_saxpy());
    assert_eq!(run.advance(Outcome::NoMemory), Err(RunError::OutOfTurn));
    assert_eq!(
        run.advance(Outcome::Timestamps { start: 0, stop: 1 }),
        Err(RunError::OutOfTurn)
    );
    assert_eq!(run.ticks(), None);
    while !matches!(run.action(), Action::ReadTimestamps { .. }) {
        assert_eq!(run.advance(Outcome::Done), Ok(()));
    }
    assert_eq!(run.advance(Outcome::Done), Err(RunError::OutOfTurn));
    drive(&mut run, true, 0, 3);
    assert_eq!(run.advance(Outcome::Done), Err(RunError::OutOfTurn));
    assert_eq!(run.ticks(), Some(3));
}

#[test]
fn buffers_without_contents_are_skipped() {
    let empty = BufferPlan { size: 16, device_local: false, fill: Fill::Empty };
    let ones = BufferPlan { size: 16, device_local: false, fill: Fill::Ones { count: 4 } };
    let job = Job {
        shader: Shader::Copy,
        push: vec![],
        buffers: vec![empty, ones, empty, ones],
        groups: Groups { x: 1, y: 1, z: 1 },
    };
    let mut run = Run::new(job);
    let trace = drive(&mut run, true, 0, 1);
    let data: Vec<Action> = trace
        .iter()
        .copied()
        .filter(|a| matches!(a, Action::Generate { .. } | Action::Upload { .. }))
        .collect();
    assert_eq!(
        data,
        vec![
            Action::Generate { slot: 1, fill: Fill::Ones { count: 4 } },
            Action::Generate { slot: 3, fill: Fill::Ones { count: 4 } },
            Action::Upload { slot: 1, floats: 4 },
            Action::Upload { slot: 3, floats: 4 },
        ]
    );
}

#[test]
fn job_without_buffers_runs_to_its_end() {
    let job = Job {
        shader: Shader::Reduce,
        push: vec![1, 2],
        buffers: vec![],
        groups: Groups { x: 3, y: 2, z: 1 },
    };
    let mut run = Run::new(job);
    let trace = drive(&mut run, true, 10, 30);
    let mut expected = prepare(Shader::Reduce, 0, 8);
    expected.extend(passes(0, 8, 3, 2));
    assert_eq!(trace, expected);
    assert_eq!(run.ticks(), Some(20));
}

#[test]
fn every_run_stays_within_its_bound() {
    for local in [true, false] {
        let mut run = Run::new(bench_memory_bandwidth().0);
        let steps = drive(&mut run, local, 0, 1).len();
        assert!(steps <= 42 + 10 * 2);
    }
}

#[test]
fn push_bytes_are_the_words_in_memory() {
    let run = Run::new(bench_saxpy());
    let mut expected = Vec::new();
    expected.extend_from_slice(&2.5f32.to_ne_bytes());
    expected.extend_from_slice(&(16 * 1024 * 1024u32).to_ne_bytes());
    assert_eq!(run.push_bytes(), expected);
}

#[test]
fn buffer_sizes_are_those_of_the_job() {
    let run = Run::new(bench_reduction());
    assert_eq!(run.buffer_sizes(), vec![64 * 1024 * 1024, 65536 * 4]);
}

#[test]
fn pipeline_goes_before_its_layout_and_the_set_layout_last() {
    let mut run = Run::new(bench_saxpy());
    let trace = drive(&mut run, true, 0, 1);
    let places = |wanted: Action| -> Vec<usize> {
        (0..trace.len()).filter(|i| trace[*i] == wanted).collect()
    };
    let module = places(Action::DestroyShaderModule);
    let pipeline = places(Action::DestroyPipeline);
    let layout = places(Action::DestroyPipelineLayout);
    let set_layout = places(Action::DestroySetLayout);
    assert_eq!(module, vec![4]);
    assert_eq!(pipeline.len(), 1);
    assert_eq!(layout, vec![pipeline[0] + 1]);
    assert_eq!(set_layout, vec![trace.len() - 1]);
}

#[test]
fn timestamps_are_answered_once() {
    let mut run = Run::new(bench_reduction());
    let trace = drive(&mut run, true, 1000, 1234);
    let asked = Action::ReadTimestamps { first: 0, count: 2, flags: 1 };
    assert_eq!(trace.iter().filter(|a| **a == asked).count(), 1);
    assert_eq!(run.ticks(), Some(234));
}

use vk_compute_bench::actions::{Action, Outcome, Shader};
use vk_compute_bench::host::{Direction, HostRun};
use vk_compute_bench::job::Job;
use vk_compute_bench::plan::{plan, Plan};
use vk_compute_bench::report::{report, suite, Benchmark, Peak, Report, Work};
use vk_compute_bench::run::Run;

const N: usize = 16 * 1024 * 1024;

fn job(benchmark: Benchmark) -> Job {
    match plan(benchmark) {
        Plan::Compute(job) => job,
        Plan::Host(_) => panic!("{:?} runs no kernel", benchmark),
    }
}

fn copies(benchmark: Benchmark) -> HostRun {
    match plan(benchmark) {
        Plan::Compute(_) => panic!("{:?} runs a kernel", benchmark),
        Plan::Host(run) => run,
    }
}

/// Carries a run to its end. The device has memory of its own if `local`.
fn finish(run: &mut Run, local: bool) {
    while !run.is_finished() {
        let outcome = match run.action() {
            Action::ReadTimestamps { .. } => Outcome::Timestamps { start: 5, stop: 12 },
            Action::AllocateMemory { location, .. } => {
                if format!("{:?}", location) == "GpuOnly" && !local {
                    Outcome::NoMemory
                } else {
                    Outcome::Done
                }
            }
            _ => Outcome::Done,
        };
        assert_eq!(run.advance(outcome), Ok(()));
    }
}

fn assert_same(a: Report, b: Report) {
    assert_eq!(a.name, b.name);
    assert_eq!(a.data, b.data);
    assert_eq!(a.work, b.work);
    assert_eq!(a.peak, b.peak);
}

#[test]
fn every_benchmark_has_its_kernel_or_its_copies() {
    assert_eq!(job(Benchmark::BufferCopy).shader, Shader::Copy);
    assert_eq!(job(Benchmark::Saxpy).shader, Shader::Saxpy);
    assert_eq!(job(Benchmark::Reduction).shader, Shader::Reduce);
    assert_eq!(job(Benchmark::Matmul).shader, Shader::Matmul);
    assert_eq!(copies(Benchmark::HostWrite), HostRun::new(Direction::Write, N));
    assert_eq!(copies(Benchmark::HostRead), HostRun::new(Direction::Read, N));
}

#[test]
fn report_of_a_run_depends_on_the_memory_that_it_got() {
    let mut run = Run::new(job(Benchmark::BufferCopy));
    finish(&mut run, true);
    let local = run.report(Benchmark::BufferCopy);
    assert_eq!(local.name, "Memory: Buffer Copy (compute, device-local)");
    assert_eq!(local.peak, Some(Peak::MemoryBandwidth));
    assert_eq!(run.ticks(), Some(7));

    let mut run = Run::new(job(Benchmark::BufferCopy));
    finish(&mut run, false);
    let shared = run.report(Benchmark::BufferCopy);
    assert_eq!(shared.name, "Memory: Buffer Copy (compute, shared/UMA)");
    assert_eq!(shared.peak, None);
    assert_eq!(run.ticks(), Some(7));
}

#[test]
fn reports_of_kernels_that_need_no_device_memory() {
    for benchmark in [Benchmark::Saxpy, Benchmark::Reduction, Benchmark::Matmul] {
        let mut run = Run::new(job(benchmark));
        finish(&mut run, false);
        assert_same(run.report(benchmark), report(benchmark, true));
    }
}

#[test]
fn report_of_copies_is_that_of_their_direction() {
    let write = copies(Benchmark::HostWrite).report();
    assert_eq!(write.name, "Memory: Host->Device write");
    assert_eq!(write.data, 4 * N as u64);
    assert_eq!(write.work, Work::Bytes(4 * N as u64));
    assert_eq!(write.peak, None);
    assert_same(copies(Benchmark::HostRead).report(), report(Benchmark::HostRead, true));
}

#[test]
fn reports_tell_of_the_buffers_and_push_constants() {
    for section in suite() {
        for benchmark in section.benchmarks() {
            let r = report(benchmark, true);
            match plan(benchmark) {
                Plan::Compute(job) => {
                    let total: u64 = job.buffers.iter().map(|b| b.size).sum();
                    let push: Vec<u64> = job.push.iter().map(|w| *w as u64).collect();
                    let (data, work) = match benchmark {
                        Benchmark::BufferCopy => (total, Work::Bytes(total)),
                        Benchmark::Saxpy => (total, Work::Flops(2 * push[1])),
                        Benchmark::Reduction => (job.buffers[0].size, Work::Elements(push[0])),
                        _ => (total, Work::Flops(2 * push[0] * push[1] * push[2])),
                    };
                    assert_eq!(r.data, data);
                    assert_eq!(r.work, work);
                }
                Plan::Host(run) => {
                    assert_eq!(r.data, 4 * run.count as u64);
                    assert_eq!(r.work, Work::Bytes(4 * run.count as u64));
                }
            }
        }
    }
}

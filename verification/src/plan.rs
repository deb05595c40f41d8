//! Which work each benchmark stands for, and the report of the work that was done.

use vstd::prelude::*;
use crate::actions::{Action, Fill, Outcome, Shader};
use crate::host::{host_run_after, host_trace, law_clock_measures_ten_whole_copies};
use crate::host::{Direction, HostRun};
use crate::job::{bench_matmul, bench_memory_bandwidth, bench_reduction, bench_saxpy};
use crate::job::{copy_job, matmul_job, reduction_job, saxpy_job};
use crate::job::{BufferPlan, Job, JobView, ELEMENTS, FLOAT_BYTES, MATRIX_SIDE};
use crate::report::{report, report_of, Benchmark, Report, ReportView, Work};
use crate::run::Run;
use crate::run_laws::{law_fallback_is_told, lemma_run_after, run_after};

verus! {

/// The work of a benchmark.
pub enum Plan {
    /// A kernel, timed by the device's clock.
    Compute(Job),
    /// The host's own copies, timed by the host's clock.
    Host(HostRun),
}

/// The model of a [`Plan`].
pub enum PlanView {
    Compute(JobView),
    Host(HostRun),
}

impl View for Plan {
    type V = PlanView;

    open spec fn view(&self) -> PlanView {
        match self {
            Plan::Compute(job) => PlanView::Compute(job@),
            Plan::Host(run) => PlanView::Host(*run),
        }
    }
}

impl PlanView {
    pub open spec fn wf(self) -> bool {
        match self {
            PlanView::Compute(job) => job.wf(),
            PlanView::Host(run) => run.wf(),
        }
    }
}

/// The work of a benchmark.
pub open spec fn plan_of(benchmark: Benchmark) -> PlanView {
    match benchmark {
        Benchmark::BufferCopy => PlanView::Compute(copy_job()),
        Benchmark::HostWrite => PlanView::Host(HostRun::begun(Direction::Write, ELEMENTS)),
        Benchmark::HostRead => PlanView::Host(HostRun::begun(Direction::Read, ELEMENTS)),
        Benchmark::Saxpy => PlanView::Compute(saxpy_job()),
        Benchmark::Reduction => PlanView::Compute(reduction_job()),
        Benchmark::Matmul => PlanView::Compute(matmul_job()),
    }
}

/// The work of a benchmark.
pub fn plan(benchmark: Benchmark) -> (r: Plan)
    ensures
        r@ == plan_of(benchmark),
        r@.wf(),
        match (benchmark, r) {
            (Benchmark::BufferCopy, Plan::Compute(job)) => job@ == copy_job(),
            (Benchmark::HostWrite, Plan::Host(run)) => run == HostRun::begun(
                Direction::Write,
                ELEMENTS,
            ),
            (Benchmark::HostRead, Plan::Host(run)) => run == HostRun::begun(
                Direction::Read,
                ELEMENTS,
            ),
            (Benchmark::Saxpy, Plan::Compute(job)) => job@ == saxpy_job(),
            (Benchmark::Reduction, Plan::Compute(job)) => job@ == reduction_job(),
            (Benchmark::Matmul, Plan::Compute(job)) => job@ == matmul_job(),
            _ => false,
        },
{
    match benchmark {
        Benchmark::BufferCopy => Plan::Compute(bench_memory_bandwidth().0),
        Benchmark::HostWrite => Plan::Host(bench_memory_bandwidth().1),
        Benchmark::HostRead => Plan::Host(bench_memory_bandwidth().2),
        Benchmark::Saxpy => Plan::Compute(bench_saxpy()),
        Benchmark::Reduction => Plan::Compute(bench_reduction()),
        Benchmark::Matmul => Plan::Compute(bench_matmul()),
    }
}

impl Run {
    /// The report of this run, as one of `benchmark`.
    pub fn report(&self, benchmark: Benchmark) -> (r: Report)
        ensures
            r@ == report_of(benchmark, !self@.fallen.contains(true)),
    {
        report(benchmark, self.all_as_planned())
    }
}

impl HostRun {
    /// The benchmark that this run belongs to.
    pub open spec fn measures(self) -> Benchmark {
        match self.direction {
            Direction::Write => Benchmark::HostWrite,
            Direction::Read => Benchmark::HostRead,
        }
    }

    /// The report of this run. A host's copies have no memory to fall back to.
    pub fn report(&self) -> (r: Report)
        ensures
            r@ == report_of(self.measures(), true),
            self.direction == Direction::Write ==> r@ == report_of(Benchmark::HostWrite, true),
            self.direction == Direction::Read ==> r@ == report_of(Benchmark::HostRead, true),
    {
        match self.direction {
            Direction::Write => report(Benchmark::HostWrite, true),
            Direction::Read => report(Benchmark::HostRead, true),
        }
    }
}

/// The bytes of all buffers together.
pub open spec fn total_size(buffers: Seq<BufferPlan>) -> int
    decreases buffers.len(),
{
    if buffers.len() == 0 {
        0
    } else {
        total_size(buffers.drop_last()) + buffers.last().size
    }
}

/// `r` says what a kernel with the buffers and push constants of `job` does: a copy
/// reads and writes all of its buffers, SAXPY and the product of matrices multiply and
/// add once per term, and a reduction goes through its input.
pub open spec fn tells_of_kernel(r: ReportView, benchmark: Benchmark, job: JobView) -> bool {
    match benchmark {
        Benchmark::BufferCopy => {
            &&& r.data == total_size(job.buffers)
            &&& r.work == Work::Bytes(r.data)
        },
        Benchmark::Saxpy => {
            &&& r.data == total_size(job.buffers)
            &&& r.work matches Work::Flops(n) && n == 2 * job.push[1]
        },
        Benchmark::Reduction => {
            &&& r.data == job.buffers[0].size
            &&& r.work matches Work::Elements(n) && n == job.push[0]
        },
        Benchmark::Matmul => {
            &&& r.data == total_size(job.buffers)
            &&& r.work matches Work::Flops(n) && n == 2 * (job.push[0] * job.push[1]
                * job.push[2])
        },
        _ => false,
    }
}

/// `r` says what one copy of `run` does.
pub open spec fn tells_of_copy(r: ReportView, run: HostRun) -> bool {
    r.data == run.size() && r.work == Work::Bytes(run.size())
}

proof fn lemma_total_of_two(buffers: Seq<BufferPlan>)
    requires
        buffers.len() == 2,
    ensures
        total_size(buffers) == buffers[0].size + buffers[1].size,
{
    reveal_with_fuel(total_size, 3);
}

proof fn lemma_total_of_three(buffers: Seq<BufferPlan>)
    requires
        buffers.len() == 3,
    ensures
        total_size(buffers) == buffers[0].size + buffers[1].size + buffers[2].size,
{
    reveal_with_fuel(total_size, 4);
}

/// Every element of a benchmark's vectors or matrices gets an invocation of the kernel,
/// with no workgroup too many; the kernel is told their number; and the buffers hold that
/// many floats, those that are read being filled to the last one.
pub proof fn law_kernels_cover_their_data(benchmark: Benchmark)
    ensures
        plan_of(benchmark) matches PlanView::Compute(job) ==> {
            let n = job.push.last() as int;
            let filled = |i: int, fill: Fill| job.buffers[i].fill == fill && job.buffers[i].size
                == 4 * fill.count() && !job.buffers[i].device_local;
            let left = |i: int, floats: int| job.buffers[i].fill == Fill::Empty
                && job.buffers[i].size == 4 * floats;
            &&& job.groups.z == 1
            &&& match benchmark {
                Benchmark::Matmul => {
                    &&& job.push == seq![1024u32, 1024, 1024]
                    &&& (job.groups.x - 1) * 16 < n <= job.groups.x * 16
                    &&& (job.groups.y - 1) * 16 < n <= job.groups.y * 16
                },
                _ => {
                    &&& n == 16777216
                    &&& (job.groups.x - 1) * 256 < n <= job.groups.x * 256
                    &&& job.groups.y == 1
                },
            }
            &&& match benchmark {
                Benchmark::BufferCopy => {
                    &&& job.shader == Shader::Copy
                    &&& job.push.len() == 1
                    &&& job.buffers.len() == 2
                    &&& filled(0, Fill::Ramp { count: n as usize })
                    &&& left(1, n)
                    &&& job.buffers[1].device_local
                },
                Benchmark::Saxpy => {
                    &&& job.shader == Shader::Saxpy
                    &&& job.push == seq![0x4020_0000u32, n as u32]
                    &&& job.buffers.len() == 3
                    &&& filled(0, Fill::Random { count: n as usize })
                    &&& filled(1, Fill::Random { count: n as usize })
                    &&& left(2, n)
                    &&& !job.buffers[2].device_local
                },
                Benchmark::Reduction => {
                    &&& job.shader == Shader::Reduce
                    &&& job.push.len() == 1
                    &&& job.buffers.len() == 2
                    &&& filled(0, Fill::Ones { count: n as usize })
                    &&& left(1, job.groups.x as int)
                    &&& !job.buffers[1].device_local
                },
                _ => {
                    &&& job.shader == Shader::Matmul
                    &&& job.buffers.len() == 3
                    &&& filled(0, Fill::Random { count: (n * n) as usize })
                    &&& filled(1, Fill::Random { count: (n * n) as usize })
                    &&& left(2, n * n)
                    &&& !job.buffers[2].device_local
                },
            }
        },
{
    assert(ELEMENTS * FLOAT_BYTES == 67108864) by (nonlinear_arith)
        requires
            ELEMENTS == 16777216,
            FLOAT_BYTES == 4,
    ;
    let side = MATRIX_SIDE as int;
    assert(side * side == 1048576) by (nonlinear_arith)
        requires
            side == 1024,
    ;
}

/// What is reported of a benchmark is the data and the work of the very job or copies
/// that it runs.
pub proof fn law_report_tells_of_the_plan(benchmark: Benchmark, device_local: bool)
    ensures
        match plan_of(benchmark) {
            PlanView::Compute(job) => tells_of_kernel(
                report_of(benchmark, device_local),
                benchmark,
                job,
            ),
            PlanView::Host(run) => {
                &&& run.measures() == benchmark
                &&& tells_of_copy(report_of(benchmark, device_local), run)
            },
        },
{
    assert(ELEMENTS * FLOAT_BYTES == 67108864) by (nonlinear_arith)
        requires
            ELEMENTS == 16777216,
            FLOAT_BYTES == 4,
    ;
    let side = MATRIX_SIDE as int;
    assert(side * side == 1048576 && side * side * side == 1073741824) by (nonlinear_arith)
        requires
            side == 1024,
    ;
    match benchmark {
        Benchmark::BufferCopy => lemma_total_of_two(copy_job().buffers),
        Benchmark::Saxpy => lemma_total_of_three(saxpy_job().buffers),
        Benchmark::Matmul => lemma_total_of_three(matmul_job().buffers),
        _ => {},
    }
}

/// The report of a run of a benchmark's job tells of that run: it gives the data and
/// the work of the run's own buffers and push constants, and it is that of the device's
/// memory exactly if the allocator never had to answer that it has none.
pub proof fn law_report_tells_of_the_run(benchmark: Benchmark, outcomes: Seq<Outcome>)
    requires
        plan_of(benchmark) is Compute,
        run_after(plan_of(benchmark)->Compute_0, outcomes) is Some,
    ensures
        ({
            let run = run_after(plan_of(benchmark)->Compute_0, outcomes)->0;
            let r = report_of(benchmark, !run.fallen.contains(true));
            &&& tells_of_kernel(r, benchmark, run.job)
            &&& r == report_of(benchmark, !outcomes.contains(Outcome::NoMemory))
        }),
{
    let job = plan_of(benchmark)->Compute_0;
    lemma_plans_wf(benchmark);
    lemma_run_after(job, outcomes);
    law_fallback_is_told(job, outcomes);
    law_report_tells_of_the_plan(benchmark, !outcomes.contains(Outcome::NoMemory));
}

/// The work that is reported of a host's copies is what one measured copy moves: four
/// bytes for each of the floats that it copies.
pub proof fn law_reported_work_is_one_measured_copy(
    benchmark: Benchmark,
    outcomes: Seq<Outcome>,
    start: int,
    stop: int,
    k: int,
)
    requires
        plan_of(benchmark) is Host,
        ({
            let run = plan_of(benchmark)->Host_0;
            let all = host_trace(run.direction, run.count, outcomes);
            &&& host_run_after(run.direction, run.count, outcomes) is Some
            &&& 0 <= start < k < stop < outcomes.len()
            &&& all[start] == Action::StartClock
            &&& all[stop] == Action::StopClock
        }),
    ensures
        ({
            let run = plan_of(benchmark)->Host_0;
            let r = report_of(benchmark, true);
            &&& r.work matches Work::Bytes(bytes)
            &&& bytes == r.data
            &&& match host_trace(run.direction, run.count, outcomes)[k] {
                Action::Upload { floats, .. } => benchmark == Benchmark::HostWrite && bytes == 4
                    * floats,
                Action::Download { floats, .. } => benchmark == Benchmark::HostRead && bytes == 4
                    * floats,
                _ => false,
            }
        }),
{
    let run = plan_of(benchmark)->Host_0;
    lemma_plans_wf(benchmark);
    law_report_tells_of_the_plan(benchmark, true);
    law_clock_measures_ten_whole_copies(run.direction, run.count, outcomes, start, stop, k);
}

proof fn lemma_plans_wf(benchmark: Benchmark)
    ensures
        plan_of(benchmark).wf(),
{
    let side = MATRIX_SIDE as int;
    assert(side * side == 1048576) by (nonlinear_arith)
        requires
            side == 1024,
    ;
}

} // verus!

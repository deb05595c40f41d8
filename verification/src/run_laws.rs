//! What holds of every run of a compute benchmark.

use vstd::prelude::*;
use crate::actions::{Action, Command, Fill, Outcome, Pass};
use crate::gpu::{lemma_accepts_push, writes_query, BufferState, CommandState, FenceState, Gpu, SetState};
use crate::job::JobView;
use crate::run::{commands, lemma_next_filled, lemma_next_wf, ticks_between, RunView, Stage, TIMESTAMPS};
use crate::vulkan::{BOTTOM_OF_PIPE, RESULT_64, TOP_OF_PIPE};

verus! {

/// The phases of a run, in their order.
pub open spec fn phase(stage: Stage) -> int {
    match stage {
        Stage::SetLayout => 0,
        Stage::ShaderModule => 1,
        Stage::PipelineLayout => 2,
        Stage::Pipeline => 3,
        Stage::DropShaderModule => 4,
        Stage::DescriptorPool => 5,
        Stage::DescriptorSet => 6,
        Stage::CreateBuffer(_) | Stage::Allocate(_) | Stage::Discard(_) | Stage::Bind(_) => 7,
        Stage::Note => 8,
        Stage::Generate(_) => 9,
        Stage::Upload(_) => 10,
        Stage::WriteSet => 11,
        Stage::CommandBuffer => 12,
        Stage::QueryPool => 13,
        Stage::Begin(Pass::Warmup)
        | Stage::Record(Pass::Warmup, _)
        | Stage::End(Pass::Warmup)
        | Stage::Fence(Pass::Warmup)
        | Stage::Submit(Pass::Warmup)
        | Stage::Wait(Pass::Warmup)
        | Stage::DropFence(Pass::Warmup) => 14,
        Stage::ResetCommands => 15,
        Stage::Begin(Pass::Timed)
        | Stage::Record(Pass::Timed, _)
        | Stage::End(Pass::Timed)
        | Stage::Fence(Pass::Timed)
        | Stage::Submit(Pass::Timed)
        | Stage::Wait(Pass::Timed)
        | Stage::DropFence(Pass::Timed) => 16,
        Stage::Timestamps => 17,
        Stage::DropQueryPool => 18,
        Stage::FreeCommands => 19,
        Stage::DropBuffer(_) | Stage::FreeMemory(_) => 20,
        Stage::DropPipeline => 21,
        Stage::DropPipelineLayout => 22,
        Stage::DropDescriptorPool => 23,
        Stage::DropSetLayout => 24,
        Stage::Finished => 25,
    }
}

/// The state of buffer `i` when a run stands where `run` does.
pub open spec fn buffer_at(run: RunView, i: int) -> BufferState {
    let size = run.job.buffers[i].size;
    let location = run.location(i);
    let empty = BufferState::Bound { size, location, contents: Fill::Empty };
    let filled = BufferState::Bound { size, location, contents: run.job.buffers[i].fill };
    let p = phase(run.stage);
    match run.stage {
        Stage::CreateBuffer(k) => if i < k {
            empty
        } else {
            BufferState::Absent
        },
        Stage::Allocate(k) => if i < k {
            empty
        } else if i == k {
            BufferState::Bare { size }
        } else {
            BufferState::Absent
        },
        Stage::Discard(k) => if i < k {
            empty
        } else if i == k {
            BufferState::Bare { size }
        } else {
            BufferState::Absent
        },
        Stage::Bind(k) => if i < k {
            empty
        } else if i == k {
            BufferState::Backed { size, location }
        } else {
            BufferState::Absent
        },
        Stage::Upload(k) => if i < k {
            filled
        } else {
            empty
        },
        Stage::DropBuffer(k) => if i < k {
            BufferState::Absent
        } else {
            filled
        },
        Stage::FreeMemory(k) => if i < k {
            BufferState::Absent
        } else if i == k {
            BufferState::Leftover
        } else {
            filled
        },
        _ => if p < 7 || p > 20 {
            BufferState::Absent
        } else if p < 11 {
            empty
        } else {
            filled
        },
    }
}

/// The floats that the host holds for buffer `i`.
pub open spec fn data_at(run: RunView, i: int) -> Fill {
    let fill = run.job.buffers[i].fill;
    match run.stage {
        Stage::Generate(k) => if i < k {
            fill
        } else {
            Fill::Empty
        },
        _ => if phase(run.stage) < 9 {
            Fill::Empty
        } else {
            fill
        },
    }
}

/// The state of the command buffer.
pub open spec fn commands_at(run: RunView) -> CommandState {
    let p = phase(run.stage);
    match run.stage {
        Stage::Begin(_) => CommandState::Initial,
        Stage::Record(pass, i) => CommandState::Recording(commands(run.job, pass).take(i as int)),
        Stage::End(pass) => CommandState::Recording(commands(run.job, pass)),
        Stage::Fence(pass) => CommandState::Executable(commands(run.job, pass)),
        Stage::Submit(pass) => CommandState::Executable(commands(run.job, pass)),
        Stage::Wait(pass) => CommandState::Pending(commands(run.job, pass)),
        _ => if p < 13 || p > 19 {
            CommandState::Absent
        } else if p == 13 {
            CommandState::Initial
        } else {
            CommandState::Spent
        },
    }
}

/// The command lists that were carried out so far.
pub open spec fn executed_at(run: RunView) -> Seq<Seq<Command>> {
    let warmup = commands(run.job, Pass::Warmup);
    let timed = commands(run.job, Pass::Timed);
    let p = phase(run.stage);
    match run.stage {
        Stage::DropFence(Pass::Warmup) => seq![warmup],
        Stage::DropFence(Pass::Timed) => seq![warmup, timed],
        _ => if p < 15 {
            Seq::empty()
        } else if p < 17 {
            seq![warmup]
        } else {
            seq![warmup, timed]
        },
    }
}

/// The device when a run stands where `run` does.
pub open spec fn device_at(run: RunView) -> Gpu {
    let p = phase(run.stage);
    let job = run.job;
    Gpu {
        set_layout: if 1 <= p <= 24 {
            Some(job.buffers.len() as u32)
        } else {
            None
        },
        module: if 2 <= p <= 4 {
            Some(job.shader)
        } else {
            None
        },
        pipeline_layout: if 3 <= p <= 22 {
            Some(job.push_size() as u32)
        } else {
            None
        },
        pipeline: if 4 <= p <= 21 {
            Some(job.shader)
        } else {
            None
        },
        pool: if 6 <= p <= 23 {
            Some((1, job.buffers.len() as u32))
        } else {
            None
        },
        set: if 7 <= p <= 11 {
            SetState::Unwritten
        } else if 12 <= p <= 23 {
            SetState::Written
        } else {
            SetState::Absent
        },
        buffers: Seq::new(job.buffers.len(), |i: int| buffer_at(run, i)),
        data: Seq::new(job.buffers.len(), |i: int| data_at(run, i)),
        commands: commands_at(run),
        queries: if 14 <= p <= 18 {
            Some(2)
        } else {
            None
        },
        fence: match run.stage {
            Stage::Submit(_) => FenceState::Idle,
            Stage::Wait(_) => FenceState::Pending,
            Stage::DropFence(_) => FenceState::Signaled,
            _ => FenceState::Absent,
        },
        executed: executed_at(run),
        notes: if p > 8 && run.fallen.contains(true) {
            1
        } else {
            0
        },
        clock: None,
        clocked: None,
    }
}

/// Each command of a pass may be recorded after those before it.
proof fn lemma_recordable(run: RunView, pass: Pass, i: usize)
    requires
        run.wf(),
        run.stage == Stage::Record(pass, i),
    ensures
        device_at(run).legal(run.action()),
{
    let list = commands(run.job, pass);
    let before = list.take(i as int);
    let at: int = match pass {
        Pass::Warmup => 0,
        Pass::Timed => 2,
    };
    if pass == Pass::Timed && i > 0 {
        assert(before[0] is ResetQueries);
    }
    if list[i as int] is Dispatch {
        assert(i == at + 3);
        assert(before[at] is BindPipeline);
        assert(before[at + 1] is BindDescriptorSet);
        assert(before[at + 2] is PushConstants);
    }
}

/// The timed pass leaves a timestamp in each query.
proof fn lemma_timestamps_written(job: JobView)
    ensures
        forall|q: u32| 0 <= q < 2 ==> #[trigger] writes_query(commands(job, Pass::Timed), q),
{
    let list = commands(job, Pass::Timed);
    assert(list[1] == Command::WriteTimestamp { stage: TOP_OF_PIPE, query: 0 });
    assert(list[6] == Command::WriteTimestamp { stage: BOTTOM_OF_PIPE, query: 1 });
}

/// Two devices agree in all their parts.
spec fn same_parts(a: Gpu, b: Gpu) -> bool {
    &&& a.set_layout == b.set_layout
    &&& a.module == b.module
    &&& a.pipeline_layout == b.pipeline_layout
    &&& a.pipeline == b.pipeline
    &&& a.pool == b.pool
    &&& a.set == b.set
    &&& a.buffers =~= b.buffers
    &&& a.data =~= b.data
    &&& a.commands =~= b.commands
    &&& a.queries == b.queries
    &&& a.fence == b.fence
    &&& a.executed =~= b.executed
    &&& a.notes == b.notes
    &&& a.clock == b.clock
    &&& a.clocked == b.clocked
}

/// The next action is legal, and the device stands after it where the run does.
spec fn in_step(run: RunView, outcome: Outcome) -> bool {
    &&& device_at(run).legal(run.action())
    &&& same_parts(
        device_at(run.next(outcome)->Ok_0),
        device_at(run).after(run.action(), outcome),
    )
}

/// A step up to the first buffer.
proof fn lemma_step_up_to_buffers(run: RunView, outcome: Outcome)
    requires
        run.wf(),
        run.next(outcome) is Ok,
        phase(run.stage) <= 6,
    ensures
        in_step(run, outcome),
{
    lemma_next_filled(run.job.buffers, 0);
}

/// A step with a buffer.
proof fn lemma_step_buffer(run: RunView, outcome: Outcome)
    requires
        run.wf(),
        run.next(outcome) is Ok,
        phase(run.stage) == 7,
    ensures
        in_step(run, outcome),
{
    lemma_next_wf(run, outcome);
    lemma_next_filled(run.job.buffers, 0);
}

/// A step from the last buffer to the first pass.
proof fn lemma_step_up_to_passes(run: RunView, outcome: Outcome)
    requires
        run.wf(),
        run.next(outcome) is Ok,
        8 <= phase(run.stage) <= 13,
    ensures
        in_step(run, outcome),
{
    lemma_next_filled(run.job.buffers, 0);
    match run.stage {
        Stage::Generate(i) => lemma_next_filled(run.job.buffers, i + 1),
        Stage::Upload(i) => lemma_next_filled(run.job.buffers, i + 1),
        _ => {},
    }
}

/// A step of a pass.
proof fn lemma_step_in_pass(run: RunView, outcome: Outcome)
    requires
        run.wf(),
        run.next(outcome) is Ok,
        14 <= phase(run.stage) <= 16,
    ensures
        in_step(run, outcome),
{
    match run.stage {
        Stage::Begin(pass) => {
            assert(commands(run.job, pass).take(0) =~= Seq::empty());
        },
        Stage::Record(pass, i) => {
            lemma_recordable(run, pass, i);
            let list = commands(run.job, pass);
            assert(list.take(i as int).push(list[i as int]) =~= list.take(i + 1));
            assert(list.take(list.len() as int) =~= list);
        },
        _ => {},
    }
}

/// A step after the passes.
proof fn lemma_step_after_passes(run: RunView, outcome: Outcome)
    requires
        run.wf(),
        run.next(outcome) is Ok,
        17 <= phase(run.stage),
    ensures
        in_step(run, outcome),
{
    lemma_timestamps_written(run.job);
}

/// A step of a run asks the device for something legal, and both go on together.
proof fn lemma_step(run: RunView, outcome: Outcome)
    requires
        run.wf(),
        run.next(outcome) is Ok,
    ensures
        device_at(run).legal(run.action()),
        device_at(run.next(outcome)->Ok_0) == device_at(run).after(run.action(), outcome),
{
    let p = phase(run.stage);
    if p <= 6 {
        lemma_step_up_to_buffers(run, outcome);
    } else if p == 7 {
        lemma_step_buffer(run, outcome);
    } else if p <= 13 {
        lemma_step_up_to_passes(run, outcome);
    } else if p <= 16 {
        lemma_step_in_pass(run, outcome);
    } else {
        lemma_step_after_passes(run, outcome);
    }
}

/// The run after `outcomes`, if none of them was refused.
pub open spec fn run_after(job: JobView, outcomes: Seq<Outcome>) -> Option<RunView>
    decreases outcomes.len(),
{
    if outcomes.len() == 0 {
        Some(RunView::begun(job))
    } else {
        match run_after(job, outcomes.drop_last()) {
            Some(run) => match run.next(outcomes.last()) {
                Ok(next) => Some(next),
                Err(_) => None,
            },
            None => None,
        }
    }
}

/// The actions that a run has asked for, the `n`th of which went as `outcomes[n]` says.
pub open spec fn trace(job: JobView, outcomes: Seq<Outcome>) -> Seq<Action>
    decreases outcomes.len(),
{
    if outcomes.len() == 0 {
        Seq::empty()
    } else {
        match run_after(job, outcomes.drop_last()) {
            Some(run) => trace(job, outcomes.drop_last()).push(run.action()),
            None => Seq::empty(),
        }
    }
}

/// A run that was not refused anything is well-formed, is still one of its job, and
/// stands where the device does.
pub proof fn lemma_run_after(job: JobView, outcomes: Seq<Outcome>)
    requires
        job.wf(),
        run_after(job, outcomes) is Some,
    ensures
        run_after(job, outcomes)->0.wf(),
        run_after(job, outcomes)->0.job == job,
        trace(job, outcomes).len() == outcomes.len(),
        Gpu::untouched(job.buffers.len()).accepts(trace(job, outcomes), outcomes),
        Gpu::untouched(job.buffers.len()).after_all(trace(job, outcomes), outcomes) == device_at(
            run_after(job, outcomes)->0,
        ),
    decreases outcomes.len(),
{
    let gpu = Gpu::untouched(job.buffers.len());
    if outcomes.len() == 0 {
        let run = RunView::begun(job);
        assert(device_at(run).buffers =~= gpu.buffers);
        assert(device_at(run).data =~= gpu.data);
        assert(device_at(run) =~= gpu);
    } else {
        let earlier = outcomes.drop_last();
        let outcome = outcomes.last();
        lemma_run_after(job, earlier);
        let run = run_after(job, earlier)->0;
        lemma_next_wf(run, outcome);
        lemma_step(run, outcome);
        lemma_accepts_push(gpu, trace(job, earlier), earlier, run.action(), outcome);
        assert(earlier.push(outcome) =~= outcomes);
    }
}

/// Whatever the device answers, a run asks it only for what it may be asked for: no
/// object is used before it was created or after it was destroyed, none is created
/// or destroyed twice, the host copies only into memory that it can reach and that is
/// large enough, and nothing is destroyed while the device may be using it.
pub proof fn law_every_action_is_legal(job: JobView, outcomes: Seq<Outcome>)
    requires
        job.wf(),
        run_after(job, outcomes) is Some,
    ensures
        Gpu::untouched(job.buffers.len()).accepts(trace(job, outcomes), outcomes),
        Gpu::untouched(job.buffers.len()).after_all(trace(job, outcomes), outcomes).legal(
            run_after(job, outcomes)->0.action(),
        ),
{
    lemma_run_after(job, outcomes);
    let run = run_after(job, outcomes)->0;
    if run.stage == Stage::Timestamps {
        lemma_step(run, Outcome::Timestamps { start: 0, stop: 0 });
    } else if run.stage != Stage::Finished {
        lemma_step(run, Outcome::Done);
    }
}

/// A finished run has left nothing on the device, whether or not a buffer had to
/// settle for shared memory on the way.
pub proof fn law_finished_run_releases_everything(job: JobView, outcomes: Seq<Outcome>)
    requires
        job.wf(),
        run_after(job, outcomes) is Some,
        run_after(job, outcomes)->0.stage == Stage::Finished,
    ensures
        Gpu::untouched(job.buffers.len()).after_all(trace(job, outcomes), outcomes).released(),
{
    lemma_run_after(job, outcomes);
}

/// A finished run has had the kernel carried out once to warm up and once between
/// two timestamps, and nothing else, and it has a measurement.
pub proof fn law_finished_run_measured_the_kernel(job: JobView, outcomes: Seq<Outcome>)
    requires
        job.wf(),
        run_after(job, outcomes) is Some,
        run_after(job, outcomes)->0.stage == Stage::Finished,
    ensures
        Gpu::untouched(job.buffers.len()).after_all(trace(job, outcomes), outcomes).executed
            == seq![commands(job, Pass::Warmup), commands(job, Pass::Timed)],
        run_after(job, outcomes)->0.ticks is Some,
{
    lemma_run_after(job, outcomes);
}

/// Timestamps are answered only where they were asked for, at most once, and the ticks
/// of a run are those between the two that were answered. From there on, and so when it
/// is finished, a run has had its answer.
pub proof fn law_ticks_are_those_of_the_answer(job: JobView, outcomes: Seq<Outcome>)
    requires
        job.wf(),
        run_after(job, outcomes) is Some,
    ensures
        ({
            let run = run_after(job, outcomes)->0;
            &&& forall|k: int|
                0 <= k < outcomes.len() ==> match #[trigger] outcomes[k] {
                    Outcome::Timestamps { start, stop } => {
                        &&& run.ticks == Some(ticks_between(start, stop))
                        &&& run.measured()
                        &&& trace(job, outcomes)[k] == Action::ReadTimestamps {
                            first: 0,
                            count: TIMESTAMPS,
                            flags: RESULT_64,
                        }
                        &&& forall|j: int|
                            0 <= j < outcomes.len() && #[trigger] outcomes[j] is Timestamps
                                ==> j == k
                    },
                    _ => true,
                }
            &&& run.measured() ==> exists|k: int|
                0 <= k < outcomes.len() && #[trigger] outcomes[k] is Timestamps
        }),
    decreases outcomes.len(),
{
    if outcomes.len() > 0 {
        let earlier = outcomes.drop_last();
        let outcome = outcomes.last();
        law_ticks_are_those_of_the_answer(job, earlier);
        lemma_run_after(job, earlier);
        let run = run_after(job, earlier)->0;
        let next = run.next(outcome)->Ok_0;
        lemma_next_filled(job.buffers, 0);
        match run.stage {
            Stage::Generate(i) => lemma_next_filled(job.buffers, i + 1),
            Stage::Upload(i) => lemma_next_filled(job.buffers, i + 1),
            _ => {},
        }
        assert(next.measured() == (run.measured() || outcome is Timestamps));
        assert(outcomes[outcomes.len() - 1] == outcome);
        assert(forall|k: int| 0 <= k < earlier.len() ==> #[trigger] outcomes[k] == earlier[k]);
        assert(trace(job, outcomes) == trace(job, earlier).push(run.action()));
        if run.measured() {
            let k = choose|k: int|
                0 <= k < earlier.len() && #[trigger] earlier[k] is Timestamps;
            assert(outcomes[k] is Timestamps);
        }
    }
}

/// The timed pass does what the warm-up did, with the device's own clock read right
/// before and right after, into queries that were reset first.
pub proof fn law_timed_pass_brackets_the_kernel(job: JobView)
    ensures
        commands(job, Pass::Timed) == seq![
            Command::ResetQueries { first: 0, count: 2 },
            Command::WriteTimestamp { stage: TOP_OF_PIPE, query: 0 },
        ] + commands(job, Pass::Warmup) + seq![
            Command::WriteTimestamp { stage: BOTTOM_OF_PIPE, query: 1 },
        ],
{
}

/// When the kernel is handed to the device, every buffer is bound to memory of the
/// planned size and holds what it was to be filled with.
pub proof fn law_kernel_sees_the_planned_buffers(job: JobView, outcomes: Seq<Outcome>, i: int)
    requires
        job.wf(),
        run_after(job, outcomes) is Some,
        run_after(job, outcomes)->0.stage is Submit,
        0 <= i < job.buffers.len(),
    ensures
        Gpu::untouched(job.buffers.len()).after_all(trace(job, outcomes), outcomes).buffers[i]
            == (BufferState::Bound {
            size: job.buffers[i].size,
            location: run_after(job, outcomes)->0.location(i),
            contents: job.buffers[i].fill,
        }),
{
    lemma_run_after(job, outcomes);
}

/// A run that is not finished can always go on.
pub proof fn law_run_never_stuck(run: RunView)
    requires
        run.wf(),
        run.stage != Stage::Finished,
    ensures
        run.next(Outcome::Done) is Ok || forall|start: u64, stop: u64|
            (#[trigger] run.next(Outcome::Timestamps { start, stop })) is Ok,
{
}

/// No more than this many actions are left.
pub open spec fn remaining(run: RunView) -> int {
    let n = run.job.buffers.len() as int;
    let passes: int = 33;
    match run.stage {
        Stage::Finished => 0,
        Stage::DropSetLayout => 1,
        Stage::DropDescriptorPool => 2,
        Stage::DropPipelineLayout => 3,
        Stage::DropPipeline => 4,
        Stage::FreeMemory(i) => 3 + 2 * (n - i),
        Stage::DropBuffer(i) => 4 + 2 * (n - i),
        Stage::FreeCommands => 5 + 2 * n,
        Stage::DropQueryPool => 6 + 2 * n,
        Stage::Timestamps => 7 + 2 * n,
        Stage::DropFence(Pass::Timed) => 8 + 2 * n,
        Stage::Wait(Pass::Timed) => 9 + 2 * n,
        Stage::Submit(Pass::Timed) => 10 + 2 * n,
        Stage::Fence(Pass::Timed) => 11 + 2 * n,
        Stage::End(Pass::Timed) => 12 + 2 * n,
        Stage::Record(Pass::Timed, i) => 19 - i + 2 * n,
        Stage::Begin(Pass::Timed) => 20 + 2 * n,
        Stage::ResetCommands => 21 + 2 * n,
        Stage::DropFence(Pass::Warmup) => 22 + 2 * n,
        Stage::Wait(Pass::Warmup) => 23 + 2 * n,
        Stage::Submit(Pass::Warmup) => 24 + 2 * n,
        Stage::Fence(Pass::Warmup) => 25 + 2 * n,
        Stage::End(Pass::Warmup) => 26 + 2 * n,
        Stage::Record(Pass::Warmup, i) => 30 - i + 2 * n,
        Stage::Begin(Pass::Warmup) => 31 + 2 * n,
        Stage::QueryPool => 32 + 2 * n,
        Stage::CommandBuffer => passes + 2 * n,
        Stage::WriteSet => passes + 1 + 2 * n,
        Stage::Upload(i) => passes + 1 + 2 * n + (n - i),
        Stage::Generate(i) => passes + 1 + 3 * n + (n - i),
        Stage::Note => passes + 2 + 4 * n,
        Stage::Bind(i) => passes + 3 + 4 * n + 6 * (n - i - 1),
        Stage::Allocate(i) => passes + 4 + 4 * n + 6 * (n - i - 1) + (if run.fallen[i as int]
            || !run.job.buffers[i as int].device_local {
            0int
        } else {
            3
        }),
        Stage::CreateBuffer(i) => passes + 5 + 4 * n + 6 * (n - i - 1) + (if run.fallen[i as int]
            || !run.job.buffers[i as int].device_local {
            0int
        } else {
            3
        }),
        Stage::Discard(i) => passes + 6 + 4 * n + 6 * (n - i - 1),
        Stage::DescriptorSet => passes + 3 + 10 * n,
        Stage::DescriptorPool => passes + 4 + 10 * n,
        Stage::DropShaderModule => passes + 5 + 10 * n,
        Stage::Pipeline => passes + 6 + 10 * n,
        Stage::PipelineLayout => passes + 7 + 10 * n,
        Stage::ShaderModule => passes + 8 + 10 * n,
        Stage::SetLayout => passes + 9 + 10 * n,
    }
}

spec fn gets_shorter(run: RunView, outcome: Outcome) -> bool {
    0 <= remaining(run.next(outcome)->Ok_0) < remaining(run)
}

proof fn lemma_shorter_in_preparation(run: RunView, outcome: Outcome)
    requires
        run.wf(),
        run.next(outcome) is Ok,
        phase(run.stage) < 7,
    ensures
        gets_shorter(run, outcome),
{
    lemma_next_filled(run.job.buffers, 0);
}

proof fn lemma_shorter_with_buffers(run: RunView, outcome: Outcome)
    requires
        run.wf(),
        run.next(outcome) is Ok,
        phase(run.stage) == 7,
    ensures
        gets_shorter(run, outcome),
{
    lemma_next_filled(run.job.buffers, 0);
    if let Stage::Bind(i) = run.stage {
        if i + 1 < run.job.buffers.len() {
            assert(run.next(outcome)->Ok_0.stage == Stage::CreateBuffer((i + 1) as usize));
        }
    }
}

proof fn lemma_shorter_with_data(run: RunView, outcome: Outcome)
    requires
        run.wf(),
        run.next(outcome) is Ok,
        8 <= phase(run.stage) <= 13,
    ensures
        gets_shorter(run, outcome),
{
    lemma_next_filled(run.job.buffers, 0);
    match run.stage {
        Stage::Generate(i) => lemma_next_filled(run.job.buffers, i + 1),
        Stage::Upload(i) => lemma_next_filled(run.job.buffers, i + 1),
        _ => {},
    }
}

proof fn lemma_shorter_in_passes(run: RunView, outcome: Outcome)
    requires
        run.wf(),
        run.next(outcome) is Ok,
        14 <= phase(run.stage) <= 16,
    ensures
        gets_shorter(run, outcome),
{
    assert(commands(run.job, Pass::Warmup).len() == 4);
    assert(commands(run.job, Pass::Timed).len() == 7);
}

proof fn lemma_shorter_after_passes(run: RunView, outcome: Outcome)
    requires
        run.wf(),
        run.next(outcome) is Ok,
        17 <= phase(run.stage),
    ensures
        gets_shorter(run, outcome),
{
}

proof fn lemma_remaining_decreases(run: RunView, outcome: Outcome)
    requires
        run.wf(),
        run.next(outcome) is Ok,
    ensures
        gets_shorter(run, outcome),
{
    let p = phase(run.stage);
    if p < 7 {
        lemma_shorter_in_preparation(run, outcome);
    } else if p == 7 {
        lemma_shorter_with_buffers(run, outcome);
    } else if p <= 13 {
        lemma_shorter_with_data(run, outcome);
    } else if p <= 16 {
        lemma_shorter_in_passes(run, outcome);
    } else {
        lemma_shorter_after_passes(run, outcome);
    }
}

/// Every run comes to its end: it asks for no more than 42 actions and ten for each
/// of its buffers.
pub proof fn law_every_run_ends(job: JobView, outcomes: Seq<Outcome>)
    requires
        job.wf(),
        run_after(job, outcomes) is Some,
    ensures
        outcomes.len() <= 42 + 10 * job.buffers.len(),
{
    lemma_run_is_bounded(job, outcomes);
}

proof fn lemma_run_is_bounded(job: JobView, outcomes: Seq<Outcome>)
    requires
        job.wf(),
        run_after(job, outcomes) is Some,
    ensures
        0 <= remaining(run_after(job, outcomes)->0),
        outcomes.len() + remaining(run_after(job, outcomes)->0) <= 42 + 10 * job.buffers.len(),
    decreases outcomes.len(),
{
    if outcomes.len() > 0 {
        let earlier = outcomes.drop_last();
        lemma_run_is_bounded(job, earlier);
        lemma_run_after(job, earlier);
        lemma_remaining_decreases(run_after(job, earlier)->0, outcomes.last());
    }
}

/// Some buffer has fallen back to shared memory exactly if the allocator has once
/// answered that it has no memory, and then, and only then, the user is told so, once.
pub proof fn law_fallback_is_told(job: JobView, outcomes: Seq<Outcome>)
    requires
        job.wf(),
        run_after(job, outcomes) is Some,
    ensures
        run_after(job, outcomes)->0.fallen.contains(true) <==> outcomes.contains(Outcome::NoMemory),
        run_after(job, outcomes)->0.stage == Stage::Finished ==> Gpu::untouched(
            job.buffers.len(),
        ).after_all(trace(job, outcomes), outcomes).notes == (if outcomes.contains(
            Outcome::NoMemory,
        ) {
            1nat
        } else {
            0
        }),
    decreases outcomes.len(),
{
    lemma_run_after(job, outcomes);
    if outcomes.len() > 0 {
        let earlier = outcomes.drop_last();
        law_fallback_is_told(job, earlier);
        let run = run_after(job, earlier)->0;
        let next = run_after(job, outcomes)->0;
        lemma_run_after(job, earlier);
        assert(outcomes =~= earlier.push(outcomes.last()));
        if outcomes.last() == Outcome::NoMemory {
            assert(outcomes[outcomes.len() - 1] == Outcome::NoMemory);
            if let Stage::Allocate(i) = run.stage {
                assert(next.fallen[i as int]);
            }
        } else {
            assert(next.fallen == run.fallen);
            if earlier.contains(Outcome::NoMemory) {
                let k = choose|k: int| 0 <= k < earlier.len() && earlier[k] == Outcome::NoMemory;
                assert(outcomes[k] == Outcome::NoMemory);
            }
        }
    }
}

/// The ticks of a measurement lead from its first timestamp to its second on the
/// device's clock, also where the clock has started over in between.
pub proof fn law_ticks_lead_from_start_to_stop(start: u64, stop: u64)
    ensures
        (start + ticks_between(start, stop)) % 0x1_0000_0000_0000_0000 == stop,
{
}

} // verus!

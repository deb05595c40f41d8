//! What a run of a compute benchmark asks for, action by action: what each action is
//! about, and which action follows which.

use vstd::prelude::*;
use crate::actions::{Action, Command, Fill, Location, Outcome, Pass, RunError};
use crate::job::JobView;
use crate::run::{commands, lemma_next_filled, RunView, Stage};
use crate::run_laws::{law_fallback_is_told, law_ticks_are_those_of_the_answer, lemma_run_after};
use crate::run_laws::{phase, run_after, trace};

verus! {

/// The device has answered that it has no memory of its own for buffer `slot`.
pub open spec fn was_refused(actions: Seq<Action>, outcomes: Seq<Outcome>, slot: usize) -> bool {
    exists|j: int|
        0 <= j < outcomes.len() && #[trigger] outcomes[j] == Outcome::NoMemory && actions[j] == (
        Action::AllocateMemory { slot, location: Location::GpuOnly })
}

/// The last step of a run that has taken one.
proof fn lemma_last_step(job: JobView, outcomes: Seq<Outcome>)
    requires
        job.wf(),
        run_after(job, outcomes) is Some,
        outcomes.len() > 0,
    ensures
        ({
            let earlier = outcomes.drop_last();
            let before = run_after(job, earlier)->0;
            &&& run_after(job, earlier) is Some
            &&& before.wf()
            &&& before.job == job
            &&& before.next(outcomes.last()) == Ok::<_, RunError>(run_after(job, outcomes)->0)
            &&& trace(job, outcomes) == trace(job, earlier).push(before.action())
            &&& trace(job, outcomes).last() == before.action()
            &&& trace(job, earlier).len() == earlier.len()
            &&& trace(job, outcomes).len() == outcomes.len()
        }),
{
    lemma_run_after(job, outcomes);
    lemma_run_after(job, outcomes.drop_last());
}

/// A buffer has fallen back exactly if the device was asked for it in vain.
proof fn lemma_refused(job: JobView, outcomes: Seq<Outcome>, slot: usize)
    requires
        job.wf(),
        run_after(job, outcomes) is Some,
        slot < job.buffers.len(),
    ensures
        run_after(job, outcomes)->0.fallen[slot as int] <==> was_refused(
            trace(job, outcomes),
            outcomes,
            slot,
        ),
    decreases outcomes.len(),
{
    if outcomes.len() > 0 {
        let earlier = outcomes.drop_last();
        let last = outcomes.len() - 1;
        lemma_last_step(job, outcomes);
        lemma_refused(job, earlier, slot);
        let before = run_after(job, earlier)->0;
        let asked = trace(job, earlier);
        let all = trace(job, outcomes);
        assert(forall|j: int|
            0 <= j < last ==> #[trigger] outcomes[j] == earlier[j] && all[j] == asked[j]);
        assert(outcomes[last] == outcomes.last() && all[last] == before.action());
        if was_refused(asked, earlier, slot) {
            let j = choose|j: int|
                0 <= j < earlier.len() && #[trigger] earlier[j] == Outcome::NoMemory && asked[j]
                    == (Action::AllocateMemory { slot, location: Location::GpuOnly });
            assert(outcomes[j] == Outcome::NoMemory);
        }
        if was_refused(all, outcomes, slot) {
            let j = choose|j: int|
                0 <= j < outcomes.len() && #[trigger] outcomes[j] == Outcome::NoMemory && all[j]
                    == (Action::AllocateMemory { slot, location: Location::GpuOnly });
            if j < last {
                assert(earlier[j] == Outcome::NoMemory);
            }
        }
    }
}

/// The command buffer was reset, and the timestamps were read, exactly if the run is past
/// that.
proof fn lemma_history(job: JobView, outcomes: Seq<Outcome>)
    requires
        job.wf(),
        run_after(job, outcomes) is Some,
    ensures
        (exists|j: int|
            0 <= j < outcomes.len() && #[trigger] trace(job, outcomes)[j] is ResetCommandBuffer)
            <==> phase(run_after(job, outcomes)->0.stage) > 15,
        (exists|j: int|
            0 <= j < outcomes.len() && #[trigger] trace(job, outcomes)[j] is ReadTimestamps)
            <==> phase(run_after(job, outcomes)->0.stage) > 17,
    decreases outcomes.len(),
{
    let all = trace(job, outcomes);
    if outcomes.len() > 0 {
        let earlier = outcomes.drop_last();
        let last = outcomes.len() - 1;
        lemma_last_step(job, outcomes);
        lemma_history(job, earlier);
        let before = run_after(job, earlier)->0;
        let asked = trace(job, earlier);
        lemma_phase_step(before, outcomes.last());
        assert(forall|j: int| 0 <= j < last ==> #[trigger] all[j] == asked[j]);
        assert(all[last] == before.action());
        if exists|j: int| 0 <= j < earlier.len() && #[trigger] asked[j] is ResetCommandBuffer {
            let j = choose|j: int|
                0 <= j < earlier.len() && #[trigger] asked[j] is ResetCommandBuffer;
            assert(all[j] is ResetCommandBuffer);
        }
        if exists|j: int| 0 <= j < earlier.len() && #[trigger] asked[j] is ReadTimestamps {
            let j = choose|j: int| 0 <= j < earlier.len() && #[trigger] asked[j] is ReadTimestamps;
            assert(all[j] is ReadTimestamps);
        }
    }
}

proof fn lemma_phase_step(run: RunView, outcome: Outcome)
    requires
        run.wf(),
        run.next(outcome) is Ok,
    ensures
        phase(run.next(outcome)->Ok_0.stage) > 15 <==> phase(run.stage) > 15 || run.action()
            is ResetCommandBuffer,
        phase(run.next(outcome)->Ok_0.stage) > 17 <==> phase(run.stage) > 17 || run.action()
            is ReadTimestamps,
{
}

/// What the next action is about. Its figures are those of the job: the bindings are as
/// many as the buffers, the push constants take four bytes each, a buffer is created in
/// its own size and filled with all of its own floats, the device's own memory is asked
/// for once and only for a buffer that is to have it, and the grid is the job's.
pub proof fn law_actions_are_about_the_job(job: JobView, outcomes: Seq<Outcome>)
    requires
        job.wf(),
        run_after(job, outcomes) is Some,
    ensures
        match run_after(job, outcomes)->0.action() {
            Action::CreateSetLayout { bindings } => bindings == job.buffers.len(),
            Action::CreateShaderModule { shader } => shader == job.shader,
            Action::CreatePipelineLayout { stages, push_offset, push_size } => {
                &&& stages == 0x20
                &&& push_offset == 0
                &&& push_size == 4 * job.push.len()
            },
            Action::CreatePipeline { stage, entry } => stage == 0x20 && entry@ == "main"@,
            Action::CreateDescriptorPool { kind, max_sets, max_descriptors } => {
                &&& kind == 7
                &&& max_sets == 1
                &&& max_descriptors == job.buffers.len()
            },
            Action::CreateBuffer { slot, size } => {
                &&& slot < job.buffers.len()
                &&& size == job.buffers[slot as int].size
            },
            Action::AllocateMemory { slot, location } => {
                &&& slot < job.buffers.len()
                &&& location == if job.buffers[slot as int].device_local && !was_refused(
                    trace(job, outcomes),
                    outcomes,
                    slot,
                ) {
                    Location::GpuOnly
                } else {
                    Location::CpuToGpu
                }
            },
            Action::NoteSharedMemory { text } => {
                &&& text@
                    == "  [note] GpuOnly alloc failed; dst buffer using CpuToGpu (UMA shared memory)"@
                &&& outcomes.contains(Outcome::NoMemory)
            },
            Action::Generate { slot, fill } => {
                &&& slot < job.buffers.len()
                &&& fill == job.buffers[slot as int].fill
                &&& fill != Fill::Empty
            },
            Action::Upload { slot, floats } => {
                &&& slot < job.buffers.len()
                &&& match job.buffers[slot as int].fill {
                    Fill::Empty => false,
                    Fill::Ramp { count } => floats == count,
                    Fill::Random { count } => floats == count,
                    Fill::Ones { count } => floats == count,
                }
            },
            Action::WriteDescriptorSet { count } => count == job.buffers.len(),
            Action::AllocateCommandBuffer { level, buffers } => level == 0 && buffers == 1,
            Action::CreateQueryPool { kind, count } => kind == 2 && count == 2,
            Action::ResetCommandBuffer { flags } => flags == 0,
            Action::BeginCommandBuffer { flags } => flags == 1,
            Action::Record(Command::ResetQueries { first, count }) => first == 0 && count == 2,
            Action::Record(Command::WriteTimestamp { stage, query }) => {
                ||| stage == 0x1 && query == 0
                ||| stage == 0x2000 && query == 1
            },
            Action::Record(Command::BindPipeline { bind_point }) => bind_point == 1,
            Action::Record(Command::BindDescriptorSet { bind_point, first_set }) => {
                &&& bind_point == 1
                &&& first_set == 0
            },
            Action::Record(Command::PushConstants { stages, offset, size }) => {
                &&& stages == 0x20
                &&& offset == 0
                &&& size == 4 * job.push.len()
            },
            Action::Record(Command::Dispatch { x, y, z }) => {
                &&& x == job.groups.x
                &&& y == job.groups.y
                &&& z == job.groups.z
            },
            Action::CreateFence { flags } => flags == 0,
            Action::WaitForFence { all, timeout } => all && timeout == 0xffff_ffff_ffff_ffff,
            Action::ReadTimestamps { first, count, flags } => {
                &&& first == 0
                &&& count == 2
                &&& flags == 1
            },
            Action::DestroyBuffer { slot } => slot < job.buffers.len(),
            Action::FreeMemory { slot } => slot < job.buffers.len(),
            Action::BindMemory { slot } => slot < job.buffers.len(),
            Action::Download { .. } | Action::StartClock | Action::StopClock => false,
            _ => true,
        },
{
    let run = run_after(job, outcomes)->0;
    lemma_run_after(job, outcomes);
    law_fallback_is_told(job, outcomes);
    match run.stage {
        Stage::Allocate(i) => lemma_refused(job, outcomes, i),
        Stage::Record(Pass::Warmup, i) => {
            assert(commands(job, Pass::Warmup).len() == 4);
            assert(0 <= i < 4);
        },
        Stage::Record(Pass::Timed, i) => {
            assert(commands(job, Pass::Timed).len() == 7);
            assert(0 <= i < 7);
        },
        _ => {},
    }
}

/// A run begins with the layout of the set, and what follows until there are buffers is
/// fixed. The buffers are made one after the other: each is created, given memory and
/// bound, and where the device has no memory of its own, it is destroyed and created
/// anew first.
pub proof fn law_buffers_are_made_in_order(job: JobView, outcomes: Seq<Outcome>)
    requires
        job.wf(),
        run_after(job, outcomes) is Some,
    ensures
        ({
            let next = run_after(job, outcomes)->0.action();
            if outcomes.len() == 0 {
                next is CreateSetLayout
            } else {
                match trace(job, outcomes).last() {
                    Action::CreateSetLayout { .. } => next is CreateShaderModule,
                    Action::CreateShaderModule { .. } => next is CreatePipelineLayout,
                    Action::CreatePipelineLayout { .. } => next is CreatePipeline,
                    Action::CreatePipeline { .. } => next == Action::DestroyShaderModule,
                    Action::DestroyShaderModule => next is CreateDescriptorPool,
                    Action::CreateDescriptorPool { .. } => next == Action::AllocateDescriptorSet,
                    Action::AllocateDescriptorSet => if job.buffers.len() > 0 {
                        next matches Action::CreateBuffer { slot, .. } && slot == 0
                    } else {
                        next is WriteDescriptorSet
                    },
                    Action::CreateBuffer { slot, .. } => {
                        next matches Action::AllocateMemory { slot: s, .. } && s == slot
                    },
                    Action::AllocateMemory { slot, .. } => if outcomes.last() == Outcome::NoMemory {
                        next == (Action::DestroyBuffer { slot })
                    } else {
                        next == (Action::BindMemory { slot })
                    },
                    Action::BindMemory { slot } => if slot + 1 < job.buffers.len() {
                        next matches Action::CreateBuffer { slot: s, .. } && s == slot + 1
                    } else {
                        next is NoteSharedMemory <==> outcomes.contains(Outcome::NoMemory)
                    },
                    Action::DestroyBuffer { slot } => if exists|j: int|
                        0 <= j < outcomes.len() && #[trigger] trace(job, outcomes)[j]
                            is ReadTimestamps {
                        next == (Action::FreeMemory { slot })
                    } else {
                        next matches Action::CreateBuffer { slot: s, .. } && s == slot
                    },
                    _ => true,
                }
            }
        }),
{
    lemma_run_after(job, outcomes);
    if outcomes.len() > 0 {
        lemma_last_step(job, outcomes);
        lemma_history(job, outcomes);
        law_fallback_is_told(job, outcomes);
        lemma_next_filled(job.buffers, 0);
    }
}

/// Once all buffers are there, and the user was told of shared memory if there was reason
/// to, the contents of every buffer that has some are computed, in order, and then copied,
/// in order. No such buffer is left out.
pub proof fn law_every_filled_buffer_is_filled(job: JobView, outcomes: Seq<Outcome>)
    requires
        job.wf(),
        run_after(job, outcomes) is Some,
        outcomes.len() > 0,
    ensures
        ({
            let next = run_after(job, outcomes)->0.action();
            match trace(job, outcomes).last() {
                Action::BindMemory { slot } => {
                    slot + 1 == job.buffers.len() && !outcomes.contains(Outcome::NoMemory)
                        ==> match next {
                        Action::Generate { slot: j, .. } => forall|i: int|
                            0 <= i < j ==> (#[trigger] job.buffers[i]).fill == Fill::Empty,
                        Action::WriteDescriptorSet { .. } => forall|i: int|
                            0 <= i < job.buffers.len() ==> (#[trigger] job.buffers[i]).fill
                                == Fill::Empty,
                        _ => false,
                    }
                },
                Action::NoteSharedMemory { .. } => match next {
                    Action::Generate { slot: j, .. } => forall|i: int|
                        0 <= i < j ==> (#[trigger] job.buffers[i]).fill == Fill::Empty,
                    Action::WriteDescriptorSet { .. } => forall|i: int|
                        0 <= i < job.buffers.len() ==> (#[trigger] job.buffers[i]).fill
                            == Fill::Empty,
                    _ => false,
                },
                Action::Generate { slot, .. } => match next {
                    Action::Generate { slot: j, .. } => slot < j && forall|i: int|
                        slot < i < j ==> (#[trigger] job.buffers[i]).fill == Fill::Empty,
                    Action::Upload { slot: j, .. } => {
                        &&& forall|i: int|
                            slot < i < job.buffers.len() ==> (#[trigger] job.buffers[i]).fill
                                == Fill::Empty
                        &&& forall|i: int|
                            0 <= i < j ==> (#[trigger] job.buffers[i]).fill == Fill::Empty
                    },
                    _ => false,
                },
                Action::Upload { slot, .. } => match next {
                    Action::Upload { slot: j, .. } => slot < j && forall|i: int|
                        slot < i < j ==> (#[trigger] job.buffers[i]).fill == Fill::Empty,
                    Action::WriteDescriptorSet { .. } => forall|i: int|
                        slot < i < job.buffers.len() ==> (#[trigger] job.buffers[i]).fill
                            == Fill::Empty,
                    _ => false,
                },
                _ => true,
            }
        }),
{
    lemma_last_step(job, outcomes);
    lemma_run_after(job, outcomes);
    law_fallback_is_told(job, outcomes);
    lemma_next_filled(job.buffers, 0);
    match run_after(job, outcomes.drop_last())->0.stage {
        Stage::Generate(i) => lemma_next_filled(job.buffers, i + 1),
        Stage::Upload(i) => lemma_next_filled(job.buffers, i + 1),
        _ => {},
    }
}

/// The commands are recorded twice, until the command buffer was reset without and after
/// that with timestamps: the pipeline and the set are bound, the constants pushed and the
/// grid started; and the second time the queries are reset first, and the device's clock is
/// read right before the pipeline is bound and right after the grid was started.
pub proof fn law_kernel_is_recorded_in_order(job: JobView, outcomes: Seq<Outcome>)
    requires
        job.wf(),
        run_after(job, outcomes) is Some,
        outcomes.len() > 0,
    ensures
        ({
            let next = run_after(job, outcomes)->0.action();
            let second = exists|j: int|
                0 <= j < outcomes.len() && #[trigger] trace(job, outcomes)[j]
                    is ResetCommandBuffer;
            match trace(job, outcomes).last() {
                Action::BeginCommandBuffer { .. } => match next {
                    Action::Record(Command::ResetQueries { .. }) => second,
                    Action::Record(Command::BindPipeline { .. }) => !second,
                    _ => false,
                },
                Action::Record(Command::ResetQueries { .. }) => next == Action::Record(
                    Command::WriteTimestamp { stage: 0x1, query: 0 },
                ),
                Action::Record(Command::WriteTimestamp { query, .. }) => match next {
                    Action::Record(Command::BindPipeline { .. }) => query == 0,
                    Action::EndCommandBuffer => query == 1,
                    _ => false,
                },
                Action::Record(Command::BindPipeline { .. }) => {
                    next matches Action::Record(command) && command is BindDescriptorSet
                },
                Action::Record(Command::BindDescriptorSet { .. }) => {
                    next matches Action::Record(command) && command is PushConstants
                },
                Action::Record(Command::PushConstants { .. }) => {
                    next matches Action::Record(command) && command is Dispatch
                },
                Action::Record(Command::Dispatch { .. }) => if second {
                    next == Action::Record(Command::WriteTimestamp { stage: 0x2000, query: 1 })
                } else {
                    next == Action::EndCommandBuffer
                },
                _ => true,
            }
        }),
{
    lemma_last_step(job, outcomes);
    lemma_run_after(job, outcomes);
    lemma_history(job, outcomes);
    let before = run_after(job, outcomes.drop_last())->0;
    match before.stage {
        Stage::Begin(pass) => lemma_recorded(before, pass, 0),
        Stage::Record(pass, i) => lemma_recorded(before, pass, i as int),
        _ => {},
    }
}

/// Command `i` of a pass.
proof fn lemma_recorded(run: RunView, pass: Pass, i: int)
    requires
        0 <= i < commands(run.job, pass).len(),
    ensures
        commands(run.job, pass).len() == match pass {
            Pass::Warmup => 4int,
            Pass::Timed => 7,
        },
        ({
            let k = match pass {
                Pass::Warmup => i + 2,
                Pass::Timed => i,
            };
            let command = commands(run.job, pass)[i];
            &&& command is ResetQueries <==> k == 0
            &&& command is WriteTimestamp <==> k == 1 || k == 6
            &&& k == 1 ==> command == (Command::WriteTimestamp { stage: 0x1, query: 0 })
            &&& command is BindPipeline <==> k == 2
            &&& command is BindDescriptorSet <==> k == 3
            &&& command is PushConstants <==> k == 4
            &&& command is Dispatch <==> k == 5
            &&& k == 6 ==> command == (Command::WriteTimestamp { stage: 0x2000, query: 1 })
        }),
        i + 1 < commands(run.job, pass).len() ==> ({
            let k = match pass {
                Pass::Warmup => i + 3,
                Pass::Timed => i + 1,
            };
            let command = commands(run.job, pass)[i + 1];
            &&& k == 1 ==> command == (Command::WriteTimestamp { stage: 0x1, query: 0 })
            &&& k == 2 ==> command is BindPipeline
            &&& k == 3 ==> command is BindDescriptorSet
            &&& k == 4 ==> command is PushConstants
            &&& k == 5 ==> command is Dispatch
            &&& k == 6 ==> command == (Command::WriteTimestamp { stage: 0x2000, query: 1 })
        }),
{
    assert(commands(run.job, Pass::Warmup).len() == 4);
    assert(commands(run.job, Pass::Timed).len() == 7);
}

/// What was recorded is submitted and waited for, twice. Before the second time the
/// command buffer is reset, and after it the timestamps are read.
pub proof fn law_passes_are_submitted_and_waited_for(job: JobView, outcomes: Seq<Outcome>)
    requires
        job.wf(),
        run_after(job, outcomes) is Some,
        outcomes.len() > 0,
    ensures
        ({
            let next = run_after(job, outcomes)->0.action();
            let second = exists|j: int|
                0 <= j < outcomes.len() && #[trigger] trace(job, outcomes)[j]
                    is ResetCommandBuffer;
            match trace(job, outcomes).last() {
                Action::WriteDescriptorSet { .. } => next is AllocateCommandBuffer,
                Action::AllocateCommandBuffer { .. } => next is CreateQueryPool,
                Action::CreateQueryPool { .. } => next is BeginCommandBuffer && !second,
                Action::ResetCommandBuffer { .. } => next is BeginCommandBuffer && second,
                Action::EndCommandBuffer => next is CreateFence,
                Action::CreateFence { .. } => next == Action::Submit,
                Action::Submit => next is WaitForFence,
                Action::WaitForFence { .. } => next == Action::DestroyFence,
                Action::DestroyFence => if second {
                    next is ReadTimestamps
                } else {
                    next is ResetCommandBuffer
                },
                _ => true,
            }
        }),
{
    lemma_last_step(job, outcomes);
    lemma_run_after(job, outcomes);
    lemma_history(job, outcomes);
}

/// After the timestamps were read everything is given back, first what only the passes
/// needed, then every buffer with its memory, in order, and last the pipeline, its layout,
/// the pool and the set's layout. A run is finished when that is done, and not before.
pub proof fn law_everything_is_given_back_in_order(job: JobView, outcomes: Seq<Outcome>)
    requires
        job.wf(),
        run_after(job, outcomes) is Some,
        outcomes.len() > 0,
    ensures
        ({
            let next = run_after(job, outcomes)->0.action();
            match trace(job, outcomes).last() {
                Action::ReadTimestamps { .. } => next == Action::DestroyQueryPool,
                Action::DestroyQueryPool => next == Action::FreeCommandBuffer,
                Action::FreeCommandBuffer => if job.buffers.len() > 0 {
                    next == (Action::DestroyBuffer { slot: 0 })
                } else {
                    next == Action::DestroyPipeline
                },
                Action::FreeMemory { slot } => if slot + 1 < job.buffers.len() {
                    next matches Action::DestroyBuffer { slot: s } && s == slot + 1
                } else {
                    next == Action::DestroyPipeline
                },
                Action::DestroyPipeline => next == Action::DestroyPipelineLayout,
                Action::DestroyPipelineLayout => next == Action::DestroyDescriptorPool,
                Action::DestroyDescriptorPool => next == Action::DestroySetLayout,
                Action::DestroySetLayout => next == Action::Finished,
                Action::Finished => false,
                _ => next != Action::Finished,
            }
        }),
        run_after(job, outcomes)->0.action() == Action::Finished <==> run_after(
            job,
            outcomes,
        )->0.stage == Stage::Finished,
{
    lemma_last_step(job, outcomes);
    lemma_run_after(job, outcomes);
    lemma_next_filled(job.buffers, 0);
    match run_after(job, outcomes.drop_last())->0.stage {
        Stage::Generate(i) => lemma_next_filled(job.buffers, i + 1),
        Stage::Upload(i) => lemma_next_filled(job.buffers, i + 1),
        _ => {},
    }
}

/// Timestamps are the answer to the reading of timestamps and to nothing else. That there
/// is no memory is an answer to the question for memory alone: it takes a run on if the
/// device's own memory was asked for, and ends it otherwise. To any other action the
/// answer is that it was carried out. The job stays what it is.
pub proof fn law_run_takes_answers_in_turn(run: RunView, outcome: Outcome)
    requires
        run.wf(),
    ensures
        run.next(outcome) is Ok <==> match outcome {
            Outcome::Done => !(run.action() is ReadTimestamps) && run.action()
                != Action::Finished,
            Outcome::NoMemory => run.action() matches Action::AllocateMemory { location, .. }
                && location == Location::GpuOnly,
            Outcome::Timestamps { .. } => run.action() is ReadTimestamps,
        },
        run.next(outcome) == Err::<RunView, _>(RunError::OutOfMemory) <==> outcome
            == Outcome::NoMemory && (run.action() matches Action::AllocateMemory {
            location,
            ..
        } && location != Location::GpuOnly),
        run.next(outcome) matches Ok(after) ==> after.job == run.job,
{
}

/// A run has no measurement until the timestamps were answered, and then the difference
/// of the two, on a clock that starts over after 2^64 ticks.
pub proof fn law_ticks_count_from_first_to_second(job: JobView, outcomes: Seq<Outcome>, k: int)
    requires
        job.wf(),
        run_after(job, outcomes) is Some,
        0 <= k < outcomes.len(),
    ensures
        outcomes[k] matches Outcome::Timestamps { start, stop } ==> {
            &&& run_after(job, outcomes)->0.ticks matches Some(ticks)
            &&& ticks == (stop - start) % 0x1_0000_0000_0000_0000
        },
        (forall|j: int| 0 <= j < outcomes.len() ==> !(#[trigger] outcomes[j] is Timestamps))
            ==> run_after(job, outcomes)->0.ticks is None,
{
    law_ticks_are_those_of_the_answer(job, outcomes);
    if forall|j: int| 0 <= j < outcomes.len() ==> !(#[trigger] outcomes[j] is Timestamps) {
        lemma_no_ticks(job, outcomes);
    }
}

proof fn lemma_no_ticks(job: JobView, outcomes: Seq<Outcome>)
    requires
        job.wf(),
        run_after(job, outcomes) is Some,
        forall|j: int| 0 <= j < outcomes.len() ==> !(#[trigger] outcomes[j] is Timestamps),
    ensures
        run_after(job, outcomes)->0.ticks is None,
    decreases outcomes.len(),
{
    if outcomes.len() > 0 {
        let earlier = outcomes.drop_last();
        assert(forall|j: int| 0 <= j < earlier.len() ==> #[trigger] earlier[j] == outcomes[j]);
        lemma_last_step(job, outcomes);
        lemma_no_ticks(job, earlier);
        assert(!(outcomes[outcomes.len() - 1] is Timestamps));
    }
}

} // verus!

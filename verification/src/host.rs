//! The host's own copies, to and from memory that it shares with the device, as a
//! state machine.

use vstd::prelude::*;
use crate::actions::{Action, Fill, Location, Outcome, RunError};
use crate::gpu::{lemma_accepts_push, BufferState, Gpu};
use crate::job::FLOAT_BYTES;

verus! {

/// How often a copy is repeated for one measurement.
pub const REPEATS: usize = 10;

/// The way the measured copies go.
#[derive(Clone, Copy, Debug, PartialEq, Eq, Structural)]
pub enum Direction {
    /// From the host into the buffer.
    Write,
    /// From the buffer to the host.
    Read,
}

/// Where a run of copies stands: the action that comes next.
#[derive(Clone, Copy, Debug, PartialEq, Eq, Structural)]
pub enum HostStage {
    CreateBuffer,
    Allocate,
    Bind,
    Generate,
    /// Gives the buffer something to be read.
    Prime,
    StartClock,
    Copy(usize),
    StopClock,
    DropBuffer,
    FreeMemory,
    Finished,
}

/// A run of copies of `count` floats.
#[derive(Clone, Copy, Debug, PartialEq, Eq, Structural)]
pub struct HostRun {
    pub direction: Direction,
    pub count: usize,
    pub stage: HostStage,
}

impl HostRun {
    /// A run that has done nothing yet.
    pub open spec fn begun(direction: Direction, count: usize) -> HostRun {
        HostRun { direction, count, stage: HostStage::CreateBuffer }
    }

    pub open spec fn wf(self) -> bool {
        &&& self.count * FLOAT_BYTES <= u64::MAX
        &&& match self.stage {
            HostStage::Copy(k) => k < REPEATS,
            HostStage::Prime => self.direction == Direction::Read,
            _ => true,
        }
    }

    /// The size of the buffer in bytes.
    pub open spec fn size(self) -> u64 {
        (self.count * FLOAT_BYTES) as u64
    }

    /// The kind of memory that the copies are meant for.
    pub open spec fn location(self) -> Location {
        match self.direction {
            Direction::Write => Location::CpuToGpu,
            Direction::Read => Location::GpuToCpu,
        }
    }

    /// One measured copy.
    pub open spec fn copy(self) -> Action {
        match self.direction {
            Direction::Write => Action::Upload { slot: 0, floats: self.count },
            Direction::Read => Action::Download { slot: 0, floats: self.count },
        }
    }

    /// The action that comes next.
    pub open spec fn next_action(self) -> Action {
        match self.stage {
            HostStage::CreateBuffer => Action::CreateBuffer { slot: 0, size: self.size() },
            HostStage::Allocate => Action::AllocateMemory { slot: 0, location: self.location() },
            HostStage::Bind => Action::BindMemory { slot: 0 },
            HostStage::Generate => Action::Generate {
                slot: 0,
                fill: Fill::Ramp { count: self.count },
            },
            HostStage::Prime => Action::Upload { slot: 0, floats: self.count },
            HostStage::StartClock => Action::StartClock,
            HostStage::Copy(_) => self.copy(),
            HostStage::StopClock => Action::StopClock,
            HostStage::DropBuffer => Action::DestroyBuffer { slot: 0 },
            HostStage::FreeMemory => Action::FreeMemory { slot: 0 },
            HostStage::Finished => Action::Finished,
        }
    }

    /// The stage that follows once the action of this stage was carried out.
    pub open spec fn following(self) -> HostStage {
        match self.stage {
            HostStage::CreateBuffer => HostStage::Allocate,
            HostStage::Allocate => HostStage::Bind,
            HostStage::Bind => HostStage::Generate,
            HostStage::Generate => match self.direction {
                Direction::Write => HostStage::StartClock,
                Direction::Read => HostStage::Prime,
            },
            HostStage::Prime => HostStage::StartClock,
            HostStage::StartClock => HostStage::Copy(0),
            HostStage::Copy(k) => if k + 1 < REPEATS {
                HostStage::Copy((k + 1) as usize)
            } else {
                HostStage::StopClock
            },
            HostStage::StopClock => HostStage::DropBuffer,
            HostStage::DropBuffer => HostStage::FreeMemory,
            HostStage::FreeMemory => HostStage::Finished,
            HostStage::Finished => HostStage::Finished,
        }
    }

    /// The run after `outcome`.
    pub open spec fn next(self, outcome: Outcome) -> Result<HostRun, RunError> {
        match (self.stage, outcome) {
            (HostStage::Finished, _) => Err(RunError::OutOfTurn),
            (_, Outcome::Done) => Ok(HostRun { stage: self.following(), ..self }),
            (HostStage::Allocate, Outcome::NoMemory) => Err(RunError::OutOfMemory),
            _ => Err(RunError::OutOfTurn),
        }
    }

    /// Starts a run of copies.
    pub fn new(direction: Direction, count: usize) -> (r: HostRun)
        requires
            count * FLOAT_BYTES <= u64::MAX,
        ensures
            r == HostRun::begun(direction, count),
            r.wf(),
    {
        HostRun { direction, count, stage: HostStage::CreateBuffer }
    }

    /// The action to carry out next.
    pub fn action(&self) -> (r: Action)
        requires
            self.wf(),
        ensures
            r == self.next_action(),
    {
        match self.stage {
            HostStage::CreateBuffer => Action::CreateBuffer {
                slot: 0,
                size: self.count as u64 * FLOAT_BYTES as u64,
            },
            HostStage::Allocate => Action::AllocateMemory {
                slot: 0,
                location: match self.direction {
                    Direction::Write => Location::CpuToGpu,
                    Direction::Read => Location::GpuToCpu,
                },
            },
            HostStage::Bind => Action::BindMemory { slot: 0 },
            HostStage::Generate => Action::Generate {
                slot: 0,
                fill: Fill::Ramp { count: self.count },
            },
            HostStage::Prime => Action::Upload { slot: 0, floats: self.count },
            HostStage::StartClock => Action::StartClock,
            HostStage::Copy(_) => match self.direction {
                Direction::Write => Action::Upload { slot: 0, floats: self.count },
                Direction::Read => Action::Download { slot: 0, floats: self.count },
            },
            HostStage::StopClock => Action::StopClock,
            HostStage::DropBuffer => Action::DestroyBuffer { slot: 0 },
            HostStage::FreeMemory => Action::FreeMemory { slot: 0 },
            HostStage::Finished => Action::Finished,
        }
    }

    /// Takes note of how the action went. An error leaves the run as it was.
    pub fn advance(&mut self, outcome: Outcome) -> (r: Result<(), RunError>)
        requires
            old(self).wf(),
        ensures
            match old(self).next(outcome) {
                Ok(after) => r is Ok && *final(self) == after,
                Err(e) => r == Err::<(), RunError>(e) && *final(self) == *old(self),
            },
            final(self).wf(),
    {
        match outcome {
            Outcome::Done => {},
            Outcome::NoMemory => {
                return match self.stage {
                    HostStage::Allocate => Err(RunError::OutOfMemory),
                    _ => Err(RunError::OutOfTurn),
                };
            },
            Outcome::Timestamps { .. } => {
                return Err(RunError::OutOfTurn);
            },
        }
        let stage = match self.stage {
            HostStage::CreateBuffer => HostStage::Allocate,
            HostStage::Allocate => HostStage::Bind,
            HostStage::Bind => HostStage::Generate,
            HostStage::Generate => match self.direction {
                Direction::Write => HostStage::StartClock,
                Direction::Read => HostStage::Prime,
            },
            HostStage::Prime => HostStage::StartClock,
            HostStage::StartClock => HostStage::Copy(0),
            HostStage::Copy(k) => if k + 1 < REPEATS {
                HostStage::Copy(k + 1)
            } else {
                HostStage::StopClock
            },
            HostStage::StopClock => HostStage::DropBuffer,
            HostStage::DropBuffer => HostStage::FreeMemory,
            HostStage::FreeMemory => HostStage::Finished,
            HostStage::Finished => {
                return Err(RunError::OutOfTurn);
            },
        };
        self.stage = stage;
        Ok(())
    }

    /// Whether nothing is left to do.
    pub fn is_finished(&self) -> (r: bool)
        ensures
            r == (self.stage == HostStage::Finished),
    {
        match self.stage {
            HostStage::Finished => true,
            _ => false,
        }
    }
}

/// Up to the point where the clock is started.
pub open spec fn up_to_clock(run: HostRun) -> Seq<Action> {
    let filled = seq![
        Action::CreateBuffer { slot: 0, size: run.size() },
        Action::AllocateMemory { slot: 0, location: run.location() },
        Action::BindMemory { slot: 0 },
        Action::Generate { slot: 0, fill: Fill::Ramp { count: run.count } },
    ];
    match run.direction {
        Direction::Write => filled,
        Direction::Read => filled.push(Action::Upload { slot: 0, floats: run.count }),
    }
}

/// All actions of a run: between the two readings of the clock, ten copies and
/// nothing else.
pub open spec fn host_script(direction: Direction, count: usize) -> Seq<Action> {
    let run = HostRun::begun(direction, count);
    up_to_clock(run) + seq![Action::StartClock] + Seq::new(REPEATS as nat, |k: int| run.copy())
        + seq![
        Action::StopClock,
        Action::DestroyBuffer { slot: 0 },
        Action::FreeMemory { slot: 0 },
    ]
}

/// The number of actions that were asked for when a run stands where `run` does.
spec fn position(run: HostRun) -> int {
    let start = up_to_clock(run).len() as int;
    match run.stage {
        HostStage::CreateBuffer => 0,
        HostStage::Allocate => 1,
        HostStage::Bind => 2,
        HostStage::Generate => 3,
        HostStage::Prime => 4,
        HostStage::StartClock => start,
        HostStage::Copy(k) => start + 1 + k,
        HostStage::StopClock => start + 11,
        HostStage::DropBuffer => start + 12,
        HostStage::FreeMemory => start + 13,
        HostStage::Finished => start + 14,
    }
}

/// The device when a run stands where `run` does.
spec fn host_device_at(run: HostRun) -> Gpu {
    let size = run.size();
    let location = run.location();
    let ramp = Fill::Ramp { count: run.count };
    let bound = |contents: Fill| BufferState::Bound { size, location, contents };
    let before_copies = match run.direction {
        Direction::Write => Fill::Empty,
        Direction::Read => ramp,
    };
    Gpu {
        buffers: seq![
            match run.stage {
                HostStage::CreateBuffer => BufferState::Absent,
                HostStage::Allocate => BufferState::Bare { size },
                HostStage::Bind => BufferState::Backed { size, location },
                HostStage::Generate => bound(Fill::Empty),
                HostStage::Prime => bound(Fill::Empty),
                HostStage::StartClock => bound(before_copies),
                HostStage::Copy(k) => bound(
                    if k == 0 {
                        before_copies
                    } else {
                        ramp
                    },
                ),
                HostStage::StopClock => bound(ramp),
                HostStage::DropBuffer => bound(ramp),
                HostStage::FreeMemory => BufferState::Leftover,
                HostStage::Finished => BufferState::Absent,
            },
        ],
        data: seq![
            match run.stage {
                HostStage::CreateBuffer
                | HostStage::Allocate
                | HostStage::Bind
                | HostStage::Generate => Fill::Empty,
                _ => ramp,
            },
        ],
        clock: match run.stage {
            HostStage::Copy(k) => Some(k as nat),
            HostStage::StopClock => Some(10),
            _ => None,
        },
        clocked: match run.stage {
            HostStage::DropBuffer | HostStage::FreeMemory | HostStage::Finished => Some(10),
            _ => None,
        },
        ..Gpu::untouched(1)
    }
}

/// The run after `outcomes`, if none of them was refused.
pub open spec fn host_run_after(
    direction: Direction,
    count: usize,
    outcomes: Seq<Outcome>,
) -> Option<HostRun>
    decreases outcomes.len(),
{
    if outcomes.len() == 0 {
        Some(HostRun::begun(direction, count))
    } else {
        match host_run_after(direction, count, outcomes.drop_last()) {
            Some(run) => match run.next(outcomes.last()) {
                Ok(next) => Some(next),
                Err(_) => None,
            },
            None => None,
        }
    }
}

/// The actions that a run has asked for, the `n`th of which went as `outcomes[n]` says.
pub open spec fn host_trace(
    direction: Direction,
    count: usize,
    outcomes: Seq<Outcome>,
) -> Seq<Action>
    decreases outcomes.len(),
{
    if outcomes.len() == 0 {
        Seq::empty()
    } else {
        match host_run_after(direction, count, outcomes.drop_last()) {
            Some(run) => host_trace(direction, count, outcomes.drop_last()).push(
                run.next_action(),
            ),
            None => Seq::empty(),
        }
    }
}

proof fn lemma_host_step(run: HostRun, outcome: Outcome)
    requires
        run.wf(),
        run.next(outcome) is Ok,
    ensures
        run.next(outcome)->Ok_0.wf(),
        host_device_at(run).legal(run.next_action()),
        host_device_at(run.next(outcome)->Ok_0) == host_device_at(run).after(
            run.next_action(),
            outcome,
        ),
        0 <= position(run) < host_script(run.direction, run.count).len(),
        position(run.next(outcome)->Ok_0) == position(run) + 1,
        host_script(run.direction, run.count)[position(run)] == run.next_action(),
{
    let next = run.next(outcome)->Ok_0;
    let after = host_device_at(run).after(run.next_action(), outcome);
    assert(host_device_at(next).buffers =~= after.buffers);
    assert(host_device_at(next).data =~= after.data);
    assert(host_device_at(next) =~= after);
    assert(up_to_clock(run) == up_to_clock(HostRun::begun(run.direction, run.count)));
}

proof fn lemma_host_run_after(direction: Direction, count: usize, outcomes: Seq<Outcome>)
    requires
        count * FLOAT_BYTES <= u64::MAX,
        host_run_after(direction, count, outcomes) is Some,
    ensures
        ({
            let run = host_run_after(direction, count, outcomes)->0;
            let actions = host_trace(direction, count, outcomes);
            &&& run.wf()
            &&& run.direction == direction
            &&& run.count == count
            &&& actions.len() == outcomes.len()
            &&& position(run) == outcomes.len()
            &&& outcomes.len() <= host_script(direction, count).len()
            &&& actions == host_script(direction, count).take(outcomes.len() as int)
            &&& Gpu::untouched(1).accepts(actions, outcomes)
            &&& Gpu::untouched(1).after_all(actions, outcomes) == host_device_at(run)
        }),
    decreases outcomes.len(),
{
    let gpu = Gpu::untouched(1);
    let all = host_script(direction, count);
    if outcomes.len() == 0 {
        let run = HostRun::begun(direction, count);
        assert(host_device_at(run).buffers =~= gpu.buffers);
        assert(host_device_at(run).data =~= gpu.data);
        assert(host_device_at(run) =~= gpu);
        assert(all.take(0) =~= Seq::empty());
    } else {
        let earlier = outcomes.drop_last();
        lemma_host_run_after(direction, count, earlier);
        let run = host_run_after(direction, count, earlier)->0;
        lemma_host_step(run, outcomes.last());
        lemma_accepts_push(
            gpu,
            host_trace(direction, count, earlier),
            earlier,
            run.next_action(),
            outcomes.last(),
        );
        assert(earlier.push(outcomes.last()) =~= outcomes);
        let n = earlier.len() as int;
        assert(all.take(n).push(all[n]) =~= all.take(n + 1));
    }
}

/// A run of copies asks the device only for what it may be asked for.
pub proof fn law_every_host_action_is_legal(
    direction: Direction,
    count: usize,
    outcomes: Seq<Outcome>,
)
    requires
        count * FLOAT_BYTES <= u64::MAX,
        host_run_after(direction, count, outcomes) is Some,
    ensures
        Gpu::untouched(1).accepts(host_trace(direction, count, outcomes), outcomes),
{
    lemma_host_run_after(direction, count, outcomes);
}

/// A run of copies never asks for more than its script, and is finished exactly when
/// it has asked for all of it.
pub proof fn law_host_run_follows_the_script(
    direction: Direction,
    count: usize,
    outcomes: Seq<Outcome>,
)
    requires
        count * FLOAT_BYTES <= u64::MAX,
        host_run_after(direction, count, outcomes) is Some,
    ensures
        outcomes.len() <= host_script(direction, count).len(),
        host_trace(direction, count, outcomes) == host_script(direction, count).take(
            outcomes.len() as int,
        ),
        host_run_after(direction, count, outcomes)->0.stage == HostStage::Finished
            <==> outcomes.len() == host_script(direction, count).len(),
{
    lemma_host_run_after(direction, count, outcomes);
}

/// A finished run of copies has left nothing on the device, and the clock has
/// measured ten copies.
pub proof fn law_finished_host_run_measured_ten_copies(
    direction: Direction,
    count: usize,
    outcomes: Seq<Outcome>,
)
    requires
        count * FLOAT_BYTES <= u64::MAX,
        host_run_after(direction, count, outcomes) is Some,
        host_run_after(direction, count, outcomes)->0.stage == HostStage::Finished,
    ensures
        Gpu::untouched(1).after_all(host_trace(direction, count, outcomes), outcomes).released(),
        Gpu::untouched(1).after_all(host_trace(direction, count, outcomes), outcomes).clocked
            == Some(REPEATS as nat),
{
    lemma_host_run_after(direction, count, outcomes);
}

/// What a run of copies asks for, action by action: a buffer for all of its floats in the
/// memory that suits its direction, the floats, for reads a first write of all of them,
/// and between the two readings of the clock ten copies, each of all of the floats.
pub proof fn law_host_actions_are_about_all_floats(
    direction: Direction,
    count: usize,
    outcomes: Seq<Outcome>,
    k: int,
)
    requires
        count * FLOAT_BYTES <= u64::MAX,
        host_run_after(direction, count, outcomes) is Some,
        0 <= k < outcomes.len(),
    ensures
        ({
            let all = host_trace(direction, count, outcomes);
            let clock: int = match direction {
                Direction::Write => 4,
                Direction::Read => 5,
            };
            &&& all.len() == outcomes.len()
            &&& match all[k] {
                Action::CreateBuffer { slot, size } => k == 0 && slot == 0 && size == 4 * count,
                Action::AllocateMemory { slot, location } => {
                    &&& k == 1
                    &&& slot == 0
                    &&& direction == Direction::Write ==> location == Location::CpuToGpu
                    &&& direction == Direction::Read ==> location == Location::GpuToCpu
                },
                Action::BindMemory { slot } => k == 2 && slot == 0,
                Action::Generate { slot, fill } => k == 3 && slot == 0 && fill == (Fill::Ramp {
                    count,
                }),
                Action::Upload { slot, floats } => {
                    &&& slot == 0
                    &&& floats == count
                    &&& direction == Direction::Write ==> clock < k <= clock + 10
                    &&& direction == Direction::Read ==> k == 4
                },
                Action::Download { slot, floats } => {
                    &&& slot == 0
                    &&& floats == count
                    &&& direction == Direction::Read
                    &&& clock < k <= clock + 10
                },
                Action::StartClock => k == clock,
                Action::StopClock => k == clock + 11,
                Action::DestroyBuffer { slot } => k == clock + 12 && slot == 0,
                Action::FreeMemory { slot } => k == clock + 13 && slot == 0,
                _ => false,
            }
        }),
{
    lemma_host_run_after(direction, count, outcomes);
    assert(host_trace(direction, count, outcomes)[k] == host_script(direction, count)[k]);
}

/// What the clock of a run measures: ten copies and nothing else, each of them of all of
/// the run's floats, from the host into the buffer or out of it.
pub proof fn law_clock_measures_ten_whole_copies(
    direction: Direction,
    count: usize,
    outcomes: Seq<Outcome>,
    start: int,
    stop: int,
    k: int,
)
    requires
        count * FLOAT_BYTES <= u64::MAX,
        host_run_after(direction, count, outcomes) is Some,
        0 <= start < k < stop < outcomes.len(),
        host_trace(direction, count, outcomes)[start] == Action::StartClock,
        host_trace(direction, count, outcomes)[stop] == Action::StopClock,
    ensures
        stop - start == 11,
        host_trace(direction, count, outcomes)[k] == match direction {
            Direction::Write => Action::Upload { slot: 0, floats: count },
            Direction::Read => Action::Download { slot: 0, floats: count },
        },
{
    law_host_actions_are_about_all_floats(direction, count, outcomes, start);
    law_host_actions_are_about_all_floats(direction, count, outcomes, stop);
    law_host_actions_are_about_all_floats(direction, count, outcomes, k);
}

/// A run of copies is finished exactly when it has asked for the last of its actions:
/// eighteen of them for writes, nineteen for reads, and not before.
pub proof fn law_host_run_ends_with_its_memory(
    direction: Direction,
    count: usize,
    outcomes: Seq<Outcome>,
)
    requires
        count * FLOAT_BYTES <= u64::MAX,
        host_run_after(direction, count, outcomes) is Some,
    ensures
        host_run_after(direction, count, outcomes)->0.stage == HostStage::Finished
            <==> outcomes.len() == (match direction {
            Direction::Write => 18int,
            Direction::Read => 19,
        }),
        host_run_after(direction, count, outcomes)->0.next_action() == Action::Finished
            <==> host_run_after(direction, count, outcomes)->0.stage == HostStage::Finished,
{
    lemma_host_run_after(direction, count, outcomes);
}

/// An action that was carried out takes a run of copies on, whatever the action; that
/// there is no memory is an answer to the one question for memory, and ends the run; and
/// nothing else is taken for an answer.
pub proof fn law_host_run_takes_answers_in_turn(run: HostRun, outcome: Outcome)
    requires
        run.wf(),
    ensures
        run.next(outcome) is Ok <==> outcome == Outcome::Done && run.next_action()
            != Action::Finished,
        run.next(outcome) == Err::<HostRun, _>(RunError::OutOfMemory) <==> outcome
            == Outcome::NoMemory && run.next_action() is AllocateMemory,
        run.next(outcome) matches Ok(after) ==> after.direction == run.direction && after.count
            == run.count,
{
}

} // verus!

//! A model of the device: which objects are alive and in which state, and which
//! actions it is allowed to be asked for.

use vstd::prelude::*;
use crate::actions::{Action, Command, Fill, Location, Outcome, Shader};
use crate::job::FLOAT_BYTES;
use crate::vulkan::{BIND_POINT_COMPUTE, DESCRIPTOR_STORAGE_BUFFER, LEVEL_PRIMARY, NO_FLAGS};
use crate::vulkan::{QUERY_TIMESTAMP, RESULT_64, STAGE_COMPUTE, USAGE_ONE_TIME_SUBMIT};

verus! {

/// A buffer and the memory behind it.
pub enum BufferState {
    /// Neither the buffer nor its memory exists.
    Absent,
    /// The buffer exists, without memory.
    Bare { size: u64 },
    /// Buffer and memory exist, not yet bound to each other.
    Backed { size: u64, location: Location },
    /// The buffer is bound to its memory, and the host has copied `contents` into it.
    Bound { size: u64, location: Location, contents: Fill },
    /// The buffer is gone, its memory is still allocated.
    Leftover,
}

/// The command buffer.
#[verifier::ext_equal]
pub enum CommandState {
    Absent,
    Initial,
    Recording(Seq<Command>),
    Executable(Seq<Command>),
    /// The device may be reading the commands.
    Pending(Seq<Command>),
    /// The one submission that it was recorded for is over.
    Spent,
}

/// The descriptor set.
pub enum SetState {
    Absent,
    Unwritten,
    Written,
}

/// The fence.
pub enum FenceState {
    Absent,
    Idle,
    Pending,
    Signaled,
}

/// All that one benchmark has on the device, and what it has done there.
#[verifier::ext_equal]
pub struct Gpu {
    /// The set layout, with its number of bindings.
    pub set_layout: Option<u32>,
    pub module: Option<Shader>,
    /// The pipeline layout, with its bytes of push constants.
    pub pipeline_layout: Option<u32>,
    pub pipeline: Option<Shader>,
    /// The descriptor pool, with its numbers of sets and of descriptors.
    pub pool: Option<(u32, u32)>,
    pub set: SetState,
    pub buffers: Seq<BufferState>,
    /// The floats that the host holds for each buffer.
    pub data: Seq<Fill>,
    pub commands: CommandState,
    /// The query pool, with its number of queries.
    pub queries: Option<u32>,
    pub fence: FenceState,
    /// The command lists that the device has carried out, oldest first.
    pub executed: Seq<Seq<Command>>,
    /// How often the user was told of shared memory.
    pub notes: nat,
    /// The number of copies since the host's clock was started, while it runs.
    pub clock: Option<nat>,
    /// The number of copies that the host's clock has measured.
    pub clocked: Option<nat>,
}

impl Gpu {
    /// A device on which nothing was done yet for a benchmark of `slots` buffers.
    pub open spec fn untouched(slots: nat) -> Gpu {
        Gpu {
            set_layout: None,
            module: None,
            pipeline_layout: None,
            pipeline: None,
            pool: None,
            set: SetState::Absent,
            buffers: Seq::new(slots, |i: int| BufferState::Absent),
            data: Seq::new(slots, |i: int| Fill::Empty),
            commands: CommandState::Absent,
            queries: None,
            fence: FenceState::Absent,
            executed: Seq::empty(),
            notes: 0,
            clock: None,
            clocked: None,
        }
    }

    /// No object and no memory is left.
    pub open spec fn released(self) -> bool {
        &&& self.set_layout is None
        &&& self.module is None
        &&& self.pipeline_layout is None
        &&& self.pipeline is None
        &&& self.pool is None
        &&& self.set is Absent
        &&& forall|i: int| 0 <= i < self.buffers.len() ==> (#[trigger] self.buffers[i]) is Absent
        &&& self.commands is Absent
        &&& self.queries is None
        &&& self.fence is Absent
    }

    /// The device may be using the objects that its commands name.
    pub open spec fn busy(self) -> bool {
        self.commands is Pending || self.fence is Pending
    }

    pub open spec fn has_slot(self, slot: usize) -> bool {
        slot < self.buffers.len() && slot < self.data.len()
    }

    /// The host can reach `count` floats in the buffer.
    pub open spec fn reachable(self, slot: usize, count: usize) -> bool {
        &&& self.has_slot(slot)
        &&& self.buffers[slot as int] matches BufferState::Bound { size, location, .. }
            && location.host_visible() && count * FLOAT_BYTES <= size
    }

    /// `command` may be recorded after `before`.
    pub open spec fn recordable(self, before: Seq<Command>, command: Command) -> bool {
        match command {
            Command::ResetQueries { first, count } => self.queries matches Some(n) && first
                + count <= n,
            // A query has to be reset before it is written.
            Command::WriteTimestamp { query, .. } => {
                &&& self.queries matches Some(n) && query < n
                &&& exists|i: int|
                    0 <= i < before.len() && (#[trigger] before[i] matches Command::ResetQueries {
                        first,
                        count,
                    } && first <= query < first + count)
            },
            Command::BindPipeline { bind_point } => self.pipeline is Some && bind_point
                == BIND_POINT_COMPUTE,
            Command::BindDescriptorSet { bind_point, .. } => {
                &&& self.set is Written
                &&& self.pipeline_layout is Some
                &&& bind_point == BIND_POINT_COMPUTE
            },
            Command::PushConstants { stages, offset, size } => {
                &&& self.pipeline_layout matches Some(n) && offset + size <= n
                &&& stages == STAGE_COMPUTE
            },
            // A kernel needs its pipeline, its buffers and its constants.
            Command::Dispatch { .. } => {
                &&& exists|i: int|
                    0 <= i < before.len() && (#[trigger] before[i]) is BindPipeline
                &&& exists|i: int|
                    0 <= i < before.len() && (#[trigger] before[i]) is BindDescriptorSet
                &&& exists|i: int|
                    0 <= i < before.len() && (#[trigger] before[i]) is PushConstants
            },
        }
    }

    /// The device may be asked for `action`.
    pub open spec fn legal(self, action: Action) -> bool {
        match action {
            Action::CreateSetLayout { .. } => self.set_layout is None,
            Action::CreateShaderModule { .. } => self.module is None,
            Action::CreatePipelineLayout { stages, .. } => {
                &&& self.set_layout is Some
                &&& self.pipeline_layout is None
                &&& stages == STAGE_COMPUTE
            },
            Action::CreatePipeline { stage, .. } => {
                &&& self.module is Some
                &&& self.pipeline_layout is Some
                &&& self.pipeline is None
                &&& stage == STAGE_COMPUTE
            },
            Action::DestroyShaderModule => self.module is Some,
            Action::CreateDescriptorPool { kind, .. } => self.pool is None && kind
                == DESCRIPTOR_STORAGE_BUFFER,
            Action::AllocateDescriptorSet => {
                &&& self.pool matches Some((sets, descriptors)) && self.set_layout matches Some(n)
                    && 1 <= sets && n <= descriptors
                &&& self.set is Absent
            },
            Action::CreateBuffer { slot, .. } => self.has_slot(slot) && self.buffers[slot as int]
                is Absent,
            Action::AllocateMemory { slot, .. } => self.has_slot(slot) && self.buffers[slot as int]
                is Bare,
            Action::BindMemory { slot } => self.has_slot(slot) && self.buffers[slot as int]
                is Backed,
            Action::NoteSharedMemory { .. } => true,
            Action::Generate { slot, .. } => self.has_slot(slot),
            Action::Upload { slot, floats } => self.reachable(slot, floats)
                && self.data[slot as int].count() == floats,
            Action::Download { slot, floats } => self.reachable(slot, floats),
            Action::StartClock => self.clock is None,
            Action::StopClock => self.clock is Some,
            // Each binding gets a buffer that has memory.
            Action::WriteDescriptorSet { count } => {
                &&& self.set is Unwritten
                &&& self.set_layout == Some(count)
                &&& count == self.buffers.len()
                &&& forall|i: int|
                    0 <= i < self.buffers.len() ==> (#[trigger] self.buffers[i]) is Bound
            },
            // Only a primary command buffer can be submitted.
            Action::AllocateCommandBuffer { level, buffers } => {
                &&& buffers == 1
                &&& level == LEVEL_PRIMARY
                &&& self.commands is Absent
            },
            Action::CreateQueryPool { kind, .. } => self.queries is None && kind
                == QUERY_TIMESTAMP,
            Action::ResetCommandBuffer { .. } => self.commands is Spent,
            Action::BeginCommandBuffer { flags } => self.commands is Initial && flags
                == USAGE_ONE_TIME_SUBMIT,
            Action::Record(command) => self.commands matches CommandState::Recording(before)
                && self.recordable(before, command),
            Action::EndCommandBuffer => self.commands is Recording,
            // A fence that is created with a flag would be signaled already.
            Action::CreateFence { flags } => self.fence is Absent && flags == NO_FLAGS,
            Action::Submit => self.commands is Executable && self.fence is Idle,
            Action::WaitForFence { .. } => self.fence is Pending && self.commands is Pending,
            Action::DestroyFence => self.fence is Signaled,
            // The queries hold timestamps, which have 64 bits.
            Action::ReadTimestamps { first, count, flags } => {
                &&& flags == RESULT_64
                &&& self.queries matches Some(n) && first + count <= n
                &&& self.executed.len() > 0
                &&& forall|q: u32|
                    first <= q < first + count ==> #[trigger] writes_query(self.executed.last(), q)
            },
            Action::DestroyQueryPool => self.queries is Some && !self.busy(),
            Action::FreeCommandBuffer => !(self.commands is Absent) && !self.busy(),
            Action::DestroyBuffer { slot } => {
                &&& self.has_slot(slot)
                &&& self.buffers[slot as int] is Bare || self.buffers[slot as int] is Bound
                &&& !self.busy()
            },
            Action::FreeMemory { slot } => self.has_slot(slot) && self.buffers[slot as int]
                is Leftover,
            Action::DestroyPipeline => self.pipeline is Some && !self.busy(),
            Action::DestroyPipelineLayout => self.pipeline_layout is Some && !self.busy(),
            Action::DestroyDescriptorPool => self.pool is Some && !self.busy(),
            Action::DestroySetLayout => self.set_layout is Some,
            Action::Finished => true,
        }
    }

    /// The device after `action` has gone as `outcome` says.
    pub open spec fn after(self, action: Action, outcome: Outcome) -> Gpu {
        match action {
            Action::CreateSetLayout { bindings } => Gpu { set_layout: Some(bindings), ..self },
            Action::CreateShaderModule { shader } => Gpu { module: Some(shader), ..self },
            Action::CreatePipelineLayout { push_size, .. } => Gpu {
                pipeline_layout: Some(push_size),
                ..self
            },
            Action::CreatePipeline { .. } => Gpu { pipeline: self.module, ..self },
            Action::DestroyShaderModule => Gpu { module: None, ..self },
            Action::CreateDescriptorPool { max_sets, max_descriptors, .. } => Gpu {
                pool: Some((max_sets, max_descriptors)),
                ..self
            },
            Action::AllocateDescriptorSet => Gpu { set: SetState::Unwritten, ..self },
            Action::CreateBuffer { slot, size } => self.with_buffer(
                slot,
                BufferState::Bare { size },
            ),
            Action::AllocateMemory { slot, location } => match (
                self.buffers[slot as int],
                outcome,
            ) {
                (BufferState::Bare { size }, Outcome::Done) => self.with_buffer(
                    slot,
                    BufferState::Backed { size, location },
                ),
                _ => self,
            },
            Action::BindMemory { slot } => match self.buffers[slot as int] {
                BufferState::Backed { size, location } => self.with_buffer(
                    slot,
                    BufferState::Bound { size, location, contents: Fill::Empty },
                ),
                _ => self,
            },
            Action::NoteSharedMemory { .. } => Gpu { notes: self.notes + 1, ..self },
            Action::Generate { slot, fill } => Gpu {
                data: self.data.update(slot as int, fill),
                ..self
            },
            Action::Upload { slot, .. } => match self.buffers[slot as int] {
                BufferState::Bound { size, location, .. } => Gpu {
                    buffers: self.buffers.update(
                        slot as int,
                        BufferState::Bound { size, location, contents: self.data[slot as int] },
                    ),
                    clock: self.clock_after_copy(),
                    ..self
                },
                _ => self,
            },
            Action::Download { .. } => Gpu { clock: self.clock_after_copy(), ..self },
            Action::StartClock => Gpu { clock: Some(0), ..self },
            Action::StopClock => Gpu { clock: None, clocked: self.clock, ..self },
            Action::WriteDescriptorSet { .. } => Gpu { set: SetState::Written, ..self },
            Action::AllocateCommandBuffer { .. } => Gpu { commands: CommandState::Initial, ..self },
            Action::CreateQueryPool { count, .. } => Gpu { queries: Some(count), ..self },
            Action::ResetCommandBuffer { .. } => Gpu { commands: CommandState::Initial, ..self },
            Action::BeginCommandBuffer { .. } => Gpu {
                commands: CommandState::Recording(Seq::empty()),
                ..self
            },
            Action::Record(command) => match self.commands {
                CommandState::Recording(before) => Gpu {
                    commands: CommandState::Recording(before.push(command)),
                    ..self
                },
                _ => self,
            },
            Action::EndCommandBuffer => match self.commands {
                CommandState::Recording(list) => Gpu {
                    commands: CommandState::Executable(list),
                    ..self
                },
                _ => self,
            },
            Action::CreateFence { .. } => Gpu { fence: FenceState::Idle, ..self },
            Action::Submit => match self.commands {
                CommandState::Executable(list) => Gpu {
                    commands: CommandState::Pending(list),
                    fence: FenceState::Pending,
                    ..self
                },
                _ => self,
            },
            Action::WaitForFence { .. } => match self.commands {
                CommandState::Pending(list) => Gpu {
                    commands: CommandState::Spent,
                    fence: FenceState::Signaled,
                    executed: self.executed.push(list),
                    ..self
                },
                _ => self,
            },
            Action::DestroyFence => Gpu { fence: FenceState::Absent, ..self },
            Action::ReadTimestamps { .. } => self,
            Action::DestroyQueryPool => Gpu { queries: None, ..self },
            Action::FreeCommandBuffer => Gpu { commands: CommandState::Absent, ..self },
            Action::DestroyBuffer { slot } => self.with_buffer(
                slot,
                if self.buffers[slot as int] is Bare {
                    BufferState::Absent
                } else {
                    BufferState::Leftover
                },
            ),
            Action::FreeMemory { slot } => self.with_buffer(slot, BufferState::Absent),
            Action::DestroyPipeline => Gpu { pipeline: None, ..self },
            Action::DestroyPipelineLayout => Gpu { pipeline_layout: None, ..self },
            Action::DestroyDescriptorPool => Gpu { pool: None, set: SetState::Absent, ..self },
            Action::DestroySetLayout => Gpu { set_layout: None, ..self },
            Action::Finished => self,
        }
    }

    pub open spec fn with_buffer(self, slot: usize, state: BufferState) -> Gpu {
        Gpu { buffers: self.buffers.update(slot as int, state), ..self }
    }

    pub open spec fn clock_after_copy(self) -> Option<nat> {
        match self.clock {
            Some(n) => Some(n + 1),
            None => None,
        }
    }
}

impl Gpu {
    /// The device after the first `n` actions.
    pub open spec fn after_first(self, actions: Seq<Action>, outcomes: Seq<Outcome>, n: int) -> Gpu
        decreases n,
    {
        if n <= 0 {
            self
        } else {
            self.after_first(actions, outcomes, n - 1).after(actions[n - 1], outcomes[n - 1])
        }
    }

    /// The device after all actions.
    pub open spec fn after_all(self, actions: Seq<Action>, outcomes: Seq<Outcome>) -> Gpu {
        self.after_first(actions, outcomes, actions.len() as int)
    }

    /// Each action is legal when its turn comes.
    pub open spec fn accepts(self, actions: Seq<Action>, outcomes: Seq<Outcome>) -> bool {
        forall|n: int|
            0 <= n < actions.len() ==> #[trigger] self.after_first(actions, outcomes, n).legal(
                actions[n],
            )
    }
}

/// What the device was before does not depend on what comes later.
pub proof fn lemma_after_first_prefix(
    gpu: Gpu,
    actions: Seq<Action>,
    outcomes: Seq<Outcome>,
    action: Action,
    outcome: Outcome,
    n: int,
)
    requires
        0 <= n <= actions.len(),
        actions.len() == outcomes.len(),
    ensures
        gpu.after_first(actions.push(action), outcomes.push(outcome), n) == gpu.after_first(
            actions,
            outcomes,
            n,
        ),
    decreases n,
{
    if n > 0 {
        lemma_after_first_prefix(gpu, actions, outcomes, action, outcome, n - 1);
    }
}

/// One more legal action keeps a sequence of actions legal.
pub proof fn lemma_accepts_push(
    gpu: Gpu,
    actions: Seq<Action>,
    outcomes: Seq<Outcome>,
    action: Action,
    outcome: Outcome,
)
    requires
        actions.len() == outcomes.len(),
        gpu.accepts(actions, outcomes),
        gpu.after_all(actions, outcomes).legal(action),
    ensures
        gpu.accepts(actions.push(action), outcomes.push(outcome)),
        gpu.after_all(actions.push(action), outcomes.push(outcome)) == gpu.after_all(
            actions,
            outcomes,
        ).after(action, outcome),
{
    let longer = actions.push(action);
    let replies = outcomes.push(outcome);
    lemma_after_first_prefix(gpu, actions, outcomes, action, outcome, actions.len() as int);
    assert forall|n: int| 0 <= n < longer.len() implies #[trigger] gpu.after_first(
        longer,
        replies,
        n,
    ).legal(longer[n]) by {
        lemma_after_first_prefix(gpu, actions, outcomes, action, outcome, n);
        if n < actions.len() {
            assert(gpu.after_first(actions, outcomes, n).legal(actions[n]));
        }
    }
}

/// A command list leaves a timestamp in query `query`.
pub open spec fn writes_query(list: Seq<Command>, query: u32) -> bool {
    exists|i: int|
        0 <= i < list.len() && (#[trigger] list[i] matches Command::WriteTimestamp {
            query: q,
            ..
        } && q == query)
}

} // verus!

//! A compute benchmark as a state machine: one action at a time, from the first
//! object created to the last one destroyed.

use vstd::endian::{endianness, Endian};
use vstd::prelude::*;
use crate::actions::{Action, Command, Fill, Location, Outcome, Pass, RunError};
use crate::actions::{ENTRY_POINT, SHARED_MEMORY_NOTE};
use crate::job::{BufferPlan, Job, JobView};
use crate::memory::{cast_words, image, law_bytes_write_the_word};
use crate::vulkan::{BIND_POINT_COMPUTE, BOTTOM_OF_PIPE, DESCRIPTOR_STORAGE_BUFFER};
use crate::vulkan::{LEVEL_PRIMARY, NO_FLAGS, QUERY_TIMESTAMP, RESULT_64, STAGE_COMPUTE};
use crate::vulkan::{TOP_OF_PIPE, USAGE_ONE_TIME_SUBMIT};

verus! {

/// The number of timestamps that the timed pass takes.
pub const TIMESTAMPS: u32 = 2;

/// Where a run stands: the action that comes next.
#[derive(Clone, Copy, Debug, PartialEq, Eq, Structural)]
pub enum Stage {
    SetLayout,
    ShaderModule,
    PipelineLayout,
    Pipeline,
    DropShaderModule,
    DescriptorPool,
    DescriptorSet,
    CreateBuffer(usize),
    Allocate(usize),
    /// Gives up a buffer for which the device had no memory.
    Discard(usize),
    Bind(usize),
    Note,
    Generate(usize),
    Upload(usize),
    WriteSet,
    CommandBuffer,
    QueryPool,
    ResetCommands,
    Begin(Pass),
    Record(Pass, usize),
    End(Pass),
    Fence(Pass),
    Submit(Pass),
    Wait(Pass),
    DropFence(Pass),
    Timestamps,
    DropQueryPool,
    FreeCommands,
    DropBuffer(usize),
    FreeMemory(usize),
    DropPipeline,
    DropPipelineLayout,
    DropDescriptorPool,
    DropSetLayout,
    Finished,
}

/// The model of a [`Run`].
#[verifier::ext_equal]
pub struct RunView {
    pub job: JobView,
    pub stage: Stage,
    /// Which buffers had to settle for host-visible memory.
    pub fallen: Seq<bool>,
    /// The device's ticks between the two timestamps, once they were read.
    pub ticks: Option<u64>,
}

/// The commands that run the kernel of `job` once.
pub open spec fn kernel(job: JobView) -> Seq<Command> {
    seq![
        Command::BindPipeline { bind_point: BIND_POINT_COMPUTE },
        Command::BindDescriptorSet { bind_point: BIND_POINT_COMPUTE, first_set: 0 },
        Command::PushConstants {
            stages: STAGE_COMPUTE,
            offset: 0,
            size: job.push_size() as u32,
        },
        Command::Dispatch { x: job.groups.x, y: job.groups.y, z: job.groups.z },
    ]
}

/// The commands of one pass: the kernel, in the timed pass between two timestamps.
pub open spec fn commands(job: JobView, pass: Pass) -> Seq<Command> {
    match pass {
        Pass::Warmup => kernel(job),
        Pass::Timed => seq![
            Command::ResetQueries { first: 0, count: TIMESTAMPS },
            Command::WriteTimestamp { stage: TOP_OF_PIPE, query: 0 },
        ] + kernel(job) + seq![
            Command::WriteTimestamp { stage: BOTTOM_OF_PIPE, query: 1 },
        ],
    }
}

/// The first buffer from `i` on that the host fills.
pub open spec fn next_filled(buffers: Seq<BufferPlan>, i: int) -> Option<int>
    decreases buffers.len() - i,
{
    if i >= buffers.len() {
        None
    } else if buffers[i].fill != Fill::Empty {
        Some(i)
    } else {
        next_filled(buffers, i + 1)
    }
}

/// The ticks from `start` to `stop` on a clock that counts modulo 2^64.
pub open spec fn ticks_between(start: u64, stop: u64) -> u64 {
    if start <= stop {
        (stop - start) as u64
    } else {
        (stop - start + 0x1_0000_0000_0000_0000) as u64
    }
}

impl RunView {
    /// A run that has done nothing yet.
    pub open spec fn begun(job: JobView) -> RunView {
        RunView {
            job,
            stage: Stage::SetLayout,
            fallen: Seq::new(job.buffers.len(), |i: int| false),
            ticks: None,
        }
    }

    pub open spec fn wf(self) -> bool {
        &&& self.job.wf()
        &&& self.fallen.len() == self.job.buffers.len()
        &&& forall|i: int|
            0 <= i < self.fallen.len() && #[trigger] self.fallen[i] ==> self.job.buffers[i].device_local
        &&& match self.stage {
            Stage::CreateBuffer(i) => self.has_slot(i),
            Stage::Allocate(i) => self.has_slot(i),
            Stage::Discard(i) => self.has_slot(i) && self.fallen[i as int],
            Stage::Bind(i) => self.has_slot(i),
            Stage::Note => self.fallen.contains(true),
            Stage::Generate(i) => self.has_slot(i) && self.job.buffers[i as int].fill
                != Fill::Empty,
            Stage::Upload(i) => self.has_slot(i) && self.job.buffers[i as int].fill
                != Fill::Empty,
            Stage::Record(pass, i) => i < commands(self.job, pass).len(),
            Stage::DropBuffer(i) => self.has_slot(i),
            Stage::FreeMemory(i) => self.has_slot(i),
            _ => true,
        }
        &&& self.measured() ==> self.ticks is Some
        // A buffer that was not tried yet has not fallen back.
        &&& forall|j: int|
            self.tried() <= j < self.fallen.len() ==> !(#[trigger] self.fallen[j])
    }

    pub open spec fn has_slot(self, i: usize) -> bool {
        i < self.job.buffers.len()
    }

    /// The number of buffers for which memory was asked already, or is being asked.
    pub open spec fn tried(self) -> int {
        match self.stage {
            Stage::SetLayout
            | Stage::ShaderModule
            | Stage::PipelineLayout
            | Stage::Pipeline
            | Stage::DropShaderModule
            | Stage::DescriptorPool
            | Stage::DescriptorSet => 0,
            Stage::CreateBuffer(i) => i + 1,
            Stage::Allocate(i) => i + 1,
            Stage::Discard(i) => i + 1,
            Stage::Bind(i) => i + 1,
            _ => self.fallen.len() as int,
        }
    }

    /// The timestamps were read.
    pub open spec fn measured(self) -> bool {
        match self.stage {
            Stage::DropQueryPool
            | Stage::FreeCommands
            | Stage::DropBuffer(_)
            | Stage::FreeMemory(_)
            | Stage::DropPipeline
            | Stage::DropPipelineLayout
            | Stage::DropDescriptorPool
            | Stage::DropSetLayout
            | Stage::Finished => true,
            _ => false,
        }
    }

    /// The kind of memory to ask for buffer `i`.
    pub open spec fn location(self, i: int) -> Location {
        if self.job.buffers[i].device_local && !self.fallen[i] {
            Location::GpuOnly
        } else {
            Location::CpuToGpu
        }
    }

    /// The action that comes next.
    pub open spec fn action(self) -> Action {
        match self.stage {
            Stage::SetLayout => Action::CreateSetLayout {
                bindings: self.job.buffers.len() as u32,
            },
            Stage::ShaderModule => Action::CreateShaderModule { shader: self.job.shader },
            Stage::PipelineLayout => Action::CreatePipelineLayout {
                stages: STAGE_COMPUTE,
                push_offset: 0,
                push_size: self.job.push_size() as u32,
            },
            Stage::Pipeline => Action::CreatePipeline {
                stage: STAGE_COMPUTE,
                entry: ENTRY_POINT,
            },
            Stage::DropShaderModule => Action::DestroyShaderModule,
            Stage::DescriptorPool => Action::CreateDescriptorPool {
                kind: DESCRIPTOR_STORAGE_BUFFER,
                max_sets: 1,
                max_descriptors: self.job.buffers.len() as u32,
            },
            Stage::DescriptorSet => Action::AllocateDescriptorSet,
            Stage::CreateBuffer(i) => Action::CreateBuffer {
                slot: i,
                size: self.job.buffers[i as int].size,
            },
            Stage::Allocate(i) => Action::AllocateMemory {
                slot: i,
                location: self.location(i as int),
            },
            Stage::Discard(i) => Action::DestroyBuffer { slot: i },
            Stage::Bind(i) => Action::BindMemory { slot: i },
            Stage::Note => Action::NoteSharedMemory { text: SHARED_MEMORY_NOTE },
            Stage::Generate(i) => Action::Generate {
                slot: i,
                fill: self.job.buffers[i as int].fill,
            },
            Stage::Upload(i) => Action::Upload {
                slot: i,
                floats: self.job.buffers[i as int].fill.count() as usize,
            },
            Stage::WriteSet => Action::WriteDescriptorSet {
                count: self.job.buffers.len() as u32,
            },
            Stage::CommandBuffer => Action::AllocateCommandBuffer {
                level: LEVEL_PRIMARY,
                buffers: 1,
            },
            Stage::QueryPool => Action::CreateQueryPool {
                kind: QUERY_TIMESTAMP,
                count: TIMESTAMPS,
            },
            Stage::ResetCommands => Action::ResetCommandBuffer { flags: NO_FLAGS },
            Stage::Begin(_) => Action::BeginCommandBuffer { flags: USAGE_ONE_TIME_SUBMIT },
            Stage::Record(pass, i) => Action::Record(commands(self.job, pass)[i as int]),
            Stage::End(_) => Action::EndCommandBuffer,
            Stage::Fence(_) => Action::CreateFence { flags: NO_FLAGS },
            Stage::Submit(_) => Action::Submit,
            Stage::Wait(_) => Action::WaitForFence { all: true, timeout: u64::MAX },
            Stage::DropFence(_) => Action::DestroyFence,
            Stage::Timestamps => Action::ReadTimestamps {
                first: 0,
                count: TIMESTAMPS,
                flags: RESULT_64,
            },
            Stage::DropQueryPool => Action::DestroyQueryPool,
            Stage::FreeCommands => Action::FreeCommandBuffer,
            Stage::DropBuffer(i) => Action::DestroyBuffer { slot: i },
            Stage::FreeMemory(i) => Action::FreeMemory { slot: i },
            Stage::DropPipeline => Action::DestroyPipeline,
            Stage::DropPipelineLayout => Action::DestroyPipelineLayout,
            Stage::DropDescriptorPool => Action::DestroyDescriptorPool,
            Stage::DropSetLayout => Action::DestroySetLayout,
            Stage::Finished => Action::Finished,
        }
    }

    /// From buffer `i` on, buffers are created; then they are filled.
    pub open spec fn buffers_from(self, i: int) -> Stage {
        if i < self.job.buffers.len() {
            Stage::CreateBuffer(i as usize)
        } else if self.fallen.contains(true) {
            Stage::Note
        } else {
            self.data_from(0)
        }
    }

    /// From buffer `i` on, contents are computed; then they are copied.
    pub open spec fn data_from(self, i: int) -> Stage {
        match next_filled(self.job.buffers, i) {
            Some(j) => Stage::Generate(j as usize),
            None => self.uploads_from(0),
        }
    }

    /// From buffer `i` on, contents are copied; then the set is written.
    pub open spec fn uploads_from(self, i: int) -> Stage {
        match next_filled(self.job.buffers, i) {
            Some(j) => Stage::Upload(j as usize),
            None => Stage::WriteSet,
        }
    }

    /// From buffer `i` on, buffers are destroyed; then the pipeline is.
    pub open spec fn drops_from(self, i: int) -> Stage {
        if i < self.job.buffers.len() {
            Stage::DropBuffer(i as usize)
        } else {
            Stage::DropPipeline
        }
    }

    /// The stage that follows once the action of this stage was carried out.
    pub open spec fn following(self) -> Stage {
        match self.stage {
            Stage::SetLayout => Stage::ShaderModule,
            Stage::ShaderModule => Stage::PipelineLayout,
            Stage::PipelineLayout => Stage::Pipeline,
            Stage::Pipeline => Stage::DropShaderModule,
            Stage::DropShaderModule => Stage::DescriptorPool,
            Stage::DescriptorPool => Stage::DescriptorSet,
            Stage::DescriptorSet => self.buffers_from(0),
            Stage::CreateBuffer(i) => Stage::Allocate(i),
            Stage::Allocate(i) => Stage::Bind(i),
            Stage::Discard(i) => Stage::CreateBuffer(i),
            Stage::Bind(i) => self.buffers_from(i + 1),
            Stage::Note => self.data_from(0),
            Stage::Generate(i) => self.data_from(i + 1),
            Stage::Upload(i) => self.uploads_from(i + 1),
            Stage::WriteSet => Stage::CommandBuffer,
            Stage::CommandBuffer => Stage::QueryPool,
            Stage::QueryPool => Stage::Begin(Pass::Warmup),
            Stage::ResetCommands => Stage::Begin(Pass::Timed),
            Stage::Begin(pass) => Stage::Record(pass, 0),
            Stage::Record(pass, i) => if i + 1 < commands(self.job, pass).len() {
                Stage::Record(pass, (i + 1) as usize)
            } else {
                Stage::End(pass)
            },
            Stage::End(pass) => Stage::Fence(pass),
            Stage::Fence(pass) => Stage::Submit(pass),
            Stage::Submit(pass) => Stage::Wait(pass),
            Stage::Wait(pass) => Stage::DropFence(pass),
            Stage::DropFence(Pass::Warmup) => Stage::ResetCommands,
            Stage::DropFence(Pass::Timed) => Stage::Timestamps,
            Stage::Timestamps => Stage::DropQueryPool,
            Stage::DropQueryPool => Stage::FreeCommands,
            Stage::FreeCommands => self.drops_from(0),
            Stage::DropBuffer(i) => Stage::FreeMemory(i),
            Stage::FreeMemory(i) => self.drops_from(i + 1),
            Stage::DropPipeline => Stage::DropPipelineLayout,
            Stage::DropPipelineLayout => Stage::DropDescriptorPool,
            Stage::DropDescriptorPool => Stage::DropSetLayout,
            Stage::DropSetLayout => Stage::Finished,
            Stage::Finished => Stage::Finished,
        }
    }

    /// The run after `outcome`.
    pub open spec fn next(self, outcome: Outcome) -> Result<RunView, RunError> {
        match (self.stage, outcome) {
            (Stage::Finished, _) => Err(RunError::OutOfTurn),
            (Stage::Timestamps, Outcome::Timestamps { start, stop }) => Ok(
                RunView {
                    stage: self.following(),
                    ticks: Some(ticks_between(start, stop)),
                    ..self
                },
            ),
            (Stage::Timestamps, _) => Err(RunError::OutOfTurn),
            (_, Outcome::Done) => Ok(RunView { stage: self.following(), ..self }),
            (Stage::Allocate(i), Outcome::NoMemory) => if self.location(i as int)
                == Location::GpuOnly {
                Ok(
                    RunView {
                        stage: Stage::Discard(i),
                        fallen: self.fallen.update(i as int, true),
                        ..self
                    },
                )
            } else {
                Err(RunError::OutOfMemory)
            },
            _ => Err(RunError::OutOfTurn),
        }
    }
}

/// A compute benchmark under way.
pub struct Run {
    job: Job,
    stage: Stage,
    fallen: Vec<bool>,
    ticks: Option<u64>,
}

impl View for Run {
    type V = RunView;

    closed spec fn view(&self) -> RunView {
        RunView {
            job: self.job@,
            stage: self.stage,
            fallen: self.fallen@,
            ticks: self.ticks,
        }
    }
}

impl Job {
    /// The commands to record for one pass.
    pub fn commands(&self, pass: Pass) -> (r: Vec<Command>)
        requires
            self@.wf(),
        ensures
            r@ == commands(self@, pass),
            r@ == (match pass {
                Pass::Warmup => Seq::empty(),
                Pass::Timed => seq![
                    Command::ResetQueries { first: 0, count: 2 },
                    Command::WriteTimestamp { stage: 0x1, query: 0 },
                ],
            }) + seq![
                Command::BindPipeline { bind_point: 1 },
                Command::BindDescriptorSet { bind_point: 1, first_set: 0 },
                Command::PushConstants {
                    stages: 0x20,
                    offset: 0,
                    size: (4 * self.push@.len()) as u32,
                },
                Command::Dispatch { x: self.groups.x, y: self.groups.y, z: self.groups.z },
            ] + (match pass {
                Pass::Warmup => Seq::empty(),
                Pass::Timed => seq![Command::WriteTimestamp { stage: 0x2000, query: 1 }],
            }),
    {
        let mut list: Vec<Command> = Vec::new();
        if pass == Pass::Timed {
            list.push(Command::ResetQueries { first: 0, count: TIMESTAMPS });
            list.push(Command::WriteTimestamp { stage: TOP_OF_PIPE, query: 0 });
        }
        list.push(Command::BindPipeline { bind_point: BIND_POINT_COMPUTE });
        list.push(Command::BindDescriptorSet { bind_point: BIND_POINT_COMPUTE, first_set: 0 });
        list.push(
            Command::PushConstants {
                stages: STAGE_COMPUTE,
                offset: 0,
                size: self.push.len() as u32 * 4,
            },
        );
        list.push(
            Command::Dispatch { x: self.groups.x, y: self.groups.y, z: self.groups.z },
        );
        if pass == Pass::Timed {
            list.push(Command::WriteTimestamp { stage: BOTTOM_OF_PIPE, query: 1 });
        }
        assert(list@ =~= commands(self@, pass));
        list
    }

    /// The first buffer from `from` on that the host fills.
    fn next_filled(&self, from: usize) -> (r: Option<usize>)
        requires
            from <= self.buffers.len(),
        ensures
            match next_filled(self.buffers@, from as int) {
                Some(j) => r == Some(j as usize) && from <= j < self.buffers.len(),
                None => r is None,
            },
    {
        let mut i: usize = from;
        while i < self.buffers.len()
            invariant
                from <= i <= self.buffers.len(),
                next_filled(self.buffers@, from as int) == next_filled(self.buffers@, i as int),
            decreases self.buffers.len() - i,
        {
            if !self.buffers[i].fill.is_empty() {
                return Some(i);
            }
            i = i + 1;
        }
        None
    }
}

impl Run {
    /// Starts a benchmark.
    pub fn new(job: Job) -> (r: Run)
        requires
            job@.wf(),
        ensures
            r@ == RunView::begun(job@),
            r@.wf(),
            r@.job == job@,
            r@.job.shader == job.shader,
            r@.job.push == job.push@,
            r@.job.buffers == job.buffers@,
            r@.job.groups == job.groups,
            r@.ticks is None,
            r@.action() == (Action::CreateSetLayout { bindings: job@.buffers.len() as u32 }),
    {
        let mut fallen: Vec<bool> = Vec::new();
        let count: usize = job.buffers.len();
        for i in 0..count
            invariant
                fallen@ =~= Seq::new(i as nat, |k: int| false),
        {
            fallen.push(false);
        }
        Run { job, stage: Stage::SetLayout, fallen, ticks: None }
    }

    fn any_fallen(&self) -> (r: bool)
        ensures
            r == self@.fallen.contains(true),
    {
        let mut i: usize = 0;
        while i < self.fallen.len()
            invariant
                i <= self.fallen.len(),
                forall|k: int| 0 <= k < i ==> !self.fallen@[k],
            decreases self.fallen.len() - i,
        {
            if self.fallen[i] {
                assert(self.fallen@[i as int]);
                return true;
            }
            i = i + 1;
        }
        false
    }

    fn buffers_from(&self, i: usize) -> (r: Stage)
        requires
            i <= self@.job.buffers.len(),
        ensures
            r == self@.buffers_from(i as int),
    {
        if i < self.job.buffers.len() {
            Stage::CreateBuffer(i)
        } else if self.any_fallen() {
            Stage::Note
        } else {
            self.data_from(0)
        }
    }

    fn data_from(&self, i: usize) -> (r: Stage)
        requires
            i <= self@.job.buffers.len(),
        ensures
            r == self@.data_from(i as int),
    {
        match self.job.next_filled(i) {
            Some(j) => Stage::Generate(j),
            None => self.uploads_from(0),
        }
    }

    fn uploads_from(&self, i: usize) -> (r: Stage)
        requires
            i <= self@.job.buffers.len(),
        ensures
            r == self@.uploads_from(i as int),
    {
        match self.job.next_filled(i) {
            Some(j) => Stage::Upload(j),
            None => Stage::WriteSet,
        }
    }

    fn drops_from(&self, i: usize) -> (r: Stage)
        requires
            i <= self@.job.buffers.len(),
        ensures
            r == self@.drops_from(i as int),
    {
        if i < self.job.buffers.len() {
            Stage::DropBuffer(i)
        } else {
            Stage::DropPipeline
        }
    }

    /// The kind of memory to ask for a buffer.
    fn location(&self, slot: usize) -> (r: Location)
        requires
            self@.wf(),
            self@.has_slot(slot),
        ensures
            r == self@.location(slot as int),
    {
        if self.job.buffers[slot].device_local && !self.fallen[slot] {
            Location::GpuOnly
        } else {
            Location::CpuToGpu
        }
    }

    /// The action to carry out next.
    pub fn action(&self) -> (r: Action)
        requires
            self@.wf(),
        ensures
            r == self@.action(),
    {
        let count: u32 = self.job.buffers.len() as u32;
        match self.stage {
            Stage::SetLayout => Action::CreateSetLayout { bindings: count },
            Stage::ShaderModule => Action::CreateShaderModule { shader: self.job.shader },
            Stage::PipelineLayout => Action::CreatePipelineLayout {
                stages: STAGE_COMPUTE,
                push_offset: 0,
                push_size: self.job.push.len() as u32 * 4,
            },
            Stage::Pipeline => Action::CreatePipeline {
                stage: STAGE_COMPUTE,
                entry: ENTRY_POINT,
            },
            Stage::DropShaderModule => Action::DestroyShaderModule,
            Stage::DescriptorPool => Action::CreateDescriptorPool {
                kind: DESCRIPTOR_STORAGE_BUFFER,
                max_sets: 1,
                max_descriptors: count,
            },
            Stage::DescriptorSet => Action::AllocateDescriptorSet,
            Stage::CreateBuffer(i) => Action::CreateBuffer {
                slot: i,
                size: self.job.buffers[i].size,
            },
            Stage::Allocate(i) => Action::AllocateMemory { slot: i, location: self.location(i) },
            Stage::Discard(i) => Action::DestroyBuffer { slot: i },
            Stage::Bind(i) => Action::BindMemory { slot: i },
            Stage::Note => Action::NoteSharedMemory { text: SHARED_MEMORY_NOTE },
            Stage::Generate(i) => Action::Generate { slot: i, fill: self.job.buffers[i].fill },
            Stage::Upload(i) => Action::Upload {
                slot: i,
                floats: self.job.buffers[i].fill.len(),
            },
            Stage::WriteSet => Action::WriteDescriptorSet { count },
            Stage::CommandBuffer => Action::AllocateCommandBuffer {
                level: LEVEL_PRIMARY,
                buffers: 1,
            },
            Stage::QueryPool => Action::CreateQueryPool {
                kind: QUERY_TIMESTAMP,
                count: TIMESTAMPS,
            },
            Stage::ResetCommands => Action::ResetCommandBuffer { flags: NO_FLAGS },
            Stage::Begin(_) => Action::BeginCommandBuffer { flags: USAGE_ONE_TIME_SUBMIT },
            Stage::Record(pass, i) => Action::Record(self.job.commands(pass)[i]),
            Stage::End(_) => Action::EndCommandBuffer,
            Stage::Fence(_) => Action::CreateFence { flags: NO_FLAGS },
            Stage::Submit(_) => Action::Submit,
            Stage::Wait(_) => Action::WaitForFence { all: true, timeout: u64::MAX },
            Stage::DropFence(_) => Action::DestroyFence,
            Stage::Timestamps => Action::ReadTimestamps {
                first: 0,
                count: TIMESTAMPS,
                flags: RESULT_64,
            },
            Stage::DropQueryPool => Action::DestroyQueryPool,
            Stage::FreeCommands => Action::FreeCommandBuffer,
            Stage::DropBuffer(i) => Action::DestroyBuffer { slot: i },
            Stage::FreeMemory(i) => Action::FreeMemory { slot: i },
            Stage::DropPipeline => Action::DestroyPipeline,
            Stage::DropPipelineLayout => Action::DestroyPipelineLayout,
            Stage::DropDescriptorPool => Action::DestroyDescriptorPool,
            Stage::DropSetLayout => Action::DestroySetLayout,
            Stage::Finished => Action::Finished,
        }
    }

    /// The stage that follows once the action of this stage was carried out.
    fn following(&self) -> (r: Stage)
        requires
            self@.wf(),
        ensures
            r == self@.following(),
    {
        match self.stage {
            Stage::SetLayout => Stage::ShaderModule,
            Stage::ShaderModule => Stage::PipelineLayout,
            Stage::PipelineLayout => Stage::Pipeline,
            Stage::Pipeline => Stage::DropShaderModule,
            Stage::DropShaderModule => Stage::DescriptorPool,
            Stage::DescriptorPool => Stage::DescriptorSet,
            Stage::DescriptorSet => self.buffers_from(0),
            Stage::CreateBuffer(i) => Stage::Allocate(i),
            Stage::Allocate(i) => Stage::Bind(i),
            Stage::Discard(i) => Stage::CreateBuffer(i),
            Stage::Bind(i) => self.buffers_from(i + 1),
            Stage::Note => self.data_from(0),
            Stage::Generate(i) => self.data_from(i + 1),
            Stage::Upload(i) => self.uploads_from(i + 1),
            Stage::WriteSet => Stage::CommandBuffer,
            Stage::CommandBuffer => Stage::QueryPool,
            Stage::QueryPool => Stage::Begin(Pass::Warmup),
            Stage::ResetCommands => Stage::Begin(Pass::Timed),
            Stage::Begin(pass) => Stage::Record(pass, 0),
            Stage::Record(pass, i) => if i + 1 < self.job.commands(pass).len() {
                Stage::Record(pass, i + 1)
            } else {
                Stage::End(pass)
            },
            Stage::End(pass) => Stage::Fence(pass),
            Stage::Fence(pass) => Stage::Submit(pass),
            Stage::Submit(pass) => Stage::Wait(pass),
            Stage::Wait(pass) => Stage::DropFence(pass),
            Stage::DropFence(Pass::Warmup) => Stage::ResetCommands,
            Stage::DropFence(Pass::Timed) => Stage::Timestamps,
            Stage::Timestamps => Stage::DropQueryPool,
            Stage::DropQueryPool => Stage::FreeCommands,
            Stage::FreeCommands => self.drops_from(0),
            Stage::DropBuffer(i) => Stage::FreeMemory(i),
            Stage::FreeMemory(i) => self.drops_from(i + 1),
            Stage::DropPipeline => Stage::DropPipelineLayout,
            Stage::DropPipelineLayout => Stage::DropDescriptorPool,
            Stage::DropDescriptorPool => Stage::DropSetLayout,
            Stage::DropSetLayout => Stage::Finished,
            Stage::Finished => Stage::Finished,
        }
    }

    /// Takes note of how the action went. An error leaves the run as it was.
    pub fn advance(&mut self, outcome: Outcome) -> (r: Result<(), RunError>)
        requires
            old(self)@.wf(),
        ensures
            match old(self)@.next(outcome) {
                Ok(after) => r is Ok && final(self)@ == after,
                Err(e) => r == Err::<(), RunError>(e) && final(self)@ == old(self)@,
            },
            final(self)@.wf(),
    {
        proof {
            if let Ok(after) = self@.next(outcome) {
                lemma_next_wf(self@, outcome);
            }
        }
        match (self.stage, outcome) {
            (Stage::Finished, _) => Err(RunError::OutOfTurn),
            (Stage::Timestamps, Outcome::Timestamps { start, stop }) => {
                let stage = self.following();
                self.stage = stage;
                self.ticks = Some(stop.wrapping_sub(start));
                Ok(())
            },
            (Stage::Timestamps, _) => Err(RunError::OutOfTurn),
            (_, Outcome::Done) => {
                let stage = self.following();
                self.stage = stage;
                Ok(())
            },
            (Stage::Allocate(i), Outcome::NoMemory) => {
                if self.location(i) == Location::GpuOnly {
                    self.stage = Stage::Discard(i);
                    self.fallen.set(i, true);
                    Ok(())
                } else {
                    Err(RunError::OutOfMemory)
                }
            },
            _ => Err(RunError::OutOfTurn),
        }
    }

    /// The bytes of the push constants.
    pub fn push_bytes(&self) -> (r: Vec<u8>)
        ensures
            r@ == image(endianness(), self@.job.push),
            r@.len() == self@.job.push_size(),
            r@.len() == 4 * self@.job.push.len(),
            // Four bytes after four write the constants in this machine's order.
            forall|i: int|
                0 <= i < self@.job.push.len() ==> match endianness() {
                    Endian::Little => #[trigger] self@.job.push[i] == r@[4 * i] + 256 * r@[4 * i
                        + 1] + 65536 * r@[4 * i + 2] + 16777216 * r@[4 * i + 3],
                    Endian::Big => self@.job.push[i] == r@[4 * i + 3] + 256 * r@[4 * i + 2]
                        + 65536 * r@[4 * i + 1] + 16777216 * r@[4 * i],
                },
    {
        let bytes = cast_words(self.job.push.as_slice());
        proof {
            let push = self@.job.push;
            assert forall|i: int| 0 <= i < push.len() implies match endianness() {
                Endian::Little => #[trigger] push[i] == bytes@[4 * i] + 256 * bytes@[4 * i + 1]
                    + 65536 * bytes@[4 * i + 2] + 16777216 * bytes@[4 * i + 3],
                Endian::Big => push[i] == bytes@[4 * i + 3] + 256 * bytes@[4 * i + 2] + 65536
                    * bytes@[4 * i + 1] + 16777216 * bytes@[4 * i],
            } by {
                law_bytes_write_the_word(endianness(), push, i);
            }
        }
        bytes
    }

    /// The sizes of the buffers.
    pub fn buffer_sizes(&self) -> (r: Vec<u64>)
        ensures
            r@ == Seq::new(self@.job.buffers.len(), |i: int| self@.job.buffers[i].size),
    {
        let mut sizes: Vec<u64> = Vec::new();
        let count: usize = self.job.buffers.len();
        for i in 0..count
            invariant
                count == self.job.buffers@.len(),
                sizes@ =~= Seq::new(i as nat, |k: int| self.job.buffers@[k].size),
        {
            sizes.push(self.job.buffers[i].size);
        }
        sizes
    }

    /// Whether nothing is left to do.
    pub fn is_finished(&self) -> (r: bool)
        ensures
            r == (self@.stage == Stage::Finished),
    {
        match self.stage {
            Stage::Finished => true,
            _ => false,
        }
    }

    /// The device's ticks from the start of the timed kernel to its end, once they
    /// were read.
    pub fn ticks(&self) -> (r: Option<u64>)
        ensures
            r == self@.ticks,
    {
        self.ticks
    }

    /// Whether every buffer has, so far, the kind of memory that it was meant to have.
    pub fn all_as_planned(&self) -> (r: bool)
        ensures
            r == !self@.fallen.contains(true),
    {
        !self.any_fallen()
    }
}

/// The first filled buffer is one of the buffers, and is filled.
pub proof fn lemma_next_filled(buffers: Seq<BufferPlan>, i: int)
    requires
        0 <= i,
    ensures
        match next_filled(buffers, i) {
            Some(j) => {
                &&& i <= j < buffers.len()
                &&& buffers[j].fill != Fill::Empty
                &&& forall|k: int| i <= k < j ==> (#[trigger] buffers[k]).fill == Fill::Empty
            },
            None => forall|k: int|
                i <= k < buffers.len() ==> (#[trigger] buffers[k]).fill == Fill::Empty,
        },
    decreases buffers.len() - i,
{
    if i < buffers.len() && buffers[i].fill == Fill::Empty {
        lemma_next_filled(buffers, i + 1);
    }
}

/// A run stays well-formed.
pub proof fn lemma_next_wf(run: RunView, outcome: Outcome)
    requires
        run.wf(),
        run.next(outcome) is Ok,
    ensures
        run.next(outcome)->Ok_0.wf(),
{
    let after = run.next(outcome)->Ok_0;
    lemma_next_filled(run.job.buffers, 0);
    match run.stage {
        Stage::Generate(i) => lemma_next_filled(run.job.buffers, i + 1),
        Stage::Upload(i) => lemma_next_filled(run.job.buffers, i + 1),
        _ => {},
    }
}

} // verus!

//! What the program asks of the device, and what it hears back.

use vstd::prelude::*;

verus! {

/// The name of the function that a shader starts with.
pub const ENTRY_POINT: &'static str = "main";

/// What the user is told of a buffer that had to settle for shared memory.
pub const SHARED_MEMORY_NOTE: &'static str =
    "  [note] GpuOnly alloc failed; dst buffer using CpuToGpu (UMA shared memory)";

/// Where the memory behind a buffer lives.
#[derive(Clone, Copy, Debug, PartialEq, Eq, Structural)]
pub enum Location {
    /// Memory of the device itself, out of the host's reach.
    GpuOnly,
    /// Host-visible memory that the host writes and the device reads.
    CpuToGpu,
    /// Host-visible memory that the device writes and the host reads.
    GpuToCpu,
}

impl Location {
    /// Whether the host can reach this memory through a mapped pointer.
    pub open spec fn host_visible(self) -> bool {
        self != Location::GpuOnly
    }
}

/// The 32-bit floats that a buffer is filled with before it is used.
#[derive(Clone, Copy, Debug, PartialEq, Eq, Structural)]
pub enum Fill {
    /// The buffer is left as it was allocated.
    Empty,
    /// Element `i` is `i` as a float.
    Ramp { count: usize },
    /// Each element is drawn uniformly from -1 (allowed) to 1 (not reached).
    Random { count: usize },
    /// Each element is one.
    Ones { count: usize },
}

impl Fill {
    /// The number of floats.
    pub open spec fn count(self) -> nat {
        match self {
            Fill::Empty => 0,
            Fill::Ramp { count } => count as nat,
            Fill::Random { count } => count as nat,
            Fill::Ones { count } => count as nat,
        }
    }

    /// The number of floats.
    pub fn len(&self) -> (r: usize)
        ensures
            r == self.count(),
            match *self {
                Fill::Empty => r == 0,
                Fill::Ramp { count } => r == count,
                Fill::Random { count } => r == count,
                Fill::Ones { count } => r == count,
            },
    {
        match self {
            Fill::Empty => 0,
            Fill::Ramp { count } => *count,
            Fill::Random { count } => *count,
            Fill::Ones { count } => *count,
        }
    }

    /// Whether nothing is written to the buffer.
    pub fn is_empty(&self) -> (r: bool)
        ensures
            r == (*self == Fill::Empty),
    {
        match self {
            Fill::Empty => true,
            _ => false,
        }
    }
}

/// The compute shaders of the suite.
#[derive(Clone, Copy, Debug, PartialEq, Eq, Structural)]
pub enum Shader {
    Saxpy,
    Reduce,
    Matmul,
    Copy,
}

/// The two passes that a compute benchmark submits.
#[derive(Clone, Copy, Debug, PartialEq, Eq, Structural)]
pub enum Pass {
    /// Runs the kernel once, unmeasured.
    Warmup,
    /// Runs the kernel once more, between two timestamps.
    Timed,
}

/// A command that is recorded into the command buffer. Stages, bind points and the like
/// are given as the device takes them.
#[derive(Clone, Copy, Debug, PartialEq, Eq, Structural)]
pub enum Command {
    /// Makes `count` queries from `first` on available for writing.
    ResetQueries { first: u32, count: u32 },
    /// Writes the device's clock into a query once `stage` is reached.
    WriteTimestamp { stage: u32, query: u32 },
    /// Binds the pipeline.
    BindPipeline { bind_point: i32 },
    /// Binds the descriptor set as set `first_set`.
    BindDescriptorSet { bind_point: i32, first_set: u32 },
    /// Hands `size` bytes of push constants to the stages.
    PushConstants { stages: u32, offset: u32, size: u32 },
    /// Starts a grid of workgroups.
    Dispatch { x: u32, y: u32, z: u32 },
}

/// One call on the device or on the host's clock. Kinds, stages and flags are given as
/// the device takes them.
///
/// A benchmark has at most one object of each kind but for buffers, which are
/// told apart by `slot`.
#[derive(Clone, Copy, Debug, PartialEq, Eq)]
pub enum Action {
    /// Creates a descriptor set layout with that many bindings, which
    /// [`layout_bindings`](crate::memory::layout_bindings) gives.
    CreateSetLayout { bindings: u32 },
    /// Creates a shader module out of the words of a shader.
    CreateShaderModule { shader: Shader },
    /// Creates a pipeline layout from the set layout and one range of push constants.
    CreatePipelineLayout { stages: u32, push_offset: u32, push_size: u32 },
    /// Creates the compute pipeline out of the shader module, which starts at `entry`.
    CreatePipeline { stage: u32, entry: &'static str },
    DestroyShaderModule,
    /// Creates a pool of descriptors of one kind.
    CreateDescriptorPool { kind: i32, max_sets: u32, max_descriptors: u32 },
    /// Allocates one set of the set layout from the pool.
    AllocateDescriptorSet,
    /// Creates a buffer, not yet backed by memory.
    CreateBuffer { slot: usize, size: u64 },
    /// Asks the allocator for memory that suits the buffer.
    AllocateMemory { slot: usize, location: Location },
    /// Binds a buffer to its memory.
    BindMemory { slot: usize },
    /// Tells the user that a buffer had to settle for shared memory.
    NoteSharedMemory { text: &'static str },
    /// Computes the floats that a buffer will be filled with.
    Generate { slot: usize, fill: Fill },
    /// Copies `floats` generated floats into a buffer's memory.
    Upload { slot: usize, floats: usize },
    /// Copies `floats` floats out of a buffer's memory.
    Download { slot: usize, floats: usize },
    /// Starts the host's clock.
    StartClock,
    /// Reads the host's clock.
    StopClock,
    /// Points binding `i` of the set at all of buffer `i`, for the first `count` buffers,
    /// as [`descriptor_writes`](crate::memory::descriptor_writes) gives it.
    WriteDescriptorSet { count: u32 },
    /// Allocates command buffers from the command pool.
    AllocateCommandBuffer { level: i32, buffers: u32 },
    /// Creates a pool of queries of one kind.
    CreateQueryPool { kind: i32, count: u32 },
    ResetCommandBuffer { flags: u32 },
    /// Starts recording.
    BeginCommandBuffer { flags: u32 },
    Record(Command),
    EndCommandBuffer,
    CreateFence { flags: u32 },
    /// Submits the command buffer, which signals the fence when it is done.
    Submit,
    /// Waits for the fence, at most `timeout` nanoseconds. Whether to wait for `all` would
    /// only matter with several fences.
    WaitForFence { all: bool, timeout: u64 },
    DestroyFence,
    /// Reads `count` timestamps from query `first` on.
    ReadTimestamps { first: u32, count: u32, flags: u32 },
    DestroyQueryPool,
    FreeCommandBuffer,
    DestroyBuffer { slot: usize },
    FreeMemory { slot: usize },
    DestroyPipeline,
    DestroyPipelineLayout,
    /// Destroys the descriptor pool and with it the set.
    DestroyDescriptorPool,
    DestroySetLayout,
    /// Nothing is left to do.
    Finished,
}

/// How an action went.
#[derive(Clone, Copy, Debug, PartialEq, Eq, Structural)]
pub enum Outcome {
    /// It was carried out.
    Done,
    /// The allocator found no memory of the kind asked for.
    NoMemory,
    /// The two timestamps that were read.
    Timestamps { start: u64, stop: u64 },
}

/// Why a benchmark cannot go on.
#[derive(Clone, Copy, Debug, PartialEq, Eq, Structural)]
pub enum RunError {
    /// No memory was found, and no other kind of memory is left to try.
    OutOfMemory,
    /// The outcome is not one of the action that was asked for.
    OutOfTurn,
}

} // verus!

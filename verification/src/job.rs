//! The compute benchmarks: what each of them dispatches, and on which buffers.

use vstd::prelude::*;
use crate::actions::{Fill, Shader};
use crate::host::{Direction, HostRun};

verus! {

/// The size of a 32-bit float in bytes.
pub const FLOAT_BYTES: usize = 4;

/// A buffer of a benchmark.
#[derive(Clone, Copy, Debug, PartialEq, Eq, Structural)]
pub struct BufferPlan {
    /// Size in bytes.
    pub size: u64,
    /// Memory of the device is tried first, host-visible memory second. Without
    /// this only host-visible memory is tried.
    pub device_local: bool,
    /// What the host fills the buffer with.
    pub fill: Fill,
}

impl BufferPlan {
    /// What is filled in fits, and the host can reach the buffer to do so.
    pub open spec fn wf(self) -> bool {
        &&& self.fill.count() * FLOAT_BYTES <= self.size
        &&& self.fill != Fill::Empty ==> !self.device_local
    }
}

/// The grid of workgroups that a kernel is started with.
#[derive(Clone, Copy, Debug, PartialEq, Eq, Structural)]
pub struct Groups {
    pub x: u32,
    pub y: u32,
    pub z: u32,
}

/// A kernel with its push constants, its buffers and its grid.
pub struct Job {
    pub shader: Shader,
    /// The push constants as 32-bit words.
    pub push: Vec<u32>,
    /// The buffers, in the order of their bindings.
    pub buffers: Vec<BufferPlan>,
    pub groups: Groups,
}

/// The model of a [`Job`].
#[verifier::ext_equal]
pub struct JobView {
    pub shader: Shader,
    pub push: Seq<u32>,
    pub buffers: Seq<BufferPlan>,
    pub groups: Groups,
}

impl View for Job {
    type V = JobView;

    open spec fn view(&self) -> JobView {
        JobView {
            shader: self.shader,
            push: self.push@,
            buffers: self.buffers@,
            groups: self.groups,
        }
    }
}

/// The model of a job is the job: the same shader, constants, buffers and grid.
pub proof fn law_model_is_the_job(job: Job)
    ensures
        job@.shader == job.shader,
        job@.push == job.push@,
        job@.buffers == job.buffers@,
        job@.groups == job.groups,
{
}

impl JobView {
    /// Each buffer is well-formed, and the counts that the device is told fit in
    /// 32 bits.
    pub open spec fn wf(self) -> bool {
        &&& self.buffers.len() <= u32::MAX
        &&& self.push.len() * 4 <= u32::MAX
        &&& forall|i: int| 0 <= i < self.buffers.len() ==> (#[trigger] self.buffers[i]).wf()
    }

    /// The number of bytes of push constants.
    pub open spec fn push_size(self) -> nat {
        4 * self.push.len()
    }
}

/// The number of floats that the one-dimensional benchmarks work on.
pub const ELEMENTS: usize = 16777216;

/// The invocations of a workgroup of the one-dimensional kernels.
pub const LINE_WIDTH: usize = 256;

/// The invocations of a workgroup of the matrix kernel, along either side.
pub const TILE_WIDTH: usize = 16;

/// The rows and columns of the matrices.
pub const MATRIX_SIDE: u32 = 1024;

/// The bits of the 32-bit float 2.5, the factor of the SAXPY kernel.
pub const SAXPY_FACTOR_BITS: u32 = 0x4020_0000;

/// The least number of workgroups of `width` invocations that gives each of `count`
/// elements an invocation.
pub open spec fn groups_for(count: int, width: int) -> int {
    (count + width - 1) / width
}

/// The number of workgroups to start for `count` elements.
pub fn workgroups(count: usize, width: usize) -> (r: u32)
    requires
        0 < width,
        count + width - 1 <= usize::MAX,
        groups_for(count as int, width as int) <= u32::MAX,
    ensures
        r == groups_for(count as int, width as int),
        r * width >= count,
        count > 0 ==> (r - 1) * width < count,
        count == 0 ==> r == 0,
{
    proof {
        law_workgroups_cover_exactly(count as int, width as int);
    }
    ((count + (width - 1)) / width) as u32
}

/// The workgroups cover every element, and with one workgroup less they would not.
pub proof fn law_workgroups_cover_exactly(count: int, width: int)
    requires
        0 < width,
        0 <= count,
    ensures
        groups_for(count, width) * width >= count,
        count > 0 ==> (groups_for(count, width) - 1) * width < count,
        count == 0 ==> groups_for(count, width) == 0,
{
    let g = groups_for(count, width);
    let sum = count + width - 1;
    vstd::arithmetic::div_mod::lemma_fundamental_div_mod(sum, width);
    assert(0 <= sum % width < width) by (nonlinear_arith)
        requires
            0 < width,
    ;
    assert(width * g == g * width) by (nonlinear_arith);
    assert((g - 1) * width == g * width - width) by (nonlinear_arith);
    if count == 0 {
        vstd::arithmetic::div_mod::lemma_basic_div(sum, width);
    }
}

/// What a job fills a buffer with is never too much for the buffer, so that no copy
/// into it is refused as too long.
pub proof fn law_planned_copies_fit(job: JobView, i: int)
    requires
        job.wf(),
        0 <= i < job.buffers.len(),
        job.buffers[i].size <= usize::MAX,
    ensures
        job.buffers[i].fill.count() * FLOAT_BYTES <= job.buffers[i].size as usize,
{
}

/// The push constants of the SAXPY kernel.
#[derive(Clone, Copy, Debug, PartialEq, Eq, Structural)]
pub struct SaxpyPush {
    /// The bits of the factor, a 32-bit float.
    pub a: u32,
    pub n: u32,
}

/// The push constants of the reduction kernel.
#[derive(Clone, Copy, Debug, PartialEq, Eq, Structural)]
pub struct ReducePush {
    pub n: u32,
}

/// The push constants of the matrix kernel.
#[derive(Clone, Copy, Debug, PartialEq, Eq, Structural)]
pub struct MatmulPush {
    pub m: u32,
    pub n: u32,
    pub k: u32,
}

/// The push constants of the copy kernel.
#[derive(Clone, Copy, Debug, PartialEq, Eq, Structural)]
pub struct CopyPush {
    pub n: u32,
}

impl SaxpyPush {
    /// The constants in the order in which the kernel declares them.
    pub fn words(&self) -> (r: Vec<u32>)
        ensures
            r@ == seq![self.a, self.n],
    {
        let words: Vec<u32> = vec![self.a, self.n];
        assert(words@ =~= seq![self.a, self.n]);
        words
    }
}

impl ReducePush {
    /// The constants in the order in which the kernel declares them.
    pub fn words(&self) -> (r: Vec<u32>)
        ensures
            r@ == seq![self.n],
    {
        let words: Vec<u32> = vec![self.n];
        assert(words@ =~= seq![self.n]);
        words
    }
}

impl MatmulPush {
    /// The constants in the order in which the kernel declares them.
    pub fn words(&self) -> (r: Vec<u32>)
        ensures
            r@ == seq![self.m, self.n, self.k],
    {
        let words: Vec<u32> = vec![self.m, self.n, self.k];
        assert(words@ =~= seq![self.m, self.n, self.k]);
        words
    }
}

impl CopyPush {
    /// The constants in the order in which the kernel declares them.
    pub fn words(&self) -> (r: Vec<u32>)
        ensures
            r@ == seq![self.n],
    {
        let words: Vec<u32> = vec![self.n];
        assert(words@ =~= seq![self.n]);
        words
    }
}

/// A host-visible buffer for as many floats as it is filled with.
pub open spec fn filled_buffer(fill: Fill) -> BufferPlan {
    BufferPlan { size: (fill.count() * FLOAT_BYTES) as u64, device_local: false, fill }
}

/// A host-visible buffer for `count` floats, left empty.
pub open spec fn result_buffer(count: int) -> BufferPlan {
    BufferPlan { size: (count * FLOAT_BYTES) as u64, device_local: false, fill: Fill::Empty }
}

/// A grid along one side, for `count` elements.
pub open spec fn line_grid(count: int) -> Groups {
    Groups { x: groups_for(count, LINE_WIDTH as int) as u32, y: 1, z: 1 }
}

/// Copies a ramp into a buffer in the device's own memory, if it has any.
pub open spec fn copy_job() -> JobView {
    JobView {
        shader: Shader::Copy,
        push: seq![ELEMENTS as u32],
        buffers: seq![
            filled_buffer(Fill::Ramp { count: ELEMENTS }),
            BufferPlan { device_local: true, ..result_buffer(ELEMENTS as int) },
        ],
        groups: line_grid(ELEMENTS as int),
    }
}

/// Computes 2.5 x + y of two random vectors.
pub open spec fn saxpy_job() -> JobView {
    JobView {
        shader: Shader::Saxpy,
        push: seq![SAXPY_FACTOR_BITS, ELEMENTS as u32],
        buffers: seq![
            filled_buffer(Fill::Random { count: ELEMENTS }),
            filled_buffer(Fill::Random { count: ELEMENTS }),
            result_buffer(ELEMENTS as int),
        ],
        groups: line_grid(ELEMENTS as int),
    }
}

/// Adds up a vector of ones, to one float per workgroup.
pub open spec fn reduction_job() -> JobView {
    JobView {
        shader: Shader::Reduce,
        push: seq![ELEMENTS as u32],
        buffers: seq![
            filled_buffer(Fill::Ones { count: ELEMENTS }),
            result_buffer(line_grid(ELEMENTS as int).x as int),
        ],
        groups: line_grid(ELEMENTS as int),
    }
}

/// Multiplies two random matrices: `m` rows by `k` columns, and `k` by `n`.
pub open spec fn matmul_job() -> JobView {
    let m = MATRIX_SIDE;
    let n = MATRIX_SIDE;
    let k = MATRIX_SIDE;
    JobView {
        shader: Shader::Matmul,
        push: seq![m, n, k],
        buffers: seq![
            filled_buffer(Fill::Random { count: (m * k) as usize }),
            filled_buffer(Fill::Random { count: (k * n) as usize }),
            result_buffer(m * n),
        ],
        groups: Groups {
            x: groups_for(n as int, TILE_WIDTH as int) as u32,
            y: groups_for(m as int, TILE_WIDTH as int) as u32,
            z: 1,
        },
    }
}

fn float_buffer(count: usize, fill: Fill) -> (r: BufferPlan)
    requires
        count * FLOAT_BYTES <= usize::MAX,
    ensures
        r == (BufferPlan { size: (count * FLOAT_BYTES) as u64, device_local: false, fill }),
{
    BufferPlan { size: (count * FLOAT_BYTES) as u64, device_local: false, fill }
}

/// The memory benchmarks: a copy by the device, and the host's writes and reads.
pub fn bench_memory_bandwidth() -> (r: (Job, HostRun, HostRun))
    ensures
        r.0@ == copy_job(),
        r.0@.wf(),
        r.1 == HostRun::begun(Direction::Write, ELEMENTS),
        r.1.wf(),
        r.2 == HostRun::begun(Direction::Read, ELEMENTS),
        r.2.wf(),
{
    let push = CopyPush { n: ELEMENTS as u32 };
    let source = float_buffer(ELEMENTS, Fill::Ramp { count: ELEMENTS });
    let target = BufferPlan { device_local: true, ..float_buffer(ELEMENTS, Fill::Empty) };
    let job = Job {
        shader: Shader::Copy,
        push: push.words(),
        buffers: vec![source, target],
        groups: Groups { x: workgroups(ELEMENTS, LINE_WIDTH), y: 1, z: 1 },
    };
    assert(job@ =~= copy_job());
    (job, HostRun::new(Direction::Write, ELEMENTS), HostRun::new(Direction::Read, ELEMENTS))
}

/// The SAXPY benchmark.
pub fn bench_saxpy() -> (r: Job)
    ensures
        r@ == saxpy_job(),
        r@.wf(),
{
    let push = SaxpyPush { a: SAXPY_FACTOR_BITS, n: ELEMENTS as u32 };
    let x = float_buffer(ELEMENTS, Fill::Random { count: ELEMENTS });
    let y = float_buffer(ELEMENTS, Fill::Random { count: ELEMENTS });
    let out = float_buffer(ELEMENTS, Fill::Empty);
    let job = Job {
        shader: Shader::Saxpy,
        push: push.words(),
        buffers: vec![x, y, out],
        groups: Groups { x: workgroups(ELEMENTS, LINE_WIDTH), y: 1, z: 1 },
    };
    assert(job@ =~= saxpy_job());
    job
}

/// The reduction benchmark.
pub fn bench_reduction() -> (r: Job)
    ensures
        r@ == reduction_job(),
        r@.wf(),
{
    let push = ReducePush { n: ELEMENTS as u32 };
    let groups: u32 = workgroups(ELEMENTS, LINE_WIDTH);
    let input = float_buffer(ELEMENTS, Fill::Ones { count: ELEMENTS });
    let out = float_buffer(groups as usize, Fill::Empty);
    let job = Job {
        shader: Shader::Reduce,
        push: push.words(),
        buffers: vec![input, out],
        groups: Groups { x: groups, y: 1, z: 1 },
    };
    assert(job@ =~= reduction_job());
    job
}

/// The matrix benchmark.
pub fn bench_matmul() -> (r: Job)
    ensures
        r@ == matmul_job(),
        r@.wf(),
{
    let m: u32 = MATRIX_SIDE;
    let n: u32 = MATRIX_SIDE;
    let k: u32 = MATRIX_SIDE;
    let push = MatmulPush { m, n, k };
    let a_count: usize = (m * k) as usize;
    let b_count: usize = (k * n) as usize;
    let c_count: usize = (m * n) as usize;
    let a = float_buffer(a_count, Fill::Random { count: a_count });
    let b = float_buffer(b_count, Fill::Random { count: b_count });
    let c = float_buffer(c_count, Fill::Empty);
    let job = Job {
        shader: Shader::Matmul,
        push: push.words(),
        buffers: vec![a, b, c],
        groups: Groups {
            x: workgroups(n as usize, TILE_WIDTH),
            y: workgroups(m as usize, TILE_WIDTH),
            z: 1,
        },
    };
    assert(job@ =~= matmul_job());
    job
}

} // verus!

//! What is reported of each benchmark.

use vstd::prelude::*;
use crate::actions::Outcome;
use crate::job::{copy_job, ELEMENTS, FLOAT_BYTES, MATRIX_SIDE};
use crate::run_laws::{law_fallback_is_told, run_after};

verus! {

/// The benchmarks of the suite.
#[derive(Clone, Copy, Debug, PartialEq, Eq, Structural)]
pub enum Benchmark {
    BufferCopy,
    HostWrite,
    HostRead,
    Saxpy,
    Reduction,
    Matmul,
}

/// The work of one measurement, which is reported per second.
#[derive(Clone, Copy, Debug, PartialEq, Eq, Structural)]
pub enum Work {
    /// Bytes read and written.
    Bytes(u64),
    /// Additions and multiplications of floats.
    Flops(u64),
    /// Elements worked through.
    Elements(u64),
}

impl Work {
    /// The unit of the throughput.
    pub open spec fn unit(self) -> Seq<char> {
        match self {
            Work::Bytes(_) => "GB/s"@,
            Work::Flops(_) => "GFLOPS"@,
            Work::Elements(_) => "GElem/s"@,
        }
    }

    /// The unit of the throughput.
    pub fn metric(&self) -> (r: &'static str)
        ensures
            r@ == self.unit(),
            r@ == match *self {
                Work::Bytes(_) => "GB/s"@,
                Work::Flops(_) => "GFLOPS"@,
                Work::Elements(_) => "GElem/s"@,
            },
    {
        match self {
            Work::Bytes(_) => "GB/s",
            Work::Flops(_) => "GFLOPS",
            Work::Elements(_) => "GElem/s",
        }
    }
}

/// A theoretical peak of the Radeon 890M.
#[derive(Clone, Copy, Debug, PartialEq, Eq, Structural)]
pub enum Peak {
    /// 89.6 GB/s.
    MemoryBandwidth,
    /// 8600 GFLOPS.
    Fp32,
}

impl Peak {
    /// The peak in tenths of its unit.
    pub fn tenths(&self) -> (r: u32)
        ensures
            r == match *self {
                Peak::MemoryBandwidth => 896u32,
                Peak::Fp32 => 86000u32,
            },
    {
        match self {
            Peak::MemoryBandwidth => 896,
            Peak::Fp32 => 86000,
        }
    }
}

/// What is reported of a benchmark besides its time.
#[derive(Clone, Copy, Debug)]
pub struct Report {
    pub name: &'static str,
    /// The size of the data, in bytes.
    pub data: u64,
    pub work: Work,
    /// The peak that the throughput is compared with.
    pub peak: Option<Peak>,
}

/// The model of a [`Report`].
pub struct ReportView {
    pub name: Seq<char>,
    pub data: u64,
    pub work: Work,
    pub peak: Option<Peak>,
}

impl View for Report {
    type V = ReportView;

    open spec fn view(&self) -> ReportView {
        ReportView { name: self.name@, data: self.data, work: self.work, peak: self.peak }
    }
}

/// The model of a report is the report.
pub proof fn law_model_is_the_report(r: Report)
    ensures
        r@.name == r.name@,
        r@.data == r.data,
        r@.work == r.work,
        r@.peak == r.peak,
{
}

/// The bytes of a vector of the one-dimensional benchmarks.
pub open spec fn vector_bytes() -> int {
    ELEMENTS * FLOAT_BYTES
}

/// The report of a benchmark. `device_local` says whether the target of the buffer
/// copy got memory of the device's own; no other report depends on it.
pub open spec fn report_of(benchmark: Benchmark, device_local: bool) -> ReportView {
    let side = MATRIX_SIDE as int;
    match benchmark {
        // Each byte is read and written.
        Benchmark::BufferCopy => ReportView {
            name: if device_local {
                "Memory: Buffer Copy (compute, device-local)"@
            } else {
                "Memory: Buffer Copy (compute, shared/UMA)"@
            },
            data: (2 * vector_bytes()) as u64,
            work: Work::Bytes((2 * vector_bytes()) as u64),
            peak: if device_local {
                Some(Peak::MemoryBandwidth)
            } else {
                None
            },
        },
        Benchmark::HostWrite => ReportView {
            name: "Memory: Host->Device write"@,
            data: vector_bytes() as u64,
            work: Work::Bytes(vector_bytes() as u64),
            peak: None,
        },
        Benchmark::HostRead => ReportView {
            name: "Memory: Device->Host read"@,
            data: vector_bytes() as u64,
            work: Work::Bytes(vector_bytes() as u64),
            peak: None,
        },
        // One multiplication and one addition per element.
        Benchmark::Saxpy => ReportView {
            name: "Compute: SAXPY (a*x+y)"@,
            data: (3 * vector_bytes()) as u64,
            work: Work::Flops((2 * ELEMENTS) as u64),
            peak: Some(Peak::Fp32),
        },
        Benchmark::Reduction => ReportView {
            name: "Compute: Parallel Reduction"@,
            data: vector_bytes() as u64,
            work: Work::Elements(ELEMENTS as u64),
            peak: None,
        },
        // One multiplication and one addition for each term of each sum.
        Benchmark::Matmul => ReportView {
            name: "Compute: MatMul 1024x1024"@,
            data: (3 * (side * side * FLOAT_BYTES)) as u64,
            work: Work::Flops((2 * (side * side * side)) as u64),
            peak: Some(Peak::Fp32),
        },
    }
}

/// The report of a benchmark. `device_local` says whether the target of the buffer
/// copy got memory of the device's own.
pub fn report(benchmark: Benchmark, device_local: bool) -> (r: Report)
    ensures
        r@ == report_of(benchmark, device_local),
{
    let vector: u64 = ELEMENTS as u64 * FLOAT_BYTES as u64;
    let side: u64 = MATRIX_SIDE as u64;
    assert(ELEMENTS * FLOAT_BYTES == 67108864) by (nonlinear_arith)
        requires
            ELEMENTS == 16777216,
            FLOAT_BYTES == 4,
    ;
    assert(side * side == 1048576);
    match benchmark {
        Benchmark::BufferCopy => if device_local {
            Report {
                name: "Memory: Buffer Copy (compute, device-local)",
                data: 2 * vector,
                work: Work::Bytes(2 * vector),
                peak: Some(Peak::MemoryBandwidth),
            }
        } else {
            Report {
                name: "Memory: Buffer Copy (compute, shared/UMA)",
                data: 2 * vector,
                work: Work::Bytes(2 * vector),
                peak: None,
            }
        },
        Benchmark::HostWrite => Report {
            name: "Memory: Host->Device write",
            data: vector,
            work: Work::Bytes(vector),
            peak: None,
        },
        Benchmark::HostRead => Report {
            name: "Memory: Device->Host read",
            data: vector,
            work: Work::Bytes(vector),
            peak: None,
        },
        Benchmark::Saxpy => Report {
            name: "Compute: SAXPY (a*x+y)",
            data: 3 * vector,
            work: Work::Flops(2 * ELEMENTS as u64),
            peak: Some(Peak::Fp32),
        },
        Benchmark::Reduction => Report {
            name: "Compute: Parallel Reduction",
            data: vector,
            work: Work::Elements(ELEMENTS as u64),
            peak: None,
        },
        Benchmark::Matmul => Report {
            name: "Compute: MatMul 1024x1024",
            data: 3 * (side * side * FLOAT_BYTES as u64),
            work: Work::Flops(2 * (side * side * side)),
            peak: Some(Peak::Fp32),
        },
    }
}

/// Which memory a buffer got makes a difference to the report of the buffer copy alone,
/// and there to its name and its peak alone: without device memory there is no peak to
/// compare with, and the data and the work are the same.
pub proof fn law_memory_changes_only_the_copy(benchmark: Benchmark)
    ensures
        benchmark != Benchmark::BufferCopy ==> report_of(benchmark, true) == report_of(
            benchmark,
            false,
        ),
        report_of(benchmark, true).data == report_of(benchmark, false).data,
        report_of(benchmark, true).work == report_of(benchmark, false).work,
        report_of(Benchmark::BufferCopy, false).peak is None,
        report_of(Benchmark::BufferCopy, true).peak == Some(Peak::MemoryBandwidth),
{
}

/// A throughput is compared with the peak of its own kind: bytes with the bandwidth of
/// the memory, operations on floats with that of the arithmetic, and elements with none.
pub proof fn law_peaks_fit_the_work(benchmark: Benchmark, device_local: bool)
    ensures
        match report_of(benchmark, device_local).work {
            Work::Bytes(_) => {
                ||| report_of(benchmark, device_local).peak is None
                ||| report_of(benchmark, device_local).peak == Some(Peak::MemoryBandwidth)
            },
            Work::Flops(_) => report_of(benchmark, device_local).peak == Some(Peak::Fp32),
            Work::Elements(_) => report_of(benchmark, device_local).peak is None,
        },
{
}

/// The buffer copy is compared with the peak of the device's memory exactly if the
/// allocator never had to answer that it has no such memory; otherwise the report
/// says that the memory is shared.
pub proof fn law_shared_memory_is_reported(outcomes: Seq<Outcome>)
    requires
        run_after(copy_job(), outcomes) is Some,
    ensures
        ({
            let device_local = !run_after(copy_job(), outcomes)->0.fallen.contains(true);
            let r = report_of(Benchmark::BufferCopy, device_local);
            if outcomes.contains(Outcome::NoMemory) {
                r.peak is None && r.name == "Memory: Buffer Copy (compute, shared/UMA)"@
            } else {
                r.peak == Some(Peak::MemoryBandwidth) && r.name
                    == "Memory: Buffer Copy (compute, device-local)"@
            }
        }),
{
    law_fallback_is_told(copy_job(), outcomes);
}

/// The parts of the suite, each announced by a line of its own.
#[derive(Clone, Copy, Debug, PartialEq, Eq, Structural)]
pub enum Section {
    Memory,
    Saxpy,
    Reduction,
    Matmul,
}

impl Section {
    /// What the user is told when the section starts.
    pub open spec fn announcement(self) -> Seq<char> {
        match self {
            Section::Memory => "Running memory bandwidth tests... "@,
            Section::Saxpy => "Running SAXPY compute test... "@,
            Section::Reduction => "Running parallel reduction test... "@,
            Section::Matmul => "Running matrix multiply test... "@,
        }
    }

    /// The benchmarks of the section, in their order.
    pub open spec fn members(self) -> Seq<Benchmark> {
        match self {
            Section::Memory => seq![
                Benchmark::BufferCopy,
                Benchmark::HostWrite,
                Benchmark::HostRead,
            ],
            Section::Saxpy => seq![Benchmark::Saxpy],
            Section::Reduction => seq![Benchmark::Reduction],
            Section::Matmul => seq![Benchmark::Matmul],
        }
    }

    /// What the user is told when the section starts.
    pub fn prompt(&self) -> (r: &'static str)
        ensures
            r@ == self.announcement(),
    {
        match self {
            Section::Memory => "Running memory bandwidth tests... ",
            Section::Saxpy => "Running SAXPY compute test... ",
            Section::Reduction => "Running parallel reduction test... ",
            Section::Matmul => "Running matrix multiply test... ",
        }
    }

    /// The benchmarks of the section, in their order.
    pub fn benchmarks(&self) -> (r: Vec<Benchmark>)
        ensures
            r@ == self.members(),
    {
        let list: Vec<Benchmark> = match self {
            Section::Memory => vec![
                Benchmark::BufferCopy,
                Benchmark::HostWrite,
                Benchmark::HostRead,
            ],
            Section::Saxpy => vec![Benchmark::Saxpy],
            Section::Reduction => vec![Benchmark::Reduction],
            Section::Matmul => vec![Benchmark::Matmul],
        };
        assert(list@ =~= self.members());
        list
    }
}

/// The sections of the suite.
pub open spec fn all_sections() -> Seq<Section> {
    seq![Section::Memory, Section::Saxpy, Section::Reduction, Section::Matmul]
}

/// The sections of the suite, in their order.
pub fn suite() -> (r: Vec<Section>)
    ensures
        r@ == all_sections(),
{
    let list: Vec<Section> = vec![
        Section::Memory,
        Section::Saxpy,
        Section::Reduction,
        Section::Matmul,
    ];
    assert(list@ =~= all_sections());
    list
}

/// `benchmark` is number `k` of section number `s`.
pub open spec fn runs_at(benchmark: Benchmark, s: int, k: int) -> bool {
    &&& 0 <= s < all_sections().len()
    &&& 0 <= k < all_sections()[s].members().len()
    &&& all_sections()[s].members()[k] == benchmark
}

/// The number of a benchmark's section, and its number there.
spec fn place(benchmark: Benchmark) -> (int, int) {
    match benchmark {
        Benchmark::BufferCopy => (0, 0),
        Benchmark::HostWrite => (0, 1),
        Benchmark::HostRead => (0, 2),
        Benchmark::Saxpy => (1, 0),
        Benchmark::Reduction => (2, 0),
        Benchmark::Matmul => (3, 0),
    }
}

proof fn lemma_place(benchmark: Benchmark, s: int, k: int)
    requires
        runs_at(benchmark, s, k),
    ensures
        place(benchmark) == (s, k),
{
    if s == 0 {
    } else if s == 1 {
    } else if s == 2 {
    } else {
        assert(s == 3);
    }
}

/// The suite runs every benchmark once.
pub proof fn law_every_benchmark_runs_once(benchmark: Benchmark)
    ensures
        exists|s: int, k: int| runs_at(benchmark, s, k),
        forall|s: int, k: int, t: int, j: int|
            runs_at(benchmark, s, k) && runs_at(benchmark, t, j) ==> s == t && k == j,
{
    assert(runs_at(benchmark, place(benchmark).0, place(benchmark).1));
    assert forall|s: int, k: int, t: int, j: int|
        runs_at(benchmark, s, k) && runs_at(benchmark, t, j) implies s == t && k == j by {
        lemma_place(benchmark, s, k);
        lemma_place(benchmark, t, j);
    }
}

} // verus!

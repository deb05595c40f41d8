use vk_compute_bench::report::{report, suite, Benchmark, Peak, Section, Work};
use vk_compute_bench::table::{results_table, BenchResult};

const MIB: u64 = 1024 * 1024;

#[test]
fn copy_report_depends_on_the_memory() {
    let local = report(Benchmark::BufferCopy, true);
    assert_eq!(local.name, "Memory: Buffer Copy (compute, device-local)");
    assert_eq!(local.data, 128 * MIB);
    assert_eq!(local.work, Work::Bytes(128 * MIB));
    assert_eq!(local.peak, Some(Peak::MemoryBandwidth));
    let shared = report(Benchmark::BufferCopy, false);
    assert_eq!(shared.name, "Memory: Buffer Copy (compute, shared/UMA)");
    assert_eq!(shared.data, 128 * MIB);
    assert_eq!(shared.work, Work::Bytes(128 * MIB));
    assert_eq!(shared.peak, None);
}

#[test]
fn other_reports() {
    for local in [true, false] {
        let write = report(Benchmark::HostWrite, local);
        assert_eq!(write.name, "Memory: Host->Device write");
        assert_eq!((write.data, write.work), (64 * MIB, Work::Bytes(64 * MIB)));
        assert_eq!(write.peak, None);
        let read = report(Benchmark::HostRead, local);
        assert_eq!(read.name, "Memory: Device->Host read");
        assert_eq!((read.data, read.work), (64 * MIB, Work::Bytes(64 * MIB)));
        assert_eq!(read.peak, None);
        let saxpy = report(Benchmark::Saxpy, local);
        assert_eq!(saxpy.name, "Compute: SAXPY (a*x+y)");
        assert_eq!((saxpy.data, saxpy.work), (192 * MIB, Work::Flops(32 * MIB)));
        assert_eq!(saxpy.peak, Some(Peak::Fp32));
        let reduction = report(Benchmark::Reduction, local);
        assert_eq!(reduction.name, "Compute: Parallel Reduction");
        assert_eq!((reduction.data, reduction.work), (64 * MIB, Work::Elements(16 * MIB)));
        assert_eq!(reduction.peak, None);
        let matmul = report(Benchmark::Matmul, local);
        assert_eq!(matmul.name, "Compute: MatMul 1024x1024");
        assert_eq!((matmul.data, matmul.work), (12 * MIB, Work::Flops(2 * 1024 * MIB)));
        assert_eq!(matmul.peak, Some(Peak::Fp32));
    }
}

#[test]
fn units_and_peaks() {
    assert_eq!(Work::Bytes(1).metric(), "GB/s");
    assert_eq!(Work::Flops(1).metric(), "GFLOPS");
    assert_eq!(Work::Elements(1).metric(), "GElem/s");
    assert_eq!(Peak::MemoryBandwidth.tenths() as f64 / 10.0, 89.6);
    assert_eq!(Peak::Fp32.tenths() as f64 / 10.0, 8600.0);
}

#[test]
fn suite_runs_every_benchmark_once() {
    let sections = suite();
    assert_eq!(
        sections,
        vec![Section::Memory, Section::Saxpy, Section::Reduction, Section::Matmul]
    );
    let all: Vec<Benchmark> = sections.iter().flat_map(|s| s.benchmarks()).collect();
    assert_eq!(
        all,
        vec![
            Benchmark::BufferCopy,
            Benchmark::HostWrite,
            Benchmark::HostRead,
            Benchmark::Saxpy,
            Benchmark::Reduction,
            Benchmark::Matmul,
        ]
    );
}

#[test]
fn sections_are_announced() {
    assert_eq!(Section::Memory.prompt(), "Running memory bandwidth tests... ");
    assert_eq!(Section::Saxpy.prompt(), "Running SAXPY compute test... ");
    assert_eq!(Section::Reduction.prompt(), "Running parallel reduction test... ");
    assert_eq!(Section::Matmul.prompt(), "Running matrix multiply test... ");
}

fn result(name: &str, peak: Option<&str>) -> BenchResult {
    BenchResult {
        name: name.to_string(),
        size_mb: "64.0".to_string(),
        time_ms: "1.250".to_string(),
        metric: "GB/s".to_string(),
        metric_val: "50.00".to_string(),
        peak_pct: peak.map(|p| p.to_string()),
    }
}

fn texts(table: &prettytable::Table) -> Vec<Vec<String>> {
    table
        .row_iter()
        .map(|row| row.iter().map(|cell| cell.get_content()).collect())
        .collect()
}

#[test]
fn table_has_headings_and_a_row_per_result() {
    let table = results_table(&vec![result("a", Some("55.8")), result("b", None)]);
    assert_eq!(
        texts(&table),
        vec![
            vec!["Benchmark", "Data (MB)", "Time (ms)", "Throughput", "Value", "% of Peak"],
            vec!["a", "64.0", "1.250", "GB/s", "50.00", "55.8%"],
            vec!["b", "64.0", "1.250", "GB/s", "50.00", "-"],
        ]
    );
}

#[test]
fn table_without_results_has_headings() {
    assert_eq!(texts(&results_table(&vec![])).len(), 1);
}

#[test]
fn cells_show_the_lines_of_their_texts() {
    let name = "one\r\ntwo\n\rthree\r\r\n\n";
    let table = results_table(&vec![result(name, None), result("\n", None), result("", None)]);
    let rows = texts(&table);
    assert_eq!(rows[1][0], "one\ntwo\n\rthree\r\n");
    assert_eq!(rows[2][0], "");
    assert_eq!(rows[3][0], "");
}

#[test]
fn table_is_printable() {
    let table = results_table(&vec![result("a", None)]);
    let text = table.to_string();
    assert!(text.contains("| Benchmark |"));
    assert!(text.contains("| a         | 64.0      | 1.250     | GB/s       | 50.00 | -         |"));
}

#[test]
fn result_cells() {
    assert_eq!(
        result("x", Some("9.9")).cells(),
        vec!["x", "64.0", "1.250", "GB/s", "50.00", "9.9%"]
    );
    assert_eq!(result("x", None).cells()[5], "-");
}

#[test]
fn escape_sequences_are_not_printable() {
    assert!(result("plain", Some("55.8")).is_printable());
    assert!(result("", None).is_printable());
    assert!(result("\u{1b}", None).is_printable());
    assert!(result("\u{1b}(B", None).is_printable());
    assert!(result("[\u{1b}", None).is_printable());
    assert!(!result("\u{1b}[", None).is_printable());
    assert!(!result("\u{1b}[31mred\u{1b}[0m", None).is_printable());
    assert!(!result("a", Some("1\u{1b}[2")).is_printable());
    let metric = BenchResult { metric: "\u{1b}\u{1b}[".to_string(), ..result("a", None) };
    assert!(!metric.is_printable());
}

#[test]
fn every_printable_result_gets_a_row() {
    let results = vec![result("\u{1b}", None), result("[\u{1b}", None), result("\u{1b}\n[", None)];
    assert!(results.iter().all(BenchResult::is_printable));
    let rows = texts(&results_table(&results));
    assert_eq!(rows[1][0], "\u{1b}");
    assert_eq!(rows[2][0], "[\u{1b}");
    assert_eq!(rows[3][0], "\u{1b}\n[");
}

#[test]
fn reports_are_printable() {
    for section in suite() {
        for benchmark in section.benchmarks() {
            for device_local in [true, false] {
                let r = report(benchmark, device_local);
                let shown = BenchResult {
                    metric: r.work.metric().to_string(),
                    ..result(r.name, None)
                };
                assert!(shown.is_printable());
            }
        }
    }
}

use rsclip_core::format::format_bytes;
use rsclip_core::profiler::{
    profile_mode, render_report_line, report_rows, report_width, rss_kb_from_status, PhaseRecord,
    Profiler,
};

fn rec(name: &str, depth: usize) -> PhaseRecord {
    PhaseRecord {
        name: name.to_string(),
        elapsed_nanos: 1_000_000,
        memory_before_kb: 0,
        memory_after_kb: 0,
        depth,
        skipped: false,
    }
}

#[test]
fn builds_tree_from_children_first_records() {
    // Flat records arrive in completion order (children finish before parent).
    let records = vec![
        rec("read list cache", 0),
        rec("query db row", 2),
        rec("read image thumb", 2),
        rec("decode thumbnail", 2),
        rec("query ocr text", 3),
        rec("parse ocr layout", 3),
        rec("format ocr preview", 2),
        rec("build preview panel", 1),
        rec("render clipboard preview", 0),
        rec("update footer", 0),
    ];
    let rows = report_rows(&records);
    let names: Vec<&str> = rows.iter().map(|r| r.name.as_str()).collect();
    assert_eq!(
        names,
        vec![
            "read list cache",
            "render clipboard preview",
            "└── build preview panel",
            "    ├── query db row",
            "    ├── read image thumb",
            "    ├── decode thumbnail",
            "    └── format ocr preview",
            "        ├── query ocr text",
            "        └── parse ocr layout",
            "update footer",
        ]
    );
    let order: Vec<usize> = rows.iter().map(|r| r.record).collect();
    assert_eq!(order, vec![0, 8, 7, 1, 2, 3, 6, 4, 5, 9]);
    let nested: Vec<bool> = rows.iter().map(|r| r.is_sub).collect();
    assert_eq!(nested, vec![false, false, true, true, true, true, true, true, true, false]);
    // The name column is as wide as the longest name in bytes.
    assert_eq!(report_width(&rows), "        └── parse ocr layout".len());
}

#[test]
fn profiler_phases_and_display() {
    let mut profiler = Profiler::new(true, true);
    profiler.begin(0, Some(100));
    profiler.begin_phase("total operation", 0, Some(100));
    profiler.begin_phase("sub operation", 1_000_000, Some(100));
    profiler.end_phase("sub operation", 3_500_000, Some(164));
    profiler.skip_phase("skipped operation", Some(164));
    profiler.end_phase("total operation", 10_000_000, Some(200));

    assert_eq!(profiler.records.len(), 3);
    let display = profiler.report_lines().join("\n");
    assert!(display.contains("=== rsclip Profile Report ==="));
    assert!(display.contains("total operation"));
    assert!(display.contains("sub operation"));
    assert!(display.contains("SKIPPED"));
}

#[test]
fn ending_a_phase_records_it_at_the_remaining_depth() {
    let mut p = Profiler::new(true, false);
    p.begin_phase("outer", 10, Some(1));
    p.begin_phase("inner", 20, Some(2));
    // Ending by name finds the innermost phase with that name.
    p.end_phase("outer", 50, Some(5));
    assert_eq!(p.records.len(), 1);
    assert_eq!(p.records[0].name, "outer");
    assert_eq!(p.records[0].elapsed_nanos, 40);
    assert_eq!(p.records[0].depth, 1);
    assert_eq!((p.records[0].memory_before_kb, p.records[0].memory_after_kb), (1, 5));
    // An unknown name ends the innermost phase.
    p.end_phase("nope", 70, None);
    assert_eq!(p.records[1].name, "inner");
    assert_eq!(p.records[1].depth, 0);
    assert_eq!(p.records[1].memory_after_kb, 0);
    // Nothing is open any more.
    p.end_phase("inner", 80, None);
    assert_eq!(p.records.len(), 2);
    p.reset();
    assert!(p.records.is_empty());
}

#[test]
fn disabled_profiler_records_nothing() {
    let mut p = Profiler::new(false, false);
    p.begin(0, None);
    p.begin_phase("a", 0, None);
    p.end_phase("a", 5, None);
    p.skip_phase("b", None);
    assert!(p.records.is_empty());
    assert!(p.report_lines().is_empty());
}

#[test]
fn report_lines_are_laid_out_in_columns() {
    let mut p = Profiler::new(true, false);
    p.begin_phase("load", 0, Some(1000));
    p.end_phase("load", 12_345_678, Some(1010));
    p.skip_phase("cache", Some(1010));
    let lines = p.report_lines();
    let expected = vec![
        "".to_string(),
        "=== rsclip Profile Report ===".to_string(),
        format!("{:<24} {:>10} {:>13} {:>13} {:>13}", "Phase", "Time (ms)", "Mem Before", "Mem After", "Delta (KB)"),
        "─".repeat(24 + 66),
        format!("{:<24} {:>10.2} {:>10} KB {:>10} KB {:>10} KB", "load", 12.35, 1000, 1010, "+10"),
        format!("{:<24} {:<10} {:<10} {:<10} {:<10}", "cache", "SKIPPED", "-", "-", "-"),
        "─".repeat(24 + 66),
        format!("{:<24} {:>10.2} {:>34} {:>10} KB", "Total", 12.35, "", 1010),
        format!("{:<24} {:>36} {:>10} KB", "", "", "net: +10"),
    ];
    assert_eq!(lines, expected);
}

#[test]
fn record_lines_show_negative_changes_and_half_even_rounding() {
    let mut r = rec("x", 0);
    r.memory_before_kb = 50;
    r.memory_after_kb = 20;
    r.elapsed_nanos = 1_005_000; // 1.005 ms: a tie, rounded to even
    assert_eq!(
        render_report_line("x", 4, &r),
        format!("{:<4} {:>10} {:>10} KB {:>10} KB {:>10} KB", "x", "1.00", 50, 20, "-30")
    );
    r.elapsed_nanos = 1_015_000;
    assert!(render_report_line("x", 4, &r).contains("      1.02 "));
}

#[test]
fn kilobytes_are_formatted_like_floats() {
    assert_eq!(format_bytes(512), "512 KB");
    assert_eq!(format_bytes(1536), "1.5 MB");
    assert_eq!(format_bytes(3 * 1024 * 1024), "3.00 GB");
}

#[test]
fn rss_figure_is_read_from_the_status_text() {
    let status = "Name:\trsclipd\nVmPeak:\t  20480 kB\nVmRSS:\t   12345 kB\nThreads:\t1\n";
    assert_eq!(rss_kb_from_status(status), Some(12345));
    assert_eq!(rss_kb_from_status("VmRSS: 7 kB\r\nVmRSS: 9 kB"), Some(7));
    assert_eq!(rss_kb_from_status("VmRSS:42"), Some(42));
    assert_eq!(rss_kb_from_status("VmRSS:   \nOther: 5"), None);
    assert_eq!(rss_kb_from_status("VmRSS: lots kB"), None);
    assert_eq!(rss_kb_from_status(" VmRSS: 5 kB"), None);
    assert_eq!(rss_kb_from_status("Name: x\n"), None);
    assert_eq!(rss_kb_from_status(""), None);
}

#[test]
fn profile_switch_reads_the_environment_value() {
    assert_eq!(profile_mode(None), (false, false));
    assert_eq!(profile_mode(Some("1")), (true, false));
    assert_eq!(profile_mode(Some("")), (true, false));
    assert_eq!(profile_mode(Some("verbose")), (true, true));
    assert_eq!(profile_mode(Some("2")), (true, true));
    assert_eq!(profile_mode(Some("Verbose")), (true, false));
}

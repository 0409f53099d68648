use memlink::audit::{audit, audit_checks, check, AuditFindings, AuditLimits, AuditReport};
use memlink::bench::{memory_file_name, mode_memory_path};
use memlink::evaluator::MetricsSummary;
use memlink::observe::{table_rows, ObservationSnapshot};
use memlink::transport::{frame_line, UnixSocketTransport};

fn good_runs() -> (MetricsSummary, MetricsSummary) {
    let text = MetricsSummary {
        task_count: 10,
        success_count: 10,
        ..MetricsSummary::default()
    };
    let structured = MetricsSummary {
        task_count: 10,
        success_count: 10,
        state_transfer_count: 4,
        state_bytes: 1024,
        memory_queries: 3,
        memory_queries_with_hits: 2,
        ..MetricsSummary::default()
    };
    (text, structured)
}

fn findings(state_files: usize, report_exists: bool) -> AuditFindings {
    AuditFindings {
        state_file_count: state_files,
        memory_hit_count: 2,
        report_exists,
        report_path: "reports/demo/report.md".to_owned(),
        observe_exists: true,
        observe_path: "reports/demo/observe.json".to_owned(),
    }
}

const LIMITS: AuditLimits = AuditLimits { min_tasks: 10, min_state_files: 1, min_memory_hits: 1 };

#[test]
fn a_complete_demo_passes_the_audit() {
    let (text, structured) = good_runs();
    let saving = check("communication_saving", true, "text_saving=10.00%".to_owned());
    let report = audit(&text, &structured, LIMITS, findings(3, true), "0.67", saving).expect("passes");
    assert!(report.passed);
    assert_eq!(report.checks.len(), 10);
    let names: Vec<&str> = report.checks.iter().map(|c| c.name.as_str()).collect();
    assert_eq!(
        names,
        vec![
            "text_tasks",
            "structured_tasks",
            "structured_state_transfers",
            "text_has_no_state_transfer",
            "memory_reuse",
            "communication_saving",
            "state_files",
            "memory_search_file",
            "report_file",
            "observe_file"
        ]
    );
    assert_eq!(report.checks[0].detail, "tasks=10, success=10");
    assert_eq!(report.checks[2].detail, "count=4, bytes=1024");
    assert_eq!(report.checks[4].detail, "queries_with_hits=2, hit_rate=0.67");
    assert_eq!(report.checks[6].detail, "files=3, min=1");
    assert_eq!(report.checks[8].detail, "reports/demo/report.md");
}

#[test]
fn a_failed_audit_lists_the_failed_checks() {
    let (text, structured) = good_runs();
    let saving = check("communication_saving", true, String::new());
    let error = audit(&text, &structured, LIMITS, findings(0, false), "0.67", saving).err().expect("fails");
    assert_eq!(
        error,
        "audit failed: state_files: files=0, min=1; report_file: reports/demo/report.md"
    );
    let checks = audit_checks(&text, &structured, LIMITS, findings(0, false), "0.67", check("communication_saving", false, "low".to_owned()));
    let report = AuditReport::new(checks);
    assert!(!report.passed);
    assert_eq!(
        report.ensure_passed(),
        Err("audit failed: communication_saving: low; state_files: files=0, min=1; report_file: reports/demo/report.md".to_owned())
    );
    assert_eq!(AuditReport::new(Vec::new()).ensure_passed(), Ok(()));
}

#[test]
fn each_mode_gets_its_own_memory_database() {
    assert_eq!(mode_memory_path("data/memlink.sqlite", "text"), "data/memlink-text.sqlite");
    assert_eq!(mode_memory_path("reports/demo/memlink.sqlite", "structured"), "reports/demo/memlink-structured.sqlite");
    assert_eq!(mode_memory_path("memory", "text"), "memory-text.sqlite");
    assert_eq!(memory_file_name(None, "text", None), "memlink-text.sqlite");
    assert_eq!(memory_file_name(Some("db".to_owned()), "x", Some("bin".to_owned())), "db-x.bin");
}

#[test]
fn transport_frames_are_json_lines() {
    let t = UnixSocketTransport::new("/tmp/memlink.sock");
    assert_eq!(t.path(), "/tmp/memlink.sock");
    assert_eq!(frame_line(b"{}".to_vec()), b"{}\n".to_vec());
}

#[test]
fn snapshot_records_the_process_and_socket_rows() {
    let pid: u32 = 4242;
    let snapshot = ObservationSnapshot::capture("test".to_owned(), pid, None, None);
    assert_eq!(snapshot.process_id, pid);
    assert_eq!(snapshot.note, "test");
    assert_eq!(snapshot.socket_count, 0);
    let with_table = ObservationSnapshot::capture(
        "t".to_owned(),
        1,
        Some("Num RefCount Protocol\n0: 2 0\n0: 3 0\n"),
        Some(9),
    );
    assert_eq!(with_table.socket_count, 2);
    assert_eq!(with_table.open_fd_count, Some(9));
    assert_eq!(table_rows(""), 0);
    assert_eq!(table_rows("header only"), 0);
}

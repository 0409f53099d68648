use memlink::evaluator::{
    comparison_report, comparison_report_with, ReportPercents, event_log_lines, saving_hundredths, summarize, Event, EventKind,
    MetricsSummary,
};
use memlink::protocol::{MessageKind, RunMode};

#[test]
fn comparison_report_uses_encoded_bytes_baseline_for_byte_saving() {
    let text = MetricsSummary {
        task_count: 1,
        success_count: 1,
        message_count: 1,
        text_chars: 100,
        encoded_bytes: 400,
        duration_ms: 100,
        ..MetricsSummary::default()
    };
    let structured = MetricsSummary {
        task_count: 1,
        success_count: 1,
        message_count: 1,
        text_chars: 90,
        encoded_bytes: 100,
        duration_ms: 100,
        ..MetricsSummary::default()
    };

    let report = comparison_report(&text, &structured);

    assert!(report.contains("| Encoded bytes | 400 | 100 | 75.00% |"));
}

#[test]
fn report_rows_for_text_duration_and_rates() {
    let text = MetricsSummary {
        task_count: 2,
        success_count: 2,
        text_chars: 100,
        duration_ms: 200,
        memory_queries: 4,
        memory_queries_with_hits: 1,
        memory_hits: 3,
        adopted_memory_hits: 1,
        ..MetricsSummary::default()
    };
    let structured = MetricsSummary {
        task_count: 2,
        success_count: 1,
        text_chars: 90,
        duration_ms: 250,
        memory_queries: 2,
        memory_queries_with_hits: 2,
        ..MetricsSummary::default()
    };
    let report = comparison_report(&text, &structured);
    assert!(report.starts_with("# MemLink Experiment Report\n\n| Metric | Text | Structured | Improvement |\n"));
    assert!(report.contains("| Tasks | 2 | 2 | - |\n"));
    assert!(report.contains("| Success | 2 | 1 | - |\n"));
    assert!(report.contains("| Text chars | 100 | 90 | 10.00% |\n"));
    assert!(report.contains("| Duration ms | 200 | 250 | -25.00% |\n"));
    assert!(report.contains("| Memory hit rate | 25.00% | 100.00% | - |\n"));
    assert!(report.contains("| Effective reuse rate | 33.33% | 0.00% | - |\n"));
    assert!(report.ends_with("across linked tasks.\n"));
}

#[test]
fn saving_rounds_an_exact_half_to_even() {
    assert_eq!(saving_hundredths(100, 400), (false, 7500));
    assert_eq!(saving_hundredths(31, 32), (false, 312));
    assert_eq!(saving_hundredths(33, 32), (true, 312));
    assert_eq!(saving_hundredths(2, 3), (false, 3333));
    assert_eq!(saving_hundredths(1, 3), (false, 6667));
    assert_eq!(saving_hundredths(5, 0), (false, 0));
    assert_eq!(saving_hundredths(7, 7), (false, 0));
}

#[test]
fn hit_rates_are_zero_without_queries() {
    let empty = MetricsSummary::default();
    assert_eq!(empty.memory_hit_rate_hundredths(), 0);
    assert_eq!(empty.effective_reuse_rate_hundredths(), 0);
    let some = MetricsSummary {
        memory_queries: 3,
        memory_queries_with_hits: 2,
        memory_hits: 8,
        adopted_memory_hits: 1,
        ..MetricsSummary::default()
    };
    assert_eq!(some.memory_hit_rate_hundredths(), 6667);
    assert_eq!(some.effective_reuse_rate_hundredths(), 1250);
}

fn event(kind: EventKind) -> Event {
    Event::new(1, 2, kind)
}

#[test]
fn summarize_adds_up_each_kind_of_event() {
    let events = vec![
        event(EventKind::AgentRegistered {
            agent_id: "planner".to_owned(),
            role: "Planner".to_owned(),
            capability_count: 1,
        }),
        event(EventKind::MessageMetric {
            from: "runtime".to_owned(),
            to: "planner".to_owned(),
            kind: MessageKind::ActionRequest,
            text_chars: 10,
            encoded_bytes: 20,
            state_bytes: 30,
        }),
        event(EventKind::MessageMetric {
            from: "planner".to_owned(),
            to: "retriever".to_owned(),
            kind: MessageKind::ActionResult,
            text_chars: 1,
            encoded_bytes: 2,
            state_bytes: 3,
        }),
        event(EventKind::StateTransfer {
            state_id: 9,
            format: "EmbeddingF32".to_owned(),
            byte_len: 128,
            producer: "retriever".to_owned(),
            consumer: "summarizer".to_owned(),
        }),
        event(EventKind::MemoryQuery { query: "q".to_owned(), hit_count: 0, adopted_count: 0 }),
        event(EventKind::MemoryQuery { query: "q".to_owned(), hit_count: 3, adopted_count: 2 }),
        event(EventKind::TaskFinished { mode: RunMode::Structured, success: true, duration_ms: 40 }),
        event(EventKind::TaskFinished { mode: RunMode::Structured, success: false, duration_ms: 2 }),
        event(EventKind::Error { message: "boom".to_owned() }),
    ];
    let s = summarize(&events, Some(RunMode::Structured)).expect("summary");
    assert_eq!(s.mode, Some(RunMode::Structured));
    assert_eq!(s.message_count, 2);
    assert_eq!(s.text_chars, 11);
    assert_eq!(s.encoded_bytes, 22);
    assert_eq!(s.state_bytes, 33);
    assert_eq!(s.state_transfer_count, 1);
    assert_eq!(s.memory_queries, 2);
    assert_eq!(s.memory_queries_with_hits, 1);
    assert_eq!(s.memory_hits, 3);
    assert_eq!(s.adopted_memory_hits, 2);
    assert_eq!(s.task_count, 2);
    assert_eq!(s.success_count, 1);
    assert_eq!(s.duration_ms, 42);
}

#[test]
fn summarize_refuses_totals_that_overflow() {
    let events = vec![
        event(EventKind::TaskFinished { mode: RunMode::Text, success: true, duration_ms: u64::MAX }),
        event(EventKind::TaskFinished { mode: RunMode::Text, success: true, duration_ms: 1 }),
    ];
    assert!(summarize(&events, Some(RunMode::Text)).is_none());
    let empty: Vec<Event> = Vec::new();
    let s = summarize(&empty, None).expect("summary");
    assert_eq!(s.task_count, 0);
    assert_eq!(s.mode, None);
}

#[test]
fn event_log_lines_skip_blank_lines() {
    let lines = event_log_lines("{\"a\":1}\n\n   \r\n{\"b\":2}\r\n");
    assert_eq!(lines, vec!["{\"a\":1}".to_owned(), "{\"b\":2}".to_owned()]);
    assert!(event_log_lines("").is_empty());
    assert_eq!(event_log_lines("x"), vec!["x".to_owned()]);
    assert_eq!(event_log_lines("a\r\nb\r"), vec!["a".to_owned(), "b\r".to_owned()]);
}

#[test]
fn report_with_prints_the_given_percentages() {
    let text = MetricsSummary { text_chars: 160, ..MetricsSummary::default() };
    let structured = MetricsSummary { text_chars: 67, ..MetricsSummary::default() };
    let percents = ReportPercents {
        text_chars_saving: "58.13".to_owned(),
        encoded_bytes_saving: "0.00".to_owned(),
        duration_saving: "0.00".to_owned(),
        text_hit_rate: "0.00".to_owned(),
        structured_hit_rate: "0.00".to_owned(),
        text_reuse_rate: "0.00".to_owned(),
        structured_reuse_rate: "0.00".to_owned(),
    };
    let report = comparison_report_with(&text, &structured, &percents);
    assert!(report.contains("| Text chars | 160 | 67 | 58.13% |\n"));
    assert!(report.contains("| Memory hit rate | 0.00% | 0.00% | - |\n"));
    assert_eq!(report.len(), comparison_report(&text, &structured).len());
}

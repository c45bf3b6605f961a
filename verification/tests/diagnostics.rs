//! Live diagnostics on concrete records.
use syntra::ui::diagnostics::{
    parse_record, DiagnosticStore, LiveDiagnostic, MAX_DIAGNOSTIC_ENTRIES,
};

#[test]
fn parses_logger_record_and_preserves_source_metadata() {
    let entry = parse_record(
        "[2026-09-05T12:34:56.789Z][WARN][clipboard::transfer] stage=clipboard direction=outbound correlation=abc completed",
    )
    .unwrap();
    assert_eq!(entry.timestamp, "2026-09-05T12:34:56.789Z");
    assert_eq!(entry.level, "warning");
    assert_eq!(entry.stage, "clipboard");
    assert_eq!(entry.direction, "outgoing");
    assert_eq!(entry.correlation, "abc");
    assert_eq!(
        entry.message,
        "stage=clipboard direction=outbound correlation=abc completed"
    );
}

#[test]
fn bounded_history_evicts_oldest_and_filters_all_metadata() {
    let mut store = DiagnosticStore::default();
    for index in 0..=MAX_DIAGNOSTIC_ENTRIES {
        store.push(LiveDiagnostic {
            timestamp: index.to_string(),
            level: if index % 2 == 0 { "info" } else { "error" }.into(),
            stage: "clipboard".into(),
            direction: "incoming".into(),
            correlation: format!("transfer-{index}"),
            message: "RangeResponse".into(),
        });
    }
    assert_eq!(store.entries.len(), MAX_DIAGNOSTIC_ENTRIES);
    assert_eq!(store.entries.front().unwrap().timestamp, "1");
    store.filter.level = "error".into();
    store.filter.query = "TRANSFER-19".into();
    let filtered = store.filtered(MAX_DIAGNOSTIC_ENTRIES);
    assert!(!filtered.is_empty());
    assert!(filtered.iter().all(|entry| {
        entry.level == "error" && entry.correlation.to_lowercase().contains("transfer-19")
    }));
}

/// The view asks for a window, not the whole ring buffer: projecting
/// everything on each arriving record is what froze the UI thread.
#[test]
fn filtering_returns_the_newest_entries_up_to_the_limit() {
    let mut store = DiagnosticStore::default();
    for index in 0..50 {
        store.push(LiveDiagnostic {
            timestamp: index.to_string(),
            level: "info".into(),
            stage: "network".into(),
            direction: "".into(),
            correlation: String::new(),
            message: "tick".into(),
        });
    }

    let window = store.filtered(10);

    assert_eq!(window.len(), 10);
    // Oldest first within the window, ending at the newest record.
    assert_eq!(window.first().unwrap().timestamp, "40");
    assert_eq!(window.last().unwrap().timestamp, "49");
}

#[test]
fn malformed_or_unstructured_lines_are_not_projected() {
    assert!(parse_record("ordinary stderr text").is_none());
    assert!(parse_record("[time][INFO] missing target").is_none());
}

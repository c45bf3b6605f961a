//! The history on concrete events.
use syntra::history::store::{ClearBoundary, HistoryStore};
use syntra::history::{
    FileMetadata, HistoryContent, HistoryError, HistoryEventId, HistoryKind, HistoryOrigin,
    ImportedHistoryEvent, MergeOutcome,
};

/// What a database holds of a store, opened anew.
fn reopen(store: HistoryStore) -> HistoryStore {
    HistoryStore::load(store.saved_events(), store.saved_operations()).unwrap()
}

fn imported(sequence: u64, content: HistoryContent) -> ImportedHistoryEvent {
    ImportedHistoryEvent {
        event_id: HistoryEventId {
            origin_device_id: "durable-device-id".into(),
            origin_sequence: sequence,
        },
        created_at_ms: 1_800_000_000_000 + sequence as i64,
        origin_label: Some("Office laptop".into()),
        content,
    }
}

#[test]
fn pin_survives_database_reopen() {
    let event = imported(
        1,
        HistoryContent::Image {
            bytes: Some(vec![1, 2, 3, 4]),
            media_type: Some("image/png".into()),
            width: None,
            height: None,
        },
    );
    let mut store = HistoryStore::new();
    assert_eq!(
        store.merge_imported(event.clone(), None).unwrap(),
        MergeOutcome::Inserted
    );
    assert!(store.set_pinned(&event.event_id, true).unwrap());

    let reopened = reopen(store);
    let records = reopened.list().unwrap();
    assert_eq!(records.len(), 1);
    assert!(records[0].pinned);
    assert_eq!(records[0].content, event.content);
}

#[test]
fn clear_preserves_pins_and_suppresses_reimported_events() {
    let pinned = imported(
        1,
        HistoryContent::Files(vec![FileMetadata {
            name: "report.pdf".into(),
            size_bytes: 42,
            media_type: Some("application/pdf".into()),
        }]),
    );
    let cleared = imported(2, HistoryContent::Text("remove me".into()));
    let mut store = HistoryStore::new();
    store.merge_imported(pinned.clone(), Some("[\"report.pdf\"]".into())).unwrap();
    store.merge_imported(cleared.clone(), None).unwrap();
    assert!(store.set_pinned(&pinned.event_id, true).unwrap());
    assert_eq!(store.clear_unpinned(), 1);

    let mut reopened = reopen(store);
    assert_eq!(
        reopened.merge_imported(cleared, None).unwrap(),
        MergeOutcome::Suppressed
    );
    let records = reopened.list().unwrap();
    assert_eq!(records.len(), 1);
    assert_eq!(records[0].event_id, pinned.event_id);
    assert!(records[0].pinned);
    assert_eq!(records[0].content, pinned.content);
}

#[test]
fn conflicting_reuse_of_event_id_is_rejected() {
    let mut store = HistoryStore::new();
    let first = imported(9, HistoryContent::Text("first".into()));
    let mut conflict = first.clone();
    conflict.content = HistoryContent::Text("different".into());
    store.merge_imported(first, None).unwrap();
    assert!(matches!(
        store.merge_imported(conflict, None),
        Err(HistoryError::EventConflict(_))
    ));
}

#[test]
fn next_sequence_survives_clear_and_reopen() {
    let mut store = HistoryStore::new();
    for expected in 1..=2 {
        let sequence = store.next_sequence("local-device-id").unwrap();
        assert_eq!(sequence, expected);
        assert_eq!(
            store
                .record(
                    HistoryKind::Text,
                    HistoryContent::Text(format!("copy {expected}")),
                    HistoryOrigin {
                        device_id: "local-device-id".into(),
                        sequence,
                        label: None,
                    },
                    1_800_000_000_000,
                    None,
                )
                .unwrap(),
            MergeOutcome::Inserted
        );
    }
    assert_eq!(store.clear_unpinned(), 2);

    let mut reopened = reopen(store);
    let sequence = reopened.next_sequence("local-device-id").unwrap();
    assert_eq!(sequence, 3);
    assert_eq!(
        reopened
            .record(
                HistoryKind::Text,
                HistoryContent::Text("copy 3".into()),
                HistoryOrigin {
                    device_id: "local-device-id".into(),
                    sequence,
                    label: None,
                },
                1_800_000_000_001,
                None,
            )
            .unwrap(),
        MergeOutcome::Inserted
    );
}

#[test]
fn bounded_clear_is_idempotent_and_suppresses_only_covered_events() {
    let pinned = imported(1, HistoryContent::Text("pinned".into()));
    let covered = imported(2, HistoryContent::Text("covered".into()));
    let higher = imported(5, HistoryContent::Text("higher".into()));
    let mut other_origin = imported(1, HistoryContent::Text("other origin".into()));
    other_origin.event_id.origin_device_id = "other-device".into();
    let late = imported(4, HistoryContent::Text("late covered event".into()));

    let mut store = HistoryStore::new();
    store.merge_imported(pinned.clone(), None).unwrap();
    store.merge_imported(covered.clone(), None).unwrap();
    let mut boundary = store.snapshot_boundary();
    assert_eq!(boundary.get(&"durable-device-id".to_string()), Some(&2));
    boundary.insert("durable-device-id".into(), 4);
    store.merge_imported(higher.clone(), None).unwrap();
    store.merge_imported(other_origin.clone(), None).unwrap();
    assert!(store.set_pinned(&pinned.event_id, true).unwrap());

    assert_eq!(
        store
            .clear_unpinned_through("clear-operation-1", &boundary)
            .unwrap(),
        1
    );
    let saved = store.saved_events();
    let payload_of = |event: &ImportedHistoryEvent| {
        saved
            .iter()
            .find(|columns| {
                columns.device_id == event.event_id.origin_device_id
                    && columns.sequence == event.event_id.origin_sequence as i64
            })
            .unwrap()
            .text
            .clone()
    };
    assert!(payload_of(&covered).is_none());
    assert!(payload_of(&pinned).is_some());
    assert_eq!(
        store
            .clear_unpinned_through("clear-operation-1", &boundary)
            .unwrap(),
        1
    );
    assert_eq!(
        store.merge_imported(late.clone(), None).unwrap(),
        MergeOutcome::Suppressed
    );
    assert_eq!(
        store.merge_imported(late, None).unwrap(),
        MergeOutcome::Suppressed
    );

    let records = store.list().unwrap();
    assert_eq!(records.len(), 3);
    assert!(records
        .iter()
        .any(|record| record.event_id == pinned.event_id && record.pinned));
    assert!(records.iter().any(|record| record.event_id == higher.event_id));
    assert!(records.iter().any(|record| record.event_id == other_origin.event_id));
}

#[test]
fn local_sequence_advances_beyond_persisted_clear_boundary() {
    let mut store = HistoryStore::new();
    let mut boundary = ClearBoundary::new();
    boundary.insert("local-device".into(), 10);
    store
        .clear_unpinned_through("clear-own-boundary", &boundary)
        .unwrap();

    let sequence = store.next_sequence("local-device").unwrap();
    assert_eq!(sequence, 11);
    assert_eq!(
        store
            .record(
                HistoryKind::Text,
                HistoryContent::Text("new local copy".into()),
                HistoryOrigin {
                    device_id: "local-device".into(),
                    sequence,
                    label: None,
                },
                1_800_000_000_000,
                None,
            )
            .unwrap(),
        MergeOutcome::Inserted
    );
    assert_eq!(store.list().unwrap().len(), 1);
}

/// A clear operation that is repeated with another boundary is refused.
#[test]
fn differing_reuse_of_a_clear_is_refused() {
    let mut store = HistoryStore::new();
    let mut boundary = ClearBoundary::new();
    boundary.insert("a".into(), 1);
    store.clear_unpinned_through("op", &boundary).unwrap();
    boundary.insert("a".into(), 2);
    let error = store.clear_unpinned_through("op", &boundary).unwrap_err();
    assert_eq!(error, HistoryError::ClearOperationConflict("op".into()));
    assert_eq!(
        error.to_text(),
        "clear operation \"op\" was reused with a different boundary"
    );
    assert!(matches!(
        store.clear_unpinned_through("", &boundary),
        Err(HistoryError::InvalidPayload(_))
    ));
}

/// The list is newest first, searches ignore the case of ASCII letters, and
/// pages follow each other.
#[test]
fn lists_are_searched_and_paged() {
    let mut store = HistoryStore::new();
    for sequence in 1..=60 {
        store
            .merge_imported(imported(sequence, HistoryContent::Text(format!("Copy {sequence}"))), None)
            .unwrap();
    }
    assert_eq!(store.list().unwrap()[0].event_id.origin_sequence, 60);
    assert_eq!(store.search("cOPY 42").unwrap().len(), 1);
    assert_eq!(store.search("office LAPTOP").unwrap().len(), 60);
    assert_eq!(store.search("50%").unwrap().len(), 0);
    let (first, next) = store.page("", 0, 100).unwrap();
    assert_eq!(first.len(), 50);
    assert_eq!(next, Some(50));
    let (second, end) = store.page("", 50, 50).unwrap();
    assert_eq!(second.len(), 10);
    assert_eq!(end, None);
    assert_eq!(second[9].event_id.origin_sequence, 1);
    let (one, _) = store.page("", 3, 0).unwrap();
    assert_eq!(one.len(), 1);
    let (events, rest) = store.export_page(59, 5).unwrap();
    assert_eq!(events.len(), 1);
    assert_eq!(rest, None);
}

/// Events that break a limit are refused, each for its own reason.
#[test]
fn broken_events_are_refused() {
    let mut store = HistoryStore::new();
    let empty = imported(1, HistoryContent::Files(vec![]));
    assert!(store.merge_imported(empty, None).is_err());
    let mut unnamed = imported(1, HistoryContent::Text("x".into()));
    unnamed.event_id.origin_device_id = String::new();
    let error = store.merge_imported(unnamed, None).unwrap_err();
    assert_eq!(
        error.to_text(),
        "invalid clipboard history payload: origin device id must not be empty"
    );
    let long = imported(1, HistoryContent::Text("x".repeat(1024 * 1024 + 1)));
    assert!(store.merge_imported(long, None).is_err());
    let mut late = imported(1, HistoryContent::Text("x".into()));
    late.event_id.origin_sequence = u64::MAX;
    assert!(store.merge_imported(late, None).is_err());
    assert!(store
        .record(
            HistoryKind::Image,
            HistoryContent::Text("x".into()),
            HistoryOrigin { device_id: "a".into(), sequence: 1, label: None },
            0,
            None,
        )
        .is_err());
    assert!(store.list().unwrap().is_empty());
}

/// An event that cannot be read fails those who look at it, and nobody else.
#[test]
fn corrupt_rows_are_reported() {
    let mut store = HistoryStore::new();
    for sequence in 1..=3 {
        let text = HistoryContent::Text(format!("text {sequence}"));
        store.merge_imported(imported(sequence, text), None).unwrap();
    }
    let id = |sequence| imported(sequence, HistoryContent::Text(String::new())).event_id;
    let mut rows = store.saved_events();
    rows[0].kind = "sound".into();
    rows[1].text = None;
    rows[1].media_type = Some("odd/type".into());
    let mut broken = HistoryStore::load(rows, vec![]).unwrap();
    let conversion = |text: &str| {
        HistoryError::Database(format!(
            "Conversion error from type Text at index: 0, \
             clipboard history database contains invalid data: {text}"
        ))
    };
    let missing = conversion("text payload missing");
    let unknown = conversion("unknown kind \"sound\"");
    assert_eq!(broken.list().unwrap_err(), missing);
    assert_eq!(broken.page("", 0, 1).unwrap_err(), missing);
    assert_eq!(broken.export_page(0, 1).unwrap_err(), missing);
    assert_eq!(broken.search("TEXT 1").unwrap_err(), unknown);
    assert_eq!(broken.search("odd/").unwrap_err(), missing);
    assert_eq!(broken.search("text 3").unwrap().len(), 1);
    assert_eq!(broken.get(&id(1)).unwrap_err(), unknown);
    assert!(broken.get(&id(3)).unwrap().is_some());
    assert_eq!(broken.next_sequence("durable-device-id").unwrap(), 4);
    let late = imported(4, HistoryContent::Text("late".into()));
    assert_eq!(broken.merge_imported(late, None).unwrap(), MergeOutcome::Inserted);
    let again = imported(1, HistoryContent::Text("text 1".into()));
    assert_eq!(broken.merge_imported(again, None).unwrap_err(), unknown);
    assert!(broken.set_pinned(&id(3), true).unwrap());
    assert_eq!(reopen(broken).clear_unpinned(), 3);
}

/// A clear mends a history that cannot be listed; a pinned event stays in the way.
#[test]
fn a_clear_mends_the_list() {
    let mut store = HistoryStore::new();
    let text = HistoryContent::Text("x".into());
    store.merge_imported(imported(1, text), None).unwrap();
    let mut rows = store.saved_events();
    rows[0].unread = Some("no such column".into());
    let mut broken = HistoryStore::load(rows, vec![]).unwrap();
    assert_eq!(
        broken.list().unwrap_err(),
        HistoryError::Database("no such column".into())
    );
    assert_eq!(broken.clear_unpinned(), 1);
    assert!(broken.list().unwrap().is_empty());
}

#[test]
fn events_without_a_proper_sequence_are_refused() {
    let mut store = HistoryStore::new();
    let text = HistoryContent::Text("x".into());
    store.merge_imported(imported(1, text), None).unwrap();
    let mut rows = store.saved_events();
    rows[0].sequence = -1;
    assert_eq!(
        HistoryStore::load(rows, vec![]).unwrap_err(),
        HistoryError::Database(
            "Conversion error from type Text at index: 0, \
             clipboard history database contains invalid data: negative origin sequence"
                .into()
        )
    );
}

/// The database compares texts in its own way, and takes only so long a pattern.
#[test]
fn a_search_is_the_search_of_a_database() {
    let mut store = HistoryStore::new();
    assert!(store.search(&"a".repeat(49_999)).unwrap().is_empty());
    let text = HistoryContent::Text("One\0two \u{fffe}".into());
    store.merge_imported(imported(1, text), None).unwrap();
    let text = HistoryContent::Text("odd \u{ffff} One!".into());
    store.merge_imported(imported(2, text), None).unwrap();
    let found = |query: &str| -> Vec<u64> {
        let all = store.search(query).unwrap();
        all.iter().map(|record| record.event_id.origin_sequence).collect()
    };
    assert_eq!(found("two"), Vec::<u64>::new());
    assert_eq!(found("ONE!"), vec![2]);
    assert_eq!(found("one\0!"), vec![1]);
    assert_eq!(found("odd \u{fffd}"), vec![2]);
    assert!(found(&"a".repeat(49_998)).is_empty());
    let long = Err(HistoryError::Database("LIKE or GLOB pattern too complex".into()));
    assert_eq!(store.search(&"a".repeat(49_999)), long);
    assert_eq!(store.search(&"_".repeat(25_000)), long);
    assert_eq!(store.clear_unpinned(), 2);
    assert_eq!(store.search(&"a".repeat(49_999)), long);
    assert_eq!(
        long.unwrap_err().to_text(),
        "clipboard history database error: LIKE or GLOB pattern too complex"
    );
}

#[test]
fn a_clear_dismisses_what_it_said_it_would() {
    let mut store = HistoryStore::new();
    for sequence in 1..=3 {
        let text = HistoryContent::Text(format!("text {sequence}"));
        store.merge_imported(imported(sequence, text), None).unwrap();
    }
    let id = |sequence| imported(sequence, HistoryContent::Text(String::new())).event_id;
    store.set_pinned(&id(1), true).unwrap();
    let mut boundary = ClearBoundary::new();
    boundary.insert("durable-device-id".into(), 2);
    assert_eq!(store.dismissable(&boundary), vec![id(2)]);
    assert!(!store.saved_event(&id(2)).unwrap().dismissed);
    assert_eq!(store.clear_unpinned_through("operation", &boundary).unwrap(), 1);
    assert!(store.dismissable(&boundary).is_empty());
    let saved = store.saved_event(&id(2)).unwrap();
    assert!(saved.dismissed && saved.text.is_none());
    assert!(store.saved_event(&id(9)).is_none());
}

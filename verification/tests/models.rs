//! The state of the dashboard on concrete events.
use syntra::api::{
    ClientConfig, ClientState, ClipboardTransferDirection, ClipboardTransferState,
    ClipboardTransferStatus, FrontendEvent, FrontendRequest, HistoryEventId, HistoryKind,
    HistoryPage, HistoryPreview, HistoryRecordSummary, IncomingFileOffer, IpAddr,
    ManualTransferState, ManualTransferStatus, SocketAddr,
};
use syntra::ui::models::{AppViewState, TransportLifecycle, TransportLifecycleEvent};

#[test]
fn manual_offer_replay_and_decision_preserve_other_peers() {
    let first = IncomingFileOffer {
        peer_fingerprint: "peer-a".into(),
        transfer_id: 7,
        file_name: "example.txt".into(),
        size: 4,
        suggested_directory: "/synthetic/downloads".into(),
    };
    let second = IncomingFileOffer {
        peer_fingerprint: "peer-b".into(),
        ..first.clone()
    };
    let mut view = AppViewState::default();
    view.reduce(FrontendEvent::IncomingFileOffer(first.clone()));
    view.reduce(FrontendEvent::IncomingFileOffer(first.clone()));
    view.reduce(FrontendEvent::IncomingFileOffer(second.clone()));
    let pending = ManualTransferStatus {
        peer_fingerprint: first.peer_fingerprint.clone(),
        transfer_id: first.transfer_id,
        file_name: first.file_name.clone(),
        size: first.size,
        transferred: 0,
        direction: ClipboardTransferDirection::Receiving,
        state: ManualTransferState::AwaitingAcceptance,
        destination: None,
        error: Some("Choose another destination".into()),
    };
    view.reduce(FrontendEvent::ManualTransferStatus(pending.clone()));
    assert_eq!(view.pending_file_offers, vec![first, second.clone()]);
    view.reduce(FrontendEvent::ManualTransferStatus(ManualTransferStatus {
        state: ManualTransferState::Transferring,
        error: None,
        ..pending
    }));
    assert_eq!(view.pending_file_offers, vec![second]);
}

#[test]
fn disconnected_incoming_peer_is_not_left_connected() {
    let mut view = AppViewState::default();
    let address = SocketAddr { ip: IpAddr::V4(0x7f00_0001), port: 12345, flow: 0, scope: 0 };
    view.reduce(FrontendEvent::DeviceConnected {
        addr: address,
        fingerprint: "peer".into(),
    });
    assert_eq!(view.connected_devices.len(), 1);
    view.reduce(FrontendEvent::IncomingDisconnected(address));
    assert_eq!(view.connected_devices.len(), 0);
    assert_eq!(view.last_disconnected_device, Some(address));
}

#[test]
fn lost_service_clears_stale_incoming_file_prompts() {
    let mut view = AppViewState::default();
    view.reduce(FrontendEvent::IncomingFileOffer(IncomingFileOffer {
        peer_fingerprint: "peer".into(),
        transfer_id: 9,
        file_name: "example.txt".into(),
        size: 1,
        suggested_directory: "/synthetic/downloads".into(),
    }));
    view.reduce_transport(TransportLifecycleEvent::DaemonUnavailable);
    assert!(view.pending_file_offers.is_empty());
}

fn history_page(query: &str, sequences: &[u64]) -> HistoryPage {
    HistoryPage {
        query: query.into(),
        offset: 0,
        next_offset: None,
        records: sequences
            .iter()
            .map(|sequence| HistoryRecordSummary {
                event_id: HistoryEventId {
                    origin_device_id: "synthetic-peer".into(),
                    origin_sequence: *sequence,
                },
                created_at_ms: 1,
                origin_label: Some("Synthetic peer".into()),
                pinned: *sequence == 2,
                kind: HistoryKind::Text,
                preview: HistoryPreview::Text {
                    preview: "needle".into(),
                    truncated: false,
                },
            })
            .collect(),
    }
}

#[test]
fn clear_refreshes_filtered_records_and_preserves_partial_failure() {
    let mut view = AppViewState::default();
    view.navigation.page = "history".into();
    view.history_query = "needle".into();
    view.reduce_transport(TransportLifecycleEvent::Resynchronized);
    view.reduce(FrontendEvent::HistoryPage(history_page("needle", &[1, 2])));
    view.history_clear_pending = true;
    view.reduce(FrontendEvent::InputSharing(false));
    assert!(view.history_clear_pending);
    view.reduce(FrontendEvent::HistoryClearResult {
        operation_id: "synthetic-clear".into(),
        affected: 1,
        peers_acknowledged: 0,
        error: Some("One peer did not acknowledge".into()),
    });
    assert!(matches!(view.next_history_refresh(),
        Some(FrontendRequest::QueryHistory { query, offset: 0, .. }) if query == "needle"));
    view.reduce(FrontendEvent::HistoryPage(history_page("needle", &[2])));
    assert_eq!(
        view.history_page
            .as_ref()
            .unwrap()
            .records
            .iter()
            .map(|record| record.event_id.origin_sequence)
            .collect::<Vec<_>>(),
        vec![2]
    );
    assert_eq!(
        view.history_clear_error.as_deref(),
        Some("One peer did not acknowledge")
    );
    assert!(!view.history_query_pending && !view.history_clear_pending);
}

#[test]
fn clipboard_invalidations_coalesce_and_refresh_latest_search() {
    let mut view = AppViewState::default();
    view.navigation.page = "history".into();
    view.reduce_transport(TransportLifecycleEvent::Resynchronized);
    view.reduce(FrontendEvent::HistoryChanged);
    assert!(view.next_history_refresh().is_some());
    view.history_query = "needle".into();
    view.reduce(FrontendEvent::HistoryChanged);
    view.reduce(FrontendEvent::HistoryChanged);
    assert!(view.next_history_refresh().is_none());
    view.reduce(FrontendEvent::HistoryPage(history_page("", &[1])));
    assert!(view.history_page.is_none());
    assert!(matches!(view.next_history_refresh(),
        Some(FrontendRequest::QueryHistory { query, offset: 0, .. }) if query == "needle"));
    view.reduce(FrontendEvent::HistoryPage(history_page("needle", &[2])));
    assert!(view.next_history_refresh().is_none());
    assert_eq!(
        view.history_page.as_ref().unwrap().records[0]
            .event_id
            .origin_sequence,
        2
    );
}

#[test]
fn enumerate_replaces_stale_clients_deterministically() {
    let mut s = AppViewState::default();
    s.reduce(FrontendEvent::Created(
        9,
        ClientConfig::default(),
        ClientState::default(),
    ));
    s.reduce(FrontendEvent::Enumerate(vec![
        (2, ClientConfig::default(), ClientState::default()),
        (1, ClientConfig::default(), ClientState::default()),
    ]));
    let keys = (0..s.clients.len()).map(|i| s.clients.row(i).0).collect::<Vec<_>>();
    assert_eq!(keys, vec![1, 2]);
}

#[test]
fn event_families_reduce_without_transport_conflation() {
    let mut s = AppViewState::default();
    s.reduce(FrontendEvent::PortChanged(42, Some("busy".into())));
    s.reduce(FrontendEvent::Error("oops".into()));
    s.reduce(FrontendEvent::CaptureStatus(true));
    s.reduce(FrontendEvent::EmulationStatus(true));
    s.reduce(FrontendEvent::AuthorizedUpdated(vec![("fp".into(), "name".into())]));
    s.reduce(FrontendEvent::PublicKeyFingerprint("local".into()));
    assert_eq!(s.diagnostics.port, 42);
    assert_eq!(s.diagnostics.last_error.as_deref(), Some("oops"));
    assert!(s.input_health.capture && s.input_health.emulation);
    s.reduce_transport(TransportLifecycleEvent::DaemonUnavailable);
    assert_eq!(s.status.transport, TransportLifecycle::Unavailable);
}

#[test]
fn connection_context_lifecycle_and_composite_transfers() {
    let mut s = AppViewState::default();
    s.reduce(FrontendEvent::ConnectionAttempt {
        fingerprint: "attempt".into(),
    });
    assert_eq!(
        s.connection_attempt.as_ref().unwrap().fingerprint,
        "attempt"
    );
    for e in [
        TransportLifecycleEvent::DaemonUnavailable,
        TransportLifecycleEvent::Reconnecting,
        TransportLifecycleEvent::Resynchronized,
    ] {
        s.reduce_transport(e);
    }
    let mk = |f, state| ClipboardTransferStatus {
        transfer_id: 4,
        file_id: f,
        name: "x".into(),
        direction: ClipboardTransferDirection::Receiving,
        transferred_bytes: 1,
        total_bytes: 2,
        bytes_per_second: 1,
        state,
    };
    s.reduce(FrontendEvent::ClipboardTransferStatus(mk(
        1,
        ClipboardTransferState::Transferring,
    )));
    s.reduce(FrontendEvent::ClipboardTransferStatus(mk(
        2,
        ClipboardTransferState::Completed,
    )));
    assert_eq!(s.transfers.len(), 2);
}

//! What the dashboard shows, and what it answers, on concrete states.
use syntra::api::{
    ClientConfig, ClientState, ClipboardTransferDirection, ClipboardTransferState,
    ClipboardTransferStatus, DaemonInfo, DaemonOrigin, DeviceProfile, FileReceiveSettings,
    FrontendEvent, FrontendRequest, HistoryEventId, HistoryImage, HistoryKind, HistoryPage,
    HistoryPreview, HistoryRecordSummary, IncomingFileOffer, IpAddr, ManualTransferState,
    ManualTransferStatus, PeerAvatar, PluginHealth, PluginStatus, Position, SocketAddr,
};
use syntra::ui::callbacks::{
    intent_error_message, react, show_error, IntentError, Reaction, UiIntent, UserAction,
};
use syntra::ui::dashboard::{project_app_state, Dashboard, Window};
use syntra::ui::history_view::{cleared_text, Thumbnail, ThumbnailCache};
use syntra::ui::manual::{OfferDialog, ReceiveForm};
use syntra::ui::manual_actions::{
    accept_incoming_file, cancel_manual_transfer, choose_download_directory,
    choose_incoming_directory, choose_manual_files, decline_incoming_file, drop_target,
    file_dropped, files_chosen, incoming_directory_chosen, save_file_receive_settings, Answer,
    FilePicker, Place,
    Choice,
};
use syntra::ui::models::AppViewState;
use syntra::ui::projection::{DeviceImage, Label, LocalDevice};
use syntra::ui::pump::{
    connection_lost, follow, launch_display_ms, next_delay, open_state, opens_window, receive,
    reconnect_step, startup_requests, Attempt, StartupMode,
};
use syntra::ui::settings::{DevicePresentation, PresentationSettings};
use syntra::ui::transfers::TransferState;

fn window() -> Window {
    Window {
        local: LocalDevice { name: "Here".into(), has_image: false },
        form: ReceiveForm {
            dirty: false,
            auto_accept: false,
            directory: String::new(),
            busy: false,
            picker_busy: false,
        },
        dialog: OfferDialog {
            visible: false,
            peer: String::new(),
            id: String::new(),
            directory: String::new(),
            error: String::new(),
            busy: false,
            picker_busy: false,
        },
        thumbnails: ThumbnailCache::new(),
    }
}

fn connected() -> AppViewState {
    let mut state = AppViewState::default();
    receive(&mut state, FrontendEvent::InputSharing(true));
    state
}

fn shown(state: &AppViewState, window: &mut Window) -> Dashboard {
    project_app_state(state, None, &PresentationSettings::default(), &vec![], window)
}

fn client(state: &mut AppViewState, handle: u64, position: Position, fingerprint: &str) {
    let config = ClientConfig {
        hostname: Some(format!("host{handle}")),
        pos: position,
        port: 4242,
        ..ClientConfig::default()
    };
    let live = ClientState { alive: true, remote_ready: true, ..ClientState::default() };
    state.reduce(FrontendEvent::Created(handle, config, live));
    if !fingerprint.is_empty() {
        state.reduce(FrontendEvent::ClientFingerprint {
            handle,
            fingerprint: fingerprint.into(),
        });
    }
}

#[test]
fn clients_are_named_and_placed() {
    let mut state = connected();
    client(&mut state, 1, Position::Left, "aa");
    client(&mut state, 2, Position::Left, "");
    client(&mut state, 3, Position::Top, "bb");
    state.reduce(FrontendEvent::PeerDeviceProfile {
        fingerprint: "bb".into(),
        profile: DeviceProfile {
            display_name: "Tablet".into(),
            avatar: Some(PeerAvatar { width: 1, height: 1, rgba: vec![0; 4] }),
        },
        valid: true,
    });
    state.reduce(FrontendEvent::AuthorizedUpdated(vec![("bb".into(), "desc".into())]));
    let mut settings = PresentationSettings::default();
    settings.devices.insert(
        "cert:aa".into(),
        DevicePresentation { friendly_name: "Laptop".into(), image_path: "/p.png".into() },
    );
    let loaded = vec![false, false, false];
    let d = project_app_state(&state, None, &settings, &loaded, &mut window());
    let names = d.clients.iter().map(|c| c.display_name.as_str()).collect::<Vec<_>>();
    assert_eq!(names, vec!["Laptop", "host2", "Tablet"]);
    assert_eq!(d.clients[0].identity_key, "cert:aa");
    assert_eq!(d.clients[0].image_path, "/p.png");
    assert!(!d.clients[0].has_custom_image);
    assert!(d.clients[2].has_custom_image && d.clients[2].authorized);
    assert_eq!((d.clients[0].zone_index, d.clients[1].zone_index), (0, 1));
    assert_eq!(d.clients[2].position, 2);
    assert_eq!(d.peer_zone_depth, 2);
    assert!(d.clients[0].alive && d.clients[0].remote_ready);
    assert_eq!(d.authorized_keys, vec!["bb"]);
    connection_lost(&mut state);
    let d = project_app_state(&state, None, &settings, &vec![true], &mut window());
    assert!(!d.clients[0].alive && !d.status.connected);
    assert!(d.clients[0].has_custom_image);
    assert_eq!(d.status.diagnostics_error, "The service connection was lost");
}

#[test]
fn the_daemon_is_shown_once_it_is_known() {
    let state = connected();
    let d = shown(&state, &mut window());
    assert!(!d.daemon.known);
    assert_eq!((d.daemon.pid.as_str(), d.daemon.uptime.as_str()), ("", ""));
    let info = DaemonInfo {
        version: "1.0".into(),
        origin: DaemonOrigin::Service,
        pid: 12,
        uptime_seconds: 7200,
        executable: "/d".into(),
        socket: "/s".into(),
        config_dir: "/c".into(),
        port: 4242,
        capture_backend: Some("x11".into()),
        emulation_backend: None,
    };
    let d = project_app_state(
        &state,
        Some(&info),
        &PresentationSettings::default(),
        &vec![],
        &mut window(),
    );
    assert_eq!(d.daemon.origin, "service");
    assert_eq!(d.daemon.pid, "12");
    assert_eq!(d.daemon.uptime, "2 h");
    assert_eq!(d.daemon.capture_backend, "x11");
    assert_eq!(d.daemon.emulation_backend, "");
    assert_eq!(d.status.transport_status, "Ready");
    assert!(d.status.input_sharing && d.status.input_sharing_known);
}

fn transfer(file_id: u64, state: ClipboardTransferState) -> FrontendEvent {
    FrontendEvent::ClipboardTransferStatus(ClipboardTransferStatus {
        transfer_id: 4,
        file_id,
        name: "photo.png".into(),
        direction: ClipboardTransferDirection::Receiving,
        transferred_bytes: 3,
        total_bytes: 2,
        bytes_per_second: 2048,
        state,
    })
}

#[test]
fn transfers_are_listed_by_how_they_stand() {
    let mut state = connected();
    state.reduce(transfer(1, ClipboardTransferState::Transferring));
    state.reduce(transfer(2, ClipboardTransferState::Completed));
    state.reduce(transfer(3, ClipboardTransferState::Failed("disk".into())));
    state.reduce(FrontendEvent::ManualTransferStatus(ManualTransferStatus {
        peer_fingerprint: "aa".into(),
        transfer_id: 9,
        file_name: "empty".into(),
        size: 0,
        transferred: 0,
        direction: ClipboardTransferDirection::Sending,
        state: ManualTransferState::Completed,
        destination: Some("/home".into()),
        error: None,
    }));
    let d = shown(&state, &mut window());
    let lists = d.transfers;
    assert_eq!(
        (lists.active.len(), lists.completed.len(), lists.failed.len(), lists.cancelled.len()),
        (1, 2, 1, 0)
    );
    assert_eq!(lists.active[0].progress, (2, 2));
    assert_eq!(lists.active[0].rate_label, "2.0 KiB/s");
    assert_eq!(lists.active[0].kind_label, Label::Text("PNG".into()));
    assert!(lists.active[0].cancellable);
    assert_eq!(lists.failed[0].error_message, "disk");
    let manual = &lists.completed[1];
    assert!(manual.manual && manual.state == TransferState::Completed);
    assert_eq!(manual.progress, (1, 1));
    assert_eq!(manual.peer_label, Label::Key("history-unknown-device".into()));
    assert_eq!(manual.destination_key, "manual-transfer-saved-to");
}

fn record(sequence: u64, origin: &str, pinned: bool, preview: HistoryPreview) -> HistoryRecordSummary {
    HistoryRecordSummary {
        event_id: HistoryEventId {
            origin_device_id: origin.into(),
            origin_sequence: sequence,
        },
        created_at_ms: 0,
        origin_label: Some(format!("label{sequence}")),
        pinned,
        kind: match preview {
            HistoryPreview::Image { .. } => HistoryKind::Image,
            _ => HistoryKind::Text,
        },
        preview,
    }
}

#[test]
fn history_is_shown_and_its_images_are_asked_for() {
    let mut state = connected();
    state.navigation.page = "history".into();
    let image = HistoryPreview::Image { size_bytes: 2048, width: None, height: None };
    let page = HistoryPage {
        query: String::new(),
        offset: 0,
        next_offset: Some(50),
        records: vec![
            record(2, "peer", true, image),
            record(
                1,
                "peer",
                false,
                HistoryPreview::Files {
                    names: vec!["a".into(), "b".into()],
                    total_files: 2,
                    total_size_bytes: 10,
                },
            ),
        ],
    };
    let got = receive(&mut state, FrontendEvent::HistoryPage(page));
    assert!(matches!(
        got.requests.last(),
        Some(FrontendRequest::GetHistoryImage(id)) if id.origin_sequence == 2
    ));
    let mut window = window();
    let d = shown(&state, &mut window);
    let history = d.history.unwrap();
    assert!(history.has_more);
    assert_eq!(history.records[0].group_header, "history-pinned-section");
    assert_eq!(history.records[1].group_header, "history-recent-section");
    assert_eq!(history.records[0].preview_text, "2.0 KiB");
    assert_eq!(history.records[1].preview_text, "a, b\n10 B");
    assert_eq!(history.records[0].timestamp, "1970-01-01 00:00:00 UTC");
    assert_eq!(history.records[1].source_label, Label::Text("label2".into()));
    assert_eq!(history.records[0].thumbnail, Thumbnail::Absent);
    let id = HistoryEventId { origin_device_id: "peer".into(), origin_sequence: 2 };
    receive(
        &mut state,
        FrontendEvent::HistoryImageResult {
            event_id: id,
            image: Some(HistoryImage { width: Some(1), height: Some(1), bytes: vec![1, 2, 3, 4] }),
            error: None,
        },
    );
    let d = shown(&state, &mut window);
    assert_eq!(d.history.unwrap().records[0].thumbnail, Thumbnail::Decode { forget: false });
    let d = shown(&state, &mut window);
    assert_eq!(d.history.unwrap().records[0].thumbnail, Thumbnail::Known);
    assert_eq!(cleared_text("Removed", "Peers", 3, 1), "Removed: 3 \u{b7} Peers: 1");
    state.navigation.page = "overview".into();
    assert!(shown(&state, &mut window).history.is_none());
}

fn offer(peer: &str, id: u64) -> IncomingFileOffer {
    IncomingFileOffer {
        peer_fingerprint: peer.into(),
        transfer_id: id,
        file_name: "f.txt".into(),
        size: 5,
        suggested_directory: "/downloads".into(),
    }
}

#[test]
fn offers_are_answered_once() {
    let mut state = connected();
    let mut w = window();
    let got = receive(&mut state, FrontendEvent::IncomingFileOffer(offer("aa", 7)));
    assert!(got.incoming_offer);
    let d = shown(&state, &mut w);
    assert_eq!(d.manual.offer_count, 1);
    assert_eq!(d.manual.offer.unwrap().size, "5 B");
    assert!(follow(&mut w.form, &mut w.dialog, &got));
    assert_eq!((w.dialog.peer.as_str(), w.dialog.id.as_str()), ("aa", "7"));
    assert_eq!(w.dialog.directory, "/downloads");
    assert_eq!(
        accept_incoming_file(&mut w.dialog, &state, false),
        Answer::Error { place: Place::Offer, key: "manual-transfer-absolute-folder".into() }
    );
    let key = choose_incoming_directory(&mut w.dialog, &state).unwrap();
    assert!(choose_incoming_directory(&mut w.dialog, &state).is_none());
    incoming_directory_chosen(&mut w.dialog, &key, Some("/else".into()));
    assert!(matches!(
        accept_incoming_file(&mut w.dialog, &state, true),
        Answer::Send(FrontendRequest::AcceptFileTransfer { transfer_id: 7, destination_directory, .. })
            if destination_directory == "/else"
    ));
    assert_eq!(accept_incoming_file(&mut w.dialog, &state, true), Answer::Ignore);
    let d = shown(&state, &mut w);
    assert!(d.manual.offer.is_some() && w.dialog.busy);
    let got = receive(&mut state, FrontendEvent::ManualTransferError("no".into()));
    follow(&mut w.form, &mut w.dialog, &got);
    assert!(!w.dialog.busy);
    assert!(matches!(
        decline_incoming_file(&mut w.dialog, &state),
        Answer::Send(FrontendRequest::DeclineFileTransfer { .. })
    ));
    connection_lost(&mut state);
    shown(&state, &mut w);
    assert!(!w.dialog.visible && w.dialog.peer.is_empty());
    assert_eq!(decline_incoming_file(&mut w.dialog, &state), Answer::Ignore);
}

#[test]
fn files_go_to_reachable_peers() {
    let mut state = connected();
    client(&mut state, 1, Position::Left, "bb");
    let address = SocketAddr { ip: IpAddr::V4(1), port: 1, flow: 0, scope: 0 };
    state.reduce(FrontendEvent::DeviceConnected { addr: address, fingerprint: "aa".into() });
    let mut w = window();
    assert!(shown(&state, &mut w).manual.peers.iter().all(|p| !p.connected));
    state.reduce(FrontendEvent::FileReceiveSettingsChanged(
        FileReceiveSettings { auto_accept: true, download_directory: "/d".into() },
        None,
    ));
    let d = shown(&state, &mut w);
    let peers = d.manual.peers;
    assert_eq!(peers.len(), 2);
    assert_eq!(peers[0].fingerprint, "aa");
    assert_eq!(peers[1].name, Label::Text("host1".into()));
    assert!(peers[0].connected && peers[1].connected);
    assert_eq!(peers[0].image, DeviceImage::Nowhere);
    assert_eq!((w.form.auto_accept, w.form.directory.as_str()), (true, "/d"));
    let mut picker = FilePicker { busy: true };
    assert_eq!(choose_manual_files(&mut picker, &w.dialog, &peers, "aa"), Choice::Ignore);
    picker.busy = false;
    assert_eq!(
        choose_manual_files(&mut picker, &w.dialog, &peers, "cc"),
        Choice::Error { place: Place::Transfers, key: "manual-transfer-connect-peer".into() }
    );
    assert!(!picker.busy);
    assert!(matches!(
        choose_manual_files(&mut picker, &w.dialog, &peers, "bb"),
        Choice::Open(_)
    ));
    assert!(picker.busy);
    assert_eq!(files_chosen(&mut picker, "bb", vec![]), Answer::Ignore);
    assert!(!picker.busy);
    assert!(matches!(files_chosen(&mut picker, "bb", vec!["/x".into()]), Answer::Send(_)));
    let hits = vec![false, true];
    let target = drop_target("transfers", &w.dialog, true, &peers, &hits);
    assert_eq!(target.as_deref(), Some("bb"));
    assert!(drop_target("history", &w.dialog, true, &peers, &hits).is_none());
    assert!(matches!(
        file_dropped(target, "/x".into()),
        Answer::Send(FrontendRequest::SendFiles { paths, .. }) if paths == vec!["/x"]
    ));
    assert_eq!(
        file_dropped(None, "/x".into()),
        Answer::Error { place: Place::Transfers, key: "manual-transfer-drop-error".into() }
    );
    assert_eq!(
        cancel_manual_transfer("bb", "x"),
        Answer::Error { place: Place::Transfers, key: "manual-transfer-invalid-id".into() }
    );
}

#[test]
fn forms_stay_dirty_until_they_are_saved() {
    let mut state = connected();
    let mut w = window();
    assert!(choose_download_directory(&mut w.form, &w.dialog));
    assert!(!choose_download_directory(&mut w.form, &w.dialog));
    syntra::ui::manual_actions::download_directory_chosen(&mut w.form, Some("/mine".into()));
    assert!(w.form.dirty);
    assert!(matches!(
        save_file_receive_settings(&mut w.form, &w.dialog, &mut state, true),
        Answer::Send(FrontendRequest::SetFileReceiveSettings(s)) if s.download_directory == "/mine"
    ));
    assert!(state.file_receive_pending);
    let settings = FileReceiveSettings { auto_accept: false, download_directory: "/mine".into() };
    let got = receive(
        &mut state,
        FrontendEvent::FileReceiveSettingsChanged(settings.clone(), Some("denied".into())),
    );
    assert!(!got.settings_saved);
    state.file_receive_pending = true;
    let got = receive(&mut state, FrontendEvent::FileReceiveSettingsChanged(settings, None));
    assert!(got.settings_saved);
    follow(&mut w.form, &mut w.dialog, &got);
    assert!(!w.form.dirty);
}

#[test]
fn plugins_are_shown_as_the_daemon_reports_them() {
    let mut state = connected();
    state.reduce(FrontendEvent::Plugins(vec![PluginStatus {
        id: "p".into(),
        name: "P".into(),
        description: String::new(),
        version: "1".into(),
        author: "A".into(),
        homepage: None,
        source: None,
        update_url: None,
        license: Some("MIT".into()),
        mime_types: vec!["a".into(), "b".into()],
        bundled: true,
        manifest_path: "/m".into(),
        executable: "/e".into(),
        installed: true,
        enabled: true,
        running: false,
        health: PluginHealth::NotInstalled,
        restarts: u32::MAX,
        pid: None,
        protocol_version: 1,
        supported_protocol_version: 1,
        error: None,
    }]));
    let d = shown(&state, &mut window());
    assert_eq!(d.plugins[0].health, "not-installed");
    assert_eq!(d.plugins[0].mime_types, "a, b");
    assert_eq!(d.plugins[0].restarts, -1);
    assert_eq!(d.plugins[0].license, "MIT");
}

#[test]
fn actions_become_requests_or_errors() {
    let mut state = connected();
    assert_eq!(
        react(&mut state, UserAction::ActivateClient { handle: "3".into(), active: true }),
        Reaction::Dispatch(UiIntent::Activate(3, true))
    );
    assert_eq!(
        react(&mut state, UserAction::DeleteClient("x".into())),
        Reaction::ShowError("Invalid client id: x".into())
    );
    assert_eq!(
        react(&mut state, UserAction::UpdatePort { handle: "3".into(), port: 70000 }),
        Reaction::ShowError("Invalid port: 70000".into())
    );
    assert_eq!(
        react(&mut state, UserAction::UpdatePort { handle: "x".into(), port: 70000 }),
        Reaction::ShowError("Invalid client id: x".into())
    );
    assert_eq!(
        react(&mut state, UserAction::CancelTransfer("-1".into())),
        Reaction::ShowError("Invalid transfer id".into())
    );
    assert_eq!(
        react(&mut state, UserAction::SaveConfiguration(Err("disk".into()))),
        Reaction::ShowError("Unable to save preferences: disk".into())
    );
    assert_eq!(
        react(
            &mut state,
            UserAction::UpdateFixedIps {
                handle: "1".into(),
                addresses: vec![("10.0.0.1".into(), Some(IpAddr::V4(0x0a00_0001)))],
            }
        ),
        Reaction::Dispatch(UiIntent::UpdateFixIps(1, vec![IpAddr::V4(0x0a00_0001)]))
    );
    assert_eq!(
        react(&mut state, UserAction::RefreshPlugins),
        Reaction::Send(FrontendRequest::QueryPlugins)
    );
    show_error(&mut state, "seen".into());
    assert_eq!(state.diagnostics.last_error.as_deref(), Some("seen"));
    assert_eq!(
        intent_error_message(IntentError::EmptyField("name".into())),
        "Required field is empty: name"
    );
}

#[test]
fn the_history_is_asked_for_once_at_a_time() {
    let mut state = connected();
    state.navigation.page = "history".into();
    assert!(matches!(
        react(&mut state, UserAction::HistorySearch("a".into())),
        Reaction::Send(FrontendRequest::QueryHistory { offset: 0, limit: 50, .. })
    ));
    assert_eq!(react(&mut state, UserAction::HistorySearch("ab".into())), Reaction::Nothing);
    assert_eq!(react(&mut state, UserAction::HistoryLoadMore), Reaction::Nothing);
    assert_eq!(
        react(&mut state, UserAction::HistoryClearGlobal),
        Reaction::Send(FrontendRequest::ClearGlobalHistory)
    );
    assert_eq!(react(&mut state, UserAction::HistoryClearGlobal), Reaction::Nothing);
    assert!(matches!(
        react(
            &mut state,
            UserAction::HistoryPin { origin: "o".into(), sequence: "4".into(), pinned: true }
        ),
        Reaction::Send(FrontendRequest::SetHistoryPinned { pinned: true, .. })
    ));
    assert_eq!(
        react(
            &mut state,
            UserAction::HistoryPin { origin: "o".into(), sequence: "".into(), pinned: true }
        ),
        Reaction::ShowError("Invalid history event identifier".into())
    );
}

#[test]
fn the_start_and_the_way_back() {
    assert!(opens_window(StartupMode::Window, true));
    assert!(opens_window(StartupMode::Background, false));
    assert!(!opens_window(StartupMode::Background, true));
    assert_eq!(startup_requests().len(), 4);
    assert_eq!(launch_display_ms(false), 250);
    let mut delay = 250;
    let mut seen = vec![];
    for _ in 0..7 {
        seen.push(delay);
        delay = next_delay(delay);
    }
    assert_eq!(seen, vec![250, 500, 1000, 2000, 4000, 5000, 5000]);
    assert_eq!(
        reconnect_step(false, false, 250),
        Attempt::Again { wait_ms: 250, next_ms: 500 }
    );
    assert_eq!(reconnect_step(true, false, 250), Attempt::GiveUp);
    assert_eq!(reconnect_step(true, true, 250), Attempt::Attached);
    let mut state = AppViewState::default();
    open_state(&mut state, syntra::ui::pump::default_host_capabilities(false));
    assert!(state.status.reconnecting && state.capabilities.capture);
}

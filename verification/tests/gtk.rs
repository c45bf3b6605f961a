//! The GTK window and dropped files on concrete events.
use syntra::api::{
    ClientConfig, ClientState, ClipboardTransferDirection, ClipboardTransferState,
    ClipboardTransferStatus, FrontendRequest, IpAddr, Position,
};
use syntra::lan_mouse_gtk::{
    capture_emulation_status, client_idx, delete_client, placeholder_visible, request_port_change,
    row_changed, transfer_row, update_client_list, Console, ConsoleFilter, RowChange,
};
use syntra::ui::file_drop::{
    configure_backend, explicit_non_winit_backend, BackendPlan, DragEvent, Hover,
};

fn all_lines() -> ConsoleFilter {
    ConsoleFilter { level: 0, stage: 0, direction: 0, query: String::new() }
}

#[test]
fn the_console_keeps_the_newest_lines() {
    let mut console = Console::new();
    for line in 0..2005 {
        console.append_console_line(format!("line {line}"));
    }
    let text = console.render_clipboard_console(&all_lines());
    assert_eq!(text.lines().count(), 2000);
    assert!(text.starts_with("line 5\n"));
    console.clear();
    assert_eq!(console.render_clipboard_console(&all_lines()), "");
}

#[test]
fn the_console_filters_its_lines() {
    let mut console = Console::new();
    console.append_console_line("[ERROR][x] direction=Outbound Copy failed".into());
    console.append_console_line("[INFO][x] direction=inbound paste".into());
    let render = |filter: ConsoleFilter| console.render_clipboard_console(&filter);
    assert_eq!(render(ConsoleFilter { level: 1, ..all_lines() }).lines().count(), 1);
    assert!(render(ConsoleFilter { stage: 4, ..all_lines() }).contains("paste"));
    assert!(render(ConsoleFilter { direction: 2, ..all_lines() }).contains("Copy"));
    assert!(render(ConsoleFilter { query: "COPY".into(), ..all_lines() }).contains("Copy"));
    assert_eq!(render(ConsoleFilter { level: 5, ..all_lines() }), "");
}

#[test]
fn rows_follow_what_is_heard_of_clients() {
    let mut rows = vec![];
    let heard = |handle, hostname: &str, ips: Vec<IpAddr>| {
        (
            handle,
            ClientConfig { hostname: Some(hostname.into()), ..ClientConfig::default() },
            ClientState { ips, ..ClientState::default() },
        )
    };
    update_client_list(&mut rows, vec![heard(1, "a", vec![]), heard(2, "b", vec![IpAddr::V4(1)])]);
    update_client_list(&mut rows, vec![heard(1, "c", vec![])]);
    assert_eq!(rows.len(), 2);
    assert_eq!(rows[0].hostname.as_deref(), Some("c"));
    assert!(!rows[0].resolved && rows[1].resolved);
    assert_eq!(client_idx(&rows, 2), Some(1));
    assert!(delete_client(&mut rows, 1));
    assert!(!delete_client(&mut rows, 1));
    assert_eq!(rows[0].handle, 2);
    assert!(!placeholder_visible(rows.len()));
    assert_eq!(
        row_changed(&rows, 0, RowChange::Hostname(String::new())),
        Some(FrontendRequest::UpdateHostname(2, None))
    );
    assert_eq!(
        row_changed(&rows, 0, RowChange::Port(65_536 + 7)),
        Some(FrontendRequest::UpdatePort(2, 7))
    );
    assert_eq!(
        row_changed(&rows, 0, RowChange::Position(9)),
        Some(FrontendRequest::UpdatePosition(2, Position::Bottom))
    );
    assert_eq!(row_changed(&rows, 1, RowChange::Delete), None);
    assert_eq!(request_port_change("80", 4242), FrontendRequest::ChangePort(80));
    assert_eq!(request_port_change("70000", 4242), FrontendRequest::ChangePort(4242));
}

#[test]
fn transfers_are_told_in_one_line() {
    let row = transfer_row(&ClipboardTransferStatus {
        transfer_id: 1,
        file_id: 2,
        name: "f".into(),
        direction: ClipboardTransferDirection::Sending,
        transferred_bytes: 1,
        total_bytes: 2,
        bytes_per_second: 3,
        state: ClipboardTransferState::Failed("disk".into()),
    });
    assert_eq!(row.subtitle, "Sending \u{b7} 1 / 2 bytes \u{b7} Failed: disk \u{b7} 3 bytes/s");
    assert_eq!(row.label, format!("f: {}", row.subtitle));
    assert!(!row.cancel_visible);
}

#[test]
fn one_permission_gives_one_warning() {
    let both = capture_emulation_status(false, false, true);
    assert!(both.capture && !both.emulation && both.group);
    let one = capture_emulation_status(true, false, false);
    assert!(!one.capture && one.emulation && one.group);
    assert!(!capture_emulation_status(true, true, false).group);
}

#[test]
fn backends_are_chosen_by_the_session() {
    assert_eq!(
        explicit_non_winit_backend(Some(" Qt-software ".into())).as_deref(),
        Some(" Qt-software ")
    );
    assert_eq!(explicit_non_winit_backend(Some("winit".into())), None);
    assert_eq!(
        configure_backend(true, None, None, Some(":0".into())),
        BackendPlan::SelectX11
    );
    assert!(matches!(
        configure_backend(true, None, Some("wayland-0".into()), Some(":0".into())),
        BackendPlan::Skip(_)
    ));
    assert!(matches!(configure_backend(true, None, None, None), BackendPlan::Skip(_)));
    assert_eq!(configure_backend(false, None, None, None), BackendPlan::Select);
}

#[test]
fn drags_end_by_themselves() {
    let mut hover = Hover::new();
    let begun = hover.follow(DragEvent::Hovered);
    assert!(begun.start_timer && begun.tell_position);
    assert!(!hover.follow(DragEvent::Hovered).start_timer);
    let mut polls = 0;
    loop {
        let effect = hover.follow(DragEvent::Poll);
        polls += 1;
        if effect.tell_gone {
            assert!(effect.stop_timer);
            break;
        }
    }
    assert_eq!(polls, 1200);
    hover.follow(DragEvent::Hovered);
    let dropped = hover.follow(DragEvent::Dropped);
    assert!(dropped.tell_drop && dropped.tell_gone);
    hover.follow(DragEvent::Released);
    assert!(!hover.follow(DragEvent::Hovered).tell_position);
}

//! What the dashboard's cards show, on concrete events.
use syntra::api::{
    ClientConfig, ClientState, ClipboardTransferDirection, ClipboardTransferState,
    ClipboardTransferStatus, FrontendRequest, IpAddr,
};
use syntra::lan_mouse_gtk::{
    key_added, key_removed, new_client, pause_label, permission_warning, update_client_config,
    update_client_state, Console, ConsoleFilter, KeyRow, TransferRows,
};
use syntra::platform::daemon::DaemonControlError;
use syntra::platform::flatpak::FlatpakCard;
use syntra::platform::install::InstallError;
use syntra::platform::service::{query_status, read_status, ServiceError, ServiceStatus};
use syntra::platform::service_card::{
    installation_error, launcher_error, ServiceCard, StartCard,
};
use syntra::platform::tray::{
    claim_tray, initial_prompt, notice_window, permission_seen, tray_message, Prompt, TrayEffect,
    OPEN_COMMAND, QUIT_COMMAND, TRAY_CALLBACK_MESSAGE, WM_CLOSE, WM_COMMAND, WM_DESTROY,
    WM_LBUTTONDBLCLK, WM_LBUTTONUP, WM_RBUTTONUP,
};
use syntra::platform::{Effect, FlatpakApplication, PlatformAction, PlatformError};
use syntra::ui::avatar::{
    draft_profile, frame, local_device_profile, sent_avatar, AvatarCache, ChosenPicture, Frame,
    Picture,
};
use syntra::ui::device_identity::{remove_owned, Lookup};
use syntra::ui::diagnostics::{
    project_live_diagnostics, DiagnosticStore, DiagnosticsView, LiveDiagnostic,
};
use syntra::ui::file_drop::{
    backend_selected, pointer_window, supported, unavailable_reason, BackendConfiguration,
    LinuxWindow,
};
use syntra::ui::models::AppViewState;
use syntra::ui::preferences::{failure_message, language_chosen, Failure};
use syntra::ui::settings::PresentationSettings;
use syntra::ui::update_card::{choose_source, choose_source_with, UpdateCard};
use syntra::ui::updates::{UpdateError, UpdateStatus, Version};

#[test]
fn an_update_check_keeps_the_card_busy() {
    let mut settings = PresentationSettings::default();
    settings.updates.repository = "owner/repo".into();
    settings.updates.automatic_check = true;
    let mut card = UpdateCard::open(&settings);
    assert_eq!((card.repository.as_str(), card.automatic_check), ("owner/repo", true));
    let config = card.check("owner/repo").unwrap();
    assert_eq!(config.owner.as_deref(), Some("owner"));
    assert_eq!(config.repository.as_deref(), Some("repo"));
    assert!(card.busy);
    assert_eq!(card.status, "Checking for updates\u{2026}");
    assert!(card.check("owner/repo").is_none());
    let current = Version::parse("1.2.3").unwrap();
    card.checked(Ok(UpdateStatus::UpToDate { current }));
    assert!(!card.busy);
    assert_eq!(card.status, "Syntra 1.2.3 is up to date");
    card.checked(Err(UpdateError::Http("offline".into())));
    assert_eq!(card.status, "Update check failed: HTTP operation failed: offline");
}

#[test]
fn an_update_check_needs_a_source() {
    let mut card = UpdateCard::open(&PresentationSettings::default());
    assert!(card.check("  ").is_none());
    assert_eq!(card.status, "Update source is not configured");
    assert!(card.check("owner").is_none());
    assert_eq!(card.status, "Update repository must use the owner/repository format");
    assert!(!card.busy);
}

#[test]
fn a_source_is_shown_once_it_is_saved() {
    let mut card = UpdateCard::open(&PresentationSettings::default());
    card.configured(" owner/repo ", Err("disk full".into()));
    assert_eq!(card.repository, "");
    assert_eq!(card.status, "Unable to save update source: disk full");
    card.configured(" owner/repo ", Ok(()));
    assert_eq!(card.repository, "owner/repo");
    assert_eq!(card.status, "Update source configured for owner/repo");
}

#[test]
fn an_automatic_check_that_was_not_saved_is_not_shown() {
    let mut card = UpdateCard::open(&PresentationSettings::default());
    card.automatic_set(true, Err("disk full".into()), false);
    assert!(!card.automatic_check);
    assert_eq!(card.status, "Unable to save automatic update preference: disk full");
    card.automatic_set(true, Ok(()), false);
    assert!(card.automatic_check);
}

#[test]
fn a_source_is_checked_before_it_is_saved() {
    let mut settings = PresentationSettings::default();
    settings.updates.artifact_template = "syntra-{version}-{os}-{arch}.tar.gz".into();
    let choose = |repository: &str, version: &str| {
        choose_source(&settings, repository, version, "linux".into(), "x86_64".into())
    };
    let next = choose(" owner/repo ", "v1.0.0").unwrap();
    assert_eq!(next.updates.repository, "owner/repo");
    assert_eq!(next.updates.artifact_template, settings.updates.artifact_template);
    assert_eq!(choose("", "nonsense").unwrap().updates.repository, "");
    assert_eq!(
        choose("owner/re po", "1.0.0").unwrap_err(),
        "invalid updater configuration: repository is not a valid GitHub path component"
    );
    assert_eq!(
        choose("a/b/c", "1.0.0").unwrap_err(),
        "Update repository must contain exactly one owner/repository pair"
    );
    assert!(choose("owner/repo", "nonsense").unwrap_err().starts_with("invalid current version: "));
    let unread = choose_source_with(
        &settings,
        "owner/repo",
        Err("no number".into()),
        "linux".into(),
        "x86_64".into(),
    );
    assert_eq!(unread.unwrap_err(), "invalid current version: no number");
}

fn service_card() -> ServiceCard {
    ServiceCard::open(true, Ok("/opt/syntra-daemon".into()), None, Some("/home/a/bin".into()), false)
}

#[test]
fn one_service_action_runs_at_a_time() {
    let mut card = service_card();
    assert_eq!(card.source_path, "Unavailable");
    assert_eq!(card.binary_path, "/opt/syntra-daemon");
    assert!(card.begin_action());
    assert!(!card.begin_action());
    card.end_action(Ok(ServiceStatus { installed: true, running: false, autostart: true }));
    assert!(!card.busy && card.known && card.installed && !card.running && card.autostart);
    assert!(card.begin_action());
    card.end_action(Err(ServiceError::Io("denied".into())));
    assert!(!card.known && card.installed);
    assert_eq!(card.error, "service filesystem operation failed: denied");
}

#[test]
fn a_directory_that_cannot_be_used_is_not_shown() {
    let mut card = service_card();
    card.destination_chosen("/opt".into(), Err(InstallError::DirectoryNotFound));
    assert_eq!(card.destination, "/home/a/bin");
    assert_eq!(
        card.error,
        "could not determine an installation directory; set SYNTRA_INSTALL_DIR"
    );
    card.destination_chosen("/opt".into(), Ok(()));
    assert_eq!((card.destination.as_str(), card.customised), ("/opt", true));
    assert_eq!(card.error, "");
    card.destination_reset(Ok("/usr/bin".into()), Ok(()));
    assert_eq!((card.destination.as_str(), card.customised), ("/usr/bin", false));
    card.destination_reset(Err(InstallError::DirectoryNotFound), Ok(()));
    assert_eq!(card.destination, "");
}

#[test]
fn installation_failures_are_told_as_binary_failures() {
    assert_eq!(
        installation_error(InstallError::MissingBinary("syntra".into())).to_text(),
        "invalid service binary: syntra was not found next to the running application; install \
         both binaries together"
    );
    assert_eq!(
        launcher_error("no directory".into()).to_text(),
        "invalid service binary: invalid service binary: no directory"
    );
}

#[test]
fn a_start_shows_its_error() {
    let mut card = StartCard { starting: false, error: "old".into() };
    card.begin();
    assert!(card.starting && card.error.is_empty());
    card.end(Err(DaemonControlError::Spawn("denied".into())));
    assert!(!card.starting);
    assert_eq!(card.error, "could not start the service: denied");
}

fn application(id: &str, name: &str) -> FlatpakApplication {
    FlatpakApplication { application_id: id.into(), name: name.into() }
}

#[test]
fn flatpak_applications_are_listed_and_searched() {
    let mut card = FlatpakCard {
        applications: vec![],
        all: vec![],
        search: String::new(),
        loading: false,
        error: String::new(),
        granted: String::new(),
    };
    assert!(!card.begin_refresh(false));
    assert_eq!(card.error, "Flatpak application discovery is unavailable on this platform");
    assert!(card.begin_refresh(true) && card.loading);
    card.end_refresh(Ok(vec![application("org.a", "Files"), application("org.b", "Text")]));
    assert!(!card.loading && card.error.is_empty());
    assert_eq!(card.applications.len(), 2);
    card.search_for(" TEXT ".into());
    assert_eq!(card.applications, vec![application("org.b", "Text")]);
    card.end_refresh(Ok(vec![application("org.text", "Other")]));
    assert_eq!(card.applications, vec![application("org.text", "Other")]);
    assert_eq!(
        card.begin_grant(true, String::new()).unwrap_err(),
        "Select a Flatpak application first"
    );
    assert_eq!(
        card.begin_grant(true, "org.a".into()),
        Ok(PlatformAction::GrantFlatpakFilesystemAccess { application_id: "org.a".into() })
    );
    card.end_grant("org.a".into(), Ok(()));
    assert_eq!(card.granted, "org.a");
    card.end_refresh(Err(PlatformError::Flatpak("gone".into())));
    assert!(card.all.is_empty() && card.applications.is_empty());
    assert_eq!(card.error, "Flatpak(\"gone\")");
}

fn record(message: &str) -> LiveDiagnostic {
    LiveDiagnostic {
        timestamp: String::new(),
        level: "info".into(),
        stage: "copy".into(),
        direction: "local".into(),
        correlation: String::new(),
        message: message.into(),
    }
}

#[test]
fn new_log_records_are_appended_to_the_rows() {
    let mut store = DiagnosticStore::default();
    let mut view = DiagnosticsView {
        rows: vec![],
        shown: (0, 0),
        message_columns: 0,
        paused: false,
        error: String::new(),
    };
    for i in 0..500 {
        store.push(record(&format!("record {i}")));
    }
    project_live_diagnostics(&mut view, &store, 500, 0);
    assert_eq!(view.rows.len(), 400);
    assert_eq!(view.rows[0].message, "record 100");
    assert_eq!(view.message_columns, 80);
    store.push(record(&"x".repeat(90)));
    project_live_diagnostics(&mut view, &store, 501, 0);
    assert_eq!(view.rows.len(), 400);
    assert_eq!(view.rows[0].message, "record 101");
    assert_eq!(view.rows, store.filtered(400));
    assert_eq!(view.message_columns, 90);
    store.clear();
    project_live_diagnostics(&mut view, &store, 501, 0);
    assert_eq!(view.rows.len(), 400);
    project_live_diagnostics(&mut view, &store, 501, 1);
    assert!(view.rows.is_empty());
}

#[test]
fn a_square_is_cut_out_of_the_middle() {
    assert_eq!(frame(0, 9), None);
    assert_eq!(frame(600, 400), Some(Frame { crop: 400, beside: 200, around: 0, edge: 256 }));
    assert_eq!(frame(1, 1), Some(Frame { crop: 1, beside: 0, around: 0, edge: 64 }));
    assert_eq!(frame(100, 120), Some(Frame { crop: 100, beside: 0, around: 20, edge: 100 }));
}

#[test]
fn small_avatars_are_remembered_and_the_oldest_leave() {
    let mut cache = AvatarCache::new();
    cache.keep(1, 257, 10, 7);
    assert_eq!(cache.find(1), None);
    for i in 0..65 {
        cache.keep(i, 256, 256, i + 100);
    }
    assert_eq!(cache.entries.len(), 64);
    assert_eq!(cache.find(0), None);
    assert_eq!(cache.find(1), Some(101));
    assert_eq!(cache.find(64), Some(164));
}

#[test]
fn tray_messages_have_their_effects() {
    let at = |message, wparam, lparam| tray_message(message, 0xc001, wparam, lparam);
    assert_eq!(at(TRAY_CALLBACK_MESSAGE, 0, WM_LBUTTONUP as u64), TrayEffect::Show);
    assert_eq!(at(TRAY_CALLBACK_MESSAGE, 0, WM_LBUTTONDBLCLK as u64), TrayEffect::Show);
    assert_eq!(at(TRAY_CALLBACK_MESSAGE, 0, WM_RBUTTONUP as u64), TrayEffect::Menu);
    assert_eq!(at(TRAY_CALLBACK_MESSAGE, 0, 1), TrayEffect::Nothing);
    assert_eq!(at(0xc001, 0, 0), TrayEffect::AddIcon);
    assert_eq!(at(WM_COMMAND, OPEN_COMMAND | 0x10_0000, 0), TrayEffect::Show);
    assert_eq!(at(WM_COMMAND, QUIT_COMMAND, 0), TrayEffect::Quit);
    assert_eq!(at(WM_COMMAND, 9, 0), TrayEffect::Nothing);
    assert_eq!(at(WM_CLOSE, 0, 0), TrayEffect::Remove);
    assert_eq!(at(WM_DESTROY, 0, 0), TrayEffect::EndLoop);
    assert_eq!(at(0x7777, 0, 0), TrayEffect::Default);
}

#[test]
fn there_is_one_tray_icon() {
    assert_eq!(claim_tray(false), Ok(()));
    assert_eq!(
        claim_tray(true),
        Err(PlatformError::Tray("Windows notification-area icon is already running".into()))
    );
    assert_eq!(notice_window(Some(4)), Ok(4));
    assert_eq!(
        notice_window(None),
        Err(PlatformError::Tray("Windows notification-area icon is not running".into()))
    );
}

#[test]
fn permissions_are_followed() {
    assert_eq!(permission_seen(false, true), Effect::Show);
    assert_eq!(permission_seen(true, false), Effect::Quit);
    assert_eq!(permission_seen(true, true), Effect::Nothing);
    assert_eq!(initial_prompt(false, false), Prompt::Accessibility);
    assert_eq!(initial_prompt(false, true), Prompt::Input);
    assert_eq!(initial_prompt(true, true), Prompt::Nothing);
}

#[test]
fn windows_without_a_pointer_are_refused() {
    assert_eq!(pointer_window(&LinuxWindow::Xcb(7)), Ok(7));
    assert_eq!(pointer_window(&LinuxWindow::Xlib(0xffff_ffff)), Ok(0xffff_ffff));
    assert_eq!(
        pointer_window(&LinuxWindow::Xlib(0x1_0000_0000)),
        Err("X11 window identifier does not fit in 32 bits".into())
    );
    assert!(pointer_window(&LinuxWindow::Wayland).unwrap_err().contains("not supported on Wayland"));
    assert_eq!(
        pointer_window(&LinuxWindow::Other("Drm".into())),
        Err("unsupported Linux window handle for file drop: Drm".into())
    );
}

#[test]
fn a_backend_that_failed_says_why() {
    assert_eq!(backend_selected(Ok(())), BackendConfiguration::Configured);
    assert!(supported(&BackendConfiguration::Configured, true));
    assert!(!supported(&BackendConfiguration::Configured, false));
    let failed = backend_selected(Err("no display".into()));
    assert!(!supported(&failed, true));
    assert_eq!(
        unavailable_reason(&failed),
        "failed to select the Slint Winit backend for native file drop: no display"
    );
    assert_eq!(
        unavailable_reason(&BackendConfiguration::Configured),
        "native file drop requires a Slint Winit window"
    );
    assert_eq!(unavailable_reason(&BackendConfiguration::Skipped("qt".into())), "qt");
}

#[test]
fn a_language_that_cannot_be_had_changes_nothing() {
    let mut state = AppViewState::default();
    let mut settings = PresentationSettings::default();
    let before = settings.locale.clone();
    assert_eq!(
        language_chosen(&mut state, &mut settings, Err("no such locale".into())),
        Err("Unable to change language: no such locale".into())
    );
    assert_eq!(settings.locale, before);
    assert_eq!(language_chosen(&mut state, &mut settings, Ok("de-DE".into())), Ok(()));
    assert_eq!(settings.locale, "de-DE");
    assert_eq!(state.preferences.locale, "de-DE");
    assert_eq!(
        failure_message(Failure::SidebarUnsaved, "full"),
        "Unable to save sidebar preference: full"
    );
    assert_eq!(
        failure_message(Failure::TranslationsUnread, "bad"),
        "Unable to load translations: bad"
    );
}

fn transfer(name: &str, state: ClipboardTransferState) -> ClipboardTransferStatus {
    ClipboardTransferStatus {
        transfer_id: 1,
        file_id: 2,
        name: name.into(),
        direction: ClipboardTransferDirection::Sending,
        transferred_bytes: 3,
        total_bytes: 4,
        bytes_per_second: 5,
        state,
    }
}

#[test]
fn a_transfer_has_one_row() {
    let mut rows = TransferRows { rows: vec![] };
    rows.update_clipboard_transfer(&transfer("a", ClipboardTransferState::Pending));
    rows.update_clipboard_transfer(&transfer("b", ClipboardTransferState::Completed));
    assert_eq!(rows.rows.len(), 1);
    let row = &rows.rows[0].1;
    assert_eq!(row.title, "b");
    assert_eq!(row.cancel_label, "Cancel clipboard transfer: a");
    assert!(!row.cancel_visible);
    rows.update_clipboard_transfer(&ClipboardTransferStatus {
        file_id: 3,
        ..transfer("c", ClipboardTransferState::Pending)
    });
    assert_eq!(rows.rows.len(), 2);
}

#[test]
fn a_console_takes_the_lines_of_a_datagram() {
    let mut console = Console::new();
    console.receive("one\r\ntwo\n");
    console.note_failure(true, "in use");
    console.note_failure(false, "gone");
    let filter = ConsoleFilter { level: 0, stage: 0, direction: 0, query: String::new() };
    assert_eq!(
        console.render_clipboard_console(&filter),
        "one\ntwo\n[ERROR][console] cannot open live diagnostic stream: in use\n\
         [ERROR][console] live stream failed: gone"
    );
    assert_eq!((pause_label(true), pause_label(false)), ("Resume", "Pause"));
}

#[test]
fn rows_follow_configuration_and_state() {
    let mut rows = vec![];
    new_client(&mut rows, 4, ClientConfig::default(), ClientState::default());
    assert!(!update_client_config(&mut rows, 5, ClientConfig::default()));
    assert!(!update_client_state(&mut rows, 5, ClientState::default()));
    let config = ClientConfig { hostname: Some("box".into()), port: 9, ..ClientConfig::default() };
    assert!(update_client_config(&mut rows, 4, config));
    let state = ClientState { active: true, ips: vec![IpAddr::V4(1)], ..ClientState::default() };
    assert!(update_client_state(&mut rows, 4, state));
    assert_eq!(rows[0].hostname.as_deref(), Some("box"));
    assert_eq!(rows[0].port, 9);
    assert!(rows[0].active && rows[0].resolved);
}

#[test]
fn keys_are_let_in_and_removed() {
    let keys = vec![KeyRow { description: "laptop".into(), fingerprint: "aa:bb".into() }];
    assert_eq!(
        key_removed(&keys, 0),
        Some(FrontendRequest::RemoveAuthorizedKey("aa:bb".into()))
    );
    assert_eq!(key_removed(&keys, 1), None);
    assert_eq!(
        key_added("phone".into(), "cc".into()),
        FrontendRequest::AuthorizeKey("phone".into(), "cc".into())
    );
    assert_eq!(permission_warning(true).button, "Relaunch");
    assert_eq!(permission_warning(false).title, "input capture is disabled");
}

#[test]
fn large_pictures_are_scaled_before_they_are_sent() {
    let avatar = sent_avatar(256, 129, [9, 8, 7, 255].repeat(256 * 129)).unwrap();
    assert_eq!((avatar.width, avatar.height), (128, 128));
    assert_eq!(avatar.rgba.len(), 4 * 128 * 128);
    assert_eq!(&avatar.rgba[..4], &[9, 8, 7, 255]);
    let avatar = sent_avatar(128, 1, vec![5; 512]).unwrap();
    assert_eq!((avatar.width, avatar.height), (128, 1));
    assert_eq!(avatar.rgba, vec![5; 512]);
    assert!(sent_avatar(2, 2, vec![0; 15]).is_none());
    assert!(sent_avatar(200, 2, vec![0; 15]).is_none());
}

#[test]
fn a_profile_needs_a_name_and_a_picture_that_can_be_read() {
    let mut settings = PresentationSettings::default();
    let unread = || ChosenPicture::Unloaded("no such file".into());
    assert_eq!(
        draft_profile(&settings, Err("no host".into()), unread()).unwrap_err(),
        "no host"
    );
    let profile = draft_profile(&settings, Ok("desk".into()), unread()).unwrap();
    assert_eq!((profile.display_name.as_str(), profile.avatar), ("desk", None));
    settings.local_device.friendly_name = "Office".into();
    settings.local_device.image_path = "/a.png".into();
    assert_eq!(
        draft_profile(&settings, Err("no host".into()), unread()).unwrap_err(),
        "Cannot load saved device avatar: no such file"
    );
    let cut = Picture { width: 1, height: 1, rgba: vec![1, 2, 3] };
    assert_eq!(
        draft_profile(&settings, Ok("desk".into()), ChosenPicture::Read(cut)).unwrap_err(),
        "Invalid device avatar pixels"
    );
    let whole = Picture { width: 1, height: 1, rgba: vec![1, 2, 3, 4] };
    let profile = draft_profile(&settings, Ok("desk".into()), ChosenPicture::Read(whole)).unwrap();
    assert_eq!(profile.display_name, "Office");
    assert_eq!(profile.avatar.as_ref().unwrap().rgba, vec![1, 2, 3, 4]);
    assert_eq!(
        draft_profile(&settings, Ok("desk".into()), ChosenPicture::Unreadable).unwrap_err(),
        "Cannot read device avatar pixels"
    );
    assert_eq!(
        local_device_profile(Ok(profile.clone()), Err("name is too long".into())).unwrap_err(),
        "name is too long"
    );
    assert_eq!(local_device_profile(Ok(profile.clone()), Ok(())).unwrap(), profile);
    assert_eq!(local_device_profile(Err("no host".into()), Ok(())).unwrap_err(), "no host");
}

#[test]
fn only_pictures_of_the_directory_are_removed() {
    let found = |path: &str| Lookup::Found(path.into());
    let remove = |picture: &str, path: Lookup| {
        remove_owned(picture, Some(found("/home/a/images")), path, '/')
    };
    assert_eq!(remove("x", found("/home/a/images/b.png")), Ok(Some("/home/a/images/b.png".into())));
    assert_eq!(remove("x", found("/home/a/images-old/b.png")), Ok(None));
    assert_eq!(remove("x", found("/etc/passwd")), Ok(None));
    assert_eq!(remove("x", Lookup::Missing), Ok(None));
    assert_eq!(remove("x", Lookup::Failed("denied".into())), Err("denied".into()));
    assert_eq!(remove("", found("/home/a/images/b.png")), Ok(None));
    assert_eq!(
        remove_owned("x", None, found("/b"), '/'),
        Err("config directory unavailable".into())
    );
    assert_eq!(remove_owned("x", Some(Lookup::Missing), found("/b"), '/'), Ok(None));
    assert_eq!(remove_owned("x", Some(found("/")), found("/b"), '/'), Ok(Some("/b".into())));
}

#[test]
fn a_status_must_be_text() {
    assert_eq!(
        query_status(b"LoadState=not-found\n".to_vec()).unwrap(),
        ServiceStatus { installed: false, running: false, autostart: false }
    );
    assert_eq!(
        query_status(vec![0xff]).unwrap_err(),
        ServiceError::InvalidResponse(
            "status was not UTF-8: invalid utf-8 sequence of 1 bytes from index 0".into()
        )
    );
    assert_eq!(
        read_status(Err("broken".into())).unwrap_err(),
        ServiceError::InvalidResponse("status was not UTF-8: broken".into())
    );
}

#[test]
fn an_empty_search_shows_every_record() {
    let mut store = DiagnosticStore::default();
    for i in 0..2001 {
        store.push(record(&i.to_string()));
    }
    store.filter.query = " \u{2003}\t ".into();
    let shown = store.filtered(usize::MAX);
    assert_eq!(shown.len(), 2000);
    assert_eq!((shown[0].message.as_str(), shown[1999].message.as_str()), ("1", "2000"));
}

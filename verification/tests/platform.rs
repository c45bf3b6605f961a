//! The system under the dashboard, on concrete answers.
use syntra::platform::daemon::{
    await_start, await_stop, begin_start, executable, service_action, Candidate,
    DaemonControlError, Ownership, ServiceAction, Start, Stopping, Waiting,
};
use syntra::platform::desktop_entry::{entry_contents, entry_file_name};
use syntra::platform::install::{
    configured_directory, default_directory, executable_permissions, install_directory,
    plan_copies, status, InstallError, Present,
};
use syntra::platform::release::{
    archive_stem, compare_checksum, is_tape_archive, recent_url, select_archive, select_checksum,
    verify_archive, Asset, Release, ReleaseError,
};
use syntra::platform::service::{
    ensure_success, escape_exec_start_path, executable_to_probe, is_ephemeral_appimage_mount,
    manager_unavailable, parse_status, resolve_install_executable, unit_contents, unit_path,
    validate_binary, Output, ServiceError,
};
use syntra::platform::{
    close_requested, copy_wide, filter_flatpak_applications, grant_flatpak_access, Close,
    CloseBehavior, Effect, FlatpakApplication, MacPlatform, PlatformAction, PlatformActions,
    PlatformError, WindowsPlatform,
};
use syntra::plugin_api::manifest::Probe;
use syntra::ui::settings::Host;

const APPLICATION_ID: &str = "org.example.Syntra";

#[test]
fn entry_declares_the_application_id_as_its_window_class() {
    let contents = entry_contents("/usr/bin/syntra", APPLICATION_ID);

    assert!(contents.contains(&format!("StartupWMClass={APPLICATION_ID}")));
    assert!(contents.contains(&format!("Icon={APPLICATION_ID}")));
    assert_eq!(entry_file_name(APPLICATION_ID), "org.example.Syntra.desktop");
}

#[test]
fn entry_points_at_the_running_executable() {
    let contents = entry_contents("/opt/syntra/syntra", APPLICATION_ID);

    assert!(contents.contains("Exec=/opt/syntra/syntra %U"));
}

#[test]
fn environment_override_selects_the_install_directory() {
    let resolved = install_directory(
        None,
        Some("/opt/syntra/bin".into()),
        default_directory(Host::Linux, None, Some("/home/a".into())),
    );
    assert_eq!(resolved.unwrap(), "/opt/syntra/bin");
}

/// Both binaries must land in the same directory, or the dashboard cannot find
/// the daemon beside itself at runtime.
#[test]
fn both_binaries_share_one_directory() {
    let directory = default_directory(Host::Linux, None, Some("/home/a".into())).unwrap();
    let paths = status(Host::Linux, &directory);

    let parent = |path: &str| path.rsplit_once('/').unwrap().0.to_string();
    assert_eq!(parent(&paths.application), parent(&paths.daemon));
    assert_eq!(paths.daemon, "/home/a/.local/bin/syntra-daemon");
}

#[test]
fn parses_independent_service_dimensions() {
    let status =
        parse_status("LoadState=loaded\nActiveState=inactive\nUnitFileState=enabled\n").unwrap();
    assert!(status.installed);
    assert!(!status.running);
    assert!(status.autostart);
}

#[test]
fn missing_unit_is_not_a_manager_failure() {
    let status =
        parse_status("LoadState=not-found\nActiveState=inactive\nUnitFileState=\n").unwrap();
    assert!(!status.installed);
    assert!(!status.running);
    assert!(!status.autostart);
}

#[test]
fn escapes_systemd_exec_start_metacharacters() {
    let escaped = escape_exec_start_path("/opt/Lan Mouse/100%/say\"hi\\now").unwrap();
    assert_eq!(escaped, "\"/opt/Lan Mouse/100%%/say\\\"hi\\\\now\"");
}

#[test]
fn appimage_service_uses_stable_original_executable() {
    let original = "/home/a/Syntra.AppImage";
    let resolved = resolve_install_executable(
        "/tmp/.mount_Syntra123/usr/bin/syntra",
        Some(original),
        &Probe::Found { is_file: true, mode: Some(0o755) },
        Ok("/data/a/Syntra.AppImage".into()),
    )
    .unwrap();

    assert_eq!(resolved, "/data/a/Syntra.AppImage");
}

#[test]
fn appimage_service_rejects_unresolved_temporary_executable() {
    let mounted = "/tmp/.mount_Syntra123/usr/bin/syntra";

    let missing = executable_to_probe(mounted, None).unwrap_err();
    assert!(missing.to_text().contains("APPIMAGE"));

    let still_mounted = resolve_install_executable(
        mounted,
        Some(mounted),
        &Probe::Found { is_file: true, mode: Some(0o755) },
        Ok(mounted.into()),
    )
    .unwrap_err();
    assert!(still_mounted.to_text().contains("temporary .mount_ directory"));
}

#[test]
fn mounts_are_recognised_by_their_components() {
    assert!(is_ephemeral_appimage_mount("/tmp//./.mount_x/bin"));
    assert!(is_ephemeral_appimage_mount("/tmp/.mount_"));
    assert!(!is_ephemeral_appimage_mount("tmp/.mount_x"));
    assert!(!is_ephemeral_appimage_mount("/tmp/x/.mount_x"));
    assert!(!is_ephemeral_appimage_mount("/tmp"));
}

#[test]
fn programs_are_checked_before_they_become_services() {
    let file = Probe::Found { is_file: true, mode: Some(0o755) };
    assert!(validate_binary("/usr/bin/syntra", &file).is_ok());
    assert_eq!(
        validate_binary("/x/live_preview", &file).unwrap_err(),
        "preview/example binaries cannot own the production service"
    );
    assert_eq!(validate_binary("bin/syntra", &file).unwrap_err(), "path must be absolute");
    assert_eq!(
        validate_binary("/a", &Probe::Unavailable("gone".into())).unwrap_err(),
        "/a: gone"
    );
    assert_eq!(
        validate_binary("/a", &Probe::Found { is_file: false, mode: None }).unwrap_err(),
        "/a is not a regular file"
    );
    assert_eq!(
        validate_binary("/a", &Probe::Found { is_file: true, mode: Some(0o644) }).unwrap_err(),
        "/a is not executable"
    );
}

#[test]
fn systemd_answers_are_read_strictly() {
    assert_eq!(
        parse_status("ActiveState=active\n").unwrap_err().to_text(),
        "systemd returned an invalid service status: missing LoadState"
    );
    assert_eq!(
        parse_status("LoadState=error\nActiveState=a\nUnitFileState=b").unwrap_err().to_text(),
        "systemd returned an invalid service status: LoadState=error"
    );
    let twice = parse_status(
        "LoadState=x\nLoadState=loaded\nActiveState=reloading\nUnitFileState=enabled-runtime\n",
    )
    .unwrap();
    assert!(twice.running && twice.autostart);
    assert!(manager_unavailable("Failed to connect to bus: No medium found"));
    assert!(manager_unavailable("The User Manager is NOT running"));
    assert!(!manager_unavailable("user manager"));
    let failed = Output {
        success: false,
        status: Some(-1),
        stdout: " out ".into(),
        stderr: "  ".into(),
    };
    assert_eq!(
        ensure_success("start", &failed).unwrap_err().to_text(),
        "systemctl --user start failed (status -1): out"
    );
    assert!(matches!(
        escape_exec_start_path("/a\nb"),
        Err(ServiceError::InvalidBinary(_))
    ));
    assert!(unit_contents("/usr/bin/syntra-daemon")
        .unwrap()
        .contains("\nExecStart=\"/usr/bin/syntra-daemon\" daemon\n"));
    assert_eq!(
        unit_path(Some(String::new()), Some("/home/a".into())).unwrap(),
        "/home/a/.config/systemd/user/lan-mouse.service"
    );
    assert!(unit_path(None, None).is_err());
}

#[test]
fn installations_copy_what_is_there() {
    let all = Present {
        application: true,
        daemon: true,
        clipboard_plugin: true,
        clipboard_manifest: true,
        fuse_plugin: true,
        fuse_manifest: false,
    };
    let (steps, stop) = plan_copies(Host::Linux, all);
    assert_eq!(stop, None);
    let names = steps.iter().map(|step| step.name.as_str()).collect::<Vec<_>>();
    assert_eq!(
        names,
        vec![
            "syntra",
            "syntra-daemon",
            "syntra-plugin-clipboard",
            "syntra-plugin-clipboard.json",
            "syntra-plugin-fuse",
        ]
    );
    assert!(!steps[3].executable && steps[4].executable);
    let (steps, stop) = plan_copies(Host::Windows, Present { daemon: false, ..all });
    assert_eq!(steps.len(), 1);
    assert_eq!(
        stop.unwrap().to_text(),
        "syntra-daemon.exe was not found next to the running application; install both binaries together"
    );
    assert_eq!(executable_permissions(0o600), 0o755);
    assert_eq!(configured_directory(Some(" /x \n")), Some("/x".into()));
    assert_eq!(configured_directory(Some("\n")), None);
    assert_eq!(
        default_directory(Host::Linux, None, None).unwrap_err(),
        InstallError::DirectoryNotFound
    );
}

#[test]
fn daemons_are_started_once_and_owned() {
    let installed = Candidate { path: "/a".into(), is_file: false };
    let sibling = Candidate { path: "/b".into(), is_file: true };
    let found = executable(Some(installed), Some(sibling));
    assert_eq!(found.as_deref(), Some("/b"));
    assert_eq!(begin_start(true, None), Start::Running);
    assert_eq!(begin_start(false, found), Start::Spawn("/b".into()));
    assert_eq!(begin_start(false, None), Start::Fail(DaemonControlError::NotFound));
    assert_eq!(await_start(4999, false), Waiting::Again(100));
    assert_eq!(await_start(10, true), Waiting::Ready);
    assert_eq!(await_start(5000, true), Waiting::Fail(DaemonControlError::NeverReady));
    assert_eq!(await_stop(true, 9_999), Stopping::Again(50));
    assert_eq!(await_stop(false, 20_000), Stopping::Gone);
    assert!(matches!(await_stop(true, 10_000), Stopping::Fail(_)));
    let mut owned = Ownership::new();
    assert_eq!(owned.stop_owned(), None);
    owned.adopt(9);
    assert!(owned.owns_running_daemon());
    assert_eq!(owned.stop_owned(), Some(9));
    assert_eq!(owned.stop_owned(), None);
    assert_eq!(service_action("enable", true).unwrap(), ServiceAction::Enable);
    assert!(service_action("install-desktop-entry", false).is_err());
    assert_eq!(
        service_action("fly", true).unwrap_err().to_text(),
        "unknown service action"
    );
}

fn published(names: &[&str]) -> Release {
    Release {
        tag_name: "v1.2.0".into(),
        name: "1.2.0".into(),
        html_url: "https://example.invalid".into(),
        assets: names
            .iter()
            .map(|name| Asset {
                name: (*name).into(),
                browser_download_url: "https://example.invalid/a".into(),
                size: 3,
            })
            .collect(),
    }
}

#[test]
fn archives_are_chosen_by_name() {
    assert_eq!(archive_stem("v1.2.0", "linux", "x86_64"), "syntra-1.2.0-linux-x86_64");
    let release = published(&[
        "syntra-1.2.0-macos-aarch64.zip",
        "syntra-1.2.0-linux-x86_64.tar.gz",
        "syntra-1.2.0-linux-x86_64.tar.gz.sha256",
    ]);
    assert_eq!(select_archive(&release, "linux", "x86_64").unwrap(), 1);
    assert_eq!(select_archive(&release, "macos", "aarch64").unwrap(), 0);
    assert_eq!(
        select_archive(&release, "windows", "x86_64").unwrap_err().to_text(),
        "no release asset matches syntra-1.2.0-windows-x86_64"
    );
    assert_eq!(select_checksum(&release, "syntra-1.2.0-linux-x86_64.tar.gz"), Some(2));
    assert_eq!(select_checksum(&release, "syntra-1.2.0-macos-aarch64.zip"), None);
    assert!(is_tape_archive("a.tar.gz") && !is_tape_archive("a.zip"));
    assert!(recent_url(0).ends_with("?per_page=1"));
    assert!(recent_url(1000).ends_with("?per_page=100"));
}

/// The digest of the letters `abc`, as the standard gives it.
#[test]
fn checksums_are_compared_in_any_case() {
    let digest = "BA7816BF8F01CFEA414140DE5DAE2223B00361A396177A9CB410FF61F20015AD  a.zip\n";
    verify_archive("a.zip", b"abc", digest).unwrap();
    assert!(matches!(
        verify_archive("a.zip", b"abd", digest),
        Err(ReleaseError::ChecksumMismatch { .. })
    ));
    assert_eq!(
        verify_archive("a.zip", b"abc", " \n").unwrap_err().to_text(),
        "checksum file is malformed: empty checksum"
    );
    compare_checksum("a", "00ff", &[0, 255]).unwrap();
}

#[test]
fn closing_hides_only_where_there_is_a_way_back() {
    assert_eq!(close_requested(Some(CloseBehavior::Hide), true), Close::HideAndNotify);
    assert_eq!(close_requested(Some(CloseBehavior::Hide), false), Close::Quit);
    assert_eq!(close_requested(Some(CloseBehavior::Exit), true), Close::Quit);
    assert_eq!(close_requested(None, true), Close::Quit);
}

#[test]
fn systems_differ_in_what_they_do() {
    let grant = PlatformAction::GrantFlatpakFilesystemAccess { application_id: "a".into() };
    let (windows, mac) = (WindowsPlatform::new(), MacPlatform::new());
    assert!(windows.capabilities().tray && mac.capabilities().tray);
    assert_eq!(windows.capabilities().close_behavior, CloseBehavior::Hide);
    assert_eq!(
        mac.installed_flatpak_applications().unwrap_err(),
        PlatformError::UnsupportedAction("Flatpak application discovery is Linux-only".into())
    );
    assert!(windows.perform(&grant).is_err());
    let error = mac.perform(&grant).unwrap_err();
    assert_eq!(
        error.to_text(),
        "UnsupportedAction(\"Flatpak permissions are Linux-only\")"
    );
    let relaunch = PlatformAction::RelaunchAfterPermissionGrant;
    assert_eq!(windows.perform(&relaunch).unwrap(), Effect::Nothing);
    assert_eq!(mac.perform(&relaunch).unwrap(), Effect::Relaunch);
    assert!(matches!(error, PlatformError::UnsupportedAction(_)));
}

#[test]
fn applications_are_found_by_name_or_identifier() {
    let all = vec![
        FlatpakApplication { application_id: "org.a.One".into(), name: "Eins".into() },
        FlatpakApplication { application_id: "org.a.Two".into(), name: "\u{dc}ber".into() },
    ];
    assert_eq!(filter_flatpak_applications(&all, " ORG.A ").len(), 2);
    assert_eq!(filter_flatpak_applications(&all, "\u{fc}BER").len(), 1);
    assert_eq!(filter_flatpak_applications(&all, "none").len(), 0);
    assert!(grant_flatpak_access(false, "a".into()).is_err());
    assert_eq!(
        grant_flatpak_access(true, String::new()).unwrap_err(),
        "Select a Flatpak application first"
    );
}

/// A field of wide characters keeps its last unit, and a character beyond the
/// first plane takes two.
#[test]
fn wide_fields_stay_terminated() {
    let mut field = vec![0u16; 4];
    copy_wide(&mut field, "Syntra");
    assert_eq!(field, vec![83, 121, 110, 0]);
    let mut field = vec![9u16; 4];
    copy_wide(&mut field, "\u{1f600}");
    let expected = "\u{1f600}".encode_utf16().collect::<Vec<_>>();
    assert_eq!(&field[..2], &expected[..]);
    assert_eq!(&field[2..], &[9, 9]);
    let mut nothing: Vec<u16> = vec![];
    copy_wide(&mut nothing, "x");
    assert!(nothing.is_empty());
}

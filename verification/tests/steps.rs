//! Work that alternates with the outside, step by step.
use std::cell::Cell;
use syntra::paths::same_path;
use syntra::platform::install::{
    check_removal, running_from_install_directory, status, InstallError,
};
use syntra::platform::service::ServiceError;
use syntra::platform::service_steps::{
    install_step, install_target, uninstall_step, InstallStep, Installed, Removal,
    UninstallStep, Uninstalled,
};
use syntra::platform::PlatformCallbacks;
use syntra::plugin_api::frames::{write_step, WriteDone, WriteStep};
use syntra::plugin_api::manifest::Probe;
use syntra::plugin_api::ApiError;
use syntra::ui::diagnostic_socket::{
    removes_at_end, socket_step, FileIdentity, SocketDone, SocketStep,
};
use syntra::ui::settings::{join_path, presentation_settings_path, Host};

fn unit() -> Result<String, ServiceError> {
    Ok("/home/a/.config/systemd/user/lan-mouse.service".into())
}

#[test]
fn a_service_is_removed_in_order() {
    assert_eq!(uninstall_step(Uninstalled::Nothing, unit()), UninstallStep::Disable);
    assert_eq!(
        uninstall_step(Uninstalled::Disabled(Ok(())), unit()),
        UninstallStep::RemoveUnit("/home/a/.config/systemd/user/lan-mouse.service".into())
    );
    let reload = |removal| uninstall_step(Uninstalled::UnitRemoved(removal), unit());
    assert_eq!(reload(Removal::Removed), UninstallStep::Reload);
    assert_eq!(reload(Removal::Missing), UninstallStep::Reload);
    assert_eq!(
        uninstall_step(Uninstalled::Reloaded(Ok(())), unit()),
        UninstallStep::Finish(Ok(()))
    );
}

#[test]
fn a_removal_stops_at_its_first_error() {
    let failed = || ServiceError::ManagerUnavailable("no bus".into());
    assert_eq!(
        uninstall_step(Uninstalled::Disabled(Err(failed())), unit()),
        UninstallStep::Finish(Err(failed()))
    );
    let nowhere = || ServiceError::Environment("no home".into());
    assert_eq!(
        uninstall_step(Uninstalled::Disabled(Ok(())), Err(nowhere())),
        UninstallStep::Finish(Err(nowhere()))
    );
    assert_eq!(
        uninstall_step(Uninstalled::UnitRemoved(Removal::Failed("denied".into())), unit()),
        UninstallStep::Finish(Err(ServiceError::Io("denied".into())))
    );
    assert_eq!(
        uninstall_step(Uninstalled::Reloaded(Err(failed())), unit()),
        UninstallStep::Finish(Err(failed()))
    );
}

#[test]
fn a_service_is_installed_in_order() {
    let probe = Probe::Found { is_file: true, mode: Some(0o755) };
    let target = |program: &str, home: Option<String>| {
        install_target(program, None, &probe, Err("unused".into()), None, home)
    };
    let found = target("/opt/syntra-daemon", Some("/home/a".into())).unwrap();
    assert_eq!(found.program, "/opt/syntra-daemon");
    assert_eq!(found.unit, "/home/a/.config/systemd/user/lan-mouse.service");
    assert!(matches!(target("relative", None), Err(ServiceError::InvalidBinary(_))));
    assert!(matches!(target("/opt/syntra-daemon", None), Err(ServiceError::Environment(_))));
    let program = found.program.as_str();
    assert_eq!(install_step(Installed::Nothing, program), InstallStep::MakeDirectory);
    match install_step(Installed::DirectoryMade(Ok(())), program) {
        InstallStep::WriteUnit(text) => {
            assert!(text.contains("ExecStart=\"/opt/syntra-daemon\" daemon\n"));
        }
        step => panic!("{step:?}"),
    }
    assert!(matches!(
        install_step(Installed::DirectoryMade(Ok(())), "/opt/\u{7}"),
        InstallStep::Finish(Err(ServiceError::InvalidBinary(_)))
    ));
    assert_eq!(
        install_step(Installed::UnitWritten(Err("full".into())), program),
        InstallStep::Finish(Err(ServiceError::Io("full".into())))
    );
    assert_eq!(install_step(Installed::UnitWritten(Ok(())), program), InstallStep::Reload);
    assert_eq!(
        install_step(Installed::Reloaded(Ok(())), program),
        InstallStep::Finish(Ok(()))
    );
}

#[test]
fn a_live_listener_keeps_its_socket() {
    let first = FileIdentity { device: 1, inode: 2 };
    assert_eq!(socket_step(SocketDone::Nothing), SocketStep::Bind);
    assert_eq!(socket_step(SocketDone::Bound), SocketStep::Keep);
    assert_eq!(socket_step(SocketDone::NotBound { in_use: false }), SocketStep::Fail);
    assert_eq!(socket_step(SocketDone::NotBound { in_use: true }), SocketStep::Look);
    for (is_socket, own) in [(false, true), (true, false)] {
        assert_eq!(
            socket_step(SocketDone::Looked { is_socket, own }),
            SocketStep::Refuse("diagnostic socket path is not a stale socket owned by this user")
        );
    }
    let looked = SocketDone::Looked { is_socket: true, own: true };
    assert_eq!(socket_step(looked), SocketStep::Probe);
    assert_eq!(
        socket_step(SocketDone::Probed { refused: false }),
        SocketStep::Refuse("another live diagnostic listener owns the socket")
    );
    assert_eq!(socket_step(SocketDone::Probed { refused: true }), SocketStep::LookAgain);
    let other = FileIdentity { device: 1, inode: 3 };
    assert_eq!(
        socket_step(SocketDone::LookedAgain { first, now: other }),
        SocketStep::Refuse("diagnostic socket changed while checking ownership")
    );
    assert_eq!(
        socket_step(SocketDone::LookedAgain { first, now: first }),
        SocketStep::Remove
    );
    assert_eq!(socket_step(SocketDone::Removed), SocketStep::Bind);
    assert!(removes_at_end(true, first, first));
    assert!(!removes_at_end(true, other, first) && !removes_at_end(false, first, first));
}

#[test]
fn a_message_is_written_then_flushed() {
    assert_eq!(
        write_step(WriteDone::Encoded(Ok("{}\n".into()))),
        WriteStep::Write("{}\n".into())
    );
    assert_eq!(
        write_step(WriteDone::Encoded(Err(ApiError::FrameTooLong))),
        WriteStep::Finish(Err(ApiError::FrameTooLong))
    );
    assert_eq!(write_step(WriteDone::Written(Ok(()))), WriteStep::Flush);
    assert_eq!(
        write_step(WriteDone::Written(Err("closed".into()))),
        WriteStep::Finish(Err(ApiError::Io("closed".into())))
    );
    assert_eq!(
        write_step(WriteDone::Flushed(Err("closed".into()))),
        WriteStep::Finish(Err(ApiError::Io("closed".into())))
    );
    assert_eq!(write_step(WriteDone::Flushed(Ok(()))), WriteStep::Finish(Ok(())));
}

#[test]
fn a_tray_calls_back() {
    let (shown, quit) = (Cell::new(0), Cell::new(0));
    let callbacks = PlatformCallbacks::new(
        || shown.set(shown.get() + 1),
        || quit.set(quit.get() + 1),
    );
    callbacks.show();
    callbacks.show();
    callbacks.quit();
    assert_eq!((shown.get(), quit.get()), (2, 1));
}

#[test]
fn a_path_is_the_same_however_it_is_written() {
    let linux = |a: &str, b: &str| same_path(Host::Linux, a, b);
    assert!(linux("/opt/syntra/bin", "/opt/syntra/bin/"));
    assert!(linux("/opt//syntra/./bin", "/opt/syntra/bin/."));
    assert!(!linux("/opt/syntra/bin", "opt/syntra/bin"));
    assert!(!linux("./bin", "bin"));
    assert!(linux("./bin", ".//bin/"));
    assert!(!linux("/opt/Bin", "/opt/bin"));
    assert!(!linux("/opt/../bin", "/bin"));
    assert!(!linux("a\\b", "a/b"));
    let windows = |a: &str, b: &str| same_path(Host::Windows, a, b);
    assert!(windows("C:\\syntra", "c:/syntra/"));
    assert!(!windows("C:\\syntra", "D:\\syntra"));
    assert!(!windows("C:\\syntra", "C:syntra"));
    assert!(!windows("C:\\Syntra", "C:\\syntra"));
    assert!(windows("\\\\server\\share\\a", "//server/share/a/"));
    assert!(!windows("\\\\server\\share", "\\server\\share"));
    assert!(windows("\\\\server", "\\server"));
}

#[test]
fn the_running_installation_is_not_removed() {
    let there = |running: &str| {
        running_from_install_directory(Host::Linux, Some(running), Some("/opt/syntra/bin/"))
    };
    assert!(there("/opt/syntra/bin"));
    assert!(!there("/opt/syntra"));
    assert!(!running_from_install_directory(Host::Linux, None, Some("/opt")));
    assert_eq!(
        check_removal("/opt/syntra/bin/", there("/opt/syntra/bin")),
        Err(InstallError::Copy {
            path: "/opt/syntra/bin/".into(),
            source: "refusing to remove the running installation".into(),
        })
    );
}

#[test]
fn a_bare_drive_gets_no_separator() {
    assert_eq!(status(Host::Windows, "C:").application, "C:syntra.exe");
    assert_eq!(status(Host::Windows, "C:\\").application, "C:\\syntra.exe");
    assert_eq!(status(Host::Windows, "C:\\bin").application, "C:\\bin\\syntra.exe");
    assert_eq!(join_path("C:".into(), "a", '/'), "C:/a");
    assert_eq!(
        presentation_settings_path(Host::Windows, Some("D:".into()), None).unwrap(),
        "D:LanMouse\\presentation.json"
    );
}

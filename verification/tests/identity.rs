//! Names and pictures of devices.
use syntra::ui::device_identity::{
    client_identity_key, edit_outcome, remove_owned, IdentityError, IdentityStore, Lookup,
};
use syntra::ui::settings::PresentationSettings;

fn with_picture(path: &str) -> PresentationSettings {
    let mut settings = PresentationSettings::default();
    settings.local_device.image_path = path.into();
    settings
}

#[test]
fn replacing_an_image_commits_new_path_before_removing_previous_file() {
    let mut store = IdentityStore::new(with_picture("/images/old.png"));

    let edit = store.set_local_image("/images/identity-1.png".into());
    let saved = edit.next.copy();
    let removed = store.finish(edit, true);

    assert_eq!(store.settings(), &saved);
    assert_eq!(saved.local_device.image_path, "/images/identity-1.png");
    assert_eq!(removed, "/images/old.png");
}

#[test]
fn clearing_an_image_commits_empty_path_and_removes_previous_file() {
    let mut store = IdentityStore::new(with_picture("/images/old.png"));

    let edit = store.clear_local_image();
    let saved = edit.next.copy();
    let removed = store.finish(edit, true);

    assert!(saved.local_device.image_path.is_empty());
    assert_eq!(store.settings(), &saved);
    assert_eq!(removed, "/images/old.png");
}

#[test]
fn failed_commit_preserves_previous_settings_and_image() {
    let settings = with_picture("/images/old.png");
    let mut store = IdentityStore::new(settings.copy());

    let edit = store.set_local_image("/images/identity-1.png".into());
    let removed = store.finish(edit, false);

    assert_eq!(store.settings(), &settings);
    assert_eq!(removed, "/images/identity-1.png");
}

#[test]
fn cleanup_failure_after_commit_does_not_report_persistence_failure() {
    let mut store = IdentityStore::new(with_picture("/images/old-image"));

    let edit = store.clear_local_image();
    let removed = store.finish(edit, true);
    let directory = Some(Lookup::Found("/images".into()));
    let found = Lookup::Failed("permission denied".into());
    let cleanup = remove_owned(&removed, directory, found, '/').map(|_| ());
    let (result, warning) = edit_outcome(Ok(()), cleanup);

    assert!(result.is_ok());
    assert_eq!(
        warning.as_deref(),
        Some(
            "identity settings were saved, but the previous image could not be removed: \
             permission denied"
        )
    );
    assert!(store.settings().local_device.image_path.is_empty());
}

#[test]
fn files_outside_the_directory_are_left_alone() {
    let directory = || Some(Lookup::Found("/images".into()));
    let outside = Lookup::Found("/home/a/photo.png".into());
    assert_eq!(remove_owned("/images/link.png", directory(), outside, '/'), Ok(None));
    let failed = Lookup::Failed("permission denied".into());
    assert_eq!(
        remove_owned("/images/old.png", directory(), failed, '/'),
        Err("permission denied".into())
    );
    let unsaved = edit_outcome(Err("disk full".into()), Err("permission denied".into()));
    assert_eq!(unsaved, (Err("disk full".into()), None));
}

#[test]
fn peers_need_a_stable_identity() {
    let mut store = IdentityStore::new(PresentationSettings::default());
    assert_eq!(
        store.set_peer_name("  ".into(), "x".into()).unwrap_err(),
        IdentityError::NoStableIdentity
    );
    assert_eq!(
        IdentityError::NoStableIdentity.to_text(),
        "peer has no stable identity"
    );
    let edit = store.set_peer_name("cert:a".into(), "Laptop".into()).unwrap();
    store.finish(edit, true);
    let edit = store.set_peer_image("cert:a".into(), "/p.png".into()).unwrap();
    store.finish(edit, true);
    assert_eq!(store.peer("cert:a").unwrap().friendly_name, "Laptop");
    assert_eq!(store.peer("cert:a").unwrap().image_path, "/p.png");
    let edit = store.clear_peer_image("cert:a").unwrap();
    assert_eq!(store.finish(edit, true), "/p.png");
    assert_eq!(store.peer("cert:a").unwrap().friendly_name, "Laptop");
    assert!(store.clear_peer_image("cert:b").unwrap().replaced.is_empty());
    assert!(store.peer("cert:b").is_none());
}

#[test]
fn migration_keeps_what_the_certificate_already_has() {
    let mut store = IdentityStore::new(PresentationSettings::default());
    for (key, name) in [("cfg:host:desk", "Old"), ("cert:a", "New")] {
        let edit = store.set_peer_name(key.into(), name.into()).unwrap();
        store.finish(edit, true);
    }
    let edit = store.migrate_key("cfg:host:desk", "cert:a").unwrap();
    store.finish(edit, true);
    assert_eq!(store.peer("cert:a").unwrap().friendly_name, "New");
    assert!(store.peer("cfg:host:desk").is_none());
    assert!(store.migrate_key("cfg:host:desk", "cert:a").is_none());
    let edit = store.migrate_key("cert:a", "cert:b").unwrap();
    store.finish(edit, true);
    assert_eq!(store.peer("cert:b").unwrap().friendly_name, "New");
    assert!(store.migrate_key("", "x").is_none());
}

#[test]
fn keys_ignore_case_and_order() {
    let none: Vec<String> = vec![];
    assert_eq!(client_identity_key(Some(" Desk "), &none), "cfg:host:desk");
    assert_eq!(client_identity_key(None, &none), "");
    let forth = vec!["10.0.0.2".to_string(), "10.0.0.10".to_string()];
    let back = vec!["10.0.0.10".to_string(), "10.0.0.2".to_string()];
    assert_eq!(client_identity_key(Some(" "), &forth), "cfg:ip:10.0.0.10,10.0.0.2");
    assert_eq!(client_identity_key(None, &forth), client_identity_key(None, &back));
}

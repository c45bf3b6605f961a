//! Settings files on concrete contents.
use serde_json::Value;
use syntra::ui::settings::{
    dashboard_settings_path, identity_images_path, presentation_settings_path, BaseMode, Density,
    DevicePresentationWire, Host, Palette, PresentationSettings, PresentationSettingsWire,
    UpdatePreferences, UpdatePreferencesWire,
};

fn text(value: &Value, key: &str) -> Option<String> {
    value.get(key).and_then(Value::as_str).map(str::to_owned)
}

fn flag(value: &Value, key: &str) -> Option<bool> {
    value.get(key).and_then(Value::as_bool)
}

fn device(value: &Value) -> DevicePresentationWire {
    DevicePresentationWire {
        friendly_name: text(value, "friendly_name"),
        image_path: text(value, "image_path"),
    }
}

fn read(json: &str) -> PresentationSettings {
    let value: Value = serde_json::from_str(json).unwrap();
    PresentationSettings::from_wire(PresentationSettingsWire {
        locale: text(&value, "locale"),
        mode: text(&value, "mode"),
        palette: text(&value, "palette"),
        accent: text(&value, "accent"),
        titlebar_color: text(&value, "titlebar_color"),
        density: text(&value, "density"),
        zoom_percent: value.get("zoom_percent").and_then(Value::as_u64).map(|n| n as u16),
        reduced_motion: flag(&value, "reduced_motion"),
        sidebar_open: flag(&value, "sidebar_open"),
        local_device: value.get("local_device").map(device),
        devices: value.get("devices").and_then(Value::as_object).map(|devices| {
            devices.iter().map(|(key, value)| (key.clone(), device(value))).collect()
        }),
        updates: value.get("updates").map(|updates| UpdatePreferencesWire {
            repository: text(updates, "repository"),
            artifact_template: text(updates, "artifact_template"),
            automatic_check: flag(updates, "automatic_check"),
        }),
        theme: text(&value, "theme"),
    })
}

fn restored(settings: &PresentationSettings) -> PresentationSettings {
    PresentationSettings::from_wire(settings.to_wire())
}

#[test]
fn missing_presentation_settings_use_backward_compatible_defaults() {
    let settings = read("{}");
    assert_eq!(settings, PresentationSettings::default());
}

#[test]
fn legacy_light_theme_migrates_to_white_mode() {
    let settings = read(r#"{"locale":"ro-RO","theme":"Light","density":"Compact"}"#);
    assert_eq!(settings.locale, "ro-RO");
    assert_eq!(settings.mode, BaseMode::White);
    assert_eq!(settings.palette, Palette::Army);
    assert_eq!(settings.density, Density::Compact);
}

#[test]
fn old_settings_retain_preferences_when_updates_are_missing() {
    let settings = read(
        r##"{
            "locale":"ro-RO",
            "mode":"white",
            "palette":"ocean",
            "accent":"#123abc",
            "titlebar_color":"#abcdef",
            "density":"compact",
            "zoom_percent":125,
            "reduced_motion":true,
            "sidebar_open":false,
            "local_device":{"friendly_name":"This device","image_path":"/local.png"},
            "devices":{"peer":{"friendly_name":"Peer","image_path":"/peer.png"}}
        }"##,
    );

    assert_eq!(settings.locale, "ro-RO");
    assert_eq!(settings.mode, BaseMode::White);
    assert_eq!(settings.palette, Palette::Ocean);
    assert_eq!(settings.accent, "#123abc");
    assert_eq!(settings.titlebar_color, "#abcdef");
    assert_eq!(settings.density, Density::Compact);
    assert_eq!(settings.zoom_percent, 125);
    assert!(settings.reduced_motion);
    assert!(!settings.sidebar_open);
    assert_eq!(settings.local_device.friendly_name, "This device");
    assert_eq!(settings.devices.get(&"peer".to_string()).unwrap().friendly_name, "Peer");
    assert_eq!(settings.updates, UpdatePreferences::default());
    assert!(settings.updates.repository.is_empty());
    assert!(!settings.updates.automatic_check);
}

#[test]
fn configured_updates_roundtrip() {
    let partially_configured = read(r#"{"updates":{"repository":"syntra-app/syntra"}}"#);
    assert_eq!(
        partially_configured.updates.artifact_template,
        "syntra-{version}-{os}-{arch}.tar.gz"
    );
    assert!(!partially_configured.updates.automatic_check);

    let settings = read(
        r#"{
            "updates":{
                "repository":"syntra-app/syntra",
                "artifact_template":"syntra-{version}-{os}-{arch}.zip",
                "automatic_check":true
            }
        }"#,
    );

    assert_eq!(settings.updates.repository, "syntra-app/syntra");
    assert_eq!(
        settings.updates.artifact_template,
        "syntra-{version}-{os}-{arch}.zip"
    );
    assert!(settings.updates.automatic_check);
    assert_eq!(restored(&settings), settings);
}

#[test]
fn zoom_is_bounded_without_discarding_other_preferences() {
    let settings = read(r#"{"locale":"ro-RO","zoom_percent":250}"#);
    assert_eq!(settings.zoom_percent, 200);
    assert_eq!(settings.locale, "ro-RO");
    assert_eq!(restored(&settings), settings);
}

/// A color that is none gives way to the default, and capitals become small.
#[test]
fn colors_are_normalized() {
    let settings = read(r##"{"accent":"#ABCDEF","titlebar_color":"blue"}"##);
    assert_eq!(settings.accent, "#abcdef");
    assert_eq!(settings.titlebar_color, "");
}

/// Where each system keeps the files.
#[test]
fn paths_follow_the_system() {
    assert_eq!(
        presentation_settings_path(Host::Linux, None, Some("/home/a".into())).unwrap(),
        "/home/a/.config/lan-mouse/presentation.json"
    );
    assert_eq!(
        identity_images_path(Host::Linux, Some("/cfg/".into()), None).unwrap(),
        "/cfg/lan-mouse/device-images"
    );
    assert_eq!(presentation_settings_path(Host::Windows, None, Some("x".into())), None);
    assert_eq!(
        dashboard_settings_path(Host::Linux, None, Some("/home/a".into())).unwrap(),
        "/home/a/.config/syntra/presentation.json"
    );
    assert_eq!(
        dashboard_settings_path(Host::Macos, None, Some("/Users/a".into())).unwrap(),
        "/Users/a/Library/Application Support/Syntra/presentation.json"
    );
}

//! Updates on concrete releases.
use syntra::ui::preferences::{
    change, checks_at_start, color_of, describe_update_status, navigate, repository_config,
    source_saved, update_check, Change, PageRefresh, UpdateCheck,
};
use syntra::ui::models::AppViewState;
use syntra::ui::settings::{BaseMode, Palette, PresentationSettings};
use syntra::ui::updates::{
    check_size, classify_release, judge_release, prepare_with, staged_name, ArtifactNaming,
    GitHubAsset, GitHubRelease, Precedence, Preparation, RepositoryConfig, Stage, UpdateError,
    UpdateStatus, Updater, Version,
};

fn naming() -> ArtifactNaming {
    ArtifactNaming {
        template: "syntra-{version}-{os}-{arch}.zip".into(),
        os: "linux".into(),
        arch: "x86_64".into(),
    }
}

fn version(text: &str) -> Version {
    Version::parse(text).unwrap()
}

fn release(tag: &str, names: &[&str]) -> GitHubRelease {
    GitHubRelease {
        tag_name: tag.into(),
        html_url: "https://github.com/acme/syntra/releases/tag/v2.0.0".into(),
        draft: false,
        prerelease: false,
        assets: names
            .iter()
            .map(|name| GitHubAsset {
                name: (*name).into(),
                browser_download_url: format!("https://example.invalid/{name}"),
                size: Some(10),
            })
            .collect(),
    }
}

#[test]
fn missing_repository_is_unconfigured() {
    let prepared = Updater::prepare(RepositoryConfig::default(), "1.0.0", naming(), 100).unwrap();
    assert!(matches!(prepared, Preparation::Unconfigured));
}

#[test]
fn partial_or_unsafe_repository_is_rejected() {
    assert!(matches!(
        Updater::prepare(
            RepositoryConfig {
                owner: Some("acme".into()),
                repository: None
            },
            "1.0.0",
            naming(),
            100,
        ),
        Err(UpdateError::InvalidConfiguration(_))
    ));
    assert!(matches!(
        Updater::prepare(
            RepositoryConfig {
                owner: Some("acme/other".into()),
                repository: Some("syntra".into())
            },
            "1.0.0",
            naming(),
            100,
        ),
        Err(UpdateError::InvalidConfiguration(_))
    ));
}

#[test]
fn malformed_release_version_is_rejected() {
    let error =
        classify_release(&version("1.0.0"), &naming(), release("nightly", &[])).unwrap_err();
    assert!(matches!(error, UpdateError::MalformedRelease(_)));
    let error = classify_release(&version("1.0.0"), &naming(), release("v2.0.0-beta.1", &[]))
        .unwrap_err();
    assert!(matches!(error, UpdateError::MalformedRelease(_)));
}

#[test]
fn equal_and_older_releases_are_not_updates() {
    assert!(matches!(
        classify_release(&version("2.0.0"), &naming(), release("v2.0.0", &[])).unwrap(),
        UpdateStatus::UpToDate { .. }
    ));
    assert!(matches!(
        classify_release(&version("3.0.0"), &naming(), release("v2.0.0", &[])).unwrap(),
        UpdateStatus::AheadOfLatest { .. }
    ));
}

#[test]
fn missing_or_duplicate_compatible_asset_is_explicit() {
    let expected = "syntra-2.0.0-linux-x86_64.zip";
    assert!(matches!(
        classify_release(&version("1.0.0"), &naming(), release("v2.0.0", &["other.zip"])),
        Err(UpdateError::UnsupportedAsset { .. })
    ));
    assert!(matches!(
        classify_release(&version("1.0.0"), &naming(), release("v2.0.0", &[expected, expected])),
        Err(UpdateError::AmbiguousAsset { count: 2, .. })
    ));
}

#[test]
fn compatible_asset_is_selected_exactly() {
    let expected = "syntra-2.0.0-linux-x86_64.zip";
    let status = classify_release(
        &version("1.0.0"),
        &naming(),
        release("v2.0.0", &[expected, "syntra-2.0.0-linux-aarch64.zip"]),
    )
    .unwrap();
    let UpdateStatus::Available(update) = status else {
        panic!("update expected")
    };
    assert_eq!(update.asset.name, expected);
}

/// More than the limit is refused, one byte over it is enough to see it, and
/// nothing of it counts.
#[test]
fn oversized_streams_are_refused() {
    let mut stage = Stage::new(10);
    assert_eq!(stage.read_capacity(), 11);
    let error = stage.accept(11).unwrap_err();
    assert!(matches!(error, UpdateError::DownloadTooLarge { limit: 10, observed: 11 }));
    assert_eq!(stage.total, 0);
    stage.accept(4).unwrap();
    assert_eq!(stage.read_capacity(), 7);
    stage.accept(6).unwrap();
    assert_eq!(stage.read_capacity(), 1);
    assert_eq!(Stage::new(1 << 40).read_capacity(), 32 * 1024);
    assert!(check_size(10, Some(10)).is_ok());
    assert!(check_size(10, None).is_ok());
    assert_eq!(
        check_size(10, Some(11)).unwrap_err().to_text(),
        "download exceeded 10 bytes after receiving 11 bytes"
    );
}

/// Prereleases come before their release, and numbers count as numbers.
#[test]
fn versions_are_ordered_as_versions() {
    assert_eq!(version("1.10.0").against(&version("1.9.0")), Precedence::Newer);
    assert_eq!(version("1.0.0-rc.1").against(&version("1.0.0")), Precedence::Older);
    assert_eq!(version("1.0.0").against(&version("1.0.0")), Precedence::Same);
    assert!(version("1.0.0-rc.1").is_prerelease());
    assert!(!version("1.0.0").is_prerelease());
    assert_eq!(version("1.2.3").as_text(), "1.2.3");
    assert!(Version::parse("1.0").is_err());
    assert!(matches!(
        classify_release(&version("1.0.0-rc.1"), &naming(), release("1.0.0", &[])),
        Err(UpdateError::UnsupportedAsset { .. })
    ));
}

#[test]
fn configurations_are_checked_in_order() {
    let config = || RepositoryConfig {
        owner: Some("acme".into()),
        repository: Some("syntra".into()),
    };
    assert_eq!(
        Updater::prepare(config(), "1.0.0", naming(), 0).unwrap_err().to_text(),
        "invalid updater configuration: maximum download size must be greater than zero"
    );
    assert!(matches!(
        Updater::prepare(config(), "nope", naming(), 1),
        Err(UpdateError::InvalidCurrentVersion(_))
    ));
    let Preparation::Configured(updater) =
        Updater::prepare(config(), "vv1.0.0", naming(), 1).unwrap()
    else {
        panic!("configured")
    };
    assert_eq!(
        updater.latest_url(),
        "https://api.github.com/repos/acme/syntra/releases/latest"
    );
    assert_eq!(updater.current_version.as_text(), "1.0.0");
    assert!(matches!(
        prepare_with(config(), Err("bad".into()), naming(), 1),
        Err(UpdateError::InvalidCurrentVersion(text)) if text == "bad"
    ));
}

#[test]
fn naming_contracts_are_checked() {
    let with = |template: &str| ArtifactNaming { template: template.into(), ..naming() }.validate();
    assert!(with("a-{os}-{arch}").is_ok());
    let text = |template: &str| with(template).unwrap_err().to_text();
    assert_eq!(text("  "), "invalid artifact naming contract: template is empty");
    assert_eq!(
        text("{os}"),
        "invalid artifact naming contract: template must contain {os} and {arch}"
    );
    assert_eq!(
        text("{os}{arch}{x}"),
        "invalid artifact naming contract: unknown placeholder {x}"
    );
    assert_eq!(
        text("{os}{arch}{x"),
        "invalid artifact naming contract: unclosed placeholder"
    );
    assert_eq!(
        text("{os}{arch}}"),
        "invalid artifact naming contract: unmatched closing brace"
    );
    let slashed = ArtifactNaming { os: "a/b".into(), ..naming() };
    assert!(slashed.validate().is_err());
    assert_eq!(
        naming().expected_name(&version("2.0.0")),
        "syntra-2.0.0-linux-x86_64.zip"
    );
}

#[test]
fn downloads_come_over_https_and_have_plain_names() {
    let mut other = release("v2.0.0", &["syntra-2.0.0-linux-x86_64.zip"]);
    other.assets[0].browser_download_url = "http://example.invalid/x".into();
    let error = judge_release(
        &version("1.0.0"),
        version("2.0.0"),
        Precedence::Older,
        &naming(),
        &other,
    )
    .unwrap_err();
    assert_eq!(error.to_text(), "malformed GitHub release: asset download URL is not HTTPS");
    let mut draft = release("v2.0.0", &[]);
    draft.draft = true;
    assert!(classify_release(&version("1.0.0"), &naming(), draft).is_err());
    assert_eq!(
        staged_name("a.zip", Some("a.zip"), 7, 3).unwrap(),
        ".a.zip.download-7-3.part"
    );
    assert!(staged_name("x/a.zip", Some("a.zip"), 7, 3).is_err());
    assert!(staged_name("..", None, 7, 3).is_err());
}

#[test]
fn what_is_said_of_updates() {
    let status = classify_release(
        &version("1.0.0"),
        &naming(),
        release("v2.0.0", &["syntra-2.0.0-linux-x86_64.zip"]),
    )
    .unwrap();
    assert_eq!(
        describe_update_status(status),
        "Syntra 2.0.0 is available: syntra-2.0.0-linux-x86_64.zip (10 B) \u{2014} https://github.com/acme/syntra/releases/tag/v2.0.0"
    );
    let status = classify_release(&version("2.0.0"), &naming(), release("2.0.0", &[])).unwrap();
    assert_eq!(describe_update_status(status), "Syntra 2.0.0 is up to date");
    let status = classify_release(&version("3.0.0"), &naming(), release("2.0.0", &[])).unwrap();
    assert_eq!(
        describe_update_status(status),
        "Syntra 3.0.0 is newer than the latest release 2.0.0"
    );
}

#[test]
fn repositories_are_pairs() {
    assert_eq!(repository_config("  ").unwrap(), RepositoryConfig::default());
    let config = repository_config(" acme/syntra ").unwrap();
    assert_eq!(config.owner.as_deref(), Some("acme"));
    assert_eq!(config.repository.as_deref(), Some("syntra"));
    assert_eq!(
        repository_config("acme").unwrap_err(),
        "Update repository must use the owner/repository format"
    );
    assert_eq!(
        repository_config("a/b/c").unwrap_err(),
        "Update repository must contain exactly one owner/repository pair"
    );
    assert_eq!(update_check(true, "a/b"), UpdateCheck::Busy);
    assert_eq!(
        update_check(false, ""),
        UpdateCheck::Refused("Update source is not configured".into())
    );
    assert!(matches!(update_check(false, "a/b"), UpdateCheck::Start(_)));
    assert!(checks_at_start(true, "a/b"));
    assert!(!checks_at_start(true, " "));
    assert_eq!(source_saved(" a/b ", Ok(())), "Update source configured for a/b");
    assert_eq!(source_saved("", Ok(())), "Update source is not configured");
    assert_eq!(
        source_saved("", Err("disk".into())),
        "Unable to save update source: disk"
    );
}

#[test]
fn preferences_change_or_stay() {
    let mut settings = PresentationSettings::default();
    change(&mut settings, Change::Zoom(10)).unwrap();
    assert_eq!(settings.zoom_percent, 75);
    change(&mut settings, Change::Zoom(500)).unwrap();
    assert_eq!(settings.zoom_percent, 200);
    change(&mut settings, Change::Palette("rose".into())).unwrap();
    assert_eq!(settings.palette, Palette::Rose);
    change(&mut settings, Change::Palette("Rose".into())).unwrap();
    assert_eq!(settings.palette, Palette::Army);
    change(&mut settings, Change::BaseMode("white".into())).unwrap();
    assert_eq!(settings.mode, BaseMode::White);
    assert_eq!(
        change(&mut settings, Change::BaseMode("grey".into())).unwrap_err(),
        "Unknown appearance mode"
    );
    assert_eq!(settings.mode, BaseMode::White);
    assert!(change(&mut settings, Change::Density("wide".into())).is_err());
    change(&mut settings, Change::Accent(" #AbCdEf ".into())).unwrap();
    assert_eq!(settings.accent, "#AbCdEf");
    assert_eq!(
        change(&mut settings, Change::Accent("".into())).unwrap_err(),
        "Accent must be a #RRGGBB color"
    );
    change(&mut settings, Change::TitlebarColor("  ".into())).unwrap();
    assert_eq!(settings.titlebar_color, "");
    assert!(change(&mut settings, Change::TitlebarColor("#12".into())).is_err());
    assert_eq!(color_of(1, 171, 255), "#01abff");
}

#[test]
fn pages_refresh_what_they_show() {
    let mut view = AppViewState::default();
    assert_eq!(navigate(&mut view, "history".into()), PageRefresh::History);
    assert_eq!(view.navigation.page, "history");
    assert_eq!(navigate(&mut view, "clipboard".into()), PageRefresh::FlatpakApplications);
    assert_eq!(navigate(&mut view, "devices".into()), PageRefresh::DiscoverPeers);
    assert_eq!(navigate(&mut view, "overview".into()), PageRefresh::Service);
    assert_eq!(navigate(&mut view, "about".into()), PageRefresh::Nothing);
}

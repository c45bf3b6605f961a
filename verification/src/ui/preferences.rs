//! What the dashboard does when the user changes a preference, looks for
//! updates, moves to another page or closes the window.
use crate::text::blank;
use crate::text::chars_of;
use crate::text::has_char;
use crate::text::hex_byte;
use crate::text::index_of;
use crate::text::find_char;
use crate::text::is_blank;
use crate::text::push_hex_byte;
use crate::text::same_text;
use crate::text::string_of;
use crate::text::trim;
use crate::text::trim_text;
use crate::ui::labels::format_bytes;
use crate::ui::labels::size_text;
use crate::ui::models::AppViewState;
use crate::ui::models::Preferences;
use crate::ui::models::ViewModel;
use crate::ui::settings::is_color;
use crate::ui::settings::is_color_text;
use crate::ui::settings::zoom_within;
use crate::ui::settings::BaseMode;
use crate::ui::settings::Density;
use crate::ui::settings::Palette;
use crate::ui::settings::PresentationSettings;
use crate::ui::settings::SettingsModel;
use crate::ui::settings::UpdatesModel;
use crate::ui::updates::RepositoryConfig;
use crate::ui::updates::UpdateStatus;
use vstd::prelude::*;

verus! {

// ---------------------------------------------------------------------------
// Appearance
// ---------------------------------------------------------------------------

/// A change of the preferences.
#[derive(Debug, PartialEq, Eq)]
pub enum Change {
    Palette(String),
    Zoom(i32),
    BaseMode(String),
    Density(String),
    ReducedMotion(bool),
    Accent(String),
    TitlebarColor(String),
    SidebarOpen(bool),
    Locale(String),
    AutomaticUpdateCheck(bool),
}

/// The palette of a name; the first palette where there is none of that name.
pub open spec fn palette_called(s: Seq<char>) -> Palette {
    if s == "forest"@ {
        Palette::Forest
    } else if s == "ocean"@ {
        Palette::Ocean
    } else if s == "slate"@ {
        Palette::Slate
    } else if s == "sand"@ {
        Palette::Sand
    } else if s == "graphite"@ {
        Palette::Graphite
    } else if s == "aubergine"@ {
        Palette::Aubergine
    } else if s == "copper"@ {
        Palette::Copper
    } else if s == "rose"@ {
        Palette::Rose
    } else if s == "ice"@ {
        Palette::Ice
    } else {
        Palette::Army
    }
}

/// The preferences after a change, or why it is refused.
pub open spec fn changed(m: SettingsModel, c: Change) -> Result<SettingsModel, Seq<char>> {
    match c {
        Change::Palette(name) => Ok(SettingsModel { palette: palette_called(name@), ..m }),
        Change::Zoom(percent) => Ok(
            SettingsModel { zoom_percent: zoom_within(percent as int), ..m },
        ),
        Change::BaseMode(name) => if name@ == "white"@ {
            Ok(SettingsModel { mode: BaseMode::White, ..m })
        } else if name@ == "black"@ {
            Ok(SettingsModel { mode: BaseMode::Black, ..m })
        } else {
            Err("Unknown appearance mode"@)
        },
        Change::Density(name) => if name@ == "compact"@ {
            Ok(SettingsModel { density: Density::Compact, ..m })
        } else if name@ == "comfortable"@ {
            Ok(SettingsModel { density: Density::Comfortable, ..m })
        } else {
            Err("Unknown layout density"@)
        },
        Change::ReducedMotion(on) => Ok(SettingsModel { reduced_motion: on, ..m }),
        Change::Accent(color) => if is_color(trim(color@)) {
            Ok(SettingsModel { accent: trim(color@), ..m })
        } else {
            Err("Accent must be a #RRGGBB color"@)
        },
        Change::TitlebarColor(color) => if trim(color@).len() == 0 || is_color(trim(color@)) {
            Ok(SettingsModel { titlebar_color: trim(color@), ..m })
        } else {
            Err("Title bar must be a #RRGGBB color or empty for automatic"@)
        },
        Change::SidebarOpen(open) => Ok(SettingsModel { sidebar_open: open, ..m }),
        Change::Locale(locale) => Ok(SettingsModel { locale: locale@, ..m }),
        Change::AutomaticUpdateCheck(on) => Ok(
            SettingsModel { updates: UpdatesModel { automatic_check: on, ..m.updates }, ..m },
        ),
    }
}

fn palette_for(s: &str) -> (p: Palette)
    ensures
        p == palette_called(s@),
{
    if same_text(s, "forest") {
        Palette::Forest
    } else if same_text(s, "ocean") {
        Palette::Ocean
    } else if same_text(s, "slate") {
        Palette::Slate
    } else if same_text(s, "sand") {
        Palette::Sand
    } else if same_text(s, "graphite") {
        Palette::Graphite
    } else if same_text(s, "aubergine") {
        Palette::Aubergine
    } else if same_text(s, "copper") {
        Palette::Copper
    } else if same_text(s, "rose") {
        Palette::Rose
    } else if same_text(s, "ice") {
        Palette::Ice
    } else {
        Palette::Army
    }
}

/// Changes the preferences; a change that is refused leaves them alone.
pub fn change(settings: &mut PresentationSettings, c: Change) -> (r: Result<(), String>)
    ensures
        match r {
            Ok(_) => changed(old(settings)@, c) == Ok::<SettingsModel, Seq<char>>(
                final(settings)@,
            ),
            Err(text) => changed(old(settings)@, c) == Err::<SettingsModel, Seq<char>>(text@)
                && final(settings)@ == old(settings)@,
        },
{
    match c {
        Change::Palette(name) => {
            settings.palette = palette_for(name.as_str());
        },
        Change::Zoom(percent) => {
            settings.zoom_percent = if percent < 75 {
                75
            } else if percent > 200 {
                200
            } else {
                percent as u16
            };
        },
        Change::BaseMode(name) => {
            if same_text(name.as_str(), "white") {
                settings.mode = BaseMode::White;
            } else if same_text(name.as_str(), "black") {
                settings.mode = BaseMode::Black;
            } else {
                return Err("Unknown appearance mode".to_owned());
            }
        },
        Change::Density(name) => {
            if same_text(name.as_str(), "compact") {
                settings.density = Density::Compact;
            } else if same_text(name.as_str(), "comfortable") {
                settings.density = Density::Comfortable;
            } else {
                return Err("Unknown layout density".to_owned());
            }
        },
        Change::ReducedMotion(on) => {
            settings.reduced_motion = on;
        },
        Change::Accent(color) => {
            let color: String = trim_text(color.as_str());
            if !is_color_text(color.as_str()) {
                return Err("Accent must be a #RRGGBB color".to_owned());
            }
            settings.accent = color;
        },
        Change::TitlebarColor(color) => {
            let color: String = trim_text(color.as_str());
            if color.as_str().unicode_len() > 0 && !is_color_text(color.as_str()) {
                return Err(
                    "Title bar must be a #RRGGBB color or empty for automatic".to_owned(),
                );
            }
            settings.titlebar_color = color;
        },
        Change::SidebarOpen(open) => {
            settings.sidebar_open = open;
        },
        Change::Locale(locale) => {
            settings.locale = locale;
        },
        Change::AutomaticUpdateCheck(on) => {
            settings.updates.automatic_check = on;
        },
    }
    Ok(())
}

/// A color as it is written.
pub open spec fn color_text(red: u8, green: u8, blue: u8) -> Seq<char> {
    "#"@ + hex_byte(red) + hex_byte(green) + hex_byte(blue)
}

/// A color as it is written.
pub fn color_of(red: u8, green: u8, blue: u8) -> (s: String)
    ensures
        s@ == color_text(red, green, blue),
{
    let mut s: String = "#".to_owned();
    push_hex_byte(&mut s, red);
    push_hex_byte(&mut s, green);
    push_hex_byte(&mut s, blue);
    s
}

/// A color that was picked is always taken as a color.
pub proof fn law_picked_colors_are_colors(red: u8, green: u8, blue: u8)
    ensures
        is_color(color_text(red, green, blue)),
{
    reveal_strlit("#");
    let s = color_text(red, green, blue);
    assert(s.len() == 7);
    assert(s[0] == '#');
    lemma_hex_byte(red);
    lemma_hex_byte(green);
    lemma_hex_byte(blue);
    assert(s[1] == hex_byte(red)[0] && s[2] == hex_byte(red)[1]);
    assert(s[3] == hex_byte(green)[0] && s[4] == hex_byte(green)[1]);
    assert(s[5] == hex_byte(blue)[0] && s[6] == hex_byte(blue)[1]);
}

proof fn lemma_hex_byte(b: u8)
    ensures
        hex_byte(b).len() == 2,
        crate::text::is_hex(hex_byte(b)[0]),
        crate::text::is_hex(hex_byte(b)[1]),
{
}

// ---------------------------------------------------------------------------
// Language
// ---------------------------------------------------------------------------

/// A revision of the translations as the window counts them.
pub fn shown_revision(revision: u64) -> (r: i32)
    ensures
        r == (if revision > i32::MAX {
            i32::MAX as int
        } else {
            revision as int
        }),
{
    if revision > 0x7fff_ffff {
        i32::MAX
    } else {
        revision as i32
    }
}

/// The language was changed: the state and the preferences follow.
pub fn locale_changed(
    state: &mut AppViewState,
    settings: &mut PresentationSettings,
    locale: String,
)
    ensures
        final(state)@ == (ViewModel { preferences: Preferences { locale }, ..old(state)@ }),
        final(settings)@ == (SettingsModel { locale: locale@, ..old(settings)@ }),
{
    state.preferences.locale = locale.clone();
    settings.locale = locale;
}

/// What can go wrong around the preferences, beside a change that is refused.
#[derive(Clone, Copy, Debug, PartialEq, Eq, Structural)]
pub enum Failure {
    SidebarUnsaved,
    LanguageUnsaved,
    LanguageUnchanged,
    TranslationsUnread,
    DictionariesUnread,
}

/// What is said of a failure; the error is what caused it.
pub open spec fn failure_text(failure: Failure, error: Seq<char>) -> Seq<char> {
    match failure {
        Failure::SidebarUnsaved => "Unable to save sidebar preference: "@ + error,
        Failure::LanguageUnsaved => "Unable to save language preference: "@ + error,
        Failure::LanguageUnchanged => "Unable to change language: "@ + error,
        Failure::TranslationsUnread => "Unable to load translations: "@ + error,
        Failure::DictionariesUnread => "Unable to load custom dictionaries: "@ + error,
    }
}

/// What is said of a failure.
pub fn failure_message(failure: Failure, error: &str) -> (s: String)
    ensures
        s@ == failure_text(failure, error@),
{
    let front: &str = match failure {
        Failure::SidebarUnsaved => "Unable to save sidebar preference: ",
        Failure::LanguageUnsaved => "Unable to save language preference: ",
        Failure::LanguageUnchanged => "Unable to change language: ",
        Failure::TranslationsUnread => "Unable to load translations: ",
        Failure::DictionariesUnread => "Unable to load custom dictionaries: ",
    };
    let mut s: String = front.to_owned();
    s.push_str(error);
    s
}

/// The user wants another language: `outcome` is the one that the translations
/// came to, or why they stayed as they are.
pub fn language_chosen(
    state: &mut AppViewState,
    settings: &mut PresentationSettings,
    outcome: Result<String, String>,
) -> (r: Result<(), String>)
    ensures
        match outcome {
            Ok(locale) => {
                &&& r is Ok
                &&& final(state)@ == (ViewModel {
                    preferences: Preferences { locale },
                    ..old(state)@
                })
                &&& final(settings)@ == (SettingsModel { locale: locale@, ..old(settings)@ })
            },
            Err(error) => {
                &&& r matches Err(text) && text@ == failure_text(Failure::LanguageUnchanged, error@)
                &&& final(state)@ == old(state)@
                &&& final(settings)@ == old(settings)@
            },
        },
{
    match outcome {
        Ok(locale) => {
            locale_changed(state, settings, locale);
            Ok(())
        },
        Err(error) => Err(failure_message(Failure::LanguageUnchanged, error.as_str())),
    }
}

// ---------------------------------------------------------------------------
// Updates
// ---------------------------------------------------------------------------

/// The repository that a text names, or what is wrong with the text.
pub open spec fn repository_of(value: Seq<char>) -> Result<
    Option<(Seq<char>, Seq<char>)>,
    Seq<char>,
> {
    let s = trim(value);
    if s.len() == 0 {
        Ok(None)
    } else {
        match index_of(s, '/') {
            None => Err("Update repository must use the owner/repository format"@),
            Some(i) => {
                let owner = s.take(i);
                let repository = s.skip(i + 1);
                if owner.len() == 0 || repository.len() == 0 || repository.contains('/') {
                    Err("Update repository must contain exactly one owner/repository pair"@)
                } else {
                    Ok(Some((owner, repository)))
                }
            },
        }
    }
}

fn cut_at(v: &Vec<char>, i: usize) -> (r: (Vec<char>, Vec<char>))
    requires
        i < v@.len(),
    ensures
        r.0@ == v@.take(i as int),
        r.1@ == v@.skip(i + 1),
{
    let n: usize = v.len();
    let mut front: Vec<char> = Vec::new();
    let mut k: usize = 0;
    while k < i
        invariant
            k <= i < v@.len(),
            front@ == v@.take(k as int),
        decreases i - k,
    {
        front.push(v[k]);
        k = k + 1;
        assert(front@ =~= v@.take(k as int));
    }
    let mut back: Vec<char> = Vec::new();
    let mut j: usize = i + 1;
    while j < n
        invariant
            n == v@.len(),
            i < j <= n,
            back@ == v@.subrange(i + 1, j as int),
        decreases v@.len() - j,
    {
        back.push(v[j]);
        j = j + 1;
        assert(back@ =~= v@.subrange(i + 1, j as int));
    }
    assert(back@ =~= v@.skip(i + 1));
    (front, back)
}

/// The repository that a text names: nothing, or an owner and a repository.
pub fn repository_config(value: &str) -> (r: Result<RepositoryConfig, String>)
    ensures
        match r {
            Ok(config) => match repository_of(value@) {
                Ok(Some((owner, repository))) => config.owner is Some && config.owner->Some_0@
                    == owner && config.repository is Some && config.repository->Some_0@
                    == repository,
                Ok(None) => config.owner is None && config.repository is None,
                Err(_) => false,
            },
            Err(text) => repository_of(value@) == Err::<
                Option<(Seq<char>, Seq<char>)>,
                Seq<char>,
            >(text@),
        },
{
    let trimmed: String = trim_text(value);
    let v: Vec<char> = chars_of(trimmed.as_str());
    if v.len() == 0 {
        return Ok(RepositoryConfig::default());
    }
    match find_char(v.as_slice(), '/') {
        None => Err("Update repository must use the owner/repository format".to_owned()),
        Some(i) => {
            let (owner, repository) = cut_at(&v, i);
            if owner.len() == 0 || repository.len() == 0 || has_char(repository.as_slice(), '/') {
                return Err(
                    "Update repository must contain exactly one owner/repository pair".to_owned(),
                );
            }
            Ok(
                RepositoryConfig {
                    owner: Some(string_of(owner.as_slice())),
                    repository: Some(string_of(repository.as_slice())),
                },
            )
        },
    }
}

/// What the wish to look for updates comes to.
#[derive(Debug, PartialEq, Eq)]
pub enum UpdateCheck {
    /// One is under way.
    Busy,
    /// It cannot be done; the text says why.
    Refused(String),
    Start(RepositoryConfig),
}

/// Whether to look for updates, and where.
pub fn update_check(busy: bool, repository: &str) -> (r: UpdateCheck)
    ensures
        match r {
            UpdateCheck::Busy => busy,
            UpdateCheck::Refused(text) => !busy && match repository_of(repository@) {
                Err(error) => text@ == error,
                Ok(None) => text@ == "Update source is not configured"@,
                Ok(Some(_)) => false,
            },
            UpdateCheck::Start(config) => !busy && match repository_of(repository@) {
                Ok(Some((owner, name))) => config.owner is Some && config.owner->Some_0@ == owner
                    && config.repository is Some && config.repository->Some_0@ == name,
                _ => false,
            },
        },
{
    if busy {
        return UpdateCheck::Busy;
    }
    match repository_config(repository) {
        Err(text) => UpdateCheck::Refused(text),
        Ok(config) => if config.owner.is_none() {
            UpdateCheck::Refused("Update source is not configured".to_owned())
        } else {
            UpdateCheck::Start(config)
        },
    }
}

/// Whether updates are looked for as the dashboard starts.
pub fn checks_at_start(automatic_check: bool, repository: &str) -> (r: bool)
    ensures
        r == (automatic_check && !blank(repository@)),
{
    automatic_check && !is_blank(repository)
}

/// What is said once an update source was saved, or could not be.
pub open spec fn source_text(repository: Seq<char>, saved: Result<(), String>) -> Seq<char> {
    match saved {
        Ok(_) => if trim(repository).len() == 0 {
            "Update source is not configured"@
        } else {
            "Update source configured for "@ + trim(repository)
        },
        Err(error) => "Unable to save update source: "@ + error@,
    }
}

pub fn source_saved(repository: &str, saved: Result<(), String>) -> (s: String)
    ensures
        s@ == source_text(repository@, saved),
{
    let trimmed: String = trim_text(repository);
    match saved {
        Ok(_) => if trimmed.as_str().unicode_len() == 0 {
            "Update source is not configured".to_owned()
        } else {
            let mut s: String = "Update source configured for ".to_owned();
            s.push_str(trimmed.as_str());
            s
        },
        Err(error) => {
            let mut s: String = "Unable to save update source: ".to_owned();
            s.push_str(error.as_str());
            s
        },
    }
}

/// What is said of a comparison with the latest release.
pub open spec fn update_text(status: UpdateStatus) -> Seq<char> {
    match status {
        UpdateStatus::UpToDate { current } => "Syntra "@ + current@ + " is up to date"@,
        UpdateStatus::AheadOfLatest { current, latest } => "Syntra "@ + current@
            + " is newer than the latest release "@ + latest@,
        UpdateStatus::Available(available) => "Syntra "@ + available.version@ + " is available: "@
            + available.asset.name@ + (match available.asset.declared_bytes {
            Some(bytes) => " ("@ + size_text(bytes) + ")"@,
            None => Seq::empty(),
        }) + " \u{2014} "@ + available.release_page@,
    }
}

/// What is said of a comparison with the latest release.
pub fn describe_update_status(status: UpdateStatus) -> (s: String)
    ensures
        s@ == update_text(status),
{
    let mut s: String = "Syntra ".to_owned();
    match &status {
        UpdateStatus::UpToDate { current } => {
            s.push_str(current.as_text());
            s.push_str(" is up to date");
        },
        UpdateStatus::AheadOfLatest { current, latest } => {
            s.push_str(current.as_text());
            s.push_str(" is newer than the latest release ");
            s.push_str(latest.as_text());
        },
        UpdateStatus::Available(available) => {
            s.push_str(available.version.as_text());
            s.push_str(" is available: ");
            s.push_str(available.asset.name.as_str());
            match available.asset.declared_bytes {
                Some(bytes) => {
                    s.push_str(" (");
                    s.push_str(format_bytes(bytes).as_str());
                    s.push_str(")");
                },
                None => {},
            }
            s.push_str(" \u{2014} ");
            s.push_str(available.release_page.as_str());
        },
    }
    assert(s@ =~= update_text(status));
    s
}

// ---------------------------------------------------------------------------
// Pages and windows
// ---------------------------------------------------------------------------

/// What a page asks for as it comes up.
#[derive(Clone, Copy, Debug, PartialEq, Eq, Structural)]
pub enum PageRefresh {
    Nothing,
    FlatpakApplications,
    DiscoverPeers,
    History,
    Service,
}

pub open spec fn refresh_of(page: Seq<char>) -> PageRefresh {
    if page == "clipboard"@ {
        PageRefresh::FlatpakApplications
    } else if page == "devices"@ {
        PageRefresh::DiscoverPeers
    } else if page == "history"@ {
        PageRefresh::History
    } else if page == "settings"@ || page == "overview"@ {
        PageRefresh::Service
    } else {
        PageRefresh::Nothing
    }
}

/// The user moves to a page.
pub fn navigate(state: &mut AppViewState, page: String) -> (r: PageRefresh)
    ensures
        r == refresh_of(page@),
        final(state)@ == (ViewModel { page, ..old(state)@ }),
{
    let r: PageRefresh = if same_text(page.as_str(), "clipboard") {
        PageRefresh::FlatpakApplications
    } else if same_text(page.as_str(), "devices") {
        PageRefresh::DiscoverPeers
    } else if same_text(page.as_str(), "history") {
        PageRefresh::History
    } else if same_text(page.as_str(), "settings") || same_text(page.as_str(), "overview") {
        PageRefresh::Service
    } else {
        PageRefresh::Nothing
    };
    state.navigation.page = page;
    r
}

/// The name that this device goes by: what the user called it, unless that is
/// blank, else the name of the host, else the name of the application.
pub open spec fn local_name_of(friendly: Seq<char>, host: Option<Seq<char>>) -> Seq<char> {
    if !blank(friendly) {
        friendly
    } else {
        match host {
            Some(host) => host,
            None => "Syntra"@,
        }
    }
}

pub fn local_device_name(settings: &PresentationSettings, host: Option<String>) -> (s: String)
    ensures
        s@ == local_name_of(
            settings@.local_device.friendly_name,
            match host {
                Some(host) => Some(host@),
                None => None,
            },
        ),
{
    if !is_blank(settings.local_device.friendly_name.as_str()) {
        settings.local_device.friendly_name.clone()
    } else {
        match host {
            Some(host) => host,
            None => "Syntra".to_owned(),
        }
    }
}

/// Whether the profile of this device is to be published once more: its name or
/// its picture is another than was published last.
pub fn profile_changed(
    published: &Option<(String, String)>,
    settings: &PresentationSettings,
) -> (r: bool)
    ensures
        r == !(published matches Some(p) && p.0@ == settings@.local_device.friendly_name && p.1@
            == settings@.local_device.image_path),
{
    match published {
        Some((name, image)) => !(same_text(
            name.as_str(),
            settings.local_device.friendly_name.as_str(),
        ) && same_text(image.as_str(), settings.local_device.image_path.as_str())),
        None => true,
    }
}

} // verus!

//! How the user wants the dashboard to look, and where that is kept.
use crate::paths::is_letter;
use crate::table::Table;
use crate::text::chars_of;
use crate::text::is_hex;
use crate::text::is_hex_digit;
use crate::text::lower;
use crate::text::same_text;
use crate::text::to_ascii_lower;
use vstd::prelude::*;

verus! {

#[derive(Clone, Copy, Debug, PartialEq, Eq, Structural)]
pub enum BaseMode {
    White,
    Black,
}

#[derive(Clone, Copy, Debug, PartialEq, Eq, Structural)]
pub enum Palette {
    Army,
    Forest,
    Ocean,
    Slate,
    Sand,
    Graphite,
    Aubergine,
    Copper,
    Rose,
    Ice,
}

#[derive(Clone, Copy, Debug, PartialEq, Eq, Structural)]
pub enum Density {
    Comfortable,
    Compact,
}

impl Default for BaseMode {
    fn default() -> (m: BaseMode)
        ensures
            m == BaseMode::Black,
    {
        BaseMode::Black
    }
}

impl Default for Palette {
    fn default() -> (p: Palette)
        ensures
            p == Palette::Army,
    {
        Palette::Army
    }
}

impl Default for Density {
    fn default() -> (d: Density)
        ensures
            d == Density::Comfortable,
    {
        Density::Comfortable
    }
}

/// The name and picture that the user gave a device.
#[derive(Clone, Debug, PartialEq, Eq)]
pub struct DevicePresentation {
    pub friendly_name: String,
    pub image_path: String,
}

/// Where updates are looked for.
#[derive(Clone, Debug, PartialEq, Eq)]
pub struct UpdatePreferences {
    pub repository: String,
    pub artifact_template: String,
    pub automatic_check: bool,
}

/// The preferences of the user.
#[derive(Debug, PartialEq, Eq)]
pub struct PresentationSettings {
    pub locale: String,
    pub mode: BaseMode,
    pub palette: Palette,
    pub accent: String,
    pub titlebar_color: String,
    pub density: Density,
    pub zoom_percent: u16,
    pub reduced_motion: bool,
    pub sidebar_open: bool,
    pub local_device: DevicePresentation,
    pub devices: Table<String, DevicePresentation>,
    pub updates: UpdatePreferences,
}

/// The update preferences of a settings file; what it leaves out is `None`.
#[derive(Clone, Debug, PartialEq, Eq)]
pub struct UpdatePreferencesWire {
    pub repository: Option<String>,
    pub artifact_template: Option<String>,
    pub automatic_check: Option<bool>,
}

/// A device of a settings file; what it leaves out is `None`.
#[derive(Clone, Debug, PartialEq, Eq)]
pub struct DevicePresentationWire {
    pub friendly_name: Option<String>,
    pub image_path: Option<String>,
}

/// The contents of a settings file; what it leaves out is `None`. Files of
/// earlier releases hold a `theme` in place of a mode.
#[derive(Clone, Debug, PartialEq, Eq)]
pub struct PresentationSettingsWire {
    pub locale: Option<String>,
    pub mode: Option<String>,
    pub palette: Option<String>,
    pub accent: Option<String>,
    pub titlebar_color: Option<String>,
    pub density: Option<String>,
    pub zoom_percent: Option<u16>,
    pub reduced_motion: Option<bool>,
    pub sidebar_open: Option<bool>,
    pub local_device: Option<DevicePresentationWire>,
    pub devices: Option<Vec<(String, DevicePresentationWire)>>,
    pub updates: Option<UpdatePreferencesWire>,
    pub theme: Option<String>,
}

// ---------------------------------------------------------------------------
// The settings as a mathematical value
// ---------------------------------------------------------------------------

pub ghost struct DeviceModel {
    pub friendly_name: Seq<char>,
    pub image_path: Seq<char>,
}

pub ghost struct UpdatesModel {
    pub repository: Seq<char>,
    pub artifact_template: Seq<char>,
    pub automatic_check: bool,
}

pub ghost struct SettingsModel {
    pub locale: Seq<char>,
    pub mode: BaseMode,
    pub palette: Palette,
    pub accent: Seq<char>,
    pub titlebar_color: Seq<char>,
    pub density: Density,
    pub zoom_percent: u16,
    pub reduced_motion: bool,
    pub sidebar_open: bool,
    pub local_device: DeviceModel,
    pub devices: Map<Seq<char>, DeviceModel>,
    pub updates: UpdatesModel,
}

impl View for DevicePresentation {
    type V = DeviceModel;

    open spec fn view(&self) -> DeviceModel {
        DeviceModel { friendly_name: self.friendly_name@, image_path: self.image_path@ }
    }
}

impl View for UpdatePreferences {
    type V = UpdatesModel;

    open spec fn view(&self) -> UpdatesModel {
        UpdatesModel {
            repository: self.repository@,
            artifact_template: self.artifact_template@,
            automatic_check: self.automatic_check,
        }
    }
}

/// Devices with their names and pictures as characters.
pub open spec fn devices_of(m: Map<Seq<char>, DevicePresentation>) -> Map<Seq<char>, DeviceModel> {
    m.map_values(|d: DevicePresentation| d@)
}

impl View for PresentationSettings {
    type V = SettingsModel;

    open spec fn view(&self) -> SettingsModel {
        SettingsModel {
            locale: self.locale@,
            mode: self.mode,
            palette: self.palette,
            accent: self.accent@,
            titlebar_color: self.titlebar_color@,
            density: self.density,
            zoom_percent: self.zoom_percent,
            reduced_motion: self.reduced_motion,
            sidebar_open: self.sidebar_open,
            local_device: self.local_device@,
            devices: devices_of(self.devices@),
            updates: self.updates@,
        }
    }
}

// ---------------------------------------------------------------------------
// Defaults
// ---------------------------------------------------------------------------

pub open spec fn no_device() -> DeviceModel {
    DeviceModel { friendly_name: Seq::empty(), image_path: Seq::empty() }
}

pub open spec fn default_updates() -> UpdatesModel {
    UpdatesModel {
        repository: Seq::empty(),
        artifact_template: "syntra-{version}-{os}-{arch}.tar.gz"@,
        automatic_check: false,
    }
}

/// The settings of a user who has chosen nothing.
pub open spec fn default_settings() -> SettingsModel {
    SettingsModel {
        locale: "en-US"@,
        mode: BaseMode::Black,
        palette: Palette::Army,
        accent: "#718355"@,
        titlebar_color: Seq::empty(),
        density: Density::Comfortable,
        zoom_percent: 100,
        reduced_motion: false,
        sidebar_open: true,
        local_device: no_device(),
        devices: Map::empty(),
        updates: default_updates(),
    }
}

pub fn default_update_artifact_template() -> (s: String)
    ensures
        s@ == "syntra-{version}-{os}-{arch}.tar.gz"@,
{
    "syntra-{version}-{os}-{arch}.tar.gz".to_owned()
}

pub fn default_zoom_percent() -> (z: u16)
    ensures
        z == 100,
{
    100
}

pub fn default_locale() -> (s: String)
    ensures
        s@ == "en-US"@,
{
    "en-US".to_owned()
}

pub fn default_accent() -> (s: String)
    ensures
        s@ == "#718355"@,
{
    "#718355".to_owned()
}

pub fn default_titlebar_color() -> (s: String)
    ensures
        s@ == Seq::<char>::empty(),
{
    String::new()
}

pub fn default_sidebar() -> (b: bool)
    ensures
        b,
{
    true
}

impl Default for DevicePresentation {
    fn default() -> (d: DevicePresentation)
        ensures
            d@ == no_device(),
    {
        DevicePresentation { friendly_name: String::new(), image_path: String::new() }
    }
}

impl Default for UpdatePreferences {
    fn default() -> (u: UpdatePreferences)
        ensures
            u@ == default_updates(),
    {
        UpdatePreferences {
            repository: String::new(),
            artifact_template: default_update_artifact_template(),
            automatic_check: false,
        }
    }
}

impl Default for PresentationSettings {
    fn default() -> (s: PresentationSettings)
        ensures
            s@ == default_settings(),
    {
        let s: PresentationSettings = PresentationSettings {
            locale: default_locale(),
            mode: BaseMode::Black,
            palette: Palette::Army,
            accent: default_accent(),
            titlebar_color: default_titlebar_color(),
            density: Density::Comfortable,
            zoom_percent: default_zoom_percent(),
            reduced_motion: false,
            sidebar_open: true,
            local_device: DevicePresentation::default(),
            devices: Table::new(),
            updates: UpdatePreferences::default(),
        };
        assert(s@.devices =~= Map::<Seq<char>, DeviceModel>::empty());
        s
    }
}

impl Default for PresentationSettingsWire {
    /// An empty settings file.
    fn default() -> (w: PresentationSettingsWire)
        ensures
            w.locale is None,
            w.mode is None,
            w.palette is None,
            w.accent is None,
            w.titlebar_color is None,
            w.density is None,
            w.zoom_percent is None,
            w.reduced_motion is None,
            w.sidebar_open is None,
            w.local_device is None,
            w.devices is None,
            w.updates is None,
            w.theme is None,
    {
        PresentationSettingsWire {
            locale: None,
            mode: None,
            palette: None,
            accent: None,
            titlebar_color: None,
            density: None,
            zoom_percent: None,
            reduced_motion: None,
            sidebar_open: None,
            local_device: None,
            devices: None,
            updates: None,
            theme: None,
        }
    }
}

// ---------------------------------------------------------------------------
// Reading what a file says
// ---------------------------------------------------------------------------

/// The palette of a name, in capitals or small letters; the first palette where
/// there is none of that name.
pub open spec fn palette_named(name: Seq<char>) -> Palette {
    let s = lower(name);
    if s == "forest"@ {
        Palette::Forest
    } else if s == "ocean"@ {
        Palette::Ocean
    } else if s == "slate"@ {
        Palette::Slate
    } else if s == "sand"@ {
        Palette::Sand
    } else if s == "graphite"@ {
        Palette::Graphite
    } else if s == "aubergine"@ {
        Palette::Aubergine
    } else if s == "copper"@ {
        Palette::Copper
    } else if s == "rose"@ {
        Palette::Rose
    } else if s == "ice"@ {
        Palette::Ice
    } else {
        Palette::Army
    }
}

pub open spec fn density_named(name: Seq<char>) -> Density {
    if lower(name) == "compact"@ {
        Density::Compact
    } else {
        Density::Comfortable
    }
}

/// The mode that a file asks for: what it says of the mode counts, and where it
/// says nothing, the theme of earlier files.
pub open spec fn mode_named(mode: Option<Seq<char>>, theme: Option<Seq<char>>) -> BaseMode {
    let name = match mode {
        Some(mode) => mode,
        None => match theme {
            Some(theme) => theme,
            None => "black"@,
        },
    };
    if lower(name) == "white"@ || lower(name) == "light"@ {
        BaseMode::White
    } else {
        BaseMode::Black
    }
}

/// A color in the form `#rrggbb`.
pub open spec fn is_color(s: Seq<char>) -> bool {
    s.len() == 7 && s[0] == '#' && forall|i: int| 1 <= i < 7 ==> is_hex(#[trigger] s[i])
}

/// A color in small letters; nothing stays nothing, and what is no color gives
/// way to another.
pub open spec fn color_or(s: Seq<char>, fallback: Seq<char>) -> Seq<char> {
    if s.len() == 0 {
        Seq::empty()
    } else if is_color(s) {
        lower(s)
    } else {
        fallback
    }
}

/// The zoom that the dashboard allows nearest to the one asked for.
pub open spec fn zoom_within(percent: int) -> u16 {
    if percent < 75 {
        75
    } else if percent > 200 {
        200
    } else {
        percent as u16
    }
}

pub fn parse_palette(value: &str) -> (p: Palette)
    ensures
        p == palette_named(value@),
{
    let s: String = to_ascii_lower(value);
    let s: &str = s.as_str();
    if same_text(s, "forest") {
        Palette::Forest
    } else if same_text(s, "ocean") {
        Palette::Ocean
    } else if same_text(s, "slate") {
        Palette::Slate
    } else if same_text(s, "sand") {
        Palette::Sand
    } else if same_text(s, "graphite") {
        Palette::Graphite
    } else if same_text(s, "aubergine") {
        Palette::Aubergine
    } else if same_text(s, "copper") {
        Palette::Copper
    } else if same_text(s, "rose") {
        Palette::Rose
    } else if same_text(s, "ice") {
        Palette::Ice
    } else {
        Palette::Army
    }
}

pub fn parse_density(value: &str) -> (d: Density)
    ensures
        d == density_named(value@),
{
    if same_text(to_ascii_lower(value).as_str(), "compact") {
        Density::Compact
    } else {
        Density::Comfortable
    }
}

/// The characters of an optional text.
pub open spec fn chars(s: Option<String>) -> Option<Seq<char>> {
    match s {
        Some(s) => Some(s@),
        None => None,
    }
}

pub fn parse_mode(value: &Option<String>, legacy: &Option<String>) -> (m: BaseMode)
    ensures
        m == mode_named(chars(*value), chars(*legacy)),
{
    let name: String = match value {
        Some(value) => to_ascii_lower(value.as_str()),
        None => match legacy {
            Some(legacy) => to_ascii_lower(legacy.as_str()),
            None => to_ascii_lower("black"),
        },
    };
    if same_text(name.as_str(), "white") || same_text(name.as_str(), "light") {
        BaseMode::White
    } else {
        BaseMode::Black
    }
}

/// Whether a text is a color in the form `#rrggbb`.
pub fn is_color_text(value: &str) -> (r: bool)
    ensures
        r == is_color(value@),
{
    let c: Vec<char> = chars_of(value);
    c.len() == 7 && c[0] == '#' && is_hex_digit(c[1]) && is_hex_digit(c[2]) && is_hex_digit(c[3])
        && is_hex_digit(c[4]) && is_hex_digit(c[5]) && is_hex_digit(c[6])
}

pub fn normalize_color(value: String, fallback: String) -> (r: String)
    ensures
        r@ == color_or(value@, fallback@),
{
    if value.as_str().is_empty() {
        return String::new();
    }
    if is_color_text(value.as_str()) {
        to_ascii_lower(value.as_str())
    } else {
        fallback
    }
}

/// The zoom that the dashboard allows nearest to the one asked for.
pub fn clamp_zoom(percent: i32) -> (z: u16)
    ensures
        z == zoom_within(percent as int),
{
    if percent < 75 {
        75
    } else if percent > 200 {
        200
    } else {
        percent as u16
    }
}

/// A device of a settings file, with what the file leaves out left empty.
pub open spec fn device_from(w: DevicePresentationWire) -> DeviceModel {
    DeviceModel {
        friendly_name: match w.friendly_name {
            Some(s) => s@,
            None => Seq::empty(),
        },
        image_path: match w.image_path {
            Some(s) => s@,
            None => Seq::empty(),
        },
    }
}

/// The devices of a settings file; of two with one key, the later.
pub open spec fn devices_from(xs: Seq<(String, DevicePresentationWire)>) -> Map<
    Seq<char>,
    DeviceModel,
>
    decreases xs.len(),
{
    if xs.len() == 0 {
        Map::empty()
    } else {
        devices_from(xs.drop_last()).insert(xs.last().0@, device_from(xs.last().1))
    }
}

pub open spec fn updates_from(w: UpdatePreferencesWire) -> UpdatesModel {
    UpdatesModel {
        repository: match w.repository {
            Some(s) => s@,
            None => Seq::empty(),
        },
        artifact_template: match w.artifact_template {
            Some(s) => s@,
            None => default_updates().artifact_template,
        },
        automatic_check: match w.automatic_check {
            Some(b) => b,
            None => false,
        },
    }
}

/// The settings that a file stands for: what it says, within bounds, and the
/// defaults for what it leaves out.
pub open spec fn settings_from(w: PresentationSettingsWire) -> SettingsModel {
    let d = default_settings();
    SettingsModel {
        locale: match w.locale {
            Some(s) => s@,
            None => d.locale,
        },
        mode: mode_named(chars(w.mode), chars(w.theme)),
        palette: match w.palette {
            Some(s) => palette_named(s@),
            None => d.palette,
        },
        accent: match w.accent {
            Some(s) => color_or(s@, d.accent),
            None => d.accent,
        },
        titlebar_color: match w.titlebar_color {
            Some(s) => color_or(s@, d.titlebar_color),
            None => d.titlebar_color,
        },
        density: match w.density {
            Some(s) => density_named(s@),
            None => d.density,
        },
        zoom_percent: match w.zoom_percent {
            Some(z) => zoom_within(z as int),
            None => d.zoom_percent,
        },
        reduced_motion: match w.reduced_motion {
            Some(b) => b,
            None => false,
        },
        sidebar_open: match w.sidebar_open {
            Some(b) => b,
            None => true,
        },
        local_device: match w.local_device {
            Some(x) => device_from(x),
            None => no_device(),
        },
        devices: match w.devices {
            Some(xs) => devices_from(xs@),
            None => Map::empty(),
        },
        updates: match w.updates {
            Some(u) => updates_from(u),
            None => d.updates,
        },
    }
}

fn text_or(value: Option<String>, fallback: String) -> (r: String)
    ensures
        r@ == (match value {
            Some(s) => s@,
            None => fallback@,
        }),
{
    match value {
        Some(s) => s,
        None => fallback,
    }
}

impl DevicePresentation {
    pub fn from_wire(w: DevicePresentationWire) -> (d: DevicePresentation)
        ensures
            d@ == device_from(w),
    {
        DevicePresentation {
            friendly_name: text_or(w.friendly_name, String::new()),
            image_path: text_or(w.image_path, String::new()),
        }
    }
}

fn read_devices(xs: Vec<(String, DevicePresentationWire)>) -> (t: Table<String, DevicePresentation>)
    ensures
        devices_of(t@) == devices_from(xs@),
{
    let ghost all = xs@;
    let n: usize = xs.len();
    let mut rest: Vec<(String, DevicePresentationWire)> = xs;
    let mut t: Table<String, DevicePresentation> = Table::new();
    let mut i: usize = 0;
    assert(all.skip(0) =~= all);
    assert(devices_of(t@) =~= devices_from(all.take(0)));
    while i < n
        invariant
            i <= n,
            n == all.len(),
            rest@ == all.skip(i as int),
            devices_of(t@) == devices_from(all.take(i as int)),
        decreases n - i,
    {
        let (key, wire) = rest.remove(0);
        assert((key, wire) == all[i as int]);
        let ghost before = t@;
        let device: DevicePresentation = DevicePresentation::from_wire(wire);
        t.insert(key, device);
        assert(all.take(i + 1).drop_last() =~= all.take(i as int));
        assert(devices_of(t@) =~= devices_of(before).insert(key@, device@));
        assert(rest@ =~= all.skip(i + 1));
        i = i + 1;
    }
    assert(all.take(n as int) =~= all);
    t
}

impl PresentationSettings {
    /// The settings that a file stands for.
    pub fn from_wire(w: PresentationSettingsWire) -> (s: PresentationSettings)
        ensures
            s@ == settings_from(w),
    {
        let mode: BaseMode = parse_mode(&w.mode, &w.theme);
        let palette: Palette = match w.palette {
            Some(name) => parse_palette(name.as_str()),
            None => Palette::Army,
        };
        let accent: String = match w.accent {
            Some(value) => normalize_color(value, default_accent()),
            None => default_accent(),
        };
        let titlebar_color: String = match w.titlebar_color {
            Some(value) => normalize_color(value, default_titlebar_color()),
            None => default_titlebar_color(),
        };
        let density: Density = match w.density {
            Some(name) => parse_density(name.as_str()),
            None => Density::Comfortable,
        };
        let zoom_percent: u16 = match w.zoom_percent {
            Some(z) => clamp_zoom(z as i32),
            None => default_zoom_percent(),
        };
        let local_device: DevicePresentation = match w.local_device {
            Some(d) => DevicePresentation::from_wire(d),
            None => DevicePresentation::default(),
        };
        let devices: Table<String, DevicePresentation> = match w.devices {
            Some(xs) => read_devices(xs),
            None => Table::new(),
        };
        let updates: UpdatePreferences = match w.updates {
            Some(u) => UpdatePreferences {
                repository: text_or(u.repository, String::new()),
                artifact_template: text_or(u.artifact_template, default_update_artifact_template()),
                automatic_check: u.automatic_check.unwrap_or(false),
            },
            None => UpdatePreferences::default(),
        };
        let s: PresentationSettings = PresentationSettings {
            locale: text_or(w.locale, default_locale()),
            mode,
            palette,
            accent,
            titlebar_color,
            density,
            zoom_percent,
            reduced_motion: w.reduced_motion.unwrap_or(false),
            sidebar_open: w.sidebar_open.unwrap_or(default_sidebar()),
            local_device,
            devices,
            updates,
        };
        assert(s@.devices =~= settings_from(w).devices);
        s
    }

    /// The same settings once more.
    pub fn copy(&self) -> (s: PresentationSettings)
        ensures
            s@ == self@,
    {
        PresentationSettings {
            locale: self.locale.clone(),
            mode: self.mode,
            palette: self.palette,
            accent: self.accent.clone(),
            titlebar_color: self.titlebar_color.clone(),
            density: self.density,
            zoom_percent: self.zoom_percent,
            reduced_motion: self.reduced_motion,
            sidebar_open: self.sidebar_open,
            local_device: copy_device(&self.local_device),
            devices: copy_devices(&self.devices),
            updates: UpdatePreferences {
                repository: self.updates.repository.clone(),
                artifact_template: self.updates.artifact_template.clone(),
                automatic_check: self.updates.automatic_check,
            },
        }
    }
}

/// The same device once more.
pub fn copy_device(d: &DevicePresentation) -> (r: DevicePresentation)
    ensures
        r == *d,
{
    DevicePresentation { friendly_name: d.friendly_name.clone(), image_path: d.image_path.clone() }
}

/// The same devices once more.
pub fn copy_devices(t: &Table<String, DevicePresentation>) -> (r: Table<String, DevicePresentation>)
    ensures
        r@ == t@,
{
    let n: usize = t.len();
    let ghost rows = t.sequence();
    let mut r: Table<String, DevicePresentation> = Table::new();
    let mut i: usize = 0;
    proof {
        crate::table::lemma_mapping(rows);
    }
    while i < n
        invariant
            i <= n,
            n == rows.len(),
            rows == t.sequence(),
            crate::table::ordered(rows),
            t@ == crate::table::mapping(rows),
            forall|k: Seq<char>| #[trigger]
                r@.contains_key(k) ==> t@.contains_key(k) && r@[k] == t@[k],
            forall|j: int|
                0 <= j < i ==> r@.contains_key((#[trigger] rows[j]).0@),
        decreases n - i,
    {
        let row: &(String, DevicePresentation) = t.row(i);
        r.insert(row.0.clone(), copy_device(&row.1));
        i = i + 1;
    }
    proof {
        assert forall|k: Seq<char>| #[trigger] t@.contains_key(k) implies r@.contains_key(k) by {
            assert(crate::table::has_row(rows, k));
            let j = choose|j: int|
                0 <= j < rows.len() && crate::table::Key::model(&(#[trigger] rows[j]).0) == k;
            assert(r@.contains_key(rows[j].0@));
        }
        assert(r@ =~= t@);
    }
    r
}

// ---------------------------------------------------------------------------
// Writing a file
// ---------------------------------------------------------------------------

pub open spec fn palette_name(p: Palette) -> Seq<char> {
    match p {
        Palette::Army => "army"@,
        Palette::Forest => "forest"@,
        Palette::Ocean => "ocean"@,
        Palette::Slate => "slate"@,
        Palette::Sand => "sand"@,
        Palette::Graphite => "graphite"@,
        Palette::Aubergine => "aubergine"@,
        Palette::Copper => "copper"@,
        Palette::Rose => "rose"@,
        Palette::Ice => "ice"@,
    }
}

pub open spec fn mode_name(m: BaseMode) -> Seq<char> {
    match m {
        BaseMode::White => "white"@,
        BaseMode::Black => "black"@,
    }
}

pub open spec fn density_name(d: Density) -> Seq<char> {
    match d {
        Density::Comfortable => "Comfortable"@,
        Density::Compact => "Compact"@,
    }
}

impl Palette {
    /// The name of the palette.
    pub fn name(self) -> (s: &'static str)
        ensures
            s@ == palette_name(self),
    {
        match self {
            Palette::Army => "army",
            Palette::Forest => "forest",
            Palette::Ocean => "ocean",
            Palette::Slate => "slate",
            Palette::Sand => "sand",
            Palette::Graphite => "graphite",
            Palette::Aubergine => "aubergine",
            Palette::Copper => "copper",
            Palette::Rose => "rose",
            Palette::Ice => "ice",
        }
    }
}

impl BaseMode {
    /// The name of the mode.
    pub fn name(self) -> (s: &'static str)
        ensures
            s@ == mode_name(self),
    {
        match self {
            BaseMode::White => "white",
            BaseMode::Black => "black",
        }
    }
}

impl Density {
    /// The name of the density in a settings file.
    pub fn name(self) -> (s: &'static str)
        ensures
            s@ == density_name(self),
    {
        match self {
            Density::Comfortable => "Comfortable",
            Density::Compact => "Compact",
        }
    }
}

/// A file says of everything what the settings say.
pub open spec fn says(w: PresentationSettingsWire, m: SettingsModel) -> bool {
    &&& chars(w.locale) == Some(m.locale)
    &&& chars(w.mode) == Some(mode_name(m.mode))
    &&& chars(w.palette) == Some(palette_name(m.palette))
    &&& chars(w.accent) == Some(m.accent)
    &&& chars(w.titlebar_color) == Some(m.titlebar_color)
    &&& chars(w.density) == Some(density_name(m.density))
    &&& w.zoom_percent == Some(m.zoom_percent)
    &&& w.reduced_motion == Some(m.reduced_motion)
    &&& w.sidebar_open == Some(m.sidebar_open)
    &&& w.local_device is Some && device_from(w.local_device->Some_0) == m.local_device
    &&& w.devices is Some && devices_from(w.devices->Some_0@) == m.devices
    &&& w.updates is Some && updates_from(w.updates->Some_0) == m.updates
    &&& w.theme is None
}

impl DevicePresentation {
    fn to_wire(&self) -> (w: DevicePresentationWire)
        ensures
            device_from(w) == self@,
    {
        DevicePresentationWire {
            friendly_name: Some(self.friendly_name.clone()),
            image_path: Some(self.image_path.clone()),
        }
    }
}

fn write_devices(t: &Table<String, DevicePresentation>) -> (r: Vec<
    (String, DevicePresentationWire),
>)
    ensures
        devices_from(r@) == devices_of(t@),
{
    let n: usize = t.len();
    let ghost rows = t.sequence();
    let mut r: Vec<(String, DevicePresentationWire)> = Vec::new();
    let mut i: usize = 0;
    proof {
        crate::table::lemma_mapping(rows);
    }
    while i < n
        invariant
            i <= n,
            n == rows.len(),
            rows == t.sequence(),
            crate::table::ordered(rows),
            t@ == crate::table::mapping(rows),
            forall|k: Seq<char>| #[trigger]
                devices_from(r@).contains_key(k) ==> t@.contains_key(k) && devices_from(r@)[k]
                    == t@[k]@,
            forall|j: int|
                0 <= j < i ==> devices_from(r@).contains_key((#[trigger] rows[j]).0@),
        decreases n - i,
    {
        let ghost before = r@;
        let row: &(String, DevicePresentation) = t.row(i);
        let wire: DevicePresentationWire = row.1.to_wire();
        r.push((row.0.clone(), wire));
        assert(r@.drop_last() =~= before);
        assert(devices_from(r@) == devices_from(before).insert(row.0@, row.1@));
        i = i + 1;
    }
    proof {
        assert forall|k: Seq<char>| #[trigger] t@.contains_key(k) implies devices_from(
            r@,
        ).contains_key(k) by {
            assert(crate::table::has_row(rows, k));
            let j = choose|j: int|
                0 <= j < rows.len() && crate::table::Key::model(&(#[trigger] rows[j]).0) == k;
            assert(devices_from(r@).contains_key(rows[j].0@));
        }
        assert(devices_from(r@) =~= devices_of(t@));
    }
    r
}

impl PresentationSettings {
    /// What a settings file says of these settings.
    pub fn to_wire(&self) -> (w: PresentationSettingsWire)
        ensures
            says(w, self@),
    {
        PresentationSettingsWire {
            locale: Some(self.locale.clone()),
            mode: Some(self.mode.name().to_owned()),
            palette: Some(self.palette.name().to_owned()),
            accent: Some(self.accent.clone()),
            titlebar_color: Some(self.titlebar_color.clone()),
            density: Some(self.density.name().to_owned()),
            zoom_percent: Some(self.zoom_percent),
            reduced_motion: Some(self.reduced_motion),
            sidebar_open: Some(self.sidebar_open),
            local_device: Some(self.local_device.to_wire()),
            devices: Some(write_devices(&self.devices)),
            updates: Some(
                UpdatePreferencesWire {
                    repository: Some(self.updates.repository.clone()),
                    artifact_template: Some(self.updates.artifact_template.clone()),
                    automatic_check: Some(self.updates.automatic_check),
                },
            ),
            theme: None,
        }
    }
}

// ---------------------------------------------------------------------------
// Where the settings are kept
// ---------------------------------------------------------------------------

/// The systems that differ in where a user's files are kept.
#[derive(Clone, Copy, Debug, PartialEq, Eq, Structural)]
pub enum Host {
    Linux,
    Macos,
    Windows,
}

/// The letter of a drive, alone: what follows it is relative to where the drive is.
pub open spec fn is_drive(directory: Seq<char>) -> bool {
    directory.len() == 2 && is_letter(directory[0]) && directory[1] == ':'
}

/// The path of an entry below a directory.
pub open spec fn joined(directory: Seq<char>, name: Seq<char>, separator: char) -> Seq<char> {
    if directory.len() == 0 {
        name
    } else if directory.last() == separator || (separator == '\\' && (directory.last() == '/'
        || is_drive(directory))) {
        directory + name
    } else {
        directory.push(separator) + name
    }
}

pub open spec fn separator_of(host: Host) -> char {
    if host is Windows {
        '\\'
    } else {
        '/'
    }
}

/// The directory of the settings: that of the application below the one that
/// the system keeps for settings. `config` is the directory that the
/// environment names for settings, `home` the user's own.
pub open spec fn settings_directory(
    host: Host,
    config: Option<Seq<char>>,
    home: Option<Seq<char>>,
) -> Option<Seq<char>> {
    match host {
        Host::Windows => match config {
            Some(config) => Some(joined(config, "LanMouse"@, '\\')),
            None => None,
        },
        Host::Macos => match home {
            Some(home) => Some(
                joined(
                    joined(joined(home, "Library"@, '/'), "Application Support"@, '/'),
                    "LanMouse"@,
                    '/',
                ),
            ),
            None => None,
        },
        Host::Linux => match config {
            Some(config) => Some(joined(config, "lan-mouse"@, '/')),
            None => match home {
                Some(home) => Some(joined(joined(home, ".config"@, '/'), "lan-mouse"@, '/')),
                None => None,
            },
        },
    }
}

/// The path of an entry below a directory.
pub fn join_path(directory: String, name: &str, separator: char) -> (r: String)
    ensures
        r@ == joined(directory@, name@, separator),
{
    let chars: Vec<char> = chars_of(directory.as_str());
    if chars.len() == 0 {
        return name.to_owned();
    }
    let first: char = chars[0];
    let last: char = chars[chars.len() - 1];
    let drive: bool = chars.len() == 2 && ('a' <= first && first <= 'z' || 'A' <= first && first
        <= 'Z') && last == ':';
    let mut r: String = directory;
    if !(last == separator || (separator == '\\' && (last == '/' || drive))) {
        r.push(separator);
    }
    r.push_str(name);
    r
}

fn application_directory(host: Host, config: Option<String>, home: Option<String>) -> (r: Option<
    String,
>)
    ensures
        chars(r) == settings_directory(host, chars(config), chars(home)),
{
    match host {
        Host::Windows => match config {
            Some(config) => Some(join_path(config, "LanMouse", '\\')),
            None => None,
        },
        Host::Macos => match home {
            Some(home) => {
                let library: String = join_path(home, "Library", '/');
                let support: String = join_path(library, "Application Support", '/');
                Some(join_path(support, "LanMouse", '/'))
            },
            None => None,
        },
        Host::Linux => match config {
            Some(config) => Some(join_path(config, "lan-mouse", '/')),
            None => match home {
                Some(home) => Some(join_path(join_path(home, ".config", '/'), "lan-mouse", '/')),
                None => None,
            },
        },
    }
}

/// The file that holds the settings.
pub fn presentation_settings_path(host: Host, config: Option<String>, home: Option<String>) -> (r:
    Option<String>)
    ensures
        chars(r) == (match settings_directory(host, chars(config), chars(home)) {
            Some(d) => Some(joined(d, "presentation.json"@, separator_of(host))),
            None => None,
        }),
{
    match application_directory(host, config, home) {
        Some(directory) => Some(
            join_path(
                directory,
                "presentation.json",
                if let Host::Windows = host {
                    '\\'
                } else {
                    '/'
                },
            ),
        ),
        None => None,
    }
}

/// The directory that holds the pictures of devices, beside the settings.
pub fn identity_images_path(host: Host, config: Option<String>, home: Option<String>) -> (r: Option<
    String,
>)
    ensures
        chars(r) == (match settings_directory(host, chars(config), chars(home)) {
            Some(d) => Some(joined(d, "device-images"@, separator_of(host))),
            None => None,
        }),
{
    match application_directory(host, config, home) {
        Some(directory) => Some(
            join_path(
                directory,
                "device-images",
                if let Host::Windows = host {
                    '\\'
                } else {
                    '/'
                },
            ),
        ),
        None => None,
    }
}

/// The file from which the dashboard itself reads the settings: in the directory
/// of the application's present name.
pub open spec fn dashboard_file(
    host: Host,
    config: Option<Seq<char>>,
    home: Option<Seq<char>>,
) -> Option<Seq<char>> {
    match host {
        Host::Windows => match config {
            Some(config) => Some(
                joined(joined(config, "Syntra"@, '\\'), "presentation.json"@, '\\'),
            ),
            None => None,
        },
        Host::Macos => match home {
            Some(home) => Some(
                joined(
                    joined(
                        joined(joined(home, "Library"@, '/'), "Application Support"@, '/'),
                        "Syntra"@,
                        '/',
                    ),
                    "presentation.json"@,
                    '/',
                ),
            ),
            None => None,
        },
        Host::Linux => {
            let base = match config {
                Some(config) => Some(config),
                None => match home {
                    Some(home) => Some(joined(home, ".config"@, '/')),
                    None => None,
                },
            };
            match base {
                Some(base) => Some(joined(joined(base, "syntra"@, '/'), "presentation.json"@, '/')),
                None => None,
            }
        },
    }
}

/// The file from which the dashboard itself reads the settings.
pub fn dashboard_settings_path(host: Host, config: Option<String>, home: Option<String>) -> (r:
    Option<String>)
    ensures
        chars(r) == dashboard_file(host, chars(config), chars(home)),
{
    match host {
        Host::Windows => match config {
            Some(config) => Some(
                join_path(join_path(config, "Syntra", '\\'), "presentation.json", '\\'),
            ),
            None => None,
        },
        Host::Macos => match home {
            Some(home) => {
                let library: String = join_path(home, "Library", '/');
                let support: String = join_path(library, "Application Support", '/');
                Some(join_path(join_path(support, "Syntra", '/'), "presentation.json", '/'))
            },
            None => None,
        },
        Host::Linux => {
            let base: String = match config {
                Some(config) => config,
                None => match home {
                    Some(home) => join_path(home, ".config", '/'),
                    None => {
                        return None;
                    },
                },
            };
            Some(join_path(join_path(base, "syntra", '/'), "presentation.json", '/'))
        },
    }
}

// ---------------------------------------------------------------------------
// Laws
// ---------------------------------------------------------------------------

/// A file that says nothing stands for the defaults.
pub proof fn law_empty_file_is_default(w: PresentationSettingsWire)
    requires
        w.locale is None,
        w.mode is None,
        w.palette is None,
        w.accent is None,
        w.titlebar_color is None,
        w.density is None,
        w.zoom_percent is None,
        w.reduced_motion is None,
        w.sidebar_open is None,
        w.local_device is None,
        w.devices is None,
        w.updates is None,
        w.theme is None,
    ensures
        settings_from(w) == default_settings(),
{
    reveal_strlit("black");
    reveal_strlit("white");
    reveal_strlit("light");
    let s = lower("black"@);
    assert(s[0] == 'b');
    assert("white"@[0] == 'w');
    assert("light"@[0] == 'l');
}

/// Whatever a file says, the zoom is within bounds, and every color is one or
/// is left to the theme.
pub proof fn law_settings_are_within_bounds(w: PresentationSettingsWire)
    ensures
        75 <= settings_from(w).zoom_percent <= 200,
        settings_from(w).accent.len() == 0 || is_color(settings_from(w).accent),
        settings_from(w).titlebar_color.len() == 0 || is_color(settings_from(w).titlebar_color),
{
    reveal_strlit("#718355");
}

/// A color in small letters, or nothing.
pub open spec fn plain_color(s: Seq<char>) -> bool {
    s.len() == 0 || (is_color(s) && lower(s) == s)
}

/// Settings as a file yields them: the zoom within bounds, colors in small
/// letters.
pub open spec fn settled(m: SettingsModel) -> bool {
    75 <= m.zoom_percent <= 200 && plain_color(m.accent) && plain_color(m.titlebar_color)
}

proof fn lemma_color_settles(s: Seq<char>, fallback: Seq<char>)
    requires
        plain_color(fallback),
    ensures
        plain_color(color_or(s, fallback)),
{
    if s.len() > 0 && is_color(s) {
        let c = lower(s);
        assert forall|i: int| 1 <= i < 7 implies is_hex(#[trigger] c[i]) by {
            assert(is_hex(s[i]));
        }
        assert(lower(c) =~= c);
    }
}

/// Reading a file settles what it says.
pub proof fn law_reading_settles(w: PresentationSettingsWire)
    ensures
        settled(settings_from(w)),
{
    reveal_strlit("#718355");
    assert(lower("#718355"@) =~= "#718355"@);
    let d = default_settings();
    if w.accent is Some {
        lemma_color_settles(w.accent->Some_0@, d.accent);
    }
    if w.titlebar_color is Some {
        lemma_color_settles(w.titlebar_color->Some_0@, d.titlebar_color);
    }
}

/// What was saved is what is loaded: settled settings come back from the file
/// that they were written to.
pub proof fn law_saved_settings_come_back(w: PresentationSettingsWire, m: SettingsModel)
    requires
        settled(m),
        says(w, m),
    ensures
        settings_from(w) == m,
{
    reveal_strlit("army");
    reveal_strlit("forest");
    reveal_strlit("ocean");
    reveal_strlit("slate");
    reveal_strlit("sand");
    reveal_strlit("graphite");
    reveal_strlit("aubergine");
    reveal_strlit("copper");
    reveal_strlit("rose");
    reveal_strlit("ice");
    reveal_strlit("white");
    reveal_strlit("light");
    reveal_strlit("black");
    reveal_strlit("compact");
    reveal_strlit("Compact");
    reveal_strlit("Comfortable");
    assert("army"@[0] == 'a' && "forest"@[0] == 'f' && "ocean"@[0] == 'o' && "slate"@[0] == 's');
    assert("sand"@[0] == 's' && "graphite"@[0] == 'g' && "aubergine"@[0] == 'a');
    assert("copper"@[0] == 'c' && "rose"@[0] == 'r' && "ice"@[0] == 'i');
    let p = palette_name(m.palette);
    assert(lower(p) =~= p);
    assert(palette_named(p) == m.palette);
    let n = mode_name(m.mode);
    assert(lower(n) =~= n);
    assert(n[0] == if m.mode is White { 'w' } else { 'b' });
    assert("light"@[0] == 'l');
    assert("white"@[0] == 'w');
    assert(m.accent.len() == 0 ==> m.accent =~= Seq::<char>::empty());
    assert(m.titlebar_color.len() == 0 ==> m.titlebar_color =~= Seq::<char>::empty());
    let d = lower(density_name(m.density));
    if m.density is Compact {
        assert(d =~= "compact"@);
    } else {
        assert(d.len() == 11);
    }
}

} // verus!

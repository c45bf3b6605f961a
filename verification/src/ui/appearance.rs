//! What the dashboard looks like: the colors and sizes that the user's
//! preferences come to.
use crate::text::chars_of;
use crate::text::is_hex;
use crate::text::is_hex_digit;
use crate::text::byte_len;
use crate::text::len_of;
use crate::ui::settings::mode_name;
use crate::ui::settings::palette_name;
use crate::ui::settings::BaseMode;
use crate::ui::settings::Density;
use crate::ui::settings::Palette;
use crate::ui::settings::PresentationSettings;
use crate::ui::settings::SettingsModel;
use vstd::prelude::*;

verus! {

/// A color: red, green and blue.
#[derive(Clone, Copy, Debug, PartialEq, Eq, Structural)]
pub struct Rgb {
    pub r: u8,
    pub g: u8,
    pub b: u8,
}

/// The color that stands for one that cannot be read.
pub open spec fn fallback_color() -> Rgb {
    Rgb { r: 113, g: 131, b: 85 }
}

/// The color of a number: a byte for each part, red first.
pub open spec fn rgb_of(n: int) -> Rgb {
    Rgb { r: (n / 65536 % 256) as u8, g: (n / 256 % 256) as u8, b: (n % 256) as u8 }
}

/// What a hexadecimal digit stands for.
pub open spec fn hex_digit_value(c: char) -> int {
    if '0' <= c <= '9' {
        c as int - 48
    } else if 'a' <= c <= 'f' {
        c as int - 87
    } else {
        c as int - 55
    }
}

/// What hexadecimal digits stand for.
pub open spec fn hex_value(s: Seq<char>) -> int
    decreases s.len(),
{
    if s.len() == 0 {
        0
    } else {
        16 * hex_value(s.drop_last()) + hex_digit_value(s.last())
    }
}

/// Nothing but hexadecimal digits.
pub open spec fn all_hex(s: Seq<char>) -> bool {
    forall|i: int| 0 <= i < s.len() ==> is_hex(#[trigger] s[i])
}

/// The text of a color without the sign in front of it.
pub open spec fn raw_color(s: Seq<char>) -> Seq<char> {
    if s.len() > 0 && s[0] == '#' {
        s.drop_first()
    } else {
        s
    }
}

/// The color of a text: six hexadecimal digits, or a plus sign and five, with
/// or without a number sign in front. Any other text gives the fallback.
pub open spec fn color_of(s: Seq<char>) -> Rgb {
    let raw = raw_color(s);
    if byte_len(raw) != 6 {
        fallback_color()
    } else {
        let digits = if raw[0] == '+' {
            raw.drop_first()
        } else {
            raw
        };
        if all_hex(digits) {
            rgb_of(hex_value(digits))
        } else {
            fallback_color()
        }
    }
}

/// A text of six bytes has a first character.
proof fn lemma_six_bytes(s: Seq<char>)
    requires
        byte_len(s) == 6,
    ensures
        s.len() > 0,
{
    if s.len() == 0 {
        assert(s =~= Seq::<char>::empty());
    }
}

/// Fewer bytes hold no more characters.
proof fn lemma_chars_in_bytes(s: Seq<char>)
    ensures
        s.len() <= byte_len(s),
    decreases s.len(),
{
    if s.len() > 0 {
        lemma_chars_in_bytes(s.drop_first());
    }
}

/// Six hexadecimal digits make a number of three bytes at most.
proof fn lemma_hex_bound(s: Seq<char>)
    requires
        all_hex(s),
        s.len() <= 6,
    ensures
        0 <= hex_value(s),
        s.len() == 0 ==> hex_value(s) == 0,
        s.len() == 1 ==> hex_value(s) < 16,
        s.len() == 2 ==> hex_value(s) < 256,
        s.len() == 3 ==> hex_value(s) < 4096,
        s.len() == 4 ==> hex_value(s) < 65536,
        s.len() == 5 ==> hex_value(s) < 1048576,
        s.len() == 6 ==> hex_value(s) < 16777216,
    decreases s.len(),
{
    if s.len() > 0 {
        assert(is_hex(s[s.len() - 1]));
        assert forall|i: int| 0 <= i < s.drop_last().len() implies is_hex(
            #[trigger] s.drop_last()[i],
        ) by {
            assert(is_hex(s[i]));
        }
        lemma_hex_bound(s.drop_last());
    }
}

/// The color of a number below 2^24.
pub fn rgb(n: u32) -> (c: Rgb)
    ensures
        c == rgb_of(n as int),
{
    Rgb { r: (n / 65536 % 256) as u8, g: (n / 256 % 256) as u8, b: (n % 256) as u8 }
}

fn hex_digit_number(c: char) -> (d: u32)
    requires
        is_hex(c),
    ensures
        d == hex_digit_value(c),
        d < 16,
{
    if '0' <= c && c <= '9' {
        c as u32 - 48
    } else if 'a' <= c && c <= 'f' {
        c as u32 - 87
    } else {
        c as u32 - 55
    }
}

/// The color of a text.
pub fn hex_color(value: &str) -> (c: Rgb)
    ensures
        c == color_of(value@),
{
    let fallback: Rgb = Rgb { r: 113, g: 131, b: 85 };
    let all: Vec<char> = chars_of(value);
    let skip: usize = if all.len() > 0 && all[0] == '#' {
        1
    } else {
        0
    };
    let raw: &[char] = vstd::slice::slice_subrange(all.as_slice(), skip, all.len());
    assert(raw@ =~= raw_color(value@));
    let text: String = crate::text::string_of(raw);
    if len_of(text.as_str()) != 6 {
        return fallback;
    }
    proof {
        lemma_six_bytes(raw@);
        lemma_chars_in_bytes(raw@);
    }
    let start: usize = if raw[0] == '+' {
        1
    } else {
        0
    };
    let ghost digits = if raw@[0] == '+' {
        raw@.drop_first()
    } else {
        raw@
    };
    assert(digits =~= raw@.skip(start as int));
    let mut n: u32 = 0;
    let mut i: usize = start;
    assert(digits.take(0) =~= Seq::<char>::empty());
    while i < raw.len()
        invariant
            start <= i <= raw@.len(),
            start <= 1,
            raw@.len() <= 6,
            fallback == fallback_color(),
            byte_len(raw_color(value@)) == 6,
            raw@ == raw_color(value@),
            digits == raw@.skip(start as int),
            digits == (if raw@[0] == '+' {
                raw@.drop_first()
            } else {
                raw@
            }),
            n == hex_value(digits.take(i - start)),
            all_hex(digits.take(i - start)),
        decreases raw@.len() - i,
    {
        let c: char = raw[i];
        assert(digits[i - start] == c);
        if !is_hex_digit(c) {
            assert(!all_hex(digits));
            return fallback;
        }
        proof {
            let shorter = digits.take(i - start);
            let longer = digits.take(i + 1 - start);
            assert(longer.drop_last() =~= shorter);
            assert forall|j: int| 0 <= j < longer.len() implies is_hex(#[trigger] longer[j]) by {
                if j < i - start {
                    assert(is_hex(shorter[j]));
                }
            }
            lemma_hex_bound(shorter);
        }
        n = n * 16 + hex_digit_number(c);
        i = i + 1;
    }
    proof {
        assert(digits.take(digits.len() as int) =~= digits);
        lemma_hex_bound(digits);
    }
    rgb(n)
}

// ---------------------------------------------------------------------------
// Palettes
// ---------------------------------------------------------------------------
//
// Ten colors each: surface, elevated surface, header, sidebar, border, text,
// muted text, selection, hover and pressed surface.

pub const WHITE_ARMY: [u32; 10] = [
    0xf7f8f2,
    0xeff1e6,
    0xfbfbf8,
    0xf2f4e9,
    0xcfd3bb,
    0x222617,
    0x646a4f,
    0xe1e5cf,
    0xebeddf,
    0xdfe3d2,
];

pub const WHITE_FOREST: [u32; 10] = [
    0xf5faf6,
    0xedf5ef,
    0xf8fcf9,
    0xeef7f0,
    0xc5d8c9,
    0x17261b,
    0x52695a,
    0xd8eadc,
    0xe7f2e9,
    0xdbe9de,
];

pub const WHITE_OCEAN: [u32; 10] = [
    0xf4f9fc,
    0xeaf3f8,
    0xf8fbfd,
    0xecf6fb,
    0xbfd3df,
    0x142630,
    0x4b6674,
    0xd3e8f3,
    0xe3f0f6,
    0xd5e7f0,
];

pub const WHITE_SLATE: [u32; 10] = [
    0xf6f8fa,
    0xedf1f5,
    0xfafbfc,
    0xeef2f6,
    0xc7d0d9,
    0x1b232c,
    0x56636f,
    0xdce3ea,
    0xe8edf2,
    0xdce3e9,
];

pub const WHITE_SAND: [u32; 10] = [
    0xfbf8f1,
    0xf4eddf,
    0xfdfbf7,
    0xf7f0e3,
    0xddcfb7,
    0x2a2115,
    0x74644d,
    0xeee0c6,
    0xf3ead9,
    0xe9dcc6,
];

pub const WHITE_GRAPHITE: [u32; 10] = [
    0xf7f7f7,
    0xeeeeee,
    0xfbfbfb,
    0xf1f1f1,
    0xcccccc,
    0x202020,
    0x626262,
    0xdfdfdf,
    0xe9e9e9,
    0xdddddd,
];

pub const WHITE_AUBERGINE: [u32; 10] = [
    0xfaf6fa,
    0xf3ebf3,
    0xfcf9fc,
    0xf7eef7,
    0xdac6da,
    0x29182a,
    0x705671,
    0xead8ea,
    0xf1e5f1,
    0xe7d8e7,
];

pub const WHITE_COPPER: [u32; 10] = [
    0xfbf7f4,
    0xf4ece6,
    0xfdfaf8,
    0xf8efe9,
    0xdecbbf,
    0x2b1d16,
    0x755d50,
    0xecdccf,
    0xf3e8e1,
    0xe9dacf,
];

pub const WHITE_ROSE: [u32; 10] = [
    0xfcf6f8,
    0xf6eaf0,
    0xfef9fb,
    0xfaedf2,
    0xe0c4cf,
    0x2d1821,
    0x795663,
    0xf0d7e0,
    0xf6e5eb,
    0xecd6de,
];

pub const WHITE_ICE: [u32; 10] = [
    0xf3fafc,
    0xe8f4f7,
    0xf8fcfd,
    0xeaf7f9,
    0xbdd8de,
    0x14272c,
    0x4b6970,
    0xd0e9ee,
    0xe0f1f4,
    0xd2e7eb,
];

pub const BLACK_ARMY: [u32; 10] = [
    0x14180f,
    0x20261a,
    0x0e110a,
    0x11150d,
    0x3a4430,
    0xf1f4eb,
    0xb1b9a4,
    0x333e28,
    0x283121,
    0x36422b,
];

pub const BLACK_FOREST: [u32; 10] = [
    0x101b13,
    0x19261d,
    0x0b160e,
    0x0d1810,
    0x304536,
    0xedf6ef,
    0xa9bbaa,
    0x274331,
    0x1e3024,
    0x294034,
];

pub const BLACK_OCEAN: [u32; 10] = [
    0x0e1b24,
    0x172833,
    0x091620,
    0x0b1922,
    0x2c4655,
    0xedf6fa,
    0xa4b9c4,
    0x203f50,
    0x1b3240,
    0x254353,
];

pub const BLACK_SLATE: [u32; 10] = [
    0x121920,
    0x1c252e,
    0x0d1319,
    0x10171e,
    0x34424e,
    0xf0f4f7,
    0xa9b4bd,
    0x2b3945,
    0x222d36,
    0x2d3a45,
];

pub const BLACK_SAND: [u32; 10] = [
    0x201a11,
    0x2d2518,
    0x19140c,
    0x1d170e,
    0x4b3d27,
    0xfaf3e7,
    0xc5b69d,
    0x47391f,
    0x382e1e,
    0x493b26,
];

pub const BLACK_GRAPHITE: [u32; 10] = [
    0x151515,
    0x212121,
    0x0e0e0e,
    0x121212,
    0x3b3b3b,
    0xf3f3f3,
    0xb5b5b5,
    0x343434,
    0x292929,
    0x373737,
];

pub const BLACK_AUBERGINE: [u32; 10] = [
    0x201220,
    0x2e1b2f,
    0x170d17,
    0x1c101c,
    0x49324a,
    0xf8eef8,
    0xbea9bf,
    0x432a44,
    0x352238,
    0x472e49,
];

pub const BLACK_COPPER: [u32; 10] = [
    0x22150f,
    0x301f17,
    0x1a100b,
    0x1e120d,
    0x4e382d,
    0xfaefe9,
    0xc5aea2,
    0x493024,
    0x39261d,
    0x4a3227,
];

pub const BLACK_ROSE: [u32; 10] = [
    0x231219,
    0x321c25,
    0x1b0d13,
    0x1f1017,
    0x50323d,
    0xfbeef3,
    0xc8a8b4,
    0x4c2936,
    0x3c202b,
    0x4e2c39,
];

pub const BLACK_ICE: [u32; 10] = [
    0x0f1e24,
    0x182b33,
    0x0a181d,
    0x0c1b21,
    0x2d4852,
    0xedf8fa,
    0xa5bdc3,
    0x21434d,
    0x1b353e,
    0x264651,
];

/// The colors of a palette in a mode.
pub open spec fn palette_colors(mode: BaseMode, palette: Palette) -> [u32; 10] {
    match (mode, palette) {
        (BaseMode::White, Palette::Army) => WHITE_ARMY,
        (BaseMode::White, Palette::Forest) => WHITE_FOREST,
        (BaseMode::White, Palette::Ocean) => WHITE_OCEAN,
        (BaseMode::White, Palette::Slate) => WHITE_SLATE,
        (BaseMode::White, Palette::Sand) => WHITE_SAND,
        (BaseMode::White, Palette::Graphite) => WHITE_GRAPHITE,
        (BaseMode::White, Palette::Aubergine) => WHITE_AUBERGINE,
        (BaseMode::White, Palette::Copper) => WHITE_COPPER,
        (BaseMode::White, Palette::Rose) => WHITE_ROSE,
        (BaseMode::White, Palette::Ice) => WHITE_ICE,
        (BaseMode::Black, Palette::Army) => BLACK_ARMY,
        (BaseMode::Black, Palette::Forest) => BLACK_FOREST,
        (BaseMode::Black, Palette::Ocean) => BLACK_OCEAN,
        (BaseMode::Black, Palette::Slate) => BLACK_SLATE,
        (BaseMode::Black, Palette::Sand) => BLACK_SAND,
        (BaseMode::Black, Palette::Graphite) => BLACK_GRAPHITE,
        (BaseMode::Black, Palette::Aubergine) => BLACK_AUBERGINE,
        (BaseMode::Black, Palette::Copper) => BLACK_COPPER,
        (BaseMode::Black, Palette::Rose) => BLACK_ROSE,
        (BaseMode::Black, Palette::Ice) => BLACK_ICE,
    }
}

fn swatch(mode: BaseMode, palette: Palette) -> (c: [u32; 10])
    ensures
        c == palette_colors(mode, palette),
{
    match (mode, palette) {
        (BaseMode::White, Palette::Army) => WHITE_ARMY,
        (BaseMode::White, Palette::Forest) => WHITE_FOREST,
        (BaseMode::White, Palette::Ocean) => WHITE_OCEAN,
        (BaseMode::White, Palette::Slate) => WHITE_SLATE,
        (BaseMode::White, Palette::Sand) => WHITE_SAND,
        (BaseMode::White, Palette::Graphite) => WHITE_GRAPHITE,
        (BaseMode::White, Palette::Aubergine) => WHITE_AUBERGINE,
        (BaseMode::White, Palette::Copper) => WHITE_COPPER,
        (BaseMode::White, Palette::Rose) => WHITE_ROSE,
        (BaseMode::White, Palette::Ice) => WHITE_ICE,
        (BaseMode::Black, Palette::Army) => BLACK_ARMY,
        (BaseMode::Black, Palette::Forest) => BLACK_FOREST,
        (BaseMode::Black, Palette::Ocean) => BLACK_OCEAN,
        (BaseMode::Black, Palette::Slate) => BLACK_SLATE,
        (BaseMode::Black, Palette::Sand) => BLACK_SAND,
        (BaseMode::Black, Palette::Graphite) => BLACK_GRAPHITE,
        (BaseMode::Black, Palette::Aubergine) => BLACK_AUBERGINE,
        (BaseMode::Black, Palette::Copper) => BLACK_COPPER,
        (BaseMode::Black, Palette::Rose) => BLACK_ROSE,
        (BaseMode::Black, Palette::Ice) => BLACK_ICE,
    }
}

/// Lengths in hundredths of a logical pixel.
#[derive(Clone, Copy, Debug, PartialEq, Eq, Structural)]
pub struct Metrics {
    pub spacing: u32,
    pub small_spacing: u32,
    pub large_spacing: u32,
    pub content_gap: u32,
    pub card_padding: u32,
    pub control_height: u32,
    pub row_height: u32,
    pub body_size: u32,
    pub caption_size: u32,
    pub title_size: u32,
    pub sidebar_expanded_width: u32,
    pub sidebar_collapsed_width: u32,
    pub nav_item_height: u32,
}

/// The colors, sizes and labels of the dashboard.
#[derive(Clone, Copy, Debug)]
pub struct Theme {
    pub background: Rgb,
    pub surface: Rgb,
    pub elevated_surface: Rgb,
    pub header: Rgb,
    pub sidebar: Rgb,
    pub border: Rgb,
    pub text: Rgb,
    pub muted_text: Rgb,
    pub selection: Rgb,
    pub hover_surface: Rgb,
    pub pressed_surface: Rgb,
    pub success: Rgb,
    pub warning: Rgb,
    pub danger: Rgb,
    pub accent: Rgb,
    pub titlebar: Rgb,
    pub motion_enabled: bool,
    /// In percent.
    pub density_scale: u32,
    pub metrics: Metrics,
    pub base_mode: &'static str,
    pub palette: &'static str,
    pub density: &'static str,
}

/// The sizes at a zoom, denser or not.
pub open spec fn metrics_at(zoom: int, compact: bool) -> Metrics {
    Metrics {
        spacing: (zoom * if compact {
            12
        } else {
            16int
        }) as u32,
        small_spacing: (zoom * if compact {
            6
        } else {
            8int
        }) as u32,
        large_spacing: (zoom * if compact {
            24
        } else {
            32int
        }) as u32,
        content_gap: (zoom * 24) as u32,
        card_padding: (zoom * if compact {
            16
        } else {
            20int
        }) as u32,
        control_height: (zoom * if compact {
            40
        } else {
            44int
        }) as u32,
        row_height: (zoom * if compact {
            56
        } else {
            64int
        }) as u32,
        body_size: (zoom * 16) as u32,
        caption_size: (zoom * 14) as u32,
        title_size: (zoom * 26) as u32,
        sidebar_expanded_width: (zoom * 248) as u32,
        sidebar_collapsed_width: (zoom * 68) as u32,
        nav_item_height: (zoom * 48) as u32,
    }
}

/// The theme is the one that the settings come to.
pub open spec fn themed(t: Theme, m: SettingsModel) -> bool {
    let dark = m.mode is Black;
    let compact = m.density is Compact;
    let c = palette_colors(m.mode, m.palette)@;
    &&& t.background == (if dark {
        Rgb { r: 0, g: 0, b: 0 }
    } else {
        Rgb { r: 255, g: 255, b: 255 }
    })
    &&& t.surface == rgb_of(c[0] as int)
    &&& t.elevated_surface == rgb_of(c[1] as int)
    &&& t.header == rgb_of(c[2] as int)
    &&& t.sidebar == rgb_of(c[3] as int)
    &&& t.border == rgb_of(c[4] as int)
    &&& t.text == rgb_of(c[5] as int)
    &&& t.muted_text == rgb_of(c[6] as int)
    &&& t.selection == rgb_of(c[7] as int)
    &&& t.hover_surface == rgb_of(c[8] as int)
    &&& t.pressed_surface == rgb_of(c[9] as int)
    &&& t.success == rgb_of(if dark {
        0x8bd5a5
    } else {
        0x247a45
    })
    &&& t.warning == rgb_of(if dark {
        0xf5c36b
    } else {
        0x8a5a00
    })
    &&& t.danger == rgb_of(if dark {
        0xf28b82
    } else {
        0xb83a3a
    })
    &&& t.accent == color_of(m.accent)
    &&& t.titlebar == (if m.titlebar_color.len() == 0 {
        t.header
    } else {
        color_of(m.titlebar_color)
    })
    &&& t.motion_enabled == !m.reduced_motion
    &&& t.density_scale == (if compact {
        85
    } else {
        100int
    })
    &&& t.metrics == metrics_at(m.zoom_percent as int, compact)
    &&& t.base_mode@ == mode_name(m.mode)
    &&& t.palette@ == palette_name(m.palette)
    &&& t.density@ == (if compact {
        "compact"@
    } else {
        "comfortable"@
    })
}

fn metrics(zoom: u32, compact: bool) -> (r: Metrics)
    requires
        zoom <= 65535,
    ensures
        r == metrics_at(zoom as int, compact),
{
    Metrics {
        spacing: zoom * if compact {
            12
        } else {
            16
        },
        small_spacing: zoom * if compact {
            6
        } else {
            8
        },
        large_spacing: zoom * if compact {
            24
        } else {
            32
        },
        content_gap: zoom * 24,
        card_padding: zoom * if compact {
            16
        } else {
            20
        },
        control_height: zoom * if compact {
            40
        } else {
            44
        },
        row_height: zoom * if compact {
            56
        } else {
            64
        },
        body_size: zoom * 16,
        caption_size: zoom * 14,
        title_size: zoom * 26,
        sidebar_expanded_width: zoom * 248,
        sidebar_collapsed_width: zoom * 68,
        nav_item_height: zoom * 48,
    }
}

/// The theme that the settings come to.
pub fn apply_appearance(settings: &PresentationSettings) -> (t: Theme)
    ensures
        themed(t, settings@),
{
    let dark: bool = settings.mode == BaseMode::Black;
    let compact: bool = settings.density == Density::Compact;
    let c: [u32; 10] = swatch(settings.mode, settings.palette);
    let header: Rgb = rgb(c[2]);
    Theme {
        background: if dark {
            Rgb { r: 0, g: 0, b: 0 }
        } else {
            Rgb { r: 255, g: 255, b: 255 }
        },
        surface: rgb(c[0]),
        elevated_surface: rgb(c[1]),
        header,
        sidebar: rgb(c[3]),
        border: rgb(c[4]),
        text: rgb(c[5]),
        muted_text: rgb(c[6]),
        selection: rgb(c[7]),
        hover_surface: rgb(c[8]),
        pressed_surface: rgb(c[9]),
        success: rgb(if dark { 0x8bd5a5 } else { 0x247a45 }),
        warning: rgb(if dark { 0xf5c36b } else { 0x8a5a00 }),
        danger: rgb(if dark { 0xf28b82 } else { 0xb83a3a }),
        accent: hex_color(settings.accent.as_str()),
        titlebar: if settings.titlebar_color.as_str().is_empty() {
            header
        } else {
            hex_color(settings.titlebar_color.as_str())
        },
        motion_enabled: !settings.reduced_motion,
        density_scale: if compact { 85 } else { 100 },
        metrics: metrics(settings.zoom_percent as u32, compact),
        base_mode: settings.mode.name(),
        palette: settings.palette.name(),
        density: if compact { "compact" } else { "comfortable" },
    }
}

} // verus!

//! The theme that settings come to.
use syntra::ui::appearance::{apply_appearance, hex_color, rgb, Rgb};
use syntra::ui::settings::{BaseMode, Density, Palette, PresentationSettings};

fn color(r: u8, g: u8, b: u8) -> Rgb {
    Rgb { r, g, b }
}

#[test]
fn colors_are_read_from_six_digits() {
    assert_eq!(hex_color("#102a3F"), color(0x10, 0x2a, 0x3f));
    assert_eq!(hex_color("102a3f"), color(0x10, 0x2a, 0x3f));
    assert_eq!(hex_color("+12345"), color(0x01, 0x23, 0x45));
    assert_eq!(hex_color("#12345"), color(113, 131, 85));
    assert_eq!(hex_color("\u{e9}\u{e9}\u{e9}"), color(113, 131, 85));
    assert_eq!(hex_color(""), color(113, 131, 85));
    assert_eq!(rgb(0xff8001), color(255, 128, 1));
}

#[test]
fn a_theme_follows_mode_palette_and_density() {
    let mut settings = PresentationSettings::default();
    settings.mode = BaseMode::Black;
    settings.palette = Palette::Ocean;
    settings.density = Density::Compact;
    settings.zoom_percent = 150;
    settings.accent = "#010203".into();
    settings.titlebar_color = String::new();
    settings.reduced_motion = true;
    let theme = apply_appearance(&settings);
    assert_eq!(theme.background, color(0, 0, 0));
    assert_eq!(theme.accent, color(1, 2, 3));
    assert_eq!(theme.titlebar, theme.header);
    assert_eq!(theme.danger, color(0xf2, 0x8b, 0x82));
    assert!(!theme.motion_enabled);
    assert_eq!(theme.density_scale, 85);
    assert_eq!(theme.metrics.spacing, 1800);
    assert_eq!(theme.metrics.nav_item_height, 7200);
    assert_eq!((theme.base_mode, theme.palette, theme.density), ("black", "ocean", "compact"));
    settings.mode = BaseMode::White;
    settings.titlebar_color = "#a0b0c0".into();
    let theme = apply_appearance(&settings);
    assert_eq!(theme.background, color(255, 255, 255));
    assert_eq!(theme.surface, color(0xf4, 0xf9, 0xfc));
    assert_eq!(theme.titlebar, color(0xa0, 0xb0, 0xc0));
}

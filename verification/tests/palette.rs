use idlescreen::palette::{
    dim_percent, fallback_accent, query_current_palette, PaletteShades, ScreenPalette, TerminalCell,
};

fn sum(rgb: (u8, u8, u8)) -> u32 {
    (rgb.0 as u32) + (rgb.1 as u32) + (rgb.2 as u32)
}

/// Stand-in derived shades: the palette's mode decisions do not depend on them.
fn shades() -> PaletteShades {
    PaletteShades { dim: (10, 20, 30), hot: (200, 100, 50), cool: (50, 100, 200) }
}

#[test]
fn default_dark_has_dark_bg() {
    let p = ScreenPalette::default_dark(shades());
    assert!(sum(p.bg) < 128 * 3);
}

#[test]
fn default_light_has_light_bg() {
    let p = ScreenPalette::default_light(shades());
    assert!(sum(p.bg) > 128 * 3);
}

#[test]
fn default_dark_and_light_have_dark_and_light_fg() {
    let dark = ScreenPalette::default_dark(shades());
    let light = ScreenPalette::default_light(shades());
    assert!(sum(dark.fg) > sum(dark.bg));
    assert!(sum(light.fg) < sum(light.bg));
}

#[test]
fn high_contrast_dark_polarizes() {
    let p = ScreenPalette::high_contrast((0, 200, 100), true, shades());
    assert_eq!(p.bg, (0, 0, 0));
    assert_eq!(p.fg, (255, 255, 255));
}

#[test]
fn high_contrast_light_polarizes() {
    let p = ScreenPalette::high_contrast((0, 200, 100), false, shades());
    assert_eq!(p.bg, (255, 255, 255));
    assert_eq!(p.fg, (0, 0, 0));
}

#[test]
fn high_contrast_polarizes_extremes() {
    let p = ScreenPalette::high_contrast((128, 128, 128), true, shades());
    let sum_fg = sum(p.fg);
    let sum_bg = sum(p.bg);
    assert!(sum_fg.abs_diff(sum_bg) > 200);
}

#[test]
fn palette_default_uses_dark_mode() {
    let p = ScreenPalette::from_system(fallback_accent(), true, shades());
    assert_eq!(p.bg, (0, 0, 0));
}

#[test]
fn palette_keeps_accent_and_shades() {
    let p = ScreenPalette::from_system((1, 2, 3), false, shades());
    assert_eq!(p.accent, (1, 2, 3));
    assert_eq!(p.dim, (10, 20, 30));
    assert_eq!(p.mid, (160, 160, 160));
    assert_eq!(p.peak, (255, 255, 255));
    assert_eq!(dim_percent(true), 35);
    assert_eq!(dim_percent(false), 70);
}

#[test]
fn default_cell_is_blank() {
    let c = TerminalCell::default();
    assert_eq!(c, TerminalCell { ch: ' ', fg: (248, 248, 242), bg: (0, 0, 0), bold: false });
}

#[test]
fn registered_palette_wins_over_fallback() {
    let registered = ScreenPalette::high_contrast((1, 2, 3), false, shades());
    assert_eq!(query_current_palette(Some(registered), shades()), registered);
    let fallback = query_current_palette(None, shades());
    assert_eq!(fallback.accent, (46, 204, 113));
    assert_eq!(fallback.bg, (0, 0, 0));
    assert_eq!(fallback.fg, (248, 248, 242));
    assert_eq!(fallback.dim, shades().dim);
}

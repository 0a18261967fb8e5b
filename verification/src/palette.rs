//! The screen palette screensavers draw with, and the character cell they
//! draw into.
//!
//! The palette's derived shades (a dimmed accent and two hue rotations) are
//! colour-space arithmetic done outside; which colours a light or dark,
//! normal or high-contrast palette uses is decided here.

use vstd::prelude::*;

verus! {

/// A single cell in a character-grid renderer.
#[derive(Clone, Copy, PartialEq, Eq, Debug)]
pub struct TerminalCell {
    pub ch: char,
    pub fg: (u8, u8, u8),
    pub bg: (u8, u8, u8),
    pub bold: bool,
}

impl Default for TerminalCell {
    /// A blank cell: a space in near-white on black, not bold.
    fn default() -> (c: Self)
        ensures
            c.ch == ' ',
            c.fg == (248u8, 248u8, 242u8),
            c.bg == (0u8, 0u8, 0u8),
            !c.bold,
    {
        TerminalCell { ch: ' ', fg: (248, 248, 242), bg: (0, 0, 0), bold: false }
    }
}

/// The shades a palette derives from its accent colour: the accent dimmed,
/// and the accent's hue turned warmer and cooler.
#[derive(Clone, Copy, PartialEq, Eq, Debug)]
pub struct PaletteShades {
    pub dim: (u8, u8, u8),
    pub hot: (u8, u8, u8),
    pub cool: (u8, u8, u8),
}

/// The screen palette.
#[derive(Clone, Copy, PartialEq, Eq, Debug)]
pub struct ScreenPalette {
    pub bg: (u8, u8, u8),
    pub fg: (u8, u8, u8),
    pub accent: (u8, u8, u8),
    pub dim: (u8, u8, u8),
    pub hot: (u8, u8, u8),
    pub cool: (u8, u8, u8),
    pub mid: (u8, u8, u8),
    pub peak: (u8, u8, u8),
}

/// Percent of the accent kept in the dimmed shade: 35 on dark backgrounds,
/// 70 on light ones.
pub open spec fn dim_percent_spec(is_dark_mode: bool) -> u32 {
    if is_dark_mode {
        35
    } else {
        70
    }
}

/// Percent of the accent kept in the dimmed shade of a palette in this mode.
pub fn dim_percent(is_dark_mode: bool) -> (p: u32)
    ensures
        p == dim_percent_spec(is_dark_mode),
{
    if is_dark_mode {
        35
    } else {
        70
    }
}

/// The palette of the system accent `accent` in dark or light mode, with the
/// shades derived from that accent.
pub open spec fn system_palette(accent: (u8, u8, u8), is_dark_mode: bool, shades: PaletteShades) -> ScreenPalette {
    if is_dark_mode {
        ScreenPalette {
            bg: (0, 0, 0),
            fg: (248, 248, 242),
            accent,
            dim: shades.dim,
            hot: shades.hot,
            cool: shades.cool,
            mid: (128, 128, 128),
            peak: (255, 255, 255),
        }
    } else {
        ScreenPalette {
            bg: (252, 252, 250),
            fg: (40, 42, 54),
            accent,
            dim: shades.dim,
            hot: shades.hot,
            cool: shades.cool,
            mid: (160, 160, 160),
            peak: (255, 255, 255),
        }
    }
}

/// Accent of the default dark palette.
pub open spec fn default_dark_accent_spec() -> (u8, u8, u8) {
    (0, 245, 255)
}

/// Accent of the default light palette.
pub open spec fn default_light_accent_spec() -> (u8, u8, u8) {
    (0, 180, 200)
}

/// Accent of the palette used when the host supplies none.
pub open spec fn fallback_accent_spec() -> (u8, u8, u8) {
    (46, 204, 113)
}

/// Accent of the default dark palette.
pub fn default_dark_accent() -> (a: (u8, u8, u8))
    ensures
        a == default_dark_accent_spec(),
{
    (0, 245, 255)
}

/// Accent of the default light palette.
pub fn default_light_accent() -> (a: (u8, u8, u8))
    ensures
        a == default_light_accent_spec(),
{
    (0, 180, 200)
}

/// Accent of the palette used when the host supplies none (dark mode).
pub fn fallback_accent() -> (a: (u8, u8, u8))
    ensures
        a == fallback_accent_spec(),
{
    (46, 204, 113)
}

impl ScreenPalette {
    /// The palette for the system accent in dark or light mode; `shades` are
    /// the accent's derived shades (dimmed by [`dim_percent`] for the mode).
    pub fn from_system(accent: (u8, u8, u8), is_dark_mode: bool, shades: PaletteShades) -> (p: Self)
        ensures
            p == system_palette(accent, is_dark_mode, shades),
    {
        if is_dark_mode {
            ScreenPalette {
                bg: (0, 0, 0),
                fg: (248, 248, 242),
                accent,
                dim: shades.dim,
                hot: shades.hot,
                cool: shades.cool,
                mid: (128, 128, 128),
                peak: (255, 255, 255),
            }
        } else {
            ScreenPalette {
                bg: (252, 252, 250),
                fg: (40, 42, 54),
                accent,
                dim: shades.dim,
                hot: shades.hot,
                cool: shades.cool,
                mid: (160, 160, 160),
                peak: (255, 255, 255),
            }
        }
    }

    /// The system palette with background and foreground pushed to black and
    /// white (which one is which follows the mode).
    pub fn high_contrast(accent: (u8, u8, u8), is_dark_mode: bool, shades: PaletteShades) -> (p: Self)
        ensures
            p == (if is_dark_mode {
                ScreenPalette {
                    bg: (0, 0, 0),
                    fg: (255, 255, 255),
                    ..system_palette(accent, is_dark_mode, shades)
                }
            } else {
                ScreenPalette {
                    bg: (255, 255, 255),
                    fg: (0, 0, 0),
                    ..system_palette(accent, is_dark_mode, shades)
                }
            }),
    {
        let mut p = Self::from_system(accent, is_dark_mode, shades);
        if is_dark_mode {
            p.bg = (0, 0, 0);
            p.fg = (255, 255, 255);
        } else {
            p.bg = (255, 255, 255);
            p.fg = (0, 0, 0);
        }
        p
    }

    /// The default dark palette; `shades` derive from [`default_dark_accent`].
    pub fn default_dark(shades: PaletteShades) -> (p: Self)
        ensures
            p == system_palette(default_dark_accent_spec(), true, shades),
    {
        Self::from_system(default_dark_accent(), true, shades)
    }

    /// The default light palette; `shades` derive from [`default_light_accent`].
    pub fn default_light(shades: PaletteShades) -> (p: Self)
        ensures
            p == system_palette(default_light_accent_spec(), false, shades),
    {
        Self::from_system(default_light_accent(), false, shades)
    }
}

/// The palette screensavers draw with: the one the host registered, else
/// the dark palette of [`fallback_accent`] (`fallback_shades` derive from it).
pub fn query_current_palette(registered: Option<ScreenPalette>, fallback_shades: PaletteShades) -> (p:
    ScreenPalette)
    ensures
        p == match registered {
            Some(r) => r,
            None => system_palette(fallback_accent_spec(), true, fallback_shades),
        },
{
    match registered {
        Some(r) => r,
        None => ScreenPalette::from_system(fallback_accent(), true, fallback_shades),
    }
}

/// Sum of the three channels of a colour.
pub open spec fn brightness(c: (u8, u8, u8)) -> int {
    c.0 + c.1 + c.2
}

/// Dark palettes have a dark background and a lighter foreground; light
/// palettes the reverse; whatever the accent and its shades.
pub proof fn law_palette_background_follows_mode(accent: (u8, u8, u8), shades: PaletteShades)
    ensures
        brightness(system_palette(accent, true, shades).bg) < 128 * 3,
        brightness(system_palette(accent, false, shades).bg) > 128 * 3,
        brightness(system_palette(accent, true, shades).fg) > brightness(system_palette(accent, true, shades).bg),
        brightness(system_palette(accent, false, shades).fg) < brightness(system_palette(accent, false, shades).bg),
{
}

} // verus!

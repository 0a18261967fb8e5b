//! The interface a screensaver plugin implements.

use std::time::Duration;

use vstd::prelude::*;

use crate::palette::TerminalCell;

verus! {

/// Whether a screensaver is active and has focus. Every screensaver has
/// this by the impl below: always active, always focused, and the setters
/// change nothing.
pub trait ScreensaverState {
    fn active(&self) -> bool;

    fn set_active(&mut self, active: bool);

    fn focused(&self) -> bool;

    fn set_focused(&mut self, focused: bool);
}

/// A screensaver: it advances its animation by elapsed time and draws into
/// a grid of `cols` by `rows` cells, row after row.
pub trait Screensaver: ScreensaverState {
    /// Called once with the grid size before the first update.
    fn init(&mut self, cols: usize, rows: usize) {
    }

    fn update(&mut self, dt: Duration, cols: usize, rows: usize);

    /// Told the time the last frame took.
    fn update_frame_time(&mut self, dt: Duration) {
    }

    fn draw(&self, grid: &mut [TerminalCell], cols: usize, rows: usize);

    /// Whether the host should darken every other pixel row.
    fn has_scanlines(&self) -> (r: bool)
        default_ensures
            !r,
    {
        false
    }
}

impl<T: Screensaver> ScreensaverState for T {
    fn active(&self) -> (r: bool)
        ensures
            r,
    {
        true
    }

    fn set_active(&mut self, active: bool) {
    }

    fn focused(&self) -> (r: bool)
        ensures
            r,
    {
        true
    }

    fn set_focused(&mut self, focused: bool) {
    }
}

} // verus!

use std::time::Duration;

use idlescreen::palette::TerminalCell;
use idlescreen::saver::{Screensaver, ScreensaverState};

struct Fill {
    ticks: u32,
    ch: char,
}

impl Screensaver for Fill {
    fn init(&mut self, _cols: usize, _rows: usize) {
        self.ticks = 0;
    }

    fn update(&mut self, _dt: Duration, _cols: usize, _rows: usize) {
        self.ticks += 1;
    }

    fn draw(&self, grid: &mut [TerminalCell], _cols: usize, _rows: usize) {
        for cell in grid.iter_mut() {
            cell.ch = self.ch;
        }
    }
}

#[test]
fn every_saver_is_active_and_focused() {
    let mut s = Fill { ticks: 5, ch: '#' };
    assert!(s.active());
    assert!(s.focused());
    s.set_active(false);
    s.set_focused(false);
    assert!(s.active());
    assert!(s.focused());
    assert!(!s.has_scanlines());
}

#[test]
fn saver_runs_through_trait_object() {
    let mut boxed: Box<dyn Screensaver> = Box::new(Fill { ticks: 7, ch: '*' });
    boxed.init(2, 1);
    boxed.update(Duration::from_millis(16), 2, 1);
    boxed.update_frame_time(Duration::from_millis(16));
    let mut grid = vec![TerminalCell::default(); 2];
    boxed.draw(&mut grid, 2, 1);
    assert!(grid.iter().all(|c| c.ch == '*'));
    assert!(boxed.active());
}

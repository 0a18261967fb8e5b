//! Character-grid bounds of the primary monitor inside a spanning canvas.

use vstd::prelude::*;

use crate::text::{parse_unsigned, parse_usize};

verus! {

/// Half-open cell rectangle `[start_col, end_col) x [start_row, end_row)`.
#[derive(Clone, Copy, Debug, PartialEq, Eq, Structural)]
pub struct MonitorCellBounds {
    pub start_col: usize,
    pub end_col: usize,
    pub start_row: usize,
    pub end_row: usize,
    pub is_primary: bool,
}

/// `a - b`, or 0 when `b > a`.
pub open spec fn sat_sub(a: int, b: int) -> int {
    if a >= b {
        a - b
    } else {
        0
    }
}

impl MonitorCellBounds {
    pub fn width(&self) -> (w: usize)
        ensures
            w == sat_sub(self.end_col as int, self.start_col as int),
    {
        self.end_col.saturating_sub(self.start_col)
    }

    pub fn height(&self) -> (h: usize)
        ensures
            h == sat_sub(self.end_row as int, self.start_row as int),
    {
        self.end_row.saturating_sub(self.start_row)
    }

    pub fn center_col(&self) -> (c: usize)
        ensures
            c == self.start_col + sat_sub(self.end_col as int, self.start_col as int) / 2,
    {
        self.start_col + self.width() / 2
    }

    pub fn center_row(&self) -> (c: usize)
        ensures
            c == self.start_row + sat_sub(self.end_row as int, self.start_row as int) / 2,
    {
        self.start_row + self.height() / 2
    }

    /// Whether `(col, row)` is inside the bounds (`end_col` and `end_row` excluded).
    pub fn contains(&self, col: usize, row: usize) -> (r: bool)
        ensures
            r == (self.start_col <= col < self.end_col && self.start_row <= row < self.end_row),
    {
        col >= self.start_col && col < self.end_col && row >= self.start_row && row < self.end_row
    }
}

/// Largest grid extent accepted from published bounds.
pub const MAX_GRID: usize = 16_384;

/// Bounds published as four decimal fields, when all parse and describe a
/// non-empty rectangle inside a 16384 x 16384 grid.
pub open spec fn published_bounds_spec(
    start_col: Option<Seq<char>>,
    end_col: Option<Seq<char>>,
    start_row: Option<Seq<char>>,
    end_row: Option<Seq<char>>,
) -> Option<MonitorCellBounds> {
    match (start_col, end_col, start_row, end_row) {
        (Some(a), Some(b), Some(c), Some(d)) => match (
            parse_unsigned(a, usize::MAX as nat),
            parse_unsigned(b, usize::MAX as nat),
            parse_unsigned(c, usize::MAX as nat),
            parse_unsigned(d, usize::MAX as nat),
        ) {
            (Some(sc), Some(ec), Some(sr), Some(er)) => if ec <= sc || er <= sr || ec > MAX_GRID
                || er > MAX_GRID {
                None
            } else {
                Some(
                    MonitorCellBounds {
                        start_col: sc as usize,
                        end_col: ec as usize,
                        start_row: sr as usize,
                        end_row: er as usize,
                        is_primary: true,
                    },
                )
            },
            _ => None,
        },
        _ => None,
    }
}

/// Primary-monitor bounds from the published `TRANCE_PRIMARY_{START,END}_{COL,ROW}`
/// values (`None` for an unset variable).
pub fn published_bounds(
    start_col: Option<&str>,
    end_col: Option<&str>,
    start_row: Option<&str>,
    end_row: Option<&str>,
) -> (r: Option<MonitorCellBounds>)
    ensures
        r == published_bounds_spec(
            crate::text::opt_view(start_col),
            crate::text::opt_view(end_col),
            crate::text::opt_view(start_row),
            crate::text::opt_view(end_row),
        ),
{
    let sc = match start_col {
        Some(s) => match parse_usize(s) {
            Some(v) => v,
            None => {
                return None;
            },
        },
        None => {
            return None;
        },
    };
    let ec = match end_col {
        Some(s) => match parse_usize(s) {
            Some(v) => v,
            None => {
                return None;
            },
        },
        None => {
            return None;
        },
    };
    let sr = match start_row {
        Some(s) => match parse_usize(s) {
            Some(v) => v,
            None => {
                return None;
            },
        },
        None => {
            return None;
        },
    };
    let er = match end_row {
        Some(s) => match parse_usize(s) {
            Some(v) => v,
            None => {
                return None;
            },
        },
        None => {
            return None;
        },
    };
    if ec <= sc || er <= sr {
        return None;
    }
    if ec > MAX_GRID || er > MAX_GRID {
        return None;
    }
    Some(MonitorCellBounds { start_col: sc, end_col: ec, start_row: sr, end_row: er, is_primary: true })
}

/// Bounds of the primary monitor on a `cols x rows` grid: the bounds a host
/// supplied (its callback, else what was published), or the whole grid.
pub fn get_primary_monitor_bounds(cols: usize, rows: usize, supplied: Option<MonitorCellBounds>) -> (b:
    MonitorCellBounds)
    ensures
        b == match supplied {
            Some(s) => s,
            None => MonitorCellBounds {
                start_col: 0,
                end_col: cols,
                start_row: 0,
                end_row: rows,
                is_primary: true,
            },
        },
{
    match supplied {
        Some(s) => s,
        None => MonitorCellBounds { start_col: 0, end_col: cols, start_row: 0, end_row: rows, is_primary: true },
    }
}

} // verus!

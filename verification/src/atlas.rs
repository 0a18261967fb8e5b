//! Glyph atlas of the cell renderer: the characters drawn so far, each with a
//! slot in a grid of `atlas_cols` columns, and the 8-bit coverage image built
//! from their rasterized glyphs.
//!
//! Rasterizing a glyph (font outlines to coverage) happens outside; the slot
//! bookkeeping and the blit of the bitmaps into the atlas image are here.

use vstd::prelude::*;
use std::collections::HashMap;

verus! {

broadcast use vstd::std_specs::hash::group_hash_axioms;

/// A rasterized glyph: `height` rows of `width` coverage bytes, drawn
/// `max(ymin, 0)` rows below the top of its cell.
pub struct GlyphBitmap {
    pub ymin: i32,
    pub width: usize,
    pub height: usize,
    pub bitmap: Vec<u8>,
}

/// Byte at column `x`, row `y` of an image `w` bytes wide.
pub open spec fn at(img: Seq<u8>, x: int, y: int, w: int) -> u8 {
    img[y * w + x]
}

/// Rows a glyph is pushed down inside its cell.
pub open spec fn glyph_y_offset(g: GlyphBitmap) -> int {
    if g.ymin > 0 {
        g.ymin as int
    } else {
        0
    }
}

/// Whether cell-relative position `(gx, gy)` receives a glyph byte, and which one.
pub open spec fn glyph_covers(g: GlyphBitmap, gx: int, gy: int, cell_w: int, cell_h: int) -> bool {
    let gr = gy - glyph_y_offset(g);
    &&& 0 <= gx < cell_w
    &&& 0 <= gy < cell_h
    &&& 0 <= gr < g.height
    &&& gx < g.width
    &&& gr * g.width + gx < g.bitmap@.len()
}

/// The glyph byte drawn at cell-relative position `(gx, gy)` (when covered).
pub open spec fn glyph_byte(g: GlyphBitmap, gx: int, gy: int) -> u8 {
    g.bitmap@[(gy - glyph_y_offset(g)) * g.width + gx]
}

/// Rows after growing the atlas: `rows` doubled until `cols * rows` slots hold `needed` glyphs.
pub open spec fn grown_rows(rows: nat, cols: nat, needed: nat) -> nat
    decreases (if needed > rows {
        needed - rows
    } else {
        0
    }),
{
    if rows == 0 || cols == 0 {
        rows
    } else if needed > cols * rows {
        proof {
            assert(cols * rows >= rows) by (nonlinear_arith)
                requires
                    cols >= 1,
            ;
        }
        grown_rows(rows * 2, cols, needed)
    } else {
        rows
    }
}

/// The atlas byte at `(x, y)`: the covering byte of the glyph whose slot holds
/// the point, or 0.
pub open spec fn atlas_byte(
    glyphs: Seq<GlyphBitmap>,
    cols: int,
    cell_w: int,
    cell_h: int,
    x: int,
    y: int,
) -> u8 {
    let slot = (y / cell_h) * cols + x / cell_w;
    if slot < glyphs.len() && glyph_covers(glyphs[slot], x % cell_w, y % cell_h, cell_w, cell_h) {
        glyph_byte(glyphs[slot], x % cell_w, y % cell_h)
    } else {
        0
    }
}

/// Pixel coordinates inside an image of width `w` map to distinct offsets.
pub proof fn lemma_offset_unique(x1: int, y1: int, x2: int, y2: int, w: int)
    requires
        0 <= x1 < w,
        0 <= x2 < w,
        0 <= y1,
        0 <= y2,
        y1 * w + x1 == y2 * w + x2,
    ensures
        x1 == x2 && y1 == y2,
{
    if y1 < y2 {
        assert(y1 * w + w <= y2 * w) by (nonlinear_arith)
            requires
                y1 < y2,
                w >= 0,
        ;
    } else if y2 < y1 {
        assert(y2 * w + w <= y1 * w) by (nonlinear_arith)
            requires
                y2 < y1,
                w >= 0,
        ;
    }
}

/// Offsets of pixels inside a `w x h` image lie inside it.
pub proof fn lemma_offset_in_image(x: int, y: int, w: int, h: int)
    requires
        0 <= x < w,
        0 <= y < h,
    ensures
        0 <= y * w + x < w * h,
{
    assert(0 <= y * w) by (nonlinear_arith)
        requires
            0 <= y,
            0 <= w,
    ;
    assert(y * w + w <= h * w) by (nonlinear_arith)
        requires
            y < h,
            0 <= w,
    ;
    assert(h * w == w * h) by (nonlinear_arith);
}

/// Splitting a coordinate into a cell and an offset inside it.
pub proof fn lemma_cell_split(x: int, cell: int, k: int, off: int)
    requires
        cell > 0,
        0 <= off < cell,
        0 <= k,
        x == k * cell + off,
    ensures
        x / cell == k,
        x % cell == off,
{
    vstd::arithmetic::div_mod::lemma_fundamental_div_mod_converse(x, cell, k, off);
}

/// Copy the covered bytes of glyph `g` into the cell whose top-left corner is
/// `(char_x, char_y)` of `image` (width `atlas_w`, height `atlas_h`).
#[allow(clippy::too_many_arguments)]
fn blit_glyph(
    image: &mut Vec<u8>,
    atlas_w: usize,
    atlas_h: usize,
    char_x: usize,
    char_y: usize,
    cell_w: usize,
    cell_h: usize,
    g: &GlyphBitmap,
)
    requires
        old(image)@.len() == atlas_w * atlas_h,
        atlas_w * atlas_h <= usize::MAX,
        char_x + cell_w <= atlas_w,
        char_y + cell_h <= atlas_h,
        atlas_h + glyph_y_offset(*g) + g.height <= usize::MAX,
        g.height * g.width <= usize::MAX,
    ensures
        final(image)@.len() == old(image)@.len(),
        forall|x: int, y: int|
            0 <= x < atlas_w && 0 <= y < atlas_h ==> #[trigger] at(final(image)@, x, y, atlas_w as int)
                == if char_x <= x && char_y <= y && glyph_covers(
                *g,
                x - char_x,
                y - char_y,
                cell_w as int,
                cell_h as int,
            ) {
                glyph_byte(*g, x - char_x, y - char_y)
            } else {
                at(old(image)@, x, y, atlas_w as int)
            },
{
    let ghost w = atlas_w as int;
    let ghost prev = image@;
    let y_offset: usize = if g.ymin > 0 {
        g.ymin as usize
    } else {
        0
    };
    let mut r: usize = 0;
    while r < g.height
        invariant
            image@.len() == prev.len(),
            prev.len() == atlas_w * atlas_h,
            atlas_w * atlas_h <= usize::MAX,
            prev == old(image)@,
            w == atlas_w,
            char_x + cell_w <= atlas_w,
            char_y + cell_h <= atlas_h,
            atlas_h + glyph_y_offset(*g) + g.height <= usize::MAX,
            g.height * g.width <= usize::MAX,
            y_offset == glyph_y_offset(*g),
            r <= g.height,
            forall|x: int, y: int|
                0 <= x < atlas_w && 0 <= y < atlas_h ==> #[trigger] at(image@, x, y, w) == if char_x
                    <= x && char_y <= y && glyph_covers(*g, x - char_x, y - char_y, cell_w as int, cell_h as int)
                    && y - char_y - y_offset < r {
                    glyph_byte(*g, x - char_x, y - char_y)
                } else {
                    at(prev, x, y, w)
                },
        decreases g.height - r,
    {
        let dst_y = char_y + y_offset + r;
        if dst_y >= char_y + cell_h {
            proof {
                assert forall|x: int, y: int|
                    0 <= x < atlas_w && 0 <= y < atlas_h implies #[trigger] at(image@, x, y, w) == if char_x
                        <= x && char_y <= y && glyph_covers(*g, x - char_x, y - char_y, cell_w as int, cell_h as int)
                        && y - char_y - y_offset < r + 1 {
                        glyph_byte(*g, x - char_x, y - char_y)
                    } else {
                        at(prev, x, y, w)
                    } by {}
            }
            r = r + 1;
            continue;
        }
        let mut c: usize = 0;
        while c < g.width
            invariant
                image@.len() == prev.len(),
                prev.len() == atlas_w * atlas_h,
                prev == old(image)@,
                w == atlas_w,
                char_x + cell_w <= atlas_w,
                char_y + cell_h <= atlas_h,
                g.height * g.width <= usize::MAX,
                y_offset == glyph_y_offset(*g),
                r < g.height,
                dst_y == char_y + y_offset + r,
                dst_y < char_y + cell_h,
                atlas_w * atlas_h <= usize::MAX,
                c <= g.width,
                forall|x: int, y: int|
                    0 <= x < atlas_w && 0 <= y < atlas_h ==> #[trigger] at(image@, x, y, w) == if char_x
                        <= x && char_y <= y && glyph_covers(*g, x - char_x, y - char_y, cell_w as int, cell_h as int)
                        && (y - char_y - y_offset < r || (y - char_y - y_offset == r && x - char_x < c)) {
                        glyph_byte(*g, x - char_x, y - char_y)
                    } else {
                        at(prev, x, y, w)
                    },
            decreases g.width - c,
        {
            if c < cell_w {
                let dst_x = char_x + c;
                proof {
                    assert((r as int) * (g.width as int) + (c as int) < (g.height as int) * (g.width as int))
                        by (nonlinear_arith)
                        requires
                            r < g.height,
                            c < g.width,
                    ;
                    lemma_offset_in_image(dst_x as int, dst_y as int, atlas_w as int, atlas_h as int);
                }
                let src_idx = r * g.width + c;
                let dst_idx = dst_y * atlas_w + dst_x;
                if src_idx < g.bitmap.len() && dst_idx < image.len() {
                    let ghost before = image@;
                    image.set(dst_idx, g.bitmap[src_idx]);
                    proof {
                        assert forall|x: int, y: int|
                            0 <= x < atlas_w && 0 <= y < atlas_h implies #[trigger] at(image@, x, y, w) == if char_x
                                <= x && char_y <= y && glyph_covers(*g, x - char_x, y - char_y, cell_w as int, cell_h as int)
                                && (y - char_y - y_offset < r || (y - char_y - y_offset == r && x - char_x < c + 1)) {
                                glyph_byte(*g, x - char_x, y - char_y)
                            } else {
                                at(prev, x, y, w)
                            } by {
                            if y * w + x == dst_idx {
                                lemma_offset_unique(x, y, dst_x as int, dst_y as int, w);
                            } else {
                                lemma_offset_in_image(x, y, w, atlas_h as int);
                                assert(at(image@, x, y, w) == at(before, x, y, w));
                                if x == dst_x && y == dst_y {
                                    assert(false);
                                }
                            }
                        }
                    }
                } else {
                    proof {
                        assert forall|x: int, y: int|
                            0 <= x < atlas_w && 0 <= y < atlas_h implies #[trigger] at(image@, x, y, w) == if char_x
                                <= x && char_y <= y && glyph_covers(*g, x - char_x, y - char_y, cell_w as int, cell_h as int)
                                && (y - char_y - y_offset < r || (y - char_y - y_offset == r && x - char_x < c + 1)) {
                                glyph_byte(*g, x - char_x, y - char_y)
                            } else {
                                at(prev, x, y, w)
                            } by {}
                    }
                }
            } else {
                proof {
                    assert forall|x: int, y: int|
                        0 <= x < atlas_w && 0 <= y < atlas_h implies #[trigger] at(image@, x, y, w) == if char_x
                            <= x && char_y <= y && glyph_covers(*g, x - char_x, y - char_y, cell_w as int, cell_h as int)
                            && (y - char_y - y_offset < r || (y - char_y - y_offset == r && x - char_x < c + 1)) {
                            glyph_byte(*g, x - char_x, y - char_y)
                        } else {
                            at(prev, x, y, w)
                        } by {}
                }
            }
            c = c + 1;
        }
        r = r + 1;
    }
}



/// Growing by doubling never shrinks the grid, and the grown grid has a slot
/// for each of `needed` glyphs.
pub proof fn lemma_grown_rows(rows: nat, cols: nat, needed: nat)
    requires
        rows > 0,
        cols > 0,
    ensures
        rows <= grown_rows(rows, cols, needed),
        needed <= cols * grown_rows(rows, cols, needed),
    decreases (if needed > rows {
        needed - rows
    } else {
        0
    }),
{
    if needed > cols * rows {
        assert(cols * rows >= rows) by (nonlinear_arith)
            requires
                cols >= 1,
        ;
        lemma_grown_rows(rows * 2, cols, needed);
    }
}

/// Slot `idx` of a grid `cols` cells wide covers exactly the pixels whose
/// cell coordinates name it, and inside it the pixel offsets are the remainders.
proof fn lemma_slot_of_point(x: int, y: int, cw: int, ch: int, cols: int, idx: int)
    requires
        cw > 0,
        ch > 0,
        cols > 0,
        0 <= x < cols * cw,
        0 <= y,
        0 <= idx,
    ensures
        ((y / ch) * cols + x / cw == idx) <==> ((idx % cols) * cw <= x < (idx % cols) * cw + cw && (idx
            / cols) * ch <= y < (idx / cols) * ch + ch),
        (y / ch) * cols + x / cw == idx ==> x % cw == x - (idx % cols) * cw && y % ch == y - (idx
            / cols) * ch,
{
    let col = idx % cols;
    let row = idx / cols;
    vstd::arithmetic::div_mod::lemma_fundamental_div_mod(idx, cols);
    vstd::arithmetic::div_mod::lemma_mod_pos_bound(idx, cols);
    vstd::arithmetic::div_mod::lemma_fundamental_div_mod(x, cw);
    vstd::arithmetic::div_mod::lemma_mod_pos_bound(x, cw);
    vstd::arithmetic::div_mod::lemma_fundamental_div_mod(y, ch);
    vstd::arithmetic::div_mod::lemma_mod_pos_bound(y, ch);
    let qx = x / cw;
    let qy = y / ch;
    assert(0 <= row) by (nonlinear_arith)
        requires
            idx == cols * row + col,
            0 <= col < cols,
            0 <= idx,
    ;
    assert(0 <= qy) by (nonlinear_arith)
        requires
            y == ch * qy + y % ch,
            0 <= y % ch < ch,
            0 <= y,
    ;
    assert(0 <= qx < cols) by (nonlinear_arith)
        requires
            x == cw * qx + x % cw,
            0 <= x % cw < cw,
            0 <= x < cols * cw,
    ;
    if qy * cols + qx == idx {
        lemma_offset_unique(qx, qy, col, row, cols);
        assert(col * cw <= x < col * cw + cw && row * ch <= y < row * ch + ch) by (nonlinear_arith)
            requires
                x == cw * qx + x % cw,
                0 <= x % cw < cw,
                y == ch * qy + y % ch,
                0 <= y % ch < ch,
                qx == col,
                qy == row,
        ;
    }
    if col * cw <= x < col * cw + cw && row * ch <= y < row * ch + ch {
        lemma_cell_split(x, cw, col, x - col * cw);
        lemma_cell_split(y, ch, row, y - row * ch);
        assert(qy * cols + qx == idx) by (nonlinear_arith)
            requires
                qx == col,
                qy == row,
                idx == cols * row + col,
        ;
    }
}

/// The cell of slot `idx` lies inside a grid of `cols x rows` cells of `cw x ch` pixels.
proof fn lemma_slot_in_grid(idx: int, cols: int, rows: int, cw: int, ch: int)
    requires
        cols > 0,
        0 <= idx < cols * rows,
        cw >= 0,
        ch >= 0,
    ensures
        0 <= idx % cols < cols,
        0 <= idx / cols < rows,
        0 <= (idx % cols) * cw,
        (idx % cols) * cw + cw <= cols * cw,
        0 <= (idx / cols) * ch,
        (idx / cols) * ch + ch <= rows * ch,
{
    let col = idx % cols;
    let row = idx / cols;
    vstd::arithmetic::div_mod::lemma_fundamental_div_mod(idx, cols);
    vstd::arithmetic::div_mod::lemma_mod_pos_bound(idx, cols);
    assert(0 <= row < rows) by (nonlinear_arith)
        requires
            idx == cols * row + col,
            0 <= col < cols,
            0 <= idx < cols * rows,
    ;
    assert(0 <= col * cw && col * cw + cw <= cols * cw) by (nonlinear_arith)
        requires
            0 <= col < cols,
            cw >= 0,
    ;
    assert(0 <= row * ch && row * ch + ch <= rows * ch) by (nonlinear_arith)
        requires
            0 <= row < rows,
            ch >= 0,
    ;
}

/// A character's scalar value identifies it.
proof fn lemma_char_code(c: char, d: char)
    ensures
        (c as u32) as int == c as int,
        (c as u32 == d as u32) ==> c == d,
{
}

/// `chars` with `c` appended unless it is already there.
pub open spec fn with_char(chars: Seq<char>, c: char) -> Seq<char> {
    if chars.contains(c) {
        chars
    } else {
        chars.push(c)
    }
}

/// `chars` after offering each of `extra` in turn to [`with_char`].
pub open spec fn with_chars(chars: Seq<char>, extra: Seq<char>) -> Seq<char>
    decreases extra.len(),
{
    if extra.len() == 0 {
        chars
    } else {
        with_char(with_chars(chars, extra.drop_last()), extra.last())
    }
}


/// Printable ASCII, space to tilde.
pub open spec fn ascii_printable() -> Seq<char> {
    Seq::new(95, |i: int| (32 + i) as char)
}

/// Symbols the screensavers draw besides letters and digits.
pub open spec fn screensaver_symbols() -> Seq<char> {
    seq!['✦', '·', '░', '╬', '█', '▲', '∩', '¥', '✹']
}

/// Characters placed in a fresh atlas: printable ASCII, half-width katakana
/// with the digits and operators of the rain effects, then the symbols.
pub open spec fn prepopulated_chars() -> Seq<char> {
    ascii_printable() + ATLAS_KATAKANA@ + screensaver_symbols()
}

/// Half-width katakana and the digits and operators drawn beside them.
pub const ATLAS_KATAKANA: &'static str = "ｦｧｨｩｪｫｬｭｮｯｰｱｲｳｴｵｶｷｸｹｺｻｼｽｾｿﾀﾁﾂﾃﾄﾅﾆﾇﾈﾉﾊﾋﾌﾍﾎﾏﾐﾑﾒﾓﾔﾕﾖﾗﾘﾙﾚﾛﾜﾝ1234567890X:+-*<>|";

proof fn lemma_with_char_len(chars: Seq<char>, c: char)
    ensures
        with_char(chars, c).len() <= chars.len() + 1,
        chars.len() <= with_char(chars, c).len(),
{
}

proof fn lemma_with_chars_grows(chars: Seq<char>, extra: Seq<char>)
    ensures
        chars.len() <= with_chars(chars, extra).len(),
    decreases extra.len(),
{
    if extra.len() > 0 {
        lemma_with_chars_grows(chars, extra.drop_last());
        lemma_with_char_len(with_chars(chars, extra.drop_last()), extra.last());
    }
}

/// Renderer state of a character-cell screensaver: cell size in pixels and
/// the glyph atlas (its grid, characters, slot index, image and dirty flag).
pub struct CellRenderer {
    pub cell_width: usize,
    pub cell_height: usize,
    pub atlas_cols: usize,
    pub atlas_rows: usize,
    /// Characters in slot order.
    pub atlas_chars: Vec<char>,
    /// Slot of each character, keyed by its scalar value.
    pub atlas_index: HashMap<u32, u32>,
    pub atlas_image: Vec<u8>,
    pub atlas_dirty: bool,
}

impl CellRenderer {
    /// The slot index agrees with the character list, slots fit in `u32`,
    /// and the grid has at least one column and one row.
    pub open spec fn wf(&self) -> bool {
        let chars = self.atlas_chars@;
        let index = self.atlas_index@;
        &&& self.atlas_cols > 0
        &&& self.atlas_rows > 0
        &&& chars.len() <= u32::MAX
        &&& forall|i: int|
            0 <= i < chars.len() ==> #[trigger] index.contains_key(chars[i] as u32) && index[chars[i]
                as u32] == i
        &&& forall|k: u32|
            #[trigger] index.contains_key(k) ==> index[k] < chars.len() && chars[index[k] as int] as u32
                == k
    }

    /// An empty atlas of `atlas_cols x atlas_rows` cells of `cell_width x cell_height` pixels.
    pub fn new(cell_width: usize, cell_height: usize, atlas_cols: usize, atlas_rows: usize) -> (r:
        Self)
        requires
            atlas_cols > 0,
            atlas_rows > 0,
        ensures
            r.wf(),
            r.cell_width == cell_width,
            r.cell_height == cell_height,
            r.atlas_cols == atlas_cols,
            r.atlas_rows == atlas_rows,
            r.atlas_chars@ == Seq::<char>::empty(),
            r.atlas_image@ == Seq::<u8>::empty(),
            !r.atlas_dirty,
    {
        CellRenderer {
            cell_width,
            cell_height,
            atlas_cols,
            atlas_rows,
            atlas_chars: Vec::new(),
            atlas_index: HashMap::new(),
            atlas_image: Vec::new(),
            atlas_dirty: false,
        }
    }

    /// Slot of `ch`, giving it the next free slot (and marking the atlas
    /// dirty) when it has none yet.
    pub fn get_or_insert_atlas_char(&mut self, ch: char) -> (pos: usize)
        requires
            old(self).wf(),
            old(self).atlas_chars@.len() < u32::MAX,
        ensures
            final(self).wf(),
            final(self).atlas_chars@ == with_char(old(self).atlas_chars@, ch),
            pos < final(self).atlas_chars@.len(),
            final(self).atlas_chars@[pos as int] == ch,
            final(self).atlas_index@.contains_key(ch as u32),
            final(self).atlas_index@[ch as u32] == pos,
            old(self).atlas_index@.contains_key(ch as u32) ==> pos == old(self).atlas_index@[ch as u32],
            !old(self).atlas_index@.contains_key(ch as u32) ==> final(self).atlas_index@ == old(
                self,
            ).atlas_index@.insert(ch as u32, pos as u32),
            old(self).atlas_chars@.contains(ch) ==> *final(self) == *old(self),
            !old(self).atlas_chars@.contains(ch) ==> {
                &&& pos == old(self).atlas_chars@.len()
                &&& final(self).atlas_dirty
                &&& final(self).atlas_image == old(self).atlas_image
                &&& final(self).cell_width == old(self).cell_width
                &&& final(self).cell_height == old(self).cell_height
                &&& final(self).atlas_cols == old(self).atlas_cols
                &&& final(self).atlas_rows == old(self).atlas_rows
            },
    {
        let key = ch as u32;
        match self.atlas_index.get(&key) {
            Some(p) => {
                let pos = *p;
                proof {
                    lemma_char_code(self.atlas_chars@[pos as int], ch);
                    assert(self.atlas_chars@[pos as int] == ch);
                }
                return pos as usize;
            },
            None => {},
        }
        proof {
            if self.atlas_chars@.contains(ch) {
                let i = choose|i: int| 0 <= i < self.atlas_chars@.len() && self.atlas_chars@[i] == ch;
                assert(self.atlas_index@.contains_key(self.atlas_chars@[i] as u32));
            }
        }
        let pos = self.atlas_chars.len() as u32;
        self.atlas_chars.push(ch);
        self.atlas_index.insert(key, pos);
        self.atlas_dirty = true;
        proof {
            let chars = self.atlas_chars@;
            let index = self.atlas_index@;
            assert forall|i: int| 0 <= i < chars.len() implies #[trigger] index.contains_key(
                chars[i] as u32,
            ) && index[chars[i] as u32] == i by {
                if i < pos {
                    assert(old(self).atlas_index@.contains_key(old(self).atlas_chars@[i] as u32));
                }
            }
        }
        pos as usize
    }


    /// In a well-formed atlas no character has two slots.
    pub proof fn law_atlas_chars_are_distinct(&self)
        requires
            self.wf(),
        ensures
            self.atlas_chars@.no_duplicates(),
    {
        let chars = self.atlas_chars@;
        assert forall|i: int, j: int| 0 <= i < chars.len() && 0 <= j < chars.len() && i != j implies chars[i]
            != chars[j] by {
            assert(self.atlas_index@.contains_key(chars[i] as u32));
            assert(self.atlas_index@.contains_key(chars[j] as u32));
        }
    }

    /// Width of the atlas image in pixels.
    pub open spec fn atlas_width(&self) -> int {
        self.atlas_cols * self.cell_width
    }

    /// Height of the atlas image in pixels.
    pub open spec fn atlas_height(&self) -> int {
        self.atlas_rows * self.cell_height
    }

    /// Rows the grid has once it holds every character.
    pub open spec fn needed_rows(&self) -> nat {
        grown_rows(self.atlas_rows as nat, self.atlas_cols as nat, self.atlas_chars@.len())
    }

    /// The grown atlas and the glyph blits stay within `usize`.
    pub open spec fn atlas_fits(&self, glyphs: Seq<GlyphBitmap>) -> bool {
        let w = self.atlas_cols * self.cell_width;
        let h = self.needed_rows() * self.cell_height;
        &&& self.atlas_cols * self.needed_rows() <= usize::MAX
        &&& w <= usize::MAX
        &&& h <= usize::MAX
        &&& w * h <= usize::MAX
        &&& forall|i: int|
            0 <= i < glyphs.len() ==> h + glyph_y_offset(#[trigger] glyphs[i]) + glyphs[i].height
                <= usize::MAX && glyphs[i].height * glyphs[i].width <= usize::MAX
    }

    /// `new` is `old` with its grid grown to hold every character and its image
    /// redrawn from `glyphs` (the glyph of each character, in slot order).
    pub open spec fn rebuilt_from(old: CellRenderer, new: CellRenderer, glyphs: Seq<GlyphBitmap>) -> bool {
        &&& new.atlas_rows == old.needed_rows()
        &&& new.atlas_cols == old.atlas_cols
        &&& new.cell_width == old.cell_width
        &&& new.cell_height == old.cell_height
        &&& new.atlas_chars == old.atlas_chars
        &&& new.atlas_index == old.atlas_index
        &&& !new.atlas_dirty
        &&& new.atlas_image@.len() == new.atlas_width() * new.atlas_height()
        &&& forall|x: int, y: int|
            0 <= x < new.atlas_width() && 0 <= y < new.atlas_height() ==> #[trigger] at(
                new.atlas_image@,
                x,
                y,
                new.atlas_width(),
            ) == atlas_byte(
                glyphs,
                new.atlas_cols as int,
                new.cell_width as int,
                new.cell_height as int,
                x,
                y,
            )
    }

    /// Redraws the atlas image when it is dirty or empty: the grid doubles its
    /// rows until every character has a slot, and glyph `i` of `glyphs` (the
    /// rasterized form of character `i`) is drawn into slot `i`.
    pub fn rebuild_atlas_image(&mut self, glyphs: &Vec<GlyphBitmap>)
        requires
            old(self).wf(),
            glyphs@.len() == old(self).atlas_chars@.len(),
            old(self).atlas_fits(glyphs@),
        ensures
            final(self).wf(),
            !old(self).atlas_dirty && old(self).atlas_image@.len() > 0 ==> *final(self) == *old(self),
            old(self).atlas_dirty || old(self).atlas_image@.len() == 0 ==> Self::rebuilt_from(
                *old(self),
                *final(self),
                glyphs@,
            ),
    {
        if !self.atlas_dirty && self.atlas_image.len() > 0 {
            return;
        }
        let needed = self.atlas_chars.len();
        let cols = self.atlas_cols;
        let cw = self.cell_width;
        let ch = self.cell_height;
        let ghost target = self.needed_rows();
        proof {
            lemma_grown_rows(self.atlas_rows as nat, cols as nat, needed as nat);
        }
        let mut rows = self.atlas_rows;
        while needed > cols * rows
            invariant
                rows > 0,
                cols > 0,
                grown_rows(rows as nat, cols as nat, needed as nat) == target,
                rows <= target,
                cols * target <= usize::MAX,
            decreases target - rows,
        {
            proof {
                lemma_grown_rows(rows as nat * 2, cols as nat, needed as nat);
                assert(grown_rows(rows as nat, cols as nat, needed as nat) == grown_rows(
                    rows as nat * 2,
                    cols as nat,
                    needed as nat,
                ));
                assert(target <= cols * target) by (nonlinear_arith)
                    requires
                        cols >= 1,
                ;
            }
            rows = rows * 2;
        }
        proof {
            lemma_grown_rows(rows as nat, cols as nat, needed as nat);
        }
        let atlas_w = cols * cw;
        let atlas_h = rows * ch;
        let total = atlas_w * atlas_h;
        let mut image: Vec<u8> = Vec::new();
        while image.len() < total
            invariant
                image@.len() <= total,
                forall|j: int| 0 <= j < image@.len() ==> image@[j] == 0u8,
            decreases total - image@.len(),
        {
            image.push(0u8);
        }
        let ghost w = atlas_w as int;
        proof {
            assert forall|x: int, y: int|
                0 <= x < atlas_w && 0 <= y < atlas_h implies #[trigger] at(image@, x, y, w)
                == atlas_byte(glyphs@.take(0), cols as int, cw as int, ch as int, x, y) by {
                lemma_offset_in_image(x, y, w, atlas_h as int);
            }
        }
        let mut idx: usize = 0;
        while idx < needed
            invariant
                needed == glyphs@.len(),
                cols > 0,
                needed <= cols * rows,
                atlas_w == cols * cw,
                atlas_h == rows * ch,
                w == atlas_w,
                atlas_w * atlas_h <= usize::MAX,
                image@.len() == atlas_w * atlas_h,
                idx <= needed,
                forall|i: int|
                    0 <= i < glyphs@.len() ==> atlas_h + glyph_y_offset(#[trigger] glyphs@[i])
                        + glyphs@[i].height <= usize::MAX && glyphs@[i].height * glyphs@[i].width
                        <= usize::MAX,
                forall|x: int, y: int|
                    0 <= x < atlas_w && 0 <= y < atlas_h ==> #[trigger] at(image@, x, y, w)
                        == atlas_byte(glyphs@.take(idx as int), cols as int, cw as int, ch as int, x, y),
            decreases needed - idx,
        {
            let col = idx % cols;
            let row = idx / cols;
            proof {
                lemma_slot_in_grid(idx as int, cols as int, rows as int, cw as int, ch as int);
            }
            let char_x = col * cw;
            let char_y = row * ch;
            let ghost before = image@;
            let g = &glyphs[idx];
            blit_glyph(&mut image, atlas_w, atlas_h, char_x, char_y, cw, ch, g);
            proof {
                let done = glyphs@.take(idx as int);
                let next = glyphs@.take(idx + 1);
                assert forall|x: int, y: int|
                    0 <= x < atlas_w && 0 <= y < atlas_h implies #[trigger] at(image@, x, y, w)
                    == atlas_byte(next, cols as int, cw as int, ch as int, x, y) by {
                    assert(cw > 0) by (nonlinear_arith)
                        requires
                            x < cols * cw,
                            0 <= x,
                    ;
                    assert(ch > 0) by (nonlinear_arith)
                        requires
                            y < rows * ch,
                            0 <= y,
                    ;
                    lemma_slot_of_point(x, y, cw as int, ch as int, cols as int, idx as int);
                    let slot = (y / (ch as int)) * cols + x / (cw as int);
                    if slot == idx {
                        assert(next[slot] == glyphs@[idx as int]);
                    } else {
                        if slot < idx {
                            assert(next[slot] == done[slot]);
                        }
                    }
                }
            }
            idx = idx + 1;
        }
        proof {
            assert(glyphs@.take(needed as int) == glyphs@);
        }
        self.atlas_rows = rows;
        self.atlas_image = image;
        self.atlas_dirty = false;
    }


    /// Atlas geometry and image, redrawing the image first when it is dirty:
    /// (image width, image height, columns, rows, image, dirty flag).
    pub fn atlas_info(&mut self, glyphs: &Vec<GlyphBitmap>) -> (r: (
        usize,
        usize,
        usize,
        usize,
        &[u8],
        bool,
    ))
        requires
            old(self).wf(),
            old(self).atlas_dirty ==> glyphs@.len() == old(self).atlas_chars@.len() && old(
                self,
            ).atlas_fits(glyphs@),
            !old(self).atlas_dirty ==> old(self).atlas_width() <= usize::MAX && old(self).atlas_height()
                <= usize::MAX,
        ensures
            final(self).wf(),
            old(self).atlas_dirty ==> Self::rebuilt_from(*old(self), *final(self), glyphs@),
            !old(self).atlas_dirty ==> *final(self) == *old(self),
            r.0 == final(self).atlas_width(),
            r.1 == final(self).atlas_height(),
            r.2 == final(self).atlas_cols,
            r.3 == final(self).atlas_rows,
            r.4@ == final(self).atlas_image@,
            r.5 == final(self).atlas_dirty,
    {
        if self.atlas_dirty {
            self.rebuild_atlas_image(glyphs);
        }
        (
            self.atlas_cols * self.cell_width,
            self.atlas_rows * self.cell_height,
            self.atlas_cols,
            self.atlas_rows,
            self.atlas_image.as_slice(),
            self.atlas_dirty,
        )
    }

    /// Gives a slot to every character of [`prepopulated_chars`] that has none.
    /// The image is left as it was; [`Self::rebuild_atlas_image`] draws the new
    /// slots once their glyphs are rasterized.
    pub fn prepopulate_atlas(&mut self)
        requires
            old(self).wf(),
            old(self).atlas_chars@.len() + prepopulated_chars().len() < u32::MAX,
        ensures
            final(self).wf(),
            final(self).atlas_chars@ == with_chars(old(self).atlas_chars@, prepopulated_chars()),
            final(self).atlas_dirty == (old(self).atlas_dirty || final(self).atlas_chars@.len()
                > old(self).atlas_chars@.len()),
            final(self).atlas_image == old(self).atlas_image,
            final(self).cell_width == old(self).cell_width,
            final(self).cell_height == old(self).cell_height,
            final(self).atlas_cols == old(self).atlas_cols,
            final(self).atlas_rows == old(self).atlas_rows,
    {
        let mut list: Vec<char> = Vec::new();
        let mut code: u8 = 32;
        while code <= 126
            invariant
                32 <= code <= 127,
                list@ == ascii_printable().take(code - 32),
            decreases 127 - code,
        {
            list.push(code as char);
            code = code + 1;
            proof {
                assert(list@ == ascii_printable().take(code - 32));
            }
        }
        let katakana = crate::text::str_chars(ATLAS_KATAKANA);
        let mut k: usize = 0;
        while k < katakana.len()
            invariant
                k <= katakana@.len(),
                katakana@ == ATLAS_KATAKANA@,
                list@ == ascii_printable() + katakana@.take(k as int),
            decreases katakana@.len() - k,
        {
            list.push(katakana[k]);
            k = k + 1;
            proof {
                assert(list@ == ascii_printable() + katakana@.take(k as int));
            }
        }
        let symbols: [char; 9] = ['✦', '·', '░', '╬', '█', '▲', '∩', '¥', '✹'];
        let mut j: usize = 0;
        while j < 9
            invariant
                j <= 9,
                symbols@ == screensaver_symbols(),
                list@ == ascii_printable() + ATLAS_KATAKANA@ + screensaver_symbols().take(j as int),
            decreases 9 - j,
        {
            list.push(symbols[j]);
            j = j + 1;
            proof {
                assert(list@ == ascii_printable() + ATLAS_KATAKANA@ + screensaver_symbols().take(
                    j as int,
                ));
            }
        }
        proof {
            assert(list@ == prepopulated_chars());
        }
        let ghost start = *self;
        let mut i: usize = 0;
        while i < list.len()
            invariant
                i <= list@.len(),
                list@ == prepopulated_chars(),
                start == *old(self),
                self.wf(),
                self.atlas_chars@ == with_chars(start.atlas_chars@, list@.take(i as int)),
                self.atlas_chars@.len() <= start.atlas_chars@.len() + i,
                start.atlas_chars@.len() + list@.len() < u32::MAX,
                self.atlas_dirty == (start.atlas_dirty || self.atlas_chars@.len()
                    > start.atlas_chars@.len()),
                self.atlas_image == start.atlas_image,
                self.cell_width == start.cell_width,
                self.cell_height == start.cell_height,
                self.atlas_cols == start.atlas_cols,
                self.atlas_rows == start.atlas_rows,
            decreases list@.len() - i,
        {
            proof {
                assert(list@.take(i + 1).drop_last() == list@.take(i as int));
                lemma_with_char_len(self.atlas_chars@, list@[i as int]);
                lemma_with_chars_grows(start.atlas_chars@, list@.take(i as int));
            }
            self.get_or_insert_atlas_char(list[i]);
            i = i + 1;
        }
        proof {
            assert(list@.take(i as int) == list@);
        }
    }

    /// Whether the atlas image has to be rebuilt.
    pub fn is_atlas_dirty(&self) -> (r: bool)
        ensures
            r == self.atlas_dirty,
    {
        self.atlas_dirty
    }

    /// Marks the atlas image as current.
    pub fn reset_atlas_dirty(&mut self)
        ensures
            *final(self) == (CellRenderer { atlas_dirty: false, ..*old(self) }),
    {
        self.atlas_dirty = false;
    }
}

} // verus!

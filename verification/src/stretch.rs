//! Nearest-neighbour stretch upscaling of packed 4-byte-per-pixel frames.
//!
//! The destination is filled completely (the aspect ratio may change). Each
//! destination pixel `(dx, dy)` copies source pixel
//! `(dx * src_w / dst_w, dy * src_h / dst_h)`.

use vstd::prelude::*;

verus! {

/// Byte offset of pixel `(x, y)` in a packed image of width `w` (4 bytes per pixel).
pub open spec fn pixel_offset(x: int, y: int, w: int) -> int {
    (y * w + x) * 4
}

/// Nearest-neighbour source coordinate for destination coordinate `d`.
pub open spec fn sample_coord(d: int, src_extent: int, dst_extent: int) -> int {
    d * src_extent / dst_extent
}

/// Byte length of a packed `w x h` frame.
pub open spec fn frame_len(w: u32, h: u32) -> int {
    w * h * 4
}

/// Byte `c` of pixel `(x, y)` of a packed image of width `w`.
pub open spec fn pixel_byte(img: Seq<u8>, x: int, y: int, w: int, c: int) -> u8 {
    img[pixel_offset(x, y, w) + c]
}

/// Geometry of one stretch: source and destination extents.
pub struct StretchDims {
    pub src_w: u32,
    pub src_h: u32,
    pub dst_w: u32,
    pub dst_h: u32,
}

/// What destination byte `c` of pixel `(dx, dy)` holds after a stretch.
///
/// `by_rows` selects the word-aligned path, which copies a destination row only
/// when the whole sampled source row lies inside `src` and otherwise leaves the
/// row as it was; the byte path copies each pixel whose four source bytes lie
/// inside `src` and writes zero otherwise.
pub open spec fn stretched_byte(
    prev: Seq<u8>,
    src: Seq<u8>,
    d: StretchDims,
    by_rows: bool,
    dx: int,
    dy: int,
    c: int,
) -> u8 {
    let sx = sample_coord(dx, d.src_w as int, d.dst_w as int);
    let sy = sample_coord(dy, d.src_h as int, d.dst_h as int);
    let so = pixel_offset(sx, sy, d.src_w as int);
    if by_rows {
        if pixel_offset(0, sy + 1, d.src_w as int) <= src.len() {
            src[so + c]
        } else {
            pixel_byte(prev, dx, dy, d.dst_w as int, c)
        }
    } else {
        if so + 4 <= src.len() {
            src[so + c]
        } else {
            0
        }
    }
}

/// Every destination pixel of `out` holds what a stretch of `src` over `prev` gives.
pub open spec fn is_stretched(
    out: Seq<u8>,
    prev: Seq<u8>,
    src: Seq<u8>,
    d: StretchDims,
    by_rows: bool,
) -> bool {
    forall|dx: int, dy: int, c: int|
        0 <= dx < d.dst_w && 0 <= dy < d.dst_h && 0 <= c < 4 ==> #[trigger] pixel_byte(
            out,
            dx,
            dy,
            d.dst_w as int,
            c,
        ) == stretched_byte(prev, src, d, by_rows, dx, dy, c)
}

/// Every destination pixel of `out` is the sampled source pixel.
pub open spec fn is_exact_stretch(out: Seq<u8>, src: Seq<u8>, d: StretchDims) -> bool {
    forall|dx: int, dy: int, c: int|
        0 <= dx < d.dst_w && 0 <= dy < d.dst_h && 0 <= c < 4 ==> #[trigger] pixel_byte(
            out,
            dx,
            dy,
            d.dst_w as int,
            c,
        ) == pixel_byte(
            src,
            sample_coord(dx, d.src_w as int, d.dst_w as int),
            sample_coord(dy, d.src_h as int, d.dst_h as int),
            d.src_w as int,
            c,
        )
}

/// Cached nearest-neighbour column map for stretch upscale.
pub struct StretchCache {
    /// Source width last used to build `x_map`.
    pub src_w: u32,
    /// Destination width last used to build `x_map`.
    pub dst_w: u32,
    /// Nearest-neighbour source column for each destination column.
    pub x_map: Vec<u32>,
}

impl StretchCache {
    /// The column map for a stretch from `src_w` to `dst_w` columns.
    pub open spec fn column_map(src_w: u32, dst_w: u32) -> Seq<u32> {
        Seq::new(dst_w as nat, |dx: int| sample_coord(dx, src_w as int, dst_w as int) as u32)
    }

    /// The map is exact whenever its length matches the recorded widths.
    pub open spec fn is_consistent(&self) -> bool {
        self.x_map@.len() == self.dst_w ==> self.x_map@ == Self::column_map(self.src_w, self.dst_w)
    }

    /// What `ensure(src_w, dst_w)` leaves in the cache.
    pub open spec fn ensured(prev: StretchCache, next: StretchCache, src_w: u32, dst_w: u32) -> bool {
        if prev.src_w == src_w && prev.dst_w == dst_w && prev.x_map@.len() == dst_w {
            next == prev
        } else {
            next.src_w == src_w && next.dst_w == dst_w && next.x_map@ == Self::column_map(
                src_w,
                dst_w,
            )
        }
    }

    pub fn new() -> (c: Self)
        ensures
            c.src_w == 0,
            c.dst_w == 0,
            c.x_map@.len() == 0,
            c.is_consistent(),
    {
        let c = StretchCache { src_w: 0, dst_w: 0, x_map: Vec::new() };
        assert(c.x_map@ =~= Self::column_map(0, 0));
        c
    }

    /// Rebuild the column map unless it already matches `src_w -> dst_w`.
    pub fn ensure(&mut self, src_w: u32, dst_w: u32)
        ensures
            Self::ensured(*old(self), *final(self), src_w, dst_w),
            final(self).src_w == src_w,
            final(self).dst_w == dst_w,
            old(self).is_consistent() ==> final(self).x_map@ == Self::column_map(src_w, dst_w),
            final(self).is_consistent() == old(self).is_consistent() || final(self).x_map@
                == Self::column_map(src_w, dst_w),
    {
        if self.src_w == src_w && self.dst_w == dst_w && self.x_map.len() == dst_w as usize {
            return ;
        }
        let mut map: Vec<u32> = Vec::new();
        let mut dx: u32 = 0;
        while dx < dst_w
            invariant
                dx <= dst_w,
                map@.len() == dx,
                forall|i: int| 0 <= i < dx ==> map@[i] == Self::column_map(src_w, dst_w)[i],
            decreases dst_w - dx,
        {
            proof {
                lemma_sample_in_range(dx as int, src_w as int, dst_w as int);
                assert((dx as int) * (src_w as int) <= 0xffff_ffffint * 0xffff_ffffint)
                    by (nonlinear_arith)
                    requires
                        0 <= dx <= 0xffff_ffff,
                        0 <= src_w <= 0xffff_ffff,
                ;
            }
            let v = (dx as u64 * src_w as u64 / dst_w as u64) as u32;
            map.push(v);
            dx = dx + 1;
        }
        assert(map@ =~= Self::column_map(src_w, dst_w));
        self.src_w = src_w;
        self.dst_w = dst_w;
        self.x_map = map;
    }
}

/// A sampled coordinate stays inside the source extent.
pub proof fn lemma_sample_in_range(d: int, s: int, t: int)
    requires
        0 <= d < t,
        0 <= s,
    ensures
        0 <= sample_coord(d, s, t) <= s,
        s > 0 ==> sample_coord(d, s, t) < s,
{
    assert(0 <= d * s) by (nonlinear_arith)
        requires
            0 <= d,
            0 <= s,
    ;
    assert(d * s <= t * s) by (nonlinear_arith)
        requires
            0 <= d < t,
            0 <= s,
    ;
    assert(d * s / t <= s) by (nonlinear_arith)
        requires
            0 <= d * s <= t * s,
            t > 0,
    ;
    assert(s > 0 ==> d * s / t < s) by (nonlinear_arith)
        requires
            0 <= d < t,
            0 <= s,
    ;
    assert(0 <= d * s / t) by (nonlinear_arith)
        requires
            0 <= d * s,
            t > 0,
    ;
}

/// Pixels inside a `w x h` frame have their four bytes inside the frame.
pub proof fn lemma_pixel_in_frame(x: int, y: int, w: int, h: int)
    requires
        0 <= x < w,
        0 <= y < h,
    ensures
        0 <= pixel_offset(x, y, w),
        pixel_offset(x, y, w) + 4 <= w * h * 4,
        pixel_offset(0, y, w) <= pixel_offset(x, y, w),
        pixel_offset(x, y, w) + 4 <= pixel_offset(0, y + 1, w),
        pixel_offset(0, y + 1, w) <= w * h * 4,
{
    assert(0 <= y * w) by (nonlinear_arith)
        requires
            0 <= y,
            0 <= w,
    ;
    assert((y + 1) * w <= h * w) by (nonlinear_arith)
        requires
            0 <= y < h,
            0 <= w,
    ;
    assert((y + 1) * w == y * w + w) by (nonlinear_arith);
    assert(h * w == w * h) by (nonlinear_arith);
}

/// Pixels earlier in row-major order end before later ones begin.
pub proof fn lemma_pixel_order(x: int, y: int, px: int, py: int, w: int)
    requires
        0 <= x < w,
        0 <= px < w,
        0 <= y,
        0 <= py,
        y < py || (y == py && x < px),
    ensures
        pixel_offset(x, y, w) + 4 <= pixel_offset(px, py, w),
{
    if y < py {
        assert(y * w + w <= py * w) by (nonlinear_arith)
            requires
                y < py,
                0 <= w,
        ;
    }
}

/// Row `y` ends exactly where row `y + 1` begins.
pub proof fn lemma_row_step(y: int, w: int)
    ensures
        pixel_offset(w, y, w) == pixel_offset(0, y + 1, w),
{
    assert((y + 1) * w == y * w + w) by (nonlinear_arith);
}

/// Byte path: every destination pixel copies its sampled source pixel when all
/// four of its source bytes exist, and is zero otherwise.
#[allow(clippy::too_many_arguments)]
fn stretch_byte_rows(
    dst: &mut [u8],
    src: &[u8],
    src_w: u32,
    src_h: u32,
    dst_w: u32,
    dst_h: u32,
    needed: usize,
    cache: &StretchCache,
)
    requires
        src_w > 0 && src_h > 0 && dst_w > 0 && dst_h > 0,
        needed == frame_len(dst_w, dst_h),
        frame_len(dst_w, dst_h) <= u32::MAX,
        frame_len(src_w, src_h) <= usize::MAX,
        old(dst)@.len() >= needed,
        cache.x_map@ == StretchCache::column_map(src_w, dst_w),
    ensures
        final(dst)@.len() == old(dst)@.len(),
        is_stretched(
            final(dst)@,
            old(dst)@,
            src@,
            (StretchDims { src_w, src_h, dst_w, dst_h }),
            false,
        ),
        forall|i: int| needed <= i < final(dst)@.len() ==> final(dst)@[i] == old(dst)@[i],
{
    let ghost dims = StretchDims { src_w, src_h, dst_w, dst_h };
    let ghost prev = dst@;
    let ghost w = dst_w as int;
    let mut dy: u32 = 0;
    while dy < dst_h
        invariant
            src_w > 0 && src_h > 0 && dst_w > 0 && dst_h > 0,
            needed == frame_len(dst_w, dst_h),
            frame_len(dst_w, dst_h) <= u32::MAX,
            frame_len(src_w, src_h) <= usize::MAX,
            prev == old(dst)@,
            dims == (StretchDims { src_w, src_h, dst_w, dst_h }),
            w == dst_w,
            dst@.len() == prev.len(),
            prev.len() >= needed,
            cache.x_map@ == StretchCache::column_map(src_w, dst_w),
            dy <= dst_h,
            forall|i: int| pixel_offset(0, dy as int, w) <= i < dst@.len() ==> dst@[i] == prev[i],
            forall|x: int, y: int, c: int|
                0 <= x < dst_w && 0 <= y < dy && 0 <= c < 4 ==> #[trigger] pixel_byte(
                    dst@,
                    x,
                    y,
                    w,
                    c,
                ) == stretched_byte(prev, src@, dims, false, x, y, c),
        decreases dst_h - dy,
    {
        proof {
            lemma_sample_in_range(dy as int, src_h as int, dst_h as int);
            assert((dy as int) * (src_h as int) <= 0xffff_ffffint * 0xffff_ffffint)
                by (nonlinear_arith)
                requires
                    0 <= dy <= 0xffff_ffff,
                    0 <= src_h <= 0xffff_ffff,
            ;
        }
        let sy = (dy as u64 * src_h as u64 / dst_h as u64) as usize;
        let ghost row_start = dst@;
        let mut dx: u32 = 0;
        while dx < dst_w
            invariant
                src_w > 0 && src_h > 0 && dst_w > 0 && dst_h > 0,
                needed == frame_len(dst_w, dst_h),
                frame_len(dst_w, dst_h) <= u32::MAX,
                frame_len(src_w, src_h) <= usize::MAX,
                prev == old(dst)@,
                dims == (StretchDims { src_w, src_h, dst_w, dst_h }),
                w == dst_w,
                dst@.len() == prev.len(),
                prev.len() >= needed,
                cache.x_map@ == StretchCache::column_map(src_w, dst_w),
                dy < dst_h,
                sy == sample_coord(dy as int, src_h as int, dst_h as int),
                sy < src_h,
                dx <= dst_w,
                forall|i: int| pixel_offset(dx as int, dy as int, w) <= i < dst@.len() ==> dst@[i] == prev[i],
                forall|x: int, y: int, c: int|
                    0 <= x < dst_w && 0 <= y < dy && 0 <= c < 4 ==> #[trigger] pixel_byte(
                        dst@,
                        x,
                        y,
                        w,
                        c,
                    ) == stretched_byte(prev, src@, dims, false, x, y, c),
                forall|x: int, c: int|
                    0 <= x < dx && 0 <= c < 4 ==> #[trigger] pixel_byte(
                        dst@,
                        x,
                        dy as int,
                        w,
                        c,
                    ) == stretched_byte(prev, src@, dims, false, x, dy as int, c),
            decreases dst_w - dx,
        {
            let ghost before = dst@;
            proof {
                lemma_sample_in_range(dx as int, src_w as int, dst_w as int);
                let sx = sample_coord(dx as int, src_w as int, dst_w as int);
                lemma_pixel_in_frame(sx, sy as int, src_w as int, src_h as int);
                lemma_pixel_in_frame(dx as int, dy as int, dst_w as int, dst_h as int);
            }
            let sx = cache.x_map[dx as usize] as usize;
            let src_off = (sy * src_w as usize + sx) * 4;
            let dst_off = (dy as usize * dst_w as usize + dx as usize) * 4;
            if src_off + 4 <= src.len() {
                dst[dst_off] = src[src_off];
                dst[dst_off + 1] = src[src_off + 1];
                dst[dst_off + 2] = src[src_off + 2];
                dst[dst_off + 3] = src[src_off + 3];
            } else {
                dst[dst_off] = 0;
                dst[dst_off + 1] = 0;
                dst[dst_off + 2] = 0;
                dst[dst_off + 3] = 0;
            }
            proof {
                assert forall|x: int, y: int, c: int|
                    0 <= x < dst_w && 0 <= y < dy && 0 <= c < 4 implies #[trigger] pixel_byte(
                        dst@,
                        x,
                        y,
                        w,
                        c,
                    ) == stretched_byte(prev, src@, dims, false, x, y, c) by {
                    lemma_pixel_order(x, y, dx as int, dy as int, w);
                    assert(pixel_byte(before, x, y, w, c) == stretched_byte(prev, src@, dims, false, x, y, c));
                }
                assert forall|x: int, c: int|
                    0 <= x < dx + 1 && 0 <= c < 4 implies #[trigger] pixel_byte(
                        dst@,
                        x,
                        dy as int,
                        w,
                        c,
                    ) == stretched_byte(prev, src@, dims, false, x, dy as int, c) by {
                    if x < dx {
                        lemma_pixel_order(x, dy as int, dx as int, dy as int, w);
                        assert(pixel_byte(before, x, dy as int, w, c) == stretched_byte(prev, src@, dims, false, x, dy as int, c));
                    }
                }
            }
            dx = dx + 1;
        }
        proof {
            lemma_row_step(dy as int, w);
        }
        dy = dy + 1;
    }
    proof {
        lemma_row_step(0, w);
        assert(pixel_offset(0, dst_h as int, w) == needed) by (nonlinear_arith)
            requires
                needed == frame_len(dst_w, dst_h),
                w == dst_w,
        ;
    }
}

/// Word-aligned path: a destination row copies its sampled source row when
/// the whole source row exists, and is left untouched otherwise.
fn stretch_u32_rows(
    dst: &mut [u8],
    src: &[u8],
    src_w: u32,
    src_h: u32,
    dst_w: u32,
    dst_h: u32,
    cache: &StretchCache,
)
    requires
        src_w > 0 && src_h > 0 && dst_w > 0 && dst_h > 0,
        frame_len(dst_w, dst_h) <= u32::MAX,
        frame_len(src_w, src_h) <= usize::MAX,
        old(dst)@.len() >= frame_len(dst_w, dst_h),
        cache.x_map@ == StretchCache::column_map(src_w, dst_w),
    ensures
        final(dst)@.len() == old(dst)@.len(),
        is_stretched(
            final(dst)@,
            old(dst)@,
            src@,
            (StretchDims { src_w, src_h, dst_w, dst_h }),
            true,
        ),
        forall|i: int|
            frame_len(dst_w, dst_h) <= i < final(dst)@.len() ==> final(dst)@[i] == old(dst)@[i],
{
    let ghost dims = StretchDims { src_w, src_h, dst_w, dst_h };
    let ghost prev = dst@;
    let ghost w = dst_w as int;
    let src_words = src.len() / 4;
    let mut dy: u32 = 0;
    while dy < dst_h
        invariant
            src_w > 0 && src_h > 0 && dst_w > 0 && dst_h > 0,
            frame_len(dst_w, dst_h) <= u32::MAX,
            frame_len(src_w, src_h) <= usize::MAX,
            src_words == src@.len() / 4,
            prev == old(dst)@,
            dims == (StretchDims { src_w, src_h, dst_w, dst_h }),
            w == dst_w,
            dst@.len() == prev.len(),
            prev.len() >= frame_len(dst_w, dst_h),
            cache.x_map@ == StretchCache::column_map(src_w, dst_w),
            dy <= dst_h,
            forall|i: int| pixel_offset(0, dy as int, w) <= i < dst@.len() ==> dst@[i] == prev[i],
            forall|x: int, y: int, c: int|
                0 <= x < dst_w && 0 <= y < dy && 0 <= c < 4 ==> #[trigger] pixel_byte(
                    dst@,
                    x,
                    y,
                    w,
                    c,
                ) == stretched_byte(prev, src@, dims, true, x, y, c),
        decreases dst_h - dy,
    {
        proof {
            lemma_sample_in_range(dy as int, src_h as int, dst_h as int);
            assert((dy as int) * (src_h as int) <= 0xffff_ffffint * 0xffff_ffffint)
                by (nonlinear_arith)
                requires
                    0 <= dy <= 0xffff_ffff,
                    0 <= src_h <= 0xffff_ffff,
            ;
            lemma_pixel_in_frame(0, sample_coord(dy as int, src_h as int, dst_h as int), src_w as int, src_h as int);
        }
        let sy = (dy as u64 * src_h as u64 / dst_h as u64) as usize;
        let src_row_start = sy * src_w as usize;
        proof {
            let a = src_row_start + src_w;
            let l = src@.len() as int;
            assert(a <= l / 4 <==> a * 4 <= l) by (nonlinear_arith)
                requires
                    l >= 0,
            ;
            assert(pixel_offset(0, sy + 1, src_w as int) == a * 4) by (nonlinear_arith)
                requires
                    a == sy * src_w + src_w,
            ;
        }
        if src_row_start + (src_w as usize) <= src_words {
            let mut dx: u32 = 0;
            while dx < dst_w
                invariant
                    src_w > 0 && src_h > 0 && dst_w > 0 && dst_h > 0,
                    frame_len(dst_w, dst_h) <= u32::MAX,
                    frame_len(src_w, src_h) <= usize::MAX,
                    prev == old(dst)@,
                    dims == (StretchDims { src_w, src_h, dst_w, dst_h }),
                    w == dst_w,
                    dst@.len() == prev.len(),
                    prev.len() >= frame_len(dst_w, dst_h),
                    cache.x_map@ == StretchCache::column_map(src_w, dst_w),
                    dy < dst_h,
                    sy == sample_coord(dy as int, src_h as int, dst_h as int),
                    sy < src_h,
                    pixel_offset(0, sy + 1, src_w as int) <= src@.len(),
                    src_row_start == sy * src_w,
                    dx <= dst_w,
                    forall|i: int|
                        pixel_offset(dx as int, dy as int, w) <= i < dst@.len() ==> dst@[i] == prev[i],
                    forall|x: int, y: int, c: int|
                        0 <= x < dst_w && 0 <= y < dy && 0 <= c < 4 ==> #[trigger] pixel_byte(
                            dst@,
                            x,
                            y,
                            w,
                            c,
                        ) == stretched_byte(prev, src@, dims, true, x, y, c),
                    forall|x: int, c: int|
                        0 <= x < dx && 0 <= c < 4 ==> #[trigger] pixel_byte(
                            dst@,
                            x,
                            dy as int,
                            w,
                            c,
                        ) == stretched_byte(prev, src@, dims, true, x, dy as int, c),
                decreases dst_w - dx,
            {
                let ghost before = dst@;
                proof {
                    lemma_sample_in_range(dx as int, src_w as int, dst_w as int);
                    let sx = sample_coord(dx as int, src_w as int, dst_w as int);
                    lemma_pixel_in_frame(sx, sy as int, src_w as int, src_h as int);
                    lemma_pixel_in_frame(dx as int, dy as int, dst_w as int, dst_h as int);
                }
                let sx = cache.x_map[dx as usize] as usize;
                let src_off = (src_row_start + sx) * 4;
                let dst_off = (dy as usize * dst_w as usize + dx as usize) * 4;
                dst[dst_off] = src[src_off];
                dst[dst_off + 1] = src[src_off + 1];
                dst[dst_off + 2] = src[src_off + 2];
                dst[dst_off + 3] = src[src_off + 3];
                proof {
                    assert forall|x: int, y: int, c: int|
                        0 <= x < dst_w && 0 <= y < dy && 0 <= c < 4 implies #[trigger] pixel_byte(
                            dst@,
                            x,
                            y,
                            w,
                            c,
                        ) == stretched_byte(prev, src@, dims, true, x, y, c) by {
                        lemma_pixel_order(x, y, dx as int, dy as int, w);
                        assert(pixel_byte(before, x, y, w, c) == stretched_byte(prev, src@, dims, true, x, y, c));
                    }
                    assert forall|x: int, c: int|
                        0 <= x < dx + 1 && 0 <= c < 4 implies #[trigger] pixel_byte(
                            dst@,
                            x,
                            dy as int,
                            w,
                            c,
                        ) == stretched_byte(prev, src@, dims, true, x, dy as int, c) by {
                        if x < dx {
                            lemma_pixel_order(x, dy as int, dx as int, dy as int, w);
                            assert(pixel_byte(before, x, dy as int, w, c) == stretched_byte(prev, src@, dims, true, x, dy as int, c));
                        }
                    }
                }
                dx = dx + 1;
            }
        } else {
            proof {
                assert forall|x: int, c: int|
                    0 <= x < dst_w && 0 <= c < 4 implies #[trigger] pixel_byte(
                        dst@,
                        x,
                        dy as int,
                        w,
                        c,
                    ) == stretched_byte(prev, src@, dims, true, x, dy as int, c) by {
                    lemma_pixel_in_frame(x, dy as int, dst_w as int, dst_h as int);
                }
            }
        }
        proof {
            lemma_row_step(dy as int, w);
        }
        dy = dy + 1;
    }
    proof {
        assert(pixel_offset(0, dst_h as int, w) == frame_len(dst_w, dst_h)) by (nonlinear_arith)
            requires
                w == dst_w,
        ;
    }
}

/// `bytemuck::try_cast_slice::<u8, u32>`: whether `bytes` can be viewed as `u32`
/// words. The outcome also depends on the address of the slice (its alignment),
/// which is not stated; only the fact that success needs a whole number of words is.
#[verifier::external_body]
fn casts_to_words(bytes: &[u8]) -> (ok: bool)
    ensures
        ok ==> bytes@.len() % 4 == 0,
{
    bytemuck::try_cast_slice::<u8, u32>(bytes).is_ok()
}

/// `bytemuck::try_cast_slice_mut::<u8, u32>` on the first `len` bytes: whether
/// they can be viewed as `u32` words. The outcome also depends on the address of
/// the slice (its alignment), which is not stated; the bytes are not changed.
#[verifier::external_body]
fn prefix_casts_to_words_mut(bytes: &mut [u8], len: usize) -> (ok: bool)
    requires
        len <= old(bytes)@.len(),
    ensures
        final(bytes)@ == old(bytes)@,
        ok ==> len % 4 == 0,
{
    bytemuck::try_cast_slice_mut::<u8, u32>(&mut bytes[..len]).is_ok()
}

/// A stretch over a source that holds a whole frame copies every sampled pixel,
/// whichever copy path produced it.
pub proof fn lemma_full_source_is_exact(
    out: Seq<u8>,
    prev: Seq<u8>,
    src: Seq<u8>,
    d: StretchDims,
    by_rows: bool,
)
    requires
        d.src_w > 0 && d.src_h > 0 && d.dst_w > 0 && d.dst_h > 0,
        src.len() >= frame_len(d.src_w, d.src_h),
        is_stretched(out, prev, src, d, by_rows),
    ensures
        is_exact_stretch(out, src, d),
{
    assert forall|dx: int, dy: int, c: int|
        0 <= dx < d.dst_w && 0 <= dy < d.dst_h && 0 <= c < 4 implies #[trigger] pixel_byte(
            out,
            dx,
            dy,
            d.dst_w as int,
            c,
        ) == pixel_byte(
            src,
            sample_coord(dx, d.src_w as int, d.dst_w as int),
            sample_coord(dy, d.src_h as int, d.dst_h as int),
            d.src_w as int,
            c,
        ) by {
        lemma_sample_in_range(dx, d.src_w as int, d.dst_w as int);
        lemma_sample_in_range(dy, d.src_h as int, d.dst_h as int);
        lemma_pixel_in_frame(
            sample_coord(dx, d.src_w as int, d.dst_w as int),
            sample_coord(dy, d.src_h as int, d.dst_h as int),
            d.src_w as int,
            d.src_h as int,
        );
    }
}

/// Equal extents sample every coordinate onto itself.
pub proof fn lemma_sample_identity(d: int, s: int)
    requires
        s > 0,
    ensures
        sample_coord(d, s, s) == d,
{
    assert(d * s / s == d) by (nonlinear_arith)
        requires
            s > 0,
    ;
}

/// Fast integer nearest-neighbour stretch into `dst`, reusing the column map in `cache`.
///
/// Nothing is written when `dst` is shorter than a `dst_w x dst_h` frame. With a
/// zero extent the frame is zeroed; with equal extents the source is copied
/// (zero past its end); otherwise every pixel is sampled from the source.
pub fn upscale_stretch_into(
    dst: &mut [u8],
    src: &[u8],
    src_w: u32,
    src_h: u32,
    dst_w: u32,
    dst_h: u32,
    cache: &mut StretchCache,
)
    requires
        frame_len(dst_w, dst_h) <= u32::MAX,
        frame_len(src_w, src_h) <= usize::MAX,
        old(cache).is_consistent(),
    ensures
        final(dst)@.len() == old(dst)@.len(),
        forall|i: int|
            frame_len(dst_w, dst_h) <= i < old(dst)@.len() ==> final(dst)@[i] == old(dst)@[i],
        old(dst)@.len() < frame_len(dst_w, dst_h) ==> final(dst)@ == old(dst)@ && *final(cache)
            == *old(cache),
        old(dst)@.len() >= frame_len(dst_w, dst_h) && (src_w == 0 || src_h == 0 || dst_w == 0
            || dst_h == 0) ==> *final(cache) == *old(cache) && forall|i: int|
            0 <= i < frame_len(dst_w, dst_h) ==> final(dst)@[i] == 0,
        old(dst)@.len() >= frame_len(dst_w, dst_h) && src_w > 0 && src_h > 0 && dst_w > 0
            && dst_h > 0 && src_w == dst_w && src_h == dst_h ==> *final(cache) == *old(cache)
            && forall|i: int|
            0 <= i < frame_len(dst_w, dst_h) ==> final(dst)@[i] == (if i < src@.len() {
                src@[i]
            } else {
                0
            }),
        old(dst)@.len() >= frame_len(dst_w, dst_h) && src_w > 0 && src_h > 0 && dst_w > 0
            && dst_h > 0 && !(src_w == dst_w && src_h == dst_h) ==> StretchCache::ensured(
            *old(cache),
            *final(cache),
            src_w,
            dst_w,
        ) && (is_stretched(
            final(dst)@,
            old(dst)@,
            src@,
            (StretchDims { src_w, src_h, dst_w, dst_h }),
            true,
        ) || is_stretched(
            final(dst)@,
            old(dst)@,
            src@,
            (StretchDims { src_w, src_h, dst_w, dst_h }),
            false,
        )),
        old(dst)@.len() >= frame_len(dst_w, dst_h) && src_w > 0 && src_h > 0 && dst_w > 0
            && dst_h > 0 && src@.len() >= frame_len(src_w, src_h) ==> is_exact_stretch(
            final(dst)@,
            src@,
            (StretchDims { src_w, src_h, dst_w, dst_h }),
        ),
        final(cache).is_consistent(),
{
    let ghost dims = StretchDims { src_w, src_h, dst_w, dst_h };
    let needed = (dst_w * dst_h * 4) as usize;
    if dst.len() < needed {
        return ;
    }
    if src_w == 0 || src_h == 0 || dst_w == 0 || dst_h == 0 {
        let mut i: usize = 0;
        while i < needed
            invariant
                i <= needed,
                needed == frame_len(dst_w, dst_h),
                dst@.len() == old(dst)@.len(),
                needed <= dst@.len(),
                forall|j: int| 0 <= j < i ==> dst@[j] == 0,
                forall|j: int| needed <= j < dst@.len() ==> dst@[j] == old(dst)@[j],
            decreases needed - i,
        {
            dst[i] = 0;
            i = i + 1;
        }
        return ;
    }
    if src_w == dst_w && src_h == dst_h {
        let copy_len = if needed < src.len() {
            needed
        } else {
            src.len()
        };
        let mut i: usize = 0;
        while i < copy_len
            invariant
                i <= copy_len,
                copy_len <= needed,
                copy_len <= src@.len(),
                copy_len == needed || copy_len == src@.len(),
                needed == frame_len(dst_w, dst_h),
                dst@.len() == old(dst)@.len(),
                needed <= dst@.len(),
                forall|j: int| 0 <= j < i ==> dst@[j] == src@[j],
                forall|j: int| needed <= j < dst@.len() ==> dst@[j] == old(dst)@[j],
            decreases copy_len - i,
        {
            dst[i] = src[i];
            i = i + 1;
        }
        while i < needed
            invariant
                copy_len <= i <= needed,
                copy_len <= src@.len(),
                copy_len == needed || copy_len == src@.len(),
                needed == frame_len(dst_w, dst_h),
                dst@.len() == old(dst)@.len(),
                needed <= dst@.len(),
                forall|j: int| 0 <= j < copy_len ==> dst@[j] == src@[j],
                forall|j: int| copy_len <= j < i ==> dst@[j] == 0,
                forall|j: int| needed <= j < dst@.len() ==> dst@[j] == old(dst)@[j],
            decreases needed - i,
        {
            dst[i] = 0;
            i = i + 1;
        }
        proof {
            if src@.len() >= frame_len(src_w, src_h) {
                assert forall|dx: int, dy: int, c: int|
                    0 <= dx < dst_w && 0 <= dy < dst_h && 0 <= c < 4 implies #[trigger] pixel_byte(
                        dst@,
                        dx,
                        dy,
                        dst_w as int,
                        c,
                    ) == pixel_byte(
                        src@,
                        sample_coord(dx, src_w as int, dst_w as int),
                        sample_coord(dy, src_h as int, dst_h as int),
                        src_w as int,
                        c,
                    ) by {
                    lemma_sample_identity(dx, src_w as int);
                    lemma_sample_identity(dy, src_h as int);
                    lemma_pixel_in_frame(dx, dy, dst_w as int, dst_h as int);
                }
            }
        }
        return ;
    }
    proof {
        assert(frame_len(dst_w, dst_h) == needed);
    }
    cache.ensure(src_w, dst_w);
    let src_ok = casts_to_words(src);
    let dst_ok = prefix_casts_to_words_mut(dst, needed);
    if src_ok && dst_ok {
        stretch_u32_rows(dst, src, src_w, src_h, dst_w, dst_h, cache);
        proof {
            if src@.len() >= frame_len(src_w, src_h) {
                lemma_full_source_is_exact(dst@, old(dst)@, src@, dims, true);
            }
        }
    } else {
        stretch_byte_rows(dst, src, src_w, src_h, dst_w, dst_h, needed, cache);
        proof {
            if src@.len() >= frame_len(src_w, src_h) {
                lemma_full_source_is_exact(dst@, old(dst)@, src@, dims, false);
            }
        }
    }
}

/// Fast integer nearest-neighbour stretch into a freshly allocated frame.
pub fn upscale_stretch(src: &[u8], src_w: u32, src_h: u32, dst_w: u32, dst_h: u32) -> (out: Vec<
    u8,
>)
    requires
        frame_len(dst_w, dst_h) <= u32::MAX,
        frame_len(src_w, src_h) <= usize::MAX,
    ensures
        out@.len() == frame_len(dst_w, dst_h),
        (src_w == 0 || src_h == 0 || dst_w == 0 || dst_h == 0) ==> forall|i: int|
            0 <= i < out@.len() ==> out@[i] == 0,
        src_w > 0 && src_h > 0 && src_w == dst_w && src_h == dst_h ==> forall|i: int|
            0 <= i < out@.len() ==> out@[i] == (if i < src@.len() {
                src@[i]
            } else {
                0
            }),
        src_w > 0 && src_h > 0 && dst_w > 0 && dst_h > 0 && !(src_w == dst_w && src_h == dst_h)
            ==> is_stretched(
            out@,
            Seq::new(out@.len(), |i: int| 0u8),
            src@,
            (StretchDims { src_w, src_h, dst_w, dst_h }),
            true,
        ) || is_stretched(
            out@,
            Seq::new(out@.len(), |i: int| 0u8),
            src@,
            (StretchDims { src_w, src_h, dst_w, dst_h }),
            false,
        ),
        src_w > 0 && src_h > 0 && dst_w > 0 && dst_h > 0 && src@.len() >= frame_len(src_w, src_h)
            ==> is_exact_stretch(out@, src@, (StretchDims { src_w, src_h, dst_w, dst_h })),
{
    let needed = match (dst_w as usize).checked_mul(dst_h as usize) {
        Some(p) => match p.checked_mul(4) {
            Some(n) => n,
            None => 0,
        },
        None => 0,
    };
    let mut dst = vec![0u8; needed];
    let ghost zeros = dst@;
    proof {
        assert(zeros =~= Seq::new(zeros.len(), |i: int| 0u8));
    }
    let mut cache = StretchCache::new();
    upscale_stretch_into(dst.as_mut_slice(), src, src_w, src_h, dst_w, dst_h, &mut cache);
    dst
}

} // verus!

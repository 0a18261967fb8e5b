//! Pixel-buffer plumbing around the GPU upscaler and the CPU samplers:
//! channel-order conversion, row alignment, readback de-padding, and
//! bounds-checked pixel access.
//!
//! Texture uploads and GPU readbacks happen outside; the byte arithmetic on
//! either side of them is here.

use vstd::prelude::*;

use crate::atlas::{at, lemma_offset_in_image, lemma_offset_unique};
use crate::overlay::pixel_byte;

verus! {

/// `value` rounded up to a multiple of `alignment`.
pub open spec fn align_to_spec(value: int, alignment: int) -> int {
    ((value + alignment - 1) / alignment) * alignment
}

/// `value` rounded up to a multiple of `alignment` (the row pitch GPU copies need).
pub fn align_to(value: u32, alignment: u32) -> (r: u32)
    requires
        alignment > 0,
        value + alignment - 1 <= u32::MAX,
    ensures
        r == align_to_spec(value as int, alignment as int),
        r >= value,
        r % alignment == 0,
        r < value + alignment,
{
    let q = (value + (alignment - 1)) / alignment;
    proof {
        let a = alignment as int;
        let v = value as int;
        vstd::arithmetic::div_mod::lemma_fundamental_div_mod(v + a - 1, a);
        vstd::arithmetic::div_mod::lemma_mod_pos_bound(v + a - 1, a);
        assert(q * a <= v + a - 1) by (nonlinear_arith)
            requires
                v + a - 1 == a * q + (v + a - 1) % a,
                0 <= (v + a - 1) % a,
        ;
        assert(q * a >= v) by (nonlinear_arith)
            requires
                v + a - 1 == a * q + (v + a - 1) % a,
                (v + a - 1) % a < a,
        ;
        vstd::arithmetic::div_mod::lemma_mod_multiples_basic(q as int, a);
    }
    q * alignment
}

/// `old` truncated or zero-extended to `n` bytes (as `Vec::resize(n, 0)`).
pub open spec fn resized(old: Seq<u8>, n: int) -> Seq<u8> {
    Seq::new(n as nat, |i: int| if i < old.len() { old[i] } else { 0u8 })
}

/// Resize `v` to `n` bytes, dropping bytes past `n` or appending zeros.
pub fn resize_zeroed(v: &mut Vec<u8>, n: usize)
    ensures
        final(v)@ == resized(old(v)@, n as int),
{
    while v.len() > n
        invariant
            v@ == old(v)@.take(v@.len() as int),
            v@.len() <= old(v)@.len(),
            v@.len() >= n || v@.len() == old(v)@.len(),
        decreases v@.len(),
    {
        v.pop();
        proof {
            assert(v@ =~= old(v)@.take(v@.len() as int));
        }
    }
    let ghost kept = v@;
    while v.len() < n
        invariant
            kept == old(v)@.take(kept.len() as int),
            kept.len() <= n,
            kept.len() < n ==> kept.len() == old(v)@.len(),
            kept.len() <= v@.len() <= n,
            v@.subrange(0, kept.len() as int) == kept,
            forall|i: int| kept.len() <= i < v@.len() ==> v@[i] == 0u8,
        decreases n - v@.len(),
    {
        v.push(0u8);
        proof {
            assert(v@.subrange(0, kept.len() as int) =~= kept);
        }
    }
    assert forall|i: int| 0 <= i < n implies v@[i] == resized(old(v)@, n as int)[i] by {
        if i < kept.len() {
            assert(v@[i] == v@.subrange(0, kept.len() as int)[i]);
        }
    }
    assert(v@ =~= resized(old(v)@, n as int));
}

/// Pixel `p` of `a` is pixel `p` of `b` with its first and third bytes exchanged.
pub open spec fn is_swapped_pixel(a: Seq<u8>, b: Seq<u8>, p: int) -> bool {
    &&& pixel_byte(a, p, 0) == pixel_byte(b, p, 2)
    &&& pixel_byte(a, p, 1) == pixel_byte(b, p, 1)
    &&& pixel_byte(a, p, 2) == pixel_byte(b, p, 0)
    &&& pixel_byte(a, p, 3) == pixel_byte(b, p, 3)
}

/// Convert a `width x height` BGRA frame `src` into the RGBA staging buffer
/// `dst` (resized to fit the frame), recording the frame size in `dims`.
/// Pixels are converted as far as both buffers hold whole pixels.
pub fn bgra_to_rgba_into(dst: &mut Vec<u8>, dims: &mut (u32, u32), src: &[u8], width: u32, height: u32)
    requires
        width * height * 4 <= u32::MAX,
    ensures
        *final(dims) == (width, height),
        final(dst)@.len() == width * height * 4,
        ({
            let n = width * height * 4;
            let base = resized(old(dst)@, n);
            let m: int = if src@.len() / 4 < n / 4 {
                (src@.len() / 4) as int
            } else {
                n / 4
            };
            &&& forall|p: int| 0 <= p < m ==> #[trigger] is_swapped_pixel(final(dst)@, src@, p)
            &&& forall|i: int| 4 * m <= i < n ==> #[trigger] final(dst)@[i] == base[i]
        }),
{
    let needed = (width * height * 4) as usize;
    if dims.0 != width || dims.1 != height || dst.len() != needed {
        resize_zeroed(dst, needed);
        *dims = (width, height);
    } else {
        assert(dst@ =~= resized(dst@, needed as int));
    }
    let ghost base = dst@;
    let m = if src.len() / 4 < needed / 4 {
        src.len() / 4
    } else {
        needed / 4
    };
    let mut p: usize = 0;
    while p < m
        invariant
            dst@.len() == needed,
            base.len() == needed,
            m <= src@.len() / 4,
            m <= needed / 4,
            p <= m,
            forall|q: int| 0 <= q < p ==> #[trigger] is_swapped_pixel(dst@, src@, q),
            forall|i: int| 4 * p <= i < needed ==> #[trigger] dst@[i] == base[i],
        decreases m - p,
    {
        let o = 4 * p;
        let ghost prev = dst@;
        let b0 = src[o + 2];
        let b1 = src[o + 1];
        let b2 = src[o];
        let b3 = src[o + 3];
        dst.set(o, b0);
        dst.set(o + 1, b1);
        dst.set(o + 2, b2);
        dst.set(o + 3, b3);
        proof {
            assert forall|q: int| 0 <= q < p + 1 implies #[trigger] is_swapped_pixel(dst@, src@, q) by {
                if q < p {
                    assert(is_swapped_pixel(prev, src@, q));
                }
            }
        }
        p = p + 1;
    }
}

/// Swap the red and blue bytes of every whole 4-byte pixel in place
/// (RGBA to BGRA and back); a trailing partial pixel is left as it was.
pub fn rgba_to_bgra_inplace(pixels: &mut [u8])
    ensures
        final(pixels)@.len() == old(pixels)@.len(),
        forall|p: int|
            0 <= p < old(pixels)@.len() / 4 ==> #[trigger] is_swapped_pixel(final(pixels)@, old(pixels)@, p),
        forall|i: int|
            old(pixels)@.len() / 4 * 4 <= i < old(pixels)@.len() ==> #[trigger] final(pixels)@[i] == old(
                pixels,
            )@[i],
{
    let n = pixels.len();
    let count = n / 4;
    let mut p: usize = 0;
    while p < count
        invariant
            n == pixels@.len(),
            n == old(pixels)@.len(),
            count == n / 4,
            p <= count,
            forall|q: int| 0 <= q < p ==> #[trigger] is_swapped_pixel(pixels@, old(pixels)@, q),
            forall|i: int| 4 * p <= i < n ==> #[trigger] pixels@[i] == old(pixels)@[i],
        decreases count - p,
    {
        let o = 4 * p;
        let ghost prev = pixels@;
        let red = pixels[o];
        let blue = pixels[o + 2];
        pixels[o] = blue;
        pixels[o + 2] = red;
        proof {
            assert forall|q: int| 0 <= q < p + 1 implies #[trigger] is_swapped_pixel(
                pixels@,
                old(pixels)@,
                q,
            ) by {
                if q < p {
                    assert(is_swapped_pixel(prev, old(pixels)@, q));
                }
            }
        }
        p = p + 1;
    }
}

/// Byte offset of pixel `(x, y)` in a 4-byte-per-pixel image `width` pixels wide.
pub open spec fn pixel_offset_spec(width: int, x: int, y: int) -> int {
    (y * width + x) * 4
}

/// The pixel at `(x, y)` of `src` (`width` pixels wide), or opaque black
/// when the image does not hold it.
pub fn read_pixel(src: &[u8], width: u32, x: u32, y: u32) -> (px: [u8; 4])
    requires
        pixel_offset_spec(width as int, x as int, y as int) + 3 <= usize::MAX,
    ensures
        ({
            let o = pixel_offset_spec(width as int, x as int, y as int);
            if o + 3 >= src@.len() {
                px@ == seq![0u8, 0u8, 0u8, 255u8]
            } else {
                px@ == seq![src@[o], src@[o + 1], src@[o + 2], src@[o + 3]]
            }
        }),
{
    proof {
        assert(0 <= (y as int) * (width as int)) by (nonlinear_arith);
    }
    let offset = (y as usize * width as usize + x as usize) * 4;
    if offset + 3 >= src.len() {
        let px = [0u8, 0, 0, 255];
        assert(px@ =~= seq![0u8, 0u8, 0u8, 255u8]);
        return px;
    }
    let px = [src[offset], src[offset + 1], src[offset + 2], src[offset + 3]];
    assert(px@ =~= seq![src@[offset as int], src@[offset + 1], src@[offset + 2], src@[offset + 3]]);
    px
}

/// Write `color` at pixel `(x, y)` of `dst` (`width` pixels wide) when the
/// image holds it; otherwise leave `dst` unchanged.
pub fn write_pixel(dst: &mut [u8], width: u32, x: u32, y: u32, color: [u8; 4])
    requires
        pixel_offset_spec(width as int, x as int, y as int) + 3 <= usize::MAX,
    ensures
        ({
            let o = pixel_offset_spec(width as int, x as int, y as int);
            if o + 3 >= old(dst)@.len() {
                final(dst)@ == old(dst)@
            } else {
                final(dst)@ == old(dst)@.update(o, color[0]).update(o + 1, color[1]).update(
                    o + 2,
                    color[2],
                ).update(o + 3, color[3])
            }
        }),
{
    proof {
        assert(0 <= (y as int) * (width as int)) by (nonlinear_arith);
    }
    let offset = (y as usize * width as usize + x as usize) * 4;
    if offset + 3 >= dst.len() {
        return;
    }
    dst[offset] = color[0];
    dst[offset + 1] = color[1];
    dst[offset + 2] = color[2];
    dst[offset + 3] = color[3];
}

/// The output of a GPU readback: each of the `rows` rows of `row_bytes`
/// bytes copied out of `mapped` (whose rows are `pitch` bytes apart) when
/// the mapping holds the whole row; other rows keep what `base` held.
pub open spec fn unpadded(base: Seq<u8>, mapped: Seq<u8>, row_bytes: int, pitch: int, x: int, y: int) -> u8 {
    if y * pitch + row_bytes <= mapped.len() {
        mapped[y * pitch + x]
    } else {
        at(base, x, y, row_bytes)
    }
}

/// Copy the `dst_w x dst_h` readback rows out of the padded mapping
/// `mapped` (rows `pitch` bytes apart) into the tightly packed `output`
/// (resized to fit), recording the frame size in `dims`.
pub fn copy_readback_rows(
    output: &mut Vec<u8>,
    dims: &mut (u32, u32),
    mapped: &[u8],
    dst_w: u32,
    dst_h: u32,
    pitch: u32,
)
    requires
        dst_w * 4 <= u32::MAX,
        dst_w * dst_h * 4 <= u32::MAX,
        dst_h * pitch + dst_w * 4 <= usize::MAX,
    ensures
        *final(dims) == (dst_w, dst_h),
        final(output)@.len() == dst_w * dst_h * 4,
        forall|x: int, y: int|
            0 <= x < dst_w * 4 && 0 <= y < dst_h ==> #[trigger] at(final(output)@, x, y, dst_w * 4)
                == unpadded(
                resized(old(output)@, dst_w * dst_h * 4),
                mapped@,
                dst_w * 4,
                pitch as int,
                x,
                y,
            ),
{
    let row_bytes = (dst_w * 4) as usize;
    let needed = (dst_w * dst_h * 4) as usize;
    assert(needed == row_bytes * dst_h) by (nonlinear_arith)
        requires
            needed == dst_w * dst_h * 4,
            row_bytes == dst_w * 4,
    ;
    if dims.0 != dst_w || dims.1 != dst_h || output.len() != needed {
        resize_zeroed(output, needed);
        *dims = (dst_w, dst_h);
    } else {
        assert(output@ =~= resized(output@, needed as int));
    }
    let ghost base = output@;
    let ghost w = row_bytes as int;
    let mut row: usize = 0;
    while row < dst_h as usize
        invariant
            output@.len() == needed,
            base.len() == needed,
            needed == row_bytes * dst_h,
            w == row_bytes,
            dst_h * pitch + row_bytes <= usize::MAX,
            row <= dst_h,
            forall|x: int, y: int|
                0 <= x < w && 0 <= y < dst_h ==> #[trigger] at(output@, x, y, w) == if y < row {
                    unpadded(base, mapped@, w, pitch as int, x, y)
                } else {
                    at(base, x, y, w)
                },
        decreases dst_h - row,
    {
        assert(row * (pitch as int) + row_bytes <= usize::MAX) by (nonlinear_arith)
            requires
                row < dst_h,
                dst_h * pitch + row_bytes <= usize::MAX,
        ;
        let src_start = row * pitch as usize;
        let src_end = src_start + row_bytes;
        assert(row * row_bytes + row_bytes <= needed) by (nonlinear_arith)
            requires
                row < dst_h,
                needed == row_bytes * dst_h,
        ;
        let dst_start = row * row_bytes;
        if src_end <= mapped.len() {
            let mut c: usize = 0;
            while c < row_bytes
                invariant
                    output@.len() == needed,
                    base.len() == needed,
                    needed == row_bytes * dst_h,
                    w == row_bytes,
                    row < dst_h,
                    dst_start == row * row_bytes,
                    dst_start + row_bytes <= needed,
                    src_start == row * pitch,
                    src_end == src_start + row_bytes,
                    src_end <= mapped@.len(),
                    c <= row_bytes,
                    forall|x: int, y: int|
                        0 <= x < w && 0 <= y < dst_h ==> #[trigger] at(output@, x, y, w) == if y < row || (
                        y == row && x < c) {
                            unpadded(base, mapped@, w, pitch as int, x, y)
                        } else {
                            at(base, x, y, w)
                        },
                decreases row_bytes - c,
            {
                let ghost prev = output@;
                output.set(dst_start + c, mapped[src_start + c]);
                proof {
                    assert forall|x: int, y: int| 0 <= x < w && 0 <= y < dst_h implies #[trigger] at(
                        output@,
                        x,
                        y,
                        w,
                    ) == if y < row || (y == row && x < c + 1) {
                        unpadded(base, mapped@, w, pitch as int, x, y)
                    } else {
                        at(base, x, y, w)
                    } by {
                        lemma_offset_in_image(x, y, w, dst_h as int);
                        if y * w + x == dst_start + c {
                            lemma_offset_unique(x, y, c as int, row as int, w);
                        } else {
                            assert(at(output@, x, y, w) == at(prev, x, y, w));
                        }
                    }
                }
                c = c + 1;
            }
        }
        row = row + 1;
    }
}

} // verus!

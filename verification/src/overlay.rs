//! Geometry and buffer arithmetic of the fullscreen layer-shell overlays, and
//! the frame-rate policy that drives them.
//!
//! The Wayland objects live outside; what size a surface renders at, which
//! margins centre it, what layout is published for an output, and how pixel
//! buffers are sized and filled are decided here.

use vstd::prelude::*;
use std::collections::HashMap;

verus! {

broadcast use vstd::std_specs::hash::group_hash_axioms;

/// Position, size and refresh rate of one output, as published to renderers.
#[derive(Clone, Copy, Debug, PartialEq, Eq, Structural)]
pub struct OutputLayout {
    pub id: u32,
    pub width: u32,
    pub height: u32,
    pub refresh_rate_hz: u32,
    pub x: i32,
    pub y: i32,
    pub scale: i32,
}

/// The larger of two integers.
pub open spec fn max_u(a: int, b: int) -> int {
    if a >= b {
        a
    } else {
        b
    }
}

/// `a - b`, or 0 when `b > a`.
pub open spec fn sub_or_zero(a: int, b: int) -> int {
    if a >= b {
        a - b
    } else {
        0
    }
}

/// Size an overlay renders at: the configured size, grown to the output's
/// current mode when one is known (compositors with tiling gaps configure less).
pub open spec fn render_dimensions_spec(mode: Option<(u32, u32)>, w: u32, h: u32) -> (int, int) {
    match mode {
        Some((nw, nh)) => (max_u(nw as int, w as int), max_u(nh as int, h as int)),
        None => (w as int, h as int),
    }
}

/// Margins `(top, right, bottom, left)` that centre a native-size surface over
/// a smaller configured area: minus half the shortfall on each axis.
pub open spec fn tiling_margins_spec(mode: Option<(u32, u32)>, w: u32, h: u32) -> (int, int, int, int) {
    match mode {
        Some((nw, nh)) => {
            let inset_x = sub_or_zero(nw as int, w as int) / 2;
            let inset_y = sub_or_zero(nh as int, h as int) / 2;
            (-inset_y, -inset_x, -inset_y, -inset_x)
        },
        None => (0, 0, 0, 0),
    }
}

/// The value a map holds for `k`, if any.
pub open spec fn map_get<K, V>(m: Map<K, V>, k: K) -> Option<V> {
    if m.contains_key(k) {
        Some(m[k])
    } else {
        None
    }
}

/// Current mode size of `output_id`, if the output reported one.
fn mode_size(output_id: u32, mode_sizes: &HashMap<u32, (u32, u32)>) -> (r: Option<(u32, u32)>)
    ensures
        r == map_get(mode_sizes@, output_id),
{
    match mode_sizes.get(&output_id) {
        Some(s) => Some(*s),
        None => None,
    }
}

/// Size the overlay of `output_id` renders at after a configure of
/// `configured_w x configured_h`.
pub fn render_dimensions(
    output_id: u32,
    configured_w: u32,
    configured_h: u32,
    mode_sizes: &HashMap<u32, (u32, u32)>,
) -> (r: (u32, u32))
    ensures
        (r.0 as int, r.1 as int) == render_dimensions_spec(
            map_get(mode_sizes@, output_id),
            configured_w,
            configured_h,
        ),
{
    match mode_size(output_id, mode_sizes) {
        Some((native_w, native_h)) => {
            let w = if native_w >= configured_w {
                native_w
            } else {
                configured_w
            };
            let h = if native_h >= configured_h {
                native_h
            } else {
                configured_h
            };
            (w, h)
        },
        None => (configured_w, configured_h),
    }
}

/// Layer-surface margins `(top, right, bottom, left)` for the overlay of `output_id`.
pub fn tiling_margins(
    output_id: u32,
    configured_w: u32,
    configured_h: u32,
    mode_sizes: &HashMap<u32, (u32, u32)>,
) -> (r: (i32, i32, i32, i32))
    ensures
        (r.0 as int, r.1 as int, r.2 as int, r.3 as int) == tiling_margins_spec(
            map_get(mode_sizes@, output_id),
            configured_w,
            configured_h,
        ),
{
    match mode_size(output_id, mode_sizes) {
        Some((native_w, native_h)) => {
            let inset_x = native_w.saturating_sub(configured_w) / 2;
            let inset_y = native_h.saturating_sub(configured_h) / 2;
            let m_x: i32 = if inset_x > 0 {
                -(inset_x as i32)
            } else {
                0
            };
            let m_y: i32 = if inset_y > 0 {
                -(inset_y as i32)
            } else {
                0
            };
            (m_y, m_x, m_y, m_x)
        },
        None => (0, 0, 0, 0),
    }
}

/// The layout published for `output_id` once configured at `render_w x render_h`:
/// its reported refresh rate (60 Hz when unknown), origin (0, 0 when unknown)
/// and scale (1 when unknown).
pub open spec fn configured_layout_spec(
    output_id: u32,
    render_w: u32,
    render_h: u32,
    refresh_hz: Map<u32, u32>,
    origins: Map<u32, (i32, i32)>,
    scales: Map<u32, i32>,
) -> OutputLayout {
    let origin = match map_get(origins, output_id) {
        Some(o) => o,
        None => (0i32, 0i32),
    };
    OutputLayout {
        id: output_id,
        width: render_w,
        height: render_h,
        refresh_rate_hz: match map_get(refresh_hz, output_id) {
            Some(hz) => hz,
            None => 60,
        },
        x: origin.0,
        y: origin.1,
        scale: match map_get(scales, output_id) {
            Some(s) => s,
            None => 1,
        },
    }
}

/// The layout to publish for a configured output (see [`configured_layout_spec`]).
pub fn configured_layout(
    output_id: u32,
    render_w: u32,
    render_h: u32,
    refresh_hz: &HashMap<u32, u32>,
    origins: &HashMap<u32, (i32, i32)>,
    scales: &HashMap<u32, i32>,
) -> (l: OutputLayout)
    ensures
        l == configured_layout_spec(output_id, render_w, render_h, refresh_hz@, origins@, scales@),
{
    let refresh_rate_hz = match refresh_hz.get(&output_id) {
        Some(hz) => *hz,
        None => 60,
    };
    let (x, y) = match origins.get(&output_id) {
        Some(o) => *o,
        None => (0, 0),
    };
    let scale = match scales.get(&output_id) {
        Some(s) => *s,
        None => 1,
    };
    OutputLayout { id: output_id, width: render_w, height: render_h, refresh_rate_hz, x, y, scale }
}

/// What to do with an overlay on a layer-surface configure.
#[derive(Clone, Copy, Debug, PartialEq, Eq, Structural)]
pub struct OverlayConfigure {
    /// Margins to set before acknowledging.
    pub margin_top: i32,
    pub margin_right: i32,
    pub margin_bottom: i32,
    pub margin_left: i32,
    /// Size the overlay renders at.
    pub render_w: u32,
    pub render_h: u32,
    /// Layout to publish for the output.
    pub layout: OutputLayout,
    /// Whether to attach a solid-colour buffer: only outside screensaver
    /// mode, with a colour to show and shared memory to allocate it in.
    pub attach_solid: bool,
}

/// Plan the handling of a configure of `width x height` for `output_id`:
/// nothing when the output has no overlay; otherwise margins, render size,
/// published layout, and a solid buffer unless frames come from a screensaver
/// (and only when a colour is set and shared memory is bound).
pub fn configure_overlay(
    has_overlay: bool,
    screensaver_mode: bool,
    has_appearance: bool,
    shm_bound: bool,
    output_id: u32,
    width: u32,
    height: u32,
    mode_sizes: &HashMap<u32, (u32, u32)>,
    refresh_hz: &HashMap<u32, u32>,
    origins: &HashMap<u32, (i32, i32)>,
    scales: &HashMap<u32, i32>,
) -> (r: Option<OverlayConfigure>)
    ensures
        !has_overlay ==> r is None,
        has_overlay ==> (r matches Some(c) && {
            let mode = map_get(mode_sizes@, output_id);
            &&& (c.margin_top as int, c.margin_right as int, c.margin_bottom as int, c.margin_left as int)
                == tiling_margins_spec(mode, width, height)
            &&& (c.render_w as int, c.render_h as int) == render_dimensions_spec(mode, width, height)
            &&& c.layout == configured_layout_spec(
                output_id,
                c.render_w,
                c.render_h,
                refresh_hz@,
                origins@,
                scales@,
            )
            &&& c.attach_solid == (!screensaver_mode && has_appearance && shm_bound)
        }),
{
    if !has_overlay {
        return None;
    }
    let (margin_top, margin_right, margin_bottom, margin_left) = tiling_margins(
        output_id,
        width,
        height,
        mode_sizes,
    );
    let (render_w, render_h) = render_dimensions(output_id, width, height, mode_sizes);
    let layout = configured_layout(output_id, render_w, render_h, refresh_hz, origins, scales);
    Some(
        OverlayConfigure {
            margin_top,
            margin_right,
            margin_bottom,
            margin_left,
            render_w,
            render_h,
            layout,
            attach_solid: !screensaver_mode && has_appearance && shm_bound,
        },
    )
}

/// Whether user input dismisses the overlay: only while it is visible and
/// after the grace period that follows showing it.
pub fn dismiss_from_input(visible: bool, within_grace: bool) -> (r: bool)
    ensures
        r == (visible && !within_grace),
{
    visible && !within_grace
}

/// Refresh rate in Hz from a `wl_output` mode's refresh in mHz (at least 1).
pub fn refresh_hz_from_mode(refresh_mhz: i32) -> (hz: u32)
    ensures
        hz as int == max_u(max_u(refresh_mhz as int, 1000) / 1000, 1),
{
    let r = if refresh_mhz >= 1000 {
        refresh_mhz
    } else {
        1000
    };
    let hz = (r / 1000) as u32;
    if hz >= 1 {
        hz
    } else {
        1
    }
}

/// How the presentation rate follows several outputs (`TRANCE_PRESENT_SYNC`).
#[derive(Clone, Copy, Debug, PartialEq, Eq, Structural)]
pub enum SyncPolicy {
    /// The slowest output.
    Min,
    /// The primary output (the default).
    Primary,
    /// The fastest output.
    Max,
}

/// The policy named by `TRANCE_PRESENT_SYNC` (`None` when unset): `min`,
/// `max`, anything else the primary output.
pub open spec fn sync_policy_spec(value: Option<Seq<char>>) -> SyncPolicy {
    match value {
        Some(v) => if v == seq!['m', 'i', 'n'] {
            SyncPolicy::Min
        } else if v == seq!['m', 'a', 'x'] {
            SyncPolicy::Max
        } else {
            SyncPolicy::Primary
        },
        None => SyncPolicy::Primary,
    }
}

/// The policy named by the value of `TRANCE_PRESENT_SYNC`.
pub fn sync_policy_from(value: Option<&str>) -> (p: SyncPolicy)
    ensures
        p == sync_policy_spec(crate::text::opt_view(value)),
{
    match value {
        Some(v) => {
            let chars = crate::text::str_chars(v);
            let min = ['m', 'i', 'n'];
            let max = ['m', 'a', 'x'];
            assert(min@ == seq!['m', 'i', 'n']);
            assert(max@ == seq!['m', 'a', 'x']);
            if crate::text::chars_equal(&chars, min.as_slice()) {
                SyncPolicy::Min
            } else if crate::text::chars_equal(&chars, max.as_slice()) {
                SyncPolicy::Max
            } else {
                SyncPolicy::Primary
            }
        },
        None => SyncPolicy::Primary,
    }
}

/// Lowest refresh rate among `layouts` (which is not empty).
pub open spec fn min_refresh(layouts: Seq<OutputLayout>) -> int
    decreases layouts.len(),
{
    if layouts.len() <= 1 {
        layouts[0].refresh_rate_hz as int
    } else {
        let rest = min_refresh(layouts.drop_last());
        let last = layouts.last().refresh_rate_hz as int;
        if last < rest {
            last
        } else {
            rest
        }
    }
}

/// Highest refresh rate among `layouts` (which is not empty).
pub open spec fn max_refresh(layouts: Seq<OutputLayout>) -> int
    decreases layouts.len(),
{
    if layouts.len() <= 1 {
        layouts[0].refresh_rate_hz as int
    } else {
        let rest = max_refresh(layouts.drop_last());
        let last = layouts.last().refresh_rate_hz as int;
        if last > rest {
            last
        } else {
            rest
        }
    }
}

/// Presentation frame rate: a single output's own rate, several outputs'
/// rate by `policy`, 60 Hz with none; never below 60 Hz.
pub open spec fn presentation_refresh_spec(
    layouts: Seq<OutputLayout>,
    primary: OutputLayout,
    policy: SyncPolicy,
) -> int {
    if layouts.len() == 0 {
        60
    } else if layouts.len() == 1 {
        max_u(layouts[0].refresh_rate_hz as int, 60)
    } else {
        match policy {
            SyncPolicy::Min => max_u(min_refresh(layouts), 60),
            SyncPolicy::Max => max_u(max_refresh(layouts), 60),
            SyncPolicy::Primary => max_u(primary.refresh_rate_hz as int, 60),
        }
    }
}

/// Presentation frame rate for the current outputs (see [`presentation_refresh_spec`]).
pub fn presentation_refresh_hz(layouts: &Vec<OutputLayout>, primary: OutputLayout, policy: SyncPolicy) -> (hz:
    u32)
    ensures
        hz as int == presentation_refresh_spec(layouts@, primary, policy),
{
    if layouts.len() == 0 {
        return 60;
    }
    if layouts.len() == 1 {
        let own = layouts[0].refresh_rate_hz;
        return if own >= 60 {
            own
        } else {
            60
        };
    }
    let mut lo = layouts[0].refresh_rate_hz;
    let mut hi = layouts[0].refresh_rate_hz;
    let mut i: usize = 1;
    while i < layouts.len()
        invariant
            1 <= i <= layouts@.len(),
            lo as int == min_refresh(layouts@.take(i as int)),
            hi as int == max_refresh(layouts@.take(i as int)),
        decreases layouts@.len() - i,
    {
        let hz = layouts[i].refresh_rate_hz;
        proof {
            assert(layouts@.take(i + 1).drop_last() == layouts@.take(i as int));
        }
        if hz < lo {
            lo = hz;
        }
        if hz > hi {
            hi = hz;
        }
        i = i + 1;
    }
    proof {
        assert(layouts@.take(i as int) == layouts@);
    }
    let chosen = match policy {
        SyncPolicy::Min => lo,
        SyncPolicy::Max => hi,
        SyncPolicy::Primary => primary.refresh_rate_hz,
    };
    if chosen >= 60 {
        chosen
    } else {
        60
    }
}

/// `a * b` clamped to `u32::MAX`.
pub open spec fn sat_mul_u32(a: int, b: int) -> int {
    if a * b > u32::MAX {
        u32::MAX as int
    } else {
        a * b
    }
}

/// Byte length of a `width x height` ARGB8888 buffer (stride and length
/// saturate at `u32::MAX`).
pub open spec fn buffer_length_spec(width: u32, height: u32) -> int {
    sat_mul_u32(sat_mul_u32(width as int, 4), height as int)
}

/// Byte length of a `width x height` ARGB8888 buffer.
pub fn buffer_length(width: u32, height: u32) -> (len: usize)
    ensures
        len as int == buffer_length_spec(width, height),
{
    let stride_wide = width as u64 * 4;
    let stride: u32 = if stride_wide > u32::MAX as u64 {
        u32::MAX
    } else {
        stride_wide as u32
    };
    assert(stride as u64 * height as u64 <= u64::MAX) by (nonlinear_arith)
        requires
            stride <= u32::MAX,
            height <= u32::MAX,
    ;
    let length_wide = stride as u64 * height as u64;
    let length: u32 = if length_wide > u32::MAX as u64 {
        u32::MAX
    } else {
        length_wide as u32
    };
    length as usize
}

/// Bytes to copy into a mapped `width x height` buffer of `mapped_len` bytes
/// from `pixels_len` bytes of frame, or `None` when either is too short.
pub fn frame_copy_len(width: u32, height: u32, pixels_len: usize, mapped_len: usize) -> (r: Option<usize>)
    ensures
        match r {
            Some(n) => n == buffer_length_spec(width, height) && n <= pixels_len && n <= mapped_len,
            None => pixels_len < buffer_length_spec(width, height) || mapped_len < buffer_length_spec(
                width,
                height,
            ),
        },
{
    let length = buffer_length(width, height);
    if pixels_len < length || length > mapped_len {
        None
    } else {
        Some(length)
    }
}

/// Whether a frame of `width x height` needs a new buffer in place of the
/// current one (`None` when there is none).
pub fn needs_new_buffer(current: Option<(u32, u32)>, width: u32, height: u32) -> (r: bool)
    ensures
        r == match current {
            Some((w, h)) => w != width || h != height,
            None => true,
        },
{
    match current {
        Some((w, h)) => w != width || h != height,
        None => true,
    }
}

/// Size the viewport shows a frame at: the overlay's configured size, each
/// axis falling back to the frame's own size while unconfigured (zero).
pub fn frame_destination(overlay_w: u32, overlay_h: u32, width: u32, height: u32) -> (r: (u32, u32))
    ensures
        r.0 == if overlay_w > 0 {
            overlay_w
        } else {
            width
        },
        r.1 == if overlay_h > 0 {
            overlay_h
        } else {
            height
        },
{
    let w = if overlay_w > 0 {
        overlay_w
    } else {
        width
    };
    let h = if overlay_h > 0 {
        overlay_h
    } else {
        height
    };
    (w, h)
}

/// Byte `c` (0 to 3) of pixel `p` of a 4-byte-per-pixel buffer.
pub open spec fn pixel_byte(s: Seq<u8>, p: int, c: int) -> u8 {
    s[4 * p + c]
}

/// Pixel `p` of `s` is opaque `color` (`[r, g, b]`) in ARGB8888 byte order.
pub open spec fn is_argb_pixel(s: Seq<u8>, p: int, color: [u8; 3]) -> bool {
    &&& pixel_byte(s, p, 0) == color[2]
    &&& pixel_byte(s, p, 1) == color[1]
    &&& pixel_byte(s, p, 2) == color[0]
    &&& pixel_byte(s, p, 3) == 0xFFu8
}

/// Fill `pixels` with opaque `color` (`[r, g, b]`) in ARGB8888 byte order
/// (blue, green, red, alpha); a trailing partial pixel is left as it was.
pub fn fill_argb8888(pixels: &mut [u8], color: [u8; 3])
    ensures
        final(pixels)@.len() == old(pixels)@.len(),
        forall|p: int|
            0 <= p < old(pixels)@.len() / 4 ==> #[trigger] is_argb_pixel(final(pixels)@, p, color),
        forall|i: int|
            old(pixels)@.len() / 4 * 4 <= i < old(pixels)@.len() ==> #[trigger] final(pixels)@[i] == old(
                pixels,
            )@[i],
{
    let n = pixels.len();
    let count = n / 4;
    let mut k: usize = 0;
    while k < count
        invariant
            n == pixels@.len(),
            n == old(pixels)@.len(),
            count == n / 4,
            k <= count,
            forall|p: int| 0 <= p < k ==> #[trigger] is_argb_pixel(pixels@, p, color),
            forall|i: int| 4 * k <= i < n ==> #[trigger] pixels@[i] == old(pixels)@[i],
        decreases count - k,
    {
        let offset = 4 * k;
        let ghost prev = pixels@;
        pixels[offset] = color[2];
        pixels[offset + 1] = color[1];
        pixels[offset + 2] = color[0];
        pixels[offset + 3] = 0xFF;
        proof {
            assert forall|p: int| 0 <= p < k + 1 implies #[trigger] is_argb_pixel(pixels@, p, color) by {
                if p < k {
                    assert(is_argb_pixel(prev, p, color));
                }
            }
        }
        k = k + 1;
    }
}

} // verus!

use idlescreen::pixels::{
    align_to, bgra_to_rgba_into, copy_readback_rows, read_pixel, resize_zeroed,
    rgba_to_bgra_inplace, write_pixel,
};

#[test]
fn align_rounds_up_to_multiples() {
    assert_eq!(align_to(0, 256), 0);
    assert_eq!(align_to(1, 256), 256);
    assert_eq!(align_to(256, 256), 256);
    assert_eq!(align_to(257, 256), 512);
}

#[test]
fn bgra_becomes_rgba_and_dims_are_recorded() {
    let mut dst = vec![7u8; 3];
    let mut dims = (0, 0);
    let src = vec![1u8, 2, 3, 4, 5, 6, 7, 8];
    bgra_to_rgba_into(&mut dst, &mut dims, &src, 2, 1);
    assert_eq!(dims, (2, 1));
    assert_eq!(dst, vec![3, 2, 1, 4, 7, 6, 5, 8]);
}

#[test]
fn short_source_converts_what_it_holds() {
    let mut dst = Vec::new();
    let mut dims = (0, 0);
    bgra_to_rgba_into(&mut dst, &mut dims, &[9, 8, 7, 6], 2, 1);
    assert_eq!(dst, vec![7, 8, 9, 6, 0, 0, 0, 0]);
}

#[test]
fn swap_in_place_leaves_partial_pixel() {
    let mut px = vec![1u8, 2, 3, 4, 5, 6];
    rgba_to_bgra_inplace(&mut px);
    assert_eq!(px, vec![3, 2, 1, 4, 5, 6]);
}

#[test]
fn resize_truncates_or_zero_fills() {
    let mut v = vec![1u8, 2, 3];
    resize_zeroed(&mut v, 5);
    assert_eq!(v, vec![1, 2, 3, 0, 0]);
    resize_zeroed(&mut v, 2);
    assert_eq!(v, vec![1, 2]);
}

#[test]
fn readback_rows_drop_the_row_padding() {
    // 1x2 frame, rows 8 bytes apart in the mapping.
    let mapped = vec![1u8, 2, 3, 4, 0, 0, 0, 0, 5, 6, 7, 8];
    let mut out = Vec::new();
    let mut dims = (0, 0);
    copy_readback_rows(&mut out, &mut dims, &mapped, 1, 2, 8);
    assert_eq!(out, vec![1, 2, 3, 4, 5, 6, 7, 8]);
    assert_eq!(dims, (1, 2));
    // A mapping too short for the second row leaves it zeroed.
    let mut out2 = Vec::new();
    copy_readback_rows(&mut out2, &mut dims, &mapped[..10], 1, 2, 8);
    assert_eq!(out2, vec![1, 2, 3, 4, 0, 0, 0, 0]);
}

#[test]
fn pixels_are_bounds_checked() {
    let img = vec![1u8, 2, 3, 4, 5, 6, 7, 8];
    assert_eq!(read_pixel(&img, 2, 1, 0), [5, 6, 7, 8]);
    assert_eq!(read_pixel(&img, 2, 0, 1), [0, 0, 0, 255]);
    let mut dst = vec![0u8; 8];
    write_pixel(&mut dst, 2, 1, 0, [9, 9, 9, 9]);
    assert_eq!(dst, vec![0, 0, 0, 0, 9, 9, 9, 9]);
    write_pixel(&mut dst, 2, 0, 1, [1, 1, 1, 1]);
    assert_eq!(dst, vec![0, 0, 0, 0, 9, 9, 9, 9]);
}

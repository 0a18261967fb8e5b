use idlescreen::atlas::{CellRenderer, GlyphBitmap};

fn glyph(ymin: i32, width: usize, height: usize, fill: u8) -> GlyphBitmap {
    GlyphBitmap { ymin, width, height, bitmap: vec![fill; width * height] }
}

#[test]
fn characters_get_slots_in_order_once() {
    let mut r = CellRenderer::new(2, 2, 2, 1);
    assert!(!r.is_atlas_dirty());
    assert_eq!(r.get_or_insert_atlas_char('a'), 0);
    assert_eq!(r.get_or_insert_atlas_char('b'), 1);
    assert_eq!(r.get_or_insert_atlas_char('a'), 0);
    assert!(r.is_atlas_dirty());
    r.reset_atlas_dirty();
    assert!(!r.is_atlas_dirty());
    assert_eq!(r.get_or_insert_atlas_char('b'), 1);
    assert!(!r.is_atlas_dirty());
}

#[test]
fn rebuild_grows_rows_and_blits_glyphs() {
    let mut r = CellRenderer::new(2, 2, 2, 1);
    for c in ['a', 'b', 'c'] {
        r.get_or_insert_atlas_char(c);
    }
    let glyphs = vec![glyph(0, 2, 2, 1), glyph(1, 1, 1, 2), glyph(5, 2, 2, 3)];
    r.rebuild_atlas_image(&glyphs);
    assert_eq!(r.atlas_rows, 2);
    assert!(!r.is_atlas_dirty());
    // 4 x 4 image: slot 0 top-left full of 1s, slot 1 one byte one row down,
    // slot 2 pushed below its cell (nothing drawn).
    let expected: Vec<u8> = vec![
        1, 1, 0, 0, //
        1, 1, 2, 0, //
        0, 0, 0, 0, //
        0, 0, 0, 0,
    ];
    assert_eq!(r.atlas_image, expected);
}

#[test]
fn atlas_info_rebuilds_only_when_dirty() {
    let mut r = CellRenderer::new(1, 1, 1, 1);
    r.get_or_insert_atlas_char('x');
    let glyphs = vec![glyph(0, 1, 1, 9)];
    {
        let (w, h, cols, rows, img, dirty) = r.atlas_info(&glyphs);
        assert_eq!((w, h, cols, rows, dirty), (1, 1, 1, 1, false));
        assert_eq!(img, &[9u8][..]);
    }
    let (_, _, _, _, img, _) = r.atlas_info(&Vec::new());
    assert_eq!(img, &[9u8][..]);
}

#[test]
fn prepopulation_covers_ascii_katakana_and_symbols() {
    let mut r = CellRenderer::new(8, 16, 16, 1);
    r.prepopulate_atlas();
    assert_eq!(r.get_or_insert_atlas_char(' '), 0);
    assert_eq!(r.get_or_insert_atlas_char('~'), 94);
    assert_eq!(r.get_or_insert_atlas_char('ｦ'), 95);
    let before = r.atlas_chars.len();
    assert_eq!(r.get_or_insert_atlas_char('✹'), before - 1);
    // digits and operators of the katakana run are already ASCII slots
    assert_eq!(r.atlas_chars.len(), 95 + 56 + 9);
}

use render::{glyphs_fit_in, glyph_offsets, max_glyph_height, FONT_ATLAS_PADDING, FONT_ATLAS_SIZE};

#[test]
fn glyphs_wrap_to_next_row() {
    // atlas 100 wide, padding 10: 40 + 10 and 30 + 10 fit, 20 + 10 does not after 90
    let dims = vec![(40, 12), (30, 20), (20, 5), (60, 7)];
    let max_height = max_glyph_height(&dims);
    assert_eq!(max_height, 20);
    let offsets = glyph_offsets(&dims, 100, 10, max_height);
    assert_eq!(offsets, vec![(0, 0), (50, 0), (0, 30), (30, 30)]);
}

#[test]
fn glyph_filling_the_row_exactly_stays() {
    let dims = vec![(90, 1), (10, 1)];
    let offsets = glyph_offsets(&dims, 100, 10, 1);
    // 90 + 10 == 100 fits; the next glyph does not fit in what is left (0)
    assert_eq!(offsets, vec![(0, 0), (0, 11)]);
}

#[test]
fn atlas_defaults() {
    assert_eq!(FONT_ATLAS_SIZE, 4096);
    assert_eq!(FONT_ATLAS_PADDING, 10);
    let dims = vec![(100, 30); 50];
    let offsets = glyph_offsets(&dims, FONT_ATLAS_SIZE, FONT_ATLAS_PADDING, 30);
    // 37 glyphs of 110 fit in 4096
    assert_eq!(offsets[36], (36 * 110, 0));
    assert_eq!(offsets[37], (0, 40));
    for i in 0..offsets.len() {
        for j in (i + 1)..offsets.len() {
            let (a, b) = (offsets[i], offsets[j]);
            assert!(a.0 + 100 <= b.0 || b.0 + 100 <= a.0 || a.1 + 30 <= b.1 || b.1 + 30 <= a.1);
        }
    }
}

#[test]
fn empty_atlas() {
    assert!(glyph_offsets(&vec![], 10, 1, 0).is_empty());
}

#[test]
fn glyph_fit_is_checked_before_placing() {
    let dims = vec![(30u32, 10u32), (30, 12), (50, 8)];
    assert!(glyphs_fit_in(&dims, 100, 10, 12));
    // a glyph that is not the last may not be wider than a row
    assert!(!glyphs_fit_in(&vec![(95u32, 1u32), (1, 1)], 100, 10, 1));
    // the last one may
    assert!(glyphs_fit_in(&vec![(1u32, 1u32), (95, 1)], 100, 10, 1));
    // width plus padding overflows
    assert!(!glyphs_fit_in(&vec![(u32::MAX, 1u32)], 100, 1, 1));
    // row height plus padding overflows
    assert!(!glyphs_fit_in(&vec![(1u32, 1u32)], 100, 10, u32::MAX));
    // rows run past u32
    let tall = vec![(60u32, 1u32), (60, 1), (60, 1)];
    assert!(glyphs_fit_in(&tall, 100, 10, u32::MAX / 2 - 10));
    assert!(!glyphs_fit_in(&tall, 100, 10, u32::MAX / 2));
}

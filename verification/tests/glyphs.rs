use gui_core::hmi::atlas_packing::{
    atlas_area_and_width, build_atlas_pixels, copy_glyph_pixels, pack_rects, place_rects,
    sort_by_height, GlyphBox,
};
use gui_core::hmi::text_engine::Span;
use gui_core::math::colors::RGBAColor;
use gui_core::math::rectangle::RectangleI32;

fn rgba(r: u8, g: u8, b: u8, a: u8) -> RGBAColor {
    RGBAColor::new_with_alpha(r, g, b, a)
}

#[test]
fn span_bounding_box() {
    let spans = [Span::new(3, 5, 4, 10), Span::new(1, 7, 2, 20), Span::new(2, 6, 0, 30)];
    assert_eq!(Span::bounding_box(&spans), RectangleI32::new(1, 5, 6, 3));
    let one = [Span::new(-2, -3, 5, 1)];
    assert_eq!(Span::bounding_box(&one), RectangleI32::new(-2, -3, 5, 1));
    assert_eq!(Span::default(), Span::new(0, 0, 0, 0));
}

#[test]
fn spans_become_pixels_bottom_row_first() {
    let spans = [Span::new(0, 0, 2, 255), Span::new(1, 1, 3, 128)];
    let (bbox, pixels) = Span::convert_to_pixels(&spans);
    assert_eq!(bbox, RectangleI32::new(0, 0, 4, 2));
    let clear = rgba(0, 0, 0, 0);
    let half = rgba(255, 255, 255, 128);
    let full = rgba(255, 255, 255, 255);
    assert_eq!(
        pixels,
        vec![clear, half, half, half, full, full, clear, clear]
    );
}

#[test]
fn later_spans_paint_over_earlier_ones() {
    let spans = [Span::new(5, 2, 3, 10), Span::new(6, 2, 1, 300)];
    let (bbox, pixels) = Span::convert_to_pixels(&spans);
    assert_eq!(bbox, RectangleI32::new(5, 2, 3, 1));
    // the coverage is cut to its low byte
    assert_eq!(
        pixels,
        vec![rgba(255, 255, 255, 10), rgba(255, 255, 255, 44), rgba(255, 255, 255, 10)]
    );
}

fn glyph(codepoint: u32, w: i32, h: i32) -> GlyphBox {
    GlyphBox::new(0, codepoint, RectangleI32::new(0, 0, w, h))
}

fn overlap(a: &RectangleI32, b: &RectangleI32) -> bool {
    a.x < b.x + b.w && b.x < a.x + a.w && a.y < b.y + b.h && b.y < a.y + a.h
}

#[test]
fn boxes_sort_tallest_first() {
    let mut boxes = vec![glyph(1, 4, 2), glyph(2, 2, 3), glyph(3, 0, 5), glyph(4, 3, 3)];
    sort_by_height(&mut boxes);
    let order: Vec<u32> = boxes.iter().map(|g| g.codepoint).collect();
    assert_eq!(order, vec![3, 2, 4, 1]);
}

#[test]
fn area_and_width_of_the_boxes() {
    let boxes = vec![glyph(1, 4, 2), glyph(2, 2, 3), glyph(3, 0, 5), glyph(4, 3, 3)];
    assert_eq!(atlas_area_and_width(&boxes), (23, 4));
    assert_eq!(atlas_area_and_width(&[]), (0, 0));
}

#[test]
fn packing_places_boxes_side_by_side() {
    let mut boxes = vec![glyph(1, 4, 2), glyph(2, 2, 3), glyph(3, 0, 5), glyph(4, 3, 3)];
    let (w, h) = pack_rects(&mut boxes, 6);
    assert_eq!((w, h), (5, 5));
    assert_eq!(boxes[0], glyph(3, 0, 5));
    assert_eq!(boxes[1], GlyphBox::new(0, 2, RectangleI32::new(0, 0, 2, 3)));
    assert_eq!(boxes[2], GlyphBox::new(0, 4, RectangleI32::new(2, 0, 3, 3)));
    assert_eq!(boxes[3], GlyphBox::new(0, 1, RectangleI32::new(0, 3, 4, 2)));
    for a in 1..4 {
        for b in 1..4 {
            if a != b {
                assert!(!overlap(&boxes[a].bbox, &boxes[b].bbox));
            }
        }
    }
}

#[test]
fn a_box_that_fills_a_space_removes_it() {
    let mut boxes = vec![glyph(1, 3, 4), glyph(2, 3, 4), glyph(3, 3, 4)];
    let (w, h) = place_rects(&mut boxes, 3);
    assert_eq!((w, h), (3, 12));
    assert_eq!(boxes[0].bbox, RectangleI32::new(0, 0, 3, 4));
    assert_eq!(boxes[1].bbox, RectangleI32::new(0, 4, 3, 4));
    assert_eq!(boxes[2].bbox, RectangleI32::new(0, 8, 3, 4));
}

#[test]
fn a_box_wider_than_the_strip_stays_in_place() {
    let mut boxes = vec![GlyphBox::new(1, 65, RectangleI32::new(7, 8, 10, 2)), glyph(66, 2, 2)];
    let (w, h) = place_rects(&mut boxes, 4);
    assert_eq!(boxes[0].bbox, RectangleI32::new(7, 8, 10, 2));
    assert_eq!(boxes[1].bbox, RectangleI32::new(0, 0, 2, 2));
    assert_eq!((w, h), (2, 2));
}

#[test]
fn packing_many_boxes_leaves_no_overlap() {
    let mut boxes = Vec::new();
    for i in 0..60u32 {
        let w = 1 + (i * 7 % 11) as i32;
        let h = 1 + (i * 5 % 9) as i32;
        boxes.push(glyph(i, w, h));
    }
    let (area, max_width) = atlas_area_and_width(&boxes);
    assert!(area > 0);
    let start_width = if max_width > 24 { max_width } else { 24 };
    let (w, h) = pack_rects(&mut boxes, start_width);
    assert!(w as i32 <= start_width);
    for a in 0..boxes.len() {
        let r = &boxes[a].bbox;
        assert!(r.x >= 0 && r.y >= 0);
        assert!((r.x + r.w) as u32 <= w && (r.y + r.h) as u32 <= h);
        for b in 0..boxes.len() {
            if a != b {
                assert!(!overlap(r, &boxes[b].bbox));
            }
        }
    }
    let mut codepoints: Vec<u32> = boxes.iter().map(|g| g.codepoint).collect();
    codepoints.sort();
    assert_eq!(codepoints, (0..60).collect::<Vec<u32>>());
}

#[test]
fn glyph_pixels_are_copied_row_by_row() {
    let clear = rgba(0, 0, 0, 0);
    let mut atlas = vec![clear; 12];
    let px: Vec<RGBAColor> = (1..=6).map(|a| rgba(0, 0, 0, a)).collect();
    // a box 3 wide and 2 high at column 1, row 1 of an atlas 4 wide
    copy_glyph_pixels(&mut atlas, 4, RectangleI32::new(1, 1, 3, 2), &px);
    let mut expected = vec![clear; 12];
    expected[5] = px[0];
    expected[6] = px[1];
    expected[7] = px[2];
    expected[9] = px[3];
    expected[10] = px[4];
    expected[11] = px[5];
    assert_eq!(atlas, expected);
    // a box empty across copies nothing
    copy_glyph_pixels(&mut atlas, 4, RectangleI32::new(40, 40, 0, 3), &[]);
    assert_eq!(atlas, expected);
}

#[test]
fn packed_glyphs_land_intact_in_the_atlas() {
    let spans_a = [Span::new(0, 0, 2, 200), Span::new(0, 1, 1, 100)];
    let spans_b = [Span::new(0, 0, 3, 50)];
    let (bbox_a, px_a) = Span::convert_to_pixels(&spans_a);
    let (bbox_b, px_b) = Span::convert_to_pixels(&spans_b);
    let mut boxes = vec![GlyphBox::new(0, 65, bbox_a), GlyphBox::new(0, 66, bbox_b)];
    let (w, h) = pack_rects(&mut boxes, 3);
    assert_eq!((w, h), (3, 3));
    // the taller glyph comes first
    assert_eq!(boxes[0].codepoint, 65);
    let pixels = vec![px_a.clone(), px_b.clone()];
    let atlas = build_atlas_pixels(w, h, &boxes, &pixels);
    assert_eq!(atlas.len(), 9);
    for (g, px) in boxes.iter().zip(pixels.iter()) {
        let b = g.bbox;
        for r in 0..b.h {
            for c in 0..b.w {
                let at = ((b.y + r) as u32 * w + (b.x + c) as u32) as usize;
                assert_eq!(atlas[at], px[(r * b.w + c) as usize]);
            }
        }
    }
}

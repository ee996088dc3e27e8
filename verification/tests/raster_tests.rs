use snowlv::glyph::glyph_rows;
use snowlv::raster::{
    draw_char, draw_filled_circle, draw_filled_rect, draw_line, draw_text, Canvas,
};

const RED: [u8; 4] = [255, 0, 0, 255];
const CLEAR: [u8; 4] = [0, 0, 0, 0];

fn canvas(width: u32, height: u32) -> Canvas {
    Canvas::blank(width, height).unwrap()
}

fn lit(c: &Canvas) -> Vec<(u32, u32)> {
    let mut out = Vec::new();
    let mut y = 0;
    while c.pixel_at(0, y).is_some() {
        let mut x = 0;
        while let Some(p) = c.pixel_at(x, y) {
            if p == RED {
                out.push((x, y));
            }
            x += 1;
        }
        y += 1;
    }
    out
}

#[test]
fn new_canvas_is_transparent() {
    let c = canvas(3, 2);
    assert!(lit(&c).is_empty());
    assert_eq!(c.pixel_at(2, 1), Some(CLEAR));
    assert_eq!(c.pixel_at(3, 1), None);
    assert_eq!(c.pixel_at(2, 2), None);
}

#[test]
fn filled_rect_is_clipped_to_the_image() {
    let mut c = canvas(5, 4);
    draw_filled_rect(&mut c, 3, 2, 10, 10, RED);
    assert_eq!(lit(&c), vec![(3, 2), (4, 2), (3, 3), (4, 3)]);
}

#[test]
fn filled_rect_of_zero_size_draws_nothing() {
    let mut c = canvas(5, 4);
    draw_filled_rect(&mut c, 1, 1, 0, 3, RED);
    assert!(lit(&c).is_empty());
}

#[test]
fn filled_circle_covers_the_disk() {
    let mut c = canvas(5, 5);
    draw_filled_circle(&mut c, 2, 2, 1, RED);
    assert_eq!(lit(&c), vec![(2, 1), (1, 2), (2, 2), (3, 2), (2, 3)]);
}

#[test]
fn filled_circle_is_clipped_at_negative_coordinates() {
    let mut c = canvas(4, 4);
    draw_filled_circle(&mut c, 0, 0, 2, RED);
    assert_eq!(lit(&c), vec![(0, 0), (1, 0), (2, 0), (0, 1), (1, 1), (0, 2)]);
}

#[test]
fn line_follows_bresenham() {
    let mut c = canvas(6, 4);
    draw_line(&mut c, 0, 0, 4, 2, RED);
    assert_eq!(lit(&c), vec![(0, 0), (1, 1), (2, 1), (3, 2), (4, 2)]);
}

#[test]
fn line_backwards_and_steep() {
    let mut c = canvas(4, 6);
    draw_line(&mut c, 2, 5, 1, 0, RED);
    let points = lit(&c);
    assert!(points.contains(&(2, 5)));
    assert!(points.contains(&(1, 0)));
    assert_eq!(points.len(), 6);
}

#[test]
fn single_point_line() {
    let mut c = canvas(3, 3);
    draw_line(&mut c, 1, 1, 1, 1, RED);
    assert_eq!(lit(&c), vec![(1, 1)]);
}

#[test]
fn glyph_of_lower_case_is_upper_case_glyph() {
    assert_eq!(glyph_rows('a'), glyph_rows('A'));
    assert_eq!(glyph_rows('A')[3], "11111");
    assert_eq!(glyph_rows('#'), glyph_rows('~'));
    assert_eq!(glyph_rows('#')[0], "11111");
}

#[test]
fn char_is_drawn_from_its_glyph() {
    let mut c = canvas(6, 8);
    draw_char(&mut c, '1', 0, 0, 1, RED);
    let glyph = glyph_rows('1');
    for (row, bits) in glyph.iter().enumerate() {
        for (col, bit) in bits.bytes().enumerate() {
            let expect = if bit == b'1' { RED } else { CLEAR };
            assert_eq!(c.pixel_at(col as u32, row as u32), Some(expect));
        }
    }
}

#[test]
fn scaled_char_fills_blocks() {
    let mut c = canvas(12, 16);
    draw_char(&mut c, '-', 1, 1, 2, RED);
    let points = lit(&c);
    assert_eq!(points.len(), 5 * 4);
    assert!(points.contains(&(1, 7)));
    assert!(points.contains(&(10, 8)));
    assert!(!points.contains(&(11, 8)));
}

#[test]
fn text_places_characters_six_pixels_apart() {
    let mut c = canvas(20, 8);
    draw_text(&mut c, "--", 0, 0, 1, RED);
    assert_eq!(lit(&c), vec![(0, 3), (1, 3), (2, 3), (3, 3), (4, 3), (6, 3), (7, 3), (8, 3), (9, 3), (10, 3)]);
}

#[test]
fn raw_bytes_are_row_major_rgba() {
    let mut c = canvas(2, 2);
    draw_filled_rect(&mut c, 1, 0, 1, 1, RED);
    let raw = c.into_bytes();
    assert_eq!(raw.len(), 16);
    assert_eq!(&raw[4..8], &RED);
    assert_eq!(&raw[0..4], &CLEAR);
}

#[test]
fn blank_canvas_refuses_sizes_past_the_address_range() {
    assert!(Canvas::blank(u32::MAX, u32::MAX).is_none());
    assert!(Canvas::blank(0, 7).is_some());
}

#[test]
fn set_pixel_ignores_positions_outside() {
    let mut c = canvas(2, 2);
    c.set_pixel(1, 1, RED);
    c.set_pixel(2, 0, RED);
    c.set_pixel(0, 5, RED);
    assert_eq!(lit(&c), vec![(1, 1)]);
}

#[test]
fn line_with_both_ends_past_i32_range_draws_nothing() {
    let mut c = canvas(4, 4);
    draw_line(&mut c, u32::MAX - 3, 1, u32::MAX, 2, RED);
    draw_line(&mut c, 1, 3_000_000_000, 2, 3_000_000_001, RED);
    assert!(lit(&c).is_empty());
}

#[test]
fn char_at_scale_zero_or_past_i32_range_draws_nothing() {
    let mut c = canvas(8, 8);
    draw_char(&mut c, '8', 0, 0, 0, RED);
    draw_char(&mut c, '8', 0, 0, u32::MAX, RED);
    assert!(lit(&c).is_empty());
}

#[test]
fn char_partly_left_of_the_image_is_clipped() {
    let mut c = canvas(6, 8);
    draw_char(&mut c, '-', -2, 0, 1, RED);
    assert_eq!(lit(&c), vec![(0, 3), (1, 3), (2, 3)]);
}

#[test]
fn char_near_the_end_of_the_i32_range_is_off_the_image() {
    let mut c = canvas(6, 8);
    draw_char(&mut c, '8', i32::MAX - 1, 0, 1, RED);
    draw_text(&mut c, " ", i32::MAX - 6, 0, 1, RED);
    assert!(lit(&c).is_empty());
}

#[test]
fn circle_of_negative_radius_draws_nothing() {
    let mut c = canvas(5, 5);
    draw_filled_circle(&mut c, 2, 2, -2, RED);
    assert!(lit(&c).is_empty());
    draw_filled_circle(&mut c, 2, 2, 0, RED);
    assert_eq!(lit(&c), vec![(2, 2)]);
}

#[test]
fn empty_text_draws_nothing_at_any_scale() {
    let mut c = canvas(4, 4);
    draw_text(&mut c, "", i32::MAX, 0, u32::MAX, RED);
    assert!(lit(&c).is_empty());
}

use seisbox::raster::{draw_hline, draw_line_aa, draw_text_scaled, get_glyph, Canvas};

const BG: (u8, u8, u8, u8) = (0, 0, 0, 255);
const RED: (u8, u8, u8, u8) = (255, 0, 0, 255);

fn lit(c: &Canvas) -> Vec<(u32, u32)> {
    let (w, h) = c.dimensions();
    let mut out = Vec::new();
    for y in 0..h {
        for x in 0..w {
            if c.get_pixel(x, y) != BG {
                out.push((x, y));
            }
        }
    }
    out
}

#[test]
fn canvas_fill_and_raw_bytes() {
    let c = Canvas::from_pixel(4, 3, (1, 2, 3, 4));
    assert_eq!(c.dimensions(), (4, 3));
    assert_eq!(c.get_pixel(3, 2), (1, 2, 3, 4));
    let raw = c.into_raw();
    assert_eq!(raw.len(), 48);
    assert_eq!(&raw[44..48], &[1, 2, 3, 4]);
}

#[test]
fn canvas_from_raw_needs_enough_bytes() {
    assert!(Canvas::from_raw(2, 2, vec![0u8; 15]).is_none());
    let data: Vec<u8> = (0u8..16).collect();
    let c = Canvas::from_raw(2, 2, data).unwrap();
    assert_eq!(c.get_pixel(0, 0), (0, 1, 2, 3));
    assert_eq!(c.get_pixel(1, 0), (4, 5, 6, 7));
    assert_eq!(c.get_pixel(0, 1), (8, 9, 10, 11));
    let mut c = c;
    c.put_pixel(1, 1, (9, 9, 9, 9));
    assert_eq!(&c.into_raw()[12..16], &[9, 9, 9, 9]);
}

#[test]
fn hline_is_clipped_to_the_canvas() {
    let mut c = Canvas::from_pixel(5, 3, BG);
    draw_hline(&mut c, 1, 10, 1, RED);
    assert_eq!(lit(&c), vec![(1, 1), (2, 1), (3, 1), (4, 1)]);
    draw_hline(&mut c, 0, 5, 3, RED);
    assert_eq!(lit(&c).len(), 4);
    draw_hline(&mut c, 3, 2, 0, RED);
    assert_eq!(lit(&c).len(), 4);
}

#[test]
fn bresenham_line_points() {
    let mut c = Canvas::from_pixel(5, 5, BG);
    draw_line_aa(&mut c, 0, 0, 4, 2, RED, 0, 0, 5, 5);
    let mut got = lit(&c);
    got.sort();
    assert_eq!(got, vec![(0, 0), (1, 1), (2, 1), (3, 2), (4, 2)]);
}

#[test]
fn line_is_drawn_in_both_directions_and_clipped() {
    let mut c = Canvas::from_pixel(5, 5, BG);
    draw_line_aa(&mut c, 4, 4, 0, 0, RED, 0, 0, 5, 5);
    let mut got = lit(&c);
    got.sort();
    assert_eq!(got, vec![(0, 0), (1, 1), (2, 2), (3, 3), (4, 4)]);

    let mut c = Canvas::from_pixel(5, 5, BG);
    draw_line_aa(&mut c, -3, 1, 10, 1, RED, 1, 0, 3, 5);
    let mut got = lit(&c);
    got.sort();
    assert_eq!(got, vec![(1, 1), (2, 1)]);

    let mut c = Canvas::from_pixel(5, 5, BG);
    draw_line_aa(&mut c, 2, 3, 2, 3, RED, 0, 0, 5, 5);
    assert_eq!(lit(&c), vec![(2, 3)]);
}

#[test]
fn glyph_table() {
    assert_eq!(get_glyph('1'), [0b00100, 0b01100, 0b00100, 0b00100, 0b00100, 0b00100, 0b01110]);
    assert_eq!(get_glyph('a'), get_glyph('A'));
    assert_eq!(get_glyph('#'), [0b11111, 0b10001, 0b10001, 0b10001, 0b10001, 0b10001, 0b11111]);
    assert_eq!(get_glyph(' '), [0; 7]);
}

#[test]
fn text_is_drawn_glyph_by_glyph() {
    let mut c = Canvas::from_pixel(12, 7, BG);
    draw_text_scaled(&mut c, 0, 0, "1-", RED, 1);
    let got = lit(&c);
    assert!(got.contains(&(2, 0)));
    assert!(!got.contains(&(0, 0)));
    assert!(got.contains(&(1, 1)) && got.contains(&(2, 1)));
    // the '-' starts six columns to the right, on its fourth row
    for x in 6..11 {
        assert!(got.contains(&(x, 3)));
    }
    assert!(!got.contains(&(11, 3)));
    // '1' has 10 lit cells, '-' has 5
    assert_eq!(got.len(), 15);
}

#[test]
fn scaled_text_uses_blocks() {
    let mut c = Canvas::from_pixel(12, 14, BG);
    draw_text_scaled(&mut c, 0, 0, "1", RED, 2);
    let got = lit(&c);
    assert_eq!(got.len(), 40);
    for p in [(4, 0), (5, 0), (4, 1), (5, 1)] {
        assert!(got.contains(&p));
    }
    assert!(!got.contains(&(3, 0)));

    // blocks beyond the canvas edge are clipped
    let mut c = Canvas::from_pixel(3, 3, BG);
    draw_text_scaled(&mut c, 0, 0, "1", RED, 2);
    assert_eq!(lit(&c), vec![(2, 2)]);
}

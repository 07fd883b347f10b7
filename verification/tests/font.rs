use facecam::font::{char_bitmap, draw_string, draw_string_bg, fill_rows};

/// A font with blank characters, except for an exclamation mark and an `A`.
fn sample_font() -> Vec<u8> {
    let mut font = vec![0u8; 96 * 7];
    font[7..14].copy_from_slice(&[1, 1, 1, 1, 1, 0, 1]);
    font[33 * 7..34 * 7].copy_from_slice(&[0x0e, 0x11, 0x11, 0x1f, 0x11, 0x11, 0x11]);
    font
}

fn row(buf: &[u32], w: usize, y: usize) -> String {
    buf[y * w..(y + 1) * w].iter().map(|&p| if p == 0 { '.' } else if p == 2 { 'b' } else { '#' }).collect()
}

#[test]
fn glyphs_come_from_the_font() {
    let font = sample_font();
    assert_eq!(char_bitmap(&font, '!'), [1, 1, 1, 1, 1, 0, 1]);
    assert_eq!(char_bitmap(&font, 'A')[3], 0x1f);
    assert_eq!(char_bitmap(&font, '\n'), [0; 7]);
    assert_eq!(char_bitmap(&font, 'é'), [0; 7]);
    assert_eq!(char_bitmap(&font[..14], 'A'), [0; 7]);
}

#[test]
fn texts_are_drawn_pixel_by_pixel() {
    let font = sample_font();
    let w = 14;
    let mut buf = vec![0u32; w * 9];
    draw_string(&mut buf, w, &font, 1, 1, "A!", 1);
    assert_eq!(row(&buf, w, 0), "..............");
    assert_eq!(row(&buf, w, 1), "..###..#......");
    assert_eq!(row(&buf, w, 2), ".#...#.#......");
    assert_eq!(row(&buf, w, 4), ".#####.#......");
    assert_eq!(row(&buf, w, 6), ".#...#........");
    assert_eq!(row(&buf, w, 8), "..............");
    let once = buf.clone();
    draw_string(&mut buf, w, &font, 1, 1, "A!", 1);
    assert_eq!(buf, once);
}

#[test]
fn texts_are_cut_at_the_edges() {
    let font = sample_font();
    let mut buf = vec![0u32; 4 * 3 + 2];
    draw_string(&mut buf, 4, &font, 1, 0, "AA", 1);
    assert_eq!(row(&buf, 4, 0), "..##");
    assert_eq!(row(&buf, 4, 1), ".#..");
    assert_eq!(&buf[12..], &[0, 0]);
    draw_string(&mut buf, 4, &font, 9, 9, "A", 1);
    assert_eq!(row(&buf, 4, 0), "..##");
}

#[test]
fn boxes_stand_behind_texts() {
    let font = sample_font();
    let w = 12;
    let mut buf = vec![0u32; w * 11];
    draw_string_bg(&mut buf, w, &font, 1, 1, "!", 1, 2);
    assert_eq!(row(&buf, w, 0), "............");
    assert_eq!(row(&buf, w, 1), ".bbbbbbbb...");
    assert_eq!(row(&buf, w, 2), ".b#bbbbbb...");
    assert_eq!(row(&buf, w, 7), ".bbbbbbbb...");
    assert_eq!(row(&buf, w, 9), ".bbbbbbbb...");
    assert_eq!(row(&buf, w, 10), "............");
    let mut wide = vec![0u32; 20 * 9];
    draw_string_bg(&mut wide, 20, &font, 0, 0, "é", 1, 2);
    assert_eq!(row(&wide, 20, 0), "bbbbbbbbbbbbbb......");
}

#[test]
fn rows_are_filled_over_their_whole_width() {
    let mut buf = vec![0u32; 3 * 4];
    fill_rows(&mut buf, 3, 1, 2, 5);
    assert_eq!(buf, [0, 0, 0, 5, 5, 5, 5, 5, 5, 0, 0, 0]);
    fill_rows(&mut buf, 3, 3, 9, 6);
    assert_eq!(buf[9..], [6, 6, 6]);
}

#[test]
fn texts_far_outside_leave_no_mark() {
    let font = sample_font();
    let mut buf = vec![0u32; 12];
    draw_string(&mut buf, 4, &font, usize::MAX - 6, usize::MAX, "!", 1);
    draw_string_bg(&mut buf, 4, &font, usize::MAX - 7, usize::MAX - 1, "!", 1, 2);
    fill_rows(&mut buf, 4, usize::MAX, 3, 7);
    assert_eq!(buf, [0; 12]);
}

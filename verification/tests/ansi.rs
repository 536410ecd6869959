use qara::ansi::{
    assemble_rows, changed_mask_8, render_frame, render_frame_row, render_row, row_has_changes, row_size,
    write_half_block, AnsiGeometry,
};

fn cell(top: [u8; 3], bottom: [u8; 3]) -> Vec<u8> {
    format!(
        "\x1b[38;2;{};{};{}m\x1b[48;2;{};{};{}m\u{2580}\x1b[0m",
        top[0], top[1], top[2], bottom[0], bottom[1], bottom[2]
    )
    .into_bytes()
}

#[test]
fn half_block_cell_bytes() {
    let mut out = Vec::new();
    let n = write_half_block(&mut out, 255, 0, 16, 1, 2, 3);
    assert_eq!(out, "\x1b[38;2;255;0;16m\x1b[48;2;1;2;3m▀\x1b[0m".as_bytes());
    assert_eq!(n, out.len());
    let mut out = Vec::new();
    assert_eq!(write_half_block(&mut out, 255, 255, 255, 255, 255, 255), 45);
    let mut out = Vec::new();
    assert_eq!(write_half_block(&mut out, 0, 0, 0, 0, 0, 0), 33);
}

#[test]
fn row_size_formula() {
    assert_eq!(row_size(0), 15);
    assert_eq!(row_size(80), 10 + 80 * 53 + 5);
}

#[test]
fn row_changes() {
    let a: Vec<u8> = (0..100).collect();
    let mut b = a.clone();
    assert!(!row_has_changes(&a, &b));
    b[99] = 0;
    assert!(row_has_changes(&a, &b));
    b[99] = 99;
    b[5] = 0;
    assert!(row_has_changes(&a, &b));
    assert!(!row_has_changes(&[], &[]));
}

#[test]
fn mask_marks_changed_columns() {
    let top = vec![0u8; 30];
    let bottom = vec![0u8; 30];
    let mut prev_top = top.clone();
    let mut prev_bottom = bottom.clone();
    assert_eq!(changed_mask_8(&top, &prev_top, &bottom, &prev_bottom, 0), 0);
    prev_top[3 * 2 + 1] = 9;
    prev_bottom[3 * 7 + 2] = 9;
    assert_eq!(changed_mask_8(&top, &prev_top, &bottom, &prev_bottom, 0), 0b1000_0100);
    assert_eq!(changed_mask_8(&top, &prev_top, &bottom, &prev_bottom, 2), 0b0010_0001);
}

#[test]
fn unchanged_row_renders_nothing() {
    let top = vec![7u8; 12];
    let bottom = vec![8u8; 12];
    assert!(render_row(3, &top, &bottom, &top, &bottom, 4).is_empty());
}

#[test]
fn changed_row_moves_cursor_skips_and_draws() {
    let top = vec![1, 2, 3, 4, 5, 6];
    let bottom = vec![7, 8, 9, 10, 11, 12];
    let mut prev_top = top.clone();
    prev_top[4] = 0;
    let out = render_row(0, &top, &bottom, &prev_top, &bottom, 2);
    let mut expected = b"\x1b[1;1H\x1b[1C".to_vec();
    expected.extend(cell([4, 5, 6], [10, 11, 12]));
    expected.extend(b"\x1b[0m");
    assert_eq!(out, expected);
}

#[test]
fn wide_row_uses_blocks_of_eight() {
    let width = 12;
    let top = vec![0u8; 3 * width];
    let bottom = vec![0u8; 3 * width];
    let mut prev_bottom = bottom.clone();
    prev_bottom[3 * 10] = 1;
    prev_bottom[3 * 3] = 1;
    let out = render_row(41, &top, &bottom, &top, &prev_bottom, width);
    let mut expected = b"\x1b[42;1H\x1b[3C".to_vec();
    expected.extend(cell([0, 0, 0], [0, 0, 0]));
    expected.extend(b"\x1b[6C");
    expected.extend(cell([0, 0, 0], [0, 0, 0]));
    expected.extend(b"\x1b[0m");
    assert_eq!(out, expected);
    assert!(out.len() <= row_size(width));
}

#[test]
fn fully_changed_row_fits_its_buffer() {
    let width = 20;
    let top = vec![200u8; 3 * width];
    let bottom = vec![255u8; 3 * width];
    let prev = vec![0u8; 3 * width];
    let out = render_row(65534, &top, &bottom, &prev, &prev, width);
    assert_eq!(out.len(), 2 + 5 + 3 + width * 45 + 4);
    assert!(out.len() <= row_size(width));
}

#[test]
fn frame_rows_and_whole_frame_agree() {
    let (width, height) = (3usize, 2usize);
    let frame: Vec<u8> = (0..(width * height * 2 * 3) as u8).collect();
    let prev = vec![0u8; frame.len()];
    let rows: Vec<Vec<u8>> = (0..height).map(|y| render_frame_row(&frame, &prev, width, height, y)).collect();
    let whole = render_frame(&frame, &prev, width, height);
    assert_eq!(assemble_rows(&rows), whole);
    assert!(whole.starts_with(b"\x1b[1;1H"));
    assert!(rows[1].starts_with(b"\x1b[2;1H"));
    assert!(render_frame(&frame, &frame, width, height).is_empty());
}

#[test]
fn assemble_skips_empty_rows() {
    let rows = vec![b"ab".to_vec(), Vec::new(), b"c".to_vec()];
    assert_eq!(assemble_rows(&rows), b"abc");
}

#[test]
fn geometry_of_a_terminal() {
    let g = AnsiGeometry::new(80, 24);
    assert_eq!(g.term_width, 80);
    assert_eq!(g.term_height, 24);
    assert_eq!(g.ffmpeg_height, 48);
    assert_eq!(g.raw_frame_size, 80 * 48 * 3);
    assert_eq!(g.worst_row, row_size(80));
}

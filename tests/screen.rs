use fsdterm::screen_buffer::ScreenBuffer;

fn fill(s: &mut ScreenBuffer) {
    for y in 0..s.height() {
        for x in 0..s.width() {
            s.move_cursor(x as i32, y as i32, true);
            s.write_char(b'a' + (y * 4 + x) as u8, false);
        }
    }
}

#[test]
fn fresh_screen() {
    let s = ScreenBuffer::new((4, 3));
    assert_eq!(s.cursor(), (0, 0));
    let (cells, cursor) = s.snapshot();
    assert_eq!(cells, &vec![0u8; 12]);
    assert_eq!(cursor, (0, 0));
}

#[test]
fn scroll_up_shifts_rows() {
    let mut s = ScreenBuffer::new((4, 3));
    fill(&mut s);
    s.scroll_up();
    for x in 0..4 {
        assert_eq!(s.get_cell(x, 0), b'a' + 4 + x as u8);
        assert_eq!(s.get_cell(x, 1), b'a' + 8 + x as u8);
        assert_eq!(s.get_cell(x, 2), b'a' + 8 + x as u8);
    }
}

#[test]
fn newline_on_last_row_blanks_it() {
    let mut s = ScreenBuffer::new((4, 3));
    fill(&mut s);
    s.move_cursor(2, 2, true);
    s.newline();
    assert_eq!(s.cursor(), (0, 2));
    for x in 0..4 {
        assert_eq!(s.get_cell(x, 1), b'a' + 8 + x as u8);
        assert_eq!(s.get_cell(x, 2), b' ');
    }
}

#[test]
fn move_cursor_relative_and_absolute() {
    let mut s = ScreenBuffer::new((10, 5));
    s.move_cursor(3, 4, true);
    assert_eq!(s.cursor(), (3, 4));
    s.move_cursor(-5, 2, false);
    assert_eq!(s.cursor(), (0, 4));
    s.move_cursor(20, -1, false);
    assert_eq!(s.cursor(), (9, 3));
    s.move_cursor(-1, 99, true);
    assert_eq!(s.cursor(), (0, 4));
    s.move_cursor(i32::MAX, i32::MIN, false);
    assert_eq!(s.cursor(), (9, 0));
}

#[test]
fn write_without_advance_keeps_cursor() {
    let mut s = ScreenBuffer::new((4, 3));
    s.write_char(b'q', false);
    assert_eq!(s.get_cell(0, 0), b'q');
    assert_eq!(s.cursor(), (0, 0));
    s.write_char(b'r', true);
    assert_eq!(s.cursor(), (1, 0));
}

#[test]
fn report_cursor_modes() {
    let mut s = ScreenBuffer::new((120, 40));
    s.move_cursor(109, 11, true);
    assert_eq!(s.report_cursor(6), Some(b"\x1b[12;110R".to_vec()));
    assert_eq!(s.report_cursor(5), None);
}

use fsdterm::console::{Console, Glyph, ParserState, FONT_HEIGHT, FONT_WIDTH};

fn feed(c: &mut Console, bytes: &[u8]) -> Vec<u8> {
    let mut out = Vec::new();
    for b in bytes {
        if let Some(r) = c.put_char(*b) {
            out.extend_from_slice(&r);
        }
    }
    out
}

fn row(c: &Console, y: usize) -> Vec<u8> {
    (0..80).map(|x| c.get_cell(x, y)).collect()
}

#[test]
fn plain_text_hello() {
    let mut c = Console::new((80, 24));
    let out = feed(&mut c, b"hello");
    assert!(out.is_empty());
    for (i, b) in b"hello".iter().enumerate() {
        assert_eq!(c.get_cell(i, 0), *b);
    }
    assert_eq!(c.get_cell(5, 0), 0);
    assert_eq!(c.cursor(), (5, 0));
}

#[test]
fn cursor_report() {
    let mut c = Console::new((80, 24));
    feed(&mut c, b"\x1b[3;4H");
    assert_eq!(c.cursor(), (3, 2));
    let out = feed(&mut c, b"\x1b[6n");
    assert_eq!(out, b"\x1b[3;4R".to_vec());
    assert_eq!(c.cursor(), (3, 2));
}

#[test]
fn cursor_report_multi_digit() {
    let mut c = Console::new((80, 24));
    feed(&mut c, b"\x1b[24;80H");
    assert_eq!(feed(&mut c, b"\x1b[6n"), b"\x1b[24;80R".to_vec());
}

#[test]
fn report_other_mode_is_silent() {
    let mut c = Console::new((80, 24));
    assert!(feed(&mut c, b"\x1b[5n").is_empty());
    assert!(feed(&mut c, b"\x1b[n").is_empty());
}

#[test]
fn absolute_positioning() {
    let mut c = Console::new((80, 24));
    feed(&mut c, b"\x1b[10;20HX");
    assert_eq!(c.get_cell(19, 9), b'X');
    assert_eq!(c.cursor(), (20, 9));
}

#[test]
fn absolute_positioning_with_f() {
    let mut c = Console::new((80, 24));
    feed(&mut c, b"\x1b[5;7f");
    assert_eq!(c.cursor(), (6, 4));
}

#[test]
fn single_parameter_position_homes() {
    let mut c = Console::new((80, 24));
    feed(&mut c, b"\x1b[10;20H");
    feed(&mut c, b"\x1b[5H");
    assert_eq!(c.cursor(), (0, 0));
    feed(&mut c, b"\x1b[10;20H\x1b[H");
    assert_eq!(c.cursor(), (0, 0));
}

#[test]
fn position_is_clamped() {
    let mut c = Console::new((80, 24));
    feed(&mut c, b"\x1b[100;200H");
    assert_eq!(c.cursor(), (79, 23));
    feed(&mut c, b"\x1b[0;0H");
    assert_eq!(c.cursor(), (0, 0));
}

#[test]
fn erase_line_to_end() {
    let mut c = Console::new((80, 24));
    feed(&mut c, &[b'A'; 80]);
    feed(&mut c, b"\x1b[1;41H");
    assert_eq!(c.cursor(), (40, 0));
    feed(&mut c, b"\x1b[0K");
    for x in 0..40 {
        assert_eq!(c.get_cell(x, 0), b'A');
    }
    for x in 40..80 {
        assert_eq!(c.get_cell(x, 0), b' ');
    }
}

#[test]
fn erase_line_start_and_whole() {
    let mut c = Console::new((80, 24));
    feed(&mut c, &[b'A'; 80]);
    feed(&mut c, b"\x1b[1;11H\x1b[1K");
    for x in 0..=10 {
        assert_eq!(c.get_cell(x, 0), b' ');
    }
    assert_eq!(c.get_cell(11, 0), b'A');
    feed(&mut c, b"\x1b[2K");
    assert_eq!(row(&c, 0), vec![b' '; 80]);
    feed(&mut c, b"\x1b[7K");
    assert_eq!(row(&c, 0), vec![b' '; 80]);
}

#[test]
fn erase_display_modes() {
    let mut c = Console::new((4, 3));
    feed(&mut c, b"abcdefghijk");
    feed(&mut c, b"\x1b[2;2H\x1b[J");
    assert_eq!(c.get_cell(0, 1), b'e');
    assert_eq!(c.get_cell(1, 1), b' ');
    assert_eq!(c.get_cell(3, 2), b' ');
    assert_eq!(c.get_cell(3, 0), b'd');

    let mut c = Console::new((4, 3));
    feed(&mut c, b"abcdefghijk");
    feed(&mut c, b"\x1b[2;2H\x1b[1J");
    assert_eq!(c.get_cell(0, 0), b' ');
    assert_eq!(c.get_cell(1, 1), b' ');
    assert_eq!(c.get_cell(2, 1), b'g');

    let mut c = Console::new((4, 3));
    feed(&mut c, b"abcdefghijk");
    feed(&mut c, b"\x1b[2J");
    for y in 0..3 {
        for x in 0..4 {
            assert_eq!(c.get_cell(x, y), b' ');
        }
    }
}

#[test]
fn alternate_screen() {
    let mut c = Console::new((80, 24));
    feed(&mut c, b"main");
    let before: Vec<Vec<u8>> = (0..24).map(|y| row(&c, y)).collect();
    feed(&mut c, b"\x1b[?1049h");
    assert_eq!(c.screen_id(), 1);
    feed(&mut c, b"ALT");
    for y in 0..24 {
        let p: Vec<u8> = (0..80).map(|x| c.primary().get_cell(x, y)).collect();
        assert_eq!(p, before[y]);
    }
    assert_eq!(c.alternate().get_cell(0, 0), b'A');
    assert_eq!(c.alternate().get_cell(1, 0), b'L');
    assert_eq!(c.alternate().get_cell(2, 0), b'T');
    feed(&mut c, b"\x1b[?1049l");
    assert_eq!(c.screen_id(), 0);
    for y in 0..24 {
        assert_eq!(row(&c, y), before[y]);
    }
}

#[test]
fn other_private_modes_do_not_switch() {
    let mut c = Console::new((80, 24));
    feed(&mut c, b"\x1b[?25h");
    assert_eq!(c.screen_id(), 0);
    feed(&mut c, b"\x1b[1049h");
    assert_eq!(c.screen_id(), 0);
}

#[test]
fn scroll() {
    let mut c = Console::new((80, 24));
    for y in 0..23u8 {
        feed(&mut c, &[b'a' + y, b'\n']);
    }
    feed(&mut c, b"\x1b[24;80H");
    assert_eq!(c.cursor(), (79, 23));
    feed(&mut c, b"Z");
    // the byte filled the last column, so the cursor wrapped and the screen scrolled
    assert_eq!(c.cursor(), (0, 23));
    assert_eq!(c.get_cell(79, 22), b'Z');
    let after_byte: Vec<Vec<u8>> = (0..24).map(|y| row(&c, y)).collect();
    feed(&mut c, b"\n");
    for y in 0..23 {
        assert_eq!(row(&c, y), after_byte[y + 1]);
    }
    assert_eq!(row(&c, 23), vec![b' '; 80]);
    assert_eq!(c.cursor(), (0, 23));
    assert_eq!(c.get_cell(79, 21), b'Z');
    assert_eq!(c.get_cell(0, 0), b'c');
}

#[test]
fn relative_motion_clamps() {
    let mut c = Console::new((80, 24));
    feed(&mut c, b"\x1b[5;5H");
    feed(&mut c, b"\x1b[2A");
    assert_eq!(c.cursor(), (4, 2));
    feed(&mut c, b"\x1b[B");
    assert_eq!(c.cursor(), (4, 3));
    feed(&mut c, b"\x1b[10C");
    assert_eq!(c.cursor(), (14, 3));
    feed(&mut c, b"\x1b[3D");
    assert_eq!(c.cursor(), (11, 3));
    feed(&mut c, b"\x1b[100D\x1b[100A");
    assert_eq!(c.cursor(), (0, 0));
    feed(&mut c, b"\x1b[1000C\x1b[1000B");
    assert_eq!(c.cursor(), (79, 23));
}

#[test]
fn oversized_parameter_takes_default() {
    let mut c = Console::new((80, 24));
    feed(&mut c, b"\x1b[10;10H");
    feed(&mut c, b"\x1b[99999999999A");
    assert_eq!(c.cursor(), (9, 8));
    feed(&mut c, b"\x1b[2;3B");
    assert_eq!(c.cursor(), (9, 10));
}

#[test]
fn control_bytes() {
    let mut c = Console::new((80, 24));
    feed(&mut c, b"abc\x08");
    assert_eq!(c.cursor(), (2, 0));
    assert_eq!(c.get_cell(2, 0), b'c');
    feed(&mut c, b"\x07");
    assert_eq!(c.cursor(), (2, 0));
    feed(&mut c, b"\rX");
    assert_eq!(c.get_cell(0, 0), b'X');
    assert_eq!(c.cursor(), (1, 0));
    feed(&mut c, b"\n");
    assert_eq!(c.cursor(), (0, 1));
    feed(&mut c, b"\x1b[H\x08");
    assert_eq!(c.cursor(), (0, 0));
}

#[test]
fn text_fills_first_row_then_wraps() {
    let mut c = Console::new((5, 3));
    feed(&mut c, b"abcd");
    assert_eq!(c.cursor(), (4, 0));
    feed(&mut c, b"e");
    assert_eq!(c.cursor(), (0, 1));
    for (i, b) in b"abcde".iter().enumerate() {
        assert_eq!(c.get_cell(i, 0), *b);
    }
}

#[test]
fn printable_bytes_stay_in_ground() {
    let mut c = Console::new((10, 4));
    for b in 0x20u8..=0x7E {
        c.put_char(b);
        assert!(c.pending().is_empty());
    }
}

#[test]
fn dispatch_empties_the_buffer() {
    let mut c = Console::new((80, 24));
    for seq in [&b"\x1b[2J"[..], b"\x1b[31m", b"\x1b[?7z", b"\x1b[1;2;3H", b"\x1b[6n"] {
        let (last, head) = seq.split_last().unwrap();
        feed(&mut c, head);
        assert_eq!(c.pending().first(), Some(&0x1B));
        c.put_char(*last);
        assert!(c.pending().is_empty());
    }
}

#[test]
fn escape_without_bracket_returns_to_ground() {
    let mut c = Console::new((80, 24));
    feed(&mut c, b"\x1b7");
    assert!(c.pending().is_empty());
    assert_eq!(c.get_cell(0, 0), 0);
    feed(&mut c, b"q");
    assert_eq!(c.get_cell(0, 0), b'q');
}

#[test]
fn unterminated_sequence_persists() {
    let mut c = Console::new((80, 24));
    feed(&mut c, b"\x1b[12;3");
    assert_eq!(c.pending(), &b"\x1b[12;3".to_vec());
    feed(&mut c, b" ");
    assert_eq!(c.pending().len(), 7);
    feed(&mut c, b"H");
    assert!(c.pending().is_empty());
    assert_eq!(c.cursor(), (2, 11));
}

#[test]
fn unknown_final_byte_is_dropped() {
    let mut c = Console::new((80, 24));
    feed(&mut c, b"ab\x1b[5zc");
    assert_eq!(c.get_cell(2, 0), b'c');
    assert!(c.pending().is_empty());
}

#[test]
fn invariants_hold_over_mixed_input() {
    let mut c = Console::new((7, 3));
    let mut seed: u32 = 12345;
    for _ in 0..5000 {
        seed = seed.wrapping_mul(1103515245).wrapping_add(12345);
        let pick = (seed >> 16) % 8;
        let b = match pick {
            0 => 0x1B,
            1 => b'[',
            2 => b'0' + ((seed >> 8) % 10) as u8,
            3 => b';',
            4 => b"ABCDHJKnhlf"[((seed >> 4) % 11) as usize],
            5 => b'\n',
            _ => (0x20 + (seed >> 3) % 0x5F) as u8,
        };
        c.put_char(b);
        let (x, y) = c.cursor();
        assert!(x < 7 && y < 3);
        assert!(c.pending().is_empty() || c.pending()[0] == 0x1B);
    }
}

#[test]
fn size_and_render() {
    let mut c = Console::new((3, 2));
    assert_eq!(c.get_size(), (3, 2));
    assert_eq!(c.pixel_size(), (3 * FONT_WIDTH, 2 * FONT_HEIGHT));
    feed(&mut c, b"ab\n");
    let g = c.render();
    assert_eq!(g.len(), 7);
    assert_eq!(g[0], Glyph { ch: b'a', x: 0, y: 0, is_cursor: false });
    assert_eq!(g[1], Glyph { ch: b'b', x: 15, y: 0, is_cursor: false });
    assert_eq!(g[4], Glyph { ch: 0, x: 15, y: 20, is_cursor: false });
    assert_eq!(g[6], Glyph { ch: b'|', x: 0, y: 20, is_cursor: true });
}

#[test]
fn parser_states() {
    let mut c = Console::new((80, 24));
    assert_eq!(c.parser_state(), ParserState::Ground);
    c.put_char(0x1B);
    assert_eq!(c.parser_state(), ParserState::Escape);
    c.put_char(b'[');
    assert_eq!(c.parser_state(), ParserState::Csi);
    c.put_char(b'1');
    c.put_char(b';');
    assert_eq!(c.parser_state(), ParserState::Csi);
    c.put_char(b'm');
    assert_eq!(c.parser_state(), ParserState::Ground);
    c.put_char(0x1B);
    c.put_char(0x1B);
    assert_eq!(c.parser_state(), ParserState::Ground);
}

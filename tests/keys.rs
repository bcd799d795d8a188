use fsdterm::keymap::{key_bytes, set_ctrl, set_shift, translate_key, Key, Modifiers};

#[test]
fn shift_table() {
    assert_eq!(set_shift(b'a', true), b'A');
    assert_eq!(set_shift(b'z', true), b'Z');
    assert_eq!(set_shift(b'a', false), b'a');
    let pairs = [
        (b'1', b'!'), (b'2', b'@'), (b'3', b'#'), (b'4', b'$'), (b'5', b'%'),
        (b'6', b'^'), (b'7', b'&'), (b'8', b'*'), (b'9', b'('), (b'0', b')'),
        (b'-', b'_'), (b'=', b'+'), (b'`', b'~'), (b',', b'<'), (b'.', b'>'),
        (b'/', b'?'), (b'[', b'{'), (b']', b'}'), (b'\\', b'|'), (b';', b':'),
    ];
    for (a, b) in pairs {
        assert_eq!(set_shift(a, true), b);
        assert_eq!(set_shift(a, false), a);
    }
    assert_eq!(set_shift(b'\'', true), b'\'');
    assert_eq!(set_shift(0x1B, true), 0x1B);
}

#[test]
fn ctrl_table() {
    assert_eq!(set_ctrl(b'a'), 1);
    assert_eq!(set_ctrl(b'c'), 3);
    assert_eq!(set_ctrl(b'z'), 26);
    assert_eq!(set_ctrl(b'['), 27);
    assert_eq!(set_ctrl(b'\\'), 28);
    assert_eq!(set_ctrl(b']'), 29);
    assert_eq!(set_ctrl(b'^'), 30);
    assert_eq!(set_ctrl(b'_'), 31);
    assert_eq!(set_ctrl(b'1'), b'1');
}

#[test]
fn base_keys() {
    assert_eq!(key_bytes(Key::Q), Some(vec![b'q']));
    assert_eq!(key_bytes(Key::Num7), Some(vec![b'7']));
    assert_eq!(key_bytes(Key::Return), Some(vec![b'\n']));
    assert_eq!(key_bytes(Key::Backspace), Some(vec![8, b' ', 8]));
    assert_eq!(key_bytes(Key::Escape), Some(vec![27]));
    assert_eq!(key_bytes(Key::Space), Some(vec![b' ']));
    assert_eq!(key_bytes(Key::Left), Some(vec![27, b'O', b'D']));
    assert_eq!(key_bytes(Key::Right), Some(vec![27, b'O', b'C']));
    assert_eq!(key_bytes(Key::Down), Some(vec![27, b'O', b'B']));
    assert_eq!(key_bytes(Key::Up), Some(vec![27, b'O', b'A']));
    assert_eq!(key_bytes(Key::LShift), None);
    assert_eq!(key_bytes(Key::Other), None);
}

#[test]
fn modifiers_apply() {
    assert_eq!(translate_key(Key::A, true, false), Some(vec![b'A']));
    assert_eq!(translate_key(Key::Num1, true, false), Some(vec![b'!']));
    assert_eq!(translate_key(Key::C, false, true), Some(vec![3]));
    assert_eq!(translate_key(Key::LeftBracket, false, true), Some(vec![27]));
    assert_eq!(translate_key(Key::Minus, true, true), Some(vec![31]));
    assert_eq!(translate_key(Key::Up, true, false), Some(vec![27, b'O', b'A']));
    assert_eq!(translate_key(Key::Other, true, true), None);
}

#[test]
fn modifier_state_tracks_keys() {
    let mut m = Modifiers::new();
    assert_eq!(m.key_down(Key::LShift), None);
    assert!(m.shift);
    assert_eq!(m.key_down(Key::B), Some(vec![b'B']));
    m.key_up(Key::LShift);
    assert!(!m.shift);
    assert_eq!(m.key_down(Key::RCtrl), None);
    assert_eq!(m.key_down(Key::D), Some(vec![4]));
    assert_eq!(m.key_down(Key::Other), None);
    assert!(m.ctrl);
    m.key_up(Key::A);
    assert!(m.ctrl);
    m.key_up(Key::RCtrl);
    assert_eq!(m.key_down(Key::D), Some(vec![b'd']));
}

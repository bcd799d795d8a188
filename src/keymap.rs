//! Translation of key presses into the bytes a shell expects.
use vstd::prelude::*;

verus! {

/// The keys of the keyboard that the terminal tells apart.
#[derive(Clone, Copy, Debug, PartialEq, Eq, Structural)]
pub enum Key {
    A,
    B,
    C,
    D,
    E,
    F,
    G,
    H,
    I,
    J,
    K,
    L,
    M,
    N,
    O,
    P,
    Q,
    R,
    S,
    T,
    U,
    V,
    W,
    X,
    Y,
    Z,
    Quote,
    Comma,
    Minus,
    Period,
    Slash,
    Num0,
    Num1,
    Num2,
    Num3,
    Num4,
    Num5,
    Num6,
    Num7,
    Num8,
    Num9,
    Semicolon,
    Equals,
    LeftBracket,
    RightBracket,
    Backslash,
    Backquote,
    Space,
    Return,
    Escape,
    Backspace,
    Left,
    Right,
    Down,
    Up,
    LShift,
    RShift,
    LCtrl,
    RCtrl,
    Other,
}

/// The bytes a key sends before any modifier is applied; `None` for the
/// modifier keys and for keys without a mapping.
pub open spec fn key_base(k: Key) -> Option<Seq<u8>> {
    match k {
        Key::A => Some(seq![0x61u8]),
        Key::B => Some(seq![0x62u8]),
        Key::C => Some(seq![0x63u8]),
        Key::D => Some(seq![0x64u8]),
        Key::E => Some(seq![0x65u8]),
        Key::F => Some(seq![0x66u8]),
        Key::G => Some(seq![0x67u8]),
        Key::H => Some(seq![0x68u8]),
        Key::I => Some(seq![0x69u8]),
        Key::J => Some(seq![0x6Au8]),
        Key::K => Some(seq![0x6Bu8]),
        Key::L => Some(seq![0x6Cu8]),
        Key::M => Some(seq![0x6Du8]),
        Key::N => Some(seq![0x6Eu8]),
        Key::O => Some(seq![0x6Fu8]),
        Key::P => Some(seq![0x70u8]),
        Key::Q => Some(seq![0x71u8]),
        Key::R => Some(seq![0x72u8]),
        Key::S => Some(seq![0x73u8]),
        Key::T => Some(seq![0x74u8]),
        Key::U => Some(seq![0x75u8]),
        Key::V => Some(seq![0x76u8]),
        Key::W => Some(seq![0x77u8]),
        Key::X => Some(seq![0x78u8]),
        Key::Y => Some(seq![0x79u8]),
        Key::Z => Some(seq![0x7Au8]),
        Key::Quote => Some(seq![0x27u8]),
        Key::Comma => Some(seq![0x2Cu8]),
        Key::Minus => Some(seq![0x2Du8]),
        Key::Period => Some(seq![0x2Eu8]),
        Key::Slash => Some(seq![0x2Fu8]),
        Key::Num0 => Some(seq![0x30u8]),
        Key::Num1 => Some(seq![0x31u8]),
        Key::Num2 => Some(seq![0x32u8]),
        Key::Num3 => Some(seq![0x33u8]),
        Key::Num4 => Some(seq![0x34u8]),
        Key::Num5 => Some(seq![0x35u8]),
        Key::Num6 => Some(seq![0x36u8]),
        Key::Num7 => Some(seq![0x37u8]),
        Key::Num8 => Some(seq![0x38u8]),
        Key::Num9 => Some(seq![0x39u8]),
        Key::Semicolon => Some(seq![0x3Bu8]),
        Key::Equals => Some(seq![0x3Du8]),
        Key::LeftBracket => Some(seq![0x5Bu8]),
        Key::RightBracket => Some(seq![0x5Du8]),
        Key::Backslash => Some(seq![0x5Cu8]),
        Key::Backquote => Some(seq![0x60u8]),
        Key::Space => Some(seq![0x20u8]),
        Key::Return => Some(seq![0x0Au8]),
        Key::Escape => Some(seq![0x1Bu8]),
        Key::Backspace => Some(seq![0x08u8, 0x20u8, 0x08u8]),
        Key::Left => Some(seq![0x1Bu8, 0x4Fu8, 0x44u8]),
        Key::Right => Some(seq![0x1Bu8, 0x4Fu8, 0x43u8]),
        Key::Down => Some(seq![0x1Bu8, 0x4Fu8, 0x42u8]),
        Key::Up => Some(seq![0x1Bu8, 0x4Fu8, 0x41u8]),
        _ => None,
    }
}

/// A byte as typed with shift held: lower-case letters become upper case,
/// the digit row and the punctuation keys their shifted symbol.
pub open spec fn shifted(ch: u8) -> u8 {
    if 0x61 <= ch <= 0x7A {
        (ch - 0x20) as u8
    } else if ch == 0x31 {
        0x21
    } else if ch == 0x32 {
        0x40
    } else if ch == 0x33 {
        0x23
    } else if ch == 0x34 {
        0x24
    } else if ch == 0x35 {
        0x25
    } else if ch == 0x36 {
        0x5E
    } else if ch == 0x37 {
        0x26
    } else if ch == 0x38 {
        0x2A
    } else if ch == 0x39 {
        0x28
    } else if ch == 0x30 {
        0x29
    } else if ch == 0x2D {
        0x5F
    } else if ch == 0x3D {
        0x2B
    } else if ch == 0x60 {
        0x7E
    } else if ch == 0x2C {
        0x3C
    } else if ch == 0x2E {
        0x3E
    } else if ch == 0x2F {
        0x3F
    } else if ch == 0x5B {
        0x7B
    } else if ch == 0x5D {
        0x7D
    } else if ch == 0x5C {
        0x7C
    } else if ch == 0x3B {
        0x3A
    } else {
        ch
    }
}

/// A byte as typed with control held: letters become 1 to 26, `[ \ ] ^ _`
/// become 27 to 31, anything else stays.
pub open spec fn controlled(ch: u8) -> u8 {
    if 0x61 <= ch <= 0x7A {
        (ch - 0x60) as u8
    } else if ch == 0x5B {
        27
    } else if ch == 0x5C {
        28
    } else if ch == 0x5D {
        29
    } else if ch == 0x5E {
        30
    } else if ch == 0x5F {
        31
    } else {
        ch
    }
}

/// The bytes a key sends under the given modifiers: shift acts on the first
/// byte; control then leaves that byte alone, controlled.
pub open spec fn key_output(k: Key, shift: bool, ctrl: bool) -> Option<Seq<u8>> {
    match key_base(k) {
        None => None,
        Some(b) => {
            let first = if shift { shifted(b[0]) } else { b[0] };
            if ctrl {
                Some(seq![controlled(first)])
            } else {
                Some(b.update(0, first))
            }
        },
    }
}

pub open spec fn is_shift_key(k: Key) -> bool {
    k == Key::LShift || k == Key::RShift
}

pub open spec fn is_ctrl_key(k: Key) -> bool {
    k == Key::LCtrl || k == Key::RCtrl
}

/// `ch` as typed with shift held, when `shift` is set.
pub fn set_shift(ch: u8, shift: bool) -> (r: u8)
    ensures
        r == if shift { shifted(ch) } else { ch },
{
    if !shift {
        return ch;
    }
    if 0x61 <= ch && ch <= 0x7A {
        return ch - 0x20;
    }
    match ch {
        0x31 => 0x21, // 1 !
        0x32 => 0x40, // 2 @
        0x33 => 0x23, // 3 #
        0x34 => 0x24, // 4 $
        0x35 => 0x25, // 5 %
        0x36 => 0x5E, // 6 ^
        0x37 => 0x26, // 7 &
        0x38 => 0x2A, // 8 *
        0x39 => 0x28, // 9 (
        0x30 => 0x29, // 0 )
        0x2D => 0x5F, // - _
        0x3D => 0x2B, // = +
        0x60 => 0x7E, // ` ~
        0x2C => 0x3C, // , <
        0x2E => 0x3E, // . >
        0x2F => 0x3F, // / ?
        0x5B => 0x7B, // [ {
        0x5D => 0x7D, // ] }
        0x5C => 0x7C, // \ |
        0x3B => 0x3A, // ; :
        _ => ch,
    }
}

/// `ch` as typed with control held.
pub fn set_ctrl(ch: u8) -> (r: u8)
    ensures
        r == controlled(ch),
{
    match ch {
        0x61..=0x7A => ch - 0x60,
        0x5B => 27,
        0x5C => 28,
        0x5D => 29,
        0x5E => 30,
        0x5F => 31,
        _ => ch,
    }
}

/// The bytes a key sends with no modifier held.
pub fn key_bytes(k: Key) -> (r: Option<Vec<u8>>)
    ensures
        match r {
            Some(v) => key_base(k) == Some(v@),
            None => key_base(k) is None,
        },
{
    let r = match k {
        Key::A => Some(vec![0x61u8]),
        Key::B => Some(vec![0x62u8]),
        Key::C => Some(vec![0x63u8]),
        Key::D => Some(vec![0x64u8]),
        Key::E => Some(vec![0x65u8]),
        Key::F => Some(vec![0x66u8]),
        Key::G => Some(vec![0x67u8]),
        Key::H => Some(vec![0x68u8]),
        Key::I => Some(vec![0x69u8]),
        Key::J => Some(vec![0x6Au8]),
        Key::K => Some(vec![0x6Bu8]),
        Key::L => Some(vec![0x6Cu8]),
        Key::M => Some(vec![0x6Du8]),
        Key::N => Some(vec![0x6Eu8]),
        Key::O => Some(vec![0x6Fu8]),
        Key::P => Some(vec![0x70u8]),
        Key::Q => Some(vec![0x71u8]),
        Key::R => Some(vec![0x72u8]),
        Key::S => Some(vec![0x73u8]),
        Key::T => Some(vec![0x74u8]),
        Key::U => Some(vec![0x75u8]),
        Key::V => Some(vec![0x76u8]),
        Key::W => Some(vec![0x77u8]),
        Key::X => Some(vec![0x78u8]),
        Key::Y => Some(vec![0x79u8]),
        Key::Z => Some(vec![0x7Au8]),
        Key::Quote => Some(vec![0x27u8]),
        Key::Comma => Some(vec![0x2Cu8]),
        Key::Minus => Some(vec![0x2Du8]),
        Key::Period => Some(vec![0x2Eu8]),
        Key::Slash => Some(vec![0x2Fu8]),
        Key::Num0 => Some(vec![0x30u8]),
        Key::Num1 => Some(vec![0x31u8]),
        Key::Num2 => Some(vec![0x32u8]),
        Key::Num3 => Some(vec![0x33u8]),
        Key::Num4 => Some(vec![0x34u8]),
        Key::Num5 => Some(vec![0x35u8]),
        Key::Num6 => Some(vec![0x36u8]),
        Key::Num7 => Some(vec![0x37u8]),
        Key::Num8 => Some(vec![0x38u8]),
        Key::Num9 => Some(vec![0x39u8]),
        Key::Semicolon => Some(vec![0x3Bu8]),
        Key::Equals => Some(vec![0x3Du8]),
        Key::LeftBracket => Some(vec![0x5Bu8]),
        Key::RightBracket => Some(vec![0x5Du8]),
        Key::Backslash => Some(vec![0x5Cu8]),
        Key::Backquote => Some(vec![0x60u8]),
        Key::Space => Some(vec![0x20u8]),
        Key::Return => Some(vec![0x0Au8]),
        Key::Escape => Some(vec![0x1Bu8]),
        Key::Backspace => Some(vec![0x08u8, 0x20u8, 0x08u8]),
        Key::Left => Some(vec![0x1Bu8, 0x4Fu8, 0x44u8]),
        Key::Right => Some(vec![0x1Bu8, 0x4Fu8, 0x43u8]),
        Key::Down => Some(vec![0x1Bu8, 0x4Fu8, 0x42u8]),
        Key::Up => Some(vec![0x1Bu8, 0x4Fu8, 0x41u8]),
        _ => None,
    };
    proof {
        if let Some(v) = &r {
            assert(key_base(k).unwrap() =~= v@);
        }
    }
    r
}

/// The bytes a key sends under the given modifiers.
pub fn translate_key(k: Key, shift: bool, ctrl: bool) -> (r: Option<Vec<u8>>)
    ensures
        match r {
            Some(v) => key_output(k, shift, ctrl) == Some(v@),
            None => key_output(k, shift, ctrl) is None,
        },
{
    match key_bytes(k) {
        None => None,
        Some(mut v) => {
            let first = set_shift(v[0], shift);
            if ctrl {
                let r = vec![set_ctrl(first)];
                assert(r@ =~= seq![controlled(first)]);
                Some(r)
            } else {
                v.set(0, first);
                Some(v)
            }
        },
    }
}

/// Which modifier keys are held.
#[derive(Clone, Copy, Debug, PartialEq, Eq, Structural)]
pub struct Modifiers {
    pub shift: bool,
    pub ctrl: bool,
}

impl Modifiers {
    /// No modifier held.
    pub fn new() -> (r: Modifiers)
        ensures
            !r.shift && !r.ctrl,
    {
        Modifiers { shift: false, ctrl: false }
    }

    /// A key goes down: a modifier key is noted and sends nothing; any other
    /// key sends its bytes under the modifiers held.
    pub fn key_down(&mut self, k: Key) -> (r: Option<Vec<u8>>)
        ensures
            final(self).shift == (old(self).shift || is_shift_key(k)),
            final(self).ctrl == (old(self).ctrl || is_ctrl_key(k)),
            is_shift_key(k) || is_ctrl_key(k) ==> r is None,
            !is_shift_key(k) && !is_ctrl_key(k) ==> match r {
                Some(v) => key_output(k, old(self).shift, old(self).ctrl) == Some(v@),
                None => key_output(k, old(self).shift, old(self).ctrl) is None,
            },
    {
        match k {
            Key::LShift | Key::RShift => {
                self.shift = true;
                None
            },
            Key::LCtrl | Key::RCtrl => {
                self.ctrl = true;
                None
            },
            _ => translate_key(k, self.shift, self.ctrl),
        }
    }

    /// A key goes up: a modifier key is released; any other key changes nothing.
    pub fn key_up(&mut self, k: Key)
        ensures
            final(self).shift == (old(self).shift && !is_shift_key(k)),
            final(self).ctrl == (old(self).ctrl && !is_ctrl_key(k)),
    {
        match k {
            Key::LShift | Key::RShift => self.shift = false,
            Key::LCtrl | Key::RCtrl => self.ctrl = false,
            _ => {},
        }
    }
}

} // verus!

use vstd::prelude::*;

use crate::port::{Port, PortBuilder};

verus! {

/// A key of the keyboard.
#[derive(Clone, Copy, Debug, PartialEq, Eq, Structural)]
pub enum Key {
    Escape,
    Backtick,
    Tab,
    CapsLock,
    LeftShift,
    RightShift,
    LeftCtrl,
    RightCtrl,
    LeftAlt,
    RightAlt,
    Space,
    Menu,
    Logo,
    F1,
    F2,
    F3,
    F4,
    F5,
    F6,
    F7,
    F8,
    F9,
    F10,
    F11,
    F12,
    PrintScreenSysRq,
    PauseBreak,
    NumLock,
    ScrollLock,
    Insert,
    Delete,
    Home,
    End,
    PageUp,
    PageDown,
    One,
    Two,
    Three,
    Four,
    Five,
    Six,
    Seven,
    Eight,
    Nine,
    Zero,
    Minus,
    Equals,
    Backspace,
    Q,
    W,
    E,
    R,
    T,
    Y,
    U,
    I,
    O,
    P,
    LeftSquareBracket,
    RightSquareBracket,
    Backslash,
    A,
    S,
    D,
    F,
    G,
    H,
    J,
    K,
    L,
    Semicolon,
    Apostrophe,
    Enter,
    Z,
    X,
    C,
    V,
    B,
    N,
    M,
    Comma,
    Period,
    Slash,
    LeftArrow,
    UpArrow,
    DownArrow,
    RightArrow,
    NumpadSlash,
    NumpadAsterisk,
    NumpadMinus,
    NumpadPlus,
    NumpadEnter,
    NumpadPeriod,
    NumpadOne,
    NumpadTwo,
    NumpadThree,
    NumpadFour,
    NumpadFive,
    NumpadSix,
    NumpadSeven,
    NumpadEight,
    NumpadNine,
    NumpadZero,
}

/// A key that was pressed or released.
#[derive(Clone, Copy, Debug, PartialEq, Eq, Structural)]
pub struct Event {
    pub key: Key,
    pub pressed: bool,
}

/// The set-1 make code of each key, and whether it is an extended one
/// (sent after 0xE0); print screen and pause, whose codes are longer
/// sequences, by the byte that tells them apart.
pub open spec fn scan_code(k: Key) -> (bool, u8) {
    match k {
        Key::Escape => (false, 0x01u8),
        Key::Backtick => (false, 0x29u8),
        Key::Tab => (false, 0x0Fu8),
        Key::CapsLock => (false, 0x3Au8),
        Key::LeftShift => (false, 0x2Au8),
        Key::RightShift => (false, 0x36u8),
        Key::LeftCtrl => (false, 0x1Du8),
        Key::RightCtrl => (true, 0x1Du8),
        Key::LeftAlt => (false, 0x38u8),
        Key::RightAlt => (true, 0x38u8),
        Key::Space => (false, 0x39u8),
        Key::Menu => (true, 0x5Du8),
        Key::Logo => (true, 0x5Bu8),
        Key::F1 => (false, 0x3Bu8),
        Key::F2 => (false, 0x3Cu8),
        Key::F3 => (false, 0x3Du8),
        Key::F4 => (false, 0x3Eu8),
        Key::F5 => (false, 0x3Fu8),
        Key::F6 => (false, 0x40u8),
        Key::F7 => (false, 0x41u8),
        Key::F8 => (false, 0x42u8),
        Key::F9 => (false, 0x43u8),
        Key::F10 => (false, 0x44u8),
        Key::F11 => (false, 0x57u8),
        Key::F12 => (false, 0x58u8),
        Key::PrintScreenSysRq => (true, 0x37u8),
        Key::PauseBreak => (true, 0x45u8),
        Key::NumLock => (false, 0x45u8),
        Key::ScrollLock => (false, 0x46u8),
        Key::Insert => (true, 0x52u8),
        Key::Delete => (true, 0x53u8),
        Key::Home => (true, 0x47u8),
        Key::End => (true, 0x4Fu8),
        Key::PageUp => (true, 0x49u8),
        Key::PageDown => (true, 0x51u8),
        Key::One => (false, 0x02u8),
        Key::Two => (false, 0x03u8),
        Key::Three => (false, 0x04u8),
        Key::Four => (false, 0x05u8),
        Key::Five => (false, 0x06u8),
        Key::Six => (false, 0x07u8),
        Key::Seven => (false, 0x08u8),
        Key::Eight => (false, 0x09u8),
        Key::Nine => (false, 0x0Au8),
        Key::Zero => (false, 0x0Bu8),
        Key::Minus => (false, 0x0Cu8),
        Key::Equals => (false, 0x0Du8),
        Key::Backspace => (false, 0x0Eu8),
        Key::Q => (false, 0x10u8),
        Key::W => (false, 0x11u8),
        Key::E => (false, 0x12u8),
        Key::R => (false, 0x13u8),
        Key::T => (false, 0x14u8),
        Key::Y => (false, 0x15u8),
        Key::U => (false, 0x16u8),
        Key::I => (false, 0x17u8),
        Key::O => (false, 0x18u8),
        Key::P => (false, 0x19u8),
        Key::LeftSquareBracket => (false, 0x1Au8),
        Key::RightSquareBracket => (false, 0x1Bu8),
        Key::Backslash => (false, 0x2Bu8),
        Key::A => (false, 0x1Eu8),
        Key::S => (false, 0x1Fu8),
        Key::D => (false, 0x20u8),
        Key::F => (false, 0x21u8),
        Key::G => (false, 0x22u8),
        Key::H => (false, 0x23u8),
        Key::J => (false, 0x24u8),
        Key::K => (false, 0x25u8),
        Key::L => (false, 0x26u8),
        Key::Semicolon => (false, 0x27u8),
        Key::Apostrophe => (false, 0x28u8),
        Key::Enter => (false, 0x1Cu8),
        Key::Z => (false, 0x2Cu8),
        Key::X => (false, 0x2Du8),
        Key::C => (false, 0x2Eu8),
        Key::V => (false, 0x2Fu8),
        Key::B => (false, 0x30u8),
        Key::N => (false, 0x31u8),
        Key::M => (false, 0x32u8),
        Key::Comma => (false, 0x33u8),
        Key::Period => (false, 0x34u8),
        Key::Slash => (false, 0x35u8),
        Key::LeftArrow => (true, 0x4Bu8),
        Key::UpArrow => (true, 0x48u8),
        Key::DownArrow => (true, 0x50u8),
        Key::RightArrow => (true, 0x4Du8),
        Key::NumpadSlash => (true, 0x35u8),
        Key::NumpadAsterisk => (false, 0x37u8),
        Key::NumpadMinus => (false, 0x4Au8),
        Key::NumpadPlus => (false, 0x4Eu8),
        Key::NumpadEnter => (true, 0x1Cu8),
        Key::NumpadPeriod => (false, 0x53u8),
        Key::NumpadOne => (false, 0x4Fu8),
        Key::NumpadTwo => (false, 0x50u8),
        Key::NumpadThree => (false, 0x51u8),
        Key::NumpadFour => (false, 0x4Bu8),
        Key::NumpadFive => (false, 0x4Cu8),
        Key::NumpadSix => (false, 0x4Du8),
        Key::NumpadSeven => (false, 0x47u8),
        Key::NumpadEight => (false, 0x48u8),
        Key::NumpadNine => (false, 0x49u8),
        Key::NumpadZero => (false, 0x52u8),
    }
}

/// The one-byte scan codes name keys one for one: a code that names a key
/// is that key's make code, and every key with a one-byte make code is
/// named by it.  So no two codes name the same key.
pub proof fn lemma_single_key_is_make_code(sc: u8, k: Key)
    ensures
        spec_single_key(sc) == Some(k) ==> scan_code(k) == (false, sc),
        scan_code(k) == (false, sc) ==> spec_single_key(sc) == Some(k),
{
}

/// The extended scan codes name keys one for one, and none of them a key
/// that a one-byte code names.
pub proof fn lemma_extended_key_is_make_code(sc: u8, k: Key)
    ensures
        spec_extended_key(sc) == Some(k) ==> scan_code(k) == (true, sc),
        scan_code(k) == (true, sc) && k != Key::PrintScreenSysRq && k != Key::PauseBreak ==> spec_extended_key(sc)
            == Some(k),
{
}

/// Different one-byte scan codes name different keys.
pub proof fn lemma_single_key_injective(a: u8, b: u8)
    requires
        spec_single_key(a) is Some,
        spec_single_key(a) == spec_single_key(b),
    ensures
        a == b,
{
    lemma_single_key_is_make_code(a, spec_single_key(a)->Some_0);
    lemma_single_key_is_make_code(b, spec_single_key(a)->Some_0);
}

/// The key of a one-byte scan code (set 1) of a key press.
pub open spec fn spec_single_key(sc: u8) -> Option<Key> {
    if sc == 0x01u8 {
        Some(Key::Escape)
    } else if sc == 0x29u8 {
        Some(Key::Backtick)
    } else if sc == 0x0Fu8 {
        Some(Key::Tab)
    } else if sc == 0x3Au8 {
        Some(Key::CapsLock)
    } else if sc == 0x2Au8 {
        Some(Key::LeftShift)
    } else if sc == 0x36u8 {
        Some(Key::RightShift)
    } else if sc == 0x1Du8 {
        Some(Key::LeftCtrl)
    } else if sc == 0x38u8 {
        Some(Key::LeftAlt)
    } else if sc == 0x39u8 {
        Some(Key::Space)
    } else if sc == 0x3Bu8 {
        Some(Key::F1)
    } else if sc == 0x3Cu8 {
        Some(Key::F2)
    } else if sc == 0x3Du8 {
        Some(Key::F3)
    } else if sc == 0x3Eu8 {
        Some(Key::F4)
    } else if sc == 0x3Fu8 {
        Some(Key::F5)
    } else if sc == 0x40u8 {
        Some(Key::F6)
    } else if sc == 0x41u8 {
        Some(Key::F7)
    } else if sc == 0x42u8 {
        Some(Key::F8)
    } else if sc == 0x43u8 {
        Some(Key::F9)
    } else if sc == 0x44u8 {
        Some(Key::F10)
    } else if sc == 0x57u8 {
        Some(Key::F11)
    } else if sc == 0x58u8 {
        Some(Key::F12)
    } else if sc == 0x45u8 {
        Some(Key::NumLock)
    } else if sc == 0x46u8 {
        Some(Key::ScrollLock)
    } else if sc == 0x02u8 {
        Some(Key::One)
    } else if sc == 0x03u8 {
        Some(Key::Two)
    } else if sc == 0x04u8 {
        Some(Key::Three)
    } else if sc == 0x05u8 {
        Some(Key::Four)
    } else if sc == 0x06u8 {
        Some(Key::Five)
    } else if sc == 0x07u8 {
        Some(Key::Six)
    } else if sc == 0x08u8 {
        Some(Key::Seven)
    } else if sc == 0x09u8 {
        Some(Key::Eight)
    } else if sc == 0x0Au8 {
        Some(Key::Nine)
    } else if sc == 0x0Bu8 {
        Some(Key::Zero)
    } else if sc == 0x0Cu8 {
        Some(Key::Minus)
    } else if sc == 0x0Du8 {
        Some(Key::Equals)
    } else if sc == 0x0Eu8 {
        Some(Key::Backspace)
    } else if sc == 0x10u8 {
        Some(Key::Q)
    } else if sc == 0x11u8 {
        Some(Key::W)
    } else if sc == 0x12u8 {
        Some(Key::E)
    } else if sc == 0x13u8 {
        Some(Key::R)
    } else if sc == 0x14u8 {
        Some(Key::T)
    } else if sc == 0x15u8 {
        Some(Key::Y)
    } else if sc == 0x16u8 {
        Some(Key::U)
    } else if sc == 0x17u8 {
        Some(Key::I)
    } else if sc == 0x18u8 {
        Some(Key::O)
    } else if sc == 0x19u8 {
        Some(Key::P)
    } else if sc == 0x1Au8 {
        Some(Key::LeftSquareBracket)
    } else if sc == 0x1Bu8 {
        Some(Key::RightSquareBracket)
    } else if sc == 0x2Bu8 {
        Some(Key::Backslash)
    } else if sc == 0x1Eu8 {
        Some(Key::A)
    } else if sc == 0x1Fu8 {
        Some(Key::S)
    } else if sc == 0x20u8 {
        Some(Key::D)
    } else if sc == 0x21u8 {
        Some(Key::F)
    } else if sc == 0x22u8 {
        Some(Key::G)
    } else if sc == 0x23u8 {
        Some(Key::H)
    } else if sc == 0x24u8 {
        Some(Key::J)
    } else if sc == 0x25u8 {
        Some(Key::K)
    } else if sc == 0x26u8 {
        Some(Key::L)
    } else if sc == 0x27u8 {
        Some(Key::Semicolon)
    } else if sc == 0x28u8 {
        Some(Key::Apostrophe)
    } else if sc == 0x1Cu8 {
        Some(Key::Enter)
    } else if sc == 0x2Cu8 {
        Some(Key::Z)
    } else if sc == 0x2Du8 {
        Some(Key::X)
    } else if sc == 0x2Eu8 {
        Some(Key::C)
    } else if sc == 0x2Fu8 {
        Some(Key::V)
    } else if sc == 0x30u8 {
        Some(Key::B)
    } else if sc == 0x31u8 {
        Some(Key::N)
    } else if sc == 0x32u8 {
        Some(Key::M)
    } else if sc == 0x33u8 {
        Some(Key::Comma)
    } else if sc == 0x34u8 {
        Some(Key::Period)
    } else if sc == 0x35u8 {
        Some(Key::Slash)
    } else if sc == 0x37u8 {
        Some(Key::NumpadAsterisk)
    } else if sc == 0x4Au8 {
        Some(Key::NumpadMinus)
    } else if sc == 0x4Eu8 {
        Some(Key::NumpadPlus)
    } else if sc == 0x53u8 {
        Some(Key::NumpadPeriod)
    } else if sc == 0x4Fu8 {
        Some(Key::NumpadOne)
    } else if sc == 0x50u8 {
        Some(Key::NumpadTwo)
    } else if sc == 0x51u8 {
        Some(Key::NumpadThree)
    } else if sc == 0x4Bu8 {
        Some(Key::NumpadFour)
    } else if sc == 0x4Cu8 {
        Some(Key::NumpadFive)
    } else if sc == 0x4Du8 {
        Some(Key::NumpadSix)
    } else if sc == 0x47u8 {
        Some(Key::NumpadSeven)
    } else if sc == 0x48u8 {
        Some(Key::NumpadEight)
    } else if sc == 0x49u8 {
        Some(Key::NumpadNine)
    } else if sc == 0x52u8 {
        Some(Key::NumpadZero)
    } else {
        None
    }
}

/// The key of a one-byte scan code (set 1) of a key press.
pub fn single_key(sc: u8) -> (r: Option<Key>)
    ensures
        r == spec_single_key(sc),
{
    match sc {
        0x01 => Some(Key::Escape),
        0x29 => Some(Key::Backtick),
        0x0F => Some(Key::Tab),
        0x3A => Some(Key::CapsLock),
        0x2A => Some(Key::LeftShift),
        0x36 => Some(Key::RightShift),
        0x1D => Some(Key::LeftCtrl),
        0x38 => Some(Key::LeftAlt),
        0x39 => Some(Key::Space),
        0x3B => Some(Key::F1),
        0x3C => Some(Key::F2),
        0x3D => Some(Key::F3),
        0x3E => Some(Key::F4),
        0x3F => Some(Key::F5),
        0x40 => Some(Key::F6),
        0x41 => Some(Key::F7),
        0x42 => Some(Key::F8),
        0x43 => Some(Key::F9),
        0x44 => Some(Key::F10),
        0x57 => Some(Key::F11),
        0x58 => Some(Key::F12),
        0x45 => Some(Key::NumLock),
        0x46 => Some(Key::ScrollLock),
        0x02 => Some(Key::One),
        0x03 => Some(Key::Two),
        0x04 => Some(Key::Three),
        0x05 => Some(Key::Four),
        0x06 => Some(Key::Five),
        0x07 => Some(Key::Six),
        0x08 => Some(Key::Seven),
        0x09 => Some(Key::Eight),
        0x0A => Some(Key::Nine),
        0x0B => Some(Key::Zero),
        0x0C => Some(Key::Minus),
        0x0D => Some(Key::Equals),
        0x0E => Some(Key::Backspace),
        0x10 => Some(Key::Q),
        0x11 => Some(Key::W),
        0x12 => Some(Key::E),
        0x13 => Some(Key::R),
        0x14 => Some(Key::T),
        0x15 => Some(Key::Y),
        0x16 => Some(Key::U),
        0x17 => Some(Key::I),
        0x18 => Some(Key::O),
        0x19 => Some(Key::P),
        0x1A => Some(Key::LeftSquareBracket),
        0x1B => Some(Key::RightSquareBracket),
        0x2B => Some(Key::Backslash),
        0x1E => Some(Key::A),
        0x1F => Some(Key::S),
        0x20 => Some(Key::D),
        0x21 => Some(Key::F),
        0x22 => Some(Key::G),
        0x23 => Some(Key::H),
        0x24 => Some(Key::J),
        0x25 => Some(Key::K),
        0x26 => Some(Key::L),
        0x27 => Some(Key::Semicolon),
        0x28 => Some(Key::Apostrophe),
        0x1C => Some(Key::Enter),
        0x2C => Some(Key::Z),
        0x2D => Some(Key::X),
        0x2E => Some(Key::C),
        0x2F => Some(Key::V),
        0x30 => Some(Key::B),
        0x31 => Some(Key::N),
        0x32 => Some(Key::M),
        0x33 => Some(Key::Comma),
        0x34 => Some(Key::Period),
        0x35 => Some(Key::Slash),
        0x37 => Some(Key::NumpadAsterisk),
        0x4A => Some(Key::NumpadMinus),
        0x4E => Some(Key::NumpadPlus),
        0x53 => Some(Key::NumpadPeriod),
        0x4F => Some(Key::NumpadOne),
        0x50 => Some(Key::NumpadTwo),
        0x51 => Some(Key::NumpadThree),
        0x4B => Some(Key::NumpadFour),
        0x4C => Some(Key::NumpadFive),
        0x4D => Some(Key::NumpadSix),
        0x47 => Some(Key::NumpadSeven),
        0x48 => Some(Key::NumpadEight),
        0x49 => Some(Key::NumpadNine),
        0x52 => Some(Key::NumpadZero),
        _ => None,
    }
}

/// The key of the byte that follows 0xE0 in a two-byte scan code of a key press.
pub open spec fn spec_extended_key(sc: u8) -> Option<Key> {
    if sc == 0x1Du8 {
        Some(Key::RightCtrl)
    } else if sc == 0x38u8 {
        Some(Key::RightAlt)
    } else if sc == 0x5Du8 {
        Some(Key::Menu)
    } else if sc == 0x5Bu8 {
        Some(Key::Logo)
    } else if sc == 0x52u8 {
        Some(Key::Insert)
    } else if sc == 0x53u8 {
        Some(Key::Delete)
    } else if sc == 0x47u8 {
        Some(Key::Home)
    } else if sc == 0x4Fu8 {
        Some(Key::End)
    } else if sc == 0x49u8 {
        Some(Key::PageUp)
    } else if sc == 0x51u8 {
        Some(Key::PageDown)
    } else if sc == 0x4Bu8 {
        Some(Key::LeftArrow)
    } else if sc == 0x48u8 {
        Some(Key::UpArrow)
    } else if sc == 0x50u8 {
        Some(Key::DownArrow)
    } else if sc == 0x4Du8 {
        Some(Key::RightArrow)
    } else if sc == 0x35u8 {
        Some(Key::NumpadSlash)
    } else if sc == 0x1Cu8 {
        Some(Key::NumpadEnter)
    } else {
        None
    }
}

/// The key of the byte that follows 0xE0 in a two-byte scan code of a key press.
pub fn extended_key(sc: u8) -> (r: Option<Key>)
    ensures
        r == spec_extended_key(sc),
{
    match sc {
        0x1D => Some(Key::RightCtrl),
        0x38 => Some(Key::RightAlt),
        0x5D => Some(Key::Menu),
        0x5B => Some(Key::Logo),
        0x52 => Some(Key::Insert),
        0x53 => Some(Key::Delete),
        0x47 => Some(Key::Home),
        0x4F => Some(Key::End),
        0x49 => Some(Key::PageUp),
        0x51 => Some(Key::PageDown),
        0x4B => Some(Key::LeftArrow),
        0x48 => Some(Key::UpArrow),
        0x50 => Some(Key::DownArrow),
        0x4D => Some(Key::RightArrow),
        0x35 => Some(Key::NumpadSlash),
        0x1C => Some(Key::NumpadEnter),
        _ => None,
    }
}

/// What the pending scan code bytes resolve to: the event, if any, and the
/// bytes that stay pending afterwards.
pub open spec fn spec_resolve(s: Seq<u8>) -> (Option<Event>, Seq<u8>) {
    if s.len() == 1 {
        let released = 0x81 <= s[0] <= 0xD8;
        let sc = if released { (s[0] - 0x80) as u8 } else { s[0] };
        match spec_single_key(sc) {
            Some(key) => (Some(Event { key, pressed: !released }), Seq::empty()),
            None => (None, s),
        }
    } else if s.len() == 2 && s[0] == 0xE0 {
        let released = 0x99 <= s[1] <= 0xED;
        let sc = if released { (s[1] - 0x80) as u8 } else { s[1] };
        match spec_extended_key(sc) {
            Some(key) => (Some(Event { key, pressed: !released }), Seq::empty()),
            None => (None, s),
        }
    } else if s.len() == 4 && s[0] == 0xE0 && s[2] == 0xE0 && s[1] == 0x2A && s[3] == 0x37 {
        (Some(Event { key: Key::PrintScreenSysRq, pressed: true }), Seq::empty())
    } else if s.len() == 4 && s[0] == 0xE0 && s[2] == 0xE0 && s[1] == 0xB7 && s[3] == 0xAA {
        (Some(Event { key: Key::PrintScreenSysRq, pressed: false }), Seq::empty())
    } else if s.len() == 6 && s[0] == 0xE1 && s[1] == 0x1D && s[2] == 0x45 && s[3] == 0xE1 && s[4]
        == 0x9D && s[5] == 0xC5 {
        (Some(Event { key: Key::PauseBreak, pressed: true }), Seq::empty())
    } else if s.len() > 6 {
        (None, Seq::empty())
    } else {
        (None, s)
    }
}

pub const PORT_DATA: u16 = 0x60;
pub const PORT_CMD: u16 = 0x64;
pub const PORT_STATUS: u16 = 0x64;

/// The PS/2 keyboard: its ports and the scan code bytes received so far that
/// do not make up a key event yet.
pub struct Keyboard {
    pub data: Port,
    pub cmd: Port,
    pub status: Port,
    pub scseq: Vec<u8>,
}

impl Keyboard {
    pub fn new() -> (r: Keyboard)
        ensures
            r.data.port == PORT_DATA,
            r.data.read_sizes@ == seq![8u8],
            r.data.write_sizes@ == seq![8u8],
            r.cmd.port == PORT_CMD,
            r.cmd.read_sizes@ == Seq::<u8>::empty(),
            r.cmd.write_sizes@ == seq![8u8],
            r.status.port == PORT_STATUS,
            r.status.read_sizes@ == seq![8u8],
            r.status.write_sizes@ == Seq::<u8>::empty(),
            r.scseq@ == Seq::<u8>::empty(),
    {
        let r = Keyboard {
            data: PortBuilder::port(PORT_DATA).size(8).done(),
            cmd: PortBuilder::port(PORT_CMD).write_size(8).done(),
            status: PortBuilder::port(PORT_STATUS).read_size(8).done(),
            scseq: Vec::new(),
        };
        assert(r.data.read_sizes@ =~= seq![8u8]);
        assert(r.data.write_sizes@ =~= seq![8u8]);
        assert(r.cmd.write_sizes@ =~= seq![8u8]);
        assert(r.status.read_sizes@ =~= seq![8u8]);
        r
    }

    /// Takes in one scan code byte read from the data port and returns the
    /// key event that it completes, if any.
    pub fn feed(&mut self, sc: u8) -> (r: Option<Event>)
        ensures
            (r, final(self).scseq@) == spec_resolve(old(self).scseq@.push(sc)),
    {
        self.scseq.push(sc);
        self.try_resolve()
    }

    /// Resolves the pending scan code bytes into a key event where they make
    /// up one, and drops them after an event or when they are too many.
    pub fn try_resolve(&mut self) -> (r: Option<Event>)
        ensures
            (r, final(self).scseq@) == spec_resolve(old(self).scseq@),
    {
        let len = self.scseq.len();
        if len == 0 {
            return None;
        } else if len == 1 {
            let mut keysc = self.scseq[0];
            let mut released = false;
            if 0x81 <= keysc && keysc <= 0xD8 {
                keysc = keysc - 0x80;
                released = true;
            }
            if let Some(key) = single_key(keysc) {
                self.scseq.clear();
                return Some(Event { key, pressed: !released });
            }
        } else if len == 2 && self.scseq[0] == 0xE0 {
            let mut keysc = self.scseq[1];
            let mut released = false;
            if 0x99 <= keysc && keysc <= 0xED {
                released = true;
                keysc = keysc - 0x80;
            }
            if let Some(key) = extended_key(keysc) {
                self.scseq.clear();
                return Some(Event { key, pressed: !released });
            }
        } else if len == 4 {
            if self.scseq[0] == 0xE0 && self.scseq[2] == 0xE0 {
                if self.scseq[1] == 0x2A && self.scseq[3] == 0x37 {
                    self.scseq.clear();
                    return Some(Event { key: Key::PrintScreenSysRq, pressed: true });
                } else if self.scseq[1] == 0xB7 && self.scseq[3] == 0xAA {
                    self.scseq.clear();
                    return Some(Event { key: Key::PrintScreenSysRq, pressed: false });
                }
            }
        } else if len == 6 {
            if self.scseq[0] == 0xE1 && self.scseq[1] == 0x1D && self.scseq[2] == 0x45
                && self.scseq[3] == 0xE1 && self.scseq[4] == 0x9D && self.scseq[5] == 0xC5 {
                self.scseq.clear();
                return Some(Event { key: Key::PauseBreak, pressed: true });
            }
        } else if len > 6 {
            self.scseq.clear();
        }
        None
    }
}

/// A key released after being pressed with a one-byte scan code gives the
/// same key, released: the release code is the press code plus 0x80.
pub proof fn lemma_press_release(sc: u8)
    requires
        spec_single_key(sc) is Some,
        sc + 0x80 <= 0xD8,
    ensures
        spec_resolve(seq![sc]).0 == Some(Event { key: spec_single_key(sc)->0, pressed: true }),
        spec_resolve(seq![(sc + 0x80) as u8]).0 == Some(
            Event { key: spec_single_key(sc)->0, pressed: false },
        ),
{
}

/// Every key's scan code sequences, as [`scan_code`] gives them, resolve to
/// that key: a one-byte make code to its press and the code plus 0x80 to
/// its release; an extended key the same after 0xE0; print screen to
/// E0 2A E0 37 pressed and E0 B7 E0 AA released; pause to its six-byte
/// press.
pub proof fn lemma_key_sequences(k: Key)
    ensures
        ({
            let (ext, c) = scan_code(k);
            let press = Event { key: k, pressed: true };
            let release = Event { key: k, pressed: false };
            &&& !ext ==> spec_resolve(seq![c]).0 == Some(press) && spec_resolve(seq![(c + 0x80) as u8]).0 == Some(
                release,
            )
            &&& ext && k != Key::PrintScreenSysRq && k != Key::PauseBreak ==> spec_resolve(seq![0xE0u8, c]).0
                == Some(press) && spec_resolve(seq![0xE0u8, (c + 0x80) as u8]).0 == Some(release)
            &&& k == Key::PrintScreenSysRq ==> spec_resolve(seq![0xE0u8, 0x2Au8, 0xE0u8, 0x37u8]).0 == Some(press)
                && spec_resolve(seq![0xE0u8, 0xB7u8, 0xE0u8, 0xAAu8]).0 == Some(release)
            &&& k == Key::PauseBreak ==> spec_resolve(seq![0xE1u8, 0x1Du8, 0x45u8, 0xE1u8, 0x9Du8, 0xC5u8]).0 == Some(
                press,
            )
        }),
{
    let (ext, c) = scan_code(k);
    lemma_single_key_is_make_code(c, k);
    lemma_extended_key_is_make_code(c, k);
    if !ext {
        assert(1 <= c <= 0x58);
        lemma_single_key_is_make_code((c + 0x80) as u8, k);
        assert(spec_single_key((c + 0x80) as u8) is None);
    } else if k != Key::PrintScreenSysRq && k != Key::PauseBreak {
        assert(0x1C <= c <= 0x5D);
    }
}

/// Something that wants the keyboard's events./// Something that wants the keyboard's events.
pub trait EventListener {
    fn receive_event(&mut self, event: Event);
}

/// The keyboard's reply to a command byte.
#[derive(Clone, Copy, Debug, PartialEq, Eq, Structural)]
pub enum Response {
    Ack,
    Resend,
    Error,
    Unknown,
}

/// The reply that a byte read from the data port stands for.
pub open spec fn spec_response(value: u8) -> Response {
    if value == 0xFA {
        Response::Ack
    } else if value == 0xFE {
        Response::Resend
    } else if value == 0x00 || value == 0xFF {
        Response::Error
    } else {
        Response::Unknown
    }
}

impl From<u8> for Response {
    fn from(value: u8) -> (r: Response) {
        match value {
            0xFA => Response::Ack,
            0xFE => Response::Resend,
            0x00 | 0xFF => Response::Error,
            _ => Response::Unknown,
        }
    }
}

impl vstd::std_specs::convert::FromSpecImpl<u8> for Response {
    open spec fn obeys_from_spec() -> bool {
        true
    }

    open spec fn from_spec(v: u8) -> Response {
        spec_response(v)
    }
}

} // verus!

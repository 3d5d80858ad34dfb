use vstd::prelude::*;

use std::collections::VecDeque;

use crate::char_device::{CharDevice, ReadErr, WriteErr};
use crate::keyboard::{Event, EventListener, Key};
use crate::vga::{after_bytes, after_char, Color, ColorCode, CursorPos, ScreenState, Writer};

verus! {

/// The effect of a key on the console.
#[derive(Clone, Copy, Debug, PartialEq, Eq, Structural)]
pub enum KeyAction {
    /// Toggles caps lock when released.
    CapsLock,
    /// Shift is held while pressed.
    Shift,
    /// Types the first character, or the second one with shift held.
    Symbol(u8, u8),
    /// Types the lowercase letter, or the uppercase one with shift or caps
    /// lock.
    Letter(u8),
    /// Types the character unless num lock is on.
    NoNumLockSymbol(u8),
    Nothing,
}

/// On the US layout, what shift turns a character of the main block into:
/// the symbols over the digits and the shifted punctuation; other
/// characters stay as they are.
pub open spec fn us_shifted(c: u8) -> u8 {
    if c == 96u8 { 126u8 }  // '`' -> '~'
    else if c == 49u8 { 33u8 }  // '1' -> '!'
    else if c == 50u8 { 64u8 }  // '2' -> '@'
    else if c == 51u8 { 35u8 }  // '3' -> '#'
    else if c == 52u8 { 36u8 }  // '4' -> '$'
    else if c == 53u8 { 37u8 }  // '5' -> '%'
    else if c == 54u8 { 94u8 }  // '6' -> '^'
    else if c == 55u8 { 38u8 }  // '7' -> '&'
    else if c == 56u8 { 42u8 }  // '8' -> '*'
    else if c == 57u8 { 40u8 }  // '9' -> '('
    else if c == 48u8 { 41u8 }  // '0' -> ')'
    else if c == 45u8 { 95u8 }  // '-' -> '_'
    else if c == 61u8 { 43u8 }  // '=' -> '+'
    else if c == 91u8 { 123u8 }  // '[' -> '{'
    else if c == 93u8 { 125u8 }  // ']' -> '}'
    else if c == 92u8 { 124u8 }  // backslash -> '|'
    else if c == 59u8 { 58u8 }  // ';' -> ':'
    else if c == 39u8 { 34u8 }  // apostrophe -> double quote
    else if c == 44u8 { 60u8 }  // ',' -> '<'
    else if c == 46u8 { 62u8 }  // '.' -> '>'
    else if c == 47u8 { 63u8 }  // '/' -> '?'
    else { c }
}

/// The key of the main block that types `c` without shift, on the US
/// layout (letters aside).
pub open spec fn main_block_key(c: u8) -> Option<Key> {
    if c == 96u8 { Some(Key::Backtick) }  // '`'
    else if c == 49u8 { Some(Key::One) }  // '1'
    else if c == 50u8 { Some(Key::Two) }  // '2'
    else if c == 51u8 { Some(Key::Three) }  // '3'
    else if c == 52u8 { Some(Key::Four) }  // '4'
    else if c == 53u8 { Some(Key::Five) }  // '5'
    else if c == 54u8 { Some(Key::Six) }  // '6'
    else if c == 55u8 { Some(Key::Seven) }  // '7'
    else if c == 56u8 { Some(Key::Eight) }  // '8'
    else if c == 57u8 { Some(Key::Nine) }  // '9'
    else if c == 48u8 { Some(Key::Zero) }  // '0'
    else if c == 45u8 { Some(Key::Minus) }  // '-'
    else if c == 61u8 { Some(Key::Equals) }  // '='
    else if c == 91u8 { Some(Key::LeftSquareBracket) }  // '['
    else if c == 93u8 { Some(Key::RightSquareBracket) }  // ']'
    else if c == 92u8 { Some(Key::Backslash) }  // backslash
    else if c == 59u8 { Some(Key::Semicolon) }  // ';'
    else if c == 39u8 { Some(Key::Apostrophe) }  // apostrophe
    else if c == 44u8 { Some(Key::Comma) }  // ','
    else if c == 46u8 { Some(Key::Period) }  // '.'
    else if c == 47u8 { Some(Key::Slash) }  // '/'
    else if c == 32u8 { Some(Key::Space) }  // space
    else if c == 10u8 { Some(Key::Enter) }  // line feed
    else { None }
}

/// The numeric keypad key that types the operator or line end `c`.
pub open spec fn keypad_operator_key(c: u8) -> Option<Key> {
    if c == 47u8 { Some(Key::NumpadSlash) }  // '/'
    else if c == 42u8 { Some(Key::NumpadAsterisk) }  // '*'
    else if c == 45u8 { Some(Key::NumpadMinus) }  // '-'
    else if c == 43u8 { Some(Key::NumpadPlus) }  // '+'
    else if c == 10u8 { Some(Key::NumpadEnter) }  // line feed
    else { None }
}

/// The numeric keypad key that types the digit or point `c` while num lock
/// is off.
pub open spec fn keypad_digit_key(c: u8) -> Option<Key> {
    if c == 48u8 { Some(Key::NumpadZero) }  // '0'
    else if c == 49u8 { Some(Key::NumpadOne) }  // '1'
    else if c == 50u8 { Some(Key::NumpadTwo) }  // '2'
    else if c == 51u8 { Some(Key::NumpadThree) }  // '3'
    else if c == 52u8 { Some(Key::NumpadFour) }  // '4'
    else if c == 53u8 { Some(Key::NumpadFive) }  // '5'
    else if c == 54u8 { Some(Key::NumpadSix) }  // '6'
    else if c == 55u8 { Some(Key::NumpadSeven) }  // '7'
    else if c == 56u8 { Some(Key::NumpadEight) }  // '8'
    else if c == 57u8 { Some(Key::NumpadNine) }  // '9'
    else if c == 46u8 { Some(Key::NumpadPeriod) }  // '.'
    else { None }
}

/// The letter key that types the lowercase letter `c`.
pub open spec fn letter_key(c: u8) -> Option<Key> {
    if c == 97u8 { Some(Key::A) }  // 'a'
    else if c == 98u8 { Some(Key::B) }  // 'b'
    else if c == 99u8 { Some(Key::C) }  // 'c'
    else if c == 100u8 { Some(Key::D) }  // 'd'
    else if c == 101u8 { Some(Key::E) }  // 'e'
    else if c == 102u8 { Some(Key::F) }  // 'f'
    else if c == 103u8 { Some(Key::G) }  // 'g'
    else if c == 104u8 { Some(Key::H) }  // 'h'
    else if c == 105u8 { Some(Key::I) }  // 'i'
    else if c == 106u8 { Some(Key::J) }  // 'j'
    else if c == 107u8 { Some(Key::K) }  // 'k'
    else if c == 108u8 { Some(Key::L) }  // 'l'
    else if c == 109u8 { Some(Key::M) }  // 'm'
    else if c == 110u8 { Some(Key::N) }  // 'n'
    else if c == 111u8 { Some(Key::O) }  // 'o'
    else if c == 112u8 { Some(Key::P) }  // 'p'
    else if c == 113u8 { Some(Key::Q) }  // 'q'
    else if c == 114u8 { Some(Key::R) }  // 'r'
    else if c == 115u8 { Some(Key::S) }  // 's'
    else if c == 116u8 { Some(Key::T) }  // 't'
    else if c == 117u8 { Some(Key::U) }  // 'u'
    else if c == 118u8 { Some(Key::V) }  // 'v'
    else if c == 119u8 { Some(Key::W) }  // 'w'
    else if c == 120u8 { Some(Key::X) }  // 'x'
    else if c == 121u8 { Some(Key::Y) }  // 'y'
    else if c == 122u8 { Some(Key::Z) }  // 'z'
    else { None }
}

/// The console types as a US keyboard does: a symbol key types the
/// character of its place on the US layout, and with shift what shift
/// turns that character into (keypad operators type the same either way);
/// a letter key types its letter; a keypad digit key its digit.  And each
/// key of those places does so.
pub proof fn lemma_key_action_us_layout(k: Key, c: u8)
    ensures
        spec_key_action(k) matches KeyAction::Symbol(lo, hi) ==> (main_block_key(lo) == Some(k) && hi
            == us_shifted(lo)) || (keypad_operator_key(lo) == Some(k) && hi == lo),
        spec_key_action(k) matches KeyAction::Letter(l) ==> letter_key(l) == Some(k),
        spec_key_action(k) matches KeyAction::NoNumLockSymbol(d) ==> keypad_digit_key(d) == Some(k),
        main_block_key(c) == Some(k) ==> spec_key_action(k) == KeyAction::Symbol(c, us_shifted(c)),
        keypad_operator_key(c) == Some(k) ==> spec_key_action(k) == KeyAction::Symbol(c, c),
        letter_key(c) == Some(k) ==> spec_key_action(k) == KeyAction::Letter(c),
        keypad_digit_key(c) == Some(k) ==> spec_key_action(k) == KeyAction::NoNumLockSymbol(c),
{
}

/// What a key does on the console.
pub open spec fn spec_key_action(key: Key) -> KeyAction {
    match key {
        Key::CapsLock => KeyAction::CapsLock,
        Key::LeftShift => KeyAction::Shift,
        Key::RightShift => KeyAction::Shift,
        Key::Backtick => KeyAction::Symbol(96u8, 126u8),
        Key::Space => KeyAction::Symbol(32u8, 32u8),
        Key::One => KeyAction::Symbol(49u8, 33u8),
        Key::Two => KeyAction::Symbol(50u8, 64u8),
        Key::Three => KeyAction::Symbol(51u8, 35u8),
        Key::Four => KeyAction::Symbol(52u8, 36u8),
        Key::Five => KeyAction::Symbol(53u8, 37u8),
        Key::Six => KeyAction::Symbol(54u8, 94u8),
        Key::Seven => KeyAction::Symbol(55u8, 38u8),
        Key::Eight => KeyAction::Symbol(56u8, 42u8),
        Key::Nine => KeyAction::Symbol(57u8, 40u8),
        Key::Zero => KeyAction::Symbol(48u8, 41u8),
        Key::Minus => KeyAction::Symbol(45u8, 95u8),
        Key::Equals => KeyAction::Symbol(61u8, 43u8),
        Key::LeftSquareBracket => KeyAction::Symbol(91u8, 123u8),
        Key::RightSquareBracket => KeyAction::Symbol(93u8, 125u8),
        Key::Backslash => KeyAction::Symbol(92u8, 124u8),
        Key::Semicolon => KeyAction::Symbol(59u8, 58u8),
        Key::Apostrophe => KeyAction::Symbol(39u8, 34u8),
        Key::Enter => KeyAction::Symbol(10u8, 10u8),
        Key::Comma => KeyAction::Symbol(44u8, 60u8),
        Key::Period => KeyAction::Symbol(46u8, 62u8),
        Key::Slash => KeyAction::Symbol(47u8, 63u8),
        Key::NumpadSlash => KeyAction::Symbol(47u8, 47u8),
        Key::NumpadAsterisk => KeyAction::Symbol(42u8, 42u8),
        Key::NumpadMinus => KeyAction::Symbol(45u8, 45u8),
        Key::NumpadPlus => KeyAction::Symbol(43u8, 43u8),
        Key::NumpadEnter => KeyAction::Symbol(10u8, 10u8),
        Key::A => KeyAction::Letter(97u8),
        Key::B => KeyAction::Letter(98u8),
        Key::C => KeyAction::Letter(99u8),
        Key::D => KeyAction::Letter(100u8),
        Key::E => KeyAction::Letter(101u8),
        Key::F => KeyAction::Letter(102u8),
        Key::G => KeyAction::Letter(103u8),
        Key::H => KeyAction::Letter(104u8),
        Key::I => KeyAction::Letter(105u8),
        Key::J => KeyAction::Letter(106u8),
        Key::K => KeyAction::Letter(107u8),
        Key::L => KeyAction::Letter(108u8),
        Key::M => KeyAction::Letter(109u8),
        Key::N => KeyAction::Letter(110u8),
        Key::O => KeyAction::Letter(111u8),
        Key::P => KeyAction::Letter(112u8),
        Key::Q => KeyAction::Letter(113u8),
        Key::R => KeyAction::Letter(114u8),
        Key::S => KeyAction::Letter(115u8),
        Key::T => KeyAction::Letter(116u8),
        Key::U => KeyAction::Letter(117u8),
        Key::V => KeyAction::Letter(118u8),
        Key::W => KeyAction::Letter(119u8),
        Key::X => KeyAction::Letter(120u8),
        Key::Y => KeyAction::Letter(121u8),
        Key::Z => KeyAction::Letter(122u8),
        Key::NumpadPeriod => KeyAction::NoNumLockSymbol(46u8),
        Key::NumpadOne => KeyAction::NoNumLockSymbol(49u8),
        Key::NumpadTwo => KeyAction::NoNumLockSymbol(50u8),
        Key::NumpadThree => KeyAction::NoNumLockSymbol(51u8),
        Key::NumpadFour => KeyAction::NoNumLockSymbol(52u8),
        Key::NumpadFive => KeyAction::NoNumLockSymbol(53u8),
        Key::NumpadSix => KeyAction::NoNumLockSymbol(54u8),
        Key::NumpadSeven => KeyAction::NoNumLockSymbol(55u8),
        Key::NumpadEight => KeyAction::NoNumLockSymbol(56u8),
        Key::NumpadNine => KeyAction::NoNumLockSymbol(57u8),
        Key::NumpadZero => KeyAction::NoNumLockSymbol(48u8),
        _ => KeyAction::Nothing,
    }
}

/// What a key does on the console.
pub fn key_action(key: Key) -> (r: KeyAction)
    ensures
        r == spec_key_action(key),
{
    match key {
        Key::CapsLock => KeyAction::CapsLock,
        Key::LeftShift => KeyAction::Shift,
        Key::RightShift => KeyAction::Shift,
        Key::Backtick => KeyAction::Symbol(96u8, 126u8),
        Key::Space => KeyAction::Symbol(32u8, 32u8),
        Key::One => KeyAction::Symbol(49u8, 33u8),
        Key::Two => KeyAction::Symbol(50u8, 64u8),
        Key::Three => KeyAction::Symbol(51u8, 35u8),
        Key::Four => KeyAction::Symbol(52u8, 36u8),
        Key::Five => KeyAction::Symbol(53u8, 37u8),
        Key::Six => KeyAction::Symbol(54u8, 94u8),
        Key::Seven => KeyAction::Symbol(55u8, 38u8),
        Key::Eight => KeyAction::Symbol(56u8, 42u8),
        Key::Nine => KeyAction::Symbol(57u8, 40u8),
        Key::Zero => KeyAction::Symbol(48u8, 41u8),
        Key::Minus => KeyAction::Symbol(45u8, 95u8),
        Key::Equals => KeyAction::Symbol(61u8, 43u8),
        Key::LeftSquareBracket => KeyAction::Symbol(91u8, 123u8),
        Key::RightSquareBracket => KeyAction::Symbol(93u8, 125u8),
        Key::Backslash => KeyAction::Symbol(92u8, 124u8),
        Key::Semicolon => KeyAction::Symbol(59u8, 58u8),
        Key::Apostrophe => KeyAction::Symbol(39u8, 34u8),
        Key::Enter => KeyAction::Symbol(10u8, 10u8),
        Key::Comma => KeyAction::Symbol(44u8, 60u8),
        Key::Period => KeyAction::Symbol(46u8, 62u8),
        Key::Slash => KeyAction::Symbol(47u8, 63u8),
        Key::NumpadSlash => KeyAction::Symbol(47u8, 47u8),
        Key::NumpadAsterisk => KeyAction::Symbol(42u8, 42u8),
        Key::NumpadMinus => KeyAction::Symbol(45u8, 45u8),
        Key::NumpadPlus => KeyAction::Symbol(43u8, 43u8),
        Key::NumpadEnter => KeyAction::Symbol(10u8, 10u8),
        Key::A => KeyAction::Letter(97u8),
        Key::B => KeyAction::Letter(98u8),
        Key::C => KeyAction::Letter(99u8),
        Key::D => KeyAction::Letter(100u8),
        Key::E => KeyAction::Letter(101u8),
        Key::F => KeyAction::Letter(102u8),
        Key::G => KeyAction::Letter(103u8),
        Key::H => KeyAction::Letter(104u8),
        Key::I => KeyAction::Letter(105u8),
        Key::J => KeyAction::Letter(106u8),
        Key::K => KeyAction::Letter(107u8),
        Key::L => KeyAction::Letter(108u8),
        Key::M => KeyAction::Letter(109u8),
        Key::N => KeyAction::Letter(110u8),
        Key::O => KeyAction::Letter(111u8),
        Key::P => KeyAction::Letter(112u8),
        Key::Q => KeyAction::Letter(113u8),
        Key::R => KeyAction::Letter(114u8),
        Key::S => KeyAction::Letter(115u8),
        Key::T => KeyAction::Letter(116u8),
        Key::U => KeyAction::Letter(117u8),
        Key::V => KeyAction::Letter(118u8),
        Key::W => KeyAction::Letter(119u8),
        Key::X => KeyAction::Letter(120u8),
        Key::Y => KeyAction::Letter(121u8),
        Key::Z => KeyAction::Letter(122u8),
        Key::NumpadPeriod => KeyAction::NoNumLockSymbol(46u8),
        Key::NumpadOne => KeyAction::NoNumLockSymbol(49u8),
        Key::NumpadTwo => KeyAction::NoNumLockSymbol(50u8),
        Key::NumpadThree => KeyAction::NoNumLockSymbol(51u8),
        Key::NumpadFour => KeyAction::NoNumLockSymbol(52u8),
        Key::NumpadFive => KeyAction::NoNumLockSymbol(53u8),
        Key::NumpadSix => KeyAction::NoNumLockSymbol(54u8),
        Key::NumpadSeven => KeyAction::NoNumLockSymbol(55u8),
        Key::NumpadEight => KeyAction::NoNumLockSymbol(56u8),
        Key::NumpadNine => KeyAction::NoNumLockSymbol(57u8),
        Key::NumpadZero => KeyAction::NoNumLockSymbol(48u8),
        _ => KeyAction::Nothing,
    }
}

/// What resolving one keyboard event gives.
#[derive(Clone, Copy, Debug, PartialEq, Eq, Structural)]
pub enum ResolveEvent {
    Ignored,
    Ascii(u8),
    FlagUpdate,
}

/// The state of the modifier keys.
pub struct Modifiers {
    pub shift: bool,
    pub caps_lock: bool,
    pub num_lock: bool,
}

/// What an event resolves to, and the modifiers afterwards.
pub open spec fn spec_resolve_event(e: Event, m: Modifiers) -> (ResolveEvent, Modifiers) {
    match spec_key_action(e.key) {
        KeyAction::CapsLock => (
            ResolveEvent::FlagUpdate,
            Modifiers {
                caps_lock: if !e.pressed {
                    !m.caps_lock
                } else {
                    m.caps_lock
                },
                ..m
            },
        ),
        KeyAction::Shift => (ResolveEvent::FlagUpdate, Modifiers { shift: e.pressed, ..m }),
        KeyAction::Symbol(lower, upper) => (
            if e.pressed {
                ResolveEvent::Ascii(
                    if m.shift {
                        upper
                    } else {
                        lower
                    },
                )
            } else {
                ResolveEvent::Ignored
            },
            m,
        ),
        KeyAction::Letter(c) => (
            if e.pressed {
                ResolveEvent::Ascii(
                    if m.shift || m.caps_lock {
                        (c - 32) as u8
                    } else {
                        c
                    },
                )
            } else {
                ResolveEvent::Ignored
            },
            m,
        ),
        KeyAction::NoNumLockSymbol(c) => (
            if e.pressed && !m.num_lock {
                ResolveEvent::Ascii(c)
            } else {
                ResolveEvent::Ignored
            },
            m,
        ),
        KeyAction::Nothing => (ResolveEvent::Ignored, m),
    }
}

/// Resolving queued events one after another until one types a character:
/// the character, if any, the events left and the modifiers afterwards.
pub open spec fn spec_resolve_ascii(events: Seq<Event>, m: Modifiers) -> (Option<u8>, Seq<Event>, Modifiers)
    decreases events.len(),
{
    if events.len() == 0 {
        (None, events, m)
    } else {
        let (res, m2) = spec_resolve_event(events[0], m);
        match res {
            ResolveEvent::Ascii(c) => (Some(c), events.drop_first(), m2),
            _ => spec_resolve_ascii(events.drop_first(), m2),
        }
    }
}

/// Most keyboard events that wait to be read.
pub const MAX_KBD_EVENTS: usize = 64;

/// The console: the screen it writes to, the keyboard events it has
/// received, and the modifier keys' state.
pub struct Console {
    pub writer: Writer,
    pub kbd_events: VecDeque<Event>,
    pub shift: bool,
    pub caps_lock: bool,
    pub num_lock: bool,
}

impl Console {
    pub open spec fn modifiers(&self) -> Modifiers {
        Modifiers { shift: self.shift, caps_lock: self.caps_lock, num_lock: self.num_lock }
    }

    pub open spec fn wf(&self) -> bool {
        self.writer.wf()
    }

    /// A console writing white on black from the bottom line, with no events
    /// and no modifier active.
    pub fn new() -> (r: Console)
        ensures
            r.wf(),
            r.writer.pos == (CursorPos { row: 24, col: 0 }),
            r.writer.color_code.0 == 0x0F,
            r.kbd_events@ == Seq::<Event>::empty(),
            r.writer.serial@ == Seq::<u8>::empty(),
            !r.shift && !r.caps_lock && !r.num_lock,
    {
        Console {
            writer: Writer::new(CursorPos::new(24, 0), ColorCode::new(Color::White, Color::Black)),
            kbd_events: VecDeque::new(),
            shift: false,
            caps_lock: false,
            num_lock: false,
        }
    }

    /// Queues a keyboard event unless the queue is full, in which case the
    /// event is dropped.
    pub fn receive_event(&mut self, event: Event)
        ensures
            old(self).kbd_events@.len() < MAX_KBD_EVENTS ==> final(self).kbd_events@ == old(
                self,
            ).kbd_events@.push(event),
            old(self).kbd_events@.len() >= MAX_KBD_EVENTS ==> final(self).kbd_events@ == old(
                self,
            ).kbd_events@,
            final(self).modifiers() == old(self).modifiers(),
            final(self).writer == old(self).writer,
    {
        if self.kbd_events.len() < MAX_KBD_EVENTS {
            self.kbd_events.push_back(event);
        }
    }

    /// Resolves the first queued event, which must exist.
    fn resolve_event(&mut self) -> (r: ResolveEvent)
        requires
            old(self).kbd_events@.len() > 0,
        ensures
            (r, final(self).modifiers()) == spec_resolve_event(old(self).kbd_events@[0], old(self).modifiers()),
            final(self).kbd_events@ == old(self).kbd_events@.drop_first(),
            final(self).writer == old(self).writer,
    {
        let event = self.kbd_events.pop_front().unwrap();
        assert(self.kbd_events@ =~= old(self).kbd_events@.drop_first());
        match key_action(event.key) {
            KeyAction::CapsLock => {
                if !event.pressed {
                    self.caps_lock = !self.caps_lock;
                }
                ResolveEvent::FlagUpdate
            },
            KeyAction::Shift => {
                self.shift = event.pressed;
                ResolveEvent::FlagUpdate
            },
            KeyAction::Symbol(lower, upper) => {
                if event.pressed {
                    ResolveEvent::Ascii(if !self.shift { lower } else { upper })
                } else {
                    ResolveEvent::Ignored
                }
            },
            KeyAction::Letter(c) => {
                if event.pressed {
                    assert(c >= 97) by {
                        reveal_letter_range(event.key);
                    }
                    let ch = if self.is_uppercase() { c - 32 } else { c };
                    ResolveEvent::Ascii(ch)
                } else {
                    ResolveEvent::Ignored
                }
            },
            KeyAction::NoNumLockSymbol(c) => {
                if event.pressed && !self.num_lock {
                    ResolveEvent::Ascii(c)
                } else {
                    ResolveEvent::Ignored
                }
            },
            KeyAction::Nothing => ResolveEvent::Ignored,
        }
    }

    fn is_uppercase(&self) -> (r: bool)
        ensures
            r == (self.shift || self.caps_lock),
    {
        self.shift || self.caps_lock
    }

    /// Resolves queued events until one types a character.
    fn try_resolve_into_ascii(&mut self) -> (r: Option<u8>)
        ensures
            (r, final(self).kbd_events@, final(self).modifiers()) == spec_resolve_ascii(
                old(self).kbd_events@,
                old(self).modifiers(),
            ),
            final(self).writer == old(self).writer,
    {
        loop
            invariant
                spec_resolve_ascii(self.kbd_events@, self.modifiers()) == spec_resolve_ascii(
                    old(self).kbd_events@,
                    old(self).modifiers(),
                ),
                self.writer == old(self).writer,
            decreases self.kbd_events@.len(),
        {
            if self.kbd_events.len() == 0 {
                return None;
            }
            let res = self.resolve_event();
            if let ResolveEvent::Ascii(ascii) = res {
                return Some(ascii);
            }
        }
    }

    /// The next typed character, or 0 when no queued event types one.
    pub fn read(&mut self) -> (r: Result<u8, ReadErr>)
        ensures
            r == Ok::<u8, ReadErr>(
                match spec_resolve_ascii(old(self).kbd_events@, old(self).modifiers()).0 {
                    Some(c) => c,
                    None => 0u8,
                },
            ),
            (final(self).kbd_events@, final(self).modifiers()) == ({
                let t = spec_resolve_ascii(old(self).kbd_events@, old(self).modifiers());
                (t.1, t.2)
            }),
            final(self).writer == old(self).writer,
    {
        match self.try_resolve_into_ascii() {
            Some(ascii) => Ok(ascii),
            None => Ok(0x00),
        }
    }

    /// Reads one character; only single characters can be read.
    pub fn read_many(&mut self, len: usize) -> (r: Result<Vec<u8>, ReadErr>)
        requires
            len == 1,
        ensures
            r is Ok,
            final(self).writer == old(self).writer,
            r->Ok_0@ == seq![match spec_resolve_ascii(old(self).kbd_events@, old(self).modifiers()).0 {
                Some(c) => c,
                None => 0u8,
            }],
            (final(self).kbd_events@, final(self).modifiers()) == ({
                let t = spec_resolve_ascii(old(self).kbd_events@, old(self).modifiers());
                (t.1, t.2)
            }),
    {
        let c = match self.read() {
            Ok(c) => c,
            Err(_) => 0,
        };
        let mut v: Vec<u8> = Vec::new();
        v.push(c);
        Ok(v)
    }

    /// Writes a byte to the screen.
    pub fn write(&mut self, byte: u8) -> (r: Result<(), WriteErr>)
        requires
            old(self).wf(),
        ensures
            final(self).wf(),
            r is Ok,
            final(self).writer.state() == after_char(old(self).writer.state(), byte),
            final(self).kbd_events@ == old(self).kbd_events@,
            final(self).writer.serial@ == old(self).writer.serial@.push(byte),
            final(self).modifiers() == old(self).modifiers(),
    {
        self.writer.write_char(byte);
        Ok(())
    }

    /// Writes bytes to the screen one after another.
    pub fn write_many(&mut self, bytes: &[u8]) -> (r: Result<(), WriteErr>)
        requires
            old(self).wf(),
        ensures
            final(self).wf(),
            r is Ok,
            final(self).writer.state() == after_bytes(old(self).writer.state(), bytes@),
            final(self).writer.serial@ == old(self).writer.serial@ + bytes@,
            final(self).kbd_events@ == old(self).kbd_events@,
            final(self).modifiers() == old(self).modifiers(),
    {
        self.writer.write_bytes(bytes);
        Ok(())
    }
}

/// Letter keys type lowercase ASCII letters.
proof fn reveal_letter_range(key: Key)
    ensures
        spec_key_action(key) matches KeyAction::Letter(c) ==> 97 <= c <= 122,
{
}

impl CharDevice for Console {
    open spec fn ready(&self) -> bool {
        self.wf()
    }

    open spec fn readable_len(&self, len: usize) -> bool {
        len == 1
    }

    fn read(&mut self) -> (r: Result<u8, ReadErr>)
        ensures
            r == Ok::<u8, ReadErr>(
                match spec_resolve_ascii(old(self).kbd_events@, old(self).modifiers()).0 {
                    Some(c) => c,
                    None => 0u8,
                },
            ),
            (final(self).kbd_events@, final(self).modifiers()) == ({
                let t = spec_resolve_ascii(old(self).kbd_events@, old(self).modifiers());
                (t.1, t.2)
            }),
            final(self).writer == old(self).writer,
    {
        Console::read(self)
    }

    fn read_many(&mut self, len: usize) -> (r: Result<Vec<u8>, ReadErr>)
        ensures
            r is Ok,
            r->Ok_0@ == seq![match spec_resolve_ascii(old(self).kbd_events@, old(self).modifiers()).0 {
                Some(c) => c,
                None => 0u8,
            }],
            (final(self).kbd_events@, final(self).modifiers()) == ({
                let t = spec_resolve_ascii(old(self).kbd_events@, old(self).modifiers());
                (t.1, t.2)
            }),
            final(self).writer == old(self).writer,
    {
        Console::read_many(self, len)
    }

    fn write(&mut self, byte: u8) -> (r: Result<(), WriteErr>)
        ensures
            r is Ok,
            final(self).writer.state() == after_char(old(self).writer.state(), byte),
            final(self).kbd_events@ == old(self).kbd_events@,
            final(self).writer.serial@ == old(self).writer.serial@.push(byte),
            final(self).modifiers() == old(self).modifiers(),
    {
        Console::write(self, byte)
    }

    fn write_many(&mut self, bytes: &[u8]) -> (r: Result<(), WriteErr>)
        ensures
            r is Ok,
            final(self).writer.state() == after_bytes(old(self).writer.state(), bytes@),
            final(self).writer.serial@ == old(self).writer.serial@ + bytes@,
            final(self).kbd_events@ == old(self).kbd_events@,
            final(self).modifiers() == old(self).modifiers(),
    {
        Console::write_many(self, bytes)
    }
}

impl EventListener for Console {
    fn receive_event(&mut self, event: Event)
        ensures
            old(self).kbd_events@.len() < MAX_KBD_EVENTS ==> final(self).kbd_events@ == old(
                self,
            ).kbd_events@.push(event),
            old(self).kbd_events@.len() >= MAX_KBD_EVENTS ==> final(self).kbd_events@ == old(
                self,
            ).kbd_events@,
            final(self).modifiers() == old(self).modifiers(),
            final(self).writer == old(self).writer,
    {
        Console::receive_event(self, event)
    }
}

/// Typing on the console: pressing a letter key types its letter, in
/// uppercase exactly when shift is held or caps lock is on; pressing a
/// symbol key of the main block types its character, shifted exactly when
/// shift is held (caps lock leaves symbols alone); pressing a keypad digit
/// key types its digit only while num lock is off; releasing any of them
/// types nothing; and none of them changes the modifiers.  Shift is held
/// from the press of either shift key to its release, and caps lock turns
/// over on the release of its key.
pub proof fn lemma_typing(k: Key, c: u8, pressed: bool, m: Modifiers)
    ensures
        ({
            let (r, m2) = spec_resolve_event(Event { key: k, pressed }, m);
            &&& letter_key(c) == Some(k) ==> m2 == m && r == if !pressed {
                ResolveEvent::Ignored
            } else if m.shift || m.caps_lock {
                ResolveEvent::Ascii((c - 32) as u8)
            } else {
                ResolveEvent::Ascii(c)
            }
            &&& main_block_key(c) == Some(k) ==> m2 == m && r == if !pressed {
                ResolveEvent::Ignored
            } else if m.shift {
                ResolveEvent::Ascii(us_shifted(c))
            } else {
                ResolveEvent::Ascii(c)
            }
            &&& keypad_digit_key(c) == Some(k) ==> m2 == m && r == if pressed && !m.num_lock {
                ResolveEvent::Ascii(c)
            } else {
                ResolveEvent::Ignored
            }
            &&& (k == Key::LeftShift || k == Key::RightShift) ==> r == ResolveEvent::FlagUpdate && m2 == (Modifiers {
                shift: pressed,
                ..m
            })
            &&& k == Key::CapsLock ==> r == ResolveEvent::FlagUpdate && m2 == (Modifiers {
                caps_lock: m.caps_lock != !pressed,
                ..m
            })
        }),
{
    lemma_key_action_us_layout(k, c);
}

/// Pressing and releasing caps lock turns it on or off and leaves the
/// other modifiers alone; doing it twice gives back the modifiers one
/// started with.
pub proof fn lemma_caps_lock_toggles(m: Modifiers)
    ensures
        ({
            let m1 = spec_resolve_event(Event { key: Key::CapsLock, pressed: true }, m).1;
            let m2 = spec_resolve_event(Event { key: Key::CapsLock, pressed: false }, m1).1;
            let m3 = spec_resolve_event(Event { key: Key::CapsLock, pressed: true }, m2).1;
            let m4 = spec_resolve_event(Event { key: Key::CapsLock, pressed: false }, m3).1;
            &&& m2.caps_lock == !m.caps_lock
            &&& m2.shift == m.shift
            &&& m2.num_lock == m.num_lock
            &&& m4 == m
        }),
{
}

} // verus!

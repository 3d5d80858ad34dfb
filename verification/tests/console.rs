use lib::char_device::CharDevice;
use lib::console::{key_action, Console, KeyAction, MAX_KBD_EVENTS};
use lib::keyboard::EventListener;
use lib::keyboard::{extended_key, single_key, Event, Key, Keyboard, PORT_DATA};
use lib::pic::PortWrite;
use lib::vga::{init, COM1_PORT, Color, ColorCode, CursorPos, ScreenChar, Writer, BUFFER_SIZE, BUFFER_WIDTH};

fn press(key: Key) -> Event {
    Event { key, pressed: true }
}

fn release(key: Key) -> Event {
    Event { key, pressed: false }
}

#[test]
fn keyboard_resolves_single_byte_codes() {
    let mut kbd = Keyboard::new();
    assert_eq!(kbd.data.port, PORT_DATA);
    assert_eq!(kbd.feed(0x1E), Some(press(Key::A)));
    assert!(kbd.scseq.is_empty());
    assert_eq!(kbd.feed(0x9E), Some(release(Key::A)));
    assert_eq!(kbd.feed(0x2A), Some(press(Key::LeftShift)));
    assert_eq!(single_key(0x1C), Some(Key::Enter));
    assert_eq!(single_key(0x00), None);
}

#[test]
fn press_and_release_give_the_same_key() {
    for sc in 0x01u8..=0x58u8 {
        if let Some(key) = single_key(sc) {
            let mut kbd = Keyboard::new();
            assert_eq!(kbd.feed(sc), Some(press(key)));
            assert_eq!(kbd.feed(sc + 0x80), Some(release(key)));
        }
    }
}

#[test]
fn keyboard_resolves_extended_codes() {
    let mut kbd = Keyboard::new();
    assert_eq!(kbd.feed(0xE0), None);
    assert_eq!(kbd.scseq, vec![0xE0]);
    assert_eq!(kbd.feed(0x48), Some(press(Key::UpArrow)));
    assert_eq!(kbd.feed(0xE0), None);
    assert_eq!(kbd.feed(0xC8), Some(release(Key::UpArrow)));
    assert_eq!(extended_key(0x1C), Some(Key::NumpadEnter));
    assert_eq!(extended_key(0x01), None);
}

#[test]
fn keyboard_resolves_print_screen_and_pause() {
    let mut kbd = Keyboard::new();
    for sc in [0xE0u8, 0x2A, 0xE0] {
        assert_eq!(kbd.feed(sc), None);
    }
    assert_eq!(kbd.feed(0x37), Some(press(Key::PrintScreenSysRq)));
    for sc in [0xE0u8, 0xB7, 0xE0] {
        assert_eq!(kbd.feed(sc), None);
    }
    assert_eq!(kbd.feed(0xAA), Some(release(Key::PrintScreenSysRq)));
    for sc in [0xE1u8, 0x1D, 0x45, 0xE1, 0x9D] {
        assert_eq!(kbd.feed(sc), None);
    }
    assert_eq!(kbd.feed(0xC5), Some(press(Key::PauseBreak)));
    assert!(kbd.scseq.is_empty());
}

#[test]
fn keyboard_drops_unknown_sequences() {
    let mut kbd = Keyboard::new();
    for sc in [0xE1u8, 0x00, 0x00, 0x00, 0x00, 0x00] {
        assert_eq!(kbd.feed(sc), None);
    }
    assert_eq!(kbd.scseq.len(), 6);
    assert_eq!(kbd.feed(0x00), None);
    assert!(kbd.scseq.is_empty());
}

#[test]
fn key_actions() {
    assert_eq!(key_action(Key::A), KeyAction::Letter(b'a'));
    assert_eq!(key_action(Key::One), KeyAction::Symbol(b'1', b'!'));
    assert_eq!(key_action(Key::LeftShift), KeyAction::Shift);
    assert_eq!(key_action(Key::CapsLock), KeyAction::CapsLock);
    assert_eq!(key_action(Key::Escape), KeyAction::Nothing);
}

#[test]
fn console_types_letters_and_symbols() {
    let mut console = Console::new();
    console.receive_event(press(Key::A));
    console.receive_event(release(Key::A));
    console.receive_event(press(Key::LeftShift));
    console.receive_event(press(Key::A));
    console.receive_event(press(Key::One));
    console.receive_event(release(Key::LeftShift));
    console.receive_event(press(Key::One));
    assert_eq!(console.read(), Ok(b'a'));
    assert_eq!(console.read(), Ok(b'A'));
    assert_eq!(console.read(), Ok(b'!'));
    assert_eq!(console.read(), Ok(b'1'));
    assert_eq!(console.read(), Ok(0));
    assert!(console.kbd_events.is_empty());
}

#[test]
fn caps_lock_toggles_on_release() {
    let mut console = Console::new();
    console.receive_event(press(Key::CapsLock));
    console.receive_event(press(Key::B));
    assert_eq!(console.read(), Ok(b'b'));
    console.receive_event(release(Key::CapsLock));
    console.receive_event(press(Key::B));
    assert_eq!(console.read(), Ok(b'B'));
    assert!(console.caps_lock);
    console.receive_event(press(Key::One));
    assert_eq!(console.read_many(1).unwrap(), vec![b'1']);
}

#[test]
fn console_event_queue_is_bounded() {
    let mut console = Console::new();
    for _ in 0..MAX_KBD_EVENTS + 5 {
        console.receive_event(press(Key::C));
    }
    assert_eq!(console.kbd_events.len(), MAX_KBD_EVENTS);
}

#[test]
fn console_writes_to_the_bottom_line() {
    let mut console = Console::new();
    assert_eq!(console.writer.pos, CursorPos { row: 24, col: 0 });
    console.write(b'h').unwrap();
    console.write_many(b"i").unwrap();
    let white_on_black = ColorCode::new(Color::White, Color::Black);
    assert_eq!(white_on_black.0, 0x0F);
    assert_eq!(
        console.writer.buffer[24 * BUFFER_WIDTH],
        ScreenChar { ascii_char: b'h', color_code: white_on_black }
    );
    assert_eq!(
        console.writer.buffer[24 * BUFFER_WIDTH + 1],
        ScreenChar { ascii_char: b'i', color_code: white_on_black }
    );
    assert_eq!(console.writer.pos, CursorPos { row: 24, col: 2 });
}

#[test]
fn writer_wraps_and_scrolls() {
    let code = ColorCode::new(Color::Yellow, Color::Blue);
    assert_eq!(code.0, 0x1E);
    let mut w = Writer::new(CursorPos::new(24, 0), code);
    w.write_bytes(b"ab\ncd");
    assert_eq!(w.pos, CursorPos { row: 24, col: 2 });
    assert_eq!(w.buffer[23 * BUFFER_WIDTH].ascii_char, b'a');
    assert_eq!(w.buffer[23 * BUFFER_WIDTH + 1].ascii_char, b'b');
    assert_eq!(w.buffer[24 * BUFFER_WIDTH].ascii_char, b'c');
    assert_eq!(w.buffer[24 * BUFFER_WIDTH + 2].ascii_char, b' ');

    let mut w = Writer::new(CursorPos::new(0, BUFFER_WIDTH), code);
    w.write_char(b'x');
    assert_eq!(w.pos, CursorPos { row: 1, col: 1 });
    assert_eq!(w.buffer[BUFFER_WIDTH].ascii_char, b'x');
}

#[test]
fn screen_is_cleared() {
    let mut w = init();
    assert_eq!(w.pos, CursorPos { row: 0, col: 0 });
    w.write_string("hello");
    assert_eq!(w.buffer[4].ascii_char, b'o');
    w.clear_screen();
    assert!(w.buffer.iter().all(|c| c.ascii_char == b' '));
    assert_eq!(w.buffer.len(), BUFFER_SIZE);
    assert_eq!(w.pos, CursorPos { row: 0, col: 5 });
}

#[test]
fn console_through_device_and_listener_traits() {
    let mut console = Console::new();
    EventListener::receive_event(&mut console, press(Key::Z));
    EventListener::receive_event(&mut console, press(Key::Two));
    assert_eq!(console.kbd_events.len(), 2);
    assert_eq!(CharDevice::read(&mut console), Ok(b'z'));
    assert_eq!(CharDevice::read_many(&mut console, 1), Ok(vec![b'2']));
    assert_eq!(CharDevice::read(&mut console), Ok(0));
    assert_eq!(CharDevice::write(&mut console, b'o'), Ok(()));
    assert_eq!(CharDevice::write_many(&mut console, b"k"), Ok(()));
    assert_eq!(console.writer.buffer[24 * BUFFER_WIDTH].ascii_char, b'o');
    assert_eq!(console.writer.buffer[24 * BUFFER_WIDTH + 1].ascii_char, b'k');
}

#[test]
fn screen_output_is_copied_to_com1() {
    let mut w = init();
    w.write_string("ab\nc");
    assert_eq!(w.buffer[0].ascii_char, b'a');
    assert_eq!(w.buffer[BUFFER_WIDTH].ascii_char, b'c');
    let copies = w.take_serial_writes();
    assert_eq!(
        copies,
        vec![
            PortWrite { port: COM1_PORT, value: b'a' },
            PortWrite { port: COM1_PORT, value: b'b' },
            PortWrite { port: COM1_PORT, value: b'\n' },
            PortWrite { port: COM1_PORT, value: b'c' },
        ]
    );
    assert!(w.take_serial_writes().is_empty());
    assert_eq!(COM1_PORT, 0x3F8);
    let mut console = Console::new();
    console.write_many(b"hi").unwrap();
    assert_eq!(console.writer.serial, b"hi".to_vec());
}

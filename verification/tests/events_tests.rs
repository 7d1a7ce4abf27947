use ratatui_testlib::events::{
    encode_key_event, encode_mouse_event, KeyCode, KeyEvent, Modifiers, MouseButton, MouseEvent,
    ScrollDirection,
};

#[test]
fn test_key_event_new() {
    let event = KeyEvent::new(KeyCode::Char('a'));
    assert_eq!(event.code, KeyCode::Char('a'));
    assert_eq!(event.modifiers, Modifiers::empty());
}

#[test]
fn test_key_event_with_modifiers() {
    let event = KeyEvent::with_modifiers(KeyCode::Char('c'), Modifiers::ctrl());
    assert_eq!(event.code, KeyCode::Char('c'));
    assert_eq!(event.modifiers, Modifiers::ctrl());
}

#[test]
fn test_encode_simple_char() {
    let event = KeyEvent::new(KeyCode::Char('a'));
    assert_eq!(event.to_bytes(), b"a");

    let event = KeyEvent::new(KeyCode::Char('Z'));
    assert_eq!(event.to_bytes(), b"Z");

    let event = KeyEvent::new(KeyCode::Char('5'));
    assert_eq!(event.to_bytes(), b"5");
}

#[test]
fn test_encode_special_chars() {
    let event = KeyEvent::new(KeyCode::Enter);
    assert_eq!(event.to_bytes(), b"\n");

    let event = KeyEvent::new(KeyCode::Tab);
    assert_eq!(event.to_bytes(), b"\t");

    let event = KeyEvent::new(KeyCode::Esc);
    assert_eq!(event.to_bytes(), vec![0x1b]);

    let event = KeyEvent::new(KeyCode::Backspace);
    assert_eq!(event.to_bytes(), vec![0x7f]);
}

#[test]
fn test_encode_navigation_keys() {
    let event = KeyEvent::new(KeyCode::Up);
    assert_eq!(event.to_bytes(), b"\x1b[A");

    let event = KeyEvent::new(KeyCode::Down);
    assert_eq!(event.to_bytes(), b"\x1b[B");

    let event = KeyEvent::new(KeyCode::Right);
    assert_eq!(event.to_bytes(), b"\x1b[C");

    let event = KeyEvent::new(KeyCode::Left);
    assert_eq!(event.to_bytes(), b"\x1b[D");

    let event = KeyEvent::new(KeyCode::Home);
    assert_eq!(event.to_bytes(), b"\x1b[H");

    let event = KeyEvent::new(KeyCode::End);
    assert_eq!(event.to_bytes(), b"\x1b[F");
}

#[test]
fn test_encode_page_keys() {
    let event = KeyEvent::new(KeyCode::PageUp);
    assert_eq!(event.to_bytes(), b"\x1b[5~");

    let event = KeyEvent::new(KeyCode::PageDown);
    assert_eq!(event.to_bytes(), b"\x1b[6~");
}

#[test]
fn test_encode_delete_insert() {
    let event = KeyEvent::new(KeyCode::Delete);
    assert_eq!(event.to_bytes(), b"\x1b[3~");

    let event = KeyEvent::new(KeyCode::Insert);
    assert_eq!(event.to_bytes(), b"\x1b[2~");
}

#[test]
fn test_encode_function_keys() {
    // F1-F4 use SS3 sequences
    let event = KeyEvent::new(KeyCode::F(1));
    assert_eq!(event.to_bytes(), b"\x1bOP");

    let event = KeyEvent::new(KeyCode::F(2));
    assert_eq!(event.to_bytes(), b"\x1bOQ");

    let event = KeyEvent::new(KeyCode::F(3));
    assert_eq!(event.to_bytes(), b"\x1bOR");

    let event = KeyEvent::new(KeyCode::F(4));
    assert_eq!(event.to_bytes(), b"\x1bOS");

    // F5-F12 use CSI sequences
    let event = KeyEvent::new(KeyCode::F(5));
    assert_eq!(event.to_bytes(), b"\x1b[15~");

    let event = KeyEvent::new(KeyCode::F(12));
    assert_eq!(event.to_bytes(), b"\x1b[24~");
}

#[test]
fn test_encode_ctrl_combinations() {
    // Ctrl+A = 0x01
    let event = KeyEvent::with_modifiers(KeyCode::Char('a'), Modifiers::ctrl());
    assert_eq!(event.to_bytes(), vec![1]);

    // Ctrl+C = 0x03
    let event = KeyEvent::with_modifiers(KeyCode::Char('c'), Modifiers::ctrl());
    assert_eq!(event.to_bytes(), vec![3]);

    // Ctrl+D = 0x04 (EOF)
    let event = KeyEvent::with_modifiers(KeyCode::Char('d'), Modifiers::ctrl());
    assert_eq!(event.to_bytes(), vec![4]);

    // Ctrl+Z = 0x1A
    let event = KeyEvent::with_modifiers(KeyCode::Char('z'), Modifiers::ctrl());
    assert_eq!(event.to_bytes(), vec![26]);

    // Ctrl+[ = ESC (0x1B)
    let event = KeyEvent::with_modifiers(KeyCode::Char('['), Modifiers::ctrl());
    assert_eq!(event.to_bytes(), vec![27]);
}

#[test]
fn test_encode_ctrl_uppercase() {
    // Ctrl+A and Ctrl+a should produce the same result
    let event_lower = KeyEvent::with_modifiers(KeyCode::Char('a'), Modifiers::ctrl());
    let event_upper = KeyEvent::with_modifiers(KeyCode::Char('A'), Modifiers::ctrl());
    assert_eq!(event_lower.to_bytes(), event_upper.to_bytes());
}

#[test]
fn test_encode_alt_combinations() {
    // Alt+a = ESC + 'a'
    let event = KeyEvent::with_modifiers(KeyCode::Char('a'), Modifiers::alt());
    assert_eq!(event.to_bytes(), b"\x1ba");

    // Alt+x = ESC + 'x'
    let event = KeyEvent::with_modifiers(KeyCode::Char('x'), Modifiers::alt());
    assert_eq!(event.to_bytes(), b"\x1bx");
}

#[test]
fn test_modifier_combinations() {
    let ctrl = Modifiers::ctrl();
    let shift = Modifiers::shift();
    let alt = Modifiers::alt();

    let ctrl_shift = ctrl | shift;
    assert!(ctrl_shift.contains(Modifiers::ctrl()));
    assert!(ctrl_shift.contains(Modifiers::shift()));
    assert!(!ctrl_shift.contains(Modifiers::alt()));

    let ctrl_alt = ctrl | alt;
    assert!(ctrl_alt.contains(Modifiers::ctrl()));
    assert!(ctrl_alt.contains(Modifiers::alt()));
}

#[test]
fn test_keycode_equality() {
    assert_eq!(KeyCode::Char('a'), KeyCode::Char('a'));
    assert_ne!(KeyCode::Char('a'), KeyCode::Char('b'));
    assert_eq!(KeyCode::Enter, KeyCode::Enter);
    assert_eq!(KeyCode::F(1), KeyCode::F(1));
    assert_ne!(KeyCode::F(1), KeyCode::F(2));
}

#[test]
fn test_key_event_equality() {
    let event1 = KeyEvent::new(KeyCode::Char('a'));
    let event2 = KeyEvent::new(KeyCode::Char('a'));
    assert_eq!(event1, event2);

    let event3 = KeyEvent::with_modifiers(KeyCode::Char('a'), Modifiers::ctrl());
    assert_ne!(event1, event3);
}

// Mouse event tests

#[test]
fn test_mouse_button_codes() {
    assert_eq!(MouseButton::Left.to_sgr_code(), 0);
    assert_eq!(MouseButton::Middle.to_sgr_code(), 1);
    assert_eq!(MouseButton::Right.to_sgr_code(), 2);
}

#[test]
fn test_scroll_direction_codes() {
    assert_eq!(ScrollDirection::Up.to_sgr_code(), 64);
    assert_eq!(ScrollDirection::Down.to_sgr_code(), 65);
    assert_eq!(ScrollDirection::Left.to_sgr_code(), 66);
    assert_eq!(ScrollDirection::Right.to_sgr_code(), 67);
}

#[test]
fn test_mouse_event_press() {
    let event = MouseEvent::press(10, 5, MouseButton::Left);
    assert_eq!(event.x, 10);
    assert_eq!(event.y, 5);
    assert_eq!(event.button_code, 0);
    assert!(event.is_press);
    assert_eq!(event.modifiers, Modifiers::empty());
}

#[test]
fn test_mouse_event_release() {
    let event = MouseEvent::release(10, 5, MouseButton::Right);
    assert_eq!(event.x, 10);
    assert_eq!(event.y, 5);
    assert_eq!(event.button_code, 2);
    assert!(!event.is_press);
}

#[test]
fn test_mouse_event_scroll() {
    let event = MouseEvent::scroll(15, 8, ScrollDirection::Up);
    assert_eq!(event.x, 15);
    assert_eq!(event.y, 8);
    assert_eq!(event.button_code, 64);
    assert!(event.is_press); // Scroll uses press encoding
}

#[test]
fn test_encode_mouse_left_click() {
    // Left button press at (10, 5) -> 0-indexed coords
    // Should convert to 1-indexed: (11, 6)
    let event = MouseEvent::press(10, 5, MouseButton::Left);
    let bytes = event.to_bytes();
    assert_eq!(bytes, b"\x1b[<0;11;6M");
}

#[test]
fn test_encode_mouse_left_release() {
    let event = MouseEvent::release(10, 5, MouseButton::Left);
    let bytes = event.to_bytes();
    // Note lowercase 'm' for release
    assert_eq!(bytes, b"\x1b[<0;11;6m");
}

#[test]
fn test_encode_mouse_right_click() {
    let event = MouseEvent::press(20, 15, MouseButton::Right);
    let bytes = event.to_bytes();
    // Right button = 2, coords 21,16 (1-indexed)
    assert_eq!(bytes, b"\x1b[<2;21;16M");
}

#[test]
fn test_encode_mouse_middle_click() {
    let event = MouseEvent::press(5, 3, MouseButton::Middle);
    let bytes = event.to_bytes();
    // Middle button = 1, coords 6,4 (1-indexed)
    assert_eq!(bytes, b"\x1b[<1;6;4M");
}

#[test]
fn test_encode_mouse_scroll_up() {
    let event = MouseEvent::scroll(10, 5, ScrollDirection::Up);
    let bytes = event.to_bytes();
    // Scroll up = 64
    assert_eq!(bytes, b"\x1b[<64;11;6M");
}

#[test]
fn test_encode_mouse_scroll_down() {
    let event = MouseEvent::scroll(10, 5, ScrollDirection::Down);
    let bytes = event.to_bytes();
    // Scroll down = 65
    assert_eq!(bytes, b"\x1b[<65;11;6M");
}

#[test]
fn test_encode_mouse_with_shift() {
    let event = MouseEvent::press_with_modifiers(10, 5, MouseButton::Left, Modifiers::shift());
    let bytes = event.to_bytes();
    // Shift adds 4 to button code: 0 + 4 = 4
    assert_eq!(bytes, b"\x1b[<4;11;6M");
}

#[test]
fn test_encode_mouse_with_alt() {
    let event = MouseEvent::press_with_modifiers(10, 5, MouseButton::Left, Modifiers::alt());
    let bytes = event.to_bytes();
    // Alt adds 8 to button code: 0 + 8 = 8
    assert_eq!(bytes, b"\x1b[<8;11;6M");
}

#[test]
fn test_encode_mouse_with_ctrl() {
    let event = MouseEvent::press_with_modifiers(10, 5, MouseButton::Left, Modifiers::ctrl());
    let bytes = event.to_bytes();
    // Ctrl adds 16 to button code: 0 + 16 = 16
    assert_eq!(bytes, b"\x1b[<16;11;6M");
}

#[test]
fn test_encode_mouse_with_multiple_modifiers() {
    // Ctrl+Shift
    let event = MouseEvent::press_with_modifiers(
        10,
        5,
        MouseButton::Left,
        Modifiers::ctrl() | Modifiers::shift(),
    );
    let bytes = event.to_bytes();
    // Ctrl (16) + Shift (4) = 20
    assert_eq!(bytes, b"\x1b[<20;11;6M");
}

#[test]
fn test_encode_mouse_at_origin() {
    // Test coordinates at (0,0)
    let event = MouseEvent::press(0, 0, MouseButton::Left);
    let bytes = event.to_bytes();
    // Should convert to 1-indexed: (1, 1)
    assert_eq!(bytes, b"\x1b[<0;1;1M");
}

#[test]
fn test_encode_mouse_large_coordinates() {
    // Test large coordinates
    let event = MouseEvent::press(255, 100, MouseButton::Right);
    let bytes = event.to_bytes();
    // Should convert to 1-indexed: (256, 101)
    assert_eq!(bytes, b"\x1b[<2;256;101M");
}

#[test]
fn test_mouse_event_equality() {
    let event1 = MouseEvent::press(10, 5, MouseButton::Left);
    let event2 = MouseEvent::press(10, 5, MouseButton::Left);
    assert_eq!(event1, event2);

    let event3 = MouseEvent::press(10, 5, MouseButton::Right);
    assert_ne!(event1, event3);

    let event4 = MouseEvent::release(10, 5, MouseButton::Left);
    assert_ne!(event1, event4); // Different is_press state
}

#[test]
fn test_encode_free_functions_match_methods() {
    let key = KeyEvent::with_modifiers(KeyCode::Char('b'), Modifiers::alt());
    assert_eq!(encode_key_event(&key), key.to_bytes());
    assert_eq!(encode_key_event(&key), b"\x1bb");
    let mouse = MouseEvent::scroll(0, 0, ScrollDirection::Left);
    assert_eq!(encode_mouse_event(&mouse), b"\x1b[<66;1;1M");
}

#[test]
fn test_encode_unicode_char() {
    let event = KeyEvent::new(KeyCode::Char('\u{e9}'));
    assert_eq!(event.to_bytes(), vec![0xc3, 0xa9]);
    let event = KeyEvent::new(KeyCode::Char('\u{1F600}'));
    assert_eq!(event.to_bytes(), "\u{1F600}".as_bytes());
}

#[test]
fn test_encode_function_keys_all() {
    let expected: [&[u8]; 12] = [
        b"\x1bOP", b"\x1bOQ", b"\x1bOR", b"\x1bOS", b"\x1b[15~", b"\x1b[17~", b"\x1b[18~",
        b"\x1b[19~", b"\x1b[20~", b"\x1b[21~", b"\x1b[23~", b"\x1b[24~",
    ];
    for (i, e) in expected.iter().enumerate() {
        assert_eq!(KeyEvent::new(KeyCode::F(i as u8 + 1)).to_bytes(), e.to_vec());
    }
}

#[test]
fn test_modifiers_bits() {
    assert_eq!(Modifiers::shift().bits(), 1);
    assert_eq!(Modifiers::ctrl().bits(), 2);
    assert_eq!(Modifiers::alt().bits(), 4);
    assert_eq!(Modifiers::meta().bits(), 8);
    assert_eq!(Modifiers::all().bits(), 15);
    assert!(Modifiers::empty().is_empty());
    assert_eq!(Modifiers::from_bits(16), None);
    assert_eq!(Modifiers::from_bits_truncate(0xff).bits(), 15);
    let mut m = Modifiers::ctrl();
    m.insert(Modifiers::shift());
    assert_eq!(m.bits(), 3);
    m.remove(Modifiers::ctrl());
    assert_eq!(m, Modifiers::shift());
    assert!(m.intersects(Modifiers::shift() | Modifiers::alt()));
}

#[test]
fn test_mouse_event_can_encode() {
    assert!(MouseEvent::press(10, 5, MouseButton::Left).can_encode());
    assert!(!MouseEvent::press(u16::MAX, 5, MouseButton::Left).can_encode());
    assert!(!MouseEvent::press(3, u16::MAX, MouseButton::Left).can_encode());
    let mut e = MouseEvent::scroll(1, 1, ScrollDirection::Down);
    e.button_code = 252;
    e.modifiers = Modifiers::shift();
    assert!(!e.can_encode());
    e.button_code = 251;
    e.modifiers = Modifiers::empty();
    assert!(e.can_encode());
}

#[test]
fn test_mouse_meta_adds_eight() {
    let e = MouseEvent::press_with_modifiers(10, 5, MouseButton::Left, Modifiers::meta());
    assert_eq!(encode_mouse_event(&e), b"\x1b[<8;11;6M".to_vec());
    let both = MouseEvent::press_with_modifiers(10, 5, MouseButton::Left, Modifiers::alt().union(Modifiers::meta()));
    assert_eq!(encode_mouse_event(&both), b"\x1b[<8;11;6M".to_vec());
}

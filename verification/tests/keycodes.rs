use theseus::keycodes::{
    scancode_to_ascii, KeyAction, KeyEvent, KeyboardModifiers, Keycode, ALT, CAPS_LOCK,
    CONTROL_RIGHT, NUM_SCANCODES, SHIFT_LEFT, SHIFT_RIGHT, SUPER_KEY_LEFT,
};

fn with(bits: u16) -> KeyboardModifiers {
    KeyboardModifiers::from_bits_truncate(bits)
}

#[test]
fn scancodes_name_their_keys() {
    assert_eq!(Keycode::from_scancode(0), Some(Keycode::OverflowError));
    assert_eq!(Keycode::from_scancode(1), Some(Keycode::Escape));
    assert_eq!(Keycode::from_scancode(16), Some(Keycode::Q));
    assert_eq!(Keycode::from_scancode(28), Some(Keycode::Enter));
    assert_eq!(Keycode::from_scancode(57), Some(Keycode::Space));
    assert_eq!(Keycode::from_scancode(83), Some(Keycode::Delete));
    assert_eq!(Keycode::from_scancode(93), Some(Keycode::Menu));
}

#[test]
fn scancodes_past_the_table_name_nothing() {
    assert_eq!(Keycode::from_scancode(NUM_SCANCODES), None);
    assert_eq!(Keycode::from_scancode(128), None);
    assert_eq!(Keycode::from_scancode(255), None);
}

#[test]
fn every_scancode_in_the_table_names_a_distinct_key() {
    let mut seen: Vec<Keycode> = Vec::new();
    for s in 0..NUM_SCANCODES {
        let k = Keycode::from_scancode(s).expect("scancode in the table");
        assert!(!seen.contains(&k));
        seen.push(k);
    }
    assert_eq!(seen.len(), 94);
}

#[test]
fn plain_keys_give_lowercase_and_digits() {
    let none = KeyboardModifiers::new();
    assert_eq!(Keycode::Q.to_ascii(none), Some(b'q'));
    assert_eq!(Keycode::Num1.to_ascii(none), Some(b'1'));
    assert_eq!(Keycode::Space.to_ascii(none), Some(b' '));
    assert_eq!(Keycode::Enter.to_ascii(none), Some(b'\n'));
    assert_eq!(Keycode::Backspace.to_ascii(none), Some(8));
    assert_eq!(Keycode::Tab.to_ascii(none), Some(b'\t'));
    assert_eq!(Keycode::Escape.to_ascii(none), Some(27));
    assert_eq!(Keycode::Slash.to_ascii(none), Some(b'/'));
}

#[test]
fn keys_without_a_character_give_none() {
    let none = KeyboardModifiers::new();
    assert_eq!(Keycode::F1.to_ascii(none), None);
    assert_eq!(Keycode::LeftShift.to_ascii(none), None);
    assert_eq!(Keycode::Up.to_ascii(with(SHIFT_LEFT)), None);
}

#[test]
fn shift_gives_the_shifted_character() {
    assert_eq!(Keycode::Q.to_ascii(with(SHIFT_LEFT)), Some(b'Q'));
    assert_eq!(Keycode::Q.to_ascii(with(SHIFT_RIGHT)), Some(b'Q'));
    assert_eq!(Keycode::Num1.to_ascii(with(SHIFT_LEFT)), Some(b'!'));
    assert_eq!(Keycode::Slash.to_ascii(with(SHIFT_RIGHT)), Some(b'?'));
}

#[test]
fn caps_lock_shifts_letters_only() {
    let caps = with(CAPS_LOCK);
    assert_eq!(Keycode::Q.to_ascii(caps), Some(b'Q'));
    assert_eq!(Keycode::Num1.to_ascii(caps), Some(b'1'));
    assert_eq!(Keycode::Slash.to_ascii(caps), Some(b'/'));
}

#[test]
fn shift_with_caps_lock_gives_lowercase_letters() {
    let both = with(CAPS_LOCK | SHIFT_LEFT);
    assert_eq!(Keycode::Q.to_ascii(both), Some(b'q'));
    assert_eq!(Keycode::Num1.to_ascii(both), Some(b'!'));
}

#[test]
fn scancode_to_ascii_decodes_through_the_keycode() {
    assert_eq!(scancode_to_ascii(KeyboardModifiers::new(), 30), Some(b'a'));
    assert_eq!(scancode_to_ascii(with(SHIFT_LEFT), 30), Some(b'A'));
    assert_eq!(scancode_to_ascii(KeyboardModifiers::new(), 59), None);
    assert_eq!(scancode_to_ascii(KeyboardModifiers::new(), 200), None);
}

#[test]
fn letters_are_exactly_a_to_z() {
    let mut letters = 0;
    for s in 0..NUM_SCANCODES {
        let k = Keycode::from_scancode(s).unwrap();
        if k.is_letter() {
            letters += 1;
            let c = k.to_ascii(KeyboardModifiers::new()).unwrap();
            assert!(c.is_ascii_lowercase());
        }
    }
    assert_eq!(letters, 26);
    assert!(!Keycode::Num1.is_letter());
}

#[test]
fn modifier_queries() {
    let m = with(SHIFT_RIGHT | CONTROL_RIGHT | ALT | SUPER_KEY_LEFT);
    assert!(m.is_shift());
    assert!(m.is_control());
    assert!(m.is_alt());
    assert!(!m.is_alt_gr());
    assert!(m.is_super_key());
    assert!(!m.is_caps_lock());
    assert!(!m.is_num_lock());
    assert!(!m.is_scroll_lock());
    assert!(!KeyboardModifiers::empty().is_shift());
}

#[test]
fn modifier_bits_insert_remove_and_truncate() {
    let mut m = KeyboardModifiers::new();
    assert_eq!(m.bits(), 0);
    m.insert(CAPS_LOCK);
    assert!(m.contains(CAPS_LOCK));
    m.insert(SHIFT_LEFT);
    assert_eq!(m.bits(), CAPS_LOCK | SHIFT_LEFT);
    m.remove(CAPS_LOCK);
    assert_eq!(m.bits(), SHIFT_LEFT);
    assert!(!m.contains(CAPS_LOCK | SHIFT_LEFT));
    assert!(m.intersects(CAPS_LOCK | SHIFT_LEFT));
    assert_eq!(KeyboardModifiers::from_bits_truncate(0xFFFF).bits(), 0x07FF);
}

#[test]
fn key_event_holds_its_parts() {
    let e = KeyEvent::new(Keycode::A, KeyAction::Released, with(ALT));
    assert_eq!(e.keycode, Keycode::A);
    assert_eq!(e.action, KeyAction::Released);
    assert_eq!(e.modifiers.bits(), ALT);
}

#[test]
fn shifted_keys_that_do_not_change_and_symbols() {
    assert_eq!(Keycode::Space.to_ascii(with(SHIFT_LEFT)), Some(b' '));
    assert_eq!(Keycode::Num2.to_ascii(with(SHIFT_LEFT)), Some(b'@'));
    for s in 0..NUM_SCANCODES {
        let k = Keycode::from_scancode(s).unwrap();
        let plain = k.to_ascii(KeyboardModifiers::new());
        let shifted = k.to_ascii(with(SHIFT_LEFT));
        assert_eq!(plain.is_some(), shifted.is_some());
        if k.is_letter() {
            assert_eq!(shifted, plain.map(|b| b.to_ascii_uppercase()));
        }
    }
}

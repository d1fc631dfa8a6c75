use theseus::job_shell::{handle_key_event, parse_pipeline, Event, KeyOutcome};
use theseus::keycodes::{
    KeyAction, KeyEvent, KeyboardModifiers, Keycode, CONTROL_LEFT, SHIFT_LEFT, SHIFT_RIGHT,
};

fn press(k: Keycode, bits: u16) -> KeyEvent {
    KeyEvent::new(k, KeyAction::Pressed, KeyboardModifiers::from_bits_truncate(bits))
}

fn chars(s: &str) -> Vec<char> {
    s.chars().collect()
}

#[test]
fn releases_are_ignored() {
    let e = KeyEvent::new(Keycode::A, KeyAction::Released, KeyboardModifiers::new());
    assert!(matches!(handle_key_event(e, Some(1), true), KeyOutcome::Ignore));
}

#[test]
fn ctrl_c_kills_the_foreground_job_or_clears_the_line() {
    let e = press(Keycode::C, CONTROL_LEFT);
    assert!(matches!(handle_key_event(e, Some(3), true), KeyOutcome::KillForeground(3)));
    assert!(matches!(
        handle_key_event(e, Some(3), false),
        KeyOutcome::Enqueue(Event::CtrlC { clear: true })
    ));
    assert!(matches!(handle_key_event(e, None, false), KeyOutcome::Enqueue(Event::CtrlC { clear: true })));
}

#[test]
fn ctrl_z_and_ctrl_d_act_on_an_existing_job_only() {
    let z = press(Keycode::Z, CONTROL_LEFT);
    let d = press(Keycode::D, CONTROL_LEFT);
    assert!(matches!(handle_key_event(z, Some(2), true), KeyOutcome::StopForeground(2)));
    assert!(matches!(handle_key_event(d, Some(2), true), KeyOutcome::SetForegroundEof(2)));
    assert!(matches!(handle_key_event(z, None, false), KeyOutcome::Ignore));
    assert!(matches!(handle_key_event(d, Some(2), false), KeyOutcome::Ignore));
}

#[test]
fn navigation_keys_become_front_end_events() {
    assert!(matches!(handle_key_event(press(Keycode::Home, 0), None, false), KeyOutcome::Enqueue(Event::CursorLeftmost)));
    assert!(matches!(handle_key_event(press(Keycode::Home, CONTROL_LEFT), None, false), KeyOutcome::Enqueue(Event::ScreenBegin)));
    assert!(matches!(handle_key_event(press(Keycode::End, 0), None, false), KeyOutcome::Enqueue(Event::CursorRightmost)));
    assert!(matches!(handle_key_event(press(Keycode::PageUp, SHIFT_LEFT), None, false), KeyOutcome::Enqueue(Event::PageUp)));
    assert!(matches!(handle_key_event(press(Keycode::Up, CONTROL_LEFT | SHIFT_RIGHT), None, false), KeyOutcome::Enqueue(Event::LineUp)));
    assert!(matches!(handle_key_event(press(Keycode::Backspace, 0), None, false), KeyOutcome::Enqueue(Event::Backspace)));
    assert!(matches!(handle_key_event(press(Keycode::Delete, 0), None, false), KeyOutcome::Enqueue(Event::Delete)));
    assert!(matches!(handle_key_event(press(Keycode::Left, 0), None, false), KeyOutcome::Enqueue(Event::CursorLeft)));
    assert!(matches!(handle_key_event(press(Keycode::Right, 0), None, false), KeyOutcome::Enqueue(Event::CursorRight)));
}

fn parsed(line: &str) -> Vec<(String, Vec<String>)> {
    parse_pipeline(&chars(line))
        .into_iter()
        .map(|c| {
            (
                c.command.into_iter().collect(),
                c.args.into_iter().map(|a| a.into_iter().collect()).collect(),
            )
        })
        .collect()
}

#[test]
fn pipeline_splits_on_bars_and_words() {
    assert_eq!(
        parsed("ls -l | grep foo |wc"),
        vec![
            ("ls".to_owned(), vec!["-l".to_owned()]),
            ("grep".to_owned(), vec!["foo".to_owned()]),
            ("wc".to_owned(), vec![]),
        ]
    );
}

#[test]
fn pipeline_drops_a_trailing_ampersand() {
    assert_eq!(parsed("sleep 5 &"), vec![("sleep".to_owned(), vec!["5".to_owned()])]);
    assert_eq!(parsed("a & b"), vec![("a".to_owned(), vec!["&".to_owned(), "b".to_owned()])]);
}

use theseus::console_input::{csi_event, execute_event, print_event, EventBuffer};
use theseus::shell::{Event, KeyboardEvent};

#[test]
fn printable_characters_and_delete() {
    assert_eq!(print_event('a'), KeyboardEvent::Other('a'));
    assert_eq!(print_event('\u{7f}'), KeyboardEvent::Backspace);
}

#[test]
fn control_bytes() {
    assert_eq!(execute_event(0x3), Some(KeyboardEvent::CtrlC));
    assert_eq!(execute_event(0x4), Some(KeyboardEvent::CtrlD));
    assert_eq!(execute_event(0x9), Some(KeyboardEvent::Tab));
    assert_eq!(execute_event(0xd), Some(KeyboardEvent::Enter));
    assert_eq!(execute_event(0x1a), Some(KeyboardEvent::CtrlZ));
    assert_eq!(execute_event(0x7), None);
}

#[test]
fn csi_sequences() {
    assert_eq!(csi_event(0, 'A'), Some(KeyboardEvent::Up));
    assert_eq!(csi_event(0, 'D'), Some(KeyboardEvent::Left));
    assert_eq!(csi_event(1, 'H'), Some(KeyboardEvent::Begin));
    assert_eq!(csi_event(3, '~'), Some(KeyboardEvent::Delete));
    assert_eq!(csi_event(6, '~'), Some(KeyboardEvent::PageDown));
    assert_eq!(csi_event(2, '~'), None);
    assert_eq!(csi_event(1, 'A'), None);
}

#[test]
fn buffer_hands_out_the_newest_event_first() {
    let mut b = EventBuffer::new();
    assert_eq!(b.pop(), None);
    b.print('x');
    b.execute(0x7);
    b.execute(0x3);
    b.csi_dispatch(0, 'B');
    assert_eq!(b.pop(), Some(Event::Keyboard(KeyboardEvent::Down)));
    assert_eq!(b.pop(), Some(Event::Keyboard(KeyboardEvent::CtrlC)));
    assert_eq!(b.pop(), Some(Event::Keyboard(KeyboardEvent::Other('x'))));
    assert_eq!(b.pop(), None);
}

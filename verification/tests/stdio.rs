use theseus::keycodes::{KeyAction, KeyEvent, KeyboardModifiers, Keycode};
use theseus::stdio::{KeyEventQueue, StreamError, StreamState};

#[test]
fn write_then_read_gives_the_bytes_back() {
    let mut s = StreamState::new();
    assert_eq!(s.write(b"hello"), Ok(5));
    let mut buf = [0u8; 8];
    assert_eq!(s.read(&mut buf), 5);
    assert_eq!(&buf[..5], b"hello");
    assert_eq!(&buf[5..], &[0, 0, 0]);
    let mut again = [9u8; 4];
    assert_eq!(s.read(&mut again), 0);
    assert_eq!(again, [9, 9, 9, 9]);
}

#[test]
fn read_that_fills_the_buffer_returns_its_length() {
    let mut s = StreamState::new();
    s.write(b"abcdef").unwrap();
    let mut buf = [0u8; 4];
    assert_eq!(s.read(&mut buf), 4);
    assert_eq!(&buf, b"abcd");
    let mut rest = [0u8; 4];
    assert_eq!(s.read(&mut rest), 2);
    assert_eq!(&rest[..2], b"ef");
}

#[test]
fn read_into_an_empty_buffer_takes_nothing() {
    let mut s = StreamState::new();
    s.write(b"xy").unwrap();
    let mut empty: [u8; 0] = [];
    assert_eq!(s.read(&mut empty), 0);
    let mut buf = [0u8; 3];
    assert_eq!(s.read(&mut buf), 2);
}

#[test]
fn eof_refuses_writes_and_reads_nothing() {
    let mut s = StreamState::new();
    s.write(b"kept").unwrap();
    s.set_eof();
    assert!(s.is_eof());
    assert_eq!(s.write(b"more"), Err(StreamError::UnexpectedEof));
    let mut buf = [0u8; 8];
    assert_eq!(s.read(&mut buf), 0);
    assert_eq!(buf, [0u8; 8]);
}

#[test]
fn ended_stream_starts_at_eof() {
    let mut s = StreamState::ended();
    assert!(s.is_eof());
    assert_eq!(s.write(b"a"), Err(StreamError::UnexpectedEof));
    assert!(!StreamState::new().is_eof());
}

fn key(k: Keycode) -> KeyEvent {
    KeyEvent::new(k, KeyAction::Pressed, KeyboardModifiers::new())
}

#[test]
fn key_events_come_out_in_order() {
    let mut q = KeyEventQueue::new();
    assert!(q.read_one().is_none());
    q.write(key(Keycode::A));
    q.write(key(Keycode::B));
    q.write(key(Keycode::C));
    assert_eq!(q.read_one().map(|e| e.keycode), Some(Keycode::A));
    let rest: Vec<Keycode> = q.read_all().into_iter().map(|e| e.keycode).collect();
    assert_eq!(rest, vec![Keycode::B, Keycode::C]);
    assert!(q.read_one().is_none());
    assert!(q.read_all().is_empty());
}

#[test]
fn read_filling_the_buffer_exactly_reports_the_count() {
    let mut s = StreamState::new();
    s.write(b"abc").unwrap();
    let mut buf = [0u8; 3];
    assert_eq!(s.read(&mut buf), 3);
    assert_eq!(&buf, b"abc");
}

//! Turning the output of a terminal escape-sequence parser (characters,
//! control bytes and CSI sequences) into shell keyboard events.
//!
//! The parser feeds the events into an [`EventBuffer`]; the console takes
//! them back out, the most recent first.

use vstd::prelude::*;
use crate::shell::{Event, KeyboardEvent};

verus! {

/// The event for a printable character: DEL (0x7f) is Backspace.
pub open spec fn print_event_spec(c: char) -> KeyboardEvent {
    if c == '\u{7f}' {
        KeyboardEvent::Backspace
    } else {
        KeyboardEvent::Other(c)
    }
}

/// The event for a control byte, if the shell has one.
pub open spec fn execute_event_spec(byte: u8) -> Option<KeyboardEvent> {
    if byte == 0x3 {
        Some(KeyboardEvent::CtrlC)
    } else if byte == 0x4 {
        Some(KeyboardEvent::CtrlD)
    } else if byte == 0x9 {
        Some(KeyboardEvent::Tab)
    } else if byte == 0xd {
        Some(KeyboardEvent::Enter)
    } else if byte == 0x1a {
        Some(KeyboardEvent::CtrlZ)
    } else {
        None
    }
}

/// The event for a CSI sequence with first parameter `param` (0 when it has
/// none) and final character `action`, if the shell has one.
pub open spec fn csi_event_spec(param: u16, action: char) -> Option<KeyboardEvent> {
    if param == 0 && action == 'A' {
        Some(KeyboardEvent::Up)
    } else if param == 0 && action == 'B' {
        Some(KeyboardEvent::Down)
    } else if param == 0 && action == 'C' {
        Some(KeyboardEvent::Right)
    } else if param == 0 && action == 'D' {
        Some(KeyboardEvent::Left)
    } else if param == 1 && action == 'H' {
        Some(KeyboardEvent::Begin)
    } else if param == 1 && action == 'F' {
        Some(KeyboardEvent::End)
    } else if param == 1 && action == '~' {
        Some(KeyboardEvent::Leftmost)
    } else if param == 3 && action == '~' {
        Some(KeyboardEvent::Delete)
    } else if param == 4 && action == '~' {
        Some(KeyboardEvent::Rightmost)
    } else if param == 5 && action == '~' {
        Some(KeyboardEvent::PageUp)
    } else if param == 6 && action == '~' {
        Some(KeyboardEvent::PageDown)
    } else {
        None
    }
}

/// The final characters of the ECMA-48 cursor-movement sequences that the
/// arrow keys send: cursor up, down, forward (right) and backward (left).
pub const CURSOR_UP: char = 'A';
pub const CURSOR_DOWN: char = 'B';
pub const CURSOR_FORWARD: char = 'C';
pub const CURSOR_BACKWARD: char = 'D';
/// The final characters of the xterm Home and End sequences, which carry
/// the modifier code 1 first when Ctrl is held.
pub const XTERM_HOME: char = 'H';
pub const XTERM_END: char = 'F';
/// The final character of the VT220 editing-key sequences `ESC [ n ~`, and
/// the key numbers `n` of Home, Delete, End, Page Up and Page Down.
pub const VT_KEY: char = '~';
pub const VT_HOME: u16 = 1;
pub const VT_DELETE: u16 = 3;
pub const VT_END: u16 = 4;
pub const VT_PAGE_UP: u16 = 5;
pub const VT_PAGE_DOWN: u16 = 6;

/// The arrow keys' sequences decode to the arrows they move the cursor by:
/// `ESC [ A` to Up, `ESC [ B` to Down, `ESC [ C` (cursor forward) to Right
/// and `ESC [ D` (cursor backward) to Left, and no other sequence decodes to
/// an arrow.
pub proof fn lemma_arrow_sequences(param: u16, action: char)
    ensures
        csi_event_spec(param, action) == Some(KeyboardEvent::Up) <==> (param == 0 && action == CURSOR_UP),
        csi_event_spec(param, action) == Some(KeyboardEvent::Down) <==> (param == 0 && action
            == CURSOR_DOWN),
        csi_event_spec(param, action) == Some(KeyboardEvent::Right) <==> (param == 0 && action
            == CURSOR_FORWARD),
        csi_event_spec(param, action) == Some(KeyboardEvent::Left) <==> (param == 0 && action
            == CURSOR_BACKWARD),
{
}

/// Only the arrow and editing keys' sequences give an event: a sequence
/// with another final character or another first parameter gives none.
pub proof fn lemma_other_sequences_give_nothing(param: u16, action: char)
    ensures
        csi_event_spec(param, action) is Some <==> ((param == 0 && (action == CURSOR_UP || action == CURSOR_DOWN
            || action == CURSOR_FORWARD || action == CURSOR_BACKWARD)) || (param == 1 && (action == XTERM_HOME
            || action == XTERM_END)) || (action == VT_KEY && (param == VT_HOME || param == VT_DELETE || param
            == VT_END || param == VT_PAGE_UP || param == VT_PAGE_DOWN))),
{
}

/// The editing keys' sequences decode to the keys that send them: Ctrl+Home
/// and Ctrl+End to the start and end of the screen, the VT220 Home and End
/// to the start and end of the line, Delete, Page Up and Page Down to
/// themselves; no other sequence decodes to these events.
pub proof fn lemma_editing_key_sequences(param: u16, action: char)
    ensures
        csi_event_spec(param, action) == Some(KeyboardEvent::Begin) <==> (param == 1 && action
            == XTERM_HOME),
        csi_event_spec(param, action) == Some(KeyboardEvent::End) <==> (param == 1 && action
            == XTERM_END),
        csi_event_spec(param, action) == Some(KeyboardEvent::Leftmost) <==> (param == VT_HOME
            && action == VT_KEY),
        csi_event_spec(param, action) == Some(KeyboardEvent::Rightmost) <==> (param == VT_END
            && action == VT_KEY),
        csi_event_spec(param, action) == Some(KeyboardEvent::Delete) <==> (param == VT_DELETE
            && action == VT_KEY),
        csi_event_spec(param, action) == Some(KeyboardEvent::PageUp) <==> (param == VT_PAGE_UP
            && action == VT_KEY),
        csi_event_spec(param, action) == Some(KeyboardEvent::PageDown) <==> (param == VT_PAGE_DOWN
            && action == VT_KEY),
{
}

/// The byte a terminal sends for Ctrl held with the letter `c`: the
/// letter's code with bit 6 cleared.
pub open spec fn control_byte(c: char) -> u8 {
    ((c as u8) - 0x40) as u8
}

/// The control bytes decode to the keys that send them: Ctrl+C, Ctrl+D and
/// Ctrl+Z to themselves, Ctrl+I (horizontal tab) to Tab and Ctrl+M
/// (carriage return) to Enter; no other control byte gives an event.
pub proof fn lemma_control_bytes(byte: u8)
    ensures
        execute_event_spec(byte) == Some(KeyboardEvent::CtrlC) <==> byte == control_byte('C'),
        execute_event_spec(byte) == Some(KeyboardEvent::CtrlD) <==> byte == control_byte('D'),
        execute_event_spec(byte) == Some(KeyboardEvent::CtrlZ) <==> byte == control_byte('Z'),
        execute_event_spec(byte) == Some(KeyboardEvent::Tab) <==> byte == control_byte('I'),
        execute_event_spec(byte) == Some(KeyboardEvent::Enter) <==> byte == control_byte('M'),
        execute_event_spec(byte) is Some <==> (byte == control_byte('C') || byte == control_byte('D')
            || byte == control_byte('Z') || byte == control_byte('I') || byte == control_byte('M')),
{
}

/// A printed character is typed as itself, except DEL, which the terminal
/// sends for Backspace.
pub proof fn lemma_printed_characters(c: char)
    ensures
        print_event_spec(c) == KeyboardEvent::Backspace <==> c == '\u{7f}',
        c != '\u{7f}' ==> print_event_spec(c) == KeyboardEvent::Other(c),
{
}

/// The event for a printable character.
pub fn print_event(c: char) -> (r: KeyboardEvent)
    ensures
        r == print_event_spec(c),
{
    match c {
        '\u{7f}' => KeyboardEvent::Backspace,
        _ => KeyboardEvent::Other(c),
    }
}

/// The event for a control byte, if any.
pub fn execute_event(byte: u8) -> (r: Option<KeyboardEvent>)
    ensures
        r == execute_event_spec(byte),
{
    match byte {
        0x3 => Some(KeyboardEvent::CtrlC),
        0x4 => Some(KeyboardEvent::CtrlD),
        0x9 => Some(KeyboardEvent::Tab),
        0xd => Some(KeyboardEvent::Enter),
        0x1a => Some(KeyboardEvent::CtrlZ),
        _ => None,
    }
}

/// The event for a CSI sequence, if any.
pub fn csi_event(first_param: u16, action: char) -> (r: Option<KeyboardEvent>)
    ensures
        r == csi_event_spec(first_param, action),
{
    match (first_param, action) {
        (0x0, 'A') => Some(KeyboardEvent::Up),
        (0x0, 'B') => Some(KeyboardEvent::Down),
        (0x0, 'C') => Some(KeyboardEvent::Right),
        (0x0, 'D') => Some(KeyboardEvent::Left),
        (0x1, 'H') => Some(KeyboardEvent::Begin),
        (0x1, 'F') => Some(KeyboardEvent::End),
        (0x1, '~') => Some(KeyboardEvent::Leftmost),
        (0x3, '~') => Some(KeyboardEvent::Delete),
        (0x4, '~') => Some(KeyboardEvent::Rightmost),
        (0x5, '~') => Some(KeyboardEvent::PageUp),
        (0x6, '~') => Some(KeyboardEvent::PageDown),
        _ => None,
    }
}

/// The events decoded but not yet handed to the shell.
pub struct EventBuffer {
    events: Vec<Event>,
}

impl EventBuffer {
    /// The buffered events, oldest first.
    pub closed spec fn spec_events(&self) -> Seq<Event> {
        self.events@
    }

    /// An empty buffer.
    pub fn new() -> (r: EventBuffer)
        ensures
            r.spec_events() == Seq::<Event>::empty(),
    {
        EventBuffer { events: Vec::new() }
    }

    /// Buffers the event for a printable character.
    pub fn print(&mut self, c: char)
        ensures
            final(self).spec_events() == old(self).spec_events().push(
                Event::Keyboard(print_event_spec(c)),
            ),
    {
        self.events.push(Event::Keyboard(print_event(c)));
    }

    /// Buffers the event for a control byte, if it has one.
    pub fn execute(&mut self, byte: u8)
        ensures
            final(self).spec_events() == match execute_event_spec(byte) {
                Some(e) => old(self).spec_events().push(Event::Keyboard(e)),
                None => old(self).spec_events(),
            },
    {
        if let Some(e) = execute_event(byte) {
            self.events.push(Event::Keyboard(e));
        }
    }

    /// Buffers the event for a CSI sequence, if it has one.
    pub fn csi_dispatch(&mut self, first_param: u16, action: char)
        ensures
            final(self).spec_events() == match csi_event_spec(first_param, action) {
                Some(e) => old(self).spec_events().push(Event::Keyboard(e)),
                None => old(self).spec_events(),
            },
    {
        if let Some(e) = csi_event(first_param, action) {
            self.events.push(Event::Keyboard(e));
        }
    }

    /// Takes the most recently buffered event, if any.
    pub fn pop(&mut self) -> (r: Option<Event>)
        ensures
            old(self).spec_events().len() == 0 ==> r is None && final(self).spec_events()
                == old(self).spec_events(),
            old(self).spec_events().len() > 0 ==> r == Some(old(self).spec_events().last())
                && final(self).spec_events() == old(self).spec_events().drop_last(),
    {
        self.events.pop()
    }
}

} // verus!

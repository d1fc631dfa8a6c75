//! The job-control shell that runs as an application: its events, errors,
//! the decision it takes on each key event, and the parsing of a command
//! line into a pipeline of commands.

use vstd::prelude::*;
use crate::keycodes::{KeyAction, KeyEvent, Keycode, KeyboardModifiers, CONTROL_LEFT, CONTROL_RIGHT, SHIFT_LEFT, SHIFT_RIGHT, any_of};
use crate::words::{split_whitespace, words};

verus! {

/// What the shell asks its front end to do.
#[derive(Clone, Debug)]
pub enum Event {
    CtrlC { clear: bool },
    Complete(String),
    Backspace,
    Delete,
    Newline,
    Print(String),
    ScreenBegin,
    ScreenEnd,
    PageUp,
    PageDown,
    LineUp,
    LineDown,
    CursorLeftmost,
    CursorRightmost,
    CursorLeft,
    CursorRight,
}

/// Why running a command failed.
#[derive(Debug)]
pub enum Error {
    NamespaceNotFound,
    AppNotFound(String),
    MultipleAppsFound,
    Io,
    SpawnFailed(&'static str),
}

/// The cursor of a back end.
pub struct Cursor;

/// The size of a terminal area.
pub struct Rectangle;

/// The terminal that the shell draws on.
pub trait Backend {
    fn insert_char(&mut self, c: char, offset_from_end: usize);

    fn remove_char(&mut self, offset_from_end: usize);

    fn print_to_terminal(&mut self, string: &str);

    fn cursor(&mut self) -> &mut Cursor;

    fn resize(&mut self, size: Rectangle);

    fn to_begin(&mut self);

    fn to_end(&mut self);

    fn line_up(&mut self);

    fn line_down(&mut self);

    fn page_up(&mut self);

    fn page_down(&mut self);

    fn refresh(&mut self);
}

/// What the shell does about a key event.
#[derive(Clone, Debug)]
pub enum KeyOutcome {
    /// Nothing.
    Ignore,
    /// Hand the event to the front end.
    Enqueue(Event),
    /// Kill the tasks of the foreground job that have not exited, then hand
    /// `Event::CtrlC { clear: false }` to the front end.
    KillForeground(usize),
    /// Block the tasks of the foreground job that have not exited.
    StopForeground(usize),
    /// Set the end-of-file mark of the foreground job's input.
    SetForegroundEof(usize),
}

/// Whether the shell has an answer for `event`: key releases are ignored,
/// and completion, Enter, history browsing and unbound keys are not
/// written yet.
pub open spec fn key_handled(event: KeyEvent) -> bool {
    let control = any_of(event.modifiers.spec_bits(), CONTROL_LEFT | CONTROL_RIGHT);
    let shift = any_of(event.modifiers.spec_bits(), SHIFT_LEFT | SHIFT_RIGHT);
    event.action != KeyAction::Pressed || match event.keycode {
        Keycode::C | Keycode::Z | Keycode::D => control,
        Keycode::Home | Keycode::End | Keycode::Backspace | Keycode::Delete | Keycode::Left
        | Keycode::Right => true,
        Keycode::PageUp | Keycode::PageDown => shift,
        Keycode::Up | Keycode::Down => control && shift,
        _ => false,
    }
}

/// The answer to `event` when the foreground job is `foreground_job` and
/// `job_found` tells whether that job still exists.
pub open spec fn key_outcome(
    event: KeyEvent,
    foreground_job: Option<usize>,
    job_found: bool,
) -> KeyOutcome {
    let control = any_of(event.modifiers.spec_bits(), CONTROL_LEFT | CONTROL_RIGHT);
    let shift = any_of(event.modifiers.spec_bits(), SHIFT_LEFT | SHIFT_RIGHT);
    if event.action != KeyAction::Pressed {
        KeyOutcome::Ignore
    } else {
        match event.keycode {
            Keycode::C => match foreground_job {
                Some(j) if job_found => KeyOutcome::KillForeground(j),
                _ => KeyOutcome::Enqueue(Event::CtrlC { clear: true }),
            },
            Keycode::Z => match foreground_job {
                Some(j) if job_found => KeyOutcome::StopForeground(j),
                _ => KeyOutcome::Ignore,
            },
            Keycode::D => match foreground_job {
                Some(j) if job_found => KeyOutcome::SetForegroundEof(j),
                _ => KeyOutcome::Ignore,
            },
            Keycode::Home => KeyOutcome::Enqueue(
                if control {
                    Event::ScreenBegin
                } else {
                    Event::CursorLeftmost
                },
            ),
            Keycode::End => KeyOutcome::Enqueue(
                if control {
                    Event::ScreenEnd
                } else {
                    Event::CursorRightmost
                },
            ),
            Keycode::PageUp => KeyOutcome::Enqueue(Event::PageUp),
            Keycode::PageDown => KeyOutcome::Enqueue(Event::PageDown),
            Keycode::Up => KeyOutcome::Enqueue(Event::LineUp),
            Keycode::Down => KeyOutcome::Enqueue(Event::LineDown),
            Keycode::Backspace => KeyOutcome::Enqueue(Event::Backspace),
            Keycode::Delete => KeyOutcome::Enqueue(Event::Delete),
            Keycode::Left => KeyOutcome::Enqueue(Event::CursorLeft),
            Keycode::Right => KeyOutcome::Enqueue(Event::CursorRight),
            _ => KeyOutcome::Ignore,
        }
    }
}

/// Decides what the shell does about `key_event`, when the foreground job
/// is `foreground_job` and `job_found` tells whether that job still exists.
pub fn handle_key_event(key_event: KeyEvent, foreground_job: Option<usize>, job_found: bool) -> (r:
    KeyOutcome)
    requires
        key_handled(key_event),
    ensures
        r == key_outcome(key_event, foreground_job, job_found),
{
    if key_event.action != KeyAction::Pressed {
        return KeyOutcome::Ignore;
    }
    let control = key_event.modifiers.is_control();
    let shift = key_event.modifiers.is_shift();
    match key_event.keycode {
        Keycode::C => match foreground_job {
            Some(j) => if job_found {
                KeyOutcome::KillForeground(j)
            } else {
                KeyOutcome::Enqueue(Event::CtrlC { clear: true })
            },
            None => KeyOutcome::Enqueue(Event::CtrlC { clear: true }),
        },
        Keycode::Z => match foreground_job {
            Some(j) => if job_found {
                KeyOutcome::StopForeground(j)
            } else {
                KeyOutcome::Ignore
            },
            None => KeyOutcome::Ignore,
        },
        Keycode::D => match foreground_job {
            Some(j) => if job_found {
                KeyOutcome::SetForegroundEof(j)
            } else {
                KeyOutcome::Ignore
            },
            None => KeyOutcome::Ignore,
        },
        Keycode::Home => if control {
            KeyOutcome::Enqueue(Event::ScreenBegin)
        } else {
            KeyOutcome::Enqueue(Event::CursorLeftmost)
        },
        Keycode::End => if control {
            KeyOutcome::Enqueue(Event::ScreenEnd)
        } else {
            KeyOutcome::Enqueue(Event::CursorRightmost)
        },
        Keycode::PageUp => KeyOutcome::Enqueue(Event::PageUp),
        Keycode::PageDown => KeyOutcome::Enqueue(Event::PageDown),
        Keycode::Up => KeyOutcome::Enqueue(Event::LineUp),
        Keycode::Down => KeyOutcome::Enqueue(Event::LineDown),
        Keycode::Backspace => KeyOutcome::Enqueue(Event::Backspace),
        Keycode::Delete => KeyOutcome::Enqueue(Event::Delete),
        Keycode::Left => KeyOutcome::Enqueue(Event::CursorLeft),
        Keycode::Right => KeyOutcome::Enqueue(Event::CursorRight),
        _ => KeyOutcome::Ignore,
    }
}

/// The way a navigation key or event moves the view or the cursor.
pub enum Direction {
    Up,
    Down,
    Left,
    Right,
}

/// How far a navigation key or event moves: a page, a line, a character,
/// or all the way.
pub enum Reach {
    Page,
    Line,
    Char,
    All,
}

/// The move a pressed navigation key asks for, with Ctrl held or not:
/// Page Up/Down by a page, the arrows Up/Down by a line and Left/Right by a
/// character, Home and End all the way left and right, or, with Ctrl, all
/// the way up and down.
pub open spec fn key_motion(k: Keycode, control: bool) -> Option<(Direction, Reach)> {
    match k {
        Keycode::PageUp => Some((Direction::Up, Reach::Page)),
        Keycode::PageDown => Some((Direction::Down, Reach::Page)),
        Keycode::Up => Some((Direction::Up, Reach::Line)),
        Keycode::Down => Some((Direction::Down, Reach::Line)),
        Keycode::Left => Some((Direction::Left, Reach::Char)),
        Keycode::Right => Some((Direction::Right, Reach::Char)),
        Keycode::Home => Some((if control { Direction::Up } else { Direction::Left }, Reach::All)),
        Keycode::End => Some((if control { Direction::Down } else { Direction::Right }, Reach::All)),
        _ => None,
    }
}

/// The move a front-end event makes, if it is a move.
pub open spec fn event_motion(e: Event) -> Option<(Direction, Reach)> {
    match e {
        Event::PageUp => Some((Direction::Up, Reach::Page)),
        Event::PageDown => Some((Direction::Down, Reach::Page)),
        Event::LineUp => Some((Direction::Up, Reach::Line)),
        Event::LineDown => Some((Direction::Down, Reach::Line)),
        Event::CursorLeft => Some((Direction::Left, Reach::Char)),
        Event::CursorRight => Some((Direction::Right, Reach::Char)),
        Event::ScreenBegin => Some((Direction::Up, Reach::All)),
        Event::ScreenEnd => Some((Direction::Down, Reach::All)),
        Event::CursorLeftmost => Some((Direction::Left, Reach::All)),
        Event::CursorRightmost => Some((Direction::Right, Reach::All)),
        _ => None,
    }
}

/// A pressed navigation key is handed to the front end as the event that
/// moves the same way by the same reach (and no two moves share an event).
pub proof fn lemma_navigation_keys_keep_their_direction(
    event: KeyEvent,
    foreground_job: Option<usize>,
    job_found: bool,
)
    requires
        event.action == KeyAction::Pressed,
        key_motion(event.keycode, any_of(event.modifiers.spec_bits(), CONTROL_LEFT | CONTROL_RIGHT)) is Some,
    ensures
        key_outcome(event, foreground_job, job_found) matches KeyOutcome::Enqueue(e) && event_motion(e)
            == key_motion(event.keycode, any_of(event.modifiers.spec_bits(), CONTROL_LEFT | CONTROL_RIGHT)),
{
}

/// Ctrl+C, Ctrl+Z and Ctrl+D act on the foreground job when it still exists:
/// Ctrl+C kills it, Ctrl+Z stops it and Ctrl+D ends its input; without such
/// a job Ctrl+C only clears the line and the other two do nothing. Backspace
/// and Delete go to the front end as themselves, and a released key does
/// nothing.
pub proof fn lemma_job_control_keys(event: KeyEvent, foreground_job: Option<usize>, job_found: bool)
    ensures
        event.action != KeyAction::Pressed ==> key_outcome(event, foreground_job, job_found) is Ignore,
        event.action == KeyAction::Pressed && job_found && foreground_job is Some ==> {
            let j = foreground_job->0;
            &&& event.keycode == Keycode::C ==> key_outcome(event, foreground_job, job_found)
                == KeyOutcome::KillForeground(j)
            &&& event.keycode == Keycode::Z ==> key_outcome(event, foreground_job, job_found)
                == KeyOutcome::StopForeground(j)
            &&& event.keycode == Keycode::D ==> key_outcome(event, foreground_job, job_found)
                == KeyOutcome::SetForegroundEof(j)
        },
        event.action == KeyAction::Pressed && !(job_found && foreground_job is Some) ==> {
            &&& event.keycode == Keycode::C ==> key_outcome(event, foreground_job, job_found)
                == KeyOutcome::Enqueue(Event::CtrlC { clear: true })
            &&& event.keycode == Keycode::Z ==> key_outcome(event, foreground_job, job_found) is Ignore
            &&& event.keycode == Keycode::D ==> key_outcome(event, foreground_job, job_found) is Ignore
        },
        event.action == KeyAction::Pressed && event.keycode == Keycode::Backspace ==> key_outcome(
            event,
            foreground_job,
            job_found,
        ) == KeyOutcome::Enqueue(Event::Backspace),
        event.action == KeyAction::Pressed && event.keycode == Keycode::Delete ==> key_outcome(
            event,
            foreground_job,
            job_found,
        ) == KeyOutcome::Enqueue(Event::Delete),
{
}

/// The position of the first `sep` at or after `i` in `s`, or `s.len()`.
pub open spec fn next_sep(s: Seq<char>, sep: char, i: int) -> int
    decreases s.len() - i,
{
    if 0 <= i < s.len() && s[i] != sep {
        next_sep(s, sep, i + 1)
    } else {
        i
    }
}

/// The pieces of `s` from `i` on, cut at every `sep` (empty pieces kept), as
/// `str::split` gives them.
pub open spec fn pieces_from(s: Seq<char>, sep: char, i: int) -> Seq<Seq<char>>
    decreases s.len() - i,
{
    if i < 0 || i > s.len() {
        Seq::empty()
    } else {
        proof {
            lemma_next_sep_bounds(s, sep, i);
        }
        let e = next_sep(s, sep, i);
        if e >= s.len() {
            seq![s.subrange(i, s.len() as int)]
        } else {
            seq![s.subrange(i, e)] + pieces_from(s, sep, e + 1)
        }
    }
}

/// The pieces of `s` cut at every `sep`.
pub open spec fn pieces(s: Seq<char>, sep: char) -> Seq<Seq<char>> {
    pieces_from(s, sep, 0)
}

/// The separator search ends within the line, after a run without `sep`.
pub proof fn lemma_next_sep_bounds(s: Seq<char>, sep: char, i: int)
    requires
        0 <= i <= s.len(),
    ensures
        i <= next_sep(s, sep, i) <= s.len(),
        forall|k: int| i <= k < next_sep(s, sep, i) ==> #[trigger] s[k] != sep,
        next_sep(s, sep, i) < s.len() ==> s[next_sep(s, sep, i)] == sep,
    decreases s.len() - i,
{
    if i < s.len() && s[i] != sep {
        lemma_next_sep_bounds(s, sep, i + 1);
    }
}

/// One command of a pipeline: its name and its arguments.
pub struct PipelineCommand {
    pub command: Vec<char>,
    pub args: Vec<Vec<char>>,
}

/// The command and arguments that the words `w` of a pipeline piece give:
/// the first word is the command; a last argument `&` is dropped.
pub open spec fn piece_command(w: Seq<Seq<char>>) -> (Seq<char>, Seq<Seq<char>>) {
    let args = w.drop_first();
    if args.len() > 0 && args.last() == seq!['&'] {
        (w[0], args.drop_last())
    } else {
        (w[0], args)
    }
}

/// Whether every piece of the command line `cmd` holds a word.
pub open spec fn pipeline_well_formed(cmd: Seq<char>) -> bool {
    forall|i: int| 0 <= i < pieces(cmd, '|').len() ==> words(#[trigger] pieces(cmd, '|')[i]).len() > 0
}

/// The views of a parsed pipeline.
pub open spec fn pipeline_view(p: Seq<PipelineCommand>) -> Seq<(Seq<char>, Seq<Seq<char>>)> {
    p.map_values(
        |c: PipelineCommand| (c.command@, c.args@.map_values(|a: Vec<char>| a@)),
    )
}

/// Splits a command line into the commands of its pipeline: the pieces
/// between `|` signs, each split into words, the first word the command and
/// the rest its arguments, without a last argument `&`.
///
/// Every piece must hold a word.
pub fn parse_pipeline(cmd: &[char]) -> (r: Vec<PipelineCommand>)
    requires
        pipeline_well_formed(cmd@),
    ensures
        pipeline_view(r@) == pieces(cmd@, '|').map_values(|p: Seq<char>| piece_command(words(p))),
{
    let ghost all = pieces(cmd@, '|');
    let ghost target = all.map_values(|p: Seq<char>| piece_command(words(p)));
    let mut out: Vec<PipelineCommand> = Vec::new();
    let mut start: usize = 0;
    let ghost mut done: nat = 0;
    loop
        invariant
            start <= cmd@.len(),
            all == pieces(cmd@, '|'),
            target == all.map_values(|p: Seq<char>| piece_command(words(p))),
            pipeline_well_formed(cmd@),
            done + pieces_from(cmd@, '|', start as int).len() == all.len(),
            pieces_from(cmd@, '|', start as int) == all.skip(done as int),
            pipeline_view(out@) == target.take(done as int),
        decreases cmd@.len() - start,
    {
        proof {
            lemma_next_sep_bounds(cmd@, '|', start as int);
        }
        let mut e = start;
        while e < cmd.len() && cmd[e] != '|'
            invariant
                start <= e <= cmd@.len(),
                next_sep(cmd@, '|', start as int) == next_sep(cmd@, '|', e as int),
            decreases cmd@.len() - e,
        {
            e = e + 1;
        }
        let mut piece: Vec<char> = Vec::new();
        let mut k = start;
        while k < e
            invariant
                start <= k <= e <= cmd@.len(),
                piece@ == cmd@.subrange(start as int, k as int),
            decreases e - k,
        {
            piece.push(cmd[k]);
            k = k + 1;
            proof {
                assert(piece@ =~= cmd@.subrange(start as int, k as int));
            }
        }
        proof {
            assert(all.skip(done as int)[0] == piece@);
            assert(all[done as int] == piece@);
            assert(words(all[done as int]).len() > 0);
        }
        let mut w = split_whitespace(piece.as_slice());
        proof {
            assert(w@.len() == words(piece@).len());
        }
        let command = w.remove(0);
        let has_amp = w.len() > 0 && w[w.len() - 1].len() == 1 && w[w.len() - 1][0] == '&';
        let ghost ws = words(piece@);
        proof {
            assert(w@.map_values(|a: Vec<char>| a@) =~= ws.drop_first());
            if w@.len() > 0 {
                assert(w@[w@.len() - 1]@ == ws.drop_first().last());
                assert(has_amp <==> ws.drop_first().last() =~= seq!['&']);
            }
        }
        if has_amp {
            w.pop();
            proof {
                assert(w@.map_values(|a: Vec<char>| a@) =~= ws.drop_first().drop_last());
            }
        }
        let ghost prev = pipeline_view(out@);
        out.push(PipelineCommand { command, args: w });
        proof {
            done = done + 1;
            assert(pipeline_view(out@) =~= prev.push(piece_command(ws)));
            assert(target[done - 1] == piece_command(ws));
            assert(pipeline_view(out@) =~= target.take(done as int));
        }
        if e >= cmd.len() {
            proof {
                assert(pieces_from(cmd@, '|', start as int).len() == 1);
                assert(done == all.len());
                assert(target.take(done as int) =~= target);
            }
            return out;
        }
        proof {
            let rest = pieces_from(cmd@, '|', start as int);
            assert(e == next_sep(cmd@, '|', start as int));
            assert(rest == seq![cmd@.subrange(start as int, e as int)] + pieces_from(
                cmd@,
                '|',
                (e + 1) as int,
            ));
            assert(rest.drop_first() =~= pieces_from(cmd@, '|', (e + 1) as int));
            assert(all.skip(done as int) =~= all.skip(done - 1).drop_first());
        }
        start = e + 1;
    }
}

} // verus!

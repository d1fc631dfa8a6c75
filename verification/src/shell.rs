//! The line-editing shell.
//!
//! The shell keeps the line being typed, the command history and the number
//! of the job in the foreground. For each keyboard event it updates that
//! state and returns the actions to carry out, in order: on the terminal
//! front end (printing, moving the cursor) and on the jobs (killing,
//! stopping, resuming, feeding input). The front end, the jobs and their
//! tasks belong to the caller, which reports the cursor position and the
//! jobs that exist when it hands an event over.
//!
//! Cursor offsets count bytes of the line's UTF-8 encoding; the line can
//! only be edited where the cursor stands between two characters.

use vstd::prelude::*;
use crate::history::{History, Index};
use crate::words::{split_whitespace, parse_usize, words, parse_usize_spec};

verus! {

/// An event delivered to the shell.
#[derive(Clone, Copy, Debug, PartialEq, Eq, Structural)]
pub enum Event {
    Keyboard(KeyboardEvent),
    Exit,
}

/// A key (or key combination) that the shell reacts to.
#[derive(Clone, Copy, Debug, PartialEq, Eq, Structural)]
pub enum KeyboardEvent {
    /// Ctrl + C
    CtrlC,
    /// Ctrl + Z
    CtrlZ,
    /// Ctrl + D
    CtrlD,
    /// Ctrl + Home
    Begin,
    /// Ctrl + End
    End,
    /// Shift + PageUp
    PageUp,
    /// Shift + PageDown
    PageDown,
    /// Ctrl + Shift + Up
    LineUp,
    /// Ctrl + Shift + Down
    LineDown,
    /// Tab
    Tab,
    /// Backspace
    Backspace,
    /// Delete
    Delete,
    /// Enter
    Enter,
    /// Home
    Leftmost,
    /// End
    Rightmost,
    /// Up
    Up,
    /// Down
    Down,
    /// Left
    Left,
    /// Right
    Right,
    /// Any other character
    Other(char),
}

/// The size of a terminal area.
pub struct Rectangle;

/// The terminal that a shell draws on.
pub trait Frontend {
    type Cursor: Cursor;

    type Input: Input;

    /// Inserts a character at the cursor.
    fn push(&mut self, c: char);

    /// Removes a character at the cursor: the one in front of it if
    /// `in_front` (the delete key), else the one behind it (backspace).
    fn pop(&mut self, in_front: bool);

    /// Prints a string at the cursor.
    fn push_str(&mut self, string: &str);

    /// Clears the screen.
    fn clear(&mut self);

    fn cursor(&self) -> &Self::Cursor;

    fn cursor_mut(&mut self) -> &mut Self::Cursor;

    fn resize(&mut self, size: Rectangle);

    fn to_begin(&mut self);

    fn to_end(&mut self);

    fn line_up(&mut self);

    fn line_down(&mut self);

    fn page_up(&mut self);

    fn page_down(&mut self);

    fn refresh(&mut self);
}

/// A source of shell events.
pub trait Input {
    fn event(&mut self) -> Option<Event>;
}

/// The cursor of a front end.
pub trait Cursor {
    fn enable(&mut self);

    fn disable(&mut self);

    fn offset(&self) -> usize;

    fn left(&mut self);

    fn right(&mut self);

    fn leftmost(&mut self);

    fn rightmost(&mut self);
}

/// A fixed message the shell prints.
#[derive(Clone, Copy, Debug, PartialEq, Eq, Structural)]
pub enum Message {
    /// `^C` and a new line, after Ctrl + C.
    Interrupted,
    /// The answer of `jobs` when there are none.
    NoJobs,
    /// How to call `fg`.
    FgUsage,
    /// How to call `bg`.
    BgUsage,
}

impl Message {
    /// The text of the message.
    pub fn text(&self) -> (r: &'static str)
        ensures
            r@ == message_text(*self),
    {
        match self {
            Message::Interrupted => {
                proof {
                    reveal_strlit("^C\n");
                }
                "^C\n"
            },
            Message::NoJobs => {
                proof {
                    reveal_strlit("No running or stopped jobs.\n");
                }
                "No running or stopped jobs.\n"
            },
            Message::FgUsage => {
                proof {
                    reveal_strlit("Usage: fg %job_num\n");
                }
                "Usage: fg %job_num\n"
            },
            Message::BgUsage => {
                proof {
                    reveal_strlit("Usage: bg %job_num\n");
                }
                "Usage: bg %job_num\n"
            },
        }
    }
}

/// The text of message `m`.
pub open spec fn message_text(m: Message) -> Seq<char> {
    match m {
        Message::Interrupted => seq!['^', 'C', '\n'],
        Message::NoJobs => seq![
            'N', 'o', ' ', 'r', 'u', 'n', 'n', 'i', 'n', 'g', ' ', 'o', 'r', ' ', 's', 't', 'o', 'p',
            'p', 'e', 'd', ' ', 'j', 'o', 'b', 's', '.', '\n'
        ],
        Message::FgUsage => seq![
            'U', 's', 'a', 'g', 'e', ':', ' ', 'f', 'g', ' ', '%', 'j', 'o', 'b', '_', 'n', 'u', 'm', '\n'
        ],
        Message::BgUsage => seq![
            'U', 's', 'a', 'g', 'e', ':', ' ', 'b', 'g', ' ', '%', 'j', 'o', 'b', '_', 'n', 'u', 'm', '\n'
        ],
    }
}

/// What the shell knows of a job.
#[derive(Clone, Debug)]
pub struct JobSummary {
    /// The job's number.
    pub num: usize,
    /// Whether the job runs (else it is stopped).
    pub running: bool,
    /// The command line that started it.
    pub cmd: Vec<char>,
}

/// One thing for the caller to do.
#[derive(Clone, Debug)]
pub enum ShellAction {
    /// Insert the character at the cursor.
    Push(char),
    /// Remove a character at the cursor (in front of it if `true`).
    Pop(bool),
    /// Print the text at the cursor.
    PushText(Vec<char>),
    /// Print the message at the cursor.
    PushMessage(Message),
    /// Clear the screen.
    Clear,
    ToBegin,
    ToEnd,
    PageUp,
    PageDown,
    LineUp,
    LineDown,
    CursorLeft,
    CursorRight,
    CursorLeftmost,
    CursorRightmost,
    /// Print the prompt (the working directory), then the line.
    DisplayPrompt(Vec<char>),
    /// Kill the tasks of the job that have not exited.
    KillJob(usize),
    /// Block the tasks of the job that have not exited.
    StopJob(usize),
    /// Set the end-of-file mark of the job's input.
    SetJobEof(usize),
    /// Write the text to the job's input.
    WriteToJob(usize, Vec<char>),
    /// Unblock the tasks of the job that have not exited and mark it running.
    ResumeJob(usize),
    /// Print the line `[num] [running|stopped] cmd`.
    PrintJob { num: usize, running: bool, cmd: Vec<char> },
    /// Print that no job has the number.
    PrintNoSuchJob(usize),
}

/// A [`ShellAction`] with its text as a sequence.
pub enum ActionModel {
    Push(char),
    Pop(bool),
    PushText(Seq<char>),
    PushMessage(Message),
    Clear,
    ToBegin,
    ToEnd,
    PageUp,
    PageDown,
    LineUp,
    LineDown,
    CursorLeft,
    CursorRight,
    CursorLeftmost,
    CursorRightmost,
    DisplayPrompt(Seq<char>),
    KillJob(usize),
    StopJob(usize),
    SetJobEof(usize),
    WriteToJob(usize, Seq<char>),
    ResumeJob(usize),
    PrintJob { num: usize, running: bool, cmd: Seq<char> },
    PrintNoSuchJob(usize),
}

impl View for ShellAction {
    type V = ActionModel;

    open spec fn view(&self) -> ActionModel {
        match self {
            ShellAction::Push(c) => ActionModel::Push(*c),
            ShellAction::Pop(b) => ActionModel::Pop(*b),
            ShellAction::PushText(t) => ActionModel::PushText(t@),
            ShellAction::PushMessage(m) => ActionModel::PushMessage(*m),
            ShellAction::Clear => ActionModel::Clear,
            ShellAction::ToBegin => ActionModel::ToBegin,
            ShellAction::ToEnd => ActionModel::ToEnd,
            ShellAction::PageUp => ActionModel::PageUp,
            ShellAction::PageDown => ActionModel::PageDown,
            ShellAction::LineUp => ActionModel::LineUp,
            ShellAction::LineDown => ActionModel::LineDown,
            ShellAction::CursorLeft => ActionModel::CursorLeft,
            ShellAction::CursorRight => ActionModel::CursorRight,
            ShellAction::CursorLeftmost => ActionModel::CursorLeftmost,
            ShellAction::CursorRightmost => ActionModel::CursorRightmost,
            ShellAction::DisplayPrompt(t) => ActionModel::DisplayPrompt(t@),
            ShellAction::KillJob(n) => ActionModel::KillJob(*n),
            ShellAction::StopJob(n) => ActionModel::StopJob(*n),
            ShellAction::SetJobEof(n) => ActionModel::SetJobEof(*n),
            ShellAction::WriteToJob(n, t) => ActionModel::WriteToJob(*n, t@),
            ShellAction::ResumeJob(n) => ActionModel::ResumeJob(*n),
            ShellAction::PrintJob { num, running, cmd } => ActionModel::PrintJob {
                num: *num,
                running: *running,
                cmd: cmd@,
            },
            ShellAction::PrintNoSuchJob(n) => ActionModel::PrintNoSuchJob(*n),
        }
    }
}

/// The views of a list of actions.
pub open spec fn actions_view(v: Seq<ShellAction>) -> Seq<ActionModel> {
    v.map_values(|a: ShellAction| a@)
}

/// The number of bytes of the UTF-8 encoding of `c`.
pub open spec fn utf8_len(c: char) -> nat {
    let v = c as u32;
    if v < 0x80 {
        1
    } else if v < 0x800 {
        2
    } else if v < 0x10000 {
        3
    } else {
        4
    }
}

/// The number of bytes of the UTF-8 encoding of `s`.
pub open spec fn text_utf8_len(s: Seq<char>) -> nat
    decreases s.len(),
{
    if s.len() == 0 {
        0
    } else {
        text_utf8_len(s.drop_last()) + utf8_len(s.last())
    }
}

/// The index of the character that starts at byte `offset` of the UTF-8
/// encoding of `s` (the length of `s` when `offset` is the encoding's
/// length), or `None` when no character starts there.
pub open spec fn byte_boundary(s: Seq<char>, offset: int) -> Option<int> {
    if exists|k: int| 0 <= k <= s.len() && #[trigger] text_utf8_len(s.take(k)) == offset {
        Some(choose|k: int| 0 <= k <= s.len() && #[trigger] text_utf8_len(s.take(k)) == offset)
    } else {
        None
    }
}

/// One more character adds its width to the encoding's length.
pub proof fn lemma_text_utf8_len_step(s: Seq<char>, k: int)
    requires
        0 <= k < s.len(),
    ensures
        text_utf8_len(s.take(k + 1)) == text_utf8_len(s.take(k)) + utf8_len(s[k]),
{
    assert(s.take(k + 1).drop_last() =~= s.take(k));
}

/// The encodings of longer prefixes are longer.
pub proof fn lemma_text_utf8_len_increasing(s: Seq<char>, j: int, k: int)
    requires
        0 <= j < k <= s.len(),
    ensures
        text_utf8_len(s.take(j)) < text_utf8_len(s.take(k)),
    decreases k - j,
{
    lemma_text_utf8_len_step(s, k - 1);
    if j < k - 1 {
        lemma_text_utf8_len_increasing(s, j, k - 1);
    }
}

/// A character boundary at `offset` is the one prefix whose encoding is
/// `offset` bytes long.
pub proof fn lemma_byte_boundary_at(s: Seq<char>, k: int)
    requires
        0 <= k <= s.len(),
    ensures
        byte_boundary(s, text_utf8_len(s.take(k)) as int) == Some(k),
{
    let offset = text_utf8_len(s.take(k)) as int;
    assert(exists|j: int| 0 <= j <= s.len() && #[trigger] text_utf8_len(s.take(j)) == offset);
    let c = choose|j: int| 0 <= j <= s.len() && #[trigger] text_utf8_len(s.take(j)) == offset;
    if c < k {
        lemma_text_utf8_len_increasing(s, c, k);
    } else if c > k {
        lemma_text_utf8_len_increasing(s, k, c);
    }
}

/// `n` backspace removals.
pub open spec fn pops(n: nat) -> Seq<ActionModel> {
    Seq::new(n, |i: int| ActionModel::Pop(false))
}

/// Erasing the line `input` on the front end: the cursor goes to its end,
/// then one removal per byte of the line.
pub open spec fn clear_input_actions(input: Seq<char>) -> Seq<ActionModel> {
    seq![ActionModel::CursorRightmost] + pops(text_utf8_len(input))
}

/// Replacing the line `input` by `s` on the front end.
pub open spec fn set_input_actions(input: Seq<char>, s: Seq<char>) -> Seq<ActionModel> {
    (if input.len() > 0 {
        clear_input_actions(input)
    } else {
        Seq::empty()
    }) + seq![ActionModel::PushText(s), ActionModel::CursorLeftmost]
}

/// The internal commands of the shell.
#[derive(Clone, Copy, Debug, PartialEq, Eq, Structural)]
pub enum InternalCommand {
    Jobs,
    Fg,
    Bg,
    Clear,
}

/// The internal command that the line `input` starts with, if any.
pub open spec fn internal_command(input: Seq<char>) -> Option<InternalCommand> {
    let w = words(input);
    if w.len() == 0 {
        None
    } else if w[0] == seq!['j', 'o', 'b', 's'] {
        Some(InternalCommand::Jobs)
    } else if w[0] == seq!['f', 'g'] {
        Some(InternalCommand::Fg)
    } else if w[0] == seq!['b', 'g'] {
        Some(InternalCommand::Bg)
    } else if w[0] == seq!['c', 'l', 'e', 'a', 'r'] {
        Some(InternalCommand::Clear)
    } else {
        None
    }
}

/// The job number that `fg` or `bg` names on the line `input`: the line
/// must have exactly two words, the second `%` followed by a number.
pub open spec fn job_argument(input: Seq<char>) -> Option<usize> {
    let w = words(input);
    if w.len() == 2 && w[1].len() > 0 && w[1][0] == '%' {
        parse_usize_spec(w[1].drop_first())
    } else {
        None
    }
}

/// Whether a job numbered `num` is among `jobs`.
pub open spec fn job_exists(jobs: Seq<JobSummary>, num: usize) -> bool {
    exists|i: int| 0 <= i < jobs.len() && (#[trigger] jobs[i]).num == num
}

/// The lines the `jobs` command prints.
pub open spec fn job_lines(jobs: Seq<JobSummary>) -> Seq<ActionModel> {
    if jobs.len() == 0 {
        seq![ActionModel::PushMessage(Message::NoJobs)]
    } else {
        jobs.map_values(
            |j: JobSummary| ActionModel::PrintJob { num: j.num, running: j.running, cmd: j.cmd@ },
        )
    }
}

/// The state of the shell, as sequences.
pub struct ShellModel {
    pub input: Seq<char>,
    pub foreground_job: Option<usize>,
    pub commands: Seq<Seq<char>>,
    pub index: Index,
}

/// The state after an internal command was run, and its actions (the line
/// still holds the command; `handle_enter` clears it afterwards).
pub open spec fn internal_outcome(
    m: ShellModel,
    cmd: InternalCommand,
    jobs: Seq<JobSummary>,
) -> (ShellModel, Seq<ActionModel>) {
    match cmd {
        InternalCommand::Jobs => (
            ShellModel { input: Seq::empty(), ..m },
            job_lines(jobs) + clear_input_actions(m.input) + seq![
                ActionModel::DisplayPrompt(Seq::empty()),
            ],
        ),
        InternalCommand::Fg => match job_argument(m.input) {
            None => (m, seq![ActionModel::PushMessage(Message::FgUsage)]),
            Some(n) => if job_exists(jobs, n) {
                (ShellModel { foreground_job: Some(n), ..m }, seq![ActionModel::ResumeJob(n)])
            } else {
                (m, seq![ActionModel::PrintNoSuchJob(n)])
            },
        },
        InternalCommand::Bg => match job_argument(m.input) {
            None => (m, seq![ActionModel::PushMessage(Message::BgUsage)]),
            Some(n) => if job_exists(jobs, n) {
                (
                    ShellModel { foreground_job: Some(n), input: Seq::empty(), ..m },
                    seq![ActionModel::ResumeJob(n)] + clear_input_actions(m.input) + seq![
                        ActionModel::DisplayPrompt(Seq::empty()),
                    ],
                )
            } else {
                (m, seq![ActionModel::PrintNoSuchJob(n)])
            },
        },
        InternalCommand::Clear => (
            m,
            seq![ActionModel::Clear, ActionModel::DisplayPrompt(m.input)],
        ),
    }
}

/// Whether Enter on state `m` reaches an unwritten part of the shell:
/// starting a job for a command that is not internal.
pub open spec fn enter_unsupported(m: ShellModel) -> bool {
    m.foreground_job is None && m.input.len() > 0 && internal_command(m.input) is None
}

/// The state and actions after Enter.
pub open spec fn enter_outcome(m: ShellModel, jobs: Seq<JobSummary>) -> (ShellModel, Seq<ActionModel>) {
    match m.foreground_job {
        Some(j) => if job_exists(jobs, j) {
            (
                ShellModel { input: Seq::empty(), ..m },
                seq![ActionModel::Push('\n'), ActionModel::WriteToJob(j, m.input.push('\n'))],
            )
        } else {
            (m, Seq::empty())
        },
        None => if m.input.len() == 0 {
            (m, seq![ActionModel::Push('\n'), ActionModel::DisplayPrompt(Seq::empty())])
        } else {
            let pushed = ShellModel {
                commands: crate::history::dedup_seq(m.commands).push(m.input),
                index: Index::Current,
                ..m
            };
            let (after, acts) = internal_outcome(pushed, internal_command(m.input)->0, jobs);
            (
                ShellModel { input: Seq::empty(), ..after },
                seq![ActionModel::Push('\n')] + acts + clear_input_actions(after.input),
            )
        },
    }
}

/// The state and actions after keyboard event `event`, with the cursor at
/// `offset` and `jobs` existing.
pub open spec fn key_outcome(
    m: ShellModel,
    event: KeyboardEvent,
    offset: usize,
    jobs: Seq<JobSummary>,
) -> (ShellModel, Seq<ActionModel>) {
    match event {
        KeyboardEvent::CtrlC => match m.foreground_job {
            Some(j) if job_exists(jobs, j) => (
                m,
                seq![ActionModel::KillJob(j), ActionModel::PushMessage(Message::Interrupted)],
            ),
            Some(_) => (
                ShellModel { input: Seq::empty(), ..m },
                clear_input_actions(m.input) + seq![
                    ActionModel::PushMessage(Message::Interrupted),
                    ActionModel::DisplayPrompt(Seq::empty()),
                ],
            ),
            None => (
                ShellModel {
                    input: Seq::empty(),
                    commands: crate::history::dedup_seq(m.commands),
                    index: Index::Current,
                    ..m
                },
                clear_input_actions(m.input) + seq![
                    ActionModel::PushMessage(Message::Interrupted),
                    ActionModel::DisplayPrompt(Seq::empty()),
                ],
            ),
        },
        KeyboardEvent::CtrlZ => (m, match m.foreground_job {
            Some(j) if job_exists(jobs, j) => seq![ActionModel::StopJob(j)],
            _ => Seq::empty(),
        }),
        KeyboardEvent::CtrlD => (m, match m.foreground_job {
            Some(j) if job_exists(jobs, j) => seq![ActionModel::SetJobEof(j)],
            _ => Seq::empty(),
        }),
        KeyboardEvent::Begin => (m, seq![ActionModel::ToBegin]),
        KeyboardEvent::End => (m, seq![ActionModel::ToEnd]),
        KeyboardEvent::PageUp => (m, seq![ActionModel::PageUp]),
        KeyboardEvent::PageDown => (m, seq![ActionModel::PageDown]),
        KeyboardEvent::LineUp => (m, seq![ActionModel::LineUp]),
        KeyboardEvent::LineDown => (m, seq![ActionModel::LineDown]),
        KeyboardEvent::Tab => (m, Seq::empty()),
        KeyboardEvent::Backspace => (
            ShellModel { input: m.input.remove(byte_boundary(m.input, offset as int)->0), ..m },
            seq![ActionModel::Pop(false)],
        ),
        KeyboardEvent::Delete => (
            ShellModel { input: m.input.remove(byte_boundary(m.input, offset + 1)->0), ..m },
            seq![ActionModel::Pop(true)],
        ),
        KeyboardEvent::Enter => enter_outcome(m, jobs),
        KeyboardEvent::Leftmost => (m, seq![ActionModel::CursorLeftmost]),
        KeyboardEvent::Rightmost => (m, seq![ActionModel::CursorRightmost]),
        KeyboardEvent::Up => {
            let idx = crate::history::step_back(m.commands.len(), m.index);
            if m.index == Index::Last || m.commands.len() == 0 {
                (ShellModel { index: idx, ..m }, Seq::empty())
            } else {
                let cmd = crate::history::command_at(m.commands, idx)->0;
                (ShellModel { index: idx, input: cmd, ..m }, set_input_actions(m.input, cmd))
            }
        },
        KeyboardEvent::Down => {
            let idx = crate::history::step_forward(m.commands.len(), m.index);
            if idx == Index::Current || m.commands.len() == 0 {
                (ShellModel { index: idx, ..m }, Seq::empty())
            } else {
                let cmd = crate::history::command_at(m.commands, idx)->0;
                (ShellModel { index: idx, input: cmd, ..m }, set_input_actions(m.input, cmd))
            }
        },
        KeyboardEvent::Left => (m, if offset > 0 {
            seq![ActionModel::CursorLeft]
        } else {
            Seq::empty()
        }),
        KeyboardEvent::Right => (m, if offset < text_utf8_len(m.input) {
            seq![ActionModel::CursorRight]
        } else {
            Seq::empty()
        }),
        KeyboardEvent::Other(c) => (
            ShellModel { input: m.input.insert(byte_boundary(m.input, offset as int)->0, c), ..m },
            seq![ActionModel::Push(c)],
        ),
    }
}

/// Whether the shell can handle `event` on state `m` with the cursor at
/// `offset`: Tab (completion) and starting a job are not written yet, and
/// the line can only be edited at a character boundary within it.
pub open spec fn key_supported(m: ShellModel, event: KeyboardEvent, offset: usize) -> bool {
    match event {
        KeyboardEvent::Tab => false,
        KeyboardEvent::Backspace => byte_boundary(m.input, offset as int) matches Some(k) && k
            < m.input.len(),
        KeyboardEvent::Delete => byte_boundary(m.input, offset + 1) matches Some(k) && k
            < m.input.len(),
        KeyboardEvent::Other(_) => byte_boundary(m.input, offset as int) is Some,
        KeyboardEvent::Enter => !enter_unsupported(m),
        _ => true,
    }
}

/// The line editor and job control of a shell.
pub struct ShellState {
    input_buf: Vec<char>,
    foreground_job: Option<usize>,
    history: History,
}

impl ShellState {
    /// The state as sequences.
    pub closed spec fn model(&self) -> ShellModel {
        ShellModel {
            input: self.input_buf@,
            foreground_job: self.foreground_job,
            commands: self.history.spec_commands(),
            index: self.history.spec_index(),
        }
    }

    /// The history is well formed.
    pub closed spec fn wf(&self) -> bool {
        self.history.wf()
    }

    /// A shell with an empty line, an empty history and no foreground job.
    pub fn new() -> (r: ShellState)
        ensures
            r.wf(),
            r.model().input == Seq::<char>::empty(),
            r.model().foreground_job is None,
            r.model().commands == Seq::<Seq<char>>::empty(),
            r.model().index == Index::Current,
    {
        ShellState { input_buf: Vec::new(), foreground_job: None, history: History::new() }
    }

    /// The line being typed.
    pub fn input(&self) -> (r: &[char])
        ensures
            r@ == self.model().input,
    {
        self.input_buf.as_slice()
    }

    /// The number of the job in the foreground.
    pub fn foreground_job(&self) -> (r: Option<usize>)
        ensures
            r == self.model().foreground_job,
    {
        self.foreground_job
    }

    /// The command history.
    pub fn history(&self) -> (r: &History)
        ensures
            r.spec_commands() == self.model().commands,
            r.spec_index() == self.model().index,
            r.wf() == self.wf(),
    {
        &self.history
    }

    /// Handles one keyboard event: updates the line, the history and the
    /// foreground job, and returns what the caller must do, in order.
    /// `cursor_offset` is where the front end's cursor is, `jobs` the jobs
    /// that exist.
    pub fn handle_key_event(
        &mut self,
        event: KeyboardEvent,
        cursor_offset: usize,
        jobs: &[JobSummary],
    ) -> (r: Vec<ShellAction>)
        requires
            old(self).wf(),
            key_supported(old(self).model(), event, cursor_offset),
        ensures
            final(self).wf(),
            (final(self).model(), actions_view(r@)) == key_outcome(
                old(self).model(),
                event,
                cursor_offset,
                jobs@,
            ),
    {
        let mut out: Vec<ShellAction> = Vec::new();
        let ghost m = self.model();
        match event {
            KeyboardEvent::CtrlC => {
                match self.foreground_job {
                    Some(j) => {
                        if jobs_contain(jobs, j) {
                            out.push(ShellAction::KillJob(j));
                            out.push(ShellAction::PushMessage(Message::Interrupted));
                        } else {
                            self.clear_input(&mut out);
                            out.push(ShellAction::PushMessage(Message::Interrupted));
                            self.display_prompt(&mut out);
                        }
                    },
                    None => {
                        self.clear_input(&mut out);
                        out.push(ShellAction::PushMessage(Message::Interrupted));
                        self.history.reset();
                        self.display_prompt(&mut out);
                    },
                }
            },
            KeyboardEvent::CtrlZ => {
                if let Some(j) = self.foreground_job {
                    if jobs_contain(jobs, j) {
                        out.push(ShellAction::StopJob(j));
                    }
                }
            },
            KeyboardEvent::CtrlD => {
                if let Some(j) = self.foreground_job {
                    if jobs_contain(jobs, j) {
                        out.push(ShellAction::SetJobEof(j));
                    }
                }
            },
            KeyboardEvent::Begin => out.push(ShellAction::ToBegin),
            KeyboardEvent::End => out.push(ShellAction::ToEnd),
            KeyboardEvent::PageUp => out.push(ShellAction::PageUp),
            KeyboardEvent::PageDown => out.push(ShellAction::PageDown),
            KeyboardEvent::LineUp => out.push(ShellAction::LineUp),
            KeyboardEvent::LineDown => out.push(ShellAction::LineDown),
            KeyboardEvent::Tab => {},
            KeyboardEvent::Backspace => {
                if let Some(k) = char_index_at(self.input_buf.as_slice(), cursor_offset) {
                    self.input_buf.remove(k);
                }
                out.push(ShellAction::Pop(false));
            },
            KeyboardEvent::Delete => {
                if let Some(k) = char_index_after(self.input_buf.as_slice(), cursor_offset) {
                    self.input_buf.remove(k);
                }
                out.push(ShellAction::Pop(true));
            },
            KeyboardEvent::Enter => {
                self.handle_enter(jobs, &mut out);
            },
            KeyboardEvent::Leftmost => out.push(ShellAction::CursorLeftmost),
            KeyboardEvent::Rightmost => out.push(ShellAction::CursorRightmost),
            KeyboardEvent::Up => {
                if let Some(cmd) = self.history.previous() {
                    let chars = string_to_chars(&cmd);
                    self.set_input(chars, &mut out);
                }
            },
            KeyboardEvent::Down => {
                if let Some(cmd) = self.history.next() {
                    let chars = string_to_chars(&cmd);
                    self.set_input(chars, &mut out);
                }
            },
            KeyboardEvent::Left => {
                if cursor_offset > 0 {
                    out.push(ShellAction::CursorLeft);
                }
            },
            KeyboardEvent::Right => {
                if encoding_longer_than(self.input_buf.as_slice(), cursor_offset) {
                    out.push(ShellAction::CursorRight);
                }
            },
            KeyboardEvent::Other(c) => {
                if let Some(k) = char_index_at(self.input_buf.as_slice(), cursor_offset) {
                    self.input_buf.insert(k, c);
                }
                out.push(ShellAction::Push(c));
            },
        }
        proof {
            let (m2, acts) = key_outcome(m, event, cursor_offset, jobs@);
            assert(actions_view(out@) =~= acts);
            assert(self.model() == m2);
        }
        out
    }

    /// Handles Enter.
    fn handle_enter(&mut self, jobs: &[JobSummary], out: &mut Vec<ShellAction>)
        requires
            old(self).wf(),
            !enter_unsupported(old(self).model()),
        ensures
            final(self).wf(),
            final(self).model() == enter_outcome(old(self).model(), jobs@).0,
            actions_view(final(out)@) == actions_view(old(out)@) + enter_outcome(
                old(self).model(),
                jobs@,
            ).1,
    {
        let ghost before = actions_view(out@);
        let ghost m = self.model();
        match self.foreground_job {
            Some(j) => {
                if jobs_contain(jobs, j) {
                    out.push(ShellAction::Push('\n'));
                    let mut buf: Vec<char> = Vec::new();
                    std::mem::swap(&mut buf, &mut self.input_buf);
                    buf.push('\n');
                    out.push(ShellAction::WriteToJob(j, buf));
                    proof {
                        assert(self.input_buf@ =~= Seq::<char>::empty());
                        assert(actions_view(out@) =~= before + enter_outcome(m, jobs@).1);
                    }
                }
            },
            None => {
                if self.input_buf.len() == 0 {
                    assert(self.input_buf@ =~= Seq::<char>::empty());
                    out.push(ShellAction::Push('\n'));
                    self.display_prompt(out);
                    proof {
                        assert(actions_view(out@) =~= before + enter_outcome(m, jobs@).1);
                    }
                } else {
                    out.push(ShellAction::Push('\n'));
                    let line = chars_to_string(self.input_buf.as_slice());
                    self.history.push(line);
                    let ghost pushed = self.model();
                    let ghost mid = actions_view(out@);
                    let cmd = internal_command_of(self.input_buf.as_slice());
                    match cmd {
                        Some(c) => {
                            self.run_internal(c, jobs, out);
                        },
                        None => {},
                    }
                    let ghost after = self.model();
                    self.clear_input(out);
                    proof {
                        assert(actions_view(out@) =~= before + (seq![ActionModel::Push('\n')]
                            + internal_outcome(pushed, internal_command(m.input)->0, jobs@).1
                            + clear_input_actions(after.input)));
                    }
                }
            },
        }
        proof {
            assert(actions_view(out@) =~= before + enter_outcome(m, jobs@).1);
        }
    }

    /// Runs an internal command.
    fn run_internal(&mut self, cmd: InternalCommand, jobs: &[JobSummary], out: &mut Vec<ShellAction>)
        requires
            old(self).wf(),
        ensures
            final(self).wf(),
            final(self).model() == internal_outcome(old(self).model(), cmd, jobs@).0,
            actions_view(final(out)@) == actions_view(old(out)@) + internal_outcome(
                old(self).model(),
                cmd,
                jobs@,
            ).1,
    {
        let ghost before = actions_view(out@);
        let ghost m = self.model();
        match cmd {
            InternalCommand::Jobs => {
                if jobs.len() == 0 {
                    out.push(ShellAction::PushMessage(Message::NoJobs));
                } else {
                    let mut i: usize = 0;
                    while i < jobs.len()
                        invariant
                            i <= jobs@.len(),
                            jobs@.len() > 0,
                            actions_view(out@) == before + job_lines(jobs@).take(i as int),
                        decreases jobs@.len() - i,
                    {
                        let ghost prev = actions_view(out@);
                        let cmd_copy = jobs[i].cmd.clone();
                        proof {
                            assert forall|k: int| 0 <= k < cmd_copy@.len() implies cmd_copy@[k]
                                == jobs@[i as int].cmd@[k] by {
                                assert(cloned::<char>(jobs@[i as int].cmd[k], cmd_copy[k]));
                            }
                            assert(cmd_copy@ =~= jobs@[i as int].cmd@);
                        }
                        out.push(ShellAction::PrintJob {
                            num: jobs[i].num,
                            running: jobs[i].running,
                            cmd: cmd_copy,
                        });
                        proof {
                            assert(job_lines(jobs@)[i as int] == ActionModel::PrintJob {
                                num: jobs@[i as int].num,
                                running: jobs@[i as int].running,
                                cmd: jobs@[i as int].cmd@,
                            });
                            assert(actions_view(out@) =~= prev.push(job_lines(jobs@)[i as int]));
                        }
                        i = i + 1;
                        proof {
                            assert(actions_view(out@) =~= before + job_lines(jobs@).take(i as int));
                        }
                    }
                    proof {
                        assert(job_lines(jobs@).take(i as int) =~= job_lines(jobs@));
                    }
                }
                let ghost mid = actions_view(out@);
                self.clear_input(out);
                self.display_prompt(out);
                proof {
                    assert(actions_view(out@) =~= before + internal_outcome(m, cmd, jobs@).1);
                }
            },
            InternalCommand::Fg => {
                match job_argument_of(self.input_buf.as_slice()) {
                    None => out.push(ShellAction::PushMessage(Message::FgUsage)),
                    Some(n) => {
                        if jobs_contain(jobs, n) {
                            self.foreground_job = Some(n);
                            out.push(ShellAction::ResumeJob(n));
                        } else {
                            out.push(ShellAction::PrintNoSuchJob(n));
                        }
                    },
                }
                proof {
                    assert(actions_view(out@) =~= before + internal_outcome(m, cmd, jobs@).1);
                }
            },
            InternalCommand::Bg => {
                match job_argument_of(self.input_buf.as_slice()) {
                    None => out.push(ShellAction::PushMessage(Message::BgUsage)),
                    Some(n) => {
                        if jobs_contain(jobs, n) {
                            self.foreground_job = Some(n);
                            out.push(ShellAction::ResumeJob(n));
                            self.clear_input(out);
                            self.display_prompt(out);
                        } else {
                            out.push(ShellAction::PrintNoSuchJob(n));
                        }
                    },
                }
                proof {
                    assert(actions_view(out@) =~= before + internal_outcome(m, cmd, jobs@).1);
                }
            },
            InternalCommand::Clear => {
                out.push(ShellAction::Clear);
                self.display_prompt(out);
                proof {
                    assert(actions_view(out@) =~= before + internal_outcome(m, cmd, jobs@).1);
                }
            },
        }
    }

    /// The prompt followed by the current line.
    fn display_prompt(&self, out: &mut Vec<ShellAction>)
        ensures
            actions_view(final(out)@) == actions_view(old(out)@).push(
                ActionModel::DisplayPrompt(self.model().input),
            ),
    {
        let ghost before = actions_view(out@);
        out.push(ShellAction::DisplayPrompt(self.input_buf.clone()));
        proof {
            assert(actions_view(out@) =~= before.push(ActionModel::DisplayPrompt(self.model().input)));
        }
    }

    /// Erases the line on the front end and empties it.
    fn clear_input(&mut self, out: &mut Vec<ShellAction>)
        ensures
            final(self).model() == (ShellModel { input: Seq::empty(), ..old(self).model() }),
            final(self).wf() == old(self).wf(),
            actions_view(final(out)@) == actions_view(old(out)@) + clear_input_actions(
                old(self).model().input,
            ),
    {
        let ghost before = actions_view(out@);
        let ghost input = self.input_buf@;
        out.push(ShellAction::CursorRightmost);
        proof {
            assert(actions_view(out@) =~= before + seq![ActionModel::CursorRightmost]);
            assert(input.take(0) =~= Seq::<char>::empty());
        }
        let mut i: usize = 0;
        while i < self.input_buf.len()
            invariant
                self.input_buf@ == input,
                i <= input.len(),
                actions_view(out@) == before + seq![ActionModel::CursorRightmost] + pops(
                    text_utf8_len(input.take(i as int)),
                ),
            decreases input.len() - i,
        {
            let c = self.input_buf[i];
            let w = utf8_width(c);
            let mut k: usize = 0;
            let ghost base = text_utf8_len(input.take(i as int));
            while k < w
                invariant
                    k <= w,
                    w == utf8_len(c),
                    actions_view(out@) == before + seq![ActionModel::CursorRightmost] + pops(
                        (base + k) as nat,
                    ),
                decreases w - k,
            {
                let ghost prev = actions_view(out@);
                out.push(ShellAction::Pop(false));
                k = k + 1;
                proof {
                    assert(actions_view(out@) =~= prev.push(ActionModel::Pop(false)));
                    assert(before + seq![ActionModel::CursorRightmost] + pops((base + k) as nat) =~= (before
                        + seq![ActionModel::CursorRightmost] + pops((base + k - 1) as nat)).push(
                        ActionModel::Pop(false),
                    ));
                }
            }
            proof {
                assert(input.take(i + 1).drop_last() =~= input.take(i as int));
                assert(input.take(i + 1).last() == c);
            }
            i = i + 1;
        }
        proof {
            assert(input.take(input.len() as int) =~= input);
        }
        self.input_buf = Vec::new();
        proof {
            assert(self.input_buf@ =~= Seq::<char>::empty());
        }
    }

    /// Replaces the line by `s` on the front end and in the state.
    fn set_input(&mut self, s: Vec<char>, out: &mut Vec<ShellAction>)
        ensures
            final(self).model() == (ShellModel { input: s@, ..old(self).model() }),
            final(self).wf() == old(self).wf(),
            actions_view(final(out)@) == actions_view(old(out)@) + set_input_actions(
                old(self).model().input,
                s@,
            ),
    {
        let ghost before = actions_view(out@);
        if self.input_buf.len() > 0 {
            self.clear_input(out);
        }
        let ghost mid = actions_view(out@);
        out.push(ShellAction::PushText(s.clone()));
        out.push(ShellAction::CursorLeftmost);
        proof {
            assert(actions_view(out@) =~= mid + seq![
                ActionModel::PushText(s@),
                ActionModel::CursorLeftmost,
            ]);
        }
        self.input_buf = s;
        proof {
            assert(actions_view(out@) =~= before + set_input_actions(old(self).model().input, s@));
        }
    }
}

/// Typing a character and then pressing Backspace with the cursor at the
/// same offset gives back the line as it was, and changes nothing else.
pub proof fn lemma_type_then_backspace(m: ShellModel, c: char, offset: usize, jobs: Seq<JobSummary>)
    requires
        byte_boundary(m.input, offset as int) is Some,
    ensures
        ({
            let typed = key_outcome(m, KeyboardEvent::Other(c), offset, jobs).0;
            &&& key_supported(m, KeyboardEvent::Other(c), offset)
            &&& key_supported(typed, KeyboardEvent::Backspace, offset)
            &&& key_outcome(typed, KeyboardEvent::Backspace, offset, jobs).0 == m
        }),
{
    let k = byte_boundary(m.input, offset as int)->0;
    let typed = key_outcome(m, KeyboardEvent::Other(c), offset, jobs).0;
    assert(0 <= k <= m.input.len() && text_utf8_len(m.input.take(k)) == offset) by {
        let j = choose|j: int| 0 <= j <= m.input.len() && #[trigger] text_utf8_len(m.input.take(j)) == offset;
    }
    assert(typed.input.take(k) =~= m.input.take(k));
    lemma_byte_boundary_at(typed.input, k);
    assert(typed.input.remove(k) =~= m.input);
}

/// Keys that only move the view or the cursor leave the shell's state as
/// it was.
pub proof fn lemma_navigation_keeps_state(m: ShellModel, event: KeyboardEvent, offset: usize, jobs: Seq<JobSummary>)
    requires
        event == KeyboardEvent::Begin || event == KeyboardEvent::End || event == KeyboardEvent::PageUp
            || event == KeyboardEvent::PageDown || event == KeyboardEvent::LineUp || event
            == KeyboardEvent::LineDown || event == KeyboardEvent::Leftmost || event
            == KeyboardEvent::Rightmost || event == KeyboardEvent::Left || event == KeyboardEvent::Right,
    ensures
        key_supported(m, event, offset),
        key_outcome(m, event, offset, jobs).0 == m,
{
}

/// Whether a job numbered `num` is among `jobs`.
pub fn jobs_contain(jobs: &[JobSummary], num: usize) -> (r: bool)
    ensures
        r == job_exists(jobs@, num),
{
    let mut i: usize = 0;
    while i < jobs.len()
        invariant
            i <= jobs@.len(),
            forall|k: int| 0 <= k < i ==> (#[trigger] jobs@[k]).num != num,
        decreases jobs@.len() - i,
    {
        if jobs[i].num == num {
            return true;
        }
        i = i + 1;
    }
    false
}

/// Whether `a` and `b` hold the same characters.
fn chars_eq(a: &[char], b: &[char]) -> (r: bool)
    ensures
        r == (a@ == b@),
{
    if a.len() != b.len() {
        return false;
    }
    let mut i: usize = 0;
    while i < a.len()
        invariant
            a@.len() == b@.len(),
            i <= a@.len(),
            forall|k: int| 0 <= k < i ==> a@[k] == b@[k],
        decreases a@.len() - i,
    {
        if a[i] != b[i] {
            return false;
        }
        i = i + 1;
    }
    assert(a@ =~= b@);
    true
}

/// The internal command that the line `input` starts with, if any.
pub fn internal_command_of(input: &[char]) -> (r: Option<InternalCommand>)
    ensures
        r == internal_command(input@),
{
    let w = split_whitespace(input);
    proof {
        assert(w@.len() == words(input@).len());
    }
    if w.len() == 0 {
        return None;
    }
    let first = w[0].as_slice();
    proof {
        assert(first@ == words(input@)[0]);
    }
    if chars_eq(first, &['j', 'o', 'b', 's']) {
        Some(InternalCommand::Jobs)
    } else if chars_eq(first, &['f', 'g']) {
        Some(InternalCommand::Fg)
    } else if chars_eq(first, &['b', 'g']) {
        Some(InternalCommand::Bg)
    } else if chars_eq(first, &['c', 'l', 'e', 'a', 'r']) {
        Some(InternalCommand::Clear)
    } else {
        None
    }
}

/// The job number that `fg` or `bg` names on the line `input`.
pub fn job_argument_of(input: &[char]) -> (r: Option<usize>)
    ensures
        r == job_argument(input@),
{
    let w = split_whitespace(input);
    proof {
        assert(w@.len() == words(input@).len());
    }
    if w.len() != 2 {
        return None;
    }
    let arg = w[1].as_slice();
    proof {
        assert(arg@ == words(input@)[1]);
    }
    if arg.len() == 0 || arg[0] != '%' {
        return None;
    }
    let mut rest: Vec<char> = Vec::new();
    let mut i: usize = 1;
    while i < arg.len()
        invariant
            1 <= i <= arg@.len(),
            rest@ == arg@.subrange(1, i as int),
        decreases arg@.len() - i,
    {
        rest.push(arg[i]);
        i = i + 1;
        proof {
            assert(rest@ =~= arg@.subrange(1, i as int));
        }
    }
    proof {
        assert(rest@ =~= arg@.drop_first());
    }
    parse_usize(rest.as_slice())
}

/// The characters of `s`.
pub fn string_to_chars(s: &String) -> (r: Vec<char>)
    ensures
        r@ == s@,
{
    let mut out: Vec<char> = Vec::new();
    for c in it: s.as_str().chars()
        invariant
            out@ == it.seq().take(it.index()),
            it.seq() == s@,
    {
        out.push(c);
        proof {
            assert(out@ =~= it.seq().take(it.index() + 1));
        }
    }
    proof {
        assert(out@ =~= s@);
    }
    out
}

/// The index of the character of `input` that starts at byte
/// `offset + plus` of its encoding, if one does.
fn boundary_search(input: &[char], offset: usize, plus: usize) -> (r: Option<usize>)
    requires
        plus <= 1,
    ensures
        match r {
            Some(k) => byte_boundary(input@, offset + plus) == Some(k as int),
            None => byte_boundary(input@, offset + plus) is None,
        },
{
    let ghost t: int = offset + plus;
    if offset == 0 && plus == 0 {
        proof {
            assert(input@.take(0) =~= Seq::<char>::empty());
            lemma_byte_boundary_at(input@, 0);
        }
        return Some(0);
    }
    let mut i: usize = 0;
    let mut acc: usize = 0;
    proof {
        assert(input@.take(0) =~= Seq::<char>::empty());
    }
    while i < input.len()
        invariant
            plus <= 1,
            t == offset + plus,
            i <= input@.len(),
            acc == text_utf8_len(input@.take(i as int)),
            acc < t,
        decreases input@.len() - i,
    {
        let w = utf8_width(input[i]);
        proof {
            lemma_text_utf8_len_step(input@, i as int);
        }
        let rem = offset - acc;
        if w - plus == rem {
            proof {
                lemma_byte_boundary_at(input@, i + 1);
            }
            return Some(i + 1);
        }
        if w - plus > rem {
            proof {
                assert forall|k: int| 0 <= k <= input@.len() implies #[trigger] text_utf8_len(input@.take(k)) != t by {
                    if k < i {
                        lemma_text_utf8_len_increasing(input@, k, i as int);
                    } else if k > i + 1 {
                        lemma_text_utf8_len_increasing(input@, i + 1, k);
                    }
                }
            }
            return None;
        }
        acc = acc + w;
        i = i + 1;
    }
    proof {
        assert forall|k: int| 0 <= k <= input@.len() implies #[trigger] text_utf8_len(input@.take(k)) != t by {
            if k < i {
                lemma_text_utf8_len_increasing(input@, k, i as int);
            }
        }
    }
    None
}

/// The index of the character of `input` that starts at byte `offset` of
/// its encoding (the length of `input` at the encoding's end), if one does.
pub fn char_index_at(input: &[char], offset: usize) -> (r: Option<usize>)
    ensures
        match r {
            Some(k) => byte_boundary(input@, offset as int) == Some(k as int),
            None => byte_boundary(input@, offset as int) is None,
        },
{
    boundary_search(input, offset, 0)
}

/// The index of the character of `input` that starts at byte `offset + 1`
/// of its encoding, if one does.
pub fn char_index_after(input: &[char], offset: usize) -> (r: Option<usize>)
    ensures
        match r {
            Some(k) => byte_boundary(input@, offset + 1) == Some(k as int),
            None => byte_boundary(input@, offset + 1) is None,
        },
{
    boundary_search(input, offset, 1)
}

/// Whether the encoding of `input` is longer than `offset` bytes.
pub fn encoding_longer_than(input: &[char], offset: usize) -> (r: bool)
    ensures
        r == (text_utf8_len(input@) > offset),
{
    let mut i: usize = 0;
    let mut acc: usize = 0;
    proof {
        assert(input@.take(0) =~= Seq::<char>::empty());
        assert(input@.take(input@.len() as int) =~= input@);
    }
    while i < input.len()
        invariant
            i <= input@.len(),
            acc == text_utf8_len(input@.take(i as int)),
            acc <= offset,
            input@.take(input@.len() as int) == input@,
        decreases input@.len() - i,
    {
        let w = utf8_width(input[i]);
        proof {
            lemma_text_utf8_len_step(input@, i as int);
        }
        if w > offset - acc {
            proof {
                if i + 1 < input@.len() {
                    lemma_text_utf8_len_increasing(input@, i + 1, input@.len() as int);
                }
            }
            return true;
        }
        acc = acc + w;
        i = i + 1;
    }
    false
}

/// A string holding the characters of `v` (`Iterator::collect` into a
/// `String`).
#[verifier::external_body]
fn chars_to_string(v: &[char]) -> (r: String)
    ensures
        r@ == v@,
{
    v.iter().collect()
}

/// The number of bytes of the UTF-8 encoding of `c`.
pub fn utf8_width(c: char) -> (r: usize)
    ensures
        r == utf8_len(c),
{
    let v = c as u32;
    if v < 0x80 {
        1
    } else if v < 0x800 {
        2
    } else if v < 0x10000 {
        3
    } else {
        4
    }
}

/// Erasing a line only moves the cursor to its end and removes characters.
proof fn lemma_clear_input_only_erases(input: Seq<char>)
    ensures
        forall|i: int|
            0 <= i < clear_input_actions(input).len() ==> #[trigger] clear_input_actions(input)[i]
                == ActionModel::CursorRightmost || clear_input_actions(input)[i] == ActionModel::Pop(false),
{
    let a = clear_input_actions(input);
    assert forall|i: int| 0 <= i < a.len() implies #[trigger] a[i] == ActionModel::CursorRightmost || a[i]
        == ActionModel::Pop(false) by {
        if i > 0 {
            assert(a[i] == pops(text_utf8_len(input))[i - 1]);
        }
    }
}

/// `fg %n` and `bg %n` on a job `n` that exists resume job `n` and make it
/// the foreground job; they never resume any other job, and on a number no
/// job has they resume nothing, leave the state as it was and say that no
/// such job exists.
pub proof fn lemma_fg_bg_resume_the_named_job(
    m: ShellModel,
    cmd: InternalCommand,
    jobs: Seq<JobSummary>,
    n: usize,
)
    requires
        cmd == InternalCommand::Fg || cmd == InternalCommand::Bg,
        job_argument(m.input) == Some(n),
    ensures
        job_exists(jobs, n) ==> internal_outcome(m, cmd, jobs).1.contains(ActionModel::ResumeJob(n))
            && internal_outcome(m, cmd, jobs).0.foreground_job == Some(n),
        forall|k: usize|
            #[trigger] internal_outcome(m, cmd, jobs).1.contains(ActionModel::ResumeJob(k)) ==> k == n
                && job_exists(jobs, n),
        !job_exists(jobs, n) ==> internal_outcome(m, cmd, jobs).1.contains(ActionModel::PrintNoSuchJob(n))
            && internal_outcome(m, cmd, jobs).0 == m,
{
    let acts = internal_outcome(m, cmd, jobs).1;
    if job_exists(jobs, n) {
        assert(acts[0] == ActionModel::ResumeJob(n));
    } else {
        assert(acts[0] == ActionModel::PrintNoSuchJob(n));
    }
    assert forall|k: usize| #[trigger] acts.contains(ActionModel::ResumeJob(k)) implies k == n
        && job_exists(jobs, n) by {
        let i = choose|i: int| 0 <= i < acts.len() && acts[i] == ActionModel::ResumeJob(k);
        if job_exists(jobs, n) && cmd == InternalCommand::Bg && i > 0 {
            let c = clear_input_actions(m.input);
            lemma_clear_input_only_erases(m.input);
            if i <= c.len() {
                assert(acts[i] == c[i - 1]);
            }
        }
    }
}

/// Enter on the line `fg %n` or `bg %n`, with no job in the foreground and
/// job `n` existing, resumes job `n` and brings it to the foreground.
pub proof fn lemma_enter_fg_bg_resumes_the_job(
    m: ShellModel,
    offset: usize,
    jobs: Seq<JobSummary>,
    n: usize,
)
    requires
        m.foreground_job is None,
        internal_command(m.input) == Some(InternalCommand::Fg) || internal_command(m.input) == Some(
            InternalCommand::Bg,
        ),
        job_argument(m.input) == Some(n),
        job_exists(jobs, n),
    ensures
        key_outcome(m, KeyboardEvent::Enter, offset, jobs).1.contains(ActionModel::ResumeJob(n)),
        key_outcome(m, KeyboardEvent::Enter, offset, jobs).0.foreground_job == Some(n),
{
    if m.input.len() == 0 {
        assert(words(m.input) =~= Seq::<Seq<char>>::empty());
    }
    let pushed = ShellModel {
        commands: crate::history::dedup_seq(m.commands).push(m.input),
        index: Index::Current,
        ..m
    };
    let cmd = internal_command(m.input)->0;
    lemma_fg_bg_resume_the_named_job(pushed, cmd, jobs, n);
    let acts = internal_outcome(pushed, cmd, jobs).1;
    let i = choose|i: int| 0 <= i < acts.len() && acts[i] == ActionModel::ResumeJob(n);
    let all = key_outcome(m, KeyboardEvent::Enter, offset, jobs).1;
    assert(all[i + 1] == ActionModel::ResumeJob(n));
}

/// Ctrl+C, Ctrl+Z and Ctrl+D act on the foreground job, and only on it: with
/// a foreground job that exists, Ctrl+C kills it, Ctrl+Z stops it and Ctrl+D
/// ends its input; no other job is ever killed, stopped or given an end of
/// input, and Ctrl+Z and Ctrl+D leave the shell's state as it was.
pub proof fn lemma_control_keys_act_on_the_foreground_job(m: ShellModel, offset: usize, jobs: Seq<JobSummary>)
    ensures
        m.foreground_job is Some && job_exists(jobs, m.foreground_job->0) ==> key_outcome(
            m,
            KeyboardEvent::CtrlC,
            offset,
            jobs,
        ).1.contains(ActionModel::KillJob(m.foreground_job->0)) && key_outcome(
            m,
            KeyboardEvent::CtrlZ,
            offset,
            jobs,
        ).1.contains(ActionModel::StopJob(m.foreground_job->0)) && key_outcome(
            m,
            KeyboardEvent::CtrlD,
            offset,
            jobs,
        ).1.contains(ActionModel::SetJobEof(m.foreground_job->0)),
        forall|k: usize|
            #[trigger] key_outcome(m, KeyboardEvent::CtrlC, offset, jobs).1.contains(ActionModel::KillJob(k))
                ==> m.foreground_job == Some(k) && job_exists(jobs, k),
        forall|k: usize|
            #[trigger] key_outcome(m, KeyboardEvent::CtrlZ, offset, jobs).1.contains(ActionModel::StopJob(k))
                ==> m.foreground_job == Some(k) && job_exists(jobs, k),
        forall|k: usize|
            #[trigger] key_outcome(m, KeyboardEvent::CtrlD, offset, jobs).1.contains(ActionModel::SetJobEof(k))
                ==> m.foreground_job == Some(k) && job_exists(jobs, k),
        key_outcome(m, KeyboardEvent::CtrlZ, offset, jobs).0 == m,
        key_outcome(m, KeyboardEvent::CtrlD, offset, jobs).0 == m,
{
    let c = key_outcome(m, KeyboardEvent::CtrlC, offset, jobs).1;
    let z = key_outcome(m, KeyboardEvent::CtrlZ, offset, jobs).1;
    let d = key_outcome(m, KeyboardEvent::CtrlD, offset, jobs).1;
    if m.foreground_job is Some && job_exists(jobs, m.foreground_job->0) {
        assert(c[0] == ActionModel::KillJob(m.foreground_job->0));
        assert(z[0] == ActionModel::StopJob(m.foreground_job->0));
        assert(d[0] == ActionModel::SetJobEof(m.foreground_job->0));
    }
    lemma_clear_input_only_erases(m.input);
    assert forall|k: usize| #[trigger] c.contains(ActionModel::KillJob(k)) implies m.foreground_job == Some(k)
        && job_exists(jobs, k) by {
        let i = choose|i: int| 0 <= i < c.len() && c[i] == ActionModel::KillJob(k);
        if !(m.foreground_job is Some && job_exists(jobs, m.foreground_job->0)) {
            let e = clear_input_actions(m.input);
            if i < e.len() {
                assert(c[i] == e[i]);
            }
        }
    }
}

/// Enter while a job runs in the foreground hands it the line and a newline,
/// and empties the line.
pub proof fn lemma_enter_feeds_the_foreground_job(m: ShellModel, offset: usize, jobs: Seq<JobSummary>, j: usize)
    requires
        m.foreground_job == Some(j),
        job_exists(jobs, j),
    ensures
        key_outcome(m, KeyboardEvent::Enter, offset, jobs).1.contains(
            ActionModel::WriteToJob(j, m.input.push('\n')),
        ),
        key_outcome(m, KeyboardEvent::Enter, offset, jobs).0.input == Seq::<char>::empty(),
        key_outcome(m, KeyboardEvent::Enter, offset, jobs).0.foreground_job == Some(j),
{
    assert(key_outcome(m, KeyboardEvent::Enter, offset, jobs).1[1] == ActionModel::WriteToJob(
        j,
        m.input.push('\n'),
    ));
}

/// `jobs` prints a line for each job, with its number, whether it runs and
/// its command, or says there are none; `clear` clears the screen and then
/// shows the prompt with the line again. Neither changes the jobs.
pub proof fn lemma_jobs_and_clear(m: ShellModel, jobs: Seq<JobSummary>)
    ensures
        forall|i: int|
            0 <= i < jobs.len() ==> internal_outcome(m, InternalCommand::Jobs, jobs).1.contains(
                ActionModel::PrintJob {
                    num: (#[trigger] jobs[i]).num,
                    running: jobs[i].running,
                    cmd: jobs[i].cmd@,
                },
            ),
        jobs.len() == 0 ==> internal_outcome(m, InternalCommand::Jobs, jobs).1.contains(
            ActionModel::PushMessage(Message::NoJobs),
        ),
        internal_outcome(m, InternalCommand::Jobs, jobs).0.input == Seq::<char>::empty(),
        internal_outcome(m, InternalCommand::Jobs, jobs).0.foreground_job == m.foreground_job,
        internal_outcome(m, InternalCommand::Clear, jobs).1[0] == ActionModel::Clear,
        internal_outcome(m, InternalCommand::Clear, jobs).1.contains(ActionModel::DisplayPrompt(m.input)),
        internal_outcome(m, InternalCommand::Clear, jobs).0 == m,
{
    let a = internal_outcome(m, InternalCommand::Jobs, jobs).1;
    assert forall|i: int| 0 <= i < jobs.len() implies a.contains(
        ActionModel::PrintJob { num: (#[trigger] jobs[i]).num, running: jobs[i].running, cmd: jobs[i].cmd@ },
    ) by {
        assert(a[i] == job_lines(jobs)[i]);
    }
    if jobs.len() == 0 {
        assert(a[0] == ActionModel::PushMessage(Message::NoJobs));
    }
    assert(internal_outcome(m, InternalCommand::Clear, jobs).1[1] == ActionModel::DisplayPrompt(m.input));
}

} // verus!

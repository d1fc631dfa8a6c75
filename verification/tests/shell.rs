use theseus::shell::{
    char_index_after, char_index_at, encoding_longer_than, internal_command_of, job_argument_of,
    utf8_width, InternalCommand, JobSummary, KeyboardEvent,
    Message, ShellAction, ShellState,
};

fn chars(s: &str) -> Vec<char> {
    s.chars().collect()
}

fn type_line(shell: &mut ShellState, line: &str) {
    for (i, c) in line.chars().enumerate() {
        let acts = shell.handle_key_event(KeyboardEvent::Other(c), i, &[]);
        assert_eq!(acts.len(), 1);
        assert!(matches!(acts[0], ShellAction::Push(p) if p == c));
    }
}

fn job(num: usize, running: bool, cmd: &str) -> JobSummary {
    JobSummary { num, running, cmd: chars(cmd) }
}

#[test]
fn typing_inserts_at_the_cursor() {
    let mut shell = ShellState::new();
    type_line(&mut shell, "ac");
    shell.handle_key_event(KeyboardEvent::Other('b'), 1, &[]);
    assert_eq!(shell.input(), &chars("abc")[..]);
}

#[test]
fn backspace_and_delete_remove_at_the_cursor() {
    let mut shell = ShellState::new();
    type_line(&mut shell, "abcd");
    let acts = shell.handle_key_event(KeyboardEvent::Backspace, 1, &[]);
    assert!(matches!(acts[..], [ShellAction::Pop(false)]));
    assert_eq!(shell.input(), &chars("acd")[..]);
    let acts = shell.handle_key_event(KeyboardEvent::Delete, 0, &[]);
    assert!(matches!(acts[..], [ShellAction::Pop(true)]));
    assert_eq!(shell.input(), &chars("ad")[..]);
}

#[test]
fn typing_then_backspace_at_the_same_offset_restores_the_line() {
    let mut shell = ShellState::new();
    type_line(&mut shell, "hello");
    shell.handle_key_event(KeyboardEvent::Other('X'), 2, &[]);
    shell.handle_key_event(KeyboardEvent::Backspace, 2, &[]);
    assert_eq!(shell.input(), &chars("hello")[..]);
}

#[test]
fn enter_on_an_empty_line_prints_a_new_prompt() {
    let mut shell = ShellState::new();
    let acts = shell.handle_key_event(KeyboardEvent::Enter, 0, &[]);
    assert!(matches!(&acts[..], [ShellAction::Push('\n'), ShellAction::DisplayPrompt(p)] if p.is_empty()));
}

#[test]
fn jobs_without_jobs_prints_the_message() {
    let mut shell = ShellState::new();
    type_line(&mut shell, "jobs");
    let acts = shell.handle_key_event(KeyboardEvent::Enter, 4, &[]);
    assert!(matches!(acts[0], ShellAction::Push('\n')));
    assert!(matches!(acts[1], ShellAction::PushMessage(Message::NoJobs)));
    assert!(matches!(acts[2], ShellAction::CursorRightmost));
    assert!(acts[3..7].iter().all(|a| matches!(a, ShellAction::Pop(false))));
    assert!(matches!(&acts[7], ShellAction::DisplayPrompt(p) if p.is_empty()));
    assert!(matches!(acts[8], ShellAction::CursorRightmost));
    assert_eq!(acts.len(), 9);
    assert!(shell.input().is_empty());
    assert_eq!(shell.history().len(), 1);
}

#[test]
fn jobs_lists_each_job() {
    let mut shell = ShellState::new();
    type_line(&mut shell, "jobs");
    let jobs = [job(1, true, "a"), job(4, false, "b c")];
    let acts = shell.handle_key_event(KeyboardEvent::Enter, 4, &jobs);
    assert!(matches!(&acts[1], ShellAction::PrintJob { num: 1, running: true, cmd } if *cmd == chars("a")));
    assert!(matches!(&acts[2], ShellAction::PrintJob { num: 4, running: false, cmd } if *cmd == chars("b c")));
}

#[test]
fn fg_brings_an_existing_job_to_the_foreground() {
    let mut shell = ShellState::new();
    type_line(&mut shell, "fg %2");
    let acts = shell.handle_key_event(KeyboardEvent::Enter, 5, &[job(2, false, "x")]);
    assert!(matches!(acts[0], ShellAction::Push('\n')));
    assert!(matches!(acts[1], ShellAction::ResumeJob(2)));
    assert_eq!(shell.foreground_job(), Some(2));
    assert!(shell.input().is_empty());
}

#[test]
fn fg_of_a_missing_job_says_so() {
    let mut shell = ShellState::new();
    type_line(&mut shell, "fg %9");
    let acts = shell.handle_key_event(KeyboardEvent::Enter, 5, &[job(2, false, "x")]);
    assert!(matches!(acts[1], ShellAction::PrintNoSuchJob(9)));
    assert_eq!(shell.foreground_job(), None);
}

#[test]
fn fg_and_bg_without_a_job_print_their_usage() {
    let mut shell = ShellState::new();
    type_line(&mut shell, "fg");
    let acts = shell.handle_key_event(KeyboardEvent::Enter, 2, &[]);
    assert!(matches!(acts[1], ShellAction::PushMessage(Message::FgUsage)));
    let mut shell = ShellState::new();
    type_line(&mut shell, "bg 3");
    let acts = shell.handle_key_event(KeyboardEvent::Enter, 4, &[]);
    assert!(matches!(acts[1], ShellAction::PushMessage(Message::BgUsage)));
}

#[test]
fn clear_clears_the_screen() {
    let mut shell = ShellState::new();
    type_line(&mut shell, "clear");
    let acts = shell.handle_key_event(KeyboardEvent::Enter, 5, &[]);
    assert!(matches!(acts[1], ShellAction::Clear));
    assert!(matches!(&acts[2], ShellAction::DisplayPrompt(p) if *p == chars("clear")));
}

#[test]
fn enter_with_a_foreground_job_feeds_the_line_to_it() {
    let mut shell = ShellState::new();
    type_line(&mut shell, "fg %1");
    shell.handle_key_event(KeyboardEvent::Enter, 5, &[job(1, true, "cat")]);
    type_line(&mut shell, "hi");
    let acts = shell.handle_key_event(KeyboardEvent::Enter, 2, &[job(1, true, "cat")]);
    assert!(matches!(acts[0], ShellAction::Push('\n')));
    assert!(matches!(&acts[1], ShellAction::WriteToJob(1, t) if *t == chars("hi\n")));
    assert!(shell.input().is_empty());
}

#[test]
fn ctrl_keys_act_on_the_foreground_job() {
    let mut shell = ShellState::new();
    type_line(&mut shell, "fg %1");
    let jobs = [job(1, true, "cat")];
    shell.handle_key_event(KeyboardEvent::Enter, 5, &jobs);
    assert!(matches!(shell.handle_key_event(KeyboardEvent::CtrlZ, 0, &jobs)[..], [ShellAction::StopJob(1)]));
    assert!(matches!(shell.handle_key_event(KeyboardEvent::CtrlD, 0, &jobs)[..], [ShellAction::SetJobEof(1)]));
    let acts = shell.handle_key_event(KeyboardEvent::CtrlC, 0, &jobs);
    assert!(matches!(acts[..], [ShellAction::KillJob(1), ShellAction::PushMessage(Message::Interrupted)]));
}

#[test]
fn ctrl_c_without_a_job_discards_the_line() {
    let mut shell = ShellState::new();
    type_line(&mut shell, "ab");
    let acts = shell.handle_key_event(KeyboardEvent::CtrlC, 2, &[]);
    assert!(matches!(acts[0], ShellAction::CursorRightmost));
    assert!(matches!(acts[3], ShellAction::PushMessage(Message::Interrupted)));
    assert!(shell.input().is_empty());
    assert!(shell.handle_key_event(KeyboardEvent::CtrlZ, 0, &[]).is_empty());
}

#[test]
fn up_and_down_walk_the_history() {
    let mut shell = ShellState::new();
    for line in ["jobs", "clear"] {
        type_line(&mut shell, line);
        let n = line.chars().count();
        shell.handle_key_event(KeyboardEvent::Enter, n, &[]);
    }
    shell.handle_key_event(KeyboardEvent::Up, 0, &[]);
    assert_eq!(shell.input(), &chars("clear")[..]);
    shell.handle_key_event(KeyboardEvent::Up, 0, &[]);
    assert_eq!(shell.input(), &chars("jobs")[..]);
    let acts = shell.handle_key_event(KeyboardEvent::Down, 0, &[]);
    assert_eq!(shell.input(), &chars("clear")[..]);
    assert!(matches!(acts[0], ShellAction::CursorRightmost));
    assert!(matches!(acts.last(), Some(ShellAction::CursorLeftmost)));
}

#[test]
fn cursor_moves_stay_within_the_line() {
    let mut shell = ShellState::new();
    type_line(&mut shell, "ab");
    assert!(shell.handle_key_event(KeyboardEvent::Left, 0, &[]).is_empty());
    assert!(matches!(shell.handle_key_event(KeyboardEvent::Left, 1, &[])[..], [ShellAction::CursorLeft]));
    assert!(shell.handle_key_event(KeyboardEvent::Right, 2, &[]).is_empty());
    assert!(matches!(shell.handle_key_event(KeyboardEvent::Right, 1, &[])[..], [ShellAction::CursorRight]));
}

#[test]
fn line_parsing_helpers() {
    assert_eq!(internal_command_of(&chars("  jobs ")), Some(InternalCommand::Jobs));
    assert_eq!(internal_command_of(&chars("fg %1")), Some(InternalCommand::Fg));
    assert_eq!(internal_command_of(&chars("ls")), None);
    assert_eq!(internal_command_of(&chars("")), None);
    assert_eq!(job_argument_of(&chars("fg %12")), Some(12));
    assert_eq!(job_argument_of(&chars("fg 12")), None);
    assert_eq!(job_argument_of(&chars("fg %1 %2")), None);
    assert_eq!(job_argument_of(&chars("bg %+3")), Some(3));
}

#[test]
fn utf8_widths() {
    for c in ['a', 'é', '€', '😀'] {
        assert_eq!(utf8_width(c), c.len_utf8());
    }
    assert_eq!(Message::Interrupted.text(), "^C\n");
    assert_eq!(Message::NoJobs.text(), "No running or stopped jobs.\n");
}

#[test]
fn offsets_count_bytes_of_the_line() {
    let mut shell = ShellState::new();
    shell.handle_key_event(KeyboardEvent::Other('é'), 0, &[]);
    shell.handle_key_event(KeyboardEvent::Other('x'), 2, &[]);
    shell.handle_key_event(KeyboardEvent::Other('a'), 0, &[]);
    assert_eq!(shell.input(), &chars("aéx")[..]);
    assert!(matches!(shell.handle_key_event(KeyboardEvent::Right, 3, &[])[..], [ShellAction::CursorRight]));
    assert!(shell.handle_key_event(KeyboardEvent::Right, 4, &[]).is_empty());
    shell.handle_key_event(KeyboardEvent::Backspace, 1, &[]);
    assert_eq!(shell.input(), &chars("ax")[..]);
    let acts = shell.handle_key_event(KeyboardEvent::CtrlC, 2, &[]);
    assert_eq!(acts.len(), 1 + 2 + 2);
}

#[test]
fn clearing_a_line_removes_one_cell_per_byte() {
    let mut shell = ShellState::new();
    shell.handle_key_event(KeyboardEvent::Other('€'), 0, &[]);
    let acts = shell.handle_key_event(KeyboardEvent::CtrlC, 3, &[]);
    assert!(matches!(acts[0], ShellAction::CursorRightmost));
    assert!(acts[1..4].iter().all(|a| matches!(a, ShellAction::Pop(false))));
    assert!(matches!(acts[4], ShellAction::PushMessage(Message::Interrupted)));
}

#[test]
fn character_boundaries_of_the_encoding() {
    let line = chars("aé");
    assert_eq!(char_index_at(&line, 0), Some(0));
    assert_eq!(char_index_at(&line, 1), Some(1));
    assert_eq!(char_index_at(&line, 2), None);
    assert_eq!(char_index_at(&line, 3), Some(2));
    assert_eq!(char_index_at(&line, 4), None);
    assert_eq!(char_index_after(&line, 0), Some(1));
    assert_eq!(char_index_after(&line, 1), None);
    assert!(encoding_longer_than(&line, 2));
    assert!(!encoding_longer_than(&line, 3));
}

use terminal_async::history::History;
use terminal_async::line_state::{KeyCode, LineState, TerminalEvent};
use terminal_async::pause_buffer::PauseBuffer;
use terminal_async::readline::{
    flush_internal, process_event, process_line_control_signal, InternalControlFlow,
    LineControlSignal, ReadlineError, ReadlineEvent,
};
use terminal_async::terminal::{RawTerminal, TermOp};

fn key(c: char) -> TerminalEvent {
    TerminalEvent::Key { code: KeyCode::Char(c), ctrl: false, alt: false }
}

fn ctrl(c: char) -> TerminalEvent {
    TerminalEvent::Key { code: KeyCode::Char(c), ctrl: true, alt: false }
}

fn special(code: KeyCode) -> TerminalEvent {
    TerminalEvent::Key { code, ctrl: false, alt: false }
}

fn get_input_vec() -> Vec<Result<TerminalEvent, std::io::Error>> {
    vec![Ok(key('a')), Ok(key('b')), Ok(key('c')), Ok(special(KeyCode::Enter))]
}

/// The text that the queued commands put on screen, without cursor moves.
fn text_of(term: &RawTerminal) -> String {
    let mut s = String::new();
    for op in term.ops.iter() {
        match op {
            TermOp::Print(cs) => s.extend(cs.iter()),
            TermOp::Write(b) => s.push_str(&String::from_utf8_lossy(b)),
            TermOp::NewLine => s.push('\n'),
            _ => {}
        }
    }
    s
}

fn line_of(ls: &LineState) -> String {
    ls.line.iter().collect()
}

struct Fixture {
    line_state: LineState,
    term: RawTerminal,
    history: History,
    pause_buffer: PauseBuffer,
    paused: bool,
}

fn fixture() -> Fixture {
    let line_state = LineState::new("> ".to_string(), (80, 24));
    let mut term = RawTerminal::new();
    line_state.render(&mut term);
    Fixture {
        line_state,
        term,
        history: History::new(),
        pause_buffer: PauseBuffer::new(),
        paused: false,
    }
}

impl Fixture {
    fn event(&mut self, ev: TerminalEvent) -> InternalControlFlow<ReadlineEvent, ReadlineError> {
        process_event(Some(Ok(ev)), &mut self.line_state, &mut self.term, &mut self.history)
    }

    fn signal(&mut self, sig: LineControlSignal) -> InternalControlFlow<(), ReadlineError> {
        process_line_control_signal(
            Some(sig),
            &mut self.pause_buffer,
            &self.line_state,
            &mut self.term,
            &mut self.paused,
        )
    }

    /// Feeds events until one returns, as `readline` does.
    fn readline(
        &mut self,
        input: Vec<Result<TerminalEvent, std::io::Error>>,
    ) -> Result<ReadlineEvent, ReadlineError> {
        for item in input {
            match process_event(
                Some(item),
                &mut self.line_state,
                &mut self.term,
                &mut self.history,
            ) {
                InternalControlFlow::ReturnOk(e) => return Ok(e),
                InternalControlFlow::ReturnError(e) => return Err(e),
                InternalControlFlow::Continue => {}
            }
        }
        Err(ReadlineError::Closed)
    }
}

#[test]
fn test_readline_internal_process_event_and_terminal_output() {
    let mut f = fixture();
    let vec = get_input_vec();
    let mut iter = vec.into_iter();
    let Some(Ok(event)) = iter.next() else {
        panic!();
    };
    let control_flow = f.event(event);
    assert!(matches!(control_flow, InternalControlFlow::Continue));
    assert_eq!(line_of(&f.line_state), "a");
    assert!(text_of(&f.term).contains("> a"));
}

#[test]
fn test_readline() {
    let mut f = fixture();
    let result = f.readline(get_input_vec());
    assert!(matches!(result, Ok(ReadlineEvent::Line(_))));
    assert_eq!(result.unwrap(), ReadlineEvent::Line("abc".to_string()));
    assert_eq!(line_of(&f.line_state), "");
    assert!(text_of(&f.term).contains("> abc"));
}

#[test]
fn test_pause_resume() {
    let mut f = fixture();
    f.signal(LineControlSignal::Pause);
    assert!(f.paused);
    f.signal(LineControlSignal::Resume);
    assert!(!f.paused);
}

#[test]
fn test_pause_resume_with_output() {
    let mut f = fixture();
    f.signal(LineControlSignal::Pause);
    assert!(f.paused);
    f.signal(LineControlSignal::Line("abc".into()));
    assert_eq!(f.pause_buffer.len(), 1);
    assert_eq!(String::from_utf8_lossy(f.pause_buffer.get(0)), "abc".to_string());
    assert!(!text_of(&f.term).contains("abc"));
    f.signal(LineControlSignal::Resume);
    assert!(!f.paused);
    assert_eq!(f.pause_buffer.len(), 0);
    let text = text_of(&f.term);
    let at = text.find("abc").unwrap();
    assert!(text[at..].contains("\n> "));
}

#[test]
fn ctrl_c_interrupts_and_keeps_the_line_on_screen() {
    let mut f = fixture();
    let r = f.readline(vec![Ok(key('x')), Ok(ctrl('c'))]);
    assert_eq!(r.unwrap(), ReadlineEvent::Interrupted);
    assert_eq!(line_of(&f.line_state), "");
    assert!(text_of(&f.term).contains("> x\n"));
    assert_eq!(f.history.entries.len(), 0);
}

#[test]
fn ctrl_c_without_echo_prints_no_line() {
    let mut f = fixture();
    f.line_state.set_print_line_on(true, false);
    let r = f.readline(vec![Ok(key('x')), Ok(ctrl('c'))]);
    assert_eq!(r.unwrap(), ReadlineEvent::Interrupted);
    assert!(!text_of(&f.term).contains("> x\n"));
}

#[test]
fn enter_without_echo_prints_no_line() {
    let mut f = fixture();
    f.line_state.set_print_line_on(false, true);
    let r = f.readline(vec![Ok(key('q')), Ok(special(KeyCode::Enter))]);
    assert_eq!(r.unwrap(), ReadlineEvent::Line("q".to_string()));
    assert!(!text_of(&f.term).contains("> q\n"));
}

#[test]
fn ctrl_d_on_empty_line_is_eof() {
    let mut f = fixture();
    let r = f.readline(vec![Ok(ctrl('d'))]);
    assert_eq!(r.unwrap(), ReadlineEvent::Eof);
}

#[test]
fn ctrl_d_on_a_line_deletes_at_the_caret() {
    let mut f = fixture();
    f.event(key('a'));
    f.event(key('b'));
    f.event(special(KeyCode::Home));
    let r = f.event(ctrl('d'));
    assert!(matches!(r, InternalControlFlow::Continue));
    assert_eq!(line_of(&f.line_state), "b");
    assert_eq!(f.line_state.cursor_pos, 0);
}

#[test]
fn stream_error_is_returned() {
    let mut f = fixture();
    let err = std::io::Error::new(std::io::ErrorKind::Other, "boom");
    let r = process_event(Some(Err(err)), &mut f.line_state, &mut f.term, &mut f.history);
    match r {
        InternalControlFlow::ReturnError(ReadlineError::IO(e)) => {
            assert_eq!(e.kind(), std::io::ErrorKind::Other)
        }
        _ => panic!("expected an I/O error"),
    }
}

#[test]
fn end_of_stream_continues() {
    let mut f = fixture();
    let before = f.term.ops.len();
    let r = process_event(None, &mut f.line_state, &mut f.term, &mut f.history);
    assert!(matches!(r, InternalControlFlow::Continue));
    assert_eq!(f.term.ops.len(), before);
}

#[test]
fn closed_channel_ends_the_monitor() {
    let mut f = fixture();
    let r = process_line_control_signal(
        None,
        &mut f.pause_buffer,
        &f.line_state,
        &mut f.term,
        &mut f.paused,
    );
    assert!(matches!(r, InternalControlFlow::ReturnError(ReadlineError::Closed)));
}

#[test]
fn history_recall_up_and_down() {
    let mut f = fixture();
    let r = f.readline(vec![
        Ok(key('o')),
        Ok(key('n')),
        Ok(key('e')),
        Ok(special(KeyCode::Enter)),
    ]);
    assert_eq!(r.unwrap(), ReadlineEvent::Line("one".to_string()));
    let r = f.readline(vec![
        Ok(key('t')),
        Ok(key('w')),
        Ok(key('o')),
        Ok(special(KeyCode::Enter)),
    ]);
    assert_eq!(r.unwrap(), ReadlineEvent::Line("two".to_string()));
    f.event(special(KeyCode::Up));
    f.event(special(KeyCode::Up));
    assert_eq!(line_of(&f.line_state), "one");
    assert_eq!(f.line_state.cursor_pos, 3);
    f.event(special(KeyCode::Down));
    assert_eq!(line_of(&f.line_state), "two");
    f.event(special(KeyCode::Down));
    assert_eq!(line_of(&f.line_state), "");
}

#[test]
fn up_past_the_oldest_keeps_the_line() {
    let mut f = fixture();
    f.readline(vec![Ok(key('z')), Ok(special(KeyCode::Enter))]).unwrap();
    f.event(special(KeyCode::Up));
    f.event(special(KeyCode::Up));
    assert_eq!(line_of(&f.line_state), "z");
}

#[test]
fn editing_keys_move_and_delete() {
    let mut f = fixture();
    for c in ['a', 'b', 'c'] {
        f.event(key(c));
    }
    f.event(special(KeyCode::Left));
    f.event(special(KeyCode::Backspace));
    assert_eq!(line_of(&f.line_state), "ac");
    assert_eq!(f.line_state.cursor_pos, 1);
    f.event(special(KeyCode::Delete));
    assert_eq!(line_of(&f.line_state), "a");
    f.event(ctrl('a'));
    assert_eq!(f.line_state.cursor_pos, 0);
    f.event(special(KeyCode::Left));
    assert_eq!(f.line_state.cursor_pos, 0);
    f.event(key('x'));
    assert_eq!(line_of(&f.line_state), "xa");
    f.event(ctrl('e'));
    assert_eq!(f.line_state.cursor_pos, 2);
    f.event(special(KeyCode::Right));
    assert_eq!(f.line_state.cursor_pos, 2);
}

#[test]
fn control_characters_are_not_inserted() {
    let mut f = fixture();
    f.event(key('\u{1b}'));
    f.event(key('\u{7f}'));
    f.event(TerminalEvent::Key { code: KeyCode::Char('b'), ctrl: false, alt: true });
    assert_eq!(line_of(&f.line_state), "");
}

#[test]
fn resize_redraws_and_reports() {
    let mut f = fixture();
    let r = f.event(TerminalEvent::Resize(40, 10));
    assert!(matches!(r, InternalControlFlow::ReturnOk(ReadlineEvent::Resized)));
    assert_eq!(f.line_state.term_cols, 40);
    assert_eq!(f.line_state.term_rows, 10);
}

#[test]
fn caret_position_wraps_at_the_width() {
    let mut ls = LineState::new("> ".to_string(), (4, 10));
    let mut term = RawTerminal::new();
    let mut history = History::new();
    for c in ['a', 'b', 'c', 'd', 'e'] {
        ls.handle_event(key(c), &mut term, &mut history);
    }
    ls.handle_event(special(KeyCode::Home), &mut term, &mut history);
    let n = term.ops.len();
    // "> abcde" is 7 wide: the end is on row 1, the caret at offset 2 on row 0.
    assert_eq!(term.ops[n - 3], TermOp::Print("> abcde".chars().collect()));
    assert_eq!(term.ops[n - 2], TermOp::MoveUp(1));
    assert_eq!(term.ops[n - 1], TermOp::MoveToColumn(2));
}

#[test]
fn ctrl_l_clears_the_screen() {
    let mut f = fixture();
    f.event(ctrl('l'));
    let n = f.term.ops.len();
    assert_eq!(f.term.ops[n - 5], TermOp::ClearAll);
    assert_eq!(f.term.ops[n - 4], TermOp::MoveHome);
}

#[test]
fn output_while_running_stays_above_the_prompt() {
    let mut f = fixture();
    f.event(key('h'));
    f.signal(LineControlSignal::Line(b"one\n".to_vec()));
    f.event(key('i'));
    f.signal(LineControlSignal::Line(b"two".to_vec()));
    let text = text_of(&f.term);
    assert!(text.ends_with("two\n> hi"));
    let n = f.term.ops.len();
    assert_eq!(f.term.ops[n - 3], TermOp::Print("> hi".chars().collect()));
}

#[test]
fn paused_output_is_counted_and_held() {
    let mut f = fixture();
    f.signal(LineControlSignal::Pause);
    let before = f.term.ops.len();
    f.signal(LineControlSignal::Line(b"1".to_vec()));
    f.signal(LineControlSignal::Flush);
    f.signal(LineControlSignal::Line(b"2".to_vec()));
    f.signal(LineControlSignal::Line(b"3".to_vec()));
    assert_eq!(f.pause_buffer.len(), 3);
    assert_eq!(f.term.ops.len(), before);
    f.signal(LineControlSignal::Resume);
    let text = text_of(&f.term);
    let a = text.find('1').unwrap();
    let b = text.find('2').unwrap();
    let c = text.find('3').unwrap();
    assert!(a < b && b < c);
    assert_eq!(f.pause_buffer.len(), 0);
}

#[test]
fn pause_then_resume_only_redraws() {
    let mut f = fixture();
    let before = text_of(&f.term);
    f.signal(LineControlSignal::Pause);
    f.signal(LineControlSignal::Resume);
    assert_eq!(f.pause_buffer.len(), 0);
    assert!(!f.paused);
    assert_eq!(text_of(&f.term), format!("{}> ", before));
}

#[test]
fn flush_when_idle_only_redraws() {
    let mut f = fixture();
    let n = f.term.ops.len();
    flush_internal(&mut f.pause_buffer, false, &f.line_state, &mut f.term);
    assert_eq!(f.term.ops.len(), n + 6);
    assert_eq!(f.term.ops[n + 2], TermOp::ClearBelow);
}

#[test]
fn flush_while_paused_does_nothing() {
    let mut f = fixture();
    f.pause_buffer.push_back(b"held".to_vec());
    let n = f.term.ops.len();
    flush_internal(&mut f.pause_buffer, true, &f.line_state, &mut f.term);
    assert_eq!(f.term.ops.len(), n);
    assert_eq!(f.pause_buffer.len(), 1);
}

#[test]
fn output_without_newline_gets_one() {
    let mut f = fixture();
    f.signal(LineControlSignal::Line(b"abc".to_vec()));
    let n = f.term.ops.len();
    assert_eq!(f.term.ops[n - 5], TermOp::Write(b"abc".to_vec()));
    assert_eq!(f.term.ops[n - 4], TermOp::NewLine);
    f.signal(LineControlSignal::Line(b"def\n".to_vec()));
    let n = f.term.ops.len();
    assert_eq!(f.term.ops[n - 4], TermOp::Write(b"def\n".to_vec()));
    assert_eq!(f.term.ops[n - 3], TermOp::Print("> ".chars().collect()));
}

#[test]
fn update_prompt_redraws_with_the_new_prompt() {
    let mut f = fixture();
    f.event(key('k'));
    f.line_state.update_prompt("$ ", &mut f.term);
    assert!(text_of(&f.term).ends_with("$ k"));
}

#[test]
fn take_ops_empties_the_queue() {
    let mut f = fixture();
    let ops = f.term.take_ops();
    assert_eq!(ops.len(), 3);
    assert_eq!(f.term.ops.len(), 0);
}

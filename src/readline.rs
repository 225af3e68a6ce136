//! What the line editor hands its caller, the signals that background
//! writers send it, and the decisions of the task and the loop that serve
//! them.

use crate::history::{last_n, History};
use crate::line_state::{
    action_spec, handled, print_data_ops, prompt_at_bottom, redraw_ops,
    lemma_render_puts_prompt_at_bottom, EditAction, LineState, TerminalEvent,
};
use crate::pause_buffer::{PauseBuffer, Text};
use crate::terminal::{Op, RawTerminal};
use vstd::prelude::*;

verus! {

/// Declares std's `io::Error` so that an error of the input stream can be
/// carried to the caller unchanged; nothing is assumed of its contents.
#[verifier::external_type_specification]
#[verifier::external_body]
pub struct ExIoError(std::io::Error);

/// Error returned from reading a line.
#[derive(Debug)]
pub enum ReadlineError {
    /// An I/O error of the terminal or of the input stream.
    IO(std::io::Error),
    /// The line writers are gone, or the editor was shut down.
    Closed,
}

/// Outcome of one call that reads a line.
#[derive(Debug, PartialEq, Clone)]
pub enum ReadlineEvent {
    /// The user entered a line of text.
    Line(String),
    /// The user pressed Ctrl-D on an empty line.
    Eof,
    /// The user pressed Ctrl-C.
    Interrupted,
    /// The terminal was resized.
    Resized,
}

/// True when `e` is a submitted line whose text is `l`.
pub open spec fn is_line(e: Option<ReadlineEvent>, l: Seq<char>) -> bool {
    match e {
        Some(ReadlineEvent::Line(s)) => s@ == l,
        _ => false,
    }
}

/// Signals that background writers send to the task that owns the terminal.
#[derive(Debug, PartialEq, Clone)]
pub enum LineControlSignal {
    /// Output to print above the prompt.
    Line(Text),
    /// Print what was held back, unless paused.
    Flush,
    /// Hold output back from now on.
    Pause,
    /// Stop holding output back, and print what was held.
    Resume,
}

/// What a loop does after one step.
#[derive(Debug, PartialEq, Clone)]
pub enum InternalControlFlow<T, E> {
    ReturnOk(T),
    ReturnError(E),
    Continue,
}

/// The state that the monitor task changes: the paused flag, the held
/// output and the terminal.
pub struct MonitorView {
    pub paused: bool,
    pub buffer: Seq<Seq<u8>>,
    pub term: Seq<Op>,
}

/// What printing each held payload in turn queues.
pub open spec fn drain_ops(ls: LineState, buffer: Seq<Seq<u8>>) -> Seq<Op>
    decreases buffer.len(),
{
    if buffer.len() == 0 {
        Seq::empty()
    } else {
        print_data_ops(ls, buffer[0]) + drain_ops(ls, buffer.drop_first())
    }
}

/// A flush: unless paused, the held output is printed oldest first and the
/// prompt region drawn again.
pub open spec fn flushed(m: MonitorView, ls: LineState) -> MonitorView {
    if m.paused {
        m
    } else {
        MonitorView {
            paused: false,
            buffer: Seq::empty(),
            term: m.term + drain_ops(ls, m.buffer) + redraw_ops(ls, ls),
        }
    }
}

/// The effect of one signal on the monitor's state.
pub open spec fn monitor_step(m: MonitorView, ls: LineState, sig: LineControlSignal) -> MonitorView {
    match sig {
        LineControlSignal::Line(b) => if m.paused {
            MonitorView { paused: m.paused, buffer: m.buffer.push(b@), term: m.term }
        } else {
            MonitorView { paused: m.paused, buffer: m.buffer, term: m.term + print_data_ops(ls, b@) }
        },
        LineControlSignal::Flush => flushed(m, ls),
        LineControlSignal::Pause => MonitorView { paused: true, buffer: m.buffer, term: m.term },
        LineControlSignal::Resume => flushed(
            MonitorView { paused: false, buffer: m.buffer, term: m.term },
            ls,
        ),
    }
}

/// The effect of the signals in turn.
pub open spec fn monitor_run(m: MonitorView, ls: LineState, sigs: Seq<LineControlSignal>) -> MonitorView
    decreases sigs.len(),
{
    if sigs.len() == 0 {
        m
    } else {
        monitor_run(monitor_step(m, ls, sigs[0]), ls, sigs.drop_first())
    }
}

/// The payloads of the output signals, in order.
pub open spec fn payloads(sigs: Seq<LineControlSignal>) -> Seq<Seq<u8>>
    decreases sigs.len(),
{
    if sigs.len() == 0 {
        Seq::empty()
    } else {
        let rest = payloads(sigs.drop_first());
        match sigs[0] {
            LineControlSignal::Line(b) => seq![b@] + rest,
            _ => rest,
        }
    }
}

pub open spec fn monitor_view(paused: bool, buffer: PauseBuffer, term: RawTerminal) -> MonitorView {
    MonitorView { paused, buffer: buffer@, term: term@ }
}

/// Prints what was held back, oldest first, and draws the prompt region
/// again; does nothing while paused.
pub fn flush_internal(
    pause_buffer: &mut PauseBuffer,
    is_paused: bool,
    line_state: &LineState,
    term: &mut RawTerminal,
)
    requires
        line_state.wf(),
    ensures
        monitor_view(is_paused, *final(pause_buffer), *final(term)) == flushed(
            monitor_view(is_paused, *old(pause_buffer), *old(term)),
            *line_state,
        ),
        !is_paused ==> prompt_at_bottom(final(term)@, *line_state),
{
    if is_paused {
        return;
    }
    let ghost all = pause_buffer@;
    while pause_buffer.len() > 0
        invariant
            line_state.wf(),
            all == old(pause_buffer)@,
            old(term)@ + drain_ops(*line_state, all) == term@ + drain_ops(
                *line_state,
                pause_buffer@,
            ),
        decreases pause_buffer@.len(),
    {
        let ghost before = pause_buffer@;
        let ghost t0 = term@;
        let b = pause_buffer.pop_front();
        if let Some(text) = b {
            line_state.print_data(text, term);
            proof {
                assert(drain_ops(*line_state, before) == print_data_ops(*line_state, before[0])
                    + drain_ops(*line_state, pause_buffer@));
                assert(t0 + drain_ops(*line_state, before) =~= term@ + drain_ops(
                    *line_state,
                    pause_buffer@,
                ));
            }
        }
    }
    let ghost t1 = term@;
    line_state.clear_and_render(term);
    proof {
        assert(drain_ops(*line_state, pause_buffer@) == Seq::<Op>::empty());
        assert(t1 =~= old(term)@ + drain_ops(*line_state, all));
        assert(pause_buffer@ =~= Seq::<Seq<u8>>::empty());
    }
}

/// Serves one signal of the line channel; `None` means that every writer is
/// gone, which ends the task with [`ReadlineError::Closed`].
pub fn process_line_control_signal(
    maybe_line_control_signal: Option<LineControlSignal>,
    pause_buffer: &mut PauseBuffer,
    line_state: &LineState,
    term: &mut RawTerminal,
    is_paused: &mut bool,
) -> (r: InternalControlFlow<(), ReadlineError>)
    requires
        line_state.wf(),
    ensures
        match maybe_line_control_signal {
            None => {
                &&& r matches InternalControlFlow::ReturnError(ReadlineError::Closed)
                &&& *final(is_paused) == *old(is_paused)
                &&& *final(pause_buffer) == *old(pause_buffer)
                &&& final(term)@ == old(term)@
            },
            Some(sig) => {
                &&& r matches InternalControlFlow::Continue
                &&& monitor_view(*final(is_paused), *final(pause_buffer), *final(term))
                    == monitor_step(
                    monitor_view(*old(is_paused), *old(pause_buffer), *old(term)),
                    *line_state,
                    sig,
                )
            },
        },
        prompt_at_bottom(old(term)@, *line_state) ==> prompt_at_bottom(final(term)@, *line_state),
{
    match maybe_line_control_signal {
        Some(sig) => {
            match sig {
                LineControlSignal::Line(buf) => {
                    if *is_paused {
                        pause_buffer.push_back(buf);
                    } else {
                        line_state.print_data(buf, term);
                    }
                },
                LineControlSignal::Flush => {
                    flush_internal(pause_buffer, *is_paused, line_state, term);
                },
                LineControlSignal::Pause => {
                    *is_paused = true;
                },
                LineControlSignal::Resume => {
                    *is_paused = false;
                    flush_internal(pause_buffer, false, line_state, term);
                },
            }
            InternalControlFlow::Continue
        },
        None => InternalControlFlow::ReturnError(ReadlineError::Closed),
    }
}

/// While paused, output signals reach the held buffer, in order, and nothing
/// reaches the terminal, as long as no `Resume` comes.
pub proof fn lemma_paused_output_is_held(
    m: MonitorView,
    ls: LineState,
    sigs: Seq<LineControlSignal>,
)
    requires
        m.paused,
        forall|i: int| 0 <= i < sigs.len() ==> !(#[trigger] sigs[i] is Resume),
    ensures
        monitor_run(m, ls, sigs).paused,
        monitor_run(m, ls, sigs).term == m.term,
        monitor_run(m, ls, sigs).buffer == m.buffer + payloads(sigs),
        monitor_run(m, ls, sigs).buffer.len() == m.buffer.len() + payloads(sigs).len(),
    decreases sigs.len(),
{
    if sigs.len() == 0 {
        assert(m.buffer + payloads(sigs) =~= m.buffer);
    } else {
        let next = monitor_step(m, ls, sigs[0]);
        assert(!(sigs[0] is Resume));
        assert forall|i: int| 0 <= i < sigs.drop_first().len() implies !(
        #[trigger] sigs.drop_first()[i] is Resume) by {
            assert(sigs.drop_first()[i] == sigs[i + 1]);
        }
        lemma_paused_output_is_held(next, ls, sigs.drop_first());
        match sigs[0] {
            LineControlSignal::Line(b) => {
                assert(m.buffer.push(b@) + payloads(sigs.drop_first()) =~= m.buffer + payloads(
                    sigs,
                ));
            },
            _ => {},
        }
    }
}

/// `Resume` empties the held buffer, printing its payloads oldest first and
/// then the prompt region, which ends at the bottom of the terminal.
pub proof fn lemma_resume_drains_in_order(m: MonitorView, ls: LineState)
    ensures
        monitor_step(m, ls, LineControlSignal::Resume) == (MonitorView {
            paused: false,
            buffer: Seq::empty(),
            term: m.term + drain_ops(ls, m.buffer) + redraw_ops(ls, ls),
        }),
        prompt_at_bottom(monitor_step(m, ls, LineControlSignal::Resume).term, ls),
{
    lemma_render_puts_prompt_at_bottom(
        m.term,
        drain_ops(ls, m.buffer) + crate::line_state::erase_ops(ls),
        ls,
    );
    assert(m.term + (drain_ops(ls, m.buffer) + crate::line_state::erase_ops(ls))
        + crate::line_state::render_ops(ls) =~= m.term + drain_ops(ls, m.buffer) + redraw_ops(
        ls,
        ls,
    ));
}

/// `Pause` straight followed by `Resume`, with nothing held, leaves the
/// buffer empty and only draws the prompt region again.
pub proof fn lemma_pause_resume_is_redraw(m: MonitorView, ls: LineState)
    requires
        !m.paused,
        m.buffer.len() == 0,
    ensures
        monitor_run(m, ls, seq![LineControlSignal::Pause, LineControlSignal::Resume]) == (
        MonitorView { paused: false, buffer: m.buffer, term: m.term + redraw_ops(ls, ls) }),
{
    let sigs = seq![LineControlSignal::Pause, LineControlSignal::Resume];
    let m1 = monitor_step(m, ls, LineControlSignal::Pause);
    let m2 = monitor_step(m1, ls, LineControlSignal::Resume);
    assert(sigs.drop_first() =~= seq![LineControlSignal::Resume]);
    assert(sigs.drop_first().drop_first() =~= Seq::<LineControlSignal>::empty());
    assert(monitor_run(m2, ls, sigs.drop_first().drop_first()) == m2);
    assert(monitor_run(m1, ls, sigs.drop_first()) == m2);
    assert(m.buffer =~= Seq::<Seq<u8>>::empty());
    assert(drain_ops(ls, m.buffer) == Seq::<Op>::empty());
    assert(m.term + drain_ops(ls, m.buffer) =~= m.term);
}

/// `Flush` while not paused and with nothing held only draws the prompt
/// region again.
pub proof fn lemma_flush_when_idle_is_redraw(m: MonitorView, ls: LineState)
    requires
        !m.paused,
        m.buffer.len() == 0,
    ensures
        monitor_step(m, ls, LineControlSignal::Flush) == (MonitorView {
            paused: false,
            buffer: m.buffer,
            term: m.term + redraw_ops(ls, ls),
        }),
{
    assert(m.buffer =~= Seq::<Seq<u8>>::empty());
    assert(drain_ops(ls, m.buffer) == Seq::<Op>::empty());
    assert(m.term + drain_ops(ls, m.buffer) =~= m.term);
}

/// The event that a step of `readline` hands back, if it returns one.
pub open spec fn returned(f: InternalControlFlow<ReadlineEvent, ReadlineError>) -> Option<ReadlineEvent> {
    match f {
        InternalControlFlow::ReturnOk(e) => Some(e),
        _ => None,
    }
}

/// Serves one item of the input stream: an event goes to the editor, and a
/// submitted line is also appended to the history; an error of the stream
/// is returned; the end of the stream is passed over.
pub fn process_event(
    maybe_result_event: Option<Result<TerminalEvent, std::io::Error>>,
    line_state: &mut LineState,
    term: &mut RawTerminal,
    history: &mut History,
) -> (r: InternalControlFlow<ReadlineEvent, ReadlineError>)
    requires
        old(line_state).wf(),
        old(history).wf(),
    ensures
        final(line_state).wf(),
        final(history).wf(),
        match maybe_result_event {
            None => {
                &&& r matches InternalControlFlow::Continue
                &&& *final(line_state) == *old(line_state)
                &&& *final(history) == *old(history)
                &&& final(term)@ == old(term)@
            },
            Some(Err(e)) => {
                &&& r matches InternalControlFlow::ReturnError(ReadlineError::IO(x)) && x == e
                &&& *final(line_state) == *old(line_state)
                &&& *final(history) == *old(history)
                &&& final(term)@ == old(term)@
            },
            Some(Ok(ev)) => {
                &&& !(r is ReturnError)
                &&& action_spec(ev) is Enter ==> {
                    &&& handled(
                        *old(line_state),
                        *final(line_state),
                        *old(history),
                        *old(history),
                        old(term)@,
                        final(term)@,
                        EditAction::Enter,
                        returned(r),
                    )
                    &&& final(history)@ == last_n(
                        old(history)@.push(old(line_state).line@),
                        old(history).max_size as nat,
                    )
                    &&& final(history).max_size == old(history).max_size
                    &&& final(history).cursor == 0
                }
                &&& !(action_spec(ev) is Enter) ==> handled(
                    *old(line_state),
                    *final(line_state),
                    *old(history),
                    *final(history),
                    old(term)@,
                    final(term)@,
                    action_spec(ev),
                    returned(r),
                )
            },
        },
        final(term)@ != old(term)@ ==> prompt_at_bottom(final(term)@, *final(line_state)),
{
    match maybe_result_event {
        Some(Ok(ev)) => {
            match line_state.handle_event(ev, term, history) {
                Some(readline_event) => {
                    if let ReadlineEvent::Line(s) = &readline_event {
                        history.append(s.clone());
                    }
                    InternalControlFlow::ReturnOk(readline_event)
                },
                None => InternalControlFlow::Continue,
            }
        },
        Some(Err(e)) => InternalControlFlow::ReturnError(ReadlineError::IO(e)),
        None => InternalControlFlow::Continue,
    }
}

} // verus!

//! The prompt and the line being edited, how they are drawn, and how one
//! input event changes them.

use crate::history::History;
use crate::pause_buffer::Text;
use crate::readline::{is_line, ReadlineEvent};
use crate::terminal::{Op, RawTerminal, TermOp};
use vstd::arithmetic::div_mod::lemma_div_is_ordered;
use vstd::prelude::*;

verus! {

/// The editor's model: prompt, line, caret and terminal size.
///
/// `cursor_pos` counts characters of `line`; each character takes one
/// column, and the prompt region soft-wraps at `term_cols`.
pub struct LineState {
    pub prompt: Vec<char>,
    pub line: Vec<char>,
    pub cursor_pos: usize,
    pub term_cols: u16,
    pub term_rows: u16,
    pub should_print_line_on_enter: bool,
    pub should_print_line_on_control_c: bool,
}

/// Columns per row; a reported width of zero counts as one.
pub open spec fn cols_of(ls: LineState) -> nat {
    if ls.term_cols == 0 {
        1
    } else {
        ls.term_cols as nat
    }
}

/// Offset of the caret from the start of the prompt region.
pub open spec fn caret_of(ls: LineState) -> nat {
    ls.prompt@.len() + ls.cursor_pos as nat
}

/// Offset of the end of the line from the start of the prompt region.
pub open spec fn end_of(ls: LineState) -> nat {
    ls.prompt@.len() + ls.line@.len()
}

/// Draws prompt and line from the cursor, then brings the cursor back from
/// the end of the line to the caret.
pub open spec fn render_ops(ls: LineState) -> Seq<Op> {
    let c = cols_of(ls);
    seq![
        Op::Print(ls.prompt@ + ls.line@),
        Op::MoveUp((end_of(ls) / c - caret_of(ls) / c) as nat),
        Op::MoveToColumn(caret_of(ls) % c),
    ]
}

/// From the caret, goes back to the start of the prompt region and clears
/// everything from there down.
pub open spec fn erase_ops(ls: LineState) -> Seq<Op> {
    seq![Op::MoveUp(caret_of(ls) / cols_of(ls)), Op::MoveToColumn(0), Op::ClearBelow]
}

/// Leaves prompt and line on the screen as a finished line.
pub open spec fn echo_ops(ls: LineState) -> Seq<Op> {
    seq![Op::Print(ls.prompt@ + ls.line@), Op::NewLine]
}

/// Background output written verbatim, with a new line after it unless it
/// ends with a line feed.
pub open spec fn data_ops(data: Seq<u8>) -> Seq<Op> {
    if data.len() > 0 && data.last() == 10u8 {
        seq![Op::Write(data)]
    } else {
        seq![Op::Write(data), Op::NewLine]
    }
}

/// Erases the region drawn for `from` and draws `to` in its place.
pub open spec fn redraw_ops(from: LineState, to: LineState) -> Seq<Op> {
    erase_ops(from) + render_ops(to)
}

/// What printing `data` above the prompt region queues.
pub open spec fn print_data_ops(ls: LineState, data: Seq<u8>) -> Seq<Op> {
    erase_ops(ls) + data_ops(data) + render_ops(ls)
}

/// The last thing on the terminal is the prompt region of `ls`: its prompt
/// once, followed by its line, with the cursor at the caret.
pub open spec fn prompt_at_bottom(term: Seq<Op>, ls: LineState) -> bool {
    let r = render_ops(ls);
    &&& term.len() >= r.len()
    &&& term.subrange(term.len() - r.len(), term.len() as int) == r
}

/// Appending a redraw of `ls` puts its prompt region at the bottom.
pub proof fn lemma_render_puts_prompt_at_bottom(term: Seq<Op>, pre: Seq<Op>, ls: LineState)
    ensures
        prompt_at_bottom(term + pre + render_ops(ls), ls),
{
    let t = term + pre + render_ops(ls);
    assert(t.subrange(t.len() - 3, t.len() as int) =~= render_ops(ls));
}

/// Printable characters: no control characters of either C0 or C1.
pub open spec fn is_printable(c: char) -> bool {
    &&& c as u32 >= 0x20
    &&& !(0x7f <= c as u32 && c as u32 <= 0x9f)
}

/// The characters of a string.
pub fn chars_of(s: &str) -> (r: Vec<char>)
    ensures
        r@ == s@,
{
    let n = s.unicode_len();
    let mut r: Vec<char> = Vec::new();
    let mut i: usize = 0;
    while i < n
        invariant
            n == s@.len(),
            i <= n,
            r@ == s@.subrange(0, i as int),
        decreases n - i,
    {
        r.push(s.get_char(i));
        i = i + 1;
        proof {
            assert(r@ =~= s@.subrange(0, i as int));
        }
    }
    proof {
        assert(r@ =~= s@);
    }
    r
}

/// Relies on String::push: appends one character at the end.
#[verifier::external_body]
fn push_char(s: &mut String, c: char)
    ensures
        final(s)@ == old(s)@.push(c),
{
    s.push(c)
}

/// The string made of the given characters.
pub fn string_of(v: &Vec<char>) -> (r: String)
    ensures
        r@ == v@,
{
    let mut r = String::new();
    let mut i: usize = 0;
    while i < v.len()
        invariant
            i <= v@.len(),
            r@ == v@.subrange(0, i as int),
        decreases v@.len() - i,
    {
        push_char(&mut r, v[i]);
        i = i + 1;
        proof {
            assert(r@ =~= v@.subrange(0, i as int));
        }
    }
    proof {
        assert(r@ =~= v@);
    }
    r
}

fn joined(a: &Vec<char>, b: &Vec<char>) -> (r: Vec<char>)
    ensures
        r@ == a@ + b@,
{
    let mut r: Vec<char> = Vec::new();
    let mut i: usize = 0;
    while i < a.len()
        invariant
            i <= a@.len(),
            r@ == a@.subrange(0, i as int),
        decreases a@.len() - i,
    {
        r.push(a[i]);
        i = i + 1;
        proof {
            assert(r@ =~= a@.subrange(0, i as int));
        }
    }
    let mut j: usize = 0;
    while j < b.len()
        invariant
            j <= b@.len(),
            r@ == a@ + b@.subrange(0, j as int),
        decreases b@.len() - j,
    {
        r.push(b[j]);
        j = j + 1;
        proof {
            assert(r@ =~= a@ + b@.subrange(0, j as int));
        }
    }
    proof {
        assert(r@ =~= a@ + b@);
    }
    r
}

impl LineState {
    pub open spec fn wf(&self) -> bool {
        &&& self.cursor_pos <= self.line@.len()
        &&& self.prompt@.len() + self.line@.len() < usize::MAX
    }

    /// `other` has the line `line` with the caret at `cursor`, and all else
    /// as in `self`.
    pub open spec fn edited_to(&self, other: LineState, line: Seq<char>, cursor: nat) -> bool {
        &&& other.prompt@ == self.prompt@
        &&& other.line@ == line
        &&& other.cursor_pos == cursor
        &&& other.term_cols == self.term_cols
        &&& other.term_rows == self.term_rows
        &&& other.should_print_line_on_enter == self.should_print_line_on_enter
        &&& other.should_print_line_on_control_c == self.should_print_line_on_control_c
    }

    pub fn new(prompt: String, terminal_size: (u16, u16)) -> (r: LineState)
        requires
            prompt@.len() < usize::MAX,
        ensures
            r.wf(),
            r.prompt@ == prompt@,
            r.line@ == Seq::<char>::empty(),
            r.cursor_pos == 0,
            r.term_cols == terminal_size.0,
            r.term_rows == terminal_size.1,
            r.should_print_line_on_enter,
            r.should_print_line_on_control_c,
    {
        LineState {
            prompt: chars_of(prompt.as_str()),
            line: Vec::new(),
            cursor_pos: 0,
            term_cols: terminal_size.0,
            term_rows: terminal_size.1,
            should_print_line_on_enter: true,
            should_print_line_on_control_c: true,
        }
    }
}

impl LineState {
    fn cols(&self) -> (r: usize)
        ensures
            r as nat == cols_of(*self),
    {
        if self.term_cols == 0 {
            1
        } else {
            self.term_cols as usize
        }
    }

    /// Writes prompt and line, and puts the cursor at the caret.
    pub fn render(&self, term: &mut RawTerminal)
        requires
            self.wf(),
        ensures
            final(term)@ == old(term)@ + render_ops(*self),
    {
        let c = self.cols();
        let caret = self.prompt.len() + self.cursor_pos;
        let end = self.prompt.len() + self.line.len();
        proof {
            lemma_div_is_ordered(caret as int, end as int, c as int);
        }
        term.queue(TermOp::Print(joined(&self.prompt, &self.line)));
        term.queue(TermOp::MoveUp(end / c - caret / c));
        term.queue(TermOp::MoveToColumn(caret % c));
        proof {
            assert(final(term)@ =~= old(term)@ + render_ops(*self));
        }
    }

    /// Clears the prompt region, leaving the cursor where it started.
    fn erase(&self, term: &mut RawTerminal)
        requires
            self.wf(),
        ensures
            final(term)@ == old(term)@ + erase_ops(*self),
    {
        let c = self.cols();
        let caret = self.prompt.len() + self.cursor_pos;
        term.queue(TermOp::MoveUp(caret / c));
        term.queue(TermOp::MoveToColumn(0));
        term.queue(TermOp::ClearBelow);
        proof {
            assert(final(term)@ =~= old(term)@ + erase_ops(*self));
        }
    }

    /// Erases the prompt region and draws it again.
    pub fn clear_and_render(&self, term: &mut RawTerminal)
        requires
            self.wf(),
        ensures
            final(term)@ == old(term)@ + redraw_ops(*self, *self),
            prompt_at_bottom(final(term)@, *self),
    {
        self.erase(term);
        self.render(term);
        proof {
            assert(final(term)@ =~= old(term)@ + redraw_ops(*self, *self));
            lemma_render_puts_prompt_at_bottom(old(term)@, erase_ops(*self), *self);
            assert(old(term)@ + erase_ops(*self) + render_ops(*self) =~= final(term)@);
        }
    }

    /// Prints background output above the prompt region, which is drawn
    /// again below it.
    pub fn print_data(&self, data: Text, term: &mut RawTerminal)
        requires
            self.wf(),
        ensures
            final(term)@ == old(term)@ + print_data_ops(*self, data@),
            prompt_at_bottom(final(term)@, *self),
    {
        let ghost d = data@;
        self.erase(term);
        let n = data.len();
        let ends_with_newline = n > 0 && data[n - 1] == 10u8;
        term.queue(TermOp::Write(data));
        if !ends_with_newline {
            term.queue(TermOp::NewLine);
        }
        self.render(term);
        proof {
            assert(final(term)@ =~= old(term)@ + print_data_ops(*self, d));
            lemma_render_puts_prompt_at_bottom(old(term)@, erase_ops(*self) + data_ops(d), *self);
            assert(old(term)@ + (erase_ops(*self) + data_ops(d)) + render_ops(*self) =~= final(term)@);
        }
    }

    /// Replaces the prompt and draws the region again.
    pub fn update_prompt(&mut self, prompt: &str, term: &mut RawTerminal)
        requires
            old(self).wf(),
            prompt@.len() + old(self).line@.len() < usize::MAX,
        ensures
            final(self).wf(),
            final(self).prompt@ == prompt@,
            final(self).line@ == old(self).line@,
            final(self).cursor_pos == old(self).cursor_pos,
            final(self).term_cols == old(self).term_cols,
            final(self).term_rows == old(self).term_rows,
            final(self).should_print_line_on_enter == old(self).should_print_line_on_enter,
            final(self).should_print_line_on_control_c == old(self).should_print_line_on_control_c,
            final(term)@ == old(term)@ + redraw_ops(*old(self), *final(self)),
            prompt_at_bottom(final(term)@, *final(self)),
    {
        self.erase(term);
        self.prompt = chars_of(prompt);
        self.render(term);
        proof {
            assert(final(term)@ =~= old(term)@ + redraw_ops(*old(self), *final(self)));
            lemma_render_puts_prompt_at_bottom(old(term)@, erase_ops(*old(self)), *final(self));
            assert(old(term)@ + erase_ops(*old(self)) + render_ops(*final(self)) =~= final(term)@);
        }
    }
}

/// A key as the editor reads it.
#[derive(Debug, Clone, Copy, PartialEq, Eq)]
pub enum KeyCode {
    Char(char),
    Left,
    Right,
    Up,
    Down,
    Home,
    End,
    Backspace,
    Delete,
    Enter,
    Other,
}

/// One event of the input stream.
#[derive(Debug, Clone, Copy, PartialEq, Eq)]
pub enum TerminalEvent {
    /// A key press, with the Control and Alt modifiers.
    Key { code: KeyCode, ctrl: bool, alt: bool },
    /// The terminal now has the given columns and rows.
    Resize(u16, u16),
    /// Anything else (focus, mouse, paste).
    Other,
}

/// What an event asks of the editor.
#[derive(Debug, Clone, Copy, PartialEq, Eq)]
pub enum EditAction {
    Insert(char),
    Backspace,
    Delete,
    Left,
    Right,
    Home,
    End,
    Up,
    Down,
    Enter,
    Interrupt,
    EofOrDelete,
    ClearScreen,
    Resize(u16, u16),
    Ignore,
}

/// The editor's table of events.
pub open spec fn action_spec(ev: TerminalEvent) -> EditAction {
    match ev {
        TerminalEvent::Key { code, ctrl, alt } => match code {
            KeyCode::Char(c) => if !ctrl && !alt {
                if is_printable(c) {
                    EditAction::Insert(c)
                } else {
                    EditAction::Ignore
                }
            } else if ctrl && !alt {
                if c == 'c' {
                    EditAction::Interrupt
                } else if c == 'd' {
                    EditAction::EofOrDelete
                } else if c == 'l' {
                    EditAction::ClearScreen
                } else if c == 'a' {
                    EditAction::Home
                } else if c == 'e' {
                    EditAction::End
                } else {
                    EditAction::Ignore
                }
            } else {
                EditAction::Ignore
            },
            KeyCode::Left => EditAction::Left,
            KeyCode::Right => EditAction::Right,
            KeyCode::Up => EditAction::Up,
            KeyCode::Down => EditAction::Down,
            KeyCode::Home => EditAction::Home,
            KeyCode::End => EditAction::End,
            KeyCode::Backspace => EditAction::Backspace,
            KeyCode::Delete => EditAction::Delete,
            KeyCode::Enter => EditAction::Enter,
            KeyCode::Other => EditAction::Ignore,
        },
        TerminalEvent::Resize(cols, rows) => EditAction::Resize(cols, rows),
        TerminalEvent::Other => EditAction::Ignore,
    }
}

/// Reads what an event asks of the editor.
pub fn action_of(ev: TerminalEvent) -> (r: EditAction)
    ensures
        r == action_spec(ev),
{
    match ev {
        TerminalEvent::Key { code, ctrl, alt } => match code {
            KeyCode::Char(c) => if !ctrl && !alt {
                let u = c as u32;
                if u >= 0x20 && !(0x7f <= u && u <= 0x9f) {
                    EditAction::Insert(c)
                } else {
                    EditAction::Ignore
                }
            } else if ctrl && !alt {
                if c == 'c' {
                    EditAction::Interrupt
                } else if c == 'd' {
                    EditAction::EofOrDelete
                } else if c == 'l' {
                    EditAction::ClearScreen
                } else if c == 'a' {
                    EditAction::Home
                } else if c == 'e' {
                    EditAction::End
                } else {
                    EditAction::Ignore
                }
            } else {
                EditAction::Ignore
            },
            KeyCode::Left => EditAction::Left,
            KeyCode::Right => EditAction::Right,
            KeyCode::Up => EditAction::Up,
            KeyCode::Down => EditAction::Down,
            KeyCode::Home => EditAction::Home,
            KeyCode::End => EditAction::End,
            KeyCode::Backspace => EditAction::Backspace,
            KeyCode::Delete => EditAction::Delete,
            KeyCode::Enter => EditAction::Enter,
            KeyCode::Other => EditAction::Ignore,
        },
        TerminalEvent::Resize(cols, rows) => EditAction::Resize(cols, rows),
        TerminalEvent::Other => EditAction::Ignore,
    }
}

/// A line of these characters fits beside the prompt of `ls`.
pub open spec fn fits(ls: LineState, l: Seq<char>) -> bool {
    ls.prompt@.len() + l.len() < usize::MAX
}

/// Editor, history and terminal are as they were.
pub open spec fn unchanged(
    a: LineState,
    b: LineState,
    h0: History,
    h1: History,
    t0: Seq<Op>,
    t1: Seq<Op>,
) -> bool {
    &&& b == a
    &&& h1 == h0
    &&& t1 == t0
}

/// The editor went from `a` to `b` with the line `l` and the caret at `k`,
/// the history is as it was, and the prompt region was drawn again.
pub open spec fn edited(
    a: LineState,
    b: LineState,
    h0: History,
    h1: History,
    t0: Seq<Op>,
    t1: Seq<Op>,
    l: Seq<char>,
    k: nat,
) -> bool {
    &&& a.edited_to(b, l, k)
    &&& h1 == h0
    &&& t1 == t0 + redraw_ops(a, b)
}

/// The effect of one action: from editor `a`, history `h0` and terminal
/// `t0` to `b`, `h1` and `t1`, with `r` returned.
pub open spec fn handled(
    a: LineState,
    b: LineState,
    h0: History,
    h1: History,
    t0: Seq<Op>,
    t1: Seq<Op>,
    act: EditAction,
    r: Option<ReadlineEvent>,
) -> bool {
    let line = a.line@;
    let k = a.cursor_pos as nat;
    match act {
        EditAction::Insert(c) => r is None && if fits(a, line.push(c)) {
            &&& a.edited_to(b, line.insert(k as int, c), k + 1)
            &&& h1@ == h0@ && h1.max_size == h0.max_size && h1.cursor == 0
            &&& t1 == t0 + redraw_ops(a, b)
        } else {
            unchanged(a, b, h0, h1, t0, t1)
        },
        EditAction::Backspace => r is None && if k > 0 {
            edited(a, b, h0, h1, t0, t1, line.remove(k - 1), (k - 1) as nat)
        } else {
            unchanged(a, b, h0, h1, t0, t1)
        },
        EditAction::Delete => r is None && if k < line.len() {
            edited(a, b, h0, h1, t0, t1, line.remove(k as int), k)
        } else {
            unchanged(a, b, h0, h1, t0, t1)
        },
        EditAction::Left => r is None && if k > 0 {
            edited(a, b, h0, h1, t0, t1, line, (k - 1) as nat)
        } else {
            unchanged(a, b, h0, h1, t0, t1)
        },
        EditAction::Right => r is None && if k < line.len() {
            edited(a, b, h0, h1, t0, t1, line, k + 1)
        } else {
            unchanged(a, b, h0, h1, t0, t1)
        },
        EditAction::Home => r is None && edited(a, b, h0, h1, t0, t1, line, 0),
        EditAction::End => r is None && edited(a, b, h0, h1, t0, t1, line, line.len()),
        EditAction::Up => r is None && if h0.cursor < h0@.len() {
            let e = h0.selected((h0.cursor + 1) as nat);
            &&& h1@ == h0@ && h1.max_size == h0.max_size && h1.cursor == h0.cursor + 1
            &&& if fits(a, e) {
                a.edited_to(b, e, e.len()) && t1 == t0 + redraw_ops(a, b)
            } else {
                b == a && t1 == t0
            }
        } else {
            unchanged(a, b, h0, h1, t0, t1)
        },
        EditAction::Down => r is None && h1@ == h0@ && h1.max_size == h0.max_size && if h0.cursor
            > 1 {
            let e = h0.selected((h0.cursor - 1) as nat);
            &&& h1.cursor == h0.cursor - 1
            &&& if fits(a, e) {
                a.edited_to(b, e, e.len()) && t1 == t0 + redraw_ops(a, b)
            } else {
                b == a && t1 == t0
            }
        } else {
            &&& h1.cursor == 0
            &&& a.edited_to(b, Seq::empty(), 0)
            &&& t1 == t0 + redraw_ops(a, b)
        },
        EditAction::Enter => {
            &&& is_line(r, line)
            &&& a.edited_to(b, Seq::empty(), 0)
            &&& h1 == h0
            &&& t1 == t0 + erase_ops(a) + (if a.should_print_line_on_enter {
                echo_ops(a)
            } else {
                Seq::empty()
            }) + render_ops(b)
        },
        EditAction::Interrupt => {
            &&& r == Some(ReadlineEvent::Interrupted)
            &&& a.edited_to(b, Seq::empty(), 0)
            &&& h1 == h0
            &&& t1 == t0 + erase_ops(a) + (if a.should_print_line_on_control_c {
                echo_ops(a)
            } else {
                Seq::empty()
            }) + render_ops(b)
        },
        EditAction::EofOrDelete => if line.len() == 0 {
            r == Some(ReadlineEvent::Eof) && unchanged(a, b, h0, h1, t0, t1)
        } else {
            r is None && if k < line.len() {
                edited(a, b, h0, h1, t0, t1, line.remove(k as int), k)
            } else {
                unchanged(a, b, h0, h1, t0, t1)
            }
        },
        EditAction::ClearScreen => {
            &&& r is None
            &&& b == a
            &&& h1 == h0
            &&& t1 == t0 + seq![Op::ClearAll, Op::MoveHome] + render_ops(a)
        },
        EditAction::Resize(cols, rows) => {
            &&& r == Some(ReadlineEvent::Resized)
            &&& b.prompt@ == a.prompt@ && b.line@ == line && b.cursor_pos == a.cursor_pos
            &&& b.term_cols == cols && b.term_rows == rows
            &&& b.should_print_line_on_enter == a.should_print_line_on_enter
            &&& b.should_print_line_on_control_c == a.should_print_line_on_control_c
            &&& h1 == h0
            &&& t1 == t0 + redraw_ops(a, b)
        },
        EditAction::Ignore => r is None && unchanged(a, b, h0, h1, t0, t1),
    }
}

proof fn lemma_redrawn(t0: Seq<Op>, t1: Seq<Op>, t2: Seq<Op>, mid: Seq<Op>, a: LineState, b: LineState)
    requires
        t1 == t0 + erase_ops(a) + mid,
        t2 == t1 + render_ops(b),
    ensures
        t2 == t0 + erase_ops(a) + mid + render_ops(b),
        mid == Seq::<Op>::empty() ==> t2 == t0 + redraw_ops(a, b),
        prompt_at_bottom(t2, b),
{
    assert(t2 =~= t0 + erase_ops(a) + mid + render_ops(b));
    if mid == Seq::<Op>::empty() {
        assert(t2 =~= t0 + redraw_ops(a, b));
    }
    lemma_render_puts_prompt_at_bottom(t0, erase_ops(a) + mid, b);
    assert(t0 + (erase_ops(a) + mid) + render_ops(b) =~= t2);
}

impl LineState {
    /// Erases the region, sets line and caret, and draws the region again.
    fn replace_line(&mut self, line: Vec<char>, cursor: usize, term: &mut RawTerminal)
        requires
            old(self).wf(),
            cursor <= line@.len(),
            fits(*old(self), line@),
        ensures
            final(self).wf(),
            old(self).edited_to(*final(self), line@, cursor as nat),
            final(term)@ == old(term)@ + redraw_ops(*old(self), *final(self)),
            prompt_at_bottom(final(term)@, *final(self)),
    {
        self.erase(term);
        let ghost t1 = term@;
        self.line = line;
        self.cursor_pos = cursor;
        self.render(term);
        proof {
            assert(t1 == old(term)@ + erase_ops(*old(self)) + Seq::<Op>::empty());
            lemma_redrawn(old(term)@, t1, term@, Seq::empty(), *old(self), *self);
        }
    }

    /// Moves the caret and draws the region again.
    fn move_caret(&mut self, cursor: usize, term: &mut RawTerminal)
        requires
            old(self).wf(),
            cursor <= old(self).line@.len(),
        ensures
            final(self).wf(),
            old(self).edited_to(*final(self), old(self).line@, cursor as nat),
            final(term)@ == old(term)@ + redraw_ops(*old(self), *final(self)),
            prompt_at_bottom(final(term)@, *final(self)),
    {
        self.erase(term);
        let ghost t1 = term@;
        self.cursor_pos = cursor;
        self.render(term);
        proof {
            assert(t1 == old(term)@ + erase_ops(*old(self)) + Seq::<Op>::empty());
            lemma_redrawn(old(term)@, t1, term@, Seq::empty(), *old(self), *self);
        }
    }

    /// Removes the character at `i`, puts the caret at `cursor`, and draws
    /// the region again.
    fn remove_at(&mut self, i: usize, cursor: usize, term: &mut RawTerminal)
        requires
            old(self).wf(),
            i < old(self).line@.len(),
            cursor <= i,
        ensures
            final(self).wf(),
            old(self).edited_to(*final(self), old(self).line@.remove(i as int), cursor as nat),
            final(term)@ == old(term)@ + redraw_ops(*old(self), *final(self)),
            prompt_at_bottom(final(term)@, *final(self)),
    {
        self.erase(term);
        let ghost t1 = term@;
        let _ = self.line.remove(i);
        self.cursor_pos = cursor;
        self.render(term);
        proof {
            assert(t1 == old(term)@ + erase_ops(*old(self)) + Seq::<Op>::empty());
            lemma_redrawn(old(term)@, t1, term@, Seq::empty(), *old(self), *self);
        }
    }

    /// Takes the line out, leaving it on screen as a finished line when
    /// `echo` is set, and draws an empty prompt region.
    fn take_line(&mut self, echo: bool, term: &mut RawTerminal) -> (r: Vec<char>)
        requires
            old(self).wf(),
        ensures
            final(self).wf(),
            r@ == old(self).line@,
            old(self).edited_to(*final(self), Seq::empty(), 0),
            final(term)@ == old(term)@ + erase_ops(*old(self)) + (if echo {
                echo_ops(*old(self))
            } else {
                Seq::empty()
            }) + render_ops(*final(self)),
            prompt_at_bottom(final(term)@, *final(self)),
    {
        self.erase(term);
        if echo {
            term.queue(TermOp::Print(joined(&self.prompt, &self.line)));
            term.queue(TermOp::NewLine);
        }
        let ghost t1 = term@;
        let ghost mid = if echo {
            echo_ops(*old(self))
        } else {
            Seq::empty()
        };
        let mut taken: Vec<char> = Vec::new();
        std::mem::swap(&mut taken, &mut self.line);
        self.cursor_pos = 0;
        self.render(term);
        proof {
            assert(t1 =~= old(term)@ + erase_ops(*old(self)) + mid);
            lemma_redrawn(old(term)@, t1, term@, mid, *old(self), *self);
        }
        taken
    }

    /// Advances the editor by one input event; returns what the caller of
    /// `readline` is to see, if anything.
    pub fn handle_event(&mut self, event: TerminalEvent, term: &mut RawTerminal, history: &mut History)
        -> (r: Option<ReadlineEvent>)
        requires
            old(self).wf(),
            old(history).wf(),
        ensures
            final(self).wf(),
            final(history).wf(),
            handled(
                *old(self),
                *final(self),
                *old(history),
                *final(history),
                old(term)@,
                final(term)@,
                action_spec(event),
                r,
            ),
            final(term)@ != old(term)@ ==> prompt_at_bottom(final(term)@, *final(self)),
    {
        match action_of(event) {
            EditAction::Insert(c) => {
                if self.prompt.len() < usize::MAX - 1 - self.line.len() {
                    self.erase(term);
                    let ghost t1 = term@;
                    self.line.insert(self.cursor_pos, c);
                    self.cursor_pos = self.cursor_pos + 1;
                    history.reset_cursor();
                    self.render(term);
                    proof {
                        assert(t1 == old(term)@ + erase_ops(*old(self)) + Seq::<Op>::empty());
                        lemma_redrawn(old(term)@, t1, term@, Seq::empty(), *old(self), *self);
                    }
                }
                None
            },
            EditAction::Backspace => {
                if self.cursor_pos > 0 {
                    self.remove_at(self.cursor_pos - 1, self.cursor_pos - 1, term);
                }
                None
            },
            EditAction::Delete => {
                if self.cursor_pos < self.line.len() {
                    self.remove_at(self.cursor_pos, self.cursor_pos, term);
                }
                None
            },
            EditAction::Left => {
                if self.cursor_pos > 0 {
                    self.move_caret(self.cursor_pos - 1, term);
                }
                None
            },
            EditAction::Right => {
                if self.cursor_pos < self.line.len() {
                    self.move_caret(self.cursor_pos + 1, term);
                }
                None
            },
            EditAction::Home => {
                self.move_caret(0, term);
                None
            },
            EditAction::End => {
                self.move_caret(self.line.len(), term);
                None
            },
            EditAction::Up => {
                if let Some(s) = history.recall_prev() {
                    let l = chars_of(s.as_str());
                    if l.len() < usize::MAX - self.prompt.len() {
                        let n = l.len();
                        self.replace_line(l, n, term);
                    }
                }
                None
            },
            EditAction::Down => {
                match history.recall_next() {
                    Some(s) => {
                        let l = chars_of(s.as_str());
                        if l.len() < usize::MAX - self.prompt.len() {
                            let n = l.len();
                            self.replace_line(l, n, term);
                        }
                    },
                    None => {
                        self.replace_line(Vec::new(), 0, term);
                    },
                }
                None
            },
            EditAction::Enter => {
                let taken = self.take_line(self.should_print_line_on_enter, term);
                Some(ReadlineEvent::Line(string_of(&taken)))
            },
            EditAction::Interrupt => {
                let _ = self.take_line(self.should_print_line_on_control_c, term);
                Some(ReadlineEvent::Interrupted)
            },
            EditAction::EofOrDelete => {
                if self.line.len() == 0 {
                    Some(ReadlineEvent::Eof)
                } else {
                    if self.cursor_pos < self.line.len() {
                        self.remove_at(self.cursor_pos, self.cursor_pos, term);
                    }
                    None
                }
            },
            EditAction::ClearScreen => {
                self.clear_screen(term);
                None
            },
            EditAction::Resize(cols, rows) => {
                self.erase(term);
                let ghost t1 = term@;
                self.term_cols = cols;
                self.term_rows = rows;
                self.render(term);
                proof {
                    assert(t1 == old(term)@ + erase_ops(*old(self)) + Seq::<Op>::empty());
                    lemma_redrawn(old(term)@, t1, term@, Seq::empty(), *old(self), *self);
                }
                Some(ReadlineEvent::Resized)
            },
            EditAction::Ignore => None,
        }
    }
}

impl LineState {
    /// Clears the whole screen and draws the prompt region at its top.
    pub fn clear_screen(&self, term: &mut RawTerminal)
        requires
            self.wf(),
        ensures
            final(term)@ == old(term)@ + seq![Op::ClearAll, Op::MoveHome] + render_ops(*self),
            prompt_at_bottom(final(term)@, *self),
    {
        term.queue(TermOp::ClearAll);
        term.queue(TermOp::MoveHome);
        let ghost t1 = term@;
        self.render(term);
        proof {
            assert(t1 =~= old(term)@ + seq![Op::ClearAll, Op::MoveHome]);
            lemma_render_puts_prompt_at_bottom(old(term)@, seq![Op::ClearAll, Op::MoveHome], *self);
        }
    }

    /// Sets whether Enter and Ctrl-C leave prompt and line on the screen.
    pub fn set_print_line_on(&mut self, enter: bool, control_c: bool)
        ensures
            final(self).should_print_line_on_enter == enter,
            final(self).should_print_line_on_control_c == control_c,
            final(self).prompt == old(self).prompt,
            final(self).line == old(self).line,
            final(self).cursor_pos == old(self).cursor_pos,
            final(self).term_cols == old(self).term_cols,
            final(self).term_rows == old(self).term_rows,
    {
        self.should_print_line_on_enter = enter;
        self.should_print_line_on_control_c = control_c;
    }
}

} // verus!

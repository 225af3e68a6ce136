//! The terminal as this library sees it: a queue of commands that a driver
//! executes on the real raw-mode terminal, in order.

use vstd::prelude::*;

verus! {

/// What a terminal command does, as a mathematical value.
pub enum Op {
    /// Prints characters at the cursor (they wrap at the right margin).
    Print(Seq<char>),
    /// Writes bytes of background output verbatim; each line feed in them
    /// also returns the carriage.
    Write(Seq<u8>),
    /// Starts a new line at column zero.
    NewLine,
    /// Moves the cursor up by the given number of rows (zero moves nothing).
    MoveUp(nat),
    /// Moves the cursor to the given column of its row.
    MoveToColumn(nat),
    /// Clears from the cursor to the end of the screen.
    ClearBelow,
    /// Clears the whole screen.
    ClearAll,
    /// Moves the cursor to the top left corner of the screen.
    MoveHome,
}

/// One command queued for the terminal.
#[derive(Debug, PartialEq, Eq)]
pub enum TermOp {
    Print(Vec<char>),
    Write(Vec<u8>),
    NewLine,
    MoveUp(usize),
    MoveToColumn(usize),
    ClearBelow,
    ClearAll,
    MoveHome,
}

impl View for TermOp {
    type V = Op;

    open spec fn view(&self) -> Op {
        match self {
            TermOp::Print(s) => Op::Print(s@),
            TermOp::Write(b) => Op::Write(b@),
            TermOp::NewLine => Op::NewLine,
            TermOp::MoveUp(n) => Op::MoveUp(*n as nat),
            TermOp::MoveToColumn(c) => Op::MoveToColumn(*c as nat),
            TermOp::ClearBelow => Op::ClearBelow,
            TermOp::ClearAll => Op::ClearAll,
            TermOp::MoveHome => Op::MoveHome,
        }
    }
}

/// The commands queued so far, oldest first. A driver takes them out with
/// [`RawTerminal::take_ops`] and performs them on the real terminal.
pub struct RawTerminal {
    pub ops: Vec<TermOp>,
}

impl View for RawTerminal {
    type V = Seq<Op>;

    open spec fn view(&self) -> Seq<Op> {
        self.ops@.map_values(|o: TermOp| o@)
    }
}

impl RawTerminal {
    pub fn new() -> (r: RawTerminal)
        ensures
            r@ == Seq::<Op>::empty(),
    {
        RawTerminal { ops: Vec::new() }
    }

    /// Queues one command.
    pub fn queue(&mut self, op: TermOp)
        ensures
            final(self)@ == old(self)@.push(op@),
    {
        self.ops.push(op);
        proof {
            assert(final(self)@ =~= old(self)@.push(op@));
        }
    }

    /// Hands out the queued commands, oldest first, and leaves the queue empty.
    pub fn take_ops(&mut self) -> (r: Vec<TermOp>)
        ensures
            r@.map_values(|o: TermOp| o@) == old(self)@,
            final(self)@ == Seq::<Op>::empty(),
    {
        let mut r: Vec<TermOp> = Vec::new();
        std::mem::swap(&mut r, &mut self.ops);
        proof {
            assert(final(self)@ =~= Seq::<Op>::empty());
        }
        r
    }
}

} // verus!

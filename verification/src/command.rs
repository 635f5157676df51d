//! Terminal commands: the relative cursor motions, clears and prints that the
//! renderer issues, and their mathematical counterpart.

use vstd::prelude::*;

verus! {

/// How much a clear command erases.
#[derive(Clone, Copy, PartialEq, Eq, Debug, Structural)]
pub enum ClearKind {
    /// The whole line the cursor is on; the cursor stays where it is.
    CurrentLine,
    /// Everything from the cursor to the end of the screen.
    FromCursorDown,
}

/// One terminal command as a mathematical value.
pub enum Op {
    /// Move the cursor left by this many columns.
    MoveLeft(nat),
    /// Move the cursor right by this many columns.
    MoveRight(nat),
    /// Move the cursor down by this many lines, to the first column.
    MoveToNextLine(nat),
    /// Move the cursor up by this many lines, to the first column.
    MoveToPreviousLine(nat),
    /// Erase part of the screen.
    Clear(ClearKind),
    /// Write text at the cursor.
    Print(Seq<char>),
}

/// One terminal command. Only relative motion is offered: a position saved
/// before a line break would no longer be the intended one after it.
#[derive(Clone, Debug, PartialEq, Eq)]
pub enum Command {
    /// Move the cursor left by this many columns.
    MoveLeft(usize),
    /// Move the cursor right by this many columns.
    MoveRight(usize),
    /// Move the cursor down by this many lines, to the first column.
    MoveToNextLine(usize),
    /// Move the cursor up by this many lines, to the first column.
    MoveToPreviousLine(usize),
    /// Erase part of the screen.
    Clear(ClearKind),
    /// Write text at the cursor.
    Print(String),
}

impl View for Command {
    type V = Op;

    open spec fn view(&self) -> Op {
        match *self {
            Command::MoveLeft(n) => Op::MoveLeft(n as nat),
            Command::MoveRight(n) => Op::MoveRight(n as nat),
            Command::MoveToNextLine(n) => Op::MoveToNextLine(n as nat),
            Command::MoveToPreviousLine(n) => Op::MoveToPreviousLine(n as nat),
            Command::Clear(kind) => Op::Clear(kind),
            Command::Print(text) => Op::Print(text@),
        }
    }
}

/// The mathematical value of a whole command sequence.
pub open spec fn ops(commands: Seq<Command>) -> Seq<Op> {
    Seq::new(commands.len(), |i: int| commands[i]@)
}

/// The line break that is printed in raw mode: carriage return, line feed.
pub open spec fn line_break() -> Seq<char> {
    seq!['\r', '\n']
}

/// Appending one command appends its value.
pub proof fn lemma_ops_push(commands: Seq<Command>, command: Command)
    ensures
        ops(commands.push(command)) == ops(commands).push(command@),
{
    assert(ops(commands.push(command)) =~= ops(commands).push(command@));
}

/// Adds one command at the end of a command sequence.
pub fn emit(w: &mut Vec<Command>, command: Command)
    ensures
        ops(final(w)@) == ops(old(w)@).push(command@),
{
    proof {
        lemma_ops_push(w@, command);
    }
    w.push(command);
}

} // verus!

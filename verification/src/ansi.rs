//! The commands as ANSI text.
//!
//! Each command is encoded by `crossterm`, whose cursor motions carry a
//! 16-bit count. A motion over more than that is written as several motions
//! that add up to it, and a motion over nothing is not written at all, since
//! terminals read a count of zero as one.

use vstd::prelude::*;
use vstd::string::*;
use crate::command::{ops, ClearKind, Command, Op};

verus! {

/// The control sequence introducer: escape, opening bracket.
pub open spec fn csi() -> Seq<char> {
    seq!['\u{1b}', '[']
}

/// The decimal digit for a number below ten.
pub open spec fn digit(d: nat) -> char {
    if d == 0 {
        '0'
    } else if d == 1 {
        '1'
    } else if d == 2 {
        '2'
    } else if d == 3 {
        '3'
    } else if d == 4 {
        '4'
    } else if d == 5 {
        '5'
    } else if d == 6 {
        '6'
    } else if d == 7 {
        '7'
    } else if d == 8 {
        '8'
    } else {
        '9'
    }
}

/// A number in decimal, without sign or leading zeros.
pub open spec fn decimal(n: nat) -> Seq<char>
    decreases n,
{
    if n < 10 {
        seq![digit(n)]
    } else {
        decimal(n / 10).push(digit(n % 10))
    }
}

/// The direction of a cursor motion.
#[derive(Clone, Copy, PartialEq, Eq, Debug, Structural)]
pub enum Motion {
    Left,
    Right,
    NextLine,
    PreviousLine,
}

impl Motion {
    /// The final letter of the motion's control sequence.
    pub open spec fn letter(self) -> char {
        match self {
            Motion::Left => 'D',
            Motion::Right => 'C',
            Motion::NextLine => 'E',
            Motion::PreviousLine => 'F',
        }
    }
}

/// One cursor motion as a control sequence: introducer, count, letter.
pub open spec fn ansi_motion(motion: Motion, n: u16) -> Seq<char> {
    csi() + decimal(n as nat) + seq![motion.letter()]
}

/// A cursor motion over any distance: nothing for zero, else as few control
/// sequences as the 16-bit count allows, the largest first.
pub open spec fn ansi_move(motion: Motion, n: nat) -> Seq<char>
    decreases n,
{
    if n == 0 {
        Seq::empty()
    } else if n <= 0xFFFF {
        ansi_motion(motion, n as u16)
    } else {
        ansi_motion(motion, 0xFFFF) + ansi_move(motion, (n - 0xFFFF) as nat)
    }
}

/// A clear command as a control sequence.
pub open spec fn ansi_clear(kind: ClearKind) -> Seq<char> {
    match kind {
        ClearKind::CurrentLine => csi() + seq!['2', 'K'],
        ClearKind::FromCursorDown => csi() + seq!['J'],
    }
}

/// One command as ANSI text.
pub open spec fn ansi_op(op: Op) -> Seq<char> {
    match op {
        Op::MoveLeft(n) => ansi_move(Motion::Left, n),
        Op::MoveRight(n) => ansi_move(Motion::Right, n),
        Op::MoveToNextLine(n) => ansi_move(Motion::NextLine, n),
        Op::MoveToPreviousLine(n) => ansi_move(Motion::PreviousLine, n),
        Op::Clear(kind) => ansi_clear(kind),
        Op::Print(text) => text,
    }
}

/// A command sequence as ANSI text: the commands' texts, in order.
pub open spec fn ansi(commands: Seq<Op>) -> Seq<char>
    decreases commands.len(),
{
    if commands.len() == 0 {
        Seq::empty()
    } else {
        ansi(commands.drop_last()) + ansi_op(commands.last())
    }
}

/// The text of two command sequences sent one after the other is the text of
/// their concatenation: it makes no difference to the terminal how a
/// sequence of commands is cut into batches.
pub proof fn lemma_ansi_concat(first: Seq<Op>, second: Seq<Op>)
    ensures
        ansi(first + second) == ansi(first) + ansi(second),
    decreases second.len(),
{
    if second.len() == 0 {
        assert(first + second =~= first);
        assert(ansi(first) + ansi(second) =~= ansi(first));
    } else {
        lemma_ansi_concat(first, second.drop_last());
        assert((first + second).drop_last() =~= first + second.drop_last());
        assert((first + second).last() == second.last());
        assert((ansi(first) + ansi(second.drop_last())) + ansi_op(second.last()) =~= ansi(first) + (
        ansi(second.drop_last()) + ansi_op(second.last())));
    }
}

/// `crossterm::cursor::MoveLeft`, written by `Command::write_ansi`: the
/// introducer, the count in decimal, and `D`.
#[verifier::external_body]
fn move_left(n: u16) -> (text: String)
    ensures
        text@ == ansi_motion(Motion::Left, n),
{
    let mut text = String::new();
    let _ = crossterm::Command::write_ansi(&crossterm::cursor::MoveLeft(n), &mut text);
    text
}

/// `crossterm::cursor::MoveRight`, written by `Command::write_ansi`: the
/// introducer, the count in decimal, and `C`.
#[verifier::external_body]
fn move_right(n: u16) -> (text: String)
    ensures
        text@ == ansi_motion(Motion::Right, n),
{
    let mut text = String::new();
    let _ = crossterm::Command::write_ansi(&crossterm::cursor::MoveRight(n), &mut text);
    text
}

/// `crossterm::cursor::MoveToNextLine`, written by `Command::write_ansi`: the
/// introducer, the count in decimal, and `E`.
#[verifier::external_body]
fn move_to_next_line(n: u16) -> (text: String)
    ensures
        text@ == ansi_motion(Motion::NextLine, n),
{
    let mut text = String::new();
    let _ = crossterm::Command::write_ansi(&crossterm::cursor::MoveToNextLine(n), &mut text);
    text
}

/// `crossterm::cursor::MoveToPreviousLine`, written by `Command::write_ansi`:
/// the introducer, the count in decimal, and `F`.
#[verifier::external_body]
fn move_to_previous_line(n: u16) -> (text: String)
    ensures
        text@ == ansi_motion(Motion::PreviousLine, n),
{
    let mut text = String::new();
    let _ = crossterm::Command::write_ansi(&crossterm::cursor::MoveToPreviousLine(n), &mut text);
    text
}

/// `crossterm::terminal::Clear`, written by `Command::write_ansi`: the
/// introducer and `2K` for the current line, the introducer and `J` for
/// everything from the cursor down.
#[verifier::external_body]
fn clear(kind: ClearKind) -> (text: String)
    ensures
        text@ == ansi_clear(kind),
{
    let kind = match kind {
        ClearKind::CurrentLine => crossterm::terminal::ClearType::CurrentLine,
        ClearKind::FromCursorDown => crossterm::terminal::ClearType::FromCursorDown,
    };
    let mut text = String::new();
    let _ = crossterm::Command::write_ansi(&crossterm::terminal::Clear(kind), &mut text);
    text
}

/// `crossterm::style::Print`, written by `Command::write_ansi`: the printed
/// text itself, unchanged.
#[verifier::external_body]
fn print(content: &str) -> (text: String)
    ensures
        text@ == content@,
{
    let mut text = String::new();
    let _ = crossterm::Command::write_ansi(&crossterm::style::Print(content), &mut text);
    text
}

/// One cursor motion with a 16-bit count.
fn motion_text(motion: Motion, n: u16) -> (text: String)
    ensures
        text@ == ansi_motion(motion, n),
{
    match motion {
        Motion::Left => move_left(n),
        Motion::Right => move_right(n),
        Motion::NextLine => move_to_next_line(n),
        Motion::PreviousLine => move_to_previous_line(n),
    }
}

/// Appends a cursor motion over any distance.
pub fn encode_move(motion: Motion, n: usize, out: &mut String)
    ensures
        final(out)@ == old(out)@ + ansi_move(motion, n as nat),
{
    let ghost before = out@;
    let mut rest: usize = n;
    while rest > 0xFFFF
        invariant
            out@ + ansi_move(motion, rest as nat) == before + ansi_move(motion, n as nat),
        decreases rest,
    {
        let ghost written = out@;
        let step = motion_text(motion, 0xFFFF);
        out.append(step.as_str());
        proof {
            assert((written + step@) + ansi_move(motion, (rest - 0xFFFF) as nat) =~= written + (
            step@ + ansi_move(motion, (rest - 0xFFFF) as nat)));
        }
        rest = rest - 0xFFFF;
    }
    if rest > 0 {
        let step = motion_text(motion, rest as u16);
        out.append(step.as_str());
    } else {
        proof {
            assert(out@ + Seq::<char>::empty() =~= out@);
        }
    }
}

/// Appends one command as ANSI text.
pub fn encode_command(command: &Command, out: &mut String)
    ensures
        final(out)@ == old(out)@ + ansi_op(command@),
{
    match command {
        Command::MoveLeft(n) => encode_move(Motion::Left, *n, out),
        Command::MoveRight(n) => encode_move(Motion::Right, *n, out),
        Command::MoveToNextLine(n) => encode_move(Motion::NextLine, *n, out),
        Command::MoveToPreviousLine(n) => encode_move(Motion::PreviousLine, *n, out),
        Command::Clear(kind) => {
            let text = clear(*kind);
            out.append(text.as_str());
        },
        Command::Print(content) => {
            let text = print(content.as_str());
            out.append(text.as_str());
        },
    }
}

/// A whole command sequence as ANSI text, ready to be written to a terminal.
pub fn encode(commands: &Vec<Command>) -> (text: String)
    ensures
        text@ == ansi(ops(commands@)),
{
    let mut text = String::new();
    let n: usize = commands.len();
    let mut i: usize = 0;
    while i < n
        invariant
            i <= n,
            n == commands@.len(),
            text@ == ansi(ops(commands@).take(i as int)),
        decreases n - i,
    {
        proof {
            let next = ops(commands@).take(i + 1);
            assert(next.drop_last() =~= ops(commands@).take(i as int));
            assert(next.last() == commands@[i as int]@);
        }
        encode_command(&commands[i], &mut text);
        i = i + 1;
    }
    proof {
        assert(ops(commands@).take(n as int) =~= ops(commands@));
    }
    text
}

} // verus!

//! A model of the screen region, and what the renderer's commands do to it.
//!
//! The region is a fixed number of lines with a cursor. The model follows the
//! prompt's own assumptions: every character takes one column, lines are as
//! long as they need to be, and a motion to the left stops at the first
//! column.

use vstd::prelude::*;
use crate::command::{line_break, ClearKind, Op};
use crate::prompt::{
    candidate_line, candidate_ops, candidate_step, confirm_ops, input_ops, marker, repaint_ops,
    reserve_ops, Action, Key, PromptState,
};

verus! {

/// The screen region: its lines, top down, and the cursor.
pub struct Screen {
    pub lines: Seq<Seq<char>>,
    pub row: nat,
    pub col: nat,
}

/// Text that stays on its line: no carriage return, no line feed.
pub open spec fn is_plain(text: Seq<char>) -> bool {
    forall|i: int| 0 <= i < text.len() ==> text[i] != '\r' && text[i] != '\n'
}

/// Every text of the list stays on its line.
pub open spec fn all_plain(list: Seq<Seq<char>>) -> bool {
    forall|i: int| 0 <= i < list.len() ==> is_plain(#[trigger] list[i])
}

/// A line after one character was written at a column: over what stood
/// there, or behind the line's end, with blanks in between.
pub open spec fn write_at(line: Seq<char>, col: nat, c: char) -> Seq<char> {
    if col < line.len() {
        line.update(col as int, c)
    } else {
        (line + Seq::new((col - line.len()) as nat, |i: int| ' ')).push(c)
    }
}

impl Screen {
    /// The lines with the cursor's line replaced, if the cursor is on one.
    pub open spec fn with_line(self, line: Seq<char>) -> Seq<Seq<char>> {
        if self.row < self.lines.len() {
            self.lines.update(self.row as int, line)
        } else {
            self.lines
        }
    }

    /// The line the cursor is on.
    pub open spec fn line(self) -> Seq<char> {
        if self.row < self.lines.len() {
            self.lines[self.row as int]
        } else {
            Seq::empty()
        }
    }

    /// The screen after one character was printed.
    pub open spec fn put(self, c: char) -> Screen {
        if c == '\r' {
            Screen { col: 0, ..self }
        } else if c == '\n' {
            Screen { row: self.row + 1, ..self }
        } else {
            Screen {
                lines: self.with_line(write_at(self.line(), self.col, c)),
                col: self.col + 1,
                ..self
            }
        }
    }

    /// The screen after a text was printed, character by character.
    pub open spec fn print(self, text: Seq<char>) -> Screen
        decreases text.len(),
    {
        if text.len() == 0 {
            self
        } else {
            self.print(text.drop_last()).put(text.last())
        }
    }

    /// The screen after one command.
    pub open spec fn step(self, op: Op) -> Screen {
        match op {
            Op::MoveLeft(n) => Screen {
                col: if n >= self.col {
                    0
                } else {
                    (self.col - n) as nat
                },
                ..self
            },
            Op::MoveRight(n) => Screen { col: self.col + n, ..self },
            Op::MoveToNextLine(n) => Screen { row: self.row + n, col: 0, ..self },
            Op::MoveToPreviousLine(n) => Screen {
                row: if n >= self.row {
                    0
                } else {
                    (self.row - n) as nat
                },
                col: 0,
                ..self
            },
            Op::Clear(ClearKind::CurrentLine) => Screen {
                lines: self.with_line(Seq::empty()),
                ..self
            },
            Op::Clear(ClearKind::FromCursorDown) => Screen {
                lines: Seq::new(
                    self.lines.len(),
                    |i: int|
                        if i < self.row {
                            self.lines[i]
                        } else if i == self.row && self.col < self.lines[i].len() {
                            self.lines[i].take(self.col as int)
                        } else if i == self.row {
                            self.lines[i]
                        } else {
                            Seq::empty()
                        },
                ),
                ..self
            },
            Op::Print(text) => self.print(text),
        }
    }

    /// The screen after a sequence of commands, first command first.
    pub open spec fn run(self, ops: Seq<Op>) -> Screen
        decreases ops.len(),
    {
        if ops.len() == 0 {
            self
        } else {
            self.run(ops.drop_last()).step(ops.last())
        }
    }

    /// The cursor stands on the input line, on or before the end of `input`.
    pub open spec fn ready_for(self, state: PromptState) -> bool {
        &&& self.lines.len() == state.lines()
        &&& self.row == 0
        &&& self.col <= state.input.len()
    }
}

/// The region as a repaint leaves it: the input on the first line, below it
/// one marked preview per font, the cursor just behind the input.
pub open spec fn painted(state: PromptState, previews: Seq<Seq<char>>) -> Screen {
    Screen {
        lines: Seq::new(
            previews.len() + 1,
            |i: int|
                if i == 0 {
                    state.input
                } else {
                    candidate_line(i - 1 == state.selected, previews[i - 1])
                },
        ),
        row: 0,
        col: state.input.len(),
    }
}

/// Running one more command is one more step.
pub proof fn lemma_run_push(screen: Screen, ops: Seq<Op>, op: Op)
    ensures
        screen.run(ops.push(op)) == screen.run(ops).step(op),
{
    assert(ops.push(op).drop_last() =~= ops);
}

/// Running two sequences one after the other is running their concatenation.
pub proof fn lemma_run_concat(screen: Screen, first: Seq<Op>, second: Seq<Op>)
    ensures
        screen.run(first + second) == screen.run(first).run(second),
    decreases second.len(),
{
    if second.len() == 0 {
        assert(first + second =~= first);
    } else {
        lemma_run_concat(screen, first, second.drop_last());
        assert((first + second).drop_last() =~= first + second.drop_last());
        assert((first + second).last() == second.last());
    }
}

/// Running three commands is three steps.
pub proof fn lemma_run_three(screen: Screen, a: Op, b: Op, c: Op)
    ensures
        screen.run(seq![a, b, c]) == screen.step(a).step(b).step(c),
{
    assert(seq![a, b, c] =~= Seq::<Op>::empty().push(a).push(b).push(c));
    lemma_run_push(screen, Seq::<Op>::empty().push(a).push(b), c);
    lemma_run_push(screen, Seq::<Op>::empty().push(a), b);
    lemma_run_push(screen, Seq::<Op>::empty(), a);
}

/// Plain text printed at the end of a line is appended to that line, and the
/// cursor ends behind it.
pub proof fn lemma_print_plain(screen: Screen, text: Seq<char>)
    requires
        is_plain(text),
        screen.row < screen.lines.len(),
        screen.col == screen.line().len(),
    ensures
        screen.print(text) == (Screen {
            lines: screen.with_line(screen.line() + text),
            row: screen.row,
            col: screen.col + text.len(),
        }),
    decreases text.len(),
{
    if text.len() == 0 {
        assert(screen.line() + text =~= screen.line());
        assert(screen.with_line(screen.line() + text) =~= screen.lines);
    } else {
        let earlier = text.drop_last();
        lemma_print_plain(screen, earlier);
        let mid = screen.print(earlier);
        assert(mid.line() == screen.line() + earlier);
        assert(write_at(mid.line(), mid.col, text.last()) =~= screen.line() + text);
        assert(mid.with_line(screen.line() + text) =~= screen.with_line(screen.line() + text));
    }
}

/// A line break printed anywhere moves the cursor to the first column of the
/// next line and writes nothing.
pub proof fn lemma_print_line_break(screen: Screen)
    ensures
        screen.print(line_break()) == (Screen { row: screen.row + 1, col: 0, ..screen }),
{
    let cr = line_break().drop_last();
    assert(cr.drop_last() =~= Seq::<char>::empty());
    assert(screen.print(cr.drop_last()) == screen);
    assert(screen.print(cr) == screen.put('\r'));
}

/// Printing two texts one after the other is printing their concatenation.
pub proof fn lemma_print_concat(screen: Screen, first: Seq<char>, second: Seq<char>)
    ensures
        screen.print(first + second) == screen.print(first).print(second),
    decreases second.len(),
{
    if second.len() == 0 {
        assert(first + second =~= first);
    } else {
        lemma_print_concat(screen, first, second.drop_last());
        assert((first + second).drop_last() =~= first + second.drop_last());
        assert((first + second).last() == second.last());
    }
}

/// The marker is plain text, so a candidate line is as plain as its preview.
pub proof fn lemma_candidate_line_plain(selected: bool, preview: Seq<char>)
    requires
        is_plain(preview),
    ensures
        is_plain(candidate_line(selected, preview)),
{
}

/// Redrawing the input line, from anywhere on or before the input's end,
/// leaves exactly the input on that line and the cursor behind it.
pub proof fn lemma_input_line_redrawn(screen: Screen, input: Seq<char>)
    requires
        is_plain(input),
        screen.row < screen.lines.len(),
        screen.col <= input.len(),
    ensures
        screen.run(input_ops(input)) == (Screen {
            lines: screen.with_line(input),
            row: screen.row,
            col: input.len(),
        }),
{
    lemma_run_three(
        screen,
        Op::MoveLeft(input.len()),
        Op::Clear(ClearKind::CurrentLine),
        Op::Print(input),
    );
    let cleared = screen.step(Op::MoveLeft(input.len())).step(Op::Clear(ClearKind::CurrentLine));
    lemma_print_plain(cleared, input);
    assert(cleared.line() + input =~= input);
    assert(cleared.with_line(input) =~= screen.with_line(input));
}

/// Drawing candidate lines fills the lines below the cursor, one per
/// candidate, and leaves every other line as it was.
pub proof fn lemma_candidates_drawn(
    screen: Screen,
    selected: nat,
    previews: Seq<Seq<char>>,
    count: nat,
)
    requires
        all_plain(previews),
        count <= previews.len(),
        screen.row + count < screen.lines.len(),
    ensures
        screen.run(candidate_ops(selected, previews, count)).row == screen.row + count,
        count == 0 ==> screen.run(candidate_ops(selected, previews, count)) == screen,
        screen.run(candidate_ops(selected, previews, count)).lines =~= Seq::new(
            screen.lines.len(),
            |i: int|
                if screen.row < i <= screen.row + count {
                    candidate_line(i - screen.row - 1 == selected, previews[i - screen.row - 1])
                } else {
                    screen.lines[i]
                },
        ),
    decreases count,
{
    if count > 0 {
        let k = (count - 1) as nat;
        lemma_candidates_drawn(screen, selected, previews, k);
        let earlier = candidate_ops(selected, previews, k);
        let mid = screen.run(earlier);
        lemma_run_concat(screen, earlier, candidate_step(selected, previews, k as int));
        let text = candidate_line(k == selected, previews[k as int]);
        lemma_run_three(
            mid,
            Op::MoveToNextLine(1),
            Op::Clear(ClearKind::CurrentLine),
            Op::Print(text),
        );
        let cleared = mid.step(Op::MoveToNextLine(1)).step(Op::Clear(ClearKind::CurrentLine));
        assert(is_plain(previews[k as int]));
        lemma_candidate_line_plain(k == selected, previews[k as int]);
        lemma_print_plain(cleared, text);
        assert(cleared.line() + text =~= text);
    }
}

/// Reserving the region moves the cursor down by one line per line break and
/// back up by as many: it ends on the line it started on, in the first
/// column, and nothing that was on the screen has changed.
pub proof fn lemma_reserve_returns(screen: Screen, lines: nat)
    ensures
        screen.run(reserve_ops(lines)) == (Screen { col: 0, ..screen }),
{
    let breaks = Seq::new(lines, |i: int| Op::Print(line_break()));
    lemma_breaks_go_down(screen, lines);
    lemma_run_push(screen, breaks, Op::MoveToPreviousLine(lines));
}

/// A run of line breaks moves the cursor down by their number, to the first
/// column if there is any, and writes nothing.
pub proof fn lemma_breaks_go_down(screen: Screen, count: nat)
    ensures
        screen.run(Seq::new(count, |i: int| Op::Print(line_break()))) == (Screen {
            row: screen.row + count,
            col: if count == 0 {
                screen.col
            } else {
                0
            },
            ..screen
        }),
    decreases count,
{
    let breaks = Seq::new(count, |i: int| Op::Print(line_break()));
    if count > 0 {
        let earlier = Seq::new((count - 1) as nat, |i: int| Op::Print(line_break()));
        lemma_breaks_go_down(screen, (count - 1) as nat);
        assert(breaks =~= earlier.push(Op::Print(line_break())));
        lemma_run_push(screen, earlier, Op::Print(line_break()));
        lemma_print_line_break(screen.run(earlier));
    } else {
        assert(breaks =~= Seq::<Op>::empty());
    }
}

/// The region as a confirmed session leaves it: the chosen rendering alone on
/// the first line, every line below it empty, the cursor at the start of the
/// second line.
pub open spec fn confirmed(lines: nat, chosen: Seq<char>) -> Screen {
    Screen {
        lines: Seq::new(
            lines,
            |i: int|
                if i == 0 {
                    chosen
                } else {
                    Seq::empty()
                },
        ),
        row: 1,
        col: 0,
    }
}

/// Confirming, with the cursor on the input line on or before the input's
/// end, leaves the chosen rendering on the first line, printed once, and
/// erases every candidate line.
pub proof fn lemma_confirm_leaves_choice(screen: Screen, state: PromptState, chosen: Seq<char>)
    requires
        state.wf(),
        is_plain(chosen),
        screen.ready_for(state),
    ensures
        screen.run(confirm_ops(state, chosen)) == confirmed(state.lines(), chosen),
{
    let left = Op::MoveLeft(state.input.len());
    let clear = Op::Clear(ClearKind::CurrentLine);
    let print = Op::Print(chosen + line_break());
    let erase = Op::Clear(ClearKind::FromCursorDown);
    assert(confirm_ops(state, chosen) =~= seq![left, clear, print].push(erase));
    lemma_run_push(screen, seq![left, clear, print], erase);
    lemma_run_three(screen, left, clear, print);
    let cleared = screen.step(left).step(clear);
    lemma_print_concat(cleared, chosen, line_break());
    lemma_print_plain(cleared, chosen);
    lemma_print_line_break(cleared.print(chosen));
    assert(cleared.line() + chosen =~= chosen);
    let last = cleared.step(print).step(erase);
    assert(last.lines =~~= confirmed(state.lines(), chosen).lines);
}

/// A repaint, started with the cursor on the input line on or before the
/// input's end, leaves the region painted: the first line is exactly the
/// input, each candidate line is its font's preview behind its marker, and
/// the cursor is back on the input line, just behind the input.
pub proof fn lemma_repaint_paints(screen: Screen, state: PromptState, previews: Seq<Seq<char>>)
    requires
        state.wf(),
        previews.len() == state.fonts.len(),
        is_plain(state.input),
        all_plain(previews),
        screen.ready_for(state),
    ensures
        screen.run(repaint_ops(state, previews)) == painted(state, previews),
        painted(state, previews).lines[0] == state.input,
        painted(state, previews).ready_for(state),
{
    let n = previews.len();
    let head = input_ops(state.input);
    let body = candidate_ops(state.selected, previews, n);
    let up = Op::MoveToPreviousLine(n);
    let right = Op::MoveRight(state.input.len());
    lemma_input_line_redrawn(screen, state.input);
    let s1 = screen.run(head);
    lemma_candidates_drawn(s1, state.selected, previews, n);
    lemma_run_concat(screen, head, body);
    let s2 = screen.run(head + body);
    assert(repaint_ops(state, previews) =~= (head + body).push(up).push(right));
    lemma_run_push(screen, (head + body).push(up), right);
    lemma_run_push(screen, head + body, up);
    let s3 = s2.step(up).step(right);
    assert(s3.lines =~= painted(state, previews).lines);
}

/// Exactly one candidate line carries the selection mark, the one of the
/// selected font: in a painted region, candidate `i` starts with `[x]` if and
/// only if `i` is the selection, and with `[ ]` otherwise.
pub proof fn lemma_one_line_is_marked(state: PromptState, previews: Seq<Seq<char>>, i: int)
    requires
        state.wf(),
        previews.len() == state.fonts.len(),
        0 <= i < previews.len(),
    ensures
        painted(state, previews).lines[i + 1] == marker(i == state.selected) + previews[i],
        painted(state, previews).lines[i + 1].take(3) == marker(true) <==> i == state.selected,
        painted(state, previews).lines[state.selected as int + 1].take(3) == marker(true),
{
    let line = painted(state, previews).lines[i + 1];
    assert(line.take(3) =~= marker(i == state.selected));
    assert(marker(true)[1] != marker(false)[1]);
    let chosen = painted(state, previews).lines[state.selected as int + 1];
    assert(chosen.take(3) =~= marker(true));
}

/// Repainting twice in a row shows what repainting once shows: the second
/// pass finds the region painted and leaves it so.
pub proof fn lemma_repaint_is_idempotent(
    screen: Screen,
    state: PromptState,
    previews: Seq<Seq<char>>,
)
    requires
        state.wf(),
        previews.len() == state.fonts.len(),
        is_plain(state.input),
        all_plain(previews),
        screen.ready_for(state),
    ensures
        screen.run(repaint_ops(state, previews)).run(repaint_ops(state, previews)) == screen.run(
            repaint_ops(state, previews),
        ),
{
    lemma_repaint_paints(screen, state, previews);
    lemma_repaint_paints(painted(state, previews), state, previews);
}

/// The cursor invariant across a key: if the cursor stands just behind the
/// input before a key, then after the key's own commands it stands on the
/// input line, on or before the end of the new input, which is where a
/// repaint has to start, and nothing on the screen has changed. A key that
/// asks for no repaint leaves the cursor just behind the input.
pub proof fn lemma_key_keeps_cursor(screen: Screen, state: PromptState, key: Key)
    requires
        state.wf(),
        screen.ready_for(state),
        screen.col == state.input.len(),
    ensures
        screen.run(state.key_ops(key)).ready_for(state.after(key)),
        screen.run(state.key_ops(key)).lines == screen.lines,
        state.action(key) != Action::Update ==> screen.run(state.key_ops(key)).col
            == state.after(key).input.len(),
{
    if !state.confirmed && key == Key::Backspace && state.input.len() > 0 {
        lemma_run_push(screen, Seq::<Op>::empty(), Op::MoveLeft(1));
        assert(state.key_ops(key) =~= Seq::<Op>::empty().push(Op::MoveLeft(1)));
    }
}

/// After any update the region shows the new state: with the cursor just
/// behind the input before the key, the key's own commands followed by the
/// repaint of the state after the key leave the region painted for that
/// state. Its first line is then exactly the new input, and the cursor is
/// just behind it again, ready for the next key.
pub proof fn lemma_update_paints(
    screen: Screen,
    state: PromptState,
    key: Key,
    previews: Seq<Seq<char>>,
)
    requires
        state.wf(),
        state.action(key) == Action::Update,
        screen.ready_for(state),
        screen.col == state.input.len(),
        previews.len() == state.fonts.len(),
        is_plain(state.after(key).input),
        all_plain(previews),
    ensures
        screen.run(state.key_ops(key) + repaint_ops(state.after(key), previews)) == painted(
            state.after(key),
            previews,
        ),
        painted(state.after(key), previews).lines[0] == state.after(key).input,
        painted(state.after(key), previews).ready_for(state.after(key)),
        painted(state.after(key), previews).col == state.after(key).input.len(),
{
    lemma_key_keeps_cursor(screen, state, key);
    lemma_run_concat(screen, state.key_ops(key), repaint_ops(state.after(key), previews));
    lemma_repaint_paints(screen.run(state.key_ops(key)), state.after(key), previews);
}

} // verus!

//! The prompt: its state, the key-driven state machine, and the renderer that
//! turns each state into terminal commands.
//!
//! The prompt occupies a fixed region of the screen: one line that echoes the
//! input, and below it one candidate line per font. Everything is drawn with
//! relative motion only, so every rendering pass starts and ends with the
//! cursor on the input line, just behind the last typed character.

use vstd::prelude::*;
use vstd::string::*;
use crate::buffer::{without_last, InputBuffer};
use crate::command::{emit, line_break, ops, ClearKind, Command, Op};

verus! {

/// Identifies one text transform. The prompt never looks inside it.
#[derive(Clone, Copy, PartialEq, Eq, Debug, Structural)]
pub struct Font {
    pub id: u32,
}

/// A key press, as far as the prompt tells keys apart.
#[derive(Clone, Copy, PartialEq, Eq, Debug, Structural)]
pub enum Key {
    Enter,
    Backspace,
    Up,
    Down,
    /// A character key.
    Char(char),
    /// Any other key, any event that is not a key press, and no event at all.
    Other,
}

/// What the caller has to do after a key was handled.
#[derive(Clone, Copy, PartialEq, Eq, Debug, Structural)]
pub enum Action {
    /// The session is over: print the chosen rendering and stop reading keys.
    Confirm,
    /// Input or selection changed: repaint the region.
    Update,
    /// Nothing to do.
    Nothing,
}

/// The prompt's state as a mathematical value.
pub struct PromptState {
    /// The characters typed so far.
    pub input: Seq<char>,
    /// The fonts on offer, in the order of their candidate lines.
    pub fonts: Seq<Font>,
    /// The index of the selected font.
    pub selected: nat,
    /// Whether the session is over. A session starts running and is confirmed
    /// by Enter; once confirmed it stays so, and no key changes it any more.
    pub confirmed: bool,
}

impl PromptState {
    /// The selection points at one of the fonts.
    pub open spec fn wf(self) -> bool {
        self.selected < self.fonts.len()
    }

    /// The state a session starts in: nothing typed, the first font selected.
    pub open spec fn initial(fonts: Seq<Font>) -> PromptState {
        PromptState { input: Seq::empty(), fonts, selected: 0, confirmed: false }
    }

    /// The number of screen lines the prompt occupies: the input line and one
    /// line per font.
    pub open spec fn lines(self) -> nat {
        self.fonts.len() + 1
    }

    /// The state after one key.
    pub open spec fn after(self, key: Key) -> PromptState {
        if self.confirmed {
            self
        } else {
            self.running_after(key)
        }
    }

    /// The state after one key, in a running session.
    pub open spec fn running_after(self, key: Key) -> PromptState {
        match key {
            Key::Backspace => PromptState { input: without_last(self.input), ..self },
            Key::Up => if self.selected > 0 {
                PromptState { selected: (self.selected - 1) as nat, ..self }
            } else {
                self
            },
            Key::Down => if self.selected + 1 < self.fonts.len() {
                PromptState { selected: self.selected + 1, ..self }
            } else {
                self
            },
            Key::Char(c) => PromptState { input: self.input.push(c), ..self },
            Key::Enter => PromptState { confirmed: true, ..self },
            Key::Other => self,
        }
    }

    /// What one key asks of the caller.
    pub open spec fn action(self, key: Key) -> Action {
        if self.confirmed {
            Action::Nothing
        } else {
            self.running_action(key)
        }
    }

    /// What one key asks of the caller, in a running session.
    pub open spec fn running_action(self, key: Key) -> Action {
        match key {
            Key::Enter => Action::Confirm,
            Key::Backspace => Action::Update,
            Key::Up => if self.selected > 0 {
                Action::Update
            } else {
                Action::Nothing
            },
            Key::Down => if self.selected + 1 < self.fonts.len() {
                Action::Update
            } else {
                Action::Nothing
            },
            Key::Char(_) => Action::Update,
            Key::Other => Action::Nothing,
        }
    }

    /// The commands one key issues by itself, before any repaint: Backspace
    /// steps back over the character it removes, and over nothing if there is
    /// none.
    pub open spec fn key_ops(self, key: Key) -> Seq<Op> {
        if !self.confirmed && key == Key::Backspace && self.input.len() > 0 {
            seq![Op::MoveLeft(1)]
        } else {
            Seq::empty()
        }
    }

    /// The state after a sequence of keys, first key first.
    pub open spec fn after_all(self, keys: Seq<Key>) -> PromptState
        decreases keys.len(),
    {
        if keys.len() == 0 {
            self
        } else {
            self.after_all(keys.drop_last()).after(keys.last())
        }
    }
}

/// The views of a list of strings.
pub open spec fn texts(strings: Seq<String>) -> Seq<Seq<char>> {
    Seq::new(strings.len(), |i: int| strings[i]@)
}

/// The commands that reserve `lines` blank lines and return to the first of
/// them.
pub open spec fn reserve_ops(lines: nat) -> Seq<Op> {
    Seq::new(lines, |i: int| Op::Print(line_break())).push(Op::MoveToPreviousLine(lines))
}

/// The commands that redraw the input line, with the cursor starting just
/// behind the input and ending there again.
pub open spec fn input_ops(input: Seq<char>) -> Seq<Op> {
    seq![Op::MoveLeft(input.len()), Op::Clear(ClearKind::CurrentLine), Op::Print(input)]
}

/// The mark in front of a candidate: `[x]` on the selected one, `[ ]` on the
/// others.
pub open spec fn marker(selected: bool) -> Seq<char> {
    if selected {
        seq!['[', 'x', ']']
    } else {
        seq!['[', ' ', ']']
    }
}

/// The text of one candidate line.
pub open spec fn candidate_line(selected: bool, preview: Seq<char>) -> Seq<char> {
    marker(selected) + preview
}

/// The three commands that draw candidate number `i`.
pub open spec fn candidate_step(selected: nat, previews: Seq<Seq<char>>, i: int) -> Seq<Op> {
    seq![
        Op::MoveToNextLine(1),
        Op::Clear(ClearKind::CurrentLine),
        Op::Print(candidate_line(i == selected, previews[i])),
    ]
}

/// The commands that draw the first `count` candidate lines, top down.
pub open spec fn candidate_ops(selected: nat, previews: Seq<Seq<char>>, count: nat) -> Seq<Op>
    decreases count,
{
    if count == 0 {
        Seq::empty()
    } else {
        candidate_ops(selected, previews, (count - 1) as nat) + candidate_step(
            selected,
            previews,
            count - 1,
        )
    }
}

/// The commands of one whole repaint: input line, every candidate line, and
/// back to the end of the input.
pub open spec fn repaint_ops(state: PromptState, previews: Seq<Seq<char>>) -> Seq<Op> {
    input_ops(state.input) + candidate_ops(state.selected, previews, previews.len()) + seq![
        Op::MoveToPreviousLine(previews.len()),
        Op::MoveRight(state.input.len()),
    ]
}

/// The commands that end the session: the input line is replaced by the chosen
/// rendering and a line break, and everything below is erased.
pub open spec fn confirm_ops(state: PromptState, chosen: Seq<char>) -> Seq<Op> {
    seq![
        Op::MoveLeft(state.input.len()),
        Op::Clear(ClearKind::CurrentLine),
        Op::Print(chosen + line_break()),
        Op::Clear(ClearKind::FromCursorDown),
    ]
}

/// Whether every key of the sequence is a character key.
pub open spec fn all_chars(keys: Seq<Key>) -> bool {
    forall|i: int| 0 <= i < keys.len() ==> #[trigger] keys[i] is Char
}

/// The characters of a sequence of character keys, in order.
pub open spec fn typed(keys: Seq<Key>) -> Seq<char> {
    Seq::new(keys.len(), |i: int| keys[i]->Char_0)
}

/// Typing appends: after any sequence of character keys a running session
/// is still running, and its input is what it was, followed by the typed
/// characters in order; fonts and selection are untouched.
pub proof fn lemma_typing_appends(state: PromptState, keys: Seq<Key>)
    requires
        !state.confirmed,
        all_chars(keys),
    ensures
        state.after_all(keys).input == state.input + typed(keys),
        state.after_all(keys).fonts == state.fonts,
        state.after_all(keys).selected == state.selected,
        !state.after_all(keys).confirmed,
    decreases keys.len(),
{
    if keys.len() == 0 {
        assert(state.input + typed(keys) =~= state.input);
    } else {
        let earlier = keys.drop_last();
        assert(all_chars(earlier)) by {
            assert forall|i: int| 0 <= i < earlier.len() implies #[trigger] earlier[i] is Char by {
                assert(keys[i] is Char);
            }
        }
        lemma_typing_appends(state, earlier);
        assert(keys.last() is Char);
        assert(state.input + typed(keys) =~= (state.input + typed(earlier)).push(
            keys.last()->Char_0,
        ));
    }
}

/// From the start of a session, the input after any sequence of character
/// keys is exactly the typed characters, in order.
pub proof fn lemma_typing_from_start(fonts: Seq<Font>, keys: Seq<Key>)
    requires
        all_chars(keys),
    ensures
        PromptState::initial(fonts).after_all(keys).input == typed(keys),
{
    lemma_typing_appends(PromptState::initial(fonts), keys);
    assert(Seq::<char>::empty() + typed(keys) =~= typed(keys));
}

/// No key moves the selection out of the font list, and no key changes the
/// list.
pub proof fn lemma_key_keeps_selection_in_range(state: PromptState, key: Key)
    requires
        state.wf(),
    ensures
        state.after(key).wf(),
        state.after(key).fonts == state.fonts,
{
}

/// Whatever keys arrive, the selection stays within the font list.
pub proof fn lemma_selection_stays_in_range(state: PromptState, keys: Seq<Key>)
    requires
        state.wf(),
    ensures
        state.after_all(keys).wf(),
        state.after_all(keys).fonts == state.fonts,
    decreases keys.len(),
{
    if keys.len() > 0 {
        lemma_selection_stays_in_range(state, keys.drop_last());
        lemma_key_keeps_selection_in_range(state.after_all(keys.drop_last()), keys.last());
    }
}

/// A confirmed session is over: whatever keys arrive, nothing changes and
/// nothing is asked of the caller.
pub proof fn lemma_confirmed_is_final(state: PromptState, keys: Seq<Key>)
    requires
        state.confirmed,
    ensures
        state.after_all(keys) == state,
        forall|key: Key| #[trigger] state.action(key) == Action::Nothing,
    decreases keys.len(),
{
    if keys.len() > 0 {
        lemma_confirmed_is_final(state, keys.drop_last());
    }
}

/// Enter confirms a running session and changes nothing else; a session is
/// confirmed by Enter alone.
pub proof fn lemma_enter_confirms(state: PromptState, key: Key)
    requires
        !state.confirmed,
    ensures
        state.after(key).confirmed <==> key == Key::Enter,
        state.action(key) == Action::Confirm <==> key == Key::Enter,
        state.after(Key::Enter) == (PromptState { confirmed: true, ..state }),
{
}

/// Up on the first font and Down on the last change nothing and ask for
/// nothing: the selection does not wrap around.
pub proof fn lemma_selection_is_clamped(state: PromptState)
    requires
        state.wf(),
    ensures
        state.selected == 0 ==> state.after(Key::Up) == state && state.action(Key::Up)
            == Action::Nothing,
        state.selected == state.fonts.len() - 1 ==> state.after(Key::Down) == state
            && state.action(Key::Down) == Action::Nothing,
{
}

/// Candidate lines take three commands each.
pub proof fn lemma_candidate_count(selected: nat, previews: Seq<Seq<char>>, count: nat)
    ensures
        candidate_ops(selected, previews, count).len() == 3 * count,
    decreases count,
{
    if count > 0 {
        lemma_candidate_count(selected, previews, (count - 1) as nat);
    }
}

/// Candidate number `i` is drawn by commands `3 * i` to `3 * i + 2`: down one
/// line, clear it, and print the font's preview behind its marker, which is
/// `[x]` for the selected font and for no other.
pub proof fn lemma_candidate_commands(
    selected: nat,
    previews: Seq<Seq<char>>,
    count: nat,
    i: int,
)
    requires
        0 <= i < count,
    ensures
        candidate_ops(selected, previews, count).len() == 3 * count,
        candidate_ops(selected, previews, count)[3 * i] == Op::MoveToNextLine(1),
        candidate_ops(selected, previews, count)[3 * i + 1] == Op::Clear(ClearKind::CurrentLine),
        candidate_ops(selected, previews, count)[3 * i + 2] == Op::Print(
            marker(i == selected) + previews[i],
        ),
        marker(i == selected) == marker(true) <==> i == selected,
    decreases count,
{
    lemma_candidate_count(selected, previews, count);
    lemma_candidate_count(selected, previews, (count - 1) as nat);
    if i < count - 1 {
        lemma_candidate_commands(selected, previews, (count - 1) as nat, i);
    }
    assert(marker(true)[1] != marker(false)[1]);
}

/// A repaint depends on the state and the previews alone: two repaints in a
/// row, with nothing changed in between, append the same commands twice.
pub proof fn lemma_repaint_repeats(
    before: Seq<Op>,
    once: Seq<Op>,
    twice: Seq<Op>,
    state: PromptState,
    previews: Seq<Seq<char>>,
)
    requires
        once == before + repaint_ops(state, previews),
        twice == once + repaint_ops(state, previews),
    ensures
        once.skip(before.len() as int) == twice.skip(once.len() as int),
        once.skip(before.len() as int) == repaint_ops(state, previews),
{
    assert(once.skip(before.len() as int) =~= repaint_ops(state, previews));
    assert(twice.skip(once.len() as int) =~= repaint_ops(state, previews));
}

/// An interactive prompt over a fixed, non-empty list of fonts.
#[derive(Clone, Debug)]
pub struct Prompt {
    input: InputBuffer,
    fonts: Vec<Font>,
    current_font: usize,
    num_whole_lines: usize,
    confirmed: bool,
}

impl View for Prompt {
    type V = PromptState;

    closed spec fn view(&self) -> PromptState {
        PromptState {
            input: self.input@,
            fonts: self.fonts@,
            selected: self.current_font as nat,
            confirmed: self.confirmed,
        }
    }
}

impl Prompt {
    /// The prompt's invariant: the selection points at one of the fonts, and
    /// the number of reserved lines is one more than the number of fonts.
    pub closed spec fn wf(&self) -> bool {
        &&& self.current_font < self.fonts@.len()
        &&& self.num_whole_lines == self.fonts@.len() + 1
    }

    /// A well-formed prompt has a well-formed state: its selection is an index
    /// into its font list.
    pub proof fn lemma_selection_in_range(&self)
        requires
            self.wf(),
        ensures
            self@.wf(),
            0 <= self@.selected <= self@.fonts.len() - 1,
    {
    }

    /// A prompt at the start of its session.
    pub fn new(fonts: Vec<Font>) -> (prompt: Self)
        requires
            1 <= fonts@.len() < usize::MAX,
        ensures
            prompt.wf(),
            prompt@ == PromptState::initial(fonts@),
    {
        let num_whole_lines: usize = fonts.len() + 1;
        Prompt {
            input: InputBuffer::new(),
            fonts,
            current_font: 0,
            num_whole_lines,
            confirmed: false,
        }
    }

    /// The input typed so far.
    pub fn input(&self) -> (input: &InputBuffer)
        ensures
            input@ == self@.input,
    {
        &self.input
    }

    /// The fonts on offer.
    pub fn fonts(&self) -> (fonts: &Vec<Font>)
        ensures
            fonts@ == self@.fonts,
    {
        &self.fonts
    }

    /// Whether the session has been confirmed.
    pub fn is_confirmed(&self) -> (confirmed: bool)
        ensures
            confirmed == self@.confirmed,
    {
        self.confirmed
    }

    /// The index of the selected font.
    pub fn current_font(&self) -> (index: usize)
        requires
            self.wf(),
        ensures
            index == self@.selected,
            index < self@.fonts.len(),
    {
        self.current_font
    }

    /// The selected font.
    pub fn selected_font(&self) -> (font: Font)
        requires
            self.wf(),
        ensures
            font == self@.fonts[self@.selected as int],
    {
        self.fonts[self.current_font]
    }

    /// The number of screen lines the prompt occupies.
    pub fn num_whole_lines(&self) -> (lines: usize)
        requires
            self.wf(),
        ensures
            lines == self@.lines(),
    {
        self.num_whole_lines
    }

    /// Reserves the screen region: one line break per line of the region, then
    /// back up by as many lines, which leaves the cursor at the start of the
    /// input line.
    pub fn initialize_prompt(&self, w: &mut Vec<Command>)
        requires
            self.wf(),
        ensures
            ops(final(w)@) == ops(old(w)@) + reserve_ops(self@.lines()),
    {
        let ghost before = ops(w@);
        let n: usize = self.num_whole_lines;
        let mut i: usize = 0;
        while i < n
            invariant
                i <= n,
                ops(w@) == before + Seq::new(i as nat, |k: int| Op::Print(line_break())),
            decreases n - i,
        {
            let text = String::from_str("\r\n");
            proof {
                reveal_strlit("\r\n");
                assert(text@ =~= line_break());
            }
            emit(w, Command::Print(text));
            proof {
                assert(ops(w@) =~= before + Seq::new(
                    (i + 1) as nat,
                    |k: int| Op::Print(line_break()),
                ));
            }
            i = i + 1;
        }
        emit(w, Command::MoveToPreviousLine(n));
        proof {
            assert(ops(w@) =~= before + reserve_ops(self@.lines()));
        }
    }

    /// Applies one key to the state. Backspace on a non-empty input also steps
    /// the cursor back over the removed character at once; no other key
    /// issues a command by itself. Enter confirms the session, and a confirmed
    /// session ignores every key.
    pub fn handle_key_event(&mut self, key: Key, w: &mut Vec<Command>) -> (action: Action)
        requires
            old(self).wf(),
        ensures
            final(self).wf(),
            final(self)@ == old(self)@.after(key),
            action == old(self)@.action(key),
            ops(final(w)@) == ops(old(w)@) + old(self)@.key_ops(key),
    {
        let ghost before = ops(w@);
        if self.confirmed {
            proof {
                assert(ops(w@) =~= before + old(self)@.key_ops(key));
            }
            return Action::Nothing;
        }
        let action = match key {
            Key::Enter => {
                self.confirmed = true;
                Action::Confirm
            },
            Key::Backspace => {
                if self.input.remove_last() {
                    emit(w, Command::MoveLeft(1));
                }
                Action::Update
            },
            Key::Up => {
                if self.current_font > 0 {
                    self.current_font = self.current_font - 1;
                    Action::Update
                } else {
                    Action::Nothing
                }
            },
            Key::Down => {
                if self.current_font + 1 < self.fonts.len() {
                    self.current_font = self.current_font + 1;
                    Action::Update
                } else {
                    Action::Nothing
                }
            },
            Key::Char(c) => {
                self.input.append(c);
                Action::Update
            },
            Key::Other => Action::Nothing,
        };
        proof {
            assert(ops(w@) =~= before + old(self)@.key_ops(key));
        }
        action
    }

    /// Redraws the input line: back to its first column, clear it, print the
    /// input.
    pub fn render_input(&self, w: &mut Vec<Command>)
        ensures
            ops(final(w)@) == ops(old(w)@) + input_ops(self@.input),
    {
        let ghost before = ops(w@);
        emit(w, Command::MoveLeft(self.input.len()));
        emit(w, Command::Clear(ClearKind::CurrentLine));
        emit(w, Command::Print(self.input.to_text()));
        proof {
            assert(ops(w@) =~= before + input_ops(self@.input));
        }
    }

    /// Redraws every candidate line, top down: `previews[i]` is the input as
    /// font number `i` renders it.
    pub fn render_candidates(&self, previews: &Vec<String>, w: &mut Vec<Command>)
        requires
            self.wf(),
            previews@.len() == self@.fonts.len(),
        ensures
            ops(final(w)@) == ops(old(w)@) + candidate_ops(
                self@.selected,
                texts(previews@),
                previews@.len(),
            ),
    {
        let ghost before = ops(w@);
        let n: usize = previews.len();
        let mut i: usize = 0;
        while i < n
            invariant
                i <= n,
                n == previews@.len(),
                ops(w@) == before + candidate_ops(self@.selected, texts(previews@), i as nat),
            decreases n - i,
        {
            let ghost drawn = ops(w@);
            let mut line = if i == self.current_font {
                String::from_str("[x]")
            } else {
                String::from_str("[ ]")
            };
            proof {
                reveal_strlit("[x]");
                reveal_strlit("[ ]");
                assert(line@ =~= marker(i == self@.selected));
            }
            line.append(previews[i].as_str());
            emit(w, Command::MoveToNextLine(1));
            emit(w, Command::Clear(ClearKind::CurrentLine));
            emit(w, Command::Print(line));
            proof {
                assert(ops(w@) =~= drawn + candidate_step(
                    self@.selected,
                    texts(previews@),
                    i as int,
                ));
                assert(ops(w@) =~= before + candidate_ops(
                    self@.selected,
                    texts(previews@),
                    (i + 1) as nat,
                ));
            }
            i = i + 1;
        }
    }

    /// One whole repaint after an update: the input line, every candidate
    /// line, then up to the input line again and right to the end of the
    /// input.
    pub fn repaint(&self, previews: &Vec<String>, w: &mut Vec<Command>)
        requires
            self.wf(),
            previews@.len() == self@.fonts.len(),
        ensures
            ops(final(w)@) == ops(old(w)@) + repaint_ops(self@, texts(previews@)),
    {
        let ghost before = ops(w@);
        self.render_input(w);
        self.render_candidates(previews, w);
        emit(w, Command::MoveToPreviousLine(self.num_whole_lines - 1));
        emit(w, Command::MoveRight(self.input.len()));
        proof {
            assert(ops(w@) =~= before + repaint_ops(self@, texts(previews@)));
        }
    }

    /// Ends the session: replaces the input line by `chosen`, the input as the
    /// selected font renders it, and erases the candidate lines below.
    pub fn confirm(&self, chosen: &str, w: &mut Vec<Command>)
        ensures
            ops(final(w)@) == ops(old(w)@) + confirm_ops(self@, chosen@),
    {
        let ghost before = ops(w@);
        let mut text = String::from_str(chosen);
        proof {
            reveal_strlit("\r\n");
            assert("\r\n"@ =~= line_break());
        }
        text.append("\r\n");
        emit(w, Command::MoveLeft(self.input.len()));
        emit(w, Command::Clear(ClearKind::CurrentLine));
        emit(w, Command::Print(text));
        emit(w, Command::Clear(ClearKind::FromCursorDown));
        proof {
            assert(ops(w@) =~= before + confirm_ops(self@, chosen@));
        }
    }
}

} // verus!

//! The input buffer: the characters typed so far.

use vstd::prelude::*;

verus! {

/// What `remove_last` leaves of a sequence: everything but its last element,
/// or the empty sequence unchanged.
pub open spec fn without_last(s: Seq<char>) -> Seq<char> {
    if s.len() == 0 {
        s
    } else {
        s.drop_last()
    }
}

/// `String::push` appends exactly the given character to the string.
pub assume_specification[ String::push ](s: &mut String, c: char)
    ensures
        final(s)@ == old(s)@.push(c),
;

/// The raw sequence of characters the user has typed, oldest first.
#[derive(Clone, Debug)]
pub struct InputBuffer {
    chars: Vec<char>,
}

impl View for InputBuffer {
    type V = Seq<char>;

    closed spec fn view(&self) -> Seq<char> {
        self.chars@
    }
}

impl InputBuffer {
    /// An empty buffer.
    pub fn new() -> (buffer: Self)
        ensures
            buffer@ == Seq::<char>::empty(),
    {
        InputBuffer { chars: Vec::new() }
    }

    /// Adds one character at the end.
    pub fn append(&mut self, c: char)
        ensures
            final(self)@ == old(self)@.push(c),
    {
        self.chars.push(c);
    }

    /// Removes the last character if there is one, and says whether it did.
    pub fn remove_last(&mut self) -> (removed: bool)
        ensures
            final(self)@ == without_last(old(self)@),
            removed == (old(self)@.len() > 0),
    {
        match self.chars.pop() {
            Some(_) => true,
            None => false,
        }
    }

    /// The number of characters held.
    pub fn len(&self) -> (n: usize)
        ensures
            n == self@.len(),
    {
        self.chars.len()
    }

    /// Whether nothing has been typed, or all of it was removed again.
    pub fn is_empty(&self) -> (empty: bool)
        ensures
            empty == (self@.len() == 0),
    {
        self.chars.len() == 0
    }

    /// A snapshot of the characters, in order.
    pub fn as_text(&self) -> (text: &Vec<char>)
        ensures
            text@ == self@,
    {
        &self.chars
    }

    /// The characters as one string, in order.
    pub fn to_text(&self) -> (text: String)
        ensures
            text@ == self@,
    {
        let mut text = String::new();
        let n: usize = self.chars.len();
        let mut i: usize = 0;
        while i < n
            invariant
                n == self.chars@.len(),
                i <= n,
                text@ == self.chars@.take(i as int),
            decreases n - i,
        {
            text.push(self.chars[i]);
            proof {
                assert(self.chars@.take(i + 1) =~= self.chars@.take(i as int).push(self.chars@[i as int]));
            }
            i = i + 1;
        }
        proof {
            assert(self.chars@.take(n as int) =~= self.chars@);
        }
        text
    }
}

/// Removing the last character undoes an append: `append` followed by
/// `remove_last` gives the buffer back as it was.
pub proof fn lemma_remove_last_undoes_append(buffer: Seq<char>, c: char)
    ensures
        without_last(buffer.push(c)) == buffer,
{
    assert(buffer.push(c).drop_last() =~= buffer);
}

/// Removing from an empty buffer leaves it empty, however often it is done.
pub proof fn lemma_remove_last_of_empty()
    ensures
        without_last(Seq::<char>::empty()) == Seq::<char>::empty(),
        without_last(without_last(Seq::<char>::empty())) == Seq::<char>::empty(),
{
}

} // verus!

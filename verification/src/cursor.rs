use vstd::prelude::*;

verus! {

/// An immutable view over the input: the whole text and the position of the
/// next character to read. Threaded by value through every combinator.
#[derive(Clone, Copy)]
pub struct Cursor<'a> {
    pub text: &'a [char],
    pub pos: usize,
}

impl<'a> Cursor<'a> {
    /// A cursor never points past the end of its text.
    pub open spec fn wf(self) -> bool {
        self.pos <= self.text@.len()
    }

    /// A cursor at the start of `text`.
    pub fn new(text: &'a [char]) -> (c: Cursor<'a>)
        ensures
            c.text@ == text@,
            c.pos == 0,
            c.wf(),
    {
        Cursor { text, pos: 0 }
    }

    /// A cursor at offset `pos` into `text`.
    pub fn at(text: &'a [char], pos: usize) -> (c: Cursor<'a>)
        requires
            pos <= text@.len(),
        ensures
            c.text@ == text@,
            c.pos == pos,
            c.wf(),
    {
        Cursor { text, pos }
    }

    /// How much input is left in front of the cursor.
    pub fn left(self) -> (n: usize)
        requires
            self.wf(),
        ensures
            n == self.text@.len() - self.pos,
    {
        self.text.len() - self.pos
    }
}

} // verus!

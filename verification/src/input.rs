//! The text box of the editors: a row of characters and a cursor among them.

use vstd::prelude::*;

use crate::text::{chars_of, string_of};

verus! {

/// A text that is being typed, with the place of the cursor.
pub struct TextInput {
    buf: Vec<char>,
    cursor: usize,
}

/// How many line feeds are in the text.
pub open spec fn feeds(s: Seq<char>) -> nat
    decreases s.len(),
{
    if s.len() == 0 {
        0
    } else if s.last() == '\n' {
        feeds(s.drop_last()) + 1
    } else {
        feeds(s.drop_last())
    }
}

/// How many characters stand behind the last line feed of the text.
pub open spec fn column(s: Seq<char>) -> nat
    decreases s.len(),
{
    if s.len() == 0 || s.last() == '\n' {
        0
    } else {
        column(s.drop_last()) + 1
    }
}

impl TextInput {
    /// The characters that were typed.
    pub closed spec fn typed(self) -> Seq<char> {
        self.buf@
    }

    /// How many characters stand before the cursor.
    pub closed spec fn at(self) -> int {
        self.cursor as int
    }

    /// The cursor stands between two characters or at an end.
    pub open spec fn wf(self) -> bool {
        0 <= self.at() <= self.typed().len()
    }

    /// A text box that holds the string, with the cursor at its end.
    pub fn new(s: &str) -> (r: Self)
        ensures
            r.wf(),
            r.typed() == s@,
            r.at() == s@.len(),
    {
        let buf = chars_of(s);
        let cursor = buf.len();
        TextInput { buf, cursor }
    }

    /// The text in the box.
    pub fn as_string(&self) -> (r: String)
        ensures
            r@ == self.typed(),
    {
        assert(self.buf@.subrange(0, self.buf@.len() as int) =~= self.buf@);
        string_of(&self.buf, 0, self.buf.len())
    }

    /// Puts a character at the cursor and moves the cursor behind it.
    pub fn insert(&mut self, c: char)
        requires
            old(self).wf(),
        ensures
            final(self).wf(),
            final(self).typed() == old(self).typed().insert(old(self).at(), c),
            final(self).at() == old(self).at() + 1,
    {
        self.buf.insert(self.cursor, c);
        let n: usize = self.buf.len();
        assert(self.cursor < n);
        self.cursor = self.cursor + 1;
    }

    /// Takes away the character before the cursor.
    pub fn backspace(&mut self)
        requires
            old(self).wf(),
        ensures
            final(self).wf(),
            old(self).at() == 0 ==> *final(self) == *old(self),
            old(self).at() > 0 ==> {
                &&& final(self).typed() == old(self).typed().remove(old(self).at() - 1)
                &&& final(self).at() == old(self).at() - 1
            },
    {
        if self.cursor > 0 {
            self.cursor = self.cursor - 1;
            self.buf.remove(self.cursor);
        }
    }

    /// Takes away the character behind the cursor.
    pub fn delete(&mut self)
        requires
            old(self).wf(),
        ensures
            final(self).wf(),
            old(self).at() == old(self).typed().len() ==> *final(self) == *old(self),
            old(self).at() < old(self).typed().len() ==> {
                &&& final(self).typed() == old(self).typed().remove(old(self).at())
                &&& final(self).at() == old(self).at()
            },
    {
        if self.cursor < self.buf.len() {
            self.buf.remove(self.cursor);
        }
    }

    /// Moves the cursor one character back.
    pub fn left(&mut self)
        requires
            old(self).wf(),
        ensures
            final(self).wf(),
            final(self).typed() == old(self).typed(),
            final(self).at() == (if old(self).at() > 0 {
                old(self).at() - 1
            } else {
                0
            }),
    {
        if self.cursor > 0 {
            self.cursor = self.cursor - 1;
        }
    }

    /// Moves the cursor one character on.
    pub fn right(&mut self)
        requires
            old(self).wf(),
        ensures
            final(self).wf(),
            final(self).typed() == old(self).typed(),
            final(self).at() == (if old(self).at() < old(self).typed().len() {
                old(self).at() + 1
            } else {
                old(self).at()
            }),
    {
        if self.cursor < self.buf.len() {
            self.cursor = self.cursor + 1;
        }
    }

    /// Moves the cursor to the start.
    pub fn home(&mut self)
        requires
            old(self).wf(),
        ensures
            final(self).wf(),
            final(self).typed() == old(self).typed(),
            final(self).at() == 0,
    {
        self.cursor = 0;
    }

    /// Moves the cursor to the end.
    pub fn end(&mut self)
        requires
            old(self).wf(),
        ensures
            final(self).wf(),
            final(self).typed() == old(self).typed(),
            final(self).at() == old(self).typed().len(),
    {
        self.cursor = self.buf.len();
    }

    /// The line and the column of the cursor, both counted from zero.
    pub fn line_col(&self) -> (r: (usize, usize))
        requires
            self.wf(),
        ensures
            r.0 == feeds(self.typed().take(self.at())),
            r.1 == column(self.typed().take(self.at())),
    {
        let mut line: usize = 0;
        let mut col: usize = 0;
        let mut i: usize = 0;
        assert(self.buf@.take(0) =~= Seq::<char>::empty());
        while i < self.cursor
            invariant
                i <= self.cursor <= self.buf@.len(),
                line == feeds(self.buf@.take(i as int)),
                col == column(self.buf@.take(i as int)),
                line <= i,
                col <= i,
            decreases self.cursor - i,
        {
            assert(self.buf@.take(i + 1).drop_last() =~= self.buf@.take(i as int));
            assert(self.buf@.take(i + 1).last() == self.buf@[i as int]);
            if self.buf[i] == '\n' {
                line = line + 1;
                col = 0;
            } else {
                col = col + 1;
            }
            i = i + 1;
        }
        (line, col)
    }
}

/// Taking back what was just typed leaves the text and the cursor as they were.
pub proof fn law_backspace_undoes_insert(text: Seq<char>, at: int, c: char)
    requires
        0 <= at <= text.len(),
    ensures
        text.insert(at, c).remove(at) == text,
{
    assert(text.insert(at, c).remove(at) =~= text);
}

} // verus!

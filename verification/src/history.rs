//! The record of lines submitted to the child shell.
//!
//! The input router appends an entry each time a line is submitted with a
//! carriage return, and reads the most recent entry back when a history
//! recall key is pressed. Entries are never removed or reordered, so the
//! record is an append-only sequence, most recent last. The surrounding
//! editor state owns a value of this type and may keep it across terminal
//! sessions.

use vstd::prelude::*;

verus! {

/// Ordered record of previously submitted input lines, most recent last.
pub struct CommandHistory {
    entries: Vec<String>,
}

impl View for CommandHistory {
    type V = Seq<Seq<char>>;

    closed spec fn view(&self) -> Seq<Seq<char>> {
        self.entries@.map_values(|s: String| s@)
    }
}

impl CommandHistory {
    /// An empty history.
    pub fn new() -> (r: Self)
        ensures
            r@ == Seq::<Seq<char>>::empty(),
    {
        let h = CommandHistory { entries: Vec::new() };
        proof {
            assert(h@ =~= Seq::<Seq<char>>::empty());
        }
        h
    }

    /// Appends one submitted line; nothing else changes.
    pub fn push(&mut self, line: String)
        ensures
            final(self)@ == old(self)@.push(line@),
    {
        self.entries.push(line);
        proof {
            assert(final(self)@ =~= old(self)@.push(line@));
        }
    }

    /// How many lines have been submitted.
    pub fn len(&self) -> (n: usize)
        ensures
            n == self@.len(),
    {
        self.entries.len()
    }

    /// The most recent entry, or nothing when no line was ever submitted.
    pub fn last(&self) -> (r: Option<&String>)
        ensures
            self@.len() == 0 <==> r is None,
            r matches Some(s) ==> self@.len() > 0 && s@ == self@.last(),
    {
        if self.entries.len() == 0 {
            None
        } else {
            Some(&self.entries[self.entries.len() - 1])
        }
    }
}

} // verus!

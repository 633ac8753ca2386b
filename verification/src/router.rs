//! Routing of key input from the display pane to the child shell.
//!
//! The display widget raises key events; the router decides what to write to
//! the transport's input side and what local bookkeeping to perform. Plain
//! text is forwarded at once and collected into the pending line; a carriage
//! return submits the pending line to the command history and is forwarded
//! too, so the shell executes it; a history recall key writes the most
//! recent history entry to the shell and scrolls the pane to its last line.
//! Recall with an empty history writes nothing.
//!
//! Recall deliberately returns the single most recent entry however often
//! the key is pressed; it does not step a cursor through older entries.
//!
//! Writes are fire-and-forget: the caller performs them and swallows
//! failures, since the reader loop detects child death on its own.

use vstd::prelude::*;
use vstd::string::StrSliceExecFns;
use vstd::string::StringExecFns;

use crate::history::CommandHistory;

verus! {

/// One key event of the display pane, as the toolkit reports it.
pub enum KeyEvent {
    /// An Up or Down key: recall from the command history.
    Recall,
    /// Any other key, carrying the text it produced; a carriage return
    /// arrives as the single character `'\r'`.
    Text(String),
}

/// What one key event obliges the bridge to do.
pub struct Dispatch {
    /// Text whose bytes are written to the child's input stream, or nothing.
    pub write: Option<String>,
    /// True when the display pane must scroll to its latest line.
    pub scroll_to_end: bool,
}

/// The submission character: a carriage return by itself.
pub open spec fn submit_text() -> Seq<char> {
    seq!['\r']
}

fn is_submit(t: &str) -> (r: bool)
    ensures
        r == (t@ == submit_text()),
{
    if t.unicode_len() == 1 {
        let c = t.get_char(0);
        proof {
            if c == '\r' {
                assert(t@ =~= submit_text());
            }
        }
        c == '\r'
    } else {
        false
    }
}

/// The in-progress line being typed, and the routing policy applied to each
/// key event. The command history is owned by the caller and borrowed per
/// event, so it can outlive the terminal session.
pub struct InputRouter {
    pending: String,
}

impl InputRouter {
    /// The text typed since the last submission.
    pub closed spec fn pending_line(&self) -> Seq<char> {
        self.pending@
    }

    /// The text typed since the last submission, as stored.
    pub fn pending_text(&self) -> (r: &String)
        ensures
            r@ == self.pending_line(),
    {
        &self.pending
    }

    /// A fresh router with an empty pending line.
    pub fn new() -> (r: Self)
        ensures
            r.pending_line() == Seq::<char>::empty(),
    {
        InputRouter { pending: String::new() }
    }

    /// Applies the routing policy to one key event.
    ///
    /// Recall leaves the pending line and the history unchanged, asks for a
    /// scroll, and writes the most recent history entry — or nothing when
    /// the history is empty. A carriage return appends exactly the pending
    /// line to the history, empties the pending line, and is forwarded.
    /// Any other text is appended to the pending line and forwarded.
    pub fn handle(&mut self, history: &mut CommandHistory, ev: KeyEvent) -> (d: Dispatch)
        ensures
            ev is Recall ==> {
                &&& final(self).pending_line() == old(self).pending_line()
                &&& final(history)@ == old(history)@
                &&& d.scroll_to_end
                &&& old(history)@.len() == 0 ==> d.write is None
                &&& old(history)@.len() > 0 ==> (d.write matches Some(w) && w@ == old(
                    history,
                )@.last())
            },
            ev matches KeyEvent::Text(t) ==> {
                &&& d.write matches Some(w) && w@ == t@
                &&& !d.scroll_to_end
                &&& t@ == submit_text() ==> {
                    &&& final(history)@ == old(history)@.push(old(self).pending_line())
                    &&& final(self).pending_line() == Seq::<char>::empty()
                }
                &&& t@ != submit_text() ==> {
                    &&& final(history)@ == old(history)@
                    &&& final(self).pending_line() == old(self).pending_line() + t@
                }
            },
    {
        match ev {
            KeyEvent::Recall => {
                let write = match history.last() {
                    Some(entry) => Some(entry.clone()),
                    None => None,
                };
                Dispatch { write, scroll_to_end: true }
            },
            KeyEvent::Text(t) => {
                if is_submit(t.as_str()) {
                    let line = self.pending.clone();
                    self.pending = String::new();
                    history.push(line);
                } else {
                    self.pending.append(t.as_str());
                }
                Dispatch { write: Some(t), scroll_to_end: false }
            },
        }
    }
}

} // verus!

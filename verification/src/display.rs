//! Display-side policy of the bridge: the idle cursor blink.
//!
//! The display widget exposes a cursor style; the bridge drives it on a
//! one-second timer to emulate a terminal cursor. A focused pane keeps a
//! steady block cursor; an unfocused pane alternates between the block and
//! the dim style.

use vstd::prelude::*;

verus! {

/// The two cursor styles the blink alternates between.
pub enum CursorStyle {
    /// The faint idle cursor.
    Dim,
    /// The solid cursor.
    Block,
}

/// One tick of the blink timer: steady block while the pane has focus,
/// alternation while it does not.
pub fn blink_tick(has_focus: bool, current: &CursorStyle) -> (next: CursorStyle)
    ensures
        has_focus ==> next is Block,
        !has_focus ==> (next is Block <==> !(current is Block)),
{
    if has_focus {
        CursorStyle::Block
    } else {
        match current {
            CursorStyle::Block => CursorStyle::Dim,
            CursorStyle::Dim => CursorStyle::Block,
        }
    }
}

} // verus!

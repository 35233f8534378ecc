//! Text that takes part in the global selection.

use vstd::prelude::*;

verus! {

/// A run of text the global selection can highlight and copy.
pub struct SelectableText {
    pub text: String,
}

impl SelectableText {
    pub fn new(text: String) -> (r: Self)
        ensures
            r.text@ == text@,
    {
        SelectableText { text }
    }
}

} // verus!

use vstd::prelude::*;

use super::SegmentKind;

verus! {

/// A segment value that never changes.
pub struct Constant {
    text: String,
}

impl Constant {
    /// The text that the constant holds.
    pub closed spec fn spec_text(&self) -> Seq<char> {
        self.text@
    }

    pub fn new(text: String) -> (r: Constant)
        ensures
            r.spec_text() == text@,
    {
        Constant { text }
    }

    /// The value of the constant: a copy of its text.
    pub fn value(&self) -> (r: String)
        ensures
            r@ == self.spec_text(),
    {
        self.text.clone()
    }
}

impl SegmentKind for Constant {
    fn compute_value(&mut self) -> String {
        self.value()
    }
}

} // verus!

//! The text of the utterance in progress: a committed part that grows, and a
//! tentative part that every update replaces.

use crate::text::{chars_of, is_blank, owned, push_chars, str_is_blank};
use vstd::prelude::*;

verus! {

/// Committed text of the current segment, and the tentative text after it.
pub struct Transcript {
    segment: String,
    partial: String,
}

impl Transcript {
    /// The committed text of the current segment.
    pub closed spec fn spec_committed(&self) -> Seq<char> {
        self.segment@
    }

    /// The tentative text; the next update replaces it whole.
    pub closed spec fn spec_partial(&self) -> Seq<char> {
        self.partial@
    }

    pub fn new() -> (r: Self)
        ensures
            r.spec_committed() == Seq::<char>::empty(),
            r.spec_partial() == Seq::<char>::empty(),
    {
        Transcript { segment: String::new(), partial: String::new() }
    }

    /// Appends committed text.
    pub fn push_final(&mut self, text: &str)
        ensures
            final(self).spec_committed() == old(self).spec_committed() + text@,
            final(self).spec_partial() == old(self).spec_partial(),
    {
        let cs = chars_of(text);
        push_chars(&mut self.segment, cs.as_slice());
    }

    /// Replaces the tentative text (it is not appended to).
    pub fn replace_partial(&mut self, text: &str)
        ensures
            final(self).spec_committed() == old(self).spec_committed(),
            final(self).spec_partial() == text@,
    {
        self.partial = owned(text);
    }

    /// The whole text to show: committed followed by tentative.
    pub fn display(&self) -> (r: String)
        ensures
            r@ == self.spec_committed() + self.spec_partial(),
    {
        let mut display = owned(self.segment.as_str());
        let cs = chars_of(self.partial.as_str());
        push_chars(&mut display, cs.as_slice());
        display
    }

    pub fn committed(&self) -> (r: &str)
        ensures
            r@ == self.spec_committed(),
    {
        self.segment.as_str()
    }

    pub fn partial(&self) -> (r: &str)
        ensures
            r@ == self.spec_partial(),
    {
        self.partial.as_str()
    }

    /// The utterance ended: hands out the committed text and empties both parts.
    /// The tentative text is dropped; committed text that is only white space
    /// gives `None`.
    pub fn take_segment(&mut self) -> (r: Option<String>)
        ensures
            final(self).spec_committed() == Seq::<char>::empty(),
            final(self).spec_partial() == Seq::<char>::empty(),
            r matches Some(s) ==> s@ == old(self).spec_committed(),
            r is None <==> is_blank(old(self).spec_committed()),
    {
        let mut segment = String::new();
        std::mem::swap(&mut segment, &mut self.segment);
        self.partial = String::new();
        if str_is_blank(segment.as_str()) {
            None
        } else {
            Some(segment)
        }
    }

    pub fn is_empty(&self) -> (r: bool)
        ensures
            r == (self.spec_committed().len() == 0 && self.spec_partial().len() == 0),
    {
        chars_of(self.segment.as_str()).len() == 0 && chars_of(self.partial.as_str()).len() == 0
    }
}

} // verus!

//! A string that the caller vouches for.

use vstd::prelude::*;

verus! {

/// Text that is taken to be fit for display on the word of whoever made
/// it: nothing is checked when one is made.
#[derive(Clone, Debug, PartialEq, Eq)]
pub struct TrustedStr(String);

impl View for TrustedStr {
    type V = Seq<char>;

    closed spec fn view(&self) -> Seq<char> {
        self.0@
    }
}

impl TrustedStr {
    /// Wraps `arg` as it is. No text is refused.
    pub fn new(arg: String) -> (r: Result<Self, &'static str>)
        ensures
            r matches Ok(t) && t@ == arg@,
    {
        Ok(TrustedStr(arg))
    }

    /// The text.
    pub fn inner(&self) -> (s: &String)
        ensures
            s@ == self@,
    {
        &self.0
    }
}

} // verus!

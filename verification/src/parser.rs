//! The parser: one compiled pattern, matched against input lines.

use crate::engine::{captures_by_name, named_captures, same_name_same_text};
use crate::extract::{after_attempt, order_after_attempt, store_captures};
use crate::record::Record;
use regex::Regex;
use vstd::prelude::*;

verus! {

/// Matches input against one compiled pattern and writes the named groups of
/// a match into a record. It holds no state besides the pattern.
pub struct RegexParser {
    pub regex: Regex,
}

impl Clone for RegexParser {
    fn clone(&self) -> (copy: Self)
        ensures
            copy == *self,
    {
        RegexParser { regex: self.regex.clone() }
    }
}

impl RegexParser {
    /// Matches `input` against the pattern. Without a match `record` is left
    /// as it was and the result is `false`. With a match every name of the
    /// pattern under which the engine reports a text is written into
    /// `record` with that text, in the order in which the pattern names its
    /// groups, and the result is `true`. Equal names come with equal texts.
    pub fn parse(&self, record: &mut Record, input: &str) -> (matched: bool)
        ensures
            matched == named_captures(self.regex, input@) is Some,
            !matched ==> *final(record) == *old(record),
            final(record)@ == after_attempt(old(record)@, named_captures(self.regex, input@)),
            final(record).names() == order_after_attempt(
                old(record).names(),
                old(record)@,
                named_captures(self.regex, input@),
            ),
            named_captures(self.regex, input@) matches Some(groups) ==> same_name_same_text(groups),
    {
        let found = captures_by_name(&self.regex, input);
        store_captures(record, &found)
    }
}

} // verus!

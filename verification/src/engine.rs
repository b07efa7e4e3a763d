//! The boundary to the `regex` crate: the types it hands over and the calls
//! made into it. Nothing in this file is proved; each contract records what
//! the crate's source shows.

use regex::Regex;
use vstd::prelude::*;

verus! {

/// `regex::Regex`, a compiled pattern. Opaque here.
#[verifier::external_type_specification]
#[verifier::external_body]
pub struct ExRegex(regex::Regex);

/// `regex::Error`, the reason a pattern did not compile. Opaque here.
#[verifier::external_type_specification]
#[verifier::external_body]
pub struct ExRegexError(regex::Error);

/// What `Regex::new` returns for the pattern text `source`.
pub uninterp spec fn compiled(source: Seq<char>) -> Result<Regex, regex::Error>;

/// The text that `describe` gives for `error`: what `Display` writes for it,
/// and the empty text for the one variant that `Display` does not handle.
pub uninterp spec fn error_text(error: regex::Error) -> Seq<char>;

/// What `captures_by_name` finds in `input`: `None` where the pattern does
/// not match. Otherwise one entry for each item that `Regex::capture_names`
/// yields, in its order: the name, or `None` where the item is an unnamed
/// group, and beside it what `Captures::name` gives for that name, the text
/// matched under it or `None` where nothing was.
pub uninterp spec fn named_captures(regex: Regex, input: Seq<char>) -> Option<
    Seq<(Option<Seq<char>>, Option<Seq<char>>)>,
>;

/// Entries of `groups` that carry the same name carry the same text.
pub open spec fn same_name_same_text(groups: Seq<(Option<Seq<char>>, Option<Seq<char>>)>) -> bool {
    forall|i: int, j: int|
        0 <= i < groups.len() && 0 <= j < groups.len() && (#[trigger] groups[i]).0 is Some
            && groups[i].0 == (#[trigger] groups[j]).0 ==> groups[i].1 == groups[j].1
}

/// Calls `Regex::new`. Assumed: in one build of the engine, compiling is a
/// function of the pattern text alone.
#[verifier::external_body]
pub(crate) fn compile(source: &str) -> (outcome: Result<Regex, regex::Error>)
    ensures
        outcome == compiled(source@),
{
    Regex::new(source)
}

/// `Clone` for `Regex`. Assumed: the copy is the same compiled pattern, so it
/// has the same groups and matches as the original does.
pub assume_specification[ <Regex as Clone>::clone ](regex: &Regex) -> (copy: Regex)
    ensures
        copy == *regex,
;

/// Calls `Display` for `regex::Error`, except on the hidden variant
/// `__Nonexhaustive`, for which `Display` does not return: that one gets the
/// empty text. Assumed: the text is a function of the error alone.
#[verifier::external_body]
pub(crate) fn describe(error: &regex::Error) -> (message: String)
    ensures
        message@ == error_text(*error),
{
    match *error {
        regex::Error::__Nonexhaustive => String::new(),
        _ => error.to_string(),
    }
}

/// Calls `Regex::captures`, walks `Regex::capture_names` and asks
/// `Captures::name` for the text under each name. Assumed: the result is a
/// function of the compiled pattern and the input alone; and, since every
/// text is looked up by its name in the one set of captures, equal names
/// come with equal texts.
#[verifier::external_body]
pub(crate) fn captures_by_name(regex: &Regex, input: &str) -> (found: Option<
    Vec<(Option<String>, Option<String>)>,
>)
    ensures
        found.deep_view() == named_captures(*regex, input@),
        found matches Some(groups) ==> same_name_same_text(groups.deep_view()),
{
    regex.captures(input).map(
        |found|
            regex.capture_names().map(
                |name|
                    (
                        name.map(|text| text.to_owned()),
                        name.and_then(|text| found.name(text)).map(|text| text.to_owned()),
                    ),
            ).collect(),
    )
}

} // verus!

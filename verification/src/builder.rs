//! The builder: takes configuration as name and value pairs and produces a
//! parser once a pattern has compiled.

use crate::engine::{compile, compiled, describe, error_text};
use crate::error::{OptionError, PatternCompileFailure};
use crate::parser::RegexParser;
use regex::Regex;
use vstd::prelude::*;

verus! {

/// The name of the option that carries the pattern.
pub const REGEX_OPTION: &'static str = "regex";

/// A pattern for lines such as
/// `seq: 0000000000, thread: 0000, runid: 1456947132, stamp: 2016-03-02T20:32:12 PAD`.
pub const LOGGEN_EXPR: &'static str =
    r"seq: (?P<seq>\d+), thread: (?P<thread>\d+), runid: (?P<runid>\d+), stamp: (?P<stamp>[^ ]+) (?P<padding>.*$)";

/// Collects options for a `RegexParser`. It holds the pattern that compiled
/// last, if any did, and the failure of the latest option, if it had one.
pub struct RegexParserBuilder {
    regex: Option<Regex>,
    failure: Option<PatternCompileFailure>,
}

/// The stored pattern after a compilation ended in `outcome`: a compiled
/// pattern replaces what was stored, a failure leaves it.
pub open spec fn pattern_after_compile(
    pattern: Option<Regex>,
    outcome: Result<Regex, regex::Error>,
) -> Option<Regex> {
    match outcome {
        Ok(regex) => Some(regex),
        Err(_) => pattern,
    }
}

/// The stored pattern after the option `name` was given `value`. Only the
/// pattern option is looked at.
pub open spec fn pattern_after_option(
    pattern: Option<Regex>,
    name: Seq<char>,
    value: Seq<char>,
) -> Option<Regex> {
    if name == REGEX_OPTION@ {
        pattern_after_compile(pattern, compiled(value))
    } else {
        pattern
    }
}

/// What is kept of a compilation of the pattern text `value` that ended in
/// `outcome`: for a failure the pattern text and what the compiler said of
/// it, for a compiled pattern nothing.
pub open spec fn rejected_by_compile(
    value: Seq<char>,
    outcome: Result<Regex, regex::Error>,
) -> Option<(Seq<char>, Seq<char>)> {
    match outcome {
        Ok(_) => None,
        Err(error) => Some((value, error_text(error))),
    }
}

/// What is kept of the option `name` with `value`: the failure of the
/// pattern option whose value does not compile, else nothing.
pub open spec fn rejected_by_option(name: Seq<char>, value: Seq<char>) -> Option<
    (Seq<char>, Seq<char>),
> {
    if name == REGEX_OPTION@ {
        rejected_by_compile(value, compiled(value))
    } else {
        None
    }
}

/// What building gives with `pattern` stored: the pattern of the parser, or
/// the name of the option that is missing.
pub open spec fn build_outcome(pattern: Option<Regex>) -> Result<Regex, Seq<char>> {
    match pattern {
        Some(regex) => Ok(regex),
        None => Err(REGEX_OPTION@),
    }
}

impl RegexParserBuilder {
    /// The pattern that is stored.
    pub closed spec fn pattern(&self) -> Option<Regex> {
        self.regex
    }

    /// The failure of the latest option: the pattern text that did not
    /// compile and what the compiler said of it.
    pub closed spec fn rejected(&self) -> Option<(Seq<char>, Seq<char>)> {
        match self.failure {
            Some(failure) => Some((failure.pattern@, failure.message@)),
            None => None,
        }
    }

    /// A builder with no pattern set.
    pub fn new() -> (builder: RegexParserBuilder)
        ensures
            builder.pattern() is None,
            builder.rejected() is None,
    {
        RegexParserBuilder { regex: None, failure: None }
    }

    /// Takes the result of compiling the pattern text `value`: a compiled
    /// pattern is stored in place of the one held before; a failure is kept
    /// as the latest diagnostic and the stored pattern stays.
    pub fn store_compiled(&mut self, value: String, outcome: Result<Regex, regex::Error>)
        ensures
            final(self).pattern() == pattern_after_compile(old(self).pattern(), outcome),
            final(self).rejected() == rejected_by_compile(value@, outcome),
    {
        match outcome {
            Ok(regex) => {
                self.regex = Some(regex);
                self.failure = None;
            },
            Err(error) => {
                let message = describe(&error);
                self.failure = Some(PatternCompileFailure { pattern: value, message });
            },
        }
    }

    /// Sets the option `name` to `value`. For the pattern option the value is
    /// compiled, and stored if it compiles; if it does not, the stored
    /// pattern stays and the failure can be read with `last_failure`. Any
    /// other option is ignored.
    pub fn option(&mut self, name: String, value: String)
        ensures
            final(self).pattern() == pattern_after_option(old(self).pattern(), name@, value@),
            final(self).rejected() == rejected_by_option(name@, value@),
    {
        if name == REGEX_OPTION.to_owned() {
            let outcome = compile(value.as_str());
            self.store_compiled(value, outcome);
        } else {
            self.failure = None;
        }
    }

    /// The failure of the latest option, if its pattern did not compile.
    pub fn last_failure(&self) -> (failure: Option<&PatternCompileFailure>)
        ensures
            match failure {
                Some(failure) => self.rejected() == Some((failure.pattern@, failure.message@)),
                None => self.rejected() is None,
            },
    {
        self.failure.as_ref()
    }

    /// Ends configuration. Gives the parser for the stored pattern, or the
    /// error that the pattern option is missing.
    pub fn build(self) -> (built: Result<RegexParser, OptionError>)
        ensures
            match built {
                Ok(parser) => build_outcome(self.pattern()) == Ok::<Regex, Seq<char>>(parser.regex),
                Err(OptionError::MissingRequiredOption(name)) => build_outcome(self.pattern())
                    == Err::<Regex, Seq<char>>(name@),
            },
    {
        match self.regex {
            Some(regex) => Ok(RegexParser { regex }),
            None => Err(OptionError::missing_required_option(REGEX_OPTION)),
        }
    }
}

} // verus!

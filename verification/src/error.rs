//! What can go wrong while a parser is configured.

use vstd::prelude::*;

verus! {

/// Why a configuration was rejected.
#[derive(Clone, Debug, PartialEq, Eq)]
pub enum OptionError {
    /// A required option was never given a usable value; holds the option's
    /// name.
    MissingRequiredOption(String),
}

impl OptionError {
    /// The error for a required option that was never set.
    pub fn missing_required_option(option_name: &str) -> (error: OptionError)
        ensures
            error matches OptionError::MissingRequiredOption(name) && name@ == option_name@,
    {
        OptionError::MissingRequiredOption(option_name.to_owned())
    }

    /// The name of the option that the error is about.
    pub fn option_name(&self) -> (name: &str)
        ensures
            *self matches OptionError::MissingRequiredOption(missing) && name@ == missing@,
    {
        match self {
            OptionError::MissingRequiredOption(missing) => missing.as_str(),
        }
    }
}

/// A pattern that did not compile. It never fails a configuration by itself:
/// the builder keeps it as a diagnostic and goes on with what it had.
#[derive(Clone, Debug)]
pub struct PatternCompileFailure {
    /// The pattern text as it was given.
    pub pattern: String,
    /// What the pattern compiler said of it.
    pub message: String,
}

} // verus!

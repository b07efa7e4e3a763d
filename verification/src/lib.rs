//! A pattern-driven field extractor: a regular expression with named capture
//! groups is compiled once and then matched against input lines; on a match
//! every participating named group is written into a record under its name.
//!
//! A `RegexParserBuilder` takes configuration as name and value pairs and
//! builds a `RegexParser` once a pattern has compiled. The parser matches
//! input against the pattern and writes into a `Record`.

pub mod builder;
pub mod engine;
pub mod error;
pub mod extract;
pub mod laws;
pub mod parser;
pub mod record;

pub use builder::{RegexParserBuilder, LOGGEN_EXPR, REGEX_OPTION};
pub use error::{OptionError, PatternCompileFailure};
pub use parser::RegexParser;
pub use record::Record;

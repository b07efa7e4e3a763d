use regex::Regex;
use regex_parser::{RegexParserBuilder, LOGGEN_EXPR};
use regex_parser::OptionError;
use regex_parser::RegexParser;
use regex_parser::Record;

fn parser_for(pattern: &str) -> RegexParser {
    let mut builder = RegexParserBuilder::new();
    builder.option("regex".to_string(), pattern.to_string());
    builder.build().expect("the pattern compiles")
}

#[test]
fn loggen_line_is_split_into_its_fields() {
    let parser = parser_for(LOGGEN_EXPR);
    let mut record = Record::new();
    let matched = parser.parse(
        &mut record,
        "seq: 0000000000, thread: 0000, runid: 1456947132, stamp: 2016-03-02T20:32:12 PAD",
    );
    assert!(matched);
    assert_eq!(record.len(), 5);
    assert_eq!(record.get("seq"), Some("0000000000"));
    assert_eq!(record.get("thread"), Some("0000"));
    assert_eq!(record.get("runid"), Some("1456947132"));
    assert_eq!(record.get("stamp"), Some("2016-03-02T20:32:12"));
    assert_eq!(record.get("padding"), Some("PAD"));
}

#[test]
fn loggen_fields_come_in_order_of_appearance() {
    let parser = parser_for(LOGGEN_EXPR);
    let mut record = Record::new();
    parser.parse(
        &mut record,
        "seq: 0000000000, thread: 0000, runid: 1456947132, stamp: 2016-03-02T20:32:12 PAD",
    );
    assert_eq!(record.field(0), Some(("seq", "0000000000")));
    assert_eq!(record.field(1), Some(("thread", "0000")));
    assert_eq!(record.field(2), Some(("runid", "1456947132")));
    assert_eq!(record.field(3), Some(("stamp", "2016-03-02T20:32:12")));
    assert_eq!(record.field(4), Some(("padding", "PAD")));
    assert_eq!(record.field(5), None);
}

#[test]
fn garbage_does_not_match_and_leaves_record() {
    let parser = parser_for(LOGGEN_EXPR);
    let mut record = Record::new();
    assert!(!parser.parse(&mut record, "garbage"));
    assert_eq!(record.len(), 0);

    record.insert("seq", "kept");
    record.insert("host", "example");
    assert!(!parser.parse(&mut record, "garbage"));
    assert_eq!(record.len(), 2);
    assert_eq!(record.field(0), Some(("seq", "kept")));
    assert_eq!(record.field(1), Some(("host", "example")));
}

#[test]
fn builder_with_no_options_names_regex() {
    match RegexParserBuilder::new().build() {
        Err(OptionError::MissingRequiredOption(name)) => assert_eq!(name, "regex"),
        Ok(_) => panic!("built without a pattern"),
    }
}

#[test]
fn invalid_regex_then_build_reports_missing_option() {
    let mut builder = RegexParserBuilder::new();
    builder.option("regex".to_string(), "[".to_string());
    match builder.build() {
        Err(OptionError::MissingRequiredOption(name)) => assert_eq!(name, "regex"),
        Ok(_) => panic!("built from a pattern that does not compile"),
    }
}

#[test]
fn group_that_took_no_part_is_not_written() {
    let parser = parser_for("(?P<a>x)|(?P<b>y)");
    let mut record = Record::new();
    assert!(parser.parse(&mut record, "x"));
    assert_eq!(record.len(), 1);
    assert_eq!(record.get("a"), Some("x"));
    assert!(!record.contains("b"));
    assert_eq!(record.get("b"), None);
}

#[test]
fn other_branch_writes_the_other_group() {
    let parser = parser_for("(?P<a>x)|(?P<b>y)");
    let mut record = Record::new();
    assert!(parser.parse(&mut record, "y"));
    assert_eq!(record.len(), 1);
    assert_eq!(record.get("b"), Some("y"));
    assert!(!record.contains("a"));
}

#[test]
fn matched_text_is_kept_verbatim() {
    let parser = parser_for("<(?P<body>[^>]*)>");
    let mut record = Record::new();
    assert!(parser.parse(&mut record, "pre <  MiXed\tCase  > post"));
    assert_eq!(record.get("body"), Some("  MiXed\tCase  "));
}

#[test]
fn group_that_matched_the_empty_text_is_written() {
    let parser = parser_for("a(?P<rest>b*)");
    let mut record = Record::new();
    assert!(parser.parse(&mut record, "ac"));
    assert_eq!(record.get("rest"), Some(""));
    assert_eq!(record.len(), 1);
}

#[test]
fn unnamed_groups_are_not_written() {
    let parser = parser_for(r"(\d+)-(?P<second>\d+)");
    let mut record = Record::new();
    assert!(parser.parse(&mut record, "12-34"));
    assert_eq!(record.len(), 1);
    assert_eq!(record.get("second"), Some("34"));
}

#[test]
fn pattern_without_named_groups_matches_and_writes_nothing() {
    let parser = parser_for(r"\d+");
    let mut record = Record::new();
    record.insert("host", "example");
    assert!(parser.parse(&mut record, "abc 42"));
    assert_eq!(record.len(), 1);
    assert_eq!(record.get("host"), Some("example"));
    assert!(!parser.parse(&mut record, "abc"));
    assert_eq!(record.len(), 1);
}

#[test]
fn match_may_stand_anywhere_in_the_input() {
    let parser = parser_for(r"id=(?P<id>\d+)");
    let mut record = Record::new();
    assert!(parser.parse(&mut record, "request id=77 done"));
    assert_eq!(record.get("id"), Some("77"));
}

#[test]
fn first_match_in_the_input_is_taken() {
    let parser = parser_for(r"id=(?P<id>\d+)");
    let mut record = Record::new();
    assert!(parser.parse(&mut record, "id=1 id=2"));
    assert_eq!(record.get("id"), Some("1"));
}

#[test]
fn empty_input_against_a_pattern_that_needs_text() {
    let parser = parser_for("(?P<a>x)");
    let mut record = Record::new();
    assert!(!parser.parse(&mut record, ""));
    assert_eq!(record.len(), 0);
}

#[test]
fn parse_overwrites_a_field_of_the_same_name() {
    let parser = parser_for(r"(?P<user>\w+)@(?P<host>\w+)");
    let mut record = Record::new();
    record.insert("host", "before");
    record.insert("program", "sshd");
    assert!(parser.parse(&mut record, "root@server"));
    assert_eq!(record.len(), 3);
    assert_eq!(record.get("host"), Some("server"));
    assert_eq!(record.get("program"), Some("sshd"));
    assert_eq!(record.get("user"), Some("root"));
    assert_eq!(record.field(0), Some(("host", "server")));
    assert_eq!(record.field(1), Some(("program", "sshd")));
    assert_eq!(record.field(2), Some(("user", "root")));
}

#[test]
fn repeated_parses_do_not_carry_over() {
    let parser = parser_for("(?P<a>x)|(?P<b>y)");

    let mut after_x_then_y = Record::new();
    assert!(parser.parse(&mut Record::new(), "x"));
    assert!(parser.parse(&mut after_x_then_y, "y"));

    let mut only_y = Record::new();
    let fresh = parser_for("(?P<a>x)|(?P<b>y)");
    assert!(fresh.parse(&mut only_y, "y"));

    assert_eq!(after_x_then_y.len(), 1);
    assert_eq!(after_x_then_y.get("b"), Some("y"));
    assert!(!after_x_then_y.contains("a"));
    assert_eq!(only_y.len(), after_x_then_y.len());
    assert_eq!(only_y.get("b"), after_x_then_y.get("b"));
}

#[test]
fn repeated_parses_on_one_record_add_up() {
    let parser = parser_for(r"(?P<key>[a-z]+)=(?P<value>\d+)|(?P<word>[A-Z]+)");
    let mut record = Record::new();
    assert!(parser.parse(&mut record, "size=10"));
    assert!(parser.parse(&mut record, "WORD"));
    assert!(!parser.parse(&mut record, "..."));
    assert!(parser.parse(&mut record, "depth=3"));
    assert_eq!(record.len(), 3);
    assert_eq!(record.get("key"), Some("depth"));
    assert_eq!(record.get("value"), Some("3"));
    assert_eq!(record.get("word"), Some("WORD"));
}

#[test]
fn same_input_twice_gives_the_same_record() {
    let parser = parser_for(LOGGEN_EXPR);
    let line = "seq: 0000000001, thread: 0002, runid: 3, stamp: now rest of line";
    let mut record = Record::new();
    assert!(parser.parse(&mut record, line));
    assert!(parser.parse(&mut record, line));
    assert_eq!(record.len(), 5);
    assert_eq!(record.get("seq"), Some("0000000001"));
    assert_eq!(record.get("padding"), Some("rest of line"));
}

#[test]
fn cloned_parser_parses_as_the_original() {
    let parser = parser_for(r"(?P<n>\d+)");
    let copy = parser.clone();
    assert_eq!(copy.regex.as_str(), parser.regex.as_str());
    let mut from_original = Record::new();
    let mut from_copy = Record::new();
    assert!(parser.parse(&mut from_original, "a 15 b"));
    assert!(copy.parse(&mut from_copy, "a 15 b"));
    assert_eq!(from_copy.get("n"), Some("15"));
    assert_eq!(from_original.get("n"), from_copy.get("n"));
    assert!(!copy.parse(&mut from_copy, "none"));
}

#[test]
fn parser_made_from_a_regex_directly() {
    let parser = RegexParser { regex: Regex::new(r"(?P<word>\w+)").unwrap() };
    let mut record = Record::new();
    assert!(parser.parse(&mut record, "hello world"));
    assert_eq!(record.get("word"), Some("hello"));
}

#[test]
fn non_ascii_input_is_captured_whole() {
    let parser = parser_for(r"name=(?P<name>\S+)");
    let mut record = Record::new();
    assert!(parser.parse(&mut record, "name=Zoë über"));
    assert_eq!(record.get("name"), Some("Zoë"));
}

#[test]
fn group_after_one_that_is_repeated_zero_times_keeps_its_own_text() {
    let parser = parser_for("(?P<a>x){0}(?P<b>y)(?P<c>z)");
    let mut record = Record::new();
    assert!(parser.parse(&mut record, "yz"));
    assert_eq!(record.get("b"), Some("y"));
    assert!(!record.contains("a"));
    assert_ne!(record.get("c"), Some("y"));
}

#[test]
fn repeated_group_after_one_that_is_repeated_zero_times() {
    let parser = parser_for("(?P<a>x){0}(?P<b>y){2}");
    let mut record = Record::new();
    assert!(parser.parse(&mut record, "yy"));
    assert_eq!(record.len(), 1);
    assert_eq!(record.get("b"), Some("y"));
}

#[test]
fn repeated_group_holds_its_last_repetition() {
    let parser = parser_for("(?P<digit>[0-9]){3}(?P<rest>.*)");
    let mut record = Record::new();
    assert!(parser.parse(&mut record, "123abc"));
    assert_eq!(record.len(), 2);
    assert_eq!(record.get("digit"), Some("3"));
    assert_eq!(record.get("rest"), Some("abc"));
}

#[test]
fn nested_groups_are_each_written() {
    let parser = parser_for(r"(?P<pair>(?P<key>\w+)=(?P<value>\w+))");
    let mut record = Record::new();
    assert!(parser.parse(&mut record, "a=b c=d"));
    assert_eq!(record.field(0), Some(("pair", "a=b")));
    assert_eq!(record.field(1), Some(("key", "a")));
    assert_eq!(record.field(2), Some(("value", "b")));
    assert_eq!(record.field(3), None);
}

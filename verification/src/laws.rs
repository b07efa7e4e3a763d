//! What holds of the builder and of extraction whatever the pattern, the
//! options and the input are.

use crate::builder::{build_outcome, pattern_after_option, REGEX_OPTION};
use crate::engine::{compiled, same_name_same_text};
use crate::extract::{after_attempt, with_match, write_groups, writes, writes_name, Fields, Groups};
use regex::Regex;
use vstd::prelude::*;

verus! {

/// The stored pattern after the options `options`, each a name and a value,
/// were given in order.
pub open spec fn pattern_after_options(
    pattern: Option<Regex>,
    options: Seq<(Seq<char>, Seq<char>)>,
) -> Option<Regex>
    decreases options.len(),
{
    if options.len() == 0 {
        pattern
    } else {
        let last = options.last();
        pattern_after_option(pattern_after_options(pattern, options.drop_last()), last.0, last.1)
    }
}

/// Whatever a builder holds, giving it a pattern that compiles and building
/// yields the parser of that pattern.
pub proof fn compiled_pattern_builds(pattern: Option<Regex>, source: Seq<char>)
    requires
        compiled(source) is Ok,
    ensures
        build_outcome(pattern_after_option(pattern, REGEX_OPTION@, source)) == Ok::<
            Regex,
            Seq<char>,
        >(compiled(source)->Ok_0),
{
}

/// A builder that starts without a pattern and is given only options that
/// are not the pattern option, or whose pattern does not compile, ends
/// without a pattern, and building fails for want of the pattern option.
pub proof fn no_compiled_pattern_no_parser(options: Seq<(Seq<char>, Seq<char>)>)
    requires
        forall|i: int|
            0 <= i < options.len() && (#[trigger] options[i]).0 == REGEX_OPTION@ ==> compiled(
                options[i].1,
            ) is Err,
    ensures
        pattern_after_options(None, options) is None,
        build_outcome(pattern_after_options(None, options)) == Err::<Regex, Seq<char>>(
            REGEX_OPTION@,
        ),
    decreases options.len(),
{
    if options.len() > 0 {
        no_compiled_pattern_no_parser(options.drop_last());
    }
}

/// A pattern that does not compile leaves the stored pattern as it was; a
/// builder that had none still fails to build for want of the pattern option.
pub proof fn rejected_pattern_keeps_stored(pattern: Option<Regex>, source: Seq<char>)
    requires
        compiled(source) is Err,
    ensures
        pattern_after_option(pattern, REGEX_OPTION@, source) == pattern,
        pattern is None ==> build_outcome(pattern_after_option(pattern, REGEX_OPTION@, source))
            == Err::<Regex, Seq<char>>(REGEX_OPTION@),
{
}

/// An option under any other name than the pattern option changes nothing.
pub proof fn other_options_are_ignored(pattern: Option<Regex>, name: Seq<char>, value: Seq<char>)
    requires
        name != REGEX_OPTION@,
    ensures
        pattern_after_option(pattern, name, value) == pattern,
{
}

/// The fields after the first `count` groups have written, for one `name`:
/// the name is present if it was before or one of these groups writes it; it
/// holds the text of the last group that writes it, else what it held.
proof fn lemma_write_groups(fields: Fields, groups: Groups, count: nat, name: Seq<char>)
    ensures
        write_groups(fields, groups, count).dom().contains(name) <==> fields.dom().contains(name)
            || exists|i: int| 0 <= i < count && writes_name(groups, i, name),
        forall|i: int|
            0 <= i < count && #[trigger] writes_name(groups, i, name) && (forall|j: int|
                i < j < count ==> !writes_name(groups, j, name)) ==> write_groups(
                fields,
                groups,
                count,
            )[name] == groups[i].1->0,
        (forall|i: int| 0 <= i < count ==> !writes_name(groups, i, name)) ==> write_groups(
            fields,
            groups,
            count,
        )[name] == fields[name],
    decreases count,
{
    if count > 0 {
        let earlier = (count - 1) as nat;
        lemma_write_groups(fields, groups, earlier, name);
        if !writes_name(groups, count - 1, name) {
            assert(write_groups(fields, groups, count).dom().contains(name) == write_groups(
                fields,
                groups,
                earlier,
            ).dom().contains(name));
            assert(write_groups(fields, groups, count)[name] == write_groups(
                fields,
                groups,
                earlier,
            )[name]);
            assert forall|i: int|
                0 <= i < count && #[trigger] writes_name(groups, i, name) && (forall|j: int|
                    i < j < count ==> !writes_name(groups, j, name)) implies write_groups(
                fields,
                groups,
                count,
            )[name] == groups[i].1->0 by {}
        }
    }
}

/// After a match the record holds the fields it held before and one field
/// for every name that some group writes, and no others. A name that some
/// group writes holds the text of the last group that writes it, exactly as
/// matched; a name that no group writes holds what it held before.
pub proof fn match_writes_participating_groups(fields: Fields, groups: Groups)
    ensures
        forall|name: Seq<char>| #[trigger]
            with_match(fields, groups).dom().contains(name) <==> fields.dom().contains(name)
                || exists|i: int| writes_name(groups, i, name),
        forall|i: int, name: Seq<char>|
            #[trigger] writes_name(groups, i, name) && (forall|j: int|
                i < j ==> !writes_name(groups, j, name)) ==> with_match(fields, groups)[name]
                == groups[i].1->0,
        forall|name: Seq<char>|
            (forall|i: int| !writes_name(groups, i, name)) ==> #[trigger] with_match(
                fields,
                groups,
            )[name] == fields[name],
{
    let count = groups.len();
    assert forall|name: Seq<char>| #[trigger]
        with_match(fields, groups).dom().contains(name) <==> fields.dom().contains(name)
            || exists|i: int| writes_name(groups, i, name) by {
        lemma_write_groups(fields, groups, count, name);
    }
    assert forall|i: int, name: Seq<char>|
        #[trigger] writes_name(groups, i, name) && (forall|j: int|
            i < j ==> !writes_name(groups, j, name)) implies with_match(fields, groups)[name]
        == groups[i].1->0 by {
        lemma_write_groups(fields, groups, count, name);
    }
    assert forall|name: Seq<char>|
        (forall|i: int| !writes_name(groups, i, name)) implies #[trigger] with_match(
        fields,
        groups,
    )[name] == fields[name] by {
        lemma_write_groups(fields, groups, count, name);
    }
}

/// The last of the first `count` groups that writes `name`, where one does.
proof fn lemma_last_writer(groups: Groups, count: nat, name: Seq<char>) -> (last: int)
    requires
        exists|i: int| 0 <= i < count && writes_name(groups, i, name),
    ensures
        0 <= last < count,
        writes_name(groups, last, name),
        forall|j: int| last < j < count ==> !writes_name(groups, j, name),
    decreases count,
{
    if writes_name(groups, count - 1, name) {
        count - 1
    } else {
        let i = choose|i: int| 0 <= i < count && writes_name(groups, i, name);
        assert(0 <= i < count - 1 && writes_name(groups, i, name));
        lemma_last_writer(groups, (count - 1) as nat, name)
    }
}

/// Where equal names come with equal texts, as they do in what the engine
/// hands over, every group that has a name and a text leaves that text under
/// that name.
pub proof fn groups_keep_their_text(fields: Fields, groups: Groups, i: int)
    requires
        same_name_same_text(groups),
        writes(groups, i),
    ensures
        with_match(fields, groups).dom().contains(groups[i].0->0),
        with_match(fields, groups)[groups[i].0->0] == groups[i].1->0,
{
    let name = groups[i].0->0;
    assert(writes_name(groups, i, name));
    let last = lemma_last_writer(groups, groups.len(), name);
    assert(groups[i].1 == groups[last].1);
    assert forall|j: int| last < j implies !writes_name(groups, j, name) by {}
    match_writes_participating_groups(fields, groups);
}

/// What the groups write does not depend on what the record held: the
/// fields after the writes are the fields before, overlaid with what the
/// same groups write into an empty record.
proof fn lemma_writes_overlay(fields: Fields, groups: Groups, count: nat)
    ensures
        write_groups(fields, groups, count) == fields.union_prefer_right(
            write_groups(Map::empty(), groups, count),
        ),
    decreases count,
{
    if count > 0 {
        lemma_writes_overlay(fields, groups, (count - 1) as nat);
    }
}

/// Attempts to match are independent of one another: what a second attempt
/// adds to the record is what it would write into an empty record, whatever
/// an earlier attempt on another input found.
pub proof fn attempts_are_independent(fields: Fields, first: Option<Groups>, second: Option<Groups>)
    ensures
        after_attempt(after_attempt(fields, first), second) == after_attempt(
            fields,
            first,
        ).union_prefer_right(after_attempt(Map::empty(), second)),
{
    if let Some(groups) = second {
        lemma_writes_overlay(after_attempt(fields, first), groups, groups.len());
    }
}

/// An attempt that finds no match leaves the fields as they were.
pub proof fn no_match_writes_nothing(fields: Fields)
    ensures
        after_attempt(fields, None) == fields,
{
}

/// Of two writes under one name the later one stays, whether or not the
/// name was present before.
pub proof fn last_write_wins(fields: Fields, name: Seq<char>, first: Seq<char>, second: Seq<char>)
    ensures
        fields.insert(name, first).insert(name, second) == fields.insert(name, second),
        fields.insert(name, second)[name] == second,
        forall|other: Seq<char>|
            other != name && fields.dom().contains(other) ==> #[trigger] fields.insert(
                name,
                second,
            )[other] == fields[other],
{
}

} // verus!

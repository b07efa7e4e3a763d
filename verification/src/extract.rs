//! Turning the groups of one match into record fields.
//!
//! After a match the engine hands over its capture groups in the order in
//! which the pattern names them, each with its name, if it has one, and the
//! text matched under that name, if any was. Every group that has both is
//! written into the record under its name, in that order, a later write
//! replacing an earlier one of the same name. The others write nothing.

use crate::record::Record;
use vstd::prelude::*;

verus! {

/// The capture groups of one match, in the pattern's order: for each the
/// name, `None` for an unnamed group, and the text matched under that name,
/// `None` where nothing was.
pub type Groups = Seq<(Option<Seq<char>>, Option<Seq<char>>)>;

/// The fields of a record: values by name.
pub type Fields = Map<Seq<char>, Seq<char>>;

/// Group `i` has a name and a text, so it writes a field.
pub open spec fn writes(groups: Groups, i: int) -> bool {
    &&& 0 <= i < groups.len()
    &&& groups[i].0 is Some
    &&& groups[i].1 is Some
}

/// Group `i` writes the field `name`.
pub open spec fn writes_name(groups: Groups, i: int, name: Seq<char>) -> bool {
    writes(groups, i) && groups[i].0 == Some(name)
}

/// `fields` after the first `count` groups have written, in order.
pub open spec fn write_groups(fields: Fields, groups: Groups, count: nat) -> Fields
    decreases count,
{
    if count == 0 {
        fields
    } else {
        let earlier = write_groups(fields, groups, (count - 1) as nat);
        if writes(groups, count - 1) {
            earlier.insert(groups[count - 1].0->0, groups[count - 1].1->0)
        } else {
            earlier
        }
    }
}

/// `fields` after all groups of one match have written.
pub open spec fn with_match(fields: Fields, groups: Groups) -> Fields {
    write_groups(fields, groups, groups.len())
}

/// `fields` after one attempt to match: untouched without a match, otherwise
/// with the groups of the match written.
pub open spec fn after_attempt(fields: Fields, found: Option<Groups>) -> Fields {
    match found {
        None => fields,
        Some(groups) => with_match(fields, groups),
    }
}

/// The order of the record's fields after the first `count` groups have
/// written into a record that held `fields` in the order `order`: a group
/// that writes a name not yet present adds it at the end.
pub open spec fn order_after_writes(
    order: Seq<Seq<char>>,
    fields: Fields,
    groups: Groups,
    count: nat,
) -> Seq<Seq<char>>
    decreases count,
{
    if count == 0 {
        order
    } else {
        let earlier = order_after_writes(order, fields, groups, (count - 1) as nat);
        let present = write_groups(fields, groups, (count - 1) as nat).dom();
        if writes(groups, count - 1) && !present.contains(groups[count - 1].0->0) {
            earlier.push(groups[count - 1].0->0)
        } else {
            earlier
        }
    }
}

/// The order of the record's fields after one attempt to match.
pub open spec fn order_after_attempt(
    order: Seq<Seq<char>>,
    fields: Fields,
    found: Option<Groups>,
) -> Seq<Seq<char>> {
    match found {
        None => order,
        Some(groups) => order_after_writes(order, fields, groups, groups.len()),
    }
}

/// Writes the groups of a match into `record`: each entry of `groups` that
/// holds a name and a text, in order.
pub fn write_match(record: &mut Record, groups: &Vec<(Option<String>, Option<String>)>)
    ensures
        final(record)@ == with_match(old(record)@, groups.deep_view()),
        final(record).names() == order_after_writes(
            old(record).names(),
            old(record)@,
            groups.deep_view(),
            groups.deep_view().len(),
        ),
{
    let ghost start = record@;
    let ghost order = record.names();
    let ghost model = groups.deep_view();
    let mut i: usize = 0;
    while i < groups.len()
        invariant
            i <= groups.len(),
            model == groups.deep_view(),
            record@ == write_groups(start, model, i as nat),
            record.names() == order_after_writes(order, start, model, i as nat),
        decreases groups.len() - i,
    {
        let group = &groups[i];
        if let Some(name) = &group.0 {
            if let Some(text) = &group.1 {
                record.insert(name.as_str(), text.as_str());
            }
        }
        i += 1;
    }
}

/// Applies the result of one attempt to match to `record`: `found` is `None`
/// where the pattern did not match, otherwise the groups of the match.
/// Returns whether there was a match.
pub fn store_captures(
    record: &mut Record,
    found: &Option<Vec<(Option<String>, Option<String>)>>,
) -> (matched: bool)
    ensures
        matched == found is Some,
        found is None ==> *final(record) == *old(record),
        final(record)@ == after_attempt(old(record)@, found.deep_view()),
        final(record).names() == order_after_attempt(
            old(record).names(),
            old(record)@,
            found.deep_view(),
        ),
{
    match found {
        Some(groups) => {
            write_match(record, groups);
            true
        },
        None => false,
    }
}

} // verus!

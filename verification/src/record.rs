//! The record that extracted fields are written into: a store of string
//! values keyed by field name.

use vstd::prelude::*;

verus! {

/// A string-keyed field store. Every name occurs at most once; writing a
/// name that is already present replaces its value and leaves the field in
/// its place, writing a new name adds a field at the end.
#[derive(Debug)]
pub struct Record {
    fields: Vec<(String, String)>,
}

/// The position of the first entry of `fields` named `name`, or the length
/// of `fields` if there is none.
spec fn first_named(fields: Seq<(String, String)>, name: Seq<char>) -> int
    decreases fields.len(),
{
    if fields.len() == 0 {
        0
    } else if fields[0].0@ == name {
        0
    } else {
        1 + first_named(fields.drop_first(), name)
    }
}

/// No two entries of `fields` carry the same name.
spec fn distinct_names(fields: Seq<(String, String)>) -> bool {
    forall|i: int, j: int|
        0 <= i < j < fields.len() ==> (#[trigger] fields[i]).0@ != (#[trigger] fields[j]).0@
}

/// The mapping from names to values that `fields` stands for.
spec fn fields_map(fields: Seq<(String, String)>) -> Map<Seq<char>, Seq<char>> {
    Map::new(
        |name: Seq<char>| first_named(fields, name) < fields.len(),
        |name: Seq<char>| fields[first_named(fields, name)].1@,
    )
}

/// The names of `fields`, in their order.
spec fn field_names(fields: Seq<(String, String)>) -> Seq<Seq<char>> {
    Seq::new(fields.len(), |i: int| fields[i].0@)
}

/// `first_named` stays within the sequence, points at an entry of the wanted
/// name when there is one, and passes over no such entry.
proof fn lemma_first_named(fields: Seq<(String, String)>, name: Seq<char>)
    ensures
        0 <= first_named(fields, name) <= fields.len(),
        first_named(fields, name) < fields.len() ==> fields[first_named(fields, name)].0@ == name,
        forall|i: int| 0 <= i < first_named(fields, name) ==> (#[trigger] fields[i]).0@ != name,
    decreases fields.len(),
{
    if fields.len() > 0 && fields[0].0@ != name {
        let rest = fields.drop_first();
        lemma_first_named(rest, name);
        assert forall|i: int| 0 <= i < first_named(fields, name) implies (#[trigger] fields[
            i
        ]).0@ != name by {
            if i > 0 {
                assert(fields[i] == rest[i - 1]);
            }
        }
    }
}

/// An entry at position `i` whose name no earlier entry carries is the one
/// that `first_named` finds.
proof fn lemma_first_named_is(fields: Seq<(String, String)>, name: Seq<char>, i: int)
    requires
        0 <= i <= fields.len(),
        i < fields.len() ==> fields[i].0@ == name,
        forall|j: int| 0 <= j < i ==> (#[trigger] fields[j]).0@ != name,
    ensures
        first_named(fields, name) == i,
{
    lemma_first_named(fields, name);
}

/// The names of `fields` are the names that `fields_map` maps; where they
/// are distinct, each entry holds the value that its name is mapped to.
proof fn lemma_names_and_map(fields: Seq<(String, String)>)
    ensures
        field_names(fields).to_set() == fields_map(fields).dom(),
        distinct_names(fields) ==> field_names(fields).no_duplicates(),
        distinct_names(fields) ==> forall|i: int|
            0 <= i < fields.len() ==> fields_map(fields)[(#[trigger] fields[i]).0@] == fields[i].1@,
{
    let names = field_names(fields);
    assert forall|name: Seq<char>| names.to_set().contains(name) == fields_map(
        fields,
    ).dom().contains(name) by {
        lemma_first_named(fields, name);
        let first = first_named(fields, name);
        if first < fields.len() {
            assert(names[first] == name);
        }
    }
    if distinct_names(fields) {
        assert forall|i: int| 0 <= i < fields.len() implies fields_map(fields)[(
        #[trigger] fields[i]).0@] == fields[i].1@ by {
            lemma_first_named(fields, fields[i].0@);
        }
    }
}

/// Replacing the value of the entry that carries `name` maps `name` to the
/// new value and changes nothing else.
proof fn lemma_overwrite(
    before: Seq<(String, String)>,
    after: Seq<(String, String)>,
    i: int,
    name: Seq<char>,
    value: Seq<char>,
)
    requires
        0 <= i < before.len(),
        first_named(before, name) == i,
        after.len() == before.len(),
        after[i].0@ == name,
        after[i].1@ == value,
        forall|j: int| 0 <= j < before.len() && j != i ==> after[j] == before[j],
    ensures
        fields_map(after) == fields_map(before).insert(name, value),
        field_names(after) == field_names(before),
        distinct_names(before) ==> distinct_names(after),
{
    lemma_first_named(before, name);
    assert forall|j: int| 0 <= j < before.len() implies (#[trigger] after[j]).0@ == before[j].0@ by {}
    assert forall|k: Seq<char>| first_named(after, k) == first_named(before, k) by {
        lemma_first_named(before, k);
        lemma_first_named_is(after, k, first_named(before, k));
    }
    assert forall|k: Seq<char>| fields_map(after).dom().contains(k) implies (#[trigger] fields_map(
        after,
    )[k]) == fields_map(before).insert(name, value)[k] by {
        lemma_first_named(before, k);
    }
}

/// Adding an entry under a name that no entry carries maps `name` to the
/// value and changes nothing else.
proof fn lemma_append(
    before: Seq<(String, String)>,
    after: Seq<(String, String)>,
    name: Seq<char>,
    value: Seq<char>,
)
    requires
        first_named(before, name) == before.len(),
        after.len() == before.len() + 1,
        after[before.len() as int].0@ == name,
        after[before.len() as int].1@ == value,
        forall|j: int| 0 <= j < before.len() ==> after[j] == before[j],
    ensures
        fields_map(after) == fields_map(before).insert(name, value),
        field_names(after) == field_names(before).push(name),
        distinct_names(before) ==> distinct_names(after),
{
    let n = before.len() as int;
    lemma_first_named(before, name);
    assert forall|k: Seq<char>|
        first_named(after, k) == if k == name {
            n
        } else if first_named(before, k) < n {
            first_named(before, k)
        } else {
            n + 1
        } by {
        lemma_first_named(before, k);
        let first = first_named(before, k);
        if k == name {
            lemma_first_named_is(after, k, n);
        } else if first < n {
            lemma_first_named_is(after, k, first);
        } else {
            lemma_first_named_is(after, k, n + 1);
        }
    }
    assert forall|k: Seq<char>|
        fields_map(after).dom().contains(k) == fields_map(before).insert(name, value).dom().contains(
            k,
        ) by {
        lemma_first_named(before, k);
    }
    assert forall|k: Seq<char>| fields_map(after).dom().contains(k) implies (#[trigger] fields_map(
        after,
    )[k]) == fields_map(before).insert(name, value)[k] by {
        lemma_first_named(before, k);
    }
}

impl View for Record {
    type V = Map<Seq<char>, Seq<char>>;

    closed spec fn view(&self) -> Map<Seq<char>, Seq<char>> {
        fields_map(self.fields@)
    }
}

impl Record {
    #[verifier::type_invariant]
    spec fn names_are_distinct(self) -> bool {
        distinct_names(self.fields@)
    }

    /// The names of the fields, in the order in which they were first
    /// written.
    pub closed spec fn names(&self) -> Seq<Seq<char>> {
        field_names(self.fields@)
    }

    /// A record without fields.
    pub fn new() -> (record: Record)
        ensures
            record@ == Map::<Seq<char>, Seq<char>>::empty(),
            record.names() == Seq::<Seq<char>>::empty(),
    {
        Record { fields: Vec::new() }
    }

    /// The position of the field named `name`, if the record has it.
    fn position(&self, name: &String) -> (found: Option<usize>)
        ensures
            match found {
                Some(i) => i < self.fields@.len() && first_named(self.fields@, name@) == i,
                None => first_named(self.fields@, name@) == self.fields@.len(),
            },
    {
        let mut i: usize = 0;
        while i < self.fields.len()
            invariant
                i <= self.fields@.len(),
                forall|j: int| 0 <= j < i ==> (#[trigger] self.fields@[j]).0@ != name@,
            decreases self.fields@.len() - i,
        {
            if self.fields[i].0 == *name {
                proof {
                    lemma_first_named_is(self.fields@, name@, i as int);
                }
                return Some(i);
            }
            i += 1;
        }
        proof {
            lemma_first_named_is(self.fields@, name@, i as int);
        }
        None
    }

    /// Writes `value` under `name`. A field of that name keeps its place and
    /// gets the new value; otherwise a new field is added after the others.
    pub fn insert(&mut self, name: &str, value: &str)
        ensures
            final(self)@ == old(self)@.insert(name@, value@),
            final(self).names() == if old(self)@.dom().contains(name@) {
                old(self).names()
            } else {
                old(self).names().push(name@)
            },
    {
        proof {
            use_type_invariant(&*self);
        }
        let key = name.to_owned();
        let ghost before = self.fields@;
        let found = self.position(&key);
        let mut fields: Vec<(String, String)> = Vec::new();
        core::mem::swap(&mut self.fields, &mut fields);
        match found {
            Some(i) => {
                fields.set(i, (key, value.to_owned()));
                proof {
                    lemma_overwrite(before, fields@, i as int, name@, value@);
                }
            },
            None => {
                fields.push((key, value.to_owned()));
                proof {
                    lemma_append(before, fields@, name@, value@);
                }
            },
        }
        self.fields = fields;
    }

    /// The value written under `name`, if the record has that field.
    pub fn get(&self, name: &str) -> (value: Option<&str>)
        ensures
            value is Some <==> self@.dom().contains(name@),
            value matches Some(text) ==> text@ == self@[name@],
    {
        let key = name.to_owned();
        match self.position(&key) {
            Some(i) => Some(self.fields[i].1.as_str()),
            None => None,
        }
    }

    /// Whether the record has a field named `name`.
    pub fn contains(&self, name: &str) -> (present: bool)
        ensures
            present == self@.dom().contains(name@),
    {
        let key = name.to_owned();
        self.position(&key).is_some()
    }

    /// The number of fields. The names of the fields are those that the
    /// record maps, each once.
    pub fn len(&self) -> (count: usize)
        ensures
            count == self.names().len(),
            count == self@.dom().len(),
            self@.dom().finite(),
            self.names().no_duplicates(),
            self.names().to_set() == self@.dom(),
    {
        proof {
            use_type_invariant(self);
            lemma_names_and_map(self.fields@);
            self.names().unique_seq_to_set();
            vstd::seq_lib::seq_to_set_is_finite(self.names());
        }
        self.fields.len()
    }

    /// The field at position `index`, as name and value, in the order in
    /// which the names were first written; `None` past the last field.
    pub fn field(&self, index: usize) -> (entry: Option<(&str, &str)>)
        ensures
            match entry {
                Some((name, value)) => {
                    &&& index < self.names().len()
                    &&& name@ == self.names()[index as int]
                    &&& self@.dom().contains(name@)
                    &&& value@ == self@[name@]
                },
                None => index >= self.names().len(),
            },
    {
        proof {
            use_type_invariant(self);
            lemma_names_and_map(self.fields@);
        }
        if index < self.fields.len() {
            let entry = &self.fields[index];
            proof {
                assert(self.names()[index as int] == entry.0@);
            }
            Some((entry.0.as_str(), entry.1.as_str()))
        } else {
            None
        }
    }
}

} // verus!

//! Log events: named fields that hold values.

use vstd::prelude::*;
use crate::text::str_eq;
use crate::value::{Value, ValueView};

verus! {

/// The map that a list of fields stands for. Where a name occurs twice the
/// later entry counts.
pub open spec fn fields_map(fields: Seq<(String, Value)>) -> Map<Seq<char>, ValueView>
    decreases fields.len(),
{
    if fields.len() == 0 {
        Map::empty()
    } else {
        fields_map(fields.drop_last()).insert(fields.last().0@, fields.last().1@)
    }
}

/// No name occurs twice in the list.
pub open spec fn distinct_names(fields: Seq<(String, Value)>) -> bool {
    forall|i: int, j: int| 0 <= i < j < fields.len() ==> fields[i].0@ != fields[j].0@
}

/// A name is in the map exactly if some entry of the list carries it.
pub proof fn lemma_fields_map_names(fields: Seq<(String, Value)>, name: Seq<char>)
    ensures
        fields_map(fields).contains_key(name) <==> exists|i: int|
            0 <= i < fields.len() && fields[i].0@ == name,
    decreases fields.len(),
{
    if fields.len() > 0 {
        let front = fields.drop_last();
        lemma_fields_map_names(front, name);
        if fields_map(fields).contains_key(name) {
            if fields.last().0@ == name {
                assert(fields[fields.len() - 1].0@ == name);
            } else {
                let i = choose|i: int| 0 <= i < front.len() && front[i].0@ == name;
                assert(fields[i].0@ == name);
            }
        }
        if exists|i: int| 0 <= i < fields.len() && fields[i].0@ == name {
            let i = choose|i: int| 0 <= i < fields.len() && fields[i].0@ == name;
            if i < fields.len() - 1 {
                assert(front[i].0@ == name);
            }
        }
    }
}

/// In a list without repeated names, the map gives each entry's value
/// under its name.
pub proof fn lemma_fields_map_entry(fields: Seq<(String, Value)>, i: int)
    requires
        distinct_names(fields),
        0 <= i < fields.len(),
    ensures
        fields_map(fields).contains_key(fields[i].0@),
        fields_map(fields)[fields[i].0@] == fields[i].1@,
    decreases fields.len(),
{
    if i < fields.len() - 1 {
        let front = fields.drop_last();
        assert(distinct_names(front)) by {
            assert forall|a: int, b: int| 0 <= a < b < front.len() implies front[a].0@
                != front[b].0@ by {
                assert(fields[a].0@ != fields[b].0@);
            }
        }
        lemma_fields_map_entry(front, i);
        assert(front[i] == fields[i]);
        assert(fields[i].0@ != fields[fields.len() - 1].0@);
    }
}

/// Replacing the value of an entry is an insertion under its name.
pub proof fn lemma_fields_map_update(fields: Seq<(String, Value)>, i: int, entry: (String, Value))
    requires
        distinct_names(fields),
        0 <= i < fields.len(),
        entry.0@ == fields[i].0@,
    ensures
        distinct_names(fields.update(i, entry)),
        fields_map(fields.update(i, entry)) == fields_map(fields).insert(entry.0@, entry.1@),
    decreases fields.len(),
{
    let updated = fields.update(i, entry);
    assert(distinct_names(updated)) by {
        assert forall|a: int, b: int| 0 <= a < b < updated.len() implies updated[a].0@
            != updated[b].0@ by {
            assert(fields[a].0@ != fields[b].0@);
        }
    }
    let front = fields.drop_last();
    if i == fields.len() - 1 {
        assert(updated.drop_last() =~= front);
        assert(fields_map(updated) =~= fields_map(fields).insert(entry.0@, entry.1@));
    } else {
        assert(distinct_names(front)) by {
            assert forall|a: int, b: int| 0 <= a < b < front.len() implies front[a].0@
                != front[b].0@ by {
                assert(fields[a].0@ != fields[b].0@);
            }
        }
        assert(front[i] == fields[i]);
        lemma_fields_map_update(front, i, entry);
        assert(updated.drop_last() =~= front.update(i, entry));
        assert(updated.last() == fields.last());
        assert(fields[i].0@ != fields[fields.len() - 1].0@);
        assert(fields_map(updated) =~= fields_map(fields).insert(entry.0@, entry.1@));
    }
}

/// Taking an entry out of the list takes its name out of the map.
pub proof fn lemma_fields_map_remove(fields: Seq<(String, Value)>, i: int)
    requires
        distinct_names(fields),
        0 <= i < fields.len(),
    ensures
        distinct_names(fields.remove(i)),
        fields_map(fields.remove(i)) == fields_map(fields).remove(fields[i].0@),
    decreases fields.len(),
{
    let rest = fields.remove(i);
    assert(distinct_names(rest)) by {
        assert forall|a: int, b: int| 0 <= a < b < rest.len() implies rest[a].0@
            != rest[b].0@ by {
            let a0 = if a < i { a } else { a + 1 };
            let b0 = if b < i { b } else { b + 1 };
            assert(fields[a0].0@ != fields[b0].0@);
        }
    }
    let front = fields.drop_last();
    if i == fields.len() - 1 {
        assert(rest =~= front);
        lemma_fields_map_names(front, fields[i].0@);
        if fields_map(front).contains_key(fields[i].0@) {
            let j = choose|j: int| 0 <= j < front.len() && front[j].0@ == fields[i].0@;
            assert(fields[j].0@ != fields[i].0@);
        }
        assert(fields_map(rest) =~= fields_map(fields).remove(fields[i].0@));
    } else {
        assert(distinct_names(front)) by {
            assert forall|a: int, b: int| 0 <= a < b < front.len() implies front[a].0@
                != front[b].0@ by {
                assert(fields[a].0@ != fields[b].0@);
            }
        }
        assert(front[i] == fields[i]);
        lemma_fields_map_remove(front, i);
        assert(rest.drop_last() =~= front.remove(i));
        assert(rest.last() == fields.last());
        assert(fields[i].0@ != fields[fields.len() - 1].0@);
        assert(fields_map(rest) =~= fields_map(fields).remove(fields[i].0@));
    }
}

/// A log event: a map from field names to values. No name is held twice.
#[derive(Debug, PartialEq)]
pub struct LogEvent {
    fields: Vec<(String, Value)>,
}

impl View for LogEvent {
    type V = Map<Seq<char>, ValueView>;

    closed spec fn view(&self) -> Map<Seq<char>, ValueView> {
        fields_map(self.fields@)
    }
}

impl LogEvent {
    #[verifier::type_invariant]
    spec fn well_formed(self) -> bool {
        distinct_names(self.fields@)
    }

    /// The event without any field.
    pub fn new() -> (event: LogEvent)
        ensures
            event@ == Map::<Seq<char>, ValueView>::empty(),
    {
        LogEvent { fields: Vec::new() }
    }

    /// Moves the list of fields out and leaves the event empty.
    fn take_fields(&mut self) -> (fields: Vec<(String, Value)>)
        ensures
            fields == old(self).fields,
            final(self).fields@.len() == 0,
    {
        let mut taken = LogEvent { fields: Vec::new() };
        std::mem::swap(self, &mut taken);
        taken.fields
    }

    /// Where the field `name` stands in the list, if it is there.
    fn position(&self, name: &str) -> (found: Option<usize>)
        ensures
            match found {
                Some(i) => i < self.fields@.len() && self.fields@[i as int].0@ == name@,
                None => forall|i: int| 0 <= i < self.fields@.len() ==> self.fields@[i].0@ != name@,
            },
    {
        let mut i: usize = 0;
        while i < self.fields.len()
            invariant
                i <= self.fields@.len(),
                forall|j: int| 0 <= j < i ==> self.fields@[j].0@ != name@,
            decreases self.fields@.len() - i,
        {
            if str_eq(self.fields[i].0.as_str(), name) {
                return Some(i);
            }
            i += 1;
        }
        None
    }

    /// The number of fields.
    pub fn len(&self) -> (count: usize)
        ensures
            count == self@.dom().len(),
            self@.dom().finite(),
    {
        proof {
            use_type_invariant(self);
            lemma_fields_map_size(self.fields@);
        }
        self.fields.len()
    }

    /// Whether the event has a field `name`.
    pub fn contains(&self, name: &str) -> (found: bool)
        ensures
            found == self@.contains_key(name@),
    {
        proof {
            lemma_fields_map_names(self.fields@, name@);
        }
        self.position(name).is_some()
    }

    /// The value of the field `name`, if the event has that field.
    pub fn get(&self, name: &str) -> (found: Option<&Value>)
        ensures
            match found {
                Some(value) => self@.contains_key(name@) && value@ == self@[name@],
                None => !self@.contains_key(name@),
            },
    {
        proof {
            use_type_invariant(self);
            lemma_fields_map_names(self.fields@, name@);
        }
        match self.position(name) {
            Some(i) => {
                proof {
                    lemma_fields_map_entry(self.fields@, i as int);
                }
                Some(&self.fields[i].1)
            },
            None => None,
        }
    }

    /// Sets the field `name` to `value`, whether or not the event had it.
    /// Returns the value that the field had before.
    pub fn insert(&mut self, name: String, value: Value) -> (before: Option<Value>)
        ensures
            final(self)@ == old(self)@.insert(name@, value@),
            match before {
                Some(was) => old(self)@.contains_key(name@) && was@ == old(self)@[name@],
                None => !old(self)@.contains_key(name@),
            },
    {
        proof {
            use_type_invariant(&*self);
            lemma_fields_map_names(self.fields@, name@);
        }
        match self.position(name.as_str()) {
            Some(i) => {
                proof {
                    lemma_fields_map_entry(self.fields@, i as int);
                    lemma_fields_map_update(self.fields@, i as int, (name, value));
                }
                let mut fields = self.take_fields();
                let mut entry = (name, value);
                std::mem::swap(&mut fields[i], &mut entry);
                self.fields = fields;
                Some(entry.1)
            },
            None => {
                proof {
                    let grown = self.fields@.push((name, value));
                    assert(grown.drop_last() =~= self.fields@);
                    assert(distinct_names(grown));
                }
                let mut fields = self.take_fields();
                fields.push((name, value));
                self.fields = fields;
                None
            },
        }
    }

    /// Takes the field `name` out of the event, if it is there, and returns
    /// the value that it had.
    pub fn remove(&mut self, name: &str) -> (before: Option<Value>)
        ensures
            final(self)@ == old(self)@.remove(name@),
            match before {
                Some(was) => old(self)@.contains_key(name@) && was@ == old(self)@[name@],
                None => !old(self)@.contains_key(name@),
            },
    {
        proof {
            use_type_invariant(&*self);
            lemma_fields_map_names(self.fields@, name@);
        }
        match self.position(name) {
            Some(i) => {
                proof {
                    lemma_fields_map_entry(self.fields@, i as int);
                    lemma_fields_map_remove(self.fields@, i as int);
                }
                let mut fields = self.take_fields();
                let entry = fields.remove(i);
                self.fields = fields;
                Some(entry.1)
            },
            None => {
                assert(old(self)@.remove(name@) =~= old(self)@);
                None
            },
        }
    }
}

impl Clone for LogEvent {
    /// An event with the same fields.
    fn clone(&self) -> (copy: LogEvent)
        ensures
            copy@ == self@,
    {
        proof {
            use_type_invariant(self);
        }
        let mut fields: Vec<(String, Value)> = Vec::new();
        let mut i: usize = 0;
        while i < self.fields.len()
            invariant
                i <= self.fields@.len(),
                fields@.len() == i,
                forall|j: int|
                    0 <= j < i ==> fields@[j].0@ == self.fields@[j].0@ && fields@[j].1@
                        == self.fields@[j].1@,
            decreases self.fields@.len() - i,
        {
            let name = self.fields[i].0.clone();
            let value = self.fields[i].1.clone();
            fields.push((name, value));
            i += 1;
        }
        proof {
            lemma_fields_map_same(fields@, self.fields@);
            assert(distinct_names(fields@)) by {
                assert forall|a: int, b: int| 0 <= a < b < fields@.len() implies fields@[a].0@
                    != fields@[b].0@ by {
                    assert(self.fields@[a].0@ != self.fields@[b].0@);
                }
            }
        }
        LogEvent { fields }
    }
}

/// Lists that agree entry by entry in names and contents stand for the
/// same map.
pub proof fn lemma_fields_map_same(a: Seq<(String, Value)>, b: Seq<(String, Value)>)
    requires
        a.len() == b.len(),
        forall|i: int| 0 <= i < a.len() ==> a[i].0@ == b[i].0@ && a[i].1@ == b[i].1@,
    ensures
        fields_map(a) == fields_map(b),
    decreases a.len(),
{
    if a.len() > 0 {
        lemma_fields_map_same(a.drop_last(), b.drop_last());
    }
}

/// A list without repeated names stands for a map of as many names.
pub proof fn lemma_fields_map_size(fields: Seq<(String, Value)>)
    requires
        distinct_names(fields),
    ensures
        fields_map(fields).dom().finite(),
        fields_map(fields).dom().len() == fields.len(),
    decreases fields.len(),
{
    if fields.len() > 0 {
        let front = fields.drop_last();
        assert(distinct_names(front)) by {
            assert forall|a: int, b: int| 0 <= a < b < front.len() implies front[a].0@
                != front[b].0@ by {
                assert(fields[a].0@ != fields[b].0@);
            }
        }
        lemma_fields_map_size(front);
        lemma_fields_map_names(front, fields.last().0@);
        if fields_map(front).contains_key(fields.last().0@) {
            let j = choose|j: int| 0 <= j < front.len() && front[j].0@ == fields.last().0@;
            assert(fields[j].0@ != fields[fields.len() - 1].0@);
        }
        assert(fields_map(fields).dom() =~= fields_map(front).dom().insert(fields.last().0@));
    }
}

/// `after` is `before` with the event `handed` behind it, if there is one,
/// and `before` itself if there is none.
pub open spec fn handed_on(
    before: Seq<LogEvent>,
    after: Seq<LogEvent>,
    handed: Option<Map<Seq<char>, ValueView>>,
) -> bool {
    match handed {
        Some(event) => {
            &&& after.len() == before.len() + 1
            &&& after.drop_last() == before
            &&& after.last()@ == event
        },
        None => after == before,
    }
}

} // verus!

//! Lists of named entries, read as maps.

use vstd::prelude::*;
use crate::text::str_eq;

verus! {

/// The map that a list of named entries stands for. A later entry hides an
/// earlier one of the same name, as an inner binding hides an outer one.
pub open spec fn named<V>(entries: Seq<(String, V)>) -> Map<Seq<char>, V>
    decreases entries.len(),
{
    if entries.len() == 0 {
        Map::empty()
    } else {
        named(entries.drop_last()).insert(entries.last().0@, entries.last().1)
    }
}

/// The map gives a name what its last entry holds.
pub proof fn lemma_named_last<V>(entries: Seq<(String, V)>, i: int)
    requires
        0 <= i < entries.len(),
        forall|j: int| i < j < entries.len() ==> entries[j].0@ != entries[i].0@,
    ensures
        named(entries).contains_key(entries[i].0@),
        named(entries)[entries[i].0@] == entries[i].1,
    decreases entries.len(),
{
    if i < entries.len() - 1 {
        let front = entries.drop_last();
        assert(front[i] == entries[i]);
        assert forall|j: int| i < j < front.len() implies front[j].0@ != front[i].0@ by {
            assert(entries[j].0@ != entries[i].0@);
        }
        lemma_named_last(front, i);
        assert(entries[entries.len() - 1].0@ != entries[i].0@);
    }
}

/// The map lacks a name that no entry carries.
pub proof fn lemma_named_absent<V>(entries: Seq<(String, V)>, name: Seq<char>)
    requires
        forall|j: int| 0 <= j < entries.len() ==> entries[j].0@ != name,
    ensures
        !named(entries).contains_key(name),
    decreases entries.len(),
{
    if entries.len() > 0 {
        let front = entries.drop_last();
        assert forall|j: int| 0 <= j < front.len() implies front[j].0@ != name by {
            assert(entries[j].0@ != name);
        }
        lemma_named_absent(front, name);
        assert(entries[entries.len() - 1].0@ != name);
    }
}

/// What the last entry of `name` holds, if there is one.
pub fn lookup<V: Copy>(entries: &Vec<(String, V)>, name: &str) -> (found: Option<V>)
    ensures
        found == (if named(entries@).contains_key(name@) {
            Some(named(entries@)[name@])
        } else {
            None
        }),
{
    let mut i: usize = entries.len();
    while i > 0
        invariant
            i <= entries@.len(),
            forall|j: int| i <= j < entries@.len() ==> entries@[j].0@ != name@,
        decreases i,
    {
        i -= 1;
        if str_eq(entries[i].0.as_str(), name) {
            proof {
                lemma_named_last(entries@, i as int);
            }
            return Some(entries[i].1);
        }
    }
    proof {
        lemma_named_absent(entries@, name@);
    }
    None
}

/// The place of the last entry of `name` in the list.
pub open spec fn last_position<V>(entries: Seq<(String, V)>, name: Seq<char>) -> Option<int>
    decreases entries.len(),
{
    if entries.len() == 0 {
        None
    } else if entries.last().0@ == name {
        Some(entries.len() - 1)
    } else {
        last_position(entries.drop_last(), name)
    }
}

/// The place of the last entry of `name`, if there is one.
pub fn position<V>(entries: &Vec<(String, V)>, name: &str) -> (found: Option<usize>)
    ensures
        match found {
            Some(i) => last_position(entries@, name@) == Some(i as int) && i < entries@.len(),
            None => last_position(entries@, name@) is None,
        },
{
    let mut i: usize = entries.len();
    assert(entries@.take(i as int) =~= entries@);
    while i > 0
        invariant
            i <= entries@.len(),
            last_position(entries@, name@) == last_position(entries@.take(i as int), name@),
        decreases i,
    {
        i -= 1;
        assert(entries@.take(i + 1).drop_last() =~= entries@.take(i as int));
        if str_eq(entries[i].0.as_str(), name) {
            return Some(i);
        }
    }
    None
}

} // verus!

use vstd::prelude::*;

verus! {

/// Some entry of `entries` carries `name`.
pub open spec fn has_name<V>(entries: Seq<(Seq<char>, V)>, name: Seq<char>) -> bool {
    exists|i: int| 0 <= i < entries.len() && (#[trigger] entries[i]).0 == name
}

/// No two entries of `entries` carry the same name.
pub open spec fn unique_names<V>(entries: Seq<(Seq<char>, V)>) -> bool {
    forall|i: int, j: int|
        0 <= i < entries.len() && 0 <= j < entries.len() && i != j ==> (#[trigger] entries[i]).0
            != (#[trigger] entries[j]).0
}

/// The value stored under `name`, if any.
pub open spec fn lookup<V>(entries: Seq<(Seq<char>, V)>, name: Seq<char>) -> Option<V> {
    if has_name(entries, name) {
        Some(entries[choose|i: int| 0 <= i < entries.len() && (#[trigger] entries[i]).0 == name].1)
    } else {
        None
    }
}

/// In a sequence with unique names, the entry at `i` is what a lookup of its
/// name gives.
pub proof fn lemma_lookup_at<V>(entries: Seq<(Seq<char>, V)>, i: int)
    requires
        unique_names(entries),
        0 <= i < entries.len(),
    ensures
        lookup(entries, entries[i].0) == Some(entries[i].1),
{
    let name = entries[i].0;
    assert(has_name(entries, name));
    let j = choose|j: int| 0 <= j < entries.len() && (#[trigger] entries[j]).0 == name;
    assert(j == i);
}

/// Reading back after a declaration: once `name` is appended to a sequence
/// that did not hold it, a lookup of `name` gives the declared value, every
/// other name reads as before, and names stay unique.
pub proof fn lemma_read_back<V>(entries: Seq<(Seq<char>, V)>, name: Seq<char>, value: V)
    requires
        unique_names(entries),
        !has_name(entries, name),
    ensures
        unique_names(entries.push((name, value))),
        lookup(entries.push((name, value)), name) == Some(value),
        forall|other: Seq<char>|
            other != name ==> #[trigger] lookup(entries.push((name, value)), other) == lookup(
                entries,
                other,
            ),
{
    let pushed = entries.push((name, value));
    assert forall|i: int, j: int|
        0 <= i < pushed.len() && 0 <= j < pushed.len() && i != j implies (#[trigger] pushed[i]).0
        != (#[trigger] pushed[j]).0 by {
        if i == entries.len() {
            assert(pushed[j] == entries[j]);
        } else if j == entries.len() {
            assert(pushed[i] == entries[i]);
        } else {
            assert(pushed[i] == entries[i]);
            assert(pushed[j] == entries[j]);
        }
    }
    lemma_lookup_at(pushed, entries.len() as int);
    assert forall|other: Seq<char>| other != name implies #[trigger] lookup(pushed, other) == lookup(
        entries,
        other,
    ) by {
        if has_name(entries, other) {
            let k = choose|k: int| 0 <= k < entries.len() && (#[trigger] entries[k]).0 == other;
            assert(pushed[k] == entries[k]);
            lemma_lookup_at(entries, k);
            lemma_lookup_at(pushed, k);
        } else {
            assert forall|k: int| 0 <= k < pushed.len() implies (#[trigger] pushed[k]).0 != other by {
                if k < entries.len() {
                    assert(pushed[k] == entries[k]);
                }
            }
        }
    }
}

} // verus!

use vstd::prelude::*;

use indexmap::IndexMap;

use crate::entries::has_name;
use crate::parameter::MandatoryParameter;

verus! {

#[verifier::external_type_specification]
#[verifier::external_body]
#[verifier::reject_recursive_types(K)]
#[verifier::reject_recursive_types(V)]
#[verifier::reject_recursive_types(S)]
pub struct ExIndexMap<K, V, S>(IndexMap<K, V, S>);

/// A positional parameter with its name.
pub type PositionalEntry = (String, MandatoryParameter);

/// The entries of a map of positional parameters in their order: each name
/// with the limit that was declared for it.
pub uninterp spec fn positional_entries(m: IndexMap<String, MandatoryParameter>) -> Seq<(Seq<char>, Option<u8>)>;

/// Relies on `IndexMap::new`: the map starts with no entry.
#[verifier::external_body]
pub(crate) fn positional_new() -> (r: IndexMap<String, MandatoryParameter>)
    ensures
        positional_entries(r) == Seq::<(Seq<char>, Option<u8>)>::empty(),
{
    IndexMap::new()
}

/// Relies on `IndexMap::contains_key`: whether some entry has an equal key.
#[verifier::external_body]
pub(crate) fn positional_contains(m: &IndexMap<String, MandatoryParameter>, name: &String) -> (r: bool)
    ensures
        r == has_name(positional_entries(*m), name@),
{
    m.contains_key(name.as_str())
}

/// Relies on `IndexMap::insert`: a key that is not yet present goes in last
/// in order, with its value.
#[verifier::external_body]
pub(crate) fn positional_insert(
    m: &mut IndexMap<String, MandatoryParameter>,
    name: String,
    p: MandatoryParameter,
)
    requires
        !has_name(positional_entries(*old(m)), name@),
    ensures
        positional_entries(*final(m)) == positional_entries(*old(m)).push((name@, p@)),
{
    m.insert(name, p);
}

/// Relies on `IndexMap::last`: the value of the last entry in order.
#[verifier::external_body]
pub(crate) fn positional_last(m: &IndexMap<String, MandatoryParameter>) -> (r: Option<MandatoryParameter>)
    ensures
        r is None <==> positional_entries(*m).len() == 0,
        r matches Some(p) ==> p@ == positional_entries(*m).last().1,
{
    m.last().map(|(_, p)| *p)
}

/// Relies on `IndexMap::len`: the number of entries.
#[verifier::external_body]
pub(crate) fn positional_len(m: &IndexMap<String, MandatoryParameter>) -> (r: usize)
    ensures
        r == positional_entries(*m).len(),
{
    m.len()
}

/// Relies on `IndexMap::get_index`: the entry at a position in order, if the
/// position is below the length.
#[verifier::external_body]
pub(crate) fn positional_at(m: &IndexMap<String, MandatoryParameter>, index: usize) -> (r: Option<PositionalEntry>)
    ensures
        r is None <==> index >= positional_entries(*m).len(),
        r matches Some(e) ==> e.0@ == positional_entries(*m)[index as int].0,
        r matches Some(e) ==> e.1@ == positional_entries(*m)[index as int].1,
{
    m.get_index(index).map(|(n, p)| (n.clone(), *p))
}

} // verus!

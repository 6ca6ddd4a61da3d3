use vstd::prelude::*;

use indexmap::IndexMap;

use crate::arg::Arg;
use crate::model::Entries;

verus! {

#[verifier::external_type_specification]
#[verifier::external_body]
#[verifier::reject_recursive_types(K)]
#[verifier::reject_recursive_types(V)]
#[verifier::reject_recursive_types(S)]
pub struct ExIndexMap<K, V, S>(IndexMap<K, V, S>);

/// What an `IndexMap` of arguments holds: its `(key, value)` pairs in the
/// map's iteration order, keys taken as character sequences.
pub uninterp spec fn imap_entries(m: IndexMap<String, Arg>) -> Entries;

/// Relies on `indexmap::IndexMap::new`: creates an empty map.
#[verifier::external_body]
pub(crate) fn imap_new() -> (r: IndexMap<String, Arg>)
    ensures
        imap_entries(r) == Seq::<(Seq<char>, crate::arg::ArgModel)>::empty(),
{
    IndexMap::new()
}

/// Relies on `indexmap::IndexMap::with_capacity`: creates an empty map,
/// differing from `new` only in pre-reserved storage.
#[verifier::external_body]
pub(crate) fn imap_with_capacity(n: usize) -> (r: IndexMap<String, Arg>)
    ensures
        imap_entries(r) == Seq::<(Seq<char>, crate::arg::ArgModel)>::empty(),
{
    IndexMap::with_capacity(n)
}

/// Relies on `indexmap::IndexMap::len`: the number of key-value pairs.
#[verifier::external_body]
pub(crate) fn imap_len(m: &IndexMap<String, Arg>) -> (r: usize)
    ensures
        r == imap_entries(*m).len(),
{
    m.len()
}

/// Relies on `indexmap::IndexMap::get`: a reference to the value stored
/// under an equivalent key, or `None` when no such key is present.
#[verifier::external_body]
pub(crate) fn imap_get<'a>(m: &'a IndexMap<String, Arg>, name: &str) -> (r: Option<&'a Arg>)
    ensures
        (match r {
            Some(a) => (exists|i: int|
                0 <= i < imap_entries(*m).len() && imap_entries(*m)[i].0 == name@) && (forall|
                i: int,
            |
                #![auto]
                0 <= i < imap_entries(*m).len() && imap_entries(*m)[i].0 == name@ ==> a@
                    == imap_entries(*m)[i].1),
            None => forall|i: int|
                #![auto]
                0 <= i < imap_entries(*m).len() ==> imap_entries(*m)[i].0 != name@,
        }),
{
    m.get(name)
}

/// Relies on `indexmap::IndexMap::get_index`: the key-value pair at a
/// position of the iteration order, or `None` past the end.
#[verifier::external_body]
pub(crate) fn imap_get_index<'a>(m: &'a IndexMap<String, Arg>, i: usize) -> (r: Option<
    (&'a str, &'a Arg),
>)
    ensures
        i < imap_entries(*m).len() ==> (match r {
            Some(p) => p.0@ == imap_entries(*m)[i as int].0 && p.1@ == imap_entries(*m)[i as int].1,
            None => false,
        }),
        i >= imap_entries(*m).len() ==> r is None,
{
    m.get_index(i).map(|p: (&String, &Arg)| (p.0.as_str(), p.1))
}

/// Relies on `indexmap::IndexMap::insert`: an existing equivalent key keeps
/// its place in the order and has its value replaced; a new key is appended
/// last in order.
#[verifier::external_body]
pub(crate) fn imap_insert(m: &mut IndexMap<String, Arg>, name: String, arg: Arg)
    ensures
        forall|i: int|
            #![auto]
            0 <= i < imap_entries(*old(m)).len() && imap_entries(*old(m))[i].0 == name@
                ==> imap_entries(*final(m)) == imap_entries(*old(m)).update(i, (name@, arg@)),
        !(exists|i: int| 0 <= i < imap_entries(*old(m)).len() && imap_entries(*old(m))[i].0 == name@)
            ==> imap_entries(*final(m)) == imap_entries(*old(m)).push((name@, arg@)),
{
    let _ = m.insert(name, arg);
}

/// Relies on `indexmap::IndexMap::shift_remove`: removes the entry of an
/// equivalent key by shifting the entries after it down, preserving their
/// relative order; absent keys leave the map unchanged.
#[verifier::external_body]
pub(crate) fn imap_shift_remove(m: &mut IndexMap<String, Arg>, name: &str)
    ensures
        forall|i: int|
            #![auto]
            0 <= i < imap_entries(*old(m)).len() && imap_entries(*old(m))[i].0 == name@
                ==> imap_entries(*final(m)) == imap_entries(*old(m)).remove(i),
        !(exists|i: int| 0 <= i < imap_entries(*old(m)).len() && imap_entries(*old(m))[i].0 == name@)
            ==> imap_entries(*final(m)) == imap_entries(*old(m)),
{
    let _ = m.shift_remove(name);
}

} // verus!

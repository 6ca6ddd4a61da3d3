use vstd::prelude::*;

use crate::arg::{ArgModel, DataModel};

verus! {

/// The mathematical contents of an [`crate::Args`] map: its `(name, entry)`
/// pairs in insertion order.
pub type Entries = Seq<(Seq<char>, ArgModel)>;

/// Every name occurs at most once.
pub open spec fn distinct_names(s: Entries) -> bool {
    forall|i: int, j: int| 0 <= i < j < s.len() ==> s[i].0 != s[j].0
}

/// Some entry is stored under `n`.
pub open spec fn has_name(s: Entries, n: Seq<char>) -> bool {
    exists|i: int| 0 <= i < s.len() && s[i].0 == n
}

/// The position of the entry stored under `n`; meaningful only when
/// `has_name(s, n)` holds, and then unique whenever names are distinct.
pub open spec fn name_index(s: Entries, n: Seq<char>) -> int {
    choose|i: int| 0 <= i < s.len() && s[i].0 == n
}

/// The entry stored under `n`; meaningful only when `has_name(s, n)` holds.
pub open spec fn entry_of(s: Entries, n: Seq<char>) -> ArgModel {
    s[name_index(s, n)].1
}

/// The contents after inserting `d` under `n`: an existing name keeps its
/// position and gets a fresh entry (value replaced, `used` cleared); a new
/// name is appended at the end.
pub open spec fn insert_model(s: Entries, n: Seq<char>, d: DataModel) -> Entries {
    if has_name(s, n) {
        s.update(name_index(s, n), (n, ArgModel { data: d, used: false }))
    } else {
        s.push((n, ArgModel { data: d, used: false }))
    }
}

/// The contents after removing `n`: the entry is gone, every other entry
/// keeps its relative order; absent names leave the contents unchanged.
pub open spec fn remove_model(s: Entries, n: Seq<char>) -> Entries {
    if has_name(s, n) {
        s.remove(name_index(s, n))
    } else {
        s
    }
}

/// The contents after a successful consuming read of `n`: only that entry's
/// `used` flag changes, to `true`. Meaningful only when `has_name(s, n)`.
pub open spec fn poke_model(s: Entries, n: Seq<char>) -> Entries {
    s.update(name_index(s, n), (n, ArgModel { data: entry_of(s, n).data, used: true }))
}

/// The contents after clearing every `used` flag.
pub open spec fn reset_model(s: Entries) -> Entries {
    Seq::new(s.len(), |i: int| (s[i].0, ArgModel { data: s[i].1.data, used: false }))
}

/// The names of all entries, in insertion order.
pub open spec fn names_of(s: Entries) -> Seq<Seq<char>> {
    Seq::new(s.len(), |i: int| s[i].0)
}

/// Every entry has been used; vacuously true of an empty map.
pub open spec fn all_used_model(s: Entries) -> bool {
    forall|i: int| 0 <= i < s.len() ==> s[i].1.used
}

/// The names of the entries not yet used, in insertion order.
pub open spec fn unused_names(s: Entries) -> Seq<Seq<char>>
    decreases s.len(),
{
    if s.len() == 0 {
        Seq::empty()
    } else {
        let rest = unused_names(s.drop_last());
        if !s.last().1.used {
            rest.push(s.last().0)
        } else {
            rest
        }
    }
}

/// The names of the entries already used, in insertion order.
pub open spec fn used_names(s: Entries) -> Seq<Seq<char>>
    decreases s.len(),
{
    if s.len() == 0 {
        Seq::empty()
    } else {
        let rest = used_names(s.drop_last());
        if s.last().1.used {
            rest.push(s.last().0)
        } else {
            rest
        }
    }
}

} // verus!

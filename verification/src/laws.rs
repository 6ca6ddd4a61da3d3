use vstd::prelude::*;

use crate::arg::{ArgModel, DataModel};
use crate::model::{
    all_used_model, distinct_names, entry_of, has_name, insert_model, name_index, names_of,
    poke_model, remove_model, reset_model, unused_names,
};

verus! {

/// When names are distinct, the position of a name is the only one that
/// carries it, so `name_index` and `entry_of` are pinned down.
pub proof fn lemma_name_index_pins(s: crate::model::Entries, n: Seq<char>, i: int)
    requires
        distinct_names(s),
        0 <= i < s.len(),
        s[i].0 == n,
    ensures
        has_name(s, n),
        name_index(s, n) == i,
        entry_of(s, n) == s[i].1,
{
    assert(has_name(s, n));
    let j = name_index(s, n);
    assert(0 <= j < s.len() && s[j].0 == n);
    if j < i {
        assert(s[j].0 != s[i].0);
    } else if i < j {
        assert(s[i].0 != s[j].0);
    }
}

/// Replacing the entry at a position, keeping its name, keeps names unique.
pub proof fn lemma_update_entry_distinct(s: crate::model::Entries, i: int, e: ArgModel)
    requires
        distinct_names(s),
        0 <= i < s.len(),
    ensures
        distinct_names(s.update(i, (s[i].0, e))),
{
    let t = s.update(i, (s[i].0, e));
    assert forall|k: int, l: int| 0 <= k < l < t.len() implies t[k].0 != t[l].0 by {
        assert(s[k].0 != s[l].0);
    }
}

/// Inserting keeps names unique: afterwards the map holds exactly one entry
/// per distinct name, the inserted name is present with the fresh value and
/// a cleared `used` flag, names other than the inserted one are present if
/// and only if they were before, with their entries untouched, and the
/// length grows only when the name was new.
pub proof fn lemma_insert_model(s: crate::model::Entries, n: Seq<char>, d: DataModel)
    requires
        distinct_names(s),
    ensures
        distinct_names(insert_model(s, n, d)),
        has_name(insert_model(s, n, d), n),
        entry_of(insert_model(s, n, d), n) == (ArgModel { data: d, used: false }),
        forall|m: Seq<char>| #[trigger]
            has_name(insert_model(s, n, d), m) <==> (has_name(s, m) || m == n),
        forall|m: Seq<char>|
            m != n && has_name(s, m) ==> #[trigger] entry_of(insert_model(s, n, d), m)
                == entry_of(s, m),
        insert_model(s, n, d).len() == (if has_name(s, n) {
            s.len() as int
        } else {
            s.len() + 1 as int
        }),
{
    let t = insert_model(s, n, d);
    if has_name(s, n) {
        let i = name_index(s, n);
        assert(0 <= i < s.len() && s[i].0 == n);
        assert forall|k: int| 0 <= k < t.len() implies t[k].0 == s[k].0 by {}
        assert(distinct_names(t)) by {
            assert forall|k: int, l: int| 0 <= k < l < t.len() implies t[k].0 != t[l].0 by {
                assert(s[k].0 != s[l].0);
            }
        }
        lemma_name_index_pins(t, n, i);
        assert forall|m: Seq<char>| #[trigger]
            has_name(t, m) <==> (has_name(s, m) || m == n) by {
            if has_name(t, m) {
                let k = choose|k: int| 0 <= k < t.len() && t[k].0 == m;
                assert(s[k].0 == m);
            }
            if has_name(s, m) {
                let k = choose|k: int| 0 <= k < s.len() && s[k].0 == m;
                assert(t[k].0 == m);
            }
        }
        assert forall|m: Seq<char>| m != n && has_name(s, m) implies #[trigger] entry_of(t, m)
            == entry_of(s, m) by {
            let k = choose|k: int| 0 <= k < s.len() && s[k].0 == m;
            lemma_name_index_pins(s, m, k);
            if k == i {
                assert(s[i].0 == n);
            }
            assert(t[k] == s[k]);
            lemma_name_index_pins(t, m, k);
        }
    } else {
        assert forall|k: int| 0 <= k < s.len() implies s[k].0 != n by {
            if s[k].0 == n {
                assert(has_name(s, n));
            }
        }
        assert(distinct_names(t)) by {
            assert forall|k: int, l: int| 0 <= k < l < t.len() implies t[k].0 != t[l].0 by {
                if l < s.len() {
                    assert(s[k].0 != s[l].0);
                } else {
                    assert(t[l].0 == n);
                    assert(s[k].0 != n);
                }
            }
        }
        lemma_name_index_pins(t, n, s.len() as int);
        assert forall|m: Seq<char>| #[trigger]
            has_name(t, m) <==> (has_name(s, m) || m == n) by {
            if has_name(t, m) && m != n {
                let k = choose|k: int| 0 <= k < t.len() && t[k].0 == m;
                assert(k < s.len());
                assert(s[k].0 == m);
            }
            if has_name(s, m) {
                let k = choose|k: int| 0 <= k < s.len() && s[k].0 == m;
                assert(t[k].0 == m);
            }
        }
        assert forall|m: Seq<char>| m != n && has_name(s, m) implies #[trigger] entry_of(t, m)
            == entry_of(s, m) by {
            let k = choose|k: int| 0 <= k < s.len() && s[k].0 == m;
            lemma_name_index_pins(s, m, k);
            assert(t[k] == s[k]);
            lemma_name_index_pins(t, m, k);
        }
    }
}

/// Overwriting an existing name replaces the value and clears that entry's
/// `used` flag, in place: the order of names is exactly as before and every
/// other entry is untouched.
pub proof fn lemma_overwrite_keeps_positions(s: crate::model::Entries, n: Seq<char>, d: DataModel)
    requires
        distinct_names(s),
        has_name(s, n),
    ensures
        insert_model(s, n, d).len() == s.len(),
        forall|k: int| 0 <= k < s.len() ==> #[trigger] insert_model(s, n, d)[k].0 == s[k].0,
        insert_model(s, n, d)[name_index(s, n)] == (n, ArgModel { data: d, used: false }),
        forall|k: int|
            0 <= k < s.len() && k != name_index(s, n) ==> #[trigger] insert_model(s, n, d)[k]
                == s[k],
{
    let i = name_index(s, n);
    assert(0 <= i < s.len() && s[i].0 == n);
}

/// Type-safety of retrieval: immediately after `d` is inserted under `n`,
/// the entry under `n` holds exactly `d`, so by `Args::get`'s contract a
/// read back at `d`'s own kind returns that very value, and a read at any
/// other kind is refused with `NotOfType`.
pub proof fn law_typed_retrieval(s: crate::model::Entries, n: Seq<char>, d: DataModel, want: crate::arg::ArgKind)
    requires
        distinct_names(s),
    ensures
        has_name(insert_model(s, n, d), n),
        entry_of(insert_model(s, n, d), n).data == d,
        (entry_of(insert_model(s, n, d), n).data.kind() != want) <==> (d.kind() != want),
{
    lemma_insert_model(s, n, d);
}

/// Removing a name takes exactly that entry out: afterwards the name is
/// absent, every other name is present if and only if it was before, its
/// entry untouched, and names stay unique.
pub proof fn lemma_remove_model(s: crate::model::Entries, n: Seq<char>)
    requires
        distinct_names(s),
    ensures
        distinct_names(remove_model(s, n)),
        !has_name(remove_model(s, n), n),
        forall|m: Seq<char>| #[trigger]
            has_name(remove_model(s, n), m) <==> (has_name(s, m) && m != n),
        forall|m: Seq<char>|
            m != n && has_name(s, m) ==> #[trigger] entry_of(remove_model(s, n), m)
                == entry_of(s, m),
{
    let t = remove_model(s, n);
    if has_name(s, n) {
        let i = name_index(s, n);
        assert(0 <= i < s.len() && s[i].0 == n);
        assert(t == s.remove(i));
        assert(t.len() == s.len() - 1);
        assert forall|k: int| 0 <= k < t.len() implies t[k] == (if k < i {
            s[k]
        } else {
            s[k + 1]
        }) by {}
        assert(distinct_names(t)) by {
            assert forall|k: int, l: int| 0 <= k < l < t.len() implies t[k].0 != t[l].0 by {
                let k0 = if k < i { k } else { k + 1 };
                let l0 = if l < i { l } else { l + 1 };
                assert(s[k0].0 != s[l0].0);
            }
        }
        assert(!has_name(t, n)) by {
            if has_name(t, n) {
                let k = choose|k: int| 0 <= k < t.len() && t[k].0 == n;
                let k0 = if k < i { k } else { k + 1 };
                assert(s[k0].0 == n);
                lemma_name_index_pins(s, n, k0);
            }
        }
        assert forall|m: Seq<char>| #[trigger]
            has_name(t, m) <==> (has_name(s, m) && m != n) by {
            if has_name(t, m) {
                let k = choose|k: int| 0 <= k < t.len() && t[k].0 == m;
                let k0 = if k < i { k } else { k + 1 };
                assert(s[k0].0 == m);
            }
            if has_name(s, m) && m != n {
                let k = choose|k: int| 0 <= k < s.len() && s[k].0 == m;
                if k < i {
                    assert(t[k].0 == m);
                } else {
                    assert(k != i);
                    assert(t[k - 1].0 == m);
                }
            }
        }
        assert forall|m: Seq<char>| m != n && has_name(s, m) implies #[trigger] entry_of(t, m)
            == entry_of(s, m) by {
            let k = choose|k: int| 0 <= k < s.len() && s[k].0 == m;
            lemma_name_index_pins(s, m, k);
            if k < i {
                assert(t[k] == s[k]);
                lemma_name_index_pins(t, m, k);
            } else {
                assert(k != i);
                assert(t[k - 1] == s[k]);
                lemma_name_index_pins(t, m, k - 1);
            }
        }
    } else {
        assert(t == s);
    }
}

/// A successful consuming read sets the entry's `used` flag and nothing
/// else: names, order and every other entry are untouched, and reading the
/// same name again changes nothing further.
pub proof fn lemma_poke_model(s: crate::model::Entries, n: Seq<char>)
    requires
        distinct_names(s),
        has_name(s, n),
    ensures
        distinct_names(poke_model(s, n)),
        poke_model(s, n).len() == s.len(),
        has_name(poke_model(s, n), n),
        entry_of(poke_model(s, n), n) == (ArgModel { data: entry_of(s, n).data, used: true }),
        forall|m: Seq<char>| #[trigger] has_name(poke_model(s, n), m) <==> has_name(s, m),
        forall|m: Seq<char>|
            m != n && has_name(s, m) ==> #[trigger] entry_of(poke_model(s, n), m)
                == entry_of(s, m),
        poke_model(poke_model(s, n), n) == poke_model(s, n),
{
    let t = poke_model(s, n);
    let i = name_index(s, n);
    assert(0 <= i < s.len() && s[i].0 == n);
    assert forall|k: int| 0 <= k < t.len() implies t[k].0 == s[k].0 by {}
    assert(distinct_names(t)) by {
        assert forall|k: int, l: int| 0 <= k < l < t.len() implies t[k].0 != t[l].0 by {
            assert(s[k].0 != s[l].0);
        }
    }
    lemma_name_index_pins(t, n, i);
    assert forall|m: Seq<char>| #[trigger] has_name(t, m) <==> has_name(s, m) by {
        if has_name(t, m) {
            let k = choose|k: int| 0 <= k < t.len() && t[k].0 == m;
            assert(s[k].0 == m);
        }
        if has_name(s, m) {
            let k = choose|k: int| 0 <= k < s.len() && s[k].0 == m;
            assert(t[k].0 == m);
        }
    }
    assert forall|m: Seq<char>| m != n && has_name(s, m) implies #[trigger] entry_of(t, m)
        == entry_of(s, m) by {
        let k = choose|k: int| 0 <= k < s.len() && s[k].0 == m;
        lemma_name_index_pins(s, m, k);
        if k == i {
            assert(s[i].0 == n);
        }
        assert(t[k] == s[k]);
        lemma_name_index_pins(t, m, k);
    }
    assert(poke_model(t, n) =~= t) by {
        assert(entry_of(t, n).data == entry_of(s, n).data);
        assert(t[i] == (n, ArgModel { data: entry_of(s, n).data, used: true }));
    }
}

/// Every entry is used exactly when the sequence of not-yet-used names is
/// empty.
pub proof fn lemma_all_used_iff_none_unused(s: crate::model::Entries)
    ensures
        all_used_model(s) <==> unused_names(s).len() == 0,
    decreases s.len(),
{
    if s.len() == 0 {
    } else {
        let p = s.drop_last();
        lemma_all_used_iff_none_unused(p);
        assert(all_used_model(s) <==> (all_used_model(p) && s.last().1.used)) by {
            if all_used_model(s) {
                assert forall|i: int| 0 <= i < p.len() implies p[i].1.used by {
                    assert(s[i].1.used);
                }
                assert(s[s.len() - 1].1.used);
            }
            if all_used_model(p) && s.last().1.used {
                assert forall|i: int| 0 <= i < s.len() implies s[i].1.used by {
                    if i < s.len() - 1 {
                        assert(p[i].1.used);
                    }
                }
            }
        }
    }
}

/// Clearing every `used` flag keeps the length, the names in their order
/// and the values; afterwards every name is among the not-yet-used ones,
/// and the map reports all-used only when it is empty.
pub proof fn lemma_reset_model(s: crate::model::Entries)
    ensures
        reset_model(s).len() == s.len(),
        forall|i: int|
            0 <= i < s.len() ==> #[trigger] reset_model(s)[i] == (
            s[i].0,
            ArgModel { data: s[i].1.data, used: false },
            ),
        distinct_names(s) ==> distinct_names(reset_model(s)),
        all_used_model(reset_model(s)) <==> s.len() == 0,
        unused_names(reset_model(s)) == names_of(s),
    decreases s.len(),
{
    let t = reset_model(s);
    if s.len() > 0 {
        assert(!t[0].1.used);
    }
    if distinct_names(s) {
        assert forall|k: int, l: int| 0 <= k < l < t.len() implies t[k].0 != t[l].0 by {
            assert(s[k].0 != s[l].0);
        }
    }
    if s.len() == 0 {
        assert(unused_names(t) =~= names_of(s));
    } else {
        let p = s.drop_last();
        lemma_reset_model(p);
        assert(t.drop_last() =~= reset_model(p));
        assert(!t.last().1.used);
        assert(unused_names(t) == unused_names(reset_model(p)).push(s.last().0));
        assert(unused_names(t) =~= names_of(s));
    }
}

} // verus!

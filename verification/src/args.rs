use vstd::pervasive::unreached;
use vstd::prelude::*;

use indexmap::IndexMap;

use crate::arg::{Arg, ArgData, ArgKind, ArgModel, DataModel};
use crate::error::{DynArgError, ErrorModel};
use crate::laws::{
    lemma_insert_model, lemma_name_index_pins, lemma_poke_model, lemma_remove_model,
    lemma_update_entry_distinct,
};
use crate::model::{
    all_used_model, distinct_names, entry_of, has_name, insert_model, name_index, poke_model,
    remove_model, reset_model, unused_names, used_names, Entries,
};
use crate::store::{
    imap_entries, imap_get, imap_get_index, imap_insert, imap_len, imap_new, imap_shift_remove,
    imap_with_capacity,
};

verus! {

/// An ordered map from string names to stored arguments.
///
/// Names are unique; insertion order is preserved, and overwriting an
/// existing name keeps its position. The view of an `Args` is the sequence
/// of its `(name, entry)` pairs in that order.
pub struct Args {
    map: IndexMap<String, Arg>,
}

impl View for Args {
    type V = Entries;

    closed spec fn view(&self) -> Entries {
        imap_entries(self.map)
    }
}

impl Args {
    /// Names are stored at most once; every well-formed operation keeps it so.
    pub open spec fn wf(&self) -> bool {
        distinct_names(self@)
    }

    /// An empty map.
    pub fn new() -> (r: Self)
        ensures
            r@ == Seq::<(Seq<char>, ArgModel)>::empty(),
            r.wf(),
    {
        Args { map: imap_new() }
    }

    /// An empty map with storage reserved for `capacity` entries; apart
    /// from allocation it behaves exactly as `new`.
    pub fn with_capacity(capacity: usize) -> (r: Self)
        ensures
            r@ == Seq::<(Seq<char>, ArgModel)>::empty(),
            r.wf(),
    {
        Args { map: imap_with_capacity(capacity) }
    }

    /// Store `data` under `name` with a cleared `used` flag. A new name is
    /// appended at the end of the order; an existing one keeps its position
    /// and has its old entry discarded, the old `used` flag included.
    pub fn insert(&mut self, name: &str, data: ArgData)
        requires
            old(self).wf(),
        ensures
            final(self)@ == insert_model(old(self)@, name@, data@),
            final(self).wf(),
    {
        let ghost s = self@;
        proof {
            lemma_insert_model(s, name@, data@);
            if has_name(s, name@) {
                assert(0 <= name_index(s, name@) < s.len() && s[name_index(s, name@)].0
                    == name@);
            }
        }
        imap_insert(&mut self.map, name.to_owned(), Arg::new(data));
    }

    /// Read the value stored under `name` at the requested kind, without
    /// touching its `used` flag. Fails with `NoSuchArg` when the name is
    /// absent and with `NotOfType` when the stored value is of another
    /// kind; both errors carry the argument name.
    pub fn get(&self, name: &str, want: ArgKind) -> (r: Result<ArgData, DynArgError>)
        requires
            self.wf(),
        ensures
            (if !has_name(self@, name@) {
                r matches Err(e) && e@ == ErrorModel::NoSuchArg(name@)
            } else if entry_of(self@, name@).data.kind() != want {
                r matches Err(e) && e@ == ErrorModel::NotOfType(name@)
            } else {
                r matches Ok(d) && d@ == entry_of(self@, name@).data
            }),
    {
        match imap_get(&self.map, name) {
            None => Err(DynArgError::NoSuchArg { name: name.to_owned() }),
            Some(a) => {
                proof {
                    assert(has_name(self@, name@));
                    assert(0 <= name_index(self@, name@) < self@.len() && self@[name_index(
                        self@,
                        name@,
                    )].0 == name@);
                    assert(a@ == entry_of(self@, name@));
                }
                match a.get(want) {
                    Ok(d) => Ok(d),
                    Err(_) => Err(DynArgError::NotOfType { name: name.to_owned() }),
                }
            },
        }
    }

    /// Like `get`, but a successful read also marks the entry as used, in
    /// place. A failed read (absent name or wrong kind) changes nothing.
    pub fn poke(&mut self, name: &str, want: ArgKind) -> (r: Result<ArgData, DynArgError>)
        requires
            old(self).wf(),
        ensures
            final(self).wf(),
            (if !has_name(old(self)@, name@) {
                r matches Err(e) && e@ == ErrorModel::NoSuchArg(name@) && final(self)@ == old(
                    self,
                )@
            } else if entry_of(old(self)@, name@).data.kind() != want {
                r matches Err(e) && e@ == ErrorModel::NotOfType(name@) && final(self)@ == old(
                    self,
                )@
            } else {
                r matches Ok(d) && d@ == entry_of(old(self)@, name@).data && final(self)@
                    == poke_model(old(self)@, name@)
            }),
    {
        let ghost s = self@;
        let found: Option<Arg> = match imap_get(&self.map, name) {
            None => None,
            Some(a) => Some(a.clone()),
        };
        match found {
            None => Err(DynArgError::NoSuchArg { name: name.to_owned() }),
            Some(mut a2) => {
                proof {
                    assert(has_name(s, name@));
                    assert(0 <= name_index(s, name@) < s.len() && s[name_index(s, name@)].0
                        == name@);
                    assert(a2@ == entry_of(s, name@));
                }
                match a2.poke(want) {
                    Ok(d) => {
                        proof {
                            lemma_poke_model(s, name@);
                        }
                        imap_insert(&mut self.map, name.to_owned(), a2);
                        proof {
                            assert(self@ == poke_model(s, name@));
                        }
                        Ok(d)
                    },
                    Err(_) => Err(DynArgError::NotOfType { name: name.to_owned() }),
                }
            },
        }
    }

    /// Delete the entry stored under `name`; the names after it close the
    /// gap, keeping their relative order. Removing an absent name is a
    /// no-op, not an error.
    pub fn remove(&mut self, name: &str)
        requires
            old(self).wf(),
        ensures
            final(self)@ == remove_model(old(self)@, name@),
            final(self).wf(),
    {
        let ghost s = self@;
        proof {
            lemma_remove_model(s, name@);
            if has_name(s, name@) {
                assert(0 <= name_index(s, name@) < s.len() && s[name_index(s, name@)].0
                    == name@);
            }
        }
        imap_shift_remove(&mut self.map, name);
    }

    /// True exactly when every entry currently in the map has been used;
    /// vacuously true of an empty map.
    pub fn all_used(&self) -> (r: bool)
        ensures
            r == all_used_model(self@),
    {
        let n = imap_len(&self.map);
        let mut i: usize = 0;
        let mut ok = true;
        while i < n
            invariant
                n == self@.len(),
                0 <= i <= n,
                ok <==> (forall|j: int| 0 <= j < i ==> self@[j].1.used),
            decreases n - i,
        {
            match imap_get_index(&self.map, i) {
                Some(p) => {
                    if !p.1.used() {
                        ok = false;
                    }
                },
                None => {
                    proof {
                        assert(false);
                    }
                },
            }
            i = i + 1;
        }
        ok
    }

    /// The full ordered contents, read-only.
    pub fn iter(&self) -> (r: Vec<(&str, &Arg)>)
        ensures
            r@.len() == self@.len(),
            forall|i: int|
                0 <= i < r@.len() ==> (#[trigger] r@[i]).0@ == self@[i].0 && r@[i].1@
                    == self@[i].1,
    {
        let n = imap_len(&self.map);
        let mut r: Vec<(&str, &Arg)> = Vec::new();
        let mut i: usize = 0;
        while i < n
            invariant
                n == self@.len(),
                0 <= i <= n,
                r@.len() == i,
                forall|j: int|
                    0 <= j < i ==> (#[trigger] r@[j]).0@ == self@[j].0 && r@[j].1@ == self@[j].1,
            decreases n - i,
        {
            match imap_get_index(&self.map, i) {
                Some(p) => {
                    r.push(p);
                },
                None => {
                    proof {
                        assert(false);
                    }
                },
            }
            i = i + 1;
        }
        r
    }

    /// The names of the entries not yet used, in insertion order.
    pub fn iter_not_used_name(&self) -> (r: Vec<&str>)
        ensures
            r.deep_view() == unused_names(self@),
    {
        let n = imap_len(&self.map);
        let mut r: Vec<&str> = Vec::new();
        let mut i: usize = 0;
        while i < n
            invariant
                n == self@.len(),
                0 <= i <= n,
                r.deep_view() == unused_names(self@.take(i as int)),
            decreases n - i,
        {
            let ghost prefix = self@.take(i as int);
            match imap_get_index(&self.map, i) {
                Some(p) => {
                    proof {
                        assert(self@.take(i + 1 as int).drop_last() =~= prefix);
                        assert(self@.take(i + 1 as int).last() == self@[i as int]);
                    }
                    if !p.1.used() {
                        r.push(p.0);
                        proof {
                            assert(r.deep_view() =~= unused_names(self@.take(i + 1 as int)));
                        }
                    } else {
                        proof {
                            assert(r.deep_view() =~= unused_names(self@.take(i + 1 as int)));
                        }
                    }
                },
                None => {
                    proof {
                        assert(false);
                    }
                },
            }
            i = i + 1;
        }
        proof {
            assert(self@.take(n as int) =~= self@);
        }
        r
    }

    /// The names of the entries already used, in insertion order.
    pub fn iter_used_name(&self) -> (r: Vec<&str>)
        ensures
            r.deep_view() == used_names(self@),
    {
        let n = imap_len(&self.map);
        let mut r: Vec<&str> = Vec::new();
        let mut i: usize = 0;
        while i < n
            invariant
                n == self@.len(),
                0 <= i <= n,
                r.deep_view() == used_names(self@.take(i as int)),
            decreases n - i,
        {
            let ghost prefix = self@.take(i as int);
            match imap_get_index(&self.map, i) {
                Some(p) => {
                    proof {
                        assert(self@.take(i + 1 as int).drop_last() =~= prefix);
                        assert(self@.take(i + 1 as int).last() == self@[i as int]);
                    }
                    if p.1.used() {
                        r.push(p.0);
                        proof {
                            assert(r.deep_view() =~= used_names(self@.take(i + 1 as int)));
                        }
                    } else {
                        proof {
                            assert(r.deep_view() =~= used_names(self@.take(i + 1 as int)));
                        }
                    }
                },
                None => {
                    proof {
                        assert(false);
                    }
                },
            }
            i = i + 1;
        }
        proof {
            assert(self@.take(n as int) =~= self@);
        }
        r
    }

    /// Clear every entry's `used` flag; values and order stay as they are.
    pub fn reset_used_status(&mut self)
        requires
            old(self).wf(),
        ensures
            final(self)@ == reset_model(old(self)@),
            final(self).wf(),
    {
        let ghost s = old(self)@;
        let n = imap_len(&self.map);
        let mut i: usize = 0;
        while i < n
            invariant
                n == s.len(),
                0 <= i <= n,
                self@.len() == s.len(),
                distinct_names(self@),
                forall|j: int|
                    0 <= j < i ==> #[trigger] self@[j] == (
                    s[j].0,
                    ArgModel { data: s[j].1.data, used: false },
                    ),
                forall|j: int| i <= j < n ==> #[trigger] self@[j] == s[j],
            decreases n - i,
        {
            let ghost cur = self@;
            let pair: Option<(String, Arg)> = match imap_get_index(&self.map, i) {
                Some(p) => Some((p.0.to_owned(), p.1.clone())),
                None => None,
            };
            match pair {
                Some((nm, mut a2)) => {
                    proof {
                        assert(nm@ == cur[i as int].0);
                        lemma_name_index_pins(cur, nm@, i as int);
                        lemma_update_entry_distinct(
                            cur,
                            i as int,
                            ArgModel { data: cur[i as int].1.data, used: false },
                        );
                    }
                    a2.clear_used();
                    imap_insert(&mut self.map, nm, a2);
                },
                None => {
                    proof {
                        assert(false);
                    }
                },
            }
            i = i + 1;
        }
        proof {
            assert(self@ =~= reset_model(s));
        }
    }

    /// Store a `String` under `name`; a typed spelling of `insert`.
    pub fn insert_string(&mut self, name: &str, value: String)
        requires
            old(self).wf(),
        ensures
            final(self)@ == insert_model(old(self)@, name@, DataModel::Str(value@)),
            final(self).wf(),
    {
        self.insert(name, ArgData::Str(value));
    }

    /// Read the `String` stored under `name`; a typed spelling of `get`.
    pub fn get_string(&mut self, name: &str) -> (r: Result<String, DynArgError>)
        requires
            old(self).wf(),
        ensures
            final(self)@ == old(self)@,
            final(self).wf(),
            (if !has_name(old(self)@, name@) {
                r matches Err(e) && e@ == ErrorModel::NoSuchArg(name@)
            } else if entry_of(old(self)@, name@).data.kind() != ArgKind::Str {
                r matches Err(e) && e@ == ErrorModel::NotOfType(name@)
            } else {
                r matches Ok(v) && entry_of(old(self)@, name@).data == DataModel::Str(v@)
            }),
    {
        match self.get(name, ArgKind::Str) {
            Ok(d) => match d {
                ArgData::Str(v) => Ok(v),
                _ => unreached(),
            },
            Err(e) => Err(e),
        }
    }

    /// Consume the `String` stored under `name`; a typed spelling of `poke`.
    pub fn poke_string(&mut self, name: &str) -> (r: Result<String, DynArgError>)
        requires
            old(self).wf(),
        ensures
            final(self).wf(),
            (if !has_name(old(self)@, name@) {
                r matches Err(e) && e@ == ErrorModel::NoSuchArg(name@) && final(self)@ == old(
                    self,
                )@
            } else if entry_of(old(self)@, name@).data.kind() != ArgKind::Str {
                r matches Err(e) && e@ == ErrorModel::NotOfType(name@) && final(self)@ == old(
                    self,
                )@
            } else {
                r matches Ok(v) && entry_of(old(self)@, name@).data == DataModel::Str(v@)
                    && final(self)@ == poke_model(old(self)@, name@)
            }),
    {
        match self.poke(name, ArgKind::Str) {
            Ok(d) => match d {
                ArgData::Str(v) => Ok(v),
                _ => unreached(),
            },
            Err(e) => Err(e),
        }
    }

    /// Store an `i32` under `name`; a typed spelling of `insert`.
    pub fn insert_i32(&mut self, name: &str, value: i32)
        requires
            old(self).wf(),
        ensures
            final(self)@ == insert_model(old(self)@, name@, DataModel::I32(value)),
            final(self).wf(),
    {
        self.insert(name, ArgData::I32(value));
    }

    /// Read the `i32` stored under `name`; a typed spelling of `get`.
    pub fn get_i32(&mut self, name: &str) -> (r: Result<i32, DynArgError>)
        requires
            old(self).wf(),
        ensures
            final(self)@ == old(self)@,
            final(self).wf(),
            (if !has_name(old(self)@, name@) {
                r matches Err(e) && e@ == ErrorModel::NoSuchArg(name@)
            } else if entry_of(old(self)@, name@).data.kind() != ArgKind::I32 {
                r matches Err(e) && e@ == ErrorModel::NotOfType(name@)
            } else {
                r matches Ok(v) && entry_of(old(self)@, name@).data == DataModel::I32(v)
            }),
    {
        match self.get(name, ArgKind::I32) {
            Ok(d) => match d {
                ArgData::I32(v) => Ok(v),
                _ => unreached(),
            },
            Err(e) => Err(e),
        }
    }

    /// Consume the `i32` stored under `name`; a typed spelling of `poke`.
    pub fn poke_i32(&mut self, name: &str) -> (r: Result<i32, DynArgError>)
        requires
            old(self).wf(),
        ensures
            final(self).wf(),
            (if !has_name(old(self)@, name@) {
                r matches Err(e) && e@ == ErrorModel::NoSuchArg(name@) && final(self)@ == old(
                    self,
                )@
            } else if entry_of(old(self)@, name@).data.kind() != ArgKind::I32 {
                r matches Err(e) && e@ == ErrorModel::NotOfType(name@) && final(self)@ == old(
                    self,
                )@
            } else {
                r matches Ok(v) && entry_of(old(self)@, name@).data == DataModel::I32(v)
                    && final(self)@ == poke_model(old(self)@, name@)
            }),
    {
        match self.poke(name, ArgKind::I32) {
            Ok(d) => match d {
                ArgData::I32(v) => Ok(v),
                _ => unreached(),
            },
            Err(e) => Err(e),
        }
    }

    /// Store an `i64` under `name`; a typed spelling of `insert`.
    pub fn insert_i64(&mut self, name: &str, value: i64)
        requires
            old(self).wf(),
        ensures
            final(self)@ == insert_model(old(self)@, name@, DataModel::I64(value)),
            final(self).wf(),
    {
        self.insert(name, ArgData::I64(value));
    }

    /// Read the `i64` stored under `name`; a typed spelling of `get`.
    pub fn get_i64(&mut self, name: &str) -> (r: Result<i64, DynArgError>)
        requires
            old(self).wf(),
        ensures
            final(self)@ == old(self)@,
            final(self).wf(),
            (if !has_name(old(self)@, name@) {
                r matches Err(e) && e@ == ErrorModel::NoSuchArg(name@)
            } else if entry_of(old(self)@, name@).data.kind() != ArgKind::I64 {
                r matches Err(e) && e@ == ErrorModel::NotOfType(name@)
            } else {
                r matches Ok(v) && entry_of(old(self)@, name@).data == DataModel::I64(v)
            }),
    {
        match self.get(name, ArgKind::I64) {
            Ok(d) => match d {
                ArgData::I64(v) => Ok(v),
                _ => unreached(),
            },
            Err(e) => Err(e),
        }
    }

    /// Consume the `i64` stored under `name`; a typed spelling of `poke`.
    pub fn poke_i64(&mut self, name: &str) -> (r: Result<i64, DynArgError>)
        requires
            old(self).wf(),
        ensures
            final(self).wf(),
            (if !has_name(old(self)@, name@) {
                r matches Err(e) && e@ == ErrorModel::NoSuchArg(name@) && final(self)@ == old(
                    self,
                )@
            } else if entry_of(old(self)@, name@).data.kind() != ArgKind::I64 {
                r matches Err(e) && e@ == ErrorModel::NotOfType(name@) && final(self)@ == old(
                    self,
                )@
            } else {
                r matches Ok(v) && entry_of(old(self)@, name@).data == DataModel::I64(v)
                    && final(self)@ == poke_model(old(self)@, name@)
            }),
    {
        match self.poke(name, ArgKind::I64) {
            Ok(d) => match d {
                ArgData::I64(v) => Ok(v),
                _ => unreached(),
            },
            Err(e) => Err(e),
        }
    }

    /// Store a `bool` under `name`; a typed spelling of `insert`.
    pub fn insert_bool(&mut self, name: &str, value: bool)
        requires
            old(self).wf(),
        ensures
            final(self)@ == insert_model(old(self)@, name@, DataModel::Bool(value)),
            final(self).wf(),
    {
        self.insert(name, ArgData::Bool(value));
    }

    /// Read the `bool` stored under `name`; a typed spelling of `get`.
    pub fn get_bool(&mut self, name: &str) -> (r: Result<bool, DynArgError>)
        requires
            old(self).wf(),
        ensures
            final(self)@ == old(self)@,
            final(self).wf(),
            (if !has_name(old(self)@, name@) {
                r matches Err(e) && e@ == ErrorModel::NoSuchArg(name@)
            } else if entry_of(old(self)@, name@).data.kind() != ArgKind::Bool {
                r matches Err(e) && e@ == ErrorModel::NotOfType(name@)
            } else {
                r matches Ok(v) && entry_of(old(self)@, name@).data == DataModel::Bool(v)
            }),
    {
        match self.get(name, ArgKind::Bool) {
            Ok(d) => match d {
                ArgData::Bool(v) => Ok(v),
                _ => unreached(),
            },
            Err(e) => Err(e),
        }
    }

    /// Consume the `bool` stored under `name`; a typed spelling of `poke`.
    pub fn poke_bool(&mut self, name: &str) -> (r: Result<bool, DynArgError>)
        requires
            old(self).wf(),
        ensures
            final(self).wf(),
            (if !has_name(old(self)@, name@) {
                r matches Err(e) && e@ == ErrorModel::NoSuchArg(name@) && final(self)@ == old(
                    self,
                )@
            } else if entry_of(old(self)@, name@).data.kind() != ArgKind::Bool {
                r matches Err(e) && e@ == ErrorModel::NotOfType(name@) && final(self)@ == old(
                    self,
                )@
            } else {
                r matches Ok(v) && entry_of(old(self)@, name@).data == DataModel::Bool(v)
                    && final(self)@ == poke_model(old(self)@, name@)
            }),
    {
        match self.poke(name, ArgKind::Bool) {
            Ok(d) => match d {
                ArgData::Bool(v) => Ok(v),
                _ => unreached(),
            },
            Err(e) => Err(e),
        }
    }
}

impl Default for Args {
    /// An empty map, exactly as `new` builds it.
    fn default() -> (r: Self)
        ensures
            r@ == Seq::<(Seq<char>, ArgModel)>::empty(),
            r.wf(),
    {
        Args::new()
    }
}

} // verus!

//! Tables: values found by an identifier.

use crate::text::same;
use vstd::prelude::*;
use vstd::string::*;

verus! {

/// Values found by their identifiers, kept in the order in which the identifiers
/// came.
#[derive(Debug)]
pub struct Table<T> {
    entries: Vec<(String, T)>,
}

/// What a list of entries holds, a later entry hiding an earlier one.
pub open spec fn held<T: View>(entries: Seq<(String, T)>) -> Map<Seq<char>, T::V>
    decreases entries.len(),
{
    if entries.len() == 0 {
        Map::empty()
    } else {
        held(entries.drop_last()).insert(entries.last().0@, entries.last().1@)
    }
}

/// Whether no identifier occurs twice.
pub open spec fn distinct<T>(entries: Seq<(String, T)>) -> bool {
    forall|i: int, j: int|
        0 <= i < j < entries.len() ==> (#[trigger] entries[i]).0@ != (#[trigger] entries[j]).0@
}

proof fn held_entries<T: View>(entries: Seq<(String, T)>)
    requires
        distinct(entries),
    ensures
        forall|i: int|
            0 <= i < entries.len() ==> held(entries).contains_key((#[trigger] entries[i]).0@)
                && held(entries)[entries[i].0@] == entries[i].1@,
        forall|k: Seq<char>|
            held(entries).contains_key(k) ==> exists|i: int|
                0 <= i < entries.len() && #[trigger] entries[i].0@ == k,
        held(entries).dom().finite(),
        held(entries).dom().len() == entries.len(),
    decreases entries.len(),
{
    if entries.len() > 0 {
        let front = entries.drop_last();
        assert(distinct(front)) by {
            assert forall|i: int, j: int| 0 <= i < j < front.len() implies (#[trigger] front[i]).0@
                != (#[trigger] front[j]).0@ by {
                assert(front[i] == entries[i] && front[j] == entries[j]);
            }
        }
        held_entries(front);
        assert forall|i: int| 0 <= i < entries.len() implies held(entries).contains_key(
            (#[trigger] entries[i]).0@,
        ) && held(entries)[entries[i].0@] == entries[i].1@ by {
            if i < front.len() {
                assert(front[i] == entries[i]);
                assert(entries[i].0@ != entries[entries.len() - 1].0@);
            }
        }
        assert forall|k: Seq<char>| held(entries).contains_key(k) implies exists|i: int|
            0 <= i < entries.len() && #[trigger] entries[i].0@ == k by {
            if k == entries.last().0@ {
                assert(entries[entries.len() - 1].0@ == k);
            } else {
                assert(held(front).contains_key(k));
                let i = choose|i: int| 0 <= i < front.len() && #[trigger] front[i].0@ == k;
                assert(entries[i].0@ == k);
            }
        }
        assert(!held(front).contains_key(entries.last().0@)) by {
            if held(front).contains_key(entries.last().0@) {
                let i = choose|i: int|
                    0 <= i < front.len() && #[trigger] front[i].0@ == entries.last().0@;
                assert(entries[i].0@ == entries[entries.len() - 1].0@);
            }
        }
        assert(held(entries).dom() =~= held(front).dom().insert(entries.last().0@));
    }
}

impl<T: View> View for Table<T> {
    type V = Map<Seq<char>, T::V>;

    closed spec fn view(&self) -> Map<Seq<char>, T::V> {
        held(self.entries@)
    }
}

impl<T> Table<T> {
    /// No identifier occurs twice.
    #[verifier::type_invariant]
    pub closed spec fn well_formed(self) -> bool {
        distinct(self.entries@)
    }
}

impl<T: View> Table<T> {
    /// The entries in order: identifier and value.
    pub closed spec fn order(self) -> Seq<(Seq<char>, T::V)> {
        self.entries@.map_values(|e: (String, T)| (e.0@, e.1@))
    }

    /// The entries in order are what the table holds, each identifier once.
    pub proof fn order_is_contents(self)
        requires
            self.well_formed(),
        ensures
            forall|i: int|
                0 <= i < self.order().len() ==> self@.contains_key((#[trigger] self.order()[i]).0)
                    && self@[self.order()[i].0] == self.order()[i].1,
            forall|k: Seq<char>|
                self@.contains_key(k) ==> exists|i: int|
                    0 <= i < self.order().len() && #[trigger] self.order()[i].0 == k,
            forall|i: int, j: int|
                0 <= i < j < self.order().len() ==> (#[trigger] self.order()[i]).0 != (
                #[trigger] self.order()[j]).0,
            self@.dom().finite(),
            self@.dom().len() == self.order().len(),
    {
        held_entries(self.entries@);
        assert forall|k: Seq<char>| self@.contains_key(k) implies exists|i: int|
            0 <= i < self.order().len() && #[trigger] self.order()[i].0 == k by {
            let i = choose|i: int|
                0 <= i < self.entries@.len() && #[trigger] self.entries@[i].0@ == k;
            assert(self.order()[i].0 == k);
        }
        assert forall|i: int| 0 <= i < self.order().len() implies self@.contains_key(
            (#[trigger] self.order()[i]).0,
        ) && self@[self.order()[i].0] == self.order()[i].1 by {
            assert(self.entries@[i].0@ == self.order()[i].0);
        }
        assert forall|i: int, j: int| 0 <= i < j < self.order().len() implies (
        #[trigger] self.order()[i]).0 != (#[trigger] self.order()[j]).0 by {
            assert(self.entries@[i].0@ != self.entries@[j].0@);
        }
    }

    /// The empty table.
    pub fn new() -> (r: Table<T>)
        ensures
            r@ == Map::<Seq<char>, T::V>::empty(),
            r.order() == Seq::<(Seq<char>, T::V)>::empty(),
    {
        let r = Table { entries: Vec::new() };
        assert(r.order() =~= Seq::empty());
        r
    }

    /// The number of entries.
    pub fn len(&self) -> (r: usize)
        ensures
            r == self.order().len(),
            r == self@.dom().len(),
            self@.dom().finite(),
    {
        proof {
            use_type_invariant(self);
            held_entries(self.entries@);
        }
        self.entries.len()
    }

    /// The identifier of an entry.
    pub fn key_at(&self, i: usize) -> (r: &String)
        requires
            i < self.order().len(),
        ensures
            r@ == self.order()[i as int].0,
    {
        &self.entries[i].0
    }

    /// The value of an entry.
    pub fn value_at(&self, i: usize) -> (r: &T)
        requires
            i < self.order().len(),
        ensures
            r@ == self.order()[i as int].1,
    {
        &self.entries[i].1
    }

    fn position(&self, key: &str) -> (r: Option<usize>)
        ensures
            match r {
                Some(i) => i < self.entries@.len() && self.entries@[i as int].0@ == key@
                    && self@.contains_key(key@) && self@[key@] == self.entries@[i as int].1@,
                None => !self@.contains_key(key@) && forall|i: int|
                    0 <= i < self.entries@.len() ==> (#[trigger] self.entries@[i]).0@ != key@,
            },
    {
        proof {
            use_type_invariant(self);
            held_entries(self.entries@);
        }
        let mut i: usize = 0;
        while i < self.entries.len()
            invariant
                i <= self.entries@.len(),
                forall|j: int| 0 <= j < i ==> (#[trigger] self.entries@[j]).0@ != key@,
                forall|j: int|
                    0 <= j < self.entries@.len() ==> self@.contains_key(
                        (#[trigger] self.entries@[j]).0@,
                    ) && self@[self.entries@[j].0@] == self.entries@[j].1@,
                forall|k: Seq<char>|
                    self@.contains_key(k) ==> exists|j: int|
                        0 <= j < self.entries@.len() && #[trigger] self.entries@[j].0@ == k,
            decreases self.entries@.len() - i,
        {
            if same(self.entries[i].0.as_str(), key) {
                return Some(i);
            }
            i = i + 1;
        }
        None
    }

    /// Whether there is an entry for an identifier.
    pub fn contains_key(&self, key: &str) -> (r: bool)
        ensures
            r == self@.contains_key(key@),
    {
        self.position(key).is_some()
    }

    /// The value for an identifier.
    pub fn get(&self, key: &str) -> (r: Option<&T>)
        ensures
            match r {
                Some(v) => self@.contains_key(key@) && self@[key@] == v@,
                None => !self@.contains_key(key@),
            },
    {
        match self.position(key) {
            Some(i) => Some(&self.entries[i].1),
            None => None,
        }
    }

    /// Takes the entry for an identifier out of the table.
    pub fn remove(&mut self, key: &str) -> (r: Option<T>)
        ensures
            final(self)@ == old(self)@.remove(key@),
            match r {
                Some(v) => old(self)@.contains_key(key@) && old(self)@[key@] == v@,
                None => !old(self)@.contains_key(key@),
            },
    {
        match self.position(key) {
            None => {
                assert(self@ =~= self@.remove(key@));
                None
            },
            Some(i) => {
                proof {
                    use_type_invariant(&*self);
                }
                let ghost before = self.entries@;
                let mut entries: Vec<(String, T)> = Vec::new();
                std::mem::swap(&mut entries, &mut self.entries);
                let (_, value) = entries.remove(i);
                proof {
                    held_entries(before);
                    let after = entries@;
                    assert(distinct(after)) by {
                        assert forall|a: int, b: int| 0 <= a < b < after.len() implies (
                        #[trigger] after[a]).0@ != (#[trigger] after[b]).0@ by {
                            let x = if a < i {
                                a
                            } else {
                                a + 1
                            };
                            let y = if b < i {
                                b
                            } else {
                                b + 1
                            };
                            assert(before[x].0@ != before[y].0@);
                        }
                    }
                    held_entries(after);
                    assert(held(after) =~= held(before).remove(key@)) by {
                        assert forall|k: Seq<char>| held(after).contains_key(k) <==> held(
                            before,
                        ).remove(key@).contains_key(k) by {
                            if held(after).contains_key(k) {
                                let a = choose|a: int|
                                    0 <= a < after.len() && #[trigger] after[a].0@ == k;
                                let x = if a < i {
                                    a
                                } else {
                                    a + 1
                                };
                                assert(before[x].0@ == k);
                                if x < i {
                                    assert(before[x].0@ != before[i as int].0@);
                                } else {
                                    assert(before[i as int].0@ != before[x].0@);
                                }
                            }
                            if held(before).remove(key@).contains_key(k) {
                                let x = choose|x: int|
                                    0 <= x < before.len() && #[trigger] before[x].0@ == k;
                                let a = if x < i {
                                    x
                                } else {
                                    x - 1
                                };
                                assert(after[a].0@ == k);
                            }
                        }
                        assert forall|k: Seq<char>| held(after).contains_key(k) implies held(
                            after,
                        )[k] == held(before)[k] by {
                            let a = choose|a: int|
                                0 <= a < after.len() && #[trigger] after[a].0@ == k;
                            let x = if a < i {
                                a
                            } else {
                                a + 1
                            };
                            assert(before[x] == after[a]);
                        }
                    }
                }
                self.entries = entries;
                Some(value)
            },
        }
    }

    /// Sets the value for an identifier, in place of the one that it had.
    pub fn insert(&mut self, key: String, value: T)
        ensures
            final(self)@ == old(self)@.insert(key@, value@),
    {
        let ghost first = self@;
        self.remove(key.as_str());
        proof {
            use_type_invariant(&*self);
        }
        let ghost before = self.entries@;
        proof {
            held_entries(before);
        }
        let mut entries: Vec<(String, T)> = Vec::new();
        std::mem::swap(&mut entries, &mut self.entries);
        entries.push((key, value));
        proof {
            let after = entries@;
            assert(after.drop_last() =~= before);
            assert(distinct(after)) by {
                assert forall|a: int, b: int| 0 <= a < b < after.len() implies (
                #[trigger] after[a]).0@ != (#[trigger] after[b]).0@ by {
                    if b < before.len() {
                        assert(before[a].0@ != before[b].0@);
                    } else {
                        assert(held(before).contains_key(before[a].0@));
                    }
                }
            }
            assert(held(after) =~= first.insert(key@, value@));
        }
        self.entries = entries;
    }
}

/// Values that can be copied.
pub trait Duplicate: View + Sized {
    /// A copy with the same contents.
    fn duplicate(&self) -> (r: Self)
        ensures
            r@ == self@,
    ;
}

impl<T: Duplicate> Table<T> {
    /// A copy of the table.
    pub fn duplicate(&self) -> (r: Table<T>)
        ensures
            r@ == self@,
    {
        let mut out: Table<T> = Table::new();
        proof {
            use_type_invariant(self);
            self.order_is_contents();
        }
        let n: usize = self.len();
        let mut i: usize = 0;
        while i < n
            invariant
                i <= n,
                n == self.order().len(),
                forall|j: int|
                    0 <= j < n ==> self@.contains_key((#[trigger] self.order()[j]).0)
                        && self@[self.order()[j].0] == self.order()[j].1,
                forall|k: Seq<char>|
                    out@.contains_key(k) <==> exists|j: int|
                        0 <= j < i && #[trigger] self.order()[j].0 == k,
                forall|k: Seq<char>| #[trigger]
                    out@.contains_key(k) ==> self@.contains_key(k) && out@[k] == self@[k],
            decreases n - i,
        {
            let ghost before = out@;
            let ghost key = self.order()[i as int].0;
            out.insert(self.key_at(i).clone(), self.value_at(i).duplicate());
            assert forall|k: Seq<char>| out@.contains_key(k) <==> exists|j: int|
                0 <= j < i + 1 && #[trigger] self.order()[j].0 == k by {
                if k == key {
                    assert(self.order()[i as int].0 == k);
                } else if before.contains_key(k) {
                    let j = choose|j: int| 0 <= j < i && #[trigger] self.order()[j].0 == k;
                    assert(self.order()[j].0 == k);
                }
            }
            i = i + 1;
        }
        assert(out@ =~= self@);
        out
    }
}

impl<T: View> Table<T> {
    /// Takes the entries for several identifiers out of the table.
    pub fn remove_all(&mut self, keys: &Vec<String>)
        ensures
            forall|k: Seq<char>| #[trigger]
                final(self)@.contains_key(k) <==> old(self)@.contains_key(k) && forall|q: int|
                    0 <= q < keys@.len() ==> #[trigger] keys@[q]@ != k,
            forall|k: Seq<char>| #[trigger]
                final(self)@.contains_key(k) ==> final(self)@[k] == old(self)@[k],
    {
        let ghost before = self@;
        let mut p: usize = 0;
        while p < keys.len()
            invariant
                p <= keys@.len(),
                forall|k: Seq<char>| #[trigger]
                    self@.contains_key(k) <==> before.contains_key(k) && forall|q: int|
                        0 <= q < p ==> #[trigger] keys@[q]@ != k,
                forall|k: Seq<char>| #[trigger] self@.contains_key(k) ==> self@[k] == before[k],
            decreases keys@.len() - p,
        {
            self.remove(keys[p].as_str());
            p = p + 1;
        }
    }
}

/// A table holds under each key what was put there last, and nothing under a key where
/// nothing was put.
pub proof fn tables_hold_what_was_put_last<T: View>(
    entries: Seq<(String, T)>,
    key: String,
    value: T,
    other: Seq<char>,
)
    ensures
        held(entries.push((key, value))).contains_key(key@),
        held(entries.push((key, value)))[key@] == value@,
        other != key@ ==> held(entries.push((key, value))).contains_key(other) == held(
            entries,
        ).contains_key(other),
        other != key@ && held(entries).contains_key(other) ==> held(
            entries.push((key, value)),
        )[other] == held(entries)[other],
        !held(Seq::<(String, T)>::empty()).contains_key(other),
{
    assert(entries.push((key, value)).drop_last() =~= entries);
}

}

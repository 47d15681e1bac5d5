//! A small map from names to values.

use vstd::prelude::*;

use crate::text::{owned, same};

verus! {

/// The contents of entries.
pub open spec fn entries<T>(v: Seq<(String, T)>) -> Seq<(Seq<char>, T)> {
    v.map_values(|e: (String, T)| (e.0@, e.1))
}

/// What entries map names to: of two for one name the later counts.
pub open spec fn mapped<T>(s: Seq<(Seq<char>, T)>) -> Map<Seq<char>, T>
    decreases s.len(),
{
    if s.len() == 0 {
        Map::empty()
    } else {
        mapped(s.drop_last()).insert(s.last().0, s.last().1)
    }
}

/// The entries for other names.
pub open spec fn entries_without<T>(s: Seq<(Seq<char>, T)>, name: Seq<char>) -> Seq<(Seq<char>, T)>
    decreases s.len(),
{
    if s.len() == 0 {
        Seq::empty()
    } else if s.last().0 == name {
        entries_without(s.drop_last(), name)
    } else {
        entries_without(s.drop_last(), name).push(s.last())
    }
}

proof fn without_maps<T>(s: Seq<(Seq<char>, T)>, name: Seq<char>)
    ensures
        mapped(entries_without(s, name)) == mapped(s).remove(name),
    decreases s.len(),
{
    if s.len() == 0 {
        assert(mapped(s).remove(name) =~= mapped(s));
    } else {
        let d = s.drop_last();
        without_maps(d, name);
        let w = entries_without(s, name);
        if s.last().0 == name {
            assert(mapped(s).remove(name) =~= mapped(d).remove(name));
        } else {
            assert(w.drop_last() =~= entries_without(d, name));
            assert(w.last() == s.last());
            assert(mapped(s).remove(name) =~= mapped(d).remove(name).insert(
                s.last().0,
                s.last().1,
            ));
        }
    }
}

proof fn mapped_names<T>(s: Seq<(Seq<char>, T)>, name: Seq<char>)
    ensures
        mapped(s).contains_key(name) <==> exists|i: int|
            0 <= i < s.len() && (#[trigger] s[i]).0 == name,
    decreases s.len(),
{
    if s.len() > 0 {
        let d = s.drop_last();
        mapped_names(d, name);
        if exists|i: int| 0 <= i < d.len() && (#[trigger] d[i]).0 == name {
            let i = choose|i: int| 0 <= i < d.len() && (#[trigger] d[i]).0 == name;
            assert(s[i].0 == name);
        }
        if exists|i: int| 0 <= i < s.len() && (#[trigger] s[i]).0 == name {
            let i = choose|i: int| 0 <= i < s.len() && (#[trigger] s[i]).0 == name;
            if i < d.len() {
                assert(d[i].0 == name);
            }
        }
        assert(s[s.len() - 1] == s.last());
    }
}

/// A map from names to values.
#[derive(Debug)]
pub struct Table<T> {
    entries: Vec<(String, T)>,
}

impl<T> View for Table<T> {
    type V = Map<Seq<char>, T>;

    closed spec fn view(&self) -> Map<Seq<char>, T> {
        mapped(entries(self.entries@))
    }
}

impl<T: Copy> Table<T> {
    /// An empty map.
    pub fn new() -> (r: Table<T>)
        ensures
            r@ == Map::<Seq<char>, T>::empty(),
    {
        let r = Table { entries: Vec::new() };
        assert(entries(r.entries@) =~= Seq::empty());
        r
    }

    /// What a name is mapped to.
    pub fn get(&self, name: &str) -> (r: Option<T>)
        ensures
            match r {
                Some(v) => self@.contains_key(name@) && self@[name@] == v,
                None => !self@.contains_key(name@),
            },
    {
        let ghost all = entries(self.entries@);
        let mut i: usize = self.entries.len();
        assert(all.take(i as int) =~= all);
        while i > 0
            invariant
                i <= self.entries@.len(),
                all == entries(self.entries@),
                self@ == mapped(all),
                mapped(all.take(i as int)).contains_key(name@) == mapped(all).contains_key(name@),
                mapped(all).contains_key(name@) ==> mapped(all.take(i as int))[name@] == mapped(
                    all,
                )[name@],
            decreases i,
        {
            assert(all.take(i as int).last() == all[i - 1]);
            assert(all.take(i as int).drop_last() =~= all.take(i - 1));
            if same(self.entries[i - 1].0.as_str(), name) {
                return Some(self.entries[i - 1].1);
            }
            i -= 1;
        }
        None
    }

    /// Forgets a name.
    pub fn remove(&mut self, name: &str)
        ensures
            final(self)@ == old(self)@.remove(name@),
    {
        let ghost all = entries(self.entries@);
        let mut kept: Vec<(String, T)> = Vec::new();
        let mut i: usize = 0;
        assert(entries(kept@) =~= entries_without(all.take(0), name@));
        while i < self.entries.len()
            invariant
                i <= self.entries@.len(),
                all == entries(self.entries@),
                entries(kept@) == entries_without(all.take(i as int), name@),
            decreases self.entries@.len() - i,
        {
            proof {
                assert(all.take(i + 1).drop_last() =~= all.take(i as int));
                assert(all.take(i + 1).last() == (
                    self.entries@[i as int].0@,
                    self.entries@[i as int].1,
                ));
            }
            let e = &self.entries[i];
            if !same(e.0.as_str(), name) {
                let ghost before = entries(kept@);
                let key = e.0.clone();
                let value = e.1;
                kept.push((key, value));
                assert(entries(kept@) =~= before.push((key@, value)));
            }
            i += 1;
        }
        assert(all.take(i as int) =~= all);
        proof {
            without_maps(all, name@);
        }
        self.entries = kept;
    }

    /// Maps a name to a value.
    pub fn insert(&mut self, name: &str, value: T)
        ensures
            final(self)@ == old(self)@.insert(name@, value),
    {
        let ghost before = self@;
        self.remove(name);
        let ghost rest = entries(self.entries@);
        self.entries.push((owned(name), value));
        let ghost now = entries(self.entries@);
        proof {
            assert(now =~= rest.push((name@, value)));
            assert(now.drop_last() =~= rest);
            assert(before.remove(name@).insert(name@, value) =~= before.insert(name@, value));
        }
    }

    /// The names, each once or more.
    pub fn names(&self) -> (r: Vec<String>)
        ensures
            forall|n: Seq<char>| #[trigger]
                self@.contains_key(n) <==> exists|i: int| 0 <= i < r@.len() && r@[i]@ == n,
    {
        let ghost all = entries(self.entries@);
        let mut r: Vec<String> = Vec::new();
        let mut i: usize = 0;
        while i < self.entries.len()
            invariant
                i <= self.entries@.len(),
                r@.len() == i,
                forall|j: int| 0 <= j < i ==> (#[trigger] r@[j])@ == self.entries@[j].0@,
            decreases self.entries@.len() - i,
        {
            r.push(self.entries[i].0.clone());
            i += 1;
        }
        assert forall|n: Seq<char>| #[trigger] self@.contains_key(n) <==> exists|i: int|
            0 <= i < r@.len() && r@[i]@ == n by {
            mapped_names(all, n);
            if self@.contains_key(n) {
                let j = choose|j: int| 0 <= j < all.len() && (#[trigger] all[j]).0 == n;
                assert(r@[j]@ == n);
            }
            if exists|i: int| 0 <= i < r@.len() && r@[i]@ == n {
                let j = choose|j: int| 0 <= j < r@.len() && r@[j]@ == n;
                assert(all[j].0 == n);
            }
        }
        r
    }
}

} // verus!

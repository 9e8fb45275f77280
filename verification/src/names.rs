//! Maps from names to values that remember the order of insertion.

use crate::text::texts;
use vstd::prelude::*;

verus! {

/// Whether some entry has the name `k`.
pub open spec fn named<T>(m: Seq<(Seq<char>, T)>, k: Seq<char>) -> bool {
    exists|i: int| 0 <= i < m.len() && #[trigger] m[i].0 == k
}

/// Whether no two entries have the same name.
pub open spec fn distinct<T>(m: Seq<(Seq<char>, T)>) -> bool {
    forall|i: int, j: int| 0 <= i < j < m.len() ==> #[trigger] m[i].0 != #[trigger] m[j].0
}

/// The place of the entry of name `k`.
pub open spec fn place<T>(m: Seq<(Seq<char>, T)>, k: Seq<char>) -> int {
    choose|i: int| 0 <= i < m.len() && #[trigger] m[i].0 == k
}

/// The value of name `k`.
pub open spec fn lookup<T>(m: Seq<(Seq<char>, T)>, k: Seq<char>) -> Option<T> {
    if named(m, k) {
        Some(m[place(m, k)].1)
    } else {
        None
    }
}

/// `m` with the value `v` for name `k`: in the place of the value that `k` had,
/// or at the end.
pub open spec fn put<T>(m: Seq<(Seq<char>, T)>, k: Seq<char>, v: T) -> Seq<(Seq<char>, T)> {
    if named(m, k) {
        m.update(place(m, k), (k, v))
    } else {
        m.push((k, v))
    }
}

/// `m` without the entry of name `k`.
pub open spec fn without<T>(m: Seq<(Seq<char>, T)>, k: Seq<char>) -> Seq<(Seq<char>, T)> {
    m.filter(|e: (Seq<char>, T)| e.0 != k)
}

/// The names, in order.
pub open spec fn keys<T>(m: Seq<(Seq<char>, T)>) -> Seq<Seq<char>> {
    m.map_values(|e: (Seq<char>, T)| e.0)
}

/// The values, in order.
pub open spec fn values<T>(m: Seq<(Seq<char>, T)>) -> Seq<T> {
    m.map_values(|e: (Seq<char>, T)| e.1)
}

// ---------------------------------------------------------------------------
// Laws
// ---------------------------------------------------------------------------

/// An entry is what a lookup of its name finds.
pub proof fn lookup_entry<T>(m: Seq<(Seq<char>, T)>, i: int)
    requires
        distinct(m),
        0 <= i < m.len(),
    ensures
        named(m, m[i].0),
        place(m, m[i].0) == i,
        lookup(m, m[i].0) == Some(m[i].1),
{
    let k = m[i].0;
    let p = place(m, k);
    assert(0 <= p < m.len() && m[p].0 == k);
    if p < i {
        assert(m[p].0 != m[i].0);
    } else if i < p {
        assert(m[i].0 != m[p].0);
    }
}

/// After a value is put under a name, that name has the value, every other
/// name is as before, and names are still unique.
pub proof fn lookup_put<T>(m: Seq<(Seq<char>, T)>, k: Seq<char>, v: T, other: Seq<char>)
    requires
        distinct(m),
    ensures
        distinct(put(m, k, v)),
        named(put(m, k, v), other) == (other == k || named(m, other)),
        lookup(put(m, k, v), other) == if other == k {
            Some(v)
        } else {
            lookup(m, other)
        },
{
    let n = put(m, k, v);
    assert(distinct(n));
    if named(m, k) {
        let p = place(m, k);
        assert(0 <= p < m.len() && m[p].0 == k);
        assert(n[p] == (k, v));
        assert forall|i: int| 0 <= i < m.len() implies #[trigger] n[i].0 == m[i].0 by {}
    } else {
        assert(n[m.len() as int] == (k, v));
        assert forall|i: int| 0 <= i < m.len() implies #[trigger] n[i] == m[i] by {}
    }
    if other == k {
        let p = if named(m, k) {
            place(m, k)
        } else {
            m.len() as int
        };
        assert(n[p] == (k, v));
        lookup_entry(n, p);
    } else if named(m, other) {
        let q = place(m, other);
        assert(0 <= q < m.len() && m[q].0 == other);
        assert(n[q] == m[q]);
        lookup_entry(n, q);
    } else if named(n, other) {
        let q = place(n, other);
        assert(0 <= q < n.len() && n[q].0 == other);
        assert(q < m.len() ==> m[q].0 == other);
        assert(false);
    }
}

proof fn lemma_without<T>(m: Seq<(Seq<char>, T)>, k: Seq<char>)
    requires
        distinct(m),
    ensures
        !named(m, k) ==> without(m, k) == m,
        named(m, k) ==> without(m, k) == m.remove(place(m, k)),
    decreases m.len(),
{
    reveal(Seq::filter);
    if m.len() > 0 {
        let front = m.drop_last();
        let last = m.len() - 1;
        assert forall|i: int, j: int| 0 <= i < j < front.len() implies #[trigger] front[i].0
            != #[trigger] front[j].0 by {
            assert(front[i] == m[i] && front[j] == m[j]);
        }
        lemma_without(front, k);
        if m[last].0 == k {
            lookup_entry(m, last);
            if named(front, k) {
                let q = place(front, k);
                assert(front[q] == m[q]);
                assert(m[q].0 != m[last].0);
            }
            assert(m.remove(last) =~= front);
        } else if named(m, k) {
            let p = place(m, k);
            assert(m[p].0 == k);
            assert(p < last);
            assert(front[p] == m[p]);
            lookup_entry(front, p);
            assert(m.remove(p) =~= front.remove(p).push(m[last]));
        } else {
            assert forall|i: int| 0 <= i < front.len() implies #[trigger] front[i].0 != k by {
                assert(front[i] == m[i]);
            }
            assert(m =~= front.push(m[last]));
        }
    }
}

/// After a name is removed it has no value, every other name is as before, and
/// names are still unique.
pub proof fn lookup_without<T>(m: Seq<(Seq<char>, T)>, k: Seq<char>, other: Seq<char>)
    requires
        distinct(m),
    ensures
        distinct(without(m, k)),
        named(without(m, k), other) == (other != k && named(m, other)),
        lookup(without(m, k), other) == if other == k {
            None
        } else {
            lookup(m, other)
        },
{
    lemma_without(m, k);
    let n = without(m, k);
    if named(m, k) {
        let p = place(m, k);
        assert(m[p].0 == k);
        assert forall|i: int| 0 <= i < n.len() implies #[trigger] n[i] == m[if i < p {
            i
        } else {
            i + 1
        }] by {}
        assert forall|i: int, j: int| 0 <= i < j < n.len() implies #[trigger] n[i].0
            != #[trigger] n[j].0 by {
            let a = if i < p {
                i
            } else {
                i + 1
            };
            let b = if j < p {
                j
            } else {
                j + 1
            };
            assert(m[a].0 != m[b].0);
        }
        if named(m, other) && other != k {
            let q = place(m, other);
            assert(m[q].0 == other);
            let r = if q < p {
                q
            } else {
                q - 1
            };
            assert(n[r] == m[q]);
            lookup_entry(n, r);
        } else if named(n, other) {
            let r = place(n, other);
            assert(n[r].0 == other);
            let q = if r < p {
                r
            } else {
                r + 1
            };
            assert(m[q].0 == other);
            lookup_entry(m, q);
            lookup_entry(m, p);
            assert(false);
        }
    } else {
        assert(n == m);
    }
}

/// The place that the entry at place `i` of `without(m, k)` has in `m`.
pub open spec fn place_before<T>(m: Seq<(Seq<char>, T)>, k: Seq<char>, i: int) -> int {
    if named(m, k) && i >= place(m, k) {
        i + 1
    } else {
        i
    }
}

/// Removing a name keeps the other entries, in their order.
pub proof fn without_keeps_order<T>(m: Seq<(Seq<char>, T)>, k: Seq<char>)
    requires
        distinct(m),
    ensures
        without(m, k).len() == m.len() - if named(m, k) {
            1int
        } else {
            0
        },
        forall|i: int|
            0 <= i < without(m, k).len() ==> 0 <= place_before(m, k, i) < m.len()
                && #[trigger] without(m, k)[i] == m[place_before(m, k, i)],
        !named(m, k) ==> without(m, k) == m,
{
    lemma_without(m, k);
}

/// A value put under a new name and then removed leaves the map as it was.
pub proof fn put_then_without<T>(m: Seq<(Seq<char>, T)>, k: Seq<char>, v: T)
    requires
        distinct(m),
        !named(m, k),
    ensures
        without(put(m, k, v), k) == m,
{
    lookup_put(m, k, v, k);
    let n = put(m, k, v);
    lemma_without(n, k);
    assert(n[m.len() as int].0 == k);
    lookup_entry(n, m.len() as int);
    assert(n.remove(m.len() as int) =~= m);
}

/// A filter keeps what satisfies it.
pub(crate) proof fn lemma_filter_holds<A>(s: Seq<A>, p: spec_fn(A) -> bool, i: int)
    requires
        0 <= i < s.len(),
        p(s[i]),
    ensures
        s.filter(p).contains(s[i]),
    decreases s.len(),
{
    reveal(Seq::filter);
    let front = s.drop_last();
    let kept = s.filter(p);
    if i == s.len() - 1 {
        assert(kept[kept.len() - 1] == s[i]);
    } else {
        assert(front[i] == s[i]);
        lemma_filter_holds(front, p, i);
        let j = choose|j: int| 0 <= j < front.filter(p).len() && front.filter(p)[j] == s[i];
        assert(kept[j] == s[i]);
    }
}

/// What a filter keeps was there and satisfies it.
pub(crate) proof fn lemma_filter_from<A>(s: Seq<A>, p: spec_fn(A) -> bool, k: int)
    requires
        0 <= k < s.filter(p).len(),
    ensures
        p(s.filter(p)[k]),
        exists|i: int| 0 <= i < s.len() && s.filter(p)[k] == #[trigger] s[i],
    decreases s.len(),
{
    reveal(Seq::filter);
    if s.len() > 0 {
        let front = s.drop_last();
        if k < front.filter(p).len() {
            lemma_filter_from(front, p, k);
            let i = choose|i: int| 0 <= i < front.len() && front.filter(p)[k] == #[trigger] front[i];
            assert(s[i] == front[i]);
        } else {
            assert(s.filter(p)[k] == s[s.len() - 1]);
        }
    }
}

// ---------------------------------------------------------------------------
// The map
// ---------------------------------------------------------------------------

/// A map from names to values. Names are unique, and entries keep the order in
/// which their names were first inserted.
#[derive(Debug)]
pub struct NameMap<T> {
    entries: Vec<(String, T)>,
}

impl<T: View> View for NameMap<T> {
    type V = Seq<(Seq<char>, T::V)>;

    closed spec fn view(&self) -> Seq<(Seq<char>, T::V)> {
        self.entries@.map_values(|e: (String, T)| (e.0@, e.1@))
    }
}

impl<T> NameMap<T> {
    #[verifier::type_invariant]
    spec fn names_unique(self) -> bool {
        forall|i: int, j: int|
            0 <= i < j < self.entries@.len() ==> #[trigger] self.entries@[i].0@
                != #[trigger] self.entries@[j].0@
    }
}

impl<T: View> NameMap<T> {
    /// The empty map.
    pub fn new() -> (m: Self)
        ensures
            m@ == Seq::<(Seq<char>, T::V)>::empty(),
            distinct(m@),
    {
        let m = NameMap { entries: Vec::new() };
        assert(m@ =~= Seq::<(Seq<char>, T::V)>::empty());
        m
    }

    proof fn lemma_view(self)
        requires
            self.names_unique(),
        ensures
            self@.len() == self.entries@.len(),
            distinct(self@),
            forall|i: int|
                0 <= i < self@.len() ==> #[trigger] self@[i] == (
                    self.entries@[i].0@,
                    self.entries@[i].1@,
                ),
    {
        assert forall|i: int, j: int| 0 <= i < j < self@.len() implies #[trigger] self@[i].0
            != #[trigger] self@[j].0 by {
            assert(self.entries@[i].0@ != self.entries@[j].0@);
        }
    }

    /// How many names there are.
    pub fn len(&self) -> (n: usize)
        ensures
            n == self@.len(),
            distinct(self@),
    {
        proof {
            use_type_invariant(self);
            self.lemma_view();
        }
        self.entries.len()
    }

    fn find(&self, name: &str) -> (place: Option<usize>)
        requires
            self.names_unique(),
        ensures
            match place {
                Some(i) => i < self@.len() && self@[i as int].0 == name@,
                None => !named(self@, name@),
            },
    {
        proof {
            self.lemma_view();
        }
        let wanted = name.to_owned();
        let mut i: usize = 0;
        while i < self.entries.len()
            invariant
                i <= self.entries@.len(),
                self@.len() == self.entries@.len(),
                wanted@ == name@,
                forall|j: int|
                    0 <= j < self@.len() ==> #[trigger] self@[j] == (
                        self.entries@[j].0@,
                        self.entries@[j].1@,
                    ),
                forall|j: int| 0 <= j < i ==> #[trigger] self@[j].0 != name@,
            decreases self.entries@.len() - i,
        {
            assert(self@[i as int].0 == self.entries@[i as int].0@);
            if self.entries[i].0 == wanted {
                return Some(i);
            }
            i += 1;
        }
        None
    }

    /// Whether the name is there.
    pub fn contains(&self, name: &str) -> (found: bool)
        ensures
            found == named(self@, name@),
            distinct(self@),
    {
        proof {
            use_type_invariant(self);
            self.lemma_view();
        }
        self.find(name).is_some()
    }

    /// The value of a name.
    pub fn get(&self, name: &str) -> (value: Option<&T>)
        ensures
            match value {
                Some(v) => lookup(self@, name@) == Some(v@),
                None => lookup(self@, name@) is None,
            },
            value is Some == named(self@, name@),
            distinct(self@),
    {
        proof {
            use_type_invariant(self);
            self.lemma_view();
        }
        match self.find(name) {
            Some(i) => {
                proof {
                    lookup_entry(self@, i as int);
                }
                Some(&self.entries[i].1)
            },
            None => None,
        }
    }

    /// The name at a place.
    pub fn name_at(&self, i: usize) -> (name: &String)
        requires
            i < self@.len(),
        ensures
            name@ == self@[i as int].0,
            distinct(self@),
    {
        proof {
            use_type_invariant(self);
            self.lemma_view();
        }
        &self.entries[i].0
    }

    /// The value at a place.
    pub fn value_at(&self, i: usize) -> (value: &T)
        requires
            i < self@.len(),
        ensures
            value@ == self@[i as int].1,
            distinct(self@),
    {
        proof {
            use_type_invariant(self);
            self.lemma_view();
        }
        &self.entries[i].1
    }

    /// All names, in order.
    pub fn names(&self) -> (list: Vec<String>)
        ensures
            texts(list@) == keys(self@),
            distinct(self@),
    {
        proof {
            use_type_invariant(self);
            self.lemma_view();
        }
        let mut list: Vec<String> = Vec::new();
        let mut i: usize = 0;
        while i < self.entries.len()
            invariant
                i <= self.entries@.len(),
                list@.len() == i,
                forall|j: int| 0 <= j < i ==> #[trigger] list@[j]@ == self.entries@[j].0@,
            decreases self.entries@.len() - i,
        {
            list.push(self.entries[i].0.clone());
            i += 1;
        }
        assert(texts(list@) =~= keys(self@));
        list
    }

    /// Copies the map, each value by a function that keeps what it holds.
    pub fn copy_by<F: Fn(&T) -> T>(&self, copy_value: F) -> (copy: Self)
        requires
            forall|v: T| call_requires(copy_value, (&v,)),
            forall|v: T, w: T| call_ensures(copy_value, (&v,), w) ==> w@ == v@,
        ensures
            copy@ == self@,
    {
        proof {
            use_type_invariant(self);
            self.lemma_view();
        }
        let mut copy: NameMap<T> = NameMap::new();
        assert(copy@ =~= self@.take(0));
        let mut i: usize = 0;
        while i < self.entries.len()
            invariant
                i <= self.entries@.len(),
                self@.len() == self.entries@.len(),
                distinct(self@),
                forall|j: int|
                    0 <= j < self@.len() ==> #[trigger] self@[j] == (
                        self.entries@[j].0@,
                        self.entries@[j].1@,
                    ),
                forall|v: T| call_requires(copy_value, (&v,)),
                forall|v: T, w: T| call_ensures(copy_value, (&v,), w) ==> w@ == v@,
                copy@ == self@.take(i as int),
            decreases self.entries@.len() - i,
        {
            let name = self.entries[i].0.clone();
            let value = copy_value(&self.entries[i].1);
            assert(self@[i as int] == (name@, value@));
            proof {
                if named(copy@, name@) {
                    let p = place(copy@, name@);
                    assert(copy@[p].0 == name@);
                    assert(self@[p].0 != self@[i as int].0);
                }
            }
            copy.insert(name, value);
            assert(copy@ =~= self@.take(i + 1));
            i += 1;
        }
        assert(self@.take(i as int) =~= self@);
        copy
    }

    /// Puts a value under a name, in place of the value that the name had.
    pub fn insert(&mut self, name: String, value: T)
        ensures
            final(self)@ == put(old(self)@, name@, value@),
            distinct(old(self)@),
            distinct(final(self)@),
    {
        proof {
            use_type_invariant(&*self);
            self.lemma_view();
            lookup_put(self@, name@, value@, name@);
        }
        let at = self.find(name.as_str());
        let ghost before = *self;
        let mut entries: Vec<(String, T)> = Vec::new();
        std::mem::swap(&mut entries, &mut self.entries);
        match at {
            Some(i) => {
                proof {
                    lookup_entry(before@, i as int);
                }
                entries.set(i, (name, value));
            },
            None => {
                entries.push((name, value));
            },
        }
        proof {
            let after = NameMap { entries };
            assert(after@ =~= put(before@, name@, value@));
            assert forall|i: int, j: int| 0 <= i < j < entries@.len() implies #[trigger] entries@[i].0@
                != #[trigger] entries@[j].0@ by {
                assert(after@[i].0 != after@[j].0);
            }
        }
        self.entries = entries;
    }

    /// Takes a name and its value out.
    pub fn remove(&mut self, name: &str) -> (value: Option<T>)
        ensures
            final(self)@ == without(old(self)@, name@),
            match value {
                Some(v) => lookup(old(self)@, name@) == Some(v@),
                None => lookup(old(self)@, name@) is None,
            },
            value is Some == named(old(self)@, name@),
            distinct(old(self)@),
            distinct(final(self)@),
    {
        proof {
            use_type_invariant(&*self);
            self.lemma_view();
            lemma_without(self@, name@);
            lookup_without(self@, name@, name@);
        }
        match self.find(name) {
            Some(i) => {
                let ghost before = *self;
                let mut entries: Vec<(String, T)> = Vec::new();
                std::mem::swap(&mut entries, &mut self.entries);
                proof {
                    lookup_entry(before@, i as int);
                }
                let (_, value) = entries.remove(i);
                proof {
                    let after = NameMap { entries };
                    assert(after@ =~= before@.remove(i as int));
                    assert forall|i: int, j: int|
                        0 <= i < j < entries@.len() implies #[trigger] entries@[i].0@
                        != #[trigger] entries@[j].0@ by {
                        assert(after@[i].0 != after@[j].0);
                    }
                }
                self.entries = entries;
                Some(value)
            },
            None => None,
        }
    }
}

/// A value goes to the place that its name has, or to the end; every other entry
/// stays in its place.
pub proof fn entries_keep_their_places<T>(m: Seq<(Seq<char>, T)>, k: Seq<char>, v: T, i: int)
    requires
        distinct(m),
        0 <= i < m.len(),
    ensures
        m[i].0 == k ==> put(m, k, v).len() == m.len() && put(m, k, v)[i] == (k, v),
        m[i].0 != k ==> put(m, k, v)[i] == m[i],
        !named(m, k) ==> put(m, k, v).len() == m.len() + 1 && put(m, k, v)[m.len() as int] == (
            k,
            v,
        ),
        keys(m).len() == m.len() && keys(m)[i] == m[i].0,
        values(m).len() == m.len() && values(m)[i] == m[i].1,
{
    lookup_entry(m, i);
    if named(m, k) {
        let p = place(m, k);
        assert(m[p].0 == k);
        lookup_entry(m, p);
    }
}

} // verus!

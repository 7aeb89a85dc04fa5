//! A table of named entries with distinct names, kept in insertion order.
//! Inserting a name that is already present replaces its value in place.
use crate::field::FieldIdentity;
use vstd::prelude::*;

verus! {

/// Index of the entry named `k` in `s`, searching from the end, or -1.
pub open spec fn key_index<T>(s: Seq<(Seq<char>, T)>, k: Seq<char>) -> int
    decreases s.len(),
{
    if s.len() == 0 {
        -1
    } else if s.last().0 == k {
        s.len() - 1
    } else {
        key_index(s.drop_last(), k)
    }
}

/// The value named `k` in `s`, if any.
pub open spec fn lookup<T>(s: Seq<(Seq<char>, T)>, k: Seq<char>) -> Option<T> {
    let i = key_index(s, k);
    if i >= 0 {
        Some(s[i].1)
    } else {
        None
    }
}

/// `s` after setting `k` to `v`: in place when `k` is present, else at the end.
pub open spec fn put<T>(s: Seq<(Seq<char>, T)>, k: Seq<char>, v: T) -> Seq<(Seq<char>, T)> {
    let i = key_index(s, k);
    if i >= 0 {
        s.update(i, (k, v))
    } else {
        s.push((k, v))
    }
}

/// `base` after setting, in order, every entry of `over`.
pub open spec fn put_all<T>(base: Seq<(Seq<char>, T)>, over: Seq<(Seq<char>, T)>) -> Seq<
    (Seq<char>, T),
>
    decreases over.len(),
{
    if over.len() == 0 {
        base
    } else {
        put(put_all(base, over.drop_last()), over.last().0, over.last().1)
    }
}

/// No two entries share a name.
pub open spec fn distinct_keys<T>(s: Seq<(Seq<char>, T)>) -> bool {
    forall|i: int, j: int| 0 <= i < j < s.len() ==> s[i].0 != s[j].0
}

/// The names of the entries, in order.
pub open spec fn keys_of<T>(s: Seq<(Seq<char>, T)>) -> Seq<Seq<char>> {
    s.map_values(|e: (Seq<char>, T)| e.0)
}

pub proof fn lemma_key_index<T>(s: Seq<(Seq<char>, T)>, k: Seq<char>)
    ensures
        -1 <= key_index(s, k) < s.len(),
        key_index(s, k) >= 0 ==> s[key_index(s, k)].0 == k,
        key_index(s, k) == -1 ==> forall|j: int| 0 <= j < s.len() ==> #[trigger] s[j].0 != k,
    decreases s.len(),
{
    if s.len() > 0 && s.last().0 != k {
        lemma_key_index(s.drop_last(), k);
        assert forall|j: int| 0 <= j < s.len() && key_index(s, k) == -1 implies #[trigger] s[j].0
            != k by {
            if j < s.len() - 1 {
                assert(s[j] == s.drop_last()[j]);
            }
        }
    }
}

proof fn lemma_unique_index<T>(s: Seq<(Seq<char>, T)>, k: Seq<char>, j: int)
    requires
        distinct_keys(s),
        0 <= j < s.len(),
        s[j].0 == k,
    ensures
        key_index(s, k) == j,
{
    lemma_key_index(s, k);
    let x = key_index(s, k);
    if x != j {
        if x < j {
            assert(s[x].0 != s[j].0);
        } else {
            assert(s[j].0 != s[x].0);
        }
    }
}

pub proof fn lemma_put_distinct<T>(s: Seq<(Seq<char>, T)>, k: Seq<char>, v: T)
    requires
        distinct_keys(s),
    ensures
        distinct_keys(put(s, k, v)),
        lookup(put(s, k, v), k) == Some(v),
        forall|k2: Seq<char>| k2 != k ==> #[trigger] lookup(put(s, k, v), k2) == lookup(s, k2),
{
    lemma_key_index(s, k);
    let i = key_index(s, k);
    let t = put(s, k, v);
    let pos = if i >= 0 {
        i
    } else {
        s.len() as int
    };
    assert(t[pos] == (k, v));
    assert forall|a: int| 0 <= a < t.len() && a != pos implies #[trigger] t[a] == s[a] by {}
    assert forall|a: int, b: int| 0 <= a < b < t.len() implies t[a].0 != t[b].0 by {
        if a != pos && b != pos {
            assert(t[a] == s[a] && t[b] == s[b]);
        } else if a == pos {
            assert(t[b] == s[b]);
        } else {
            assert(t[a] == s[a]);
        }
    }
    lemma_unique_index(t, k, pos);
    assert forall|k2: Seq<char>| k2 != k implies #[trigger] lookup(t, k2) == lookup(s, k2) by {
        lemma_key_index(s, k2);
        lemma_key_index(t, k2);
        let j = key_index(s, k2);
        if j >= 0 {
            assert(t[j] == s[j]);
            lemma_unique_index(t, k2, j);
        } else {
            let x = key_index(t, k2);
            if x >= 0 {
                assert(t[x] == s[x]);
            }
        }
    }
}

/// Named entries with distinct names, in insertion order.
#[derive(Debug)]
pub struct Table<V> {
    entries: Vec<(String, V)>,
}

impl<V: View> View for Table<V> {
    type V = Seq<(Seq<char>, V::V)>;

    closed spec fn view(&self) -> Seq<(Seq<char>, V::V)> {
        self.entries@.map_values(|e: (String, V)| (e.0@, e.1@))
    }
}

impl<V: View> Table<V> {
    /// The table holds no name twice.
    pub open spec fn wf(&self) -> bool {
        distinct_keys(self@)
    }

    pub fn new() -> (r: Self)
        ensures
            r@ == Seq::<(Seq<char>, V::V)>::empty(),
            r.wf(),
    {
        let r = Table { entries: Vec::new() };
        assert(r@ =~= Seq::<(Seq<char>, V::V)>::empty());
        r
    }

    pub fn len(&self) -> (r: usize)
        ensures
            r == self@.len(),
    {
        self.entries.len()
    }

    /// Position of the entry named `name`.
    fn index_of(&self, name: &String) -> (r: Option<usize>)
        ensures
            match r {
                Some(i) => i as int == key_index(self@, name@),
                None => key_index(self@, name@) == -1,
            },
            -1 <= key_index(self@, name@) < self@.len(),
            self@.len() == self.entries@.len(),
    {
        proof {
            lemma_key_index(self@, name@);
        }
        let mut i: usize = self.entries.len();
        assert(self@.subrange(0, self@.len() as int) =~= self@);
        while i > 0
            invariant
                i <= self@.len(),
                self@.len() == self.entries@.len(),
                key_index(self@, name@) == key_index(self@.subrange(0, i as int), name@),
            decreases i,
        {
            let ghost pre = self@.subrange(0, i as int);
            assert(pre.drop_last() =~= self@.subrange(0, i - 1));
            assert(pre.last() == self@[i - 1]);
            if self.entries[i - 1].0 == *name {
                return Some(i - 1);
            }
            i = i - 1;
        }
        assert(self@.subrange(0, 0) =~= Seq::<(Seq<char>, V::V)>::empty());
        None
    }

    /// Sets `name` to `value`: in place when `name` is present, else at the end.
    pub fn insert(&mut self, name: String, value: V)
        requires
            old(self).wf(),
        ensures
            final(self)@ == put(old(self)@, name@, value@),
            final(self).wf(),
    {
        proof {
            lemma_put_distinct(self@, name@, value@);
        }
        match self.index_of(&name) {
            Some(i) => {
                let ghost k = name@;
                let ghost v = value@;
                self.entries.set(i, (name, value));
                assert(self@ =~= put(old(self)@, k, v));
            },
            None => {
                let ghost k = name@;
                let ghost v = value@;
                self.entries.push((name, value));
                assert(self@ =~= put(old(self)@, k, v));
            },
        }
    }

    /// The value named `name`, if any.
    pub fn get(&self, name: &str) -> (r: Option<&V>)
        ensures
            match r {
                Some(v) => lookup(self@, name@) == Some(v@),
                None => lookup(self@, name@) is None,
            },
    {
        let key = String::from_str(name);
        match self.index_of(&key) {
            Some(i) => {
                assert(self@[i as int].1 == self.entries@[i as int].1@);
                Some(&self.entries[i].1)
            },
            None => None,
        }
    }

    /// The name of entry `i`.
    pub fn name_at(&self, i: usize) -> (r: &String)
        requires
            i < self@.len(),
        ensures
            r@ == self@[i as int].0,
    {
        &self.entries[i].0
    }

    /// The value of entry `i`.
    pub fn value_at(&self, i: usize) -> (r: &V)
        requires
            i < self@.len(),
        ensures
            r@ == self@[i as int].1,
    {
        &self.entries[i].1
    }
}


impl Clone for Table<FieldIdentity> {
    fn clone(&self) -> (r: Self)
        ensures
            r@ == self@,
    {
        let mut entries: Vec<(String, FieldIdentity)> = Vec::new();
        let mut i: usize = 0;
        while i < self.entries.len()
            invariant
                i <= self.entries@.len(),
                entries@.len() == i,
                forall|j: int|
                    0 <= j < i ==> (#[trigger] entries@[j]).0@ == self.entries@[j].0@
                        && entries@[j].1@ == self.entries@[j].1@,
            decreases self.entries.len() - i,
        {
            let e = &self.entries[i];
            entries.push((e.0.clone(), e.1.clone()));
            i = i + 1;
        }
        let r = Table { entries };
        assert(r@ =~= self@);
        r
    }
}

} // verus!

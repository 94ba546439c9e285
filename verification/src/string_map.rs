use vstd::prelude::*;

verus! {

/// Whether two strings hold the same characters.
pub fn str_eq(a: &str, b: &str) -> (r: bool)
    ensures
        r == (a@ == b@),
{
    let n = a.unicode_len();
    if n != b.unicode_len() {
        return false;
    }
    let mut i: usize = 0;
    while i < n
        invariant
            i <= n,
            n == a@.len(),
            n == b@.len(),
            forall|j: int| 0 <= j < i ==> a@[j] == b@[j],
        decreases n - i,
    {
        if a.get_char(i) != b.get_char(i) {
            return false;
        }
        i = i + 1;
    }
    assert(a@ =~= b@);
    true
}

/// A set of strings, each held once.
pub struct StrSet {
    items: Vec<String>,
}

/// A map from strings to values, each key held once.
pub struct StrMap<V> {
    entries: Vec<(String, V)>,
}

impl StrSet {
    pub closed spec fn view(&self) -> Set<Seq<char>> {
        Set::new(|k: Seq<char>| exists|i: int| 0 <= i < self.items@.len() && #[trigger] self.items@[i]@ == k)
    }

    pub closed spec fn wf(&self) -> bool {
        forall|i: int, j: int| 0 <= i < j < self.items@.len() ==> (#[trigger] self.items@[i])@ != (#[trigger] self.items@[j])@
    }

    /// The empty set.
    pub fn new() -> (r: Self)
        ensures
            r.wf(),
            r@ == Set::<Seq<char>>::empty(),
    {
        let r = StrSet { items: Vec::new() };
        assert(r@ =~= Set::<Seq<char>>::empty());
        r
    }

    fn find(&self, k: &str) -> (r: Option<usize>)
        ensures
            match r {
                Some(i) => i < self.items@.len() && self.items@[i as int]@ == k@,
                None => !self@.contains(k@),
            },
    {
        let mut i: usize = 0;
        while i < self.items.len()
            invariant
                i <= self.items@.len(),
                forall|j: int| 0 <= j < i ==> (#[trigger] self.items@[j])@ != k@,
            decreases self.items@.len() - i,
        {
            if str_eq(self.items[i].as_str(), k) {
                return Some(i);
            }
            i = i + 1;
        }
        None
    }

    /// Whether `k` is in the set.
    pub fn contains(&self, k: &str) -> (r: bool)
        ensures
            r == self@.contains(k@),
    {
        match self.find(k) {
            Some(i) => {
                assert(self@.contains(k@));
                true
            },
            None => false,
        }
    }

    /// Adds `k`.
    pub fn insert(&mut self, k: String)
        requires
            old(self).wf(),
        ensures
            final(self).wf(),
            final(self)@ == old(self)@.insert(k@),
    {
        match self.find(k.as_str()) {
            Some(i) => {
                assert(self@ =~= self@.insert(k@));
            },
            None => {
                let ghost before = self.items@;
                self.items.push(k);
                proof {
                    assert forall|x: Seq<char>| self@.contains(x) <==> old(self)@.insert(k@).contains(x) by {
                        if self@.contains(x) {
                            let i = choose|i: int| 0 <= i < self.items@.len() && #[trigger] self.items@[i]@ == x;
                            if i < before.len() {
                                assert(before[i]@ == x);
                                assert(old(self)@.contains(x));
                            }
                        }
                        if old(self)@.contains(x) {
                            let i = choose|i: int| 0 <= i < before.len() && #[trigger] before[i]@ == x;
                            assert(self.items@[i]@ == x);
                        }
                        if x == k@ {
                            assert(self.items@[before.len() as int]@ == x);
                        }
                    }
                    assert(self@ =~= old(self)@.insert(k@));
                    assert forall|i: int, j: int| 0 <= i < j < self.items@.len() implies (#[trigger] self.items@[i])@ != (#[trigger] self.items@[j])@ by {
                        if j == before.len() {
                            assert(before[i]@ != k@) by {
                                if before[i]@ == k@ {
                                    assert(old(self)@.contains(k@));
                                }
                            }
                        } else {
                            assert(before[i]@ != before[j]@);
                        }
                    }
                }
            },
        }
    }

    /// Removes `k`.
    pub fn remove(&mut self, k: &str)
        requires
            old(self).wf(),
        ensures
            final(self).wf(),
            final(self)@ == old(self)@.remove(k@),
    {
        match self.find(k) {
            Some(i) => {
                let ghost before = self.items@;
                self.items.remove(i);
                proof {
                    assert forall|x: Seq<char>| self@.contains(x) <==> old(self)@.remove(k@).contains(x) by {
                        if self@.contains(x) {
                            let j = choose|j: int| 0 <= j < self.items@.len() && #[trigger] self.items@[j]@ == x;
                            let bj = if j < i { j } else { j + 1 };
                            assert(self.items@[j] == before[bj]);
                            assert(old(self)@.contains(x));
                            assert(before[bj]@ != before[i as int]@);
                        }
                        if old(self)@.remove(k@).contains(x) {
                            let j = choose|j: int| 0 <= j < before.len() && #[trigger] before[j]@ == x;
                            assert(j != i);
                            let nj = if j < i { j } else { j - 1 };
                            assert(self.items@[nj] == before[j]);
                        }
                    }
                    assert(self@ =~= old(self)@.remove(k@));
                    assert forall|a: int, b: int| 0 <= a < b < self.items@.len() implies (#[trigger] self.items@[a])@ != (#[trigger] self.items@[b])@ by {
                        let ba = if a < i { a } else { a + 1 };
                        let bb = if b < i { b } else { b + 1 };
                        assert(self.items@[a] == before[ba]);
                        assert(self.items@[b] == before[bb]);
                        assert(before[ba]@ != before[bb]@);
                    }
                }
            },
            None => {
                assert(self@ =~= self@.remove(k@));
            },
        }
    }

    /// Sets whether `k` is in the set: adds it when `value`, removes it otherwise.
    pub fn set_member(&mut self, k: String, value: bool)
        requires
            old(self).wf(),
        ensures
            final(self).wf(),
            final(self)@ == if value { old(self)@.insert(k@) } else { old(self)@.remove(k@) },
    {
        if value {
            self.insert(k);
        } else {
            self.remove(k.as_str());
        }
    }

    /// The members, each once, in no particular order.
    pub fn items(&self) -> (r: &Vec<String>)
        requires
            self.wf(),
        ensures
            forall|k: Seq<char>| self@.contains(k) <==> exists|i: int| 0 <= i < r@.len() && #[trigger] r@[i]@ == k,
            forall|i: int, j: int| 0 <= i < j < r@.len() ==> (#[trigger] r@[i])@ != (#[trigger] r@[j])@,
    {
        &self.items
    }

    /// The set of the given strings.
    pub fn from_vec(v: Vec<String>) -> (r: Self)
        ensures
            r.wf(),
            forall|k: Seq<char>| r@.contains(k) <==> exists|i: int| 0 <= i < v@.len() && #[trigger] v@[i]@ == k,
    {
        let mut r = StrSet::new();
        let mut v = v;
        let ghost orig = v@;
        while v.len() > 0
            invariant
                r.wf(),
                v@.len() <= orig.len(),
                v@ == orig.take(v@.len() as int),
                forall|k: Seq<char>| r@.contains(k) <==> exists|i: int| v@.len() <= i < orig.len() && #[trigger] orig[i]@ == k,
            decreases v@.len(),
        {
            let ghost before = v@;
            let x = v.pop().unwrap();
            let ghost xi = before.len() - 1;
            assert(orig[xi] == x);
            let ghost r_before = r@;
            r.insert(x);
            proof {
                assert(v@ =~= orig.take(v@.len() as int));
                assert forall|k: Seq<char>| r@.contains(k) <==> exists|i: int| v@.len() <= i < orig.len() && #[trigger] orig[i]@ == k by {
                    if r@.contains(k) && k != x@ {
                        assert(r_before.contains(k));
                    }
                    if k == x@ {
                        assert(orig[xi]@ == k);
                    }
                    if exists|i: int| v@.len() <= i < orig.len() && #[trigger] orig[i]@ == k {
                        let i = choose|i: int| v@.len() <= i < orig.len() && #[trigger] orig[i]@ == k;
                        if i != xi {
                            assert(r_before.contains(k));
                        }
                    }
                }
            }
        }
        r
    }
}


pub open spec fn key_index<V>(e: Seq<(String, V)>, k: Seq<char>) -> int {
    choose|i: int| 0 <= i < e.len() && (#[trigger] e[i]).0@ == k
}

pub open spec fn unique_str_keys<V>(e: Seq<(String, V)>) -> bool {
    forall|i: int, j: int| 0 <= i < j < e.len() ==> (#[trigger] e[i]).0@ != (#[trigger] e[j]).0@
}

pub open spec fn entries_map<V>(e: Seq<(String, V)>) -> Map<Seq<char>, V> {
    Map::new(
        |k: Seq<char>| exists|i: int| 0 <= i < e.len() && (#[trigger] e[i]).0@ == k,
        |k: Seq<char>| e[key_index(e, k)].1,
    )
}

proof fn lemma_key_index<V>(e: Seq<(String, V)>, i: int)
    requires
        unique_str_keys(e),
        0 <= i < e.len(),
    ensures
        key_index(e, e[i].0@) == i,
        entries_map(e).contains_key(e[i].0@),
        entries_map(e)[e[i].0@] == e[i].1,
{
    let k = e[i].0@;
    assert(exists|j: int| 0 <= j < e.len() && (#[trigger] e[j]).0@ == k);
    let j = key_index(e, k);
    if j != i {
        if j < i {
            assert(e[j].0@ != e[i].0@);
        } else {
            assert(e[i].0@ != e[j].0@);
        }
    }
}

impl<V> StrMap<V> {
    pub closed spec fn view(&self) -> Map<Seq<char>, V> {
        entries_map(self.entries@)
    }

    pub closed spec fn wf(&self) -> bool {
        unique_str_keys(self.entries@)
    }

    /// The empty map.
    pub fn new() -> (r: Self)
        ensures
            r.wf(),
            r@ == Map::<Seq<char>, V>::empty(),
    {
        let r = StrMap { entries: Vec::new() };
        assert(r@ =~= Map::<Seq<char>, V>::empty());
        r
    }

    fn find(&self, k: &str) -> (r: Option<usize>)
        requires
            self.wf(),
        ensures
            match r {
                Some(i) => i < self.entries@.len() && self.entries@[i as int].0@ == k@,
                None => !self@.contains_key(k@),
            },
    {
        let mut i: usize = 0;
        while i < self.entries.len()
            invariant
                i <= self.entries@.len(),
                forall|j: int| 0 <= j < i ==> (#[trigger] self.entries@[j]).0@ != k@,
            decreases self.entries@.len() - i,
        {
            if str_eq(self.entries[i].0.as_str(), k) {
                return Some(i);
            }
            i = i + 1;
        }
        None
    }

    /// The value at `k`, if any.
    pub fn get(&self, k: &str) -> (r: Option<&V>)
        requires
            self.wf(),
        ensures
            match r {
                Some(v) => self@.contains_key(k@) && *v == self@[k@],
                None => !self@.contains_key(k@),
            },
    {
        match self.find(k) {
            Some(i) => {
                proof { lemma_key_index(self.entries@, i as int); }
                Some(&self.entries[i].1)
            },
            None => None,
        }
    }

    /// Takes the value at `k` out of the map, if any.
    pub fn remove(&mut self, k: &str) -> (r: Option<V>)
        requires
            old(self).wf(),
        ensures
            final(self).wf(),
            final(self)@ == old(self)@.remove(k@),
            match r {
                Some(v) => old(self)@.contains_key(k@) && v == old(self)@[k@],
                None => !old(self)@.contains_key(k@),
            },
    {
        match self.find(k) {
            Some(i) => {
                let ghost before = self.entries@;
                proof { lemma_key_index(before, i as int); }
                let (_, v) = self.entries.remove(i);
                proof {
                    let after = self.entries@;
                    assert forall|a: int, b: int| 0 <= a < b < after.len() implies (#[trigger] after[a]).0@ != (#[trigger] after[b]).0@ by {
                        let ba = if a < i { a } else { a + 1 };
                        let bb = if b < i { b } else { b + 1 };
                        assert(after[a] == before[ba]);
                        assert(after[b] == before[bb]);
                    }
                    assert forall|x: Seq<char>| #[trigger] self@.contains_key(x) <==> old(self)@.remove(k@).contains_key(x) by {
                        if self@.contains_key(x) {
                            let j = choose|j: int| 0 <= j < after.len() && (#[trigger] after[j]).0@ == x;
                            let bj = if j < i { j } else { j + 1 };
                            assert(after[j] == before[bj]);
                            lemma_key_index(before, bj);
                            assert(bj != i);
                        }
                        if old(self)@.remove(k@).contains_key(x) {
                            let j = choose|j: int| 0 <= j < before.len() && (#[trigger] before[j]).0@ == x;
                            assert(j != i);
                            let nj = if j < i { j } else { j - 1 };
                            assert(after[nj] == before[j]);
                        }
                    }
                    assert forall|x: Seq<char>| #[trigger] self@.contains_key(x) implies self@[x] == old(self)@[x] by {
                        let j = choose|j: int| 0 <= j < after.len() && (#[trigger] after[j]).0@ == x;
                        let bj = if j < i { j } else { j + 1 };
                        assert(after[j] == before[bj]);
                        lemma_key_index(after, j);
                        lemma_key_index(before, bj);
                    }
                    assert(self@ =~= old(self)@.remove(k@));
                }
                Some(v)
            },
            None => {
                assert(self@ =~= old(self)@.remove(k@));
                None
            },
        }
    }

    /// Sets the value at `k` to `v`.
    pub fn insert(&mut self, k: String, v: V)
        requires
            old(self).wf(),
        ensures
            final(self).wf(),
            final(self)@ == old(self)@.insert(k@, v),
    {
        let _ = self.remove(k.as_str());
        let ghost before = self.entries@;
        let ghost mid = self@;
        let ghost kv = k@;
        self.entries.push((k, v));
        proof {
            let after = self.entries@;
            assert forall|a: int, b: int| 0 <= a < b < after.len() implies (#[trigger] after[a]).0@ != (#[trigger] after[b]).0@ by {
                if b == before.len() {
                    if before[a].0@ == kv {
                        lemma_key_index(before, a);
                    }
                } else {
                    assert(before[a].0@ != before[b].0@);
                }
            }
            lemma_key_index(after, before.len() as int);
            assert forall|x: Seq<char>| #[trigger] self@.contains_key(x) <==> mid.insert(kv, v).contains_key(x) by {
                if self@.contains_key(x) && x != kv {
                    let j = choose|j: int| 0 <= j < after.len() && (#[trigger] after[j]).0@ == x;
                    assert(j < before.len());
                    lemma_key_index(before, j);
                }
                if mid.contains_key(x) {
                    let j = choose|j: int| 0 <= j < before.len() && (#[trigger] before[j]).0@ == x;
                    assert(after[j] == before[j]);
                }
            }
            assert forall|x: Seq<char>| #[trigger] self@.contains_key(x) && x != kv implies self@[x] == mid[x] by {
                let j = choose|j: int| 0 <= j < after.len() && (#[trigger] after[j]).0@ == x;
                assert(j < before.len());
                assert(after[j] == before[j]);
                lemma_key_index(after, j);
                lemma_key_index(before, j);
            }
            assert(self@ =~= mid.insert(kv, v));
            assert(mid.insert(kv, v) =~= old(self)@.insert(kv, v));
        }
    }

    /// Sets every key of `other` to its value there.
    pub fn extend(&mut self, other: StrMap<V>)
        requires
            old(self).wf(),
            other.wf(),
        ensures
            final(self).wf(),
            final(self)@ == old(self)@.union_prefer_right(other@),
    {
        let mut other = other;
        let ghost o = other.entries@;
        let ghost start = self@;
        assert(o.skip(o.len() as int) =~= Seq::<(String, V)>::empty());
        assert(start.union_prefer_right(entries_map(o.skip(o.len() as int))) =~= start);
        while other.entries.len() > 0
            invariant
                self.wf(),
                unique_str_keys(o),
                other.entries@ == o.take(other.entries@.len() as int),
                other.entries@.len() <= o.len(),
                self@ == start.union_prefer_right(entries_map(o.skip(other.entries@.len() as int))),
            decreases other.entries@.len(),
        {
            let rem = other.entries.len();
            let (k, v) = other.entries.pop().unwrap();
            proof {
                assert(o[rem - 1] == (k, v));
                let tail = o.skip(rem as int);
                let tail2 = o.skip(rem - 1);
                assert(tail2 =~= seq![(k, v)] + tail);
                assert forall|i: int, j: int| 0 <= i < j < tail2.len() implies (#[trigger] tail2[i]).0@ != (#[trigger] tail2[j]).0@ by {
                    assert(tail2[i] == o[rem - 1 + i]);
                    assert(tail2[j] == o[rem - 1 + j]);
                }
                lemma_key_index(tail2, 0);
                assert(entries_map(tail2) =~= entries_map(tail).insert(k@, v)) by {
                    assert forall|x: Seq<char>| #[trigger] entries_map(tail2).contains_key(x) <==> entries_map(tail).insert(k@, v).contains_key(x) by {
                        if entries_map(tail2).contains_key(x) && x != k@ {
                            let j = choose|j: int| 0 <= j < tail2.len() && (#[trigger] tail2[j]).0@ == x;
                            assert(j > 0);
                            assert(tail[j - 1] == tail2[j]);
                        }
                        if entries_map(tail).contains_key(x) {
                            let j = choose|j: int| 0 <= j < tail.len() && (#[trigger] tail[j]).0@ == x;
                            assert(tail2[j + 1] == tail[j]);
                        }
                    }
                    assert forall|x: Seq<char>| #[trigger] entries_map(tail2).contains_key(x) && x != k@ implies entries_map(tail2)[x] == entries_map(tail)[x] by {
                        let j = choose|j: int| 0 <= j < tail2.len() && (#[trigger] tail2[j]).0@ == x;
                        assert(j > 0);
                        assert(tail[j - 1] == tail2[j]);
                        lemma_key_index(tail2, j);
                        assert forall|a: int, b: int| 0 <= a < b < tail.len() implies (#[trigger] tail[a]).0@ != (#[trigger] tail[b]).0@ by {
                            assert(tail[a] == tail2[a + 1]);
                            assert(tail[b] == tail2[b + 1]);
                        }
                        lemma_key_index(tail, j - 1);
                    }
                }
                assert(other.entries@ =~= o.take(rem - 1));
            }
            let ghost before = self@;
            self.insert(k, v);
            proof {
                assert(self@ =~= start.union_prefer_right(entries_map(o.skip(rem - 1))));
            }
        }
        assert(o.skip(0) =~= o);
    }

    /// The entries, each key once, in no particular order.
    pub fn entries(&self) -> (r: &Vec<(String, V)>)
        requires
            self.wf(),
        ensures
            unique_str_keys(r@),
            entries_map(r@) == self@,
    {
        &self.entries
    }

    /// The keys, each once, in no particular order.
    pub fn keys(&self) -> (r: Vec<String>)
        requires
            self.wf(),
        ensures
            r@.map_values(|s: String| s@).no_duplicates(),
            r@.map_values(|s: String| s@).to_set() == self@.dom(),
    {
        let e = &self.entries;
        let mut r: Vec<String> = Vec::new();
        let mut i: usize = 0;
        while i < e.len()
            invariant
                i <= e@.len(),
                unique_str_keys(e@),
                r@.len() == i,
                forall|j: int| 0 <= j < i ==> (#[trigger] r@[j])@ == e@[j].0@,
            decreases e@.len() - i,
        {
            r.push(e[i].0.clone());
            i = i + 1;
        }
        let ghost names = r@.map_values(|s: String| s@);
        proof {
            assert forall|a: int, b: int| 0 <= a < names.len() && 0 <= b < names.len() && a != b implies names[a] != names[b] by {
                if a < b {
                    assert(e@[a].0@ != e@[b].0@);
                } else {
                    assert(e@[b].0@ != e@[a].0@);
                }
            }
            assert forall|k: Seq<char>| #[trigger] names.to_set().contains(k) <==> self@.dom().contains(k) by {
                if names.to_set().contains(k) {
                    let a = choose|a: int| 0 <= a < names.len() && names[a] == k;
                    lemma_key_index(e@, a);
                }
                if self@.dom().contains(k) {
                    let a = choose|a: int| 0 <= a < e@.len() && (#[trigger] e@[a]).0@ == k;
                    assert(names[a] == k);
                    assert(names.contains(k));
                }
            }
            assert(names.to_set() =~= self@.dom());
        }
        r
    }

    /// How many keys the map holds.
    pub fn len(&self) -> (n: usize)
        requires
            self.wf(),
        ensures
            n == self@.dom().len(),
    {
        proof { lemma_entries_len(self.entries@); }
        self.entries.len()
    }
}

proof fn lemma_entries_len<V>(e: Seq<(String, V)>)
    requires
        unique_str_keys(e),
    ensures
        entries_map(e).dom().finite(),
        entries_map(e).dom().len() == e.len(),
    decreases e.len(),
{
    if e.len() == 0 {
        assert(entries_map(e).dom() =~= Set::<Seq<char>>::empty());
    } else {
        let d = e.drop_last();
        assert forall|i: int, j: int| 0 <= i < j < d.len() implies (#[trigger] d[i]).0@ != (#[trigger] d[j]).0@ by {
            assert(d[i] == e[i] && d[j] == e[j]);
        }
        lemma_entries_len(d);
        let last = e[e.len() - 1].0@;
        assert(!entries_map(d).dom().contains(last)) by {
            if entries_map(d).dom().contains(last) {
                let j = choose|j: int| 0 <= j < d.len() && (#[trigger] d[j]).0@ == last;
                assert(e[j].0@ != e[e.len() - 1].0@);
            }
        }
        assert(entries_map(e).dom() =~= entries_map(d).dom().insert(last)) by {
            assert forall|x: Seq<char>| entries_map(e).dom().contains(x) <==> entries_map(d).dom().insert(last).contains(x) by {
                if entries_map(e).dom().contains(x) && x != last {
                    let j = choose|j: int| 0 <= j < e.len() && (#[trigger] e[j]).0@ == x;
                    assert(j < d.len());
                    assert(d[j] == e[j]);
                }
                if entries_map(d).dom().contains(x) {
                    let j = choose|j: int| 0 <= j < d.len() && (#[trigger] d[j]).0@ == x;
                    assert(e[j] == d[j]);
                }
                if x == last {
                    assert(e[e.len() - 1].0@ == x);
                }
            }
        }
    }
}

}

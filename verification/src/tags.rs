//! OpenStreetMap tags: a map from keys to values, each key at most once.
use vstd::prelude::*;
use vstd::string::*;

verus! {

/// No key occurs twice among the entries.
pub open spec fn keys_unique(e: Seq<(String, String)>) -> bool {
    forall|i: int, j: int|
        0 <= i < e.len() && 0 <= j < e.len() && i != j ==> #[trigger] e[i].0@ != #[trigger] e[j].0@
}

/// Some entry has the key `k`.
pub open spec fn has_key(e: Seq<(String, String)>, k: Seq<char>) -> bool {
    exists|i: int| 0 <= i < e.len() && #[trigger] e[i].0@ == k
}

/// The map that a list of entries with unique keys stands for.
pub open spec fn entry_map(e: Seq<(String, String)>) -> Map<Seq<char>, Seq<char>> {
    Map::new(
        |k: Seq<char>| has_key(e, k),
        |k: Seq<char>| e[choose|i: int| 0 <= i < e.len() && #[trigger] e[i].0@ == k].1@,
    )
}

/// The value that `entry_map` gives a key is the one stored beside it.
pub proof fn lemma_entry_map_at(e: Seq<(String, String)>, i: int)
    requires
        keys_unique(e),
        0 <= i < e.len(),
    ensures
        entry_map(e).contains_key(e[i].0@),
        entry_map(e)[e[i].0@] == e[i].1@,
{
    let k = e[i].0@;
    assert(has_key(e, k));
    let j = choose|j: int| 0 <= j < e.len() && #[trigger] e[j].0@ == k;
    assert(j == i);
}

/// Whether two strings hold the same characters.
pub(crate) fn str_eq(a: &str, b: &str) -> (r: bool)
    ensures
        r == (a@ == b@),
{
    String::from_str(a) == String::from_str(b)
}

/// A set of key/value tags, as attached to an OpenStreetMap way or node.
pub struct Tags {
    entries: Vec<(String, String)>,
}

impl View for Tags {
    type V = Map<Seq<char>, Seq<char>>;

    closed spec fn view(&self) -> Map<Seq<char>, Seq<char>> {
        entry_map(self.entries@)
    }
}

impl Tags {
    /// No key is stored twice.
    pub closed spec fn wf(&self) -> bool {
        keys_unique(self.entries@)
    }

    /// Tags with no entries.
    pub fn new() -> (t: Tags)
        ensures
            t.wf(),
            t@ == Map::<Seq<char>, Seq<char>>::empty(),
    {
        let t = Tags { entries: Vec::new() };
        assert(t@ =~= Map::<Seq<char>, Seq<char>>::empty());
        t
    }

    /// The position of the entry with key `k`, if there is one.
    fn find(&self, k: &str) -> (r: Option<usize>)
        ensures
            match r {
                Some(i) => i < self.entries@.len() && self.entries@[i as int].0@ == k@,
                None => !has_key(self.entries@, k@),
            },
    {
        let key = String::from_str(k);
        let n = self.entries.len();
        for i in 0..n
            invariant
                n == self.entries@.len(),
                key@ == k@,
                forall|j: int| 0 <= j < i ==> #[trigger] self.entries@[j].0@ != k@,
        {
            if self.entries[i].0 == key {
                return Some(i);
            }
        }
        None
    }

    /// The value stored under `k`.
    pub fn get(&self, k: &str) -> (r: Option<&String>)
        requires
            self.wf(),
        ensures
            r.is_some() == self@.contains_key(k@),
            r matches Some(v) ==> v@ == self@[k@],
    {
        match self.find(k) {
            Some(i) => {
                proof {
                    lemma_entry_map_at(self.entries@, i as int);
                }
                Some(&self.entries[i].1)
            },
            None => None,
        }
    }

    /// Whether some value is stored under `k`.
    pub fn contains_key(&self, k: &str) -> (r: bool)
        requires
            self.wf(),
        ensures
            r == self@.contains_key(k@),
    {
        self.get(k).is_some()
    }

    /// Whether the value stored under `k` is `v`.
    pub fn is(&self, k: &str, v: &str) -> (r: bool)
        requires
            self.wf(),
        ensures
            r == (self@.contains_key(k@) && self@[k@] == v@),
    {
        match self.get(k) {
            Some(found) => {
                let want = String::from_str(v);
                *found == want
            },
            None => false,
        }
    }

    /// Whether the value stored under `k` is one of `values`.
    pub fn is_any(&self, k: &str, values: Vec<&str>) -> (r: bool)
        requires
            self.wf(),
        ensures
            r == (self@.contains_key(k@) && exists|i: int|
                0 <= i < values@.len() && #[trigger] values@[i]@ == self@[k@]),
    {
        match self.get(k) {
            Some(found) => {
                let n = values.len();
                for i in 0..n
                    invariant
                        n == values@.len(),
                        self@.contains_key(k@),
                        found@ == self@[k@],
                        forall|j: int| 0 <= j < i ==> #[trigger] values@[j]@ != self@[k@],
                {
                    let want = String::from_str(values[i]);
                    if *found == want {
                        return true;
                    }
                }
                false
            },
            None => false,
        }
    }

    /// Whether some value is stored under one of `keys`.
    pub fn has_any(&self, keys: Vec<&str>) -> (r: bool)
        requires
            self.wf(),
        ensures
            r == exists|i: int| 0 <= i < keys@.len() && self@.contains_key(#[trigger] keys@[i]@),
    {
        let n = keys.len();
        for i in 0..n
            invariant
                n == keys@.len(),
                self.wf(),
                forall|j: int| 0 <= j < i ==> !self@.contains_key(#[trigger] keys@[j]@),
        {
            if self.contains_key(keys[i]) {
                return true;
            }
        }
        false
    }

    /// Stores `v` under `k`, replacing what was there.
    pub fn insert(&mut self, k: &str, v: &str)
        requires
            old(self).wf(),
        ensures
            final(self).wf(),
            final(self)@ == old(self)@.insert(k@, v@),
    {
        let ghost e0 = self.entries@;
        match self.find(k) {
            Some(i) => {
                self.entries.set(i, (String::from_str(k), String::from_str(v)));
                proof {
                    let e1 = self.entries@;
                    assert forall|a: int, b: int|
                        0 <= a < e1.len() && 0 <= b < e1.len() && a != b implies
                        #[trigger] e1[a].0@ != #[trigger] e1[b].0@ by {
                        assert(e0[a].0@ != e0[b].0@);
                    }
                    assert forall|kk: Seq<char>| has_key(e1, kk) <==> has_key(e0, kk) || kk == k@ by {
                        if has_key(e0, kk) {
                            let j = choose|j: int| 0 <= j < e0.len() && #[trigger] e0[j].0@ == kk;
                            assert(e1[j].0@ == kk);
                        }
                        if has_key(e1, kk) {
                            let j = choose|j: int| 0 <= j < e1.len() && #[trigger] e1[j].0@ == kk;
                            assert(e0[j].0@ == kk);
                        }
                    }
                    assert forall|kk: Seq<char>| #[trigger] has_key(e1, kk) implies
                        entry_map(e1)[kk] == old(self)@.insert(k@, v@)[kk] by {
                        let j = choose|j: int| 0 <= j < e1.len() && #[trigger] e1[j].0@ == kk;
                        lemma_entry_map_at(e1, j);
                        if kk != k@ {
                            lemma_entry_map_at(e0, j);
                        }
                    }
                    assert(entry_map(e1) =~= entry_map(e0).insert(k@, v@));
                }
            },
            None => {
                self.entries.push((String::from_str(k), String::from_str(v)));
                proof {
                    let e1 = self.entries@;
                    assert(e1[e0.len() as int].0@ == k@);
                    assert forall|kk: Seq<char>| has_key(e1, kk) <==> has_key(e0, kk) || kk == k@ by {
                        if has_key(e0, kk) {
                            let j = choose|j: int| 0 <= j < e0.len() && #[trigger] e0[j].0@ == kk;
                            assert(e1[j].0@ == kk);
                        }
                        if has_key(e1, kk) {
                            let j = choose|j: int| 0 <= j < e1.len() && #[trigger] e1[j].0@ == kk;
                            if j < e0.len() {
                                assert(e0[j].0@ == kk);
                            }
                        }
                    }
                    assert forall|kk: Seq<char>| #[trigger] has_key(e1, kk) implies
                        entry_map(e1)[kk] == old(self)@.insert(k@, v@)[kk] by {
                        let j = choose|j: int| 0 <= j < e1.len() && #[trigger] e1[j].0@ == kk;
                        lemma_entry_map_at(e1, j);
                        if j < e0.len() {
                            lemma_entry_map_at(e0, j);
                        }
                    }
                    assert(entry_map(e1) =~= entry_map(e0).insert(k@, v@));
                }
            },
        }
    }

    /// Takes out the value stored under `k`.
    pub fn remove(&mut self, k: &str) -> (r: Option<String>)
        requires
            old(self).wf(),
        ensures
            final(self).wf(),
            final(self)@ == old(self)@.remove(k@),
            r.is_some() == old(self)@.contains_key(k@),
            r matches Some(v) ==> v@ == old(self)@[k@],
    {
        let ghost e0 = self.entries@;
        match self.find(k) {
            Some(i) => {
                proof {
                    lemma_entry_map_at(e0, i as int);
                }
                let (_, v) = self.entries.remove(i);
                proof {
                    let e1 = self.entries@;
                    assert forall|a: int, b: int|
                        0 <= a < e1.len() && 0 <= b < e1.len() && a != b implies
                        #[trigger] e1[a].0@ != #[trigger] e1[b].0@ by {
                        let a0 = if a < i { a } else { a + 1 };
                        let b0 = if b < i { b } else { b + 1 };
                        assert(e0[a0].0@ != e0[b0].0@);
                    }
                    assert forall|kk: Seq<char>|
                        has_key(e1, kk) <==> has_key(e0, kk) && kk != k@ by {
                        if has_key(e0, kk) && kk != k@ {
                            let j = choose|j: int| 0 <= j < e0.len() && #[trigger] e0[j].0@ == kk;
                            if j < i {
                                assert(e1[j].0@ == kk);
                            } else {
                                assert(e1[j - 1].0@ == kk);
                            }
                        }
                        if has_key(e1, kk) {
                            let j = choose|j: int| 0 <= j < e1.len() && #[trigger] e1[j].0@ == kk;
                            let j0 = if j < i { j } else { j + 1 };
                            assert(e0[j0].0@ == kk);
                        }
                    }
                    assert forall|kk: Seq<char>| #[trigger] has_key(e1, kk) implies
                        entry_map(e1)[kk] == entry_map(e0)[kk] by {
                        let j = choose|j: int| 0 <= j < e1.len() && #[trigger] e1[j].0@ == kk;
                        lemma_entry_map_at(e1, j);
                        let j0 = if j < i { j } else { j + 1 };
                        assert(e0[j0] == e1[j]);
                        lemma_entry_map_at(e0, j0);
                    }
                    assert(entry_map(e1) =~= entry_map(e0).remove(k@));
                }
                Some(v)
            },
            None => {
                assert(entry_map(e0) =~= entry_map(e0).remove(k@));
                None
            },
        }
    }

    /// The entries, each key once, in no particular order.
    pub fn inner(&self) -> (r: &Vec<(String, String)>)
        requires
            self.wf(),
        ensures
            keys_unique(r@),
            entry_map(r@) == self@,
    {
        &self.entries
    }
}

impl Clone for Tags {
    fn clone(&self) -> (r: Self)
        ensures
            r@ == self@,
            r.wf() == self.wf(),
    {
        let mut entries: Vec<(String, String)> = Vec::new();
        let n = self.entries.len();
        for i in 0..n
            invariant
                n == self.entries@.len(),
                entries@ == self.entries@.take(i as int),
        {
            let (k, v) = &self.entries[i];
            entries.push((k.clone(), v.clone()));
            proof {
                assert(entries@ =~= self.entries@.take(i + 1));
            }
        }
        proof {
            assert(entries@ =~= self.entries@);
        }
        Tags { entries }
    }
}

} // verus!

use vstd::prelude::*;

verus! {

/// Whether two byte strings are equal.
pub fn bytes_equal(a: &Vec<u8>, b: &Vec<u8>) -> (eq: bool)
    ensures
        eq == (a@ == b@),
{
    if a.len() != b.len() {
        return false;
    }
    let mut i: usize = 0;
    while i < a.len()
        invariant
            i <= a.len(),
            a.len() == b.len(),
            forall|j: int| 0 <= j < i ==> a@[j] == b@[j],
        decreases a.len() - i,
    {
        if a[i] != b[i] {
            return false;
        }
        i += 1;
    }
    assert(a@ =~= b@);
    true
}

/// A fresh copy of a byte string.
pub fn copy_bytes(a: &Vec<u8>) -> (c: Vec<u8>)
    ensures
        c@ == a@,
{
    let mut c: Vec<u8> = Vec::new();
    let mut i: usize = 0;
    while i < a.len()
        invariant
            i <= a.len(),
            c@ == a@.subrange(0, i as int),
        decreases a.len() - i,
    {
        c.push(a[i]);
        i += 1;
        assert(c@ =~= a@.subrange(0, i as int));
    }
    assert(a@.subrange(0, a.len() as int) =~= a@);
    c
}

/// A copy of an optional byte string.
pub fn copy_opt_bytes(a: &Option<Vec<u8>>) -> (c: Option<Vec<u8>>)
    ensures
        opt_bytes(c) == opt_bytes(*a),
{
    match a {
        Some(v) => Some(copy_bytes(v)),
        None => None,
    }
}

/// The contents of an optional byte string.
pub open spec fn opt_bytes(a: Option<Vec<u8>>) -> Option<Seq<u8>> {
    match a {
        Some(v) => Some(v@),
        None => None,
    }
}

/// Whether no two entries of `s` share a key.
pub open spec fn keys_distinct<V>(s: Seq<(Vec<u8>, V)>) -> bool {
    forall|i: int, j: int|
        0 <= i < s.len() && 0 <= j < s.len() && i != j ==> #[trigger] s[i].0@ != #[trigger] s[j].0@
}

/// Whether some entry of `s` has the key `k`.
pub open spec fn has_key<V>(s: Seq<(Vec<u8>, V)>, k: Seq<u8>) -> bool {
    exists|i: int| 0 <= i < s.len() && #[trigger] s[i].0@ == k
}

/// The position of the entry of `s` with the key `k`.
pub open spec fn key_index<V>(s: Seq<(Vec<u8>, V)>, k: Seq<u8>) -> int {
    choose|i: int| 0 <= i < s.len() && #[trigger] s[i].0@ == k
}

/// The map that a list of entries with distinct keys stands for.
pub open spec fn entries_map<V: View>(s: Seq<(Vec<u8>, V)>) -> Map<Seq<u8>, V::V> {
    Map::new(|k: Seq<u8>| has_key(s, k), |k: Seq<u8>| s[key_index(s, k)].1@)
}

/// In a list with distinct keys, the entry at `i` is the one found for its key.
pub proof fn lemma_key_index<V: View>(s: Seq<(Vec<u8>, V)>, i: int)
    requires
        keys_distinct(s),
        0 <= i < s.len(),
    ensures
        has_key(s, s[i].0@),
        key_index(s, s[i].0@) == i,
        entries_map(s).contains_key(s[i].0@),
        entries_map(s)[s[i].0@] == s[i].1@,
{
    let k = s[i].0@;
    assert(s[i].0@ == k);
    let j = key_index(s, k);
    assert(0 <= j < s.len() && s[j].0@ == k);
}

/// A map keyed by byte strings (account addresses, operation ids), held as a
/// list of entries in which no key occurs twice.
pub struct ByteMap<V> {
    entries: Vec<(Vec<u8>, V)>,
}

impl<V> ByteMap<V> {
    #[verifier::type_invariant]
    spec fn distinct(self) -> bool {
        keys_distinct(self.entries@)
    }
}

impl<V: View> View for ByteMap<V> {
    type V = Map<Seq<u8>, V::V>;

    closed spec fn view(&self) -> Map<Seq<u8>, V::V> {
        entries_map(self.entries@)
    }
}

impl<V: View> ByteMap<V> {
    /// An empty map.
    pub fn new() -> (m: Self)
        ensures
            m@ == Map::<Seq<u8>, V::V>::empty(),
    {
        let m = ByteMap { entries: Vec::new() };
        assert(m@ =~= Map::<Seq<u8>, V::V>::empty());
        m
    }

    /// The position of the entry with the key `key`, if there is one.
    fn find(&self, key: &Vec<u8>) -> (pos: Option<usize>)
        ensures
            match pos {
                Some(i) => i < self.entries.len() && self.entries@[i as int].0@ == key@,
                None => !has_key(self.entries@, key@),
            },
    {
        let mut i: usize = 0;
        while i < self.entries.len()
            invariant
                i <= self.entries.len(),
                forall|j: int| 0 <= j < i ==> self.entries@[j].0@ != key@,
            decreases self.entries.len() - i,
        {
            if bytes_equal(&self.entries[i].0, key) {
                return Some(i);
            }
            i += 1;
        }
        None
    }

    /// Whether the map has an entry for `key`.
    pub fn contains_key(&self, key: &Vec<u8>) -> (found: bool)
        ensures
            found == self@.contains_key(key@),
    {
        match self.find(key) {
            Some(i) => {
                proof {
                    use_type_invariant(self);
                    lemma_key_index(self.entries@, i as int);
                }
                true
            },
            None => false,
        }
    }

    /// The value stored for `key`, if any.
    pub fn get(&self, key: &Vec<u8>) -> (value: Option<&V>)
        ensures
            match value {
                Some(v) => self@.contains_key(key@) && v@ == self@[key@],
                None => !self@.contains_key(key@),
            },
    {
        match self.find(key) {
            Some(i) => {
                proof {
                    use_type_invariant(self);
                    lemma_key_index(self.entries@, i as int);
                }
                Some(&self.entries[i].1)
            },
            None => None,
        }
    }

    /// Stores `value` under `key`, replacing any earlier value.
    pub fn insert(&mut self, key: Vec<u8>, value: V)
        ensures
            final(self)@ == old(self)@.insert(key@, value@),
    {
        proof {
            use_type_invariant(&*self);
        }
        let ghost before = self.entries@;
        let ghost k = key@;
        let ghost v = value@;
        match self.find(&key) {
            Some(i) => {
                let ghost after = before.update(i as int, (key, value));
                assert(keys_distinct(after)) by {
                    assert forall|a: int, b: int|
                        0 <= a < after.len() && 0 <= b < after.len() && a != b implies #[trigger] after[a].0@
                        != #[trigger] after[b].0@ by {
                        assert(before[a].0@ != before[b].0@);
                    }
                }
                let mut entries: Vec<(Vec<u8>, V)> = Vec::new();
                std::mem::swap(&mut entries, &mut self.entries);
                entries.set(i, (key, value));
                self.entries = entries;
                proof {
                    assert(self.entries@ == after);
                    lemma_key_index(after, i as int);
                    assert forall|q: Seq<u8>| q != k implies (has_key(after, q) == has_key(before, q)
                        && (has_key(after, q) ==> entries_map(after)[q] == entries_map(before)[q])) by {
                        if has_key(before, q) {
                            let j = key_index(before, q);
                            assert(j != i);
                            assert(after[j].0@ == q);
                            lemma_key_index(before, j);
                            lemma_key_index(after, j);
                        }
                        if has_key(after, q) {
                            let j = key_index(after, q);
                            assert(j != i);
                            assert(before[j].0@ == q);
                        }
                    }
                    assert(self@ =~= old(self)@.insert(k, v));
                }
            },
            None => {
                let ghost after = before.push((key, value));
                assert(keys_distinct(after)) by {
                    assert forall|a: int, b: int|
                        0 <= a < after.len() && 0 <= b < after.len() && a != b implies #[trigger] after[a].0@
                        != #[trigger] after[b].0@ by {
                        if a < before.len() && b < before.len() {
                            assert(before[a].0@ != before[b].0@);
                        } else if a < before.len() {
                            assert(before[a].0@ == after[a].0@);
                        } else {
                            assert(before[b].0@ == after[b].0@);
                        }
                    }
                }
                let mut entries: Vec<(Vec<u8>, V)> = Vec::new();
                std::mem::swap(&mut entries, &mut self.entries);
                entries.push((key, value));
                self.entries = entries;
                proof {
                    assert(self.entries@ == after);
                    let n = before.len() as int;
                    lemma_key_index(after, n);
                    assert forall|q: Seq<u8>| q != k implies (has_key(after, q) == has_key(before, q)
                        && (has_key(after, q) ==> entries_map(after)[q] == entries_map(before)[q])) by {
                        if has_key(before, q) {
                            let j = key_index(before, q);
                            assert(after[j].0@ == q);
                            lemma_key_index(before, j);
                            lemma_key_index(after, j);
                        }
                        if has_key(after, q) {
                            let j = key_index(after, q);
                            assert(j != n);
                            assert(before[j].0@ == q);
                        }
                    }
                    assert(self@ =~= old(self)@.insert(k, v));
                }
            },
        }
    }

    /// Removes the entry for `key`, if there is one.
    pub fn remove(&mut self, key: &Vec<u8>)
        ensures
            final(self)@ == old(self)@.remove(key@),
    {
        proof {
            use_type_invariant(&*self);
        }
        let ghost before = self.entries@;
        match self.find(key) {
            Some(i) => {
                let ghost after = before.remove(i as int);
                assert(forall|j: int| 0 <= j < i ==> after[j] == before[j]);
                assert(forall|j: int| i <= j < after.len() ==> after[j] == before[j + 1]);
                assert(keys_distinct(after)) by {
                    assert forall|a: int, b: int|
                        0 <= a < after.len() && 0 <= b < after.len() && a != b implies #[trigger] after[a].0@
                        != #[trigger] after[b].0@ by {
                        let a2 = if a < i { a } else { a + 1 };
                        let b2 = if b < i { b } else { b + 1 };
                        assert(before[a2].0@ != before[b2].0@);
                    }
                }
                let mut entries: Vec<(Vec<u8>, V)> = Vec::new();
                std::mem::swap(&mut entries, &mut self.entries);
                let _ = entries.remove(i);
                self.entries = entries;
                proof {
                    assert(self.entries@ == after);
                    assert forall|q: Seq<u8>| (has_key(after, q) == (has_key(before, q) && q != key@)
                        && (has_key(after, q) ==> entries_map(after)[q] == entries_map(before)[q])) by {
                        if has_key(before, q) && q != key@ {
                            let j = key_index(before, q);
                            assert(j != i);
                            let j2 = if j < i { j } else { j - 1 };
                            assert(after[j2].0@ == q);
                            lemma_key_index(before, j);
                            lemma_key_index(after, j2);
                        }
                        if has_key(after, q) {
                            let j = key_index(after, q);
                            let j2 = if j < i { j } else { j + 1 };
                            assert(before[j2].0@ == q);
                            lemma_key_index(before, j2);
                            assert(j2 != i);
                        }
                    }
                    assert(self@ =~= old(self)@.remove(key@));
                }
            },
            None => {
                assert(old(self)@ =~= old(self)@.remove(key@));
            },
        }
    }

}

} // verus!

//! A table from text keys to records that expire, held as a vector with
//! distinct keys and seen as a map.
use vstd::prelude::*;

verus! {

/// A record that stops being valid at some point in time (seconds).
pub trait Expiring {
    spec fn is_expired(&self, now: i64) -> bool;

    fn expired(&self, now: i64) -> (r: bool)
        ensures
            r == self.is_expired(now),
    ;
}

pub struct Entry<V> {
    pub key: String,
    pub value: V,
}

pub struct ExpiringTable<V> {
    entries: Vec<Entry<V>>,
}

pub open spec fn has_key<V>(s: Seq<Entry<V>>, k: Seq<char>) -> bool {
    exists|i: int| 0 <= i < s.len() && (#[trigger] s[i]).key@ == k
}

pub open spec fn keys_distinct<V>(s: Seq<Entry<V>>) -> bool {
    forall|i: int, j: int| 0 <= i < s.len() && 0 <= j < s.len() && i != j ==> (#[trigger] s[i]).key@
        != (#[trigger] s[j]).key@
}

/// The map that a sequence of entries with distinct keys stands for.
pub open spec fn map_of<V>(s: Seq<Entry<V>>) -> Map<Seq<char>, V> {
    Map::new(
        |k: Seq<char>| has_key(s, k),
        |k: Seq<char>| s[choose|i: int| 0 <= i < s.len() && (#[trigger] s[i]).key@ == k].value,
    )
}

proof fn lemma_map_at<V>(s: Seq<Entry<V>>, i: int)
    requires
        keys_distinct(s),
        0 <= i < s.len(),
    ensures
        map_of(s).contains_key(s[i].key@),
        map_of(s)[s[i].key@] == s[i].value,
{
    let k = s[i].key@;
    assert(has_key(s, k));
    let j = choose|j: int| 0 <= j < s.len() && (#[trigger] s[j]).key@ == k;
    assert(j == i);
}

impl<V> View for ExpiringTable<V> {
    type V = Map<Seq<char>, V>;

    closed spec fn view(&self) -> Map<Seq<char>, V> {
        map_of(self.entries@)
    }
}

impl<V: Expiring> ExpiringTable<V> {
    /// The table's keys are distinct.
    pub closed spec fn wf(&self) -> bool {
        keys_distinct(self.entries@)
    }

    pub fn new() -> (r: Self)
        ensures
            r.wf(),
            r@ == Map::<Seq<char>, V>::empty(),
    {
        let r = ExpiringTable { entries: Vec::new() };
        assert(r@ =~= Map::<Seq<char>, V>::empty());
        r
    }

    fn position(&self, key: &String) -> (r: Option<usize>)
        requires
            self.wf(),
        ensures
            match r {
                Some(i) => i < self.entries@.len() && self.entries@[i as int].key@ == key@,
                None => !has_key(self.entries@, key@),
            },
    {
        let mut i: usize = 0;
        while i < self.entries.len()
            invariant
                i <= self.entries@.len(),
                forall|j: int| 0 <= j < i ==> (#[trigger] self.entries@[j]).key@ != key@,
            decreases self.entries@.len() - i,
        {
            if self.entries[i].key == *key {
                return Some(i);
            }
            i = i + 1;
        }
        None
    }

    /// The record under `key`, if any (expired or not).
    pub fn get(&self, key: &String) -> (r: Option<&V>)
        requires
            self.wf(),
        ensures
            r is Some <==> self@.contains_key(key@),
            r matches Some(v) ==> *v == self@[key@],
    {
        match self.position(key) {
            Some(i) => {
                proof {
                    lemma_map_at(self.entries@, i as int);
                }
                Some(&self.entries[i].value)
            },
            None => None,
        }
    }

    fn remove_at(&mut self, i: usize) -> (r: Entry<V>)
        requires
            old(self).wf(),
            i < old(self).entries@.len(),
        ensures
            final(self).wf(),
            r == old(self).entries@[i as int],
            final(self).entries@ == old(self).entries@.remove(i as int),
            final(self)@ == old(self)@.remove(r.key@),
    {
        let ghost s = self.entries@;
        let r = self.entries.remove(i);
        let ghost t = self.entries@;
        assert forall|a: int, b: int|
            0 <= a < t.len() && 0 <= b < t.len() && a != b implies (#[trigger] t[a]).key@
            != (#[trigger] t[b]).key@ by {
            let oa = if a < i { a } else { a + 1 };
            let ob = if b < i { b } else { b + 1 };
            assert(t[a] == s[oa] && t[b] == s[ob]);
        }
        assert forall|k: Seq<char>| #[trigger] map_of(t).contains_key(k) <==> map_of(
            s,
        ).remove(r.key@).contains_key(k) by {
            if has_key(t, k) {
                let a = choose|a: int| 0 <= a < t.len() && (#[trigger] t[a]).key@ == k;
                let oa = if a < i { a } else { a + 1 };
                assert(t[a] == s[oa]);
                assert(has_key(s, k));
            }
            if has_key(s, k) && k != r.key@ {
                let a = choose|a: int| 0 <= a < s.len() && (#[trigger] s[a]).key@ == k;
                let na = if a < i { a } else { a - 1 };
                assert(t[na] == s[a]);
                assert(has_key(t, k));
            }
        }
        assert forall|k: Seq<char>| #[trigger] map_of(t).contains_key(k) implies map_of(t)[k]
            == map_of(s)[k] by {
            let a = choose|a: int| 0 <= a < t.len() && (#[trigger] t[a]).key@ == k;
            let oa = if a < i { a } else { a + 1 };
            assert(t[a] == s[oa]);
            lemma_map_at(t, a);
            lemma_map_at(s, oa);
        }
        assert(map_of(t) =~= map_of(s).remove(r.key@));
        r
    }

    /// Takes the record under `key` out of the table.
    pub fn remove(&mut self, key: &String) -> (r: Option<V>)
        requires
            old(self).wf(),
        ensures
            final(self).wf(),
            final(self)@ == old(self)@.remove(key@),
            r is Some <==> old(self)@.contains_key(key@),
            r matches Some(v) ==> v == old(self)@[key@],
    {
        match self.position(key) {
            Some(i) => {
                proof {
                    lemma_map_at(self.entries@, i as int);
                }
                let e = self.remove_at(i);
                Some(e.value)
            },
            None => {
                assert(self@.remove(key@) =~= self@);
                None
            },
        }
    }

    /// Puts `value` under `key`, in place of any record that was there.
    pub fn insert(&mut self, key: String, value: V)
        requires
            old(self).wf(),
        ensures
            final(self).wf(),
            final(self)@ == old(self)@.insert(key@, value),
    {
        let _ = self.remove(&key);
        let ghost s = self.entries@;
        let ghost k = key@;
        self.entries.push(Entry { key, value });
        let ghost t = self.entries@;
        assert(!map_of(s).contains_key(k));
        assert(!has_key(s, k));
        assert forall|a: int, b: int|
            0 <= a < t.len() && 0 <= b < t.len() && a != b implies (#[trigger] t[a]).key@
            != (#[trigger] t[b]).key@ by {
            if a < s.len() && b < s.len() {
                assert(t[a] == s[a] && t[b] == s[b]);
            } else if a < s.len() {
                assert(t[a] == s[a]);
            } else {
                assert(t[b] == s[b]);
            }
        }
        assert forall|j: Seq<char>| #[trigger] map_of(t).contains_key(j) <==> map_of(s).insert(
            k,
            value,
        ).contains_key(j) by {
            if has_key(t, j) {
                let a = choose|a: int| 0 <= a < t.len() && (#[trigger] t[a]).key@ == j;
                if a < s.len() {
                    assert(t[a] == s[a]);
                }
            }
            if has_key(s, j) {
                let a = choose|a: int| 0 <= a < s.len() && (#[trigger] s[a]).key@ == j;
                assert(t[a] == s[a]);
            }
            assert(t[s.len() as int].key@ == k);
        }
        assert forall|j: Seq<char>| #[trigger] map_of(t).contains_key(j) implies map_of(t)[j]
            == map_of(s).insert(k, value)[j] by {
            let a = choose|a: int| 0 <= a < t.len() && (#[trigger] t[a]).key@ == j;
            lemma_map_at(t, a);
            if a < s.len() {
                assert(t[a] == s[a]);
                lemma_map_at(s, a);
            }
        }
        assert(map_of(t) =~= map_of(s).insert(k, value));
    }

    /// Removes every record that has expired at `now`.
    pub fn sweep(&mut self, now: i64)
        requires
            old(self).wf(),
        ensures
            final(self).wf(),
            forall|k: Seq<char>| #[trigger]
                final(self)@.contains_key(k) <==> old(self)@.contains_key(k) && !old(
                    self,
                )@[k].is_expired(now),
            forall|k: Seq<char>| #[trigger]
                final(self)@.contains_key(k) ==> final(self)@[k] == old(self)@[k],
    {
        let ghost start = self@;
        let mut i: usize = 0;
        while i < self.entries.len()
            invariant
                self.wf(),
                i <= self.entries@.len(),
                forall|j: int| 0 <= j < i ==> !(#[trigger] self.entries@[j]).value.is_expired(now),
                forall|k: Seq<char>| #[trigger]
                    self@.contains_key(k) ==> start.contains_key(k) && self@[k] == start[k],
                forall|k: Seq<char>| #[trigger]
                    start.contains_key(k) && !self@.contains_key(k) ==> start[k].is_expired(now),
            decreases self.entries@.len() - i,
        {
            if self.entries[i].value.expired(now) {
                let ghost before = self@;
                let e = self.remove_at(i);
                proof {
                    assert forall|k: Seq<char>| #[trigger]
                        start.contains_key(k) && !self@.contains_key(k) implies start[k].is_expired(
                        now,
                    ) by {
                        if before.contains_key(k) {
                            assert(k == e.key@);
                        }
                    }
                }
            } else {
                i = i + 1;
            }
        }
        proof {
            assert forall|k: Seq<char>| #[trigger] start.contains_key(k) && !start[k].is_expired(
                now,
            ) implies self@.contains_key(k) by {}
            assert forall|k: Seq<char>| #[trigger] self@.contains_key(k) implies !start[k].is_expired(
                now,
            ) by {
                let a = choose|a: int|
                    0 <= a < self.entries@.len() && (#[trigger] self.entries@[a]).key@ == k;
                lemma_map_at(self.entries@, a);
            }
        }
    }
}

} // verus!

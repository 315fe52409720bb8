//! A map from bytes.

use crate::text::bytes_eq;
use vstd::prelude::*;

verus! {

/// A map from bytes. No key occurs twice.
#[derive(Debug)]
#[verifier::reject_recursive_types(V)]
pub struct ByteMap<V> {
    entries: Vec<(Vec<u8>, V)>,
}

/// Whether no key occurs twice.
spec fn keys_differ<V>(s: Seq<(Vec<u8>, V)>) -> bool {
    forall|i: int, j: int|
        0 <= i < j < s.len() ==> (#[trigger] s[i]).0@ != (#[trigger] s[j]).0@
}

/// What the entries map.
spec fn mapped<V>(s: Seq<(Vec<u8>, V)>) -> Map<Seq<u8>, V>
    decreases s.len(),
{
    if s.len() == 0 {
        Map::empty()
    } else {
        mapped(s.drop_last()).insert(s.last().0@, s.last().1)
    }
}

/// A key is mapped to what stands beside it, and no other key is mapped.
proof fn lemma_mapped<V>(s: Seq<(Vec<u8>, V)>)
    requires
        keys_differ(s),
    ensures
        forall|i: int|
            0 <= i < s.len() ==> mapped(s).dom().contains((#[trigger] s[i]).0@) && mapped(s)[s[i].0@]
                == s[i].1,
        forall|k: Seq<u8>|
            mapped(s).dom().contains(k) ==> exists|i: int|
                0 <= i < s.len() && (#[trigger] s[i]).0@ == k,
    decreases s.len(),
{
    if s.len() > 0 {
        let front = s.drop_last();
        lemma_mapped(front);
        assert forall|i: int| 0 <= i < s.len() implies mapped(s).dom().contains(
            (#[trigger] s[i]).0@,
        ) && mapped(s)[s[i].0@] == s[i].1 by {
            if i < front.len() {
                assert(front[i] == s[i]);
                assert(s[i].0@ != s[s.len() - 1].0@);
            }
        }
        assert forall|k: Seq<u8>| mapped(s).dom().contains(k) implies exists|i: int|
            0 <= i < s.len() && (#[trigger] s[i]).0@ == k by {
            if k == s.last().0@ {
                assert(s[s.len() - 1].0@ == k);
            } else {
                assert(mapped(front).dom().contains(k));
                let i = choose|i: int| 0 <= i < front.len() && (#[trigger] front[i]).0@ == k;
                assert(s[i].0@ == k);
            }
        }
    }
}

impl<V> ByteMap<V> {
    #[verifier::type_invariant]
    spec fn each_once(self) -> bool {
        keys_differ(self.entries@)
    }

    /// What the map holds.
    pub closed spec fn view(&self) -> Map<Seq<u8>, V> {
        mapped(self.entries@)
    }

    /// A map that holds nothing.
    pub fn new() -> (r: Self)
        ensures
            r@ == Map::<Seq<u8>, V>::empty(),
    {
        ByteMap { entries: Vec::new() }
    }

    /// Where a key stands.
    fn position(&self, key: &[u8]) -> (r: Option<usize>)
        ensures
            match r {
                Some(i) => i < self.entries@.len() && self.entries@[i as int].0@ == key@
                    && self@.dom().contains(key@) && self@[key@] == self.entries@[i as int].1,
                None => !self@.dom().contains(key@),
            },
    {
        proof {
            use_type_invariant(self);
            lemma_mapped(self.entries@);
        }
        let mut i: usize = 0;
        while i < self.entries.len()
            invariant
                i <= self.entries@.len(),
                keys_differ(self.entries@),
                forall|j: int| 0 <= j < i ==> (#[trigger] self.entries@[j]).0@ != key@,
            decreases self.entries@.len() - i,
        {
            if bytes_eq(self.entries[i].0.as_slice(), key) {
                proof {
                    lemma_mapped(self.entries@);
                }
                return Some(i);
            }
            i = i + 1;
        }
        None
    }

    /// Whether the map holds a key.
    pub fn contains_key(&self, key: &[u8]) -> (r: bool)
        ensures
            r == self@.dom().contains(key@),
    {
        self.position(key).is_some()
    }

    /// What a key is mapped to.
    pub fn get(&self, key: &[u8]) -> (r: Option<&V>)
        ensures
            match r {
                Some(v) => self@.dom().contains(key@) && *v == self@[key@],
                None => !self@.dom().contains(key@),
            },
    {
        match self.position(key) {
            Some(i) => Some(&self.entries[i].1),
            None => None,
        }
    }

    /// Takes a key out of the map.
    pub fn remove(&mut self, key: &[u8]) -> (r: Option<V>)
        ensures
            final(self)@ == old(self)@.remove(key@),
            match r {
                Some(v) => old(self)@.dom().contains(key@) && v == old(self)@[key@],
                None => !old(self)@.dom().contains(key@),
            },
    {
        proof {
            use_type_invariant(&*self);
            lemma_mapped(self.entries@);
        }
        let ghost s = self.entries@;
        match self.position(key) {
            Some(i) => {
                let mut entries: Vec<(Vec<u8>, V)> = Vec::new();
                std::mem::swap(&mut entries, &mut self.entries);
                let (_key, value) = entries.remove(i);
                let ghost t = s.remove(i as int);
                proof {
                    assert(entries@ =~= t);
                    assert(keys_differ(t));
                    lemma_mapped(t);
                    assert forall|k: Seq<u8>| mapped(t).dom().contains(k) <==> (mapped(
                        s,
                    ).dom().contains(k) && k != key@) by {
                        if mapped(t).dom().contains(k) {
                            let j = choose|j: int| 0 <= j < t.len() && (#[trigger] t[j]).0@ == k;
                            let at = if j < i {
                                j
                            } else {
                                j + 1
                            };
                            assert(s[at].0@ == k);
                            assert(s[i as int].0@ == key@);
                        }
                        if mapped(s).dom().contains(k) && k != key@ {
                            let j = choose|j: int| 0 <= j < s.len() && (#[trigger] s[j]).0@ == k;
                            let at = if j < i {
                                j
                            } else {
                                j - 1
                            };
                            assert(t[at].0@ == k);
                        }
                    }
                    assert forall|k: Seq<u8>| mapped(t).dom().contains(k) implies mapped(t)[k]
                        == mapped(s)[k] by {
                        let j = choose|j: int| 0 <= j < t.len() && (#[trigger] t[j]).0@ == k;
                        let at = if j < i {
                            j
                        } else {
                            j + 1
                        };
                        assert(s[at] == t[j]);
                    }
                    assert(mapped(t) =~= mapped(s).remove(key@));
                }
                *self = ByteMap { entries };
                Some(value)
            },
            None => {
                assert(self@ =~= self@.remove(key@));
                None
            },
        }
    }

    /// Maps a key to a value, in the place of the one it was mapped to before.
    pub fn insert(&mut self, key: Vec<u8>, value: V)
        ensures
            final(self)@ == old(self)@.insert(key@, value),
    {
        let _before = self.remove(key.as_slice());
        proof {
            use_type_invariant(&*self);
            lemma_mapped(self.entries@);
        }
        let ghost s = self.entries@;
        let mut entries: Vec<(Vec<u8>, V)> = Vec::new();
        std::mem::swap(&mut entries, &mut self.entries);
        entries.push((key, value));
        proof {
            assert forall|i: int, j: int| 0 <= i < j < entries@.len() implies (
            #[trigger] entries@[i]).0@ != (#[trigger] entries@[j]).0@ by {
                if j == s.len() {
                    assert(mapped(s).dom().contains(s[i].0@));
                }
            }
            assert(entries@.drop_last() =~= s);
            assert(old(self)@.remove(key@).insert(key@, value) =~= old(self)@.insert(key@, value));
        }
        *self = ByteMap { entries };
    }
}

} // verus!

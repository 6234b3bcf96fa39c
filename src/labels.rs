//! The cache of labels: field names and enum tags, each held once.
use vstd::prelude::*;

verus! {

/// The FNV-1a hash of a label's UTF-8 bytes.
pub uninterp spec fn fnv_hash_of(s: Seq<char>) -> u64;

/// Relies on fnv::FnvHasher: its default state and `write` give a hash that
/// depends on the bytes written alone.
#[verifier::external_body]
fn label_hash(s: &str) -> (r: u64)
    ensures
        r == fnv_hash_of(s@),
{
    let mut h = fnv::FnvHasher::default();
    std::hash::Hasher::write(&mut h, s.as_bytes());
    std::hash::Hasher::finish(&h)
}

/// A handle to an interned label: its position in the cache.
pub type Label = usize;

/// Labels interned so far, each once, in the order they were first seen,
/// with the hash of each to skip most comparisons.
pub struct LabelCache {
    names: Vec<String>,
    hashes: Vec<u64>,
}

/// The cache's entries after interning `l` into `s`, and the handle returned.
pub open spec fn interned(s: Seq<Seq<char>>, l: Seq<char>) -> (Seq<Seq<char>>, int) {
    if s.contains(l) {
        (s, s.index_of(l))
    } else {
        (s.push(l), s.len() as int)
    }
}

impl LabelCache {
    pub closed spec fn view(&self) -> Seq<Seq<char>> {
        self.names@.map_values(|n: String| n@)
    }

    pub closed spec fn wf(&self) -> bool {
        &&& self.names.len() == self.hashes.len()
        &&& forall|i: int| 0 <= i < self.names.len() ==> self.hashes[i] == fnv_hash_of(#[trigger] self.names[i]@)
        &&& self@.no_duplicates()
    }

    /// An empty cache.
    pub fn new() -> (r: LabelCache)
        ensures
            r.wf(),
            r@ == Seq::<Seq<char>>::empty(),
    {
        let r = LabelCache { names: Vec::new(), hashes: Vec::new() };
        assert(r@ =~= Seq::<Seq<char>>::empty());
        r
    }

    /// The number of labels held.
    pub fn len(&self) -> (r: usize)
        requires
            self.wf(),
        ensures
            r == self@.len(),
    {
        self.names.len()
    }

    /// The text of the label with handle `i`.
    pub fn text(&self, i: Label) -> (r: &String)
        requires
            self.wf(),
            i < self@.len(),
        ensures
            r@ == self@[i as int],
    {
        &self.names[i]
    }

    /// The handle of `label`, added to the cache if it is not there yet.
    pub fn intern(&mut self, label: &str) -> (r: Label)
        requires
            old(self).wf(),
        ensures
            final(self).wf(),
            (final(self)@, r as int) == interned(old(self)@, label@),
    {
        let h = label_hash(label);
        let owned = label.to_owned();
        let n = self.names.len();
        let mut i: usize = 0;
        while i < n
            invariant
                self.wf(),
                n == self.names.len(),
                i <= n,
                h == fnv_hash_of(label@),
                owned@ == label@,
                forall|j: int| 0 <= j < i ==> self@[j] != label@,
            decreases n - i,
        {
            if self.hashes[i] == h && self.names[i] == owned {
                assert(self@[i as int] == label@);
                assert(self@.is_prefix_of(self@));
                proof {
                    let s = self@;
                    assert(s.contains(label@));
                    let k = s.index_of(label@);
                    assert(s[k] == label@);
                    assert(k == i) by {
                        if k != i {
                            assert(s.no_duplicates());
                        }
                    }
                }
                return i;
            }
            proof {
                assert(self@[i as int] == self.names[i as int]@);
                if self.hashes[i as int] != h {
                    assert(self.names[i as int]@ != label@);
                }
            }
            i = i + 1;
        }
        assert(!self@.contains(label@));
        let ghost before = self@;
        self.names.push(owned);
        self.hashes.push(h);
        assert(self@ =~= before.push(label@));
        assert(before.is_prefix_of(self@)) by {
            assert(self@.subrange(0, before.len() as int) =~= before);
        }
        proof {
            assert forall|a: int, b: int| 0 <= a < self@.len() && 0 <= b < self@.len() && a != b
                implies self@[a] != self@[b] by {
                if a < before.len() && b < before.len() {
                    assert(before.no_duplicates());
                } else if a == before.len() {
                    assert(self@[b] == before[b]);
                } else {
                    assert(self@[a] == before[a]);
                }
            }
        }
        n
    }
}

/// Interning a label a second time returns the same handle and leaves the
/// cache as the first call left it.
pub proof fn lemma_intern_stable(s: Seq<Seq<char>>, l: Seq<char>)
    requires
        s.no_duplicates(),
    ensures
        interned(interned(s, l).0, l) == interned(s, l),
        interned(s, l).0[interned(s, l).1] == l,
{
    let (t, k) = interned(s, l);
    assert(t.contains(l)) by {
        assert(t[k] == l);
    }
    let j = t.index_of(l);
    assert(t[j] == l);
    if !s.contains(l) {
        assert(t.no_duplicates()) by {
            assert forall|a: int, b: int| 0 <= a < t.len() && 0 <= b < t.len() && a != b
                implies t[a] != t[b] by {
                if a < s.len() && b < s.len() {
                    assert(t[a] == s[a] && t[b] == s[b]);
                } else if a == s.len() {
                    assert(t[b] == s[b]);
                } else {
                    assert(t[a] == s[a]);
                }
            }
        }
    }
}

} // verus!

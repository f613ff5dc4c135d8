//! Deduplicating remapper from opaque resource handles to dense indices.
//!
//! Handles (face ids, image resource ids) arrive in layout order, possibly
//! repeated.  The remapper assigns each distinct handle the next free index
//! `0, 1, 2, ...` in first-seen order and keeps that assignment stable for
//! its lifetime.

use vstd::prelude::*;

use crate::Error;

verus! {

/// The sequence that results from registering `k` after the keys `s`:
/// a key already present changes nothing, a fresh key is appended.
pub open spec fn insert_key(s: Seq<u64>, k: u64) -> Seq<u64> {
    if s.contains(k) {
        s
    } else {
        s.push(k)
    }
}

/// Index of the first occurrence of `k` in `s` (meaningful when `s`
/// contains `k`).
pub open spec fn key_index(s: Seq<u64>, k: u64) -> int
    decreases s.len(),
{
    if s.len() == 0 {
        0
    } else if s[0] == k {
        0
    } else {
        1 + key_index(s.drop_first(), k)
    }
}

/// No key occurs twice.
pub open spec fn distinct_keys(s: Seq<u64>) -> bool {
    forall|i: int, j: int| 0 <= i < j < s.len() ==> s[i] != s[j]
}

/// Law: a contained key's index is dense — it lies in `[0, len)` and picks
/// that key out of the sequence.
pub proof fn lemma_key_index_in_range(s: Seq<u64>, k: u64)
    requires
        s.contains(k),
    ensures
        0 <= key_index(s, k) < s.len(),
        s[key_index(s, k)] == k,
    decreases s.len(),
{
    if s.len() > 0 && s[0] != k {
        assert(s.drop_first().contains(k)) by {
            let i = choose|i: int| 0 <= i < s.len() && s[i] == k;
            assert(s.drop_first()[i - 1] == k);
        }
        lemma_key_index_in_range(s.drop_first(), k);
    }
}

/// Law: re-inserting a seen key changes neither the key sequence nor the
/// distinct count.
pub proof fn lemma_reinsert_is_noop(s: Seq<u64>, k: u64)
    requires
        s.contains(k),
    ensures
        insert_key(s, k) == s,
{
}

/// Law: an index, once assigned, is stable under every later insertion.
pub proof fn lemma_key_index_stable(s: Seq<u64>, later: u64, k: u64)
    requires
        s.contains(k),
    ensures
        insert_key(s, later).contains(k),
        key_index(insert_key(s, later), k) == key_index(s, k),
    decreases s.len(),
{
    lemma_key_index_in_range(s, k);
    if !s.contains(later) {
        let t = s.push(later);
        assert(t[key_index(s, k)] == k);
        lemma_key_index_push(s, later, k);
    }
}

/// Index of a key contained in `s` is unchanged by pushing another key.
pub proof fn lemma_key_index_push(s: Seq<u64>, last: u64, k: u64)
    requires
        s.contains(k),
    ensures
        key_index(s.push(last), k) == key_index(s, k),
    decreases s.len(),
{
    let t = s.push(last);
    if s[0] == k {
    } else {
        assert(s.drop_first().contains(k)) by {
            let i = choose|i: int| 0 <= i < s.len() && s[i] == k;
            assert(s.drop_first()[i - 1] == k);
        }
        lemma_key_index_push(s.drop_first(), last, k);
        assert(t.drop_first() =~= s.drop_first().push(last));
    }
}

/// Law: inserting keeps existing keys distinct and appends a fresh key at
/// index `len`.
pub proof fn lemma_insert_fresh(s: Seq<u64>, k: u64)
    requires
        distinct_keys(s),
        !s.contains(k),
    ensures
        distinct_keys(insert_key(s, k)),
        insert_key(s, k).contains(k),
        key_index(insert_key(s, k), k) == s.len(),
    decreases s.len(),
{
    let t = s.push(k);
    assert(t[s.len() as int] == k);
    assert(forall|i: int, j: int| 0 <= i < j < t.len() ==> t[i] != t[j]) by {
        assert(forall|i: int| 0 <= i < s.len() ==> t[i] == s[i]);
    }
    if s.len() == 0 {
    } else {
        assert(!s.drop_first().contains(k)) by {
            if s.drop_first().contains(k) {
                let i = choose|i: int| 0 <= i < s.drop_first().len() && s.drop_first()[i] == k;
                assert(s[i + 1] == k);
            }
        }
        assert(forall|i: int, j: int|
            0 <= i < j < s.drop_first().len() ==> s.drop_first()[i] != s.drop_first()[j]) by {
            assert(forall|i: int| 0 <= i < s.drop_first().len() ==> s.drop_first()[i] == s[i + 1]);
        }
        lemma_insert_fresh(s.drop_first(), k);
        assert(t.drop_first() =~= s.drop_first().push(k));
    }
}

/// Assigns dense, consecutive indices to resource handles in first-seen
/// order.  The view is the sequence of distinct handles, position = index.
pub struct Remapper {
    /// Backwards from dense indices to the original handles, in insertion
    /// order.
    to_layout: Vec<u64>,
}

impl View for Remapper {
    type V = Seq<u64>;

    closed spec fn view(&self) -> Seq<u64> {
        self.to_layout@
    }
}

impl Remapper {
    /// Every handle holds one index: the view has no repeats.
    pub open spec fn wf(&self) -> bool {
        distinct_keys(self@)
    }

    pub fn new() -> (r: Remapper)
        ensures
            r@ == Seq::<u64>::empty(),
            r.wf(),
    {
        Remapper { to_layout: Vec::new() }
    }

    /// Number of distinct handles registered so far.
    pub fn len(&self) -> (r: usize)
        ensures
            r == self@.len(),
    {
        self.to_layout.len()
    }

    /// Whether `key` was registered.
    pub fn contains(&self, key: u64) -> (r: bool)
        ensures
            r == self@.contains(key),
    {
        let n = self.to_layout.len();
        let mut i: usize = 0;
        while i < n
            invariant
                0 <= i <= n,
                n == self@.len(),
                forall|j: int| 0 <= j < i ==> self@[j] != key,
            decreases n - i,
        {
            if self.to_layout[i] == key {
                assert(self@[i as int] == key);
                return true;
            }
            i += 1;
        }
        false
    }

    /// Registers `key` if unseen; a repeated insertion is a no-op.
    pub fn insert(&mut self, key: u64)
        requires
            old(self).wf(),
        ensures
            final(self).wf(),
            final(self)@ == insert_key(old(self)@, key),
    {
        if !self.contains(key) {
            proof {
                lemma_insert_fresh(self@, key);
            }
            self.to_layout.push(key);
        }
    }

    /// Dense index of `key`; `UnknownResource` if it was never inserted.
    pub fn map(&self, key: u64) -> (r: Result<usize, Error>)
        ensures
            match r {
                Ok(i) => self@.contains(key) && i == key_index(self@, key),
                Err(e) => !self@.contains(key) && e == Error::UnknownResource,
            },
    {
        let n = self.to_layout.len();
        let mut i: usize = 0;
        proof {
            assert(self@.skip(0) =~= self@);
        }
        while i < n
            invariant
                0 <= i <= n,
                n == self@.len(),
                forall|j: int| 0 <= j < i ==> self@[j] != key,
                key_index(self@.skip(i as int), key) + i == key_index(self@, key),
            decreases n - i,
        {
            if self.to_layout[i] == key {
                assert(self@[i as int] == key);
                assert(self@.skip(i as int)[0] == key);
                return Ok(i);
            }
            proof {
                assert(self@.skip(i as int).drop_first() =~= self@.skip(i + 1));
                assert(self@.skip(i as int)[0] == self@[i as int]);
            }
            i += 1;
        }
        Err(Error::UnknownResource)
    }

    /// The dense index space, in order: `0, 1, ..., len - 1`.
    pub fn pdf_indices(&self) -> (r: Vec<usize>)
        ensures
            r@.len() == self@.len(),
            forall|i: int| 0 <= i < r@.len() ==> r@[i] == i,
    {
        let n = self.to_layout.len();
        let mut out: Vec<usize> = Vec::new();
        let mut i: usize = 0;
        while i < n
            invariant
                0 <= i <= n,
                out@.len() == i,
                forall|j: int| 0 <= j < i ==> out@[j] == j,
            decreases n - i,
        {
            out.push(i);
            i += 1;
        }
        out
    }

    /// The registered handles, in insertion order (index `i` holds the
    /// handle mapped to `i`).
    pub fn layout_indices(&self) -> (r: Vec<u64>)
        ensures
            r@ == self@,
    {
        let n = self.to_layout.len();
        let mut out: Vec<u64> = Vec::new();
        let mut i: usize = 0;
        while i < n
            invariant
                0 <= i <= n,
                n == self@.len(),
                out@ =~= self@.take(i as int),
            decreases n - i,
        {
            out.push(self.to_layout[i]);
            i += 1;
        }
        proof {
            assert(out@ =~= self@);
        }
        out
    }
}

} // verus!

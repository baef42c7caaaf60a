//! The filter itself: construction, insertion and membership queries.
use bit_vec::BitVec;
use vstd::prelude::*;

use crate::bits::{bitvec_from_elem, bitvec_get, bitvec_len, bitvec_set, bits_of};
use crate::hashing::{probe, probe_index};

verus! {

/// True when probe `i` of `key`, for some `i < k`, lands on bit `j` of an
/// array of `m` bits.
pub open spec fn marks(key: Seq<char>, k: nat, m: nat, j: int) -> bool {
    exists|i: nat| i < k && probe_index(key, i, m) == j
}

/// The bits after inserting `key` with `k` probes: every bit that was set,
/// and every bit that a probe of `key` lands on.
pub open spec fn inserted(bits: Seq<bool>, k: nat, key: Seq<char>) -> Seq<bool> {
    Seq::new(bits.len(), |j: int| bits[j] || marks(key, k, bits.len(), j))
}

/// The bits after inserting each of `keys`, first to last.
pub open spec fn inserted_all(bits: Seq<bool>, k: nat, keys: Seq<Seq<char>>) -> Seq<bool>
    decreases keys.len(),
{
    if keys.len() == 0 {
        bits
    } else {
        inserted(inserted_all(bits, k, keys.drop_last()), k, keys.last())
    }
}

/// The answer to a membership query for `key` with `k` probes: every bit
/// that a probe of `key` lands on is set.
pub open spec fn may_contain(bits: Seq<bool>, k: nat, key: Seq<char>) -> bool {
    forall|i: nat| i < k ==> #[trigger] bits[probe_index(key, i, bits.len()) as int]
}

/// Why a filter could not be built.
#[derive(Debug, Clone, Copy, PartialEq, Eq)]
pub enum BloomError {
    /// The bit count or the probe count was zero.
    InvalidConfiguration,
}

/// A Bloom filter: a fixed-length bit array and a number of probes per key.
pub struct BloomFilter {
    bits: BitVec,
    hash_count: usize,
}

impl BloomFilter {
    /// The state of the bit array, in index order.
    pub closed spec fn bits(&self) -> Seq<bool> {
        bits_of(self.bits)
    }

    /// The number of probes made per key.
    pub closed spec fn hash_count(&self) -> nat {
        self.hash_count as nat
    }

    /// A usable filter: at least one bit and at least one probe.
    pub open spec fn wf(&self) -> bool {
        &&& 0 < self.bits().len() <= usize::MAX
        &&& 0 < self.hash_count() <= usize::MAX
    }

    /// Builds a filter of `size` bits, all unset, probing `hash_count`
    /// positions per key. A zero `size` or `hash_count` is refused.
    pub fn new(size: usize, hash_count: usize) -> (r: Result<BloomFilter, BloomError>)
        ensures
            r is Ok <==> (size > 0 && hash_count > 0),
            r matches Ok(f) ==> {
                &&& f.wf()
                &&& f.bits() == Seq::new(size as nat, |j: int| false)
                &&& f.hash_count() == hash_count
            },
            r matches Err(e) ==> e == BloomError::InvalidConfiguration,
    {
        if size == 0 || hash_count == 0 {
            return Err(BloomError::InvalidConfiguration);
        }
        Ok(BloomFilter { bits: bitvec_from_elem(size, false), hash_count })
    }

    /// Records `item`: sets the bit of each of its probes.
    pub fn insert(&mut self, item: &str)
        requires
            old(self).wf(),
        ensures
            final(self).wf(),
            final(self).hash_count() == old(self).hash_count(),
            final(self).bits() == inserted(old(self).bits(), old(self).hash_count(), item@),
    {
        let m = bitvec_len(&self.bits);
        let ghost start = self.bits();
        let mut i: usize = 0;
        while i < self.hash_count
            invariant
                self.hash_count == old(self).hash_count,
                start == old(self).bits(),
                m == start.len(),
                self.bits().len() == m,
                0 < m,
                i <= self.hash_count,
                forall|j: int|
                    0 <= j < m ==> #[trigger] self.bits()[j] == (start[j] || marks(
                        item@,
                        i as nat,
                        m as nat,
                        j,
                    )),
            decreases self.hash_count - i,
        {
            let index = probe(item, i, m);
            let ghost before = self.bits();
            bitvec_set(&mut self.bits, index, true);
            assert forall|j: int| 0 <= j < m implies #[trigger] self.bits()[j] == (start[j] || marks(
                item@,
                (i + 1) as nat,
                m as nat,
                j,
            )) by {
                if j == index {
                    assert(probe_index(item@, i as nat, m as nat) == j);
                } else if marks(item@, (i + 1) as nat, m as nat, j) {
                    let w = choose|w: nat| w < i + 1 && probe_index(item@, w, m as nat) == j;
                    assert(w < i);
                }
            }
            i = i + 1;
        }
        assert(self.bits() =~= inserted(start, self.hash_count as nat, item@));
    }

    /// Answers whether `item` may have been inserted: true exactly when the
    /// bit of each of its probes is set. Never false for an inserted item.
    pub fn has(&self, item: &str) -> (r: bool)
        requires
            self.wf(),
        ensures
            r == may_contain(self.bits(), self.hash_count(), item@),
    {
        let m = bitvec_len(&self.bits);
        let mut i: usize = 0;
        while i < self.hash_count
            invariant
                self.wf(),
                m == self.bits().len(),
                i <= self.hash_count,
                forall|t: nat|
                    t < i ==> #[trigger] self.bits()[probe_index(item@, t, m as nat) as int],
            decreases self.hash_count - i,
        {
            let index = probe(item, i, m);
            if let Some(true) = bitvec_get(&self.bits, index) {
            } else {
                return false;
            }
            i = i + 1;
        }
        true
    }
}

} // verus!

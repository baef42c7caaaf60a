//! Laws of the filter over any sequence of operations, stated over the
//! models that `BloomFilter::insert` and `BloomFilter::has` are specified by.
use vstd::prelude::*;

use crate::filter::{inserted, inserted_all, marks, may_contain};
use crate::hashing::probe_index;

verus! {

/// A key just inserted is found: after `insert(x)`, `has(x)` is true.
pub proof fn lemma_inserted_key_found(bits: Seq<bool>, k: nat, x: Seq<char>)
    requires
        bits.len() > 0,
    ensures
        may_contain(inserted(bits, k, x), k, x),
{
    let m = bits.len();
    assert forall|i: nat| i < k implies #[trigger] inserted(bits, k, x)[probe_index(
        x,
        i,
        m,
    ) as int] by {
        assert(marks(x, k, m, probe_index(x, i, m) as int));
    }
}

/// Inserting a key clears no bit and keeps the length, so a query that
/// answered true still answers true.
pub proof fn lemma_insert_monotone(bits: Seq<bool>, k: nat, x: Seq<char>, y: Seq<char>)
    requires
        bits.len() > 0,
    ensures
        inserted(bits, k, x).len() == bits.len(),
        forall|j: int| 0 <= j < bits.len() && bits[j] ==> #[trigger] inserted(bits, k, x)[j],
        may_contain(bits, k, y) ==> may_contain(inserted(bits, k, x), k, y),
{
    let after = inserted(bits, k, x);
    if may_contain(bits, k, y) {
        assert forall|i: nat| i < k implies #[trigger] after[probe_index(
            y,
            i,
            after.len(),
        ) as int] by {
            assert(probe_index(y, i, bits.len()) < bits.len());
            assert(bits[probe_index(y, i, bits.len()) as int]);
        }
    }
}

/// Monotonicity over a filter's lifetime: after any sequence of insertions
/// no set bit has been cleared, and every query that answered true still
/// answers true.
pub proof fn lemma_monotone(bits: Seq<bool>, k: nat, keys: Seq<Seq<char>>, y: Seq<char>)
    requires
        bits.len() > 0,
    ensures
        inserted_all(bits, k, keys).len() == bits.len(),
        forall|j: int|
            0 <= j < bits.len() && bits[j] ==> #[trigger] inserted_all(bits, k, keys)[j],
        may_contain(bits, k, y) ==> may_contain(inserted_all(bits, k, keys), k, y),
    decreases keys.len(),
{
    if keys.len() > 0 {
        let prev = inserted_all(bits, k, keys.drop_last());
        lemma_monotone(bits, k, keys.drop_last(), y);
        lemma_insert_monotone(prev, k, keys.last(), y);
        assert forall|j: int| 0 <= j < bits.len() && bits[j] implies #[trigger] inserted_all(
            bits,
            k,
            keys,
        )[j] by {
            assert(prev[j]);
        }
    }
}

/// No false negatives: a key inserted into a filter is found, however many
/// other keys are inserted after it.
pub proof fn lemma_no_false_negatives(
    bits: Seq<bool>,
    k: nat,
    x: Seq<char>,
    later: Seq<Seq<char>>,
)
    requires
        bits.len() > 0,
    ensures
        may_contain(inserted_all(inserted(bits, k, x), k, later), k, x),
{
    lemma_inserted_key_found(bits, k, x);
    lemma_monotone(inserted(bits, k, x), k, later, x);
}

/// Determinism: the bits after a sequence of insertions are those that were
/// set, together with those that a probe of some inserted key lands on. They
/// depend on the starting bits, the probe count and the keys alone, so two
/// filters built with the same size and probe count and fed the same keys
/// hold the same bits.
pub proof fn lemma_deterministic(bits: Seq<bool>, k: nat, keys: Seq<Seq<char>>)
    ensures
        inserted_all(bits, k, keys) == Seq::new(
            bits.len(),
            |j: int| bits[j] || exists|t: int| 0 <= t < keys.len() && marks(#[trigger] keys[t], k, bits.len(), j),
        ),
    decreases keys.len(),
{
    let m = bits.len();
    let closed_form = Seq::new(
        m,
        |j: int| bits[j] || exists|t: int| 0 <= t < keys.len() && marks(#[trigger] keys[t], k, m, j),
    );
    if keys.len() == 0 {
        assert(inserted_all(bits, k, keys) =~= closed_form);
    } else {
        let init = keys.drop_last();
        lemma_deterministic(bits, k, init);
        assert forall|j: int| 0 <= j < m implies #[trigger] inserted_all(bits, k, keys)[j]
            == closed_form[j] by {
            if exists|t: int| 0 <= t < keys.len() && marks(#[trigger] keys[t], k, m, j) {
                let t = choose|t: int| 0 <= t < keys.len() && marks(#[trigger] keys[t], k, m, j);
                if t < init.len() {
                    assert(init[t] == keys[t]);
                }
            }
            if exists|t: int| 0 <= t < init.len() && marks(#[trigger] init[t], k, m, j) {
                let t = choose|t: int| 0 <= t < init.len() && marks(#[trigger] init[t], k, m, j);
                assert(keys[t] == init[t]);
            }
            if marks(keys.last(), k, m, j) {
                assert(keys[keys.len() - 1] == keys.last());
            }
        }
        assert(inserted_all(bits, k, keys) =~= closed_form);
    }
}

/// Inserting a key a second time changes nothing.
pub proof fn lemma_insert_idempotent(bits: Seq<bool>, k: nat, x: Seq<char>)
    ensures
        inserted(inserted(bits, k, x), k, x) == inserted(bits, k, x),
{
    assert(inserted(inserted(bits, k, x), k, x) =~= inserted(bits, k, x));
}

/// Inserting a key any positive number of times leaves the same bits as
/// inserting it once.
pub proof fn lemma_insert_repeated(bits: Seq<bool>, k: nat, x: Seq<char>, n: nat)
    requires
        n > 0,
    ensures
        inserted_all(bits, k, Seq::new(n, |t: int| x)) == inserted(bits, k, x),
    decreases n,
{
    let keys = Seq::new(n, |t: int| x);
    assert(keys.last() == x);
    if n > 1 {
        assert(keys.drop_last() =~= Seq::new((n - 1) as nat, |t: int| x));
        lemma_insert_repeated(bits, k, x, (n - 1) as nat);
        lemma_insert_idempotent(bits, k, x);
    } else {
        assert(keys.drop_last() =~= Seq::<Seq<char>>::empty());
        assert(inserted_all(bits, k, keys.drop_last()) == bits);
    }
}

} // verus!

//! The engine's laws: properties of the eviction model proved once and for
//! all, relating the spec-level queue transformations that the contracts in
//! `cache` are stated over.

use vstd::prelude::*;

use crate::model::{
    bump_freq, bump_freq_times, decay_item, freqs_bounded, has_key, insert_result,
    lemma_run_main_eviction_keys, lemma_run_main_eviction_props, lemma_run_small_eviction_keys,
    lemma_run_small_eviction_props, run_main_eviction,
    run_small_eviction, Item, MAX_FREQ,
};

verus! {

/// Saturation: however often a resident entry is hit, three or more
/// saturating increments pin its frequency at the maximum.
pub proof fn frequency_saturates(f: u8, n: nat)
    requires
        3 <= n,
    ensures
        bump_freq_times(f, n) == MAX_FREQ,
    decreases n,
{
    if n > 3 {
        frequency_saturates(f, (n - 1) as nat);
    } else {
        reveal_with_fuel(bump_freq_times, 4);
        assert(bump_freq_times(f, 3) == bump_freq(bump_freq(bump_freq(f))));
    }
}

/// Second chance: a tail entry scanned by the main eviction scan with
/// pre-scan frequency above 1 survives — it sits at the head, key and
/// value intact, frequency decremented by exactly one — and the scan goes
/// on over the re-formed queue.  One with pre-scan frequency at most 1 is
/// removed permanently: the scan stops there, exactly one slot is freed,
/// and no key is recorded anywhere (the ghost queue is no part of this
/// scan).
pub proof fn main_eviction_second_chance<V>(main: Seq<Item<V>>)
    requires
        main.len() > 0,
    ensures
        ({
            let t = main.last();
            let survived = seq![decay_item(t)] + main.drop_last();
            &&& t.freq <= 1 ==> run_main_eviction(main) == main.drop_last()
            &&& t.freq <= 1 ==> run_main_eviction(main).len() == main.len() - 1
            &&& t.freq > 1 ==> run_main_eviction(main) == run_main_eviction(survived)
            &&& t.freq > 1 ==> survived[0].key == t.key && survived[0].value == t.value
                && survived[0].freq == t.freq - 1
        }),
{
}

/// Promotion: when the small queue overflows, a popped tail entry with
/// frequency above 1 is moved — key, value and frequency intact, never to
/// the ghost queue — to the head of the main queue, a main eviction scan
/// having first freed one slot whenever that queue is at capacity, and the
/// cascade continues with the next tail.  The first popped entry with
/// frequency at most 1 ends the cascade instead: its bare key goes to the
/// head of the ghost queue, its value is dropped, exactly one small-queue
/// slot is freed, and no further entry is examined — the remaining small
/// queue is exactly what lay before the popped tail.
pub proof fn small_eviction_promotion<V>(
    small: Seq<Item<V>>,
    main: Seq<Item<V>>,
    tombstones: Seq<u64>,
    cap_main: nat,
)
    requires
        small.len() > 0,
        freqs_bounded(main),
        1 <= cap_main,
    ensures
        ({
            let t = small.last();
            let roomy = if main.len() == cap_main {
                run_main_eviction(main)
            } else {
                main
            };
            &&& t.freq > 1 ==> run_small_eviction(small, main, tombstones, cap_main)
                == run_small_eviction(small.drop_last(), seq![t] + roomy, tombstones, cap_main)
            &&& t.freq > 1 ==> (seq![t] + roomy)[0] == t
            &&& (t.freq > 1 && main.len() == cap_main) ==> roomy.len() == cap_main - 1
            &&& t.freq <= 1 ==> run_small_eviction(small, main, tombstones, cap_main) == (
            small.drop_last(),
            main,
            seq![t.key] + tombstones,
            )
            &&& t.freq <= 1 ==> run_small_eviction(small, main, tombstones, cap_main).0.len()
                == small.len() - 1
        }),
{
    if main.len() == cap_main {
        lemma_run_main_eviction_props(main);
    }
}

/// Reuse: inserting a non-resident key that has a ghost-queue tombstone
/// admits the new entry directly at the head of the main queue with
/// frequency zero, and never into the small queue.
pub proof fn reuse_admits_to_main<V>(
    small: Seq<Item<V>>,
    main: Seq<Item<V>>,
    tombstones: Seq<u64>,
    cap_small: nat,
    cap_main: nat,
    key: u64,
    value: V,
)
    requires
        tombstones.contains(key),
        !has_key(small, key),
        !has_key(main, key),
        freqs_bounded(small),
        freqs_bounded(main),
        1 <= cap_main,
    ensures
        ({
            let r = insert_result(small, main, tombstones, cap_small, cap_main, key, value);
            &&& 0 < r.1.len()
            &&& r.1[0] == (Item { key, value, freq: 0u8 })
            &&& !has_key(r.0, key)
        }),
{
    let drained = if small.len() == cap_small {
        run_small_eviction(small, main, tombstones, cap_main)
    } else {
        (small, main, tombstones)
    };
    if small.len() == cap_small {
        lemma_run_small_eviction_props(small, main, tombstones, cap_main);
    }
    assert(drained.2.contains(key));
    assert(!has_key(drained.0, key)) by {
        if has_key(drained.0, key) {
            let i = choose|i: int| 0 <= i < drained.0.len() && drained.0[i].key == key;
            assert(drained.0[i] == small[i]);
            assert(has_key(small, key));
        }
    }
}

/// Containment: an insertion admits its own key and nothing else.  Any
/// other key resident after the insertion was already resident before it —
/// so a key that is never inserted is never resident, and looking it up
/// misses without mutating anything (see the miss case of `S3Fifo::get`).
pub proof fn insert_admits_only_its_key<V>(
    small: Seq<Item<V>>,
    main: Seq<Item<V>>,
    tombstones: Seq<u64>,
    cap_small: nat,
    cap_main: nat,
    key: u64,
    value: V,
    other: u64,
)
    requires
        other != key,
        freqs_bounded(small),
        freqs_bounded(main),
        1 <= cap_main,
        ({
            let r = insert_result(small, main, tombstones, cap_small, cap_main, key, value);
            has_key(r.0, other) || has_key(r.1, other)
        }),
    ensures
        has_key(small, other) || has_key(main, other),
{
    let drained = if small.len() == cap_small {
        run_small_eviction(small, main, tombstones, cap_main)
    } else {
        (small, main, tombstones)
    };
    let r = insert_result(small, main, tombstones, cap_small, cap_main, key, value);
    let fresh = Item { key, value, freq: 0u8 };
    assert(has_key(drained.0, other) || has_key(drained.1, other)) by {
        if drained.2.contains(key) {
            let roomy = if drained.1.len() == cap_main {
                run_main_eviction(drained.1)
            } else {
                drained.1
            };
            assert(r.0 == drained.0 && r.1 == seq![fresh] + roomy);
            if has_key(r.1, other) {
                let i = choose|i: int| 0 <= i < r.1.len() && r.1[i].key == other;
                assert(roomy[i - 1].key == other);
                if drained.1.len() == cap_main {
                    lemma_run_main_eviction_keys(drained.1, other);
                }
            }
        } else {
            assert(r.0 == seq![fresh] + drained.0 && r.1 == drained.1);
            if has_key(r.0, other) {
                let i = choose|i: int| 0 <= i < r.0.len() && r.0[i].key == other;
                assert(drained.0[i - 1].key == other);
            }
        }
    }
    if small.len() == cap_small {
        if has_key(drained.0, other) {
            lemma_run_small_eviction_props(small, main, tombstones, cap_main);
            let i = choose|i: int| 0 <= i < drained.0.len() && drained.0[i].key == other;
            assert(drained.0[i] == small[i]);
        } else {
            lemma_run_small_eviction_keys(small, main, tombstones, cap_main, other);
        }
    }
}

/// Capacity: an insertion keeps the main queue within its capacity on
/// every path — a tombstone readmission into a full main queue makes room
/// with a main eviction scan first.  Together with the small-queue bound of
/// `S3Fifo::wf`, both queue bounds hold at every observable point.
pub proof fn main_capacity_after_insert<V>(
    small: Seq<Item<V>>,
    main: Seq<Item<V>>,
    tombstones: Seq<u64>,
    cap_small: nat,
    cap_main: nat,
    key: u64,
    value: V,
)
    requires
        main.len() <= cap_main,
        freqs_bounded(small),
        freqs_bounded(main),
        1 <= cap_main,
    ensures
        insert_result(small, main, tombstones, cap_small, cap_main, key, value).1.len()
            <= cap_main,
{
    let drained = if small.len() == cap_small {
        run_small_eviction(small, main, tombstones, cap_main)
    } else {
        (small, main, tombstones)
    };
    if small.len() == cap_small {
        lemma_run_small_eviction_props(small, main, tombstones, cap_main);
    }
    if drained.2.contains(key) && drained.1.len() == cap_main {
        lemma_run_main_eviction_props(drained.1);
    }
}

} // verus!

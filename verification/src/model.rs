//! The mathematical model of the engine: cache entries, the saturating
//! frequency counter, and the queue transformations performed by the two
//! eviction scans, written as recursive functions over sequences.

use vstd::prelude::*;

verus! {

/// Largest value the per-entry frequency counter can reach; increments
/// saturate here and decrements saturate at zero.
pub const MAX_FREQ: u8 = 3;

/// A cache entry: a key, its value, and a small saturating frequency
/// counter estimating how recently the entry has been used.
pub struct Item<V> {
    pub key: u64,
    pub value: V,
    pub freq: u8,
}

impl<V> Item<V> {
    /// A freshly admitted entry starts with frequency zero.
    pub fn new(key: u64, value: V) -> (item: Self)
        ensures
            item.key == key,
            item.value == value,
            item.freq == 0,
    {
        Item { key, value, freq: 0 }
    }
}

/// One saturating increment of a frequency counter, as performed on a hit.
pub open spec fn bump_freq(f: u8) -> u8 {
    if f < MAX_FREQ {
        (f + 1) as u8
    } else {
        MAX_FREQ
    }
}

/// `n` saturating increments in a row.
pub open spec fn bump_freq_times(f: u8, n: nat) -> u8
    decreases n,
{
    if n == 0 {
        f
    } else {
        bump_freq(bump_freq_times(f, (n - 1) as nat))
    }
}

/// One saturating decrement of a frequency counter, as performed by the
/// main queue's eviction scan.
pub open spec fn decay_freq(f: u8) -> u8 {
    if f >= 1 {
        (f - 1) as u8
    } else {
        0
    }
}

/// The same entry with its frequency bumped.
pub open spec fn bump_item<V>(t: Item<V>) -> Item<V> {
    Item { key: t.key, value: t.value, freq: bump_freq(t.freq) }
}

/// The same entry with its frequency decayed.
pub open spec fn decay_item<V>(t: Item<V>) -> Item<V> {
    Item { key: t.key, value: t.value, freq: decay_freq(t.freq) }
}

/// Every entry's frequency is within the counter's range.
pub open spec fn freqs_bounded<V>(s: Seq<Item<V>>) -> bool {
    forall|i: int| 0 <= i < s.len() ==> (#[trigger] s[i]).freq <= MAX_FREQ
}

/// Some entry of the queue carries this key.
pub open spec fn has_key<V>(s: Seq<Item<V>>, key: u64) -> bool {
    exists|i: int| 0 <= i < s.len() && (#[trigger] s[i]).key == key
}

/// The position of the first entry carrying this key; meaningful only when
/// `has_key(s, key)` holds.
pub open spec fn first_index<V>(s: Seq<Item<V>>, key: u64) -> int
    decreases s.len(),
{
    if s.len() == 0 {
        0
    } else if s[0].key == key {
        0
    } else {
        1 + first_index(s.drop_first(), key)
    }
}

/// The sum of all frequency counters in a queue; the termination measure of
/// the main queue's eviction scan.
pub open spec fn sum_freq<V>(s: Seq<Item<V>>) -> nat
    decreases s.len(),
{
    if s.len() == 0 {
        0
    } else {
        s[0].freq as nat + sum_freq(s.drop_first())
    }
}

pub proof fn lemma_sum_freq_cons<V>(x: Item<V>, s: Seq<Item<V>>)
    ensures
        sum_freq(seq![x] + s) == x.freq + sum_freq(s),
{
    let c = seq![x] + s;
    assert(c[0] == x);
    assert(c.drop_first() =~= s);
}

pub proof fn lemma_sum_freq_drop_last<V>(s: Seq<Item<V>>)
    requires
        s.len() > 0,
    ensures
        sum_freq(s) == sum_freq(s.drop_last()) + s.last().freq,
    decreases s.len(),
{
    if s.len() == 1 {
        assert(s.drop_first() =~= Seq::<Item<V>>::empty());
        assert(s.drop_last() =~= Seq::<Item<V>>::empty());
    } else {
        lemma_sum_freq_drop_last(s.drop_first());
        assert(s.drop_first().drop_last() =~= s.drop_last().drop_first());
        assert(s.drop_first().last() == s.last());
        assert(s.drop_last()[0] == s[0]);
        assert(s.drop_last().len() > 0);
    }
}

pub proof fn lemma_cons_contains<T>(x: T, s: Seq<T>, k: T)
    requires
        s.contains(k),
    ensures
        (seq![x] + s).contains(k),
{
    let i = choose|i: int| 0 <= i < s.len() && s[i] == k;
    assert((seq![x] + s)[i + 1] == k);
}

/// Connects an executable first-match scan to `first_index`: a position
/// holding the key, with no earlier match, is the first index.
pub proof fn lemma_first_index_of<V>(s: Seq<Item<V>>, key: u64, i: int)
    requires
        0 <= i < s.len(),
        s[i].key == key,
        forall|j: int| 0 <= j < i ==> s[j].key != key,
    ensures
        has_key(s, key),
        first_index(s, key) == i,
    decreases i,
{
    assert(has_key(s, key)) by {
        assert(s[i].key == key);
    }
    if i > 0 {
        let rest = s.drop_first();
        assert(rest[i - 1] == s[i]);
        assert(forall|j: int| 0 <= j < i - 1 ==> rest[j] == s[j + 1]);
        lemma_first_index_of(rest, key, i - 1);
    }
}

/// The main queue's eviction scan.  The tail entry is popped and its
/// frequency is decremented, saturating at zero.  An entry whose decremented
/// frequency is still positive is given a second chance: it is pushed back
/// at the head and the scan continues.  The first entry whose decremented
/// frequency reaches zero is dropped permanently and the scan stops.
pub open spec fn run_main_eviction<V>(main: Seq<Item<V>>) -> Seq<Item<V>>
    decreases sum_freq(main),
    via run_main_eviction_decreases::<V>
{
    if main.len() == 0 {
        main
    } else {
        let t = main.last();
        if t.freq > 1 {
            run_main_eviction(seq![decay_item(t)] + main.drop_last())
        } else {
            main.drop_last()
        }
    }
}

#[via_fn]
proof fn run_main_eviction_decreases<V>(main: Seq<Item<V>>) {
    if main.len() > 0 {
        let t = main.last();
        if t.freq > 1 {
            lemma_sum_freq_cons(decay_item(t), main.drop_last());
            lemma_sum_freq_drop_last(main);
        }
    }
}

/// The small queue's eviction cascade, run when the small queue overflows.
/// Entries are popped from the tail.  One with frequency above 1 is
/// promoted: it moves to the head of the main queue (after a main eviction
/// scan if the main queue is exactly at capacity) and the popping continues.
/// The first popped entry with frequency at most 1 is demoted instead: its
/// value is dropped, its bare key is pushed onto the head of the ghost
/// queue, and the cascade stops.  Returns the new small queue, main queue,
/// and ghost queue, in that order.
pub open spec fn run_small_eviction<V>(
    small: Seq<Item<V>>,
    main: Seq<Item<V>>,
    tombstones: Seq<u64>,
    cap_main: nat,
) -> (Seq<Item<V>>, Seq<Item<V>>, Seq<u64>)
    decreases small.len(),
{
    if small.len() == 0 {
        (small, main, tombstones)
    } else {
        let t = small.last();
        if t.freq > 1 {
            let roomy = if main.len() == cap_main {
                run_main_eviction(main)
            } else {
                main
            };
            run_small_eviction(small.drop_last(), seq![t] + roomy, tombstones, cap_main)
        } else {
            (small.drop_last(), main, seq![t.key] + tombstones)
        }
    }
}

/// The three queues after an insertion: the small queue is drained first if
/// it is at capacity, and the new entry is then admitted at the head of the
/// main queue when its key has a ghost-queue tombstone, at the head of the
/// small queue otherwise, with frequency zero either way.  A tombstone-hit
/// admission into a main queue that is at capacity runs a main eviction
/// scan first, so the main queue never outgrows its bound; the tombstone
/// itself is not purged.
pub open spec fn insert_result<V>(
    small: Seq<Item<V>>,
    main: Seq<Item<V>>,
    tombstones: Seq<u64>,
    cap_small: nat,
    cap_main: nat,
    key: u64,
    value: V,
) -> (Seq<Item<V>>, Seq<Item<V>>, Seq<u64>) {
    let drained = if small.len() == cap_small {
        run_small_eviction(small, main, tombstones, cap_main)
    } else {
        (small, main, tombstones)
    };
    let fresh = Item { key, value, freq: 0u8 };
    if drained.2.contains(key) {
        let roomy = if drained.1.len() == cap_main {
            run_main_eviction(drained.1)
        } else {
            drained.1
        };
        (drained.0, seq![fresh] + roomy, drained.2)
    } else {
        (seq![fresh] + drained.0, drained.1, drained.2)
    }
}

/// What one main eviction scan does to the queue's shape: it frees exactly
/// one slot of a non-empty queue, and it keeps every frequency within the
/// counter's range.
pub proof fn lemma_run_main_eviction_props<V>(main: Seq<Item<V>>)
    requires
        freqs_bounded(main),
    ensures
        main.len() == 0 ==> run_main_eviction(main) == main,
        main.len() > 0 ==> run_main_eviction(main).len() == main.len() - 1,
        freqs_bounded(run_main_eviction(main)),
    decreases sum_freq(main),
{
    if main.len() > 0 {
        let t = main.last();
        if t.freq > 1 {
            let again = seq![decay_item(t)] + main.drop_last();
            assert(freqs_bounded(again)) by {
                assert(forall|i: int|
                    0 < i < again.len() ==> again[i] == #[trigger] main.drop_last()[i - 1]);
            }
            lemma_sum_freq_cons(decay_item(t), main.drop_last());
            lemma_sum_freq_drop_last(main);
            lemma_run_main_eviction_props(again);
        } else {
            assert(freqs_bounded(main.drop_last()));
        }
    }
}

/// What one small-queue eviction cascade does to the three queues' shapes:
/// the small queue shrinks and what is left of it is a prefix of what it
/// held, a main queue within its capacity stays within it, frequencies stay
/// within range, and no ghost-queue tombstone is lost.
pub proof fn lemma_run_small_eviction_props<V>(
    small: Seq<Item<V>>,
    main: Seq<Item<V>>,
    tombstones: Seq<u64>,
    cap_main: nat,
)
    requires
        freqs_bounded(small),
        freqs_bounded(main),
        1 <= cap_main,
    ensures
        ({
            let r = run_small_eviction(small, main, tombstones, cap_main);
            &&& r.0.len() <= small.len()
            &&& small.len() > 0 ==> r.0.len() < small.len()
            &&& forall|i: int| 0 <= i < r.0.len() ==> r.0[i] == small[i]
            &&& main.len() <= cap_main ==> r.1.len() <= cap_main
            &&& freqs_bounded(r.0)
            &&& freqs_bounded(r.1)
            &&& forall|k: u64| tombstones.contains(k) ==> #[trigger] r.2.contains(k)
        }),
    decreases small.len(),
{
    if small.len() > 0 {
        let t = small.last();
        let rest = small.drop_last();
        assert(freqs_bounded(rest));
        if t.freq > 1 {
            let roomy = if main.len() == cap_main {
                run_main_eviction(main)
            } else {
                main
            };
            lemma_run_main_eviction_props(main);
            let pushed = seq![t] + roomy;
            assert(freqs_bounded(pushed)) by {
                assert(forall|i: int| 0 < i < pushed.len() ==> pushed[i] == #[trigger] roomy[i - 1]);
            }
            lemma_run_small_eviction_props(rest, pushed, tombstones, cap_main);
            let r = run_small_eviction(small, main, tombstones, cap_main);
            assert forall|i: int| 0 <= i < r.0.len() implies r.0[i] == small[i] by {
                assert(r.0[i] == rest[i]);
            }
        } else {
            assert(forall|k: u64|
                tombstones.contains(k) ==> #[trigger] (seq![t.key] + tombstones).contains(k)) by {
                assert forall|k: u64|
                    tombstones.contains(k) implies #[trigger] (seq![t.key]
                    + tombstones).contains(k) by {
                    lemma_cons_contains(t.key, tombstones, k);
                }
            }
        }
    }
}

/// A main eviction scan invents no keys: whatever key the scanned queue
/// ends up holding, it already held.
pub proof fn lemma_run_main_eviction_keys<V>(main: Seq<Item<V>>, key: u64)
    requires
        has_key(run_main_eviction(main), key),
    ensures
        has_key(main, key),
    decreases sum_freq(main),
{
    if main.len() > 0 {
        let t = main.last();
        if t.freq > 1 {
            let again = seq![decay_item(t)] + main.drop_last();
            lemma_sum_freq_cons(decay_item(t), main.drop_last());
            lemma_sum_freq_drop_last(main);
            lemma_run_main_eviction_keys(again, key);
            let i = choose|i: int| 0 <= i < again.len() && again[i].key == key;
            if i == 0 {
                assert(main.last().key == key);
            } else {
                assert(main[i - 1].key == key);
            }
        } else {
            let i = choose|i: int|
                0 <= i < main.drop_last().len() && main.drop_last()[i].key == key;
            assert(main[i].key == key);
        }
    }
}

/// A small-queue eviction cascade invents no keys either: every key the
/// resulting main queue holds came from the small or the main queue.
pub proof fn lemma_run_small_eviction_keys<V>(
    small: Seq<Item<V>>,
    main: Seq<Item<V>>,
    tombstones: Seq<u64>,
    cap_main: nat,
    key: u64,
)
    requires
        has_key(run_small_eviction(small, main, tombstones, cap_main).1, key),
    ensures
        has_key(small, key) || has_key(main, key),
    decreases small.len(),
{
    if small.len() == 0 {
    } else {
        let t = small.last();
        let rest = small.drop_last();
        if t.freq > 1 {
            let roomy = if main.len() == cap_main {
                run_main_eviction(main)
            } else {
                main
            };
            let pushed = seq![t] + roomy;
            lemma_run_small_eviction_keys(rest, pushed, tombstones, cap_main, key);
            if has_key(rest, key) {
                let i = choose|i: int| 0 <= i < rest.len() && rest[i].key == key;
                assert(small[i].key == key);
            } else if has_key(pushed, key) {
                let i = choose|i: int| 0 <= i < pushed.len() && pushed[i].key == key;
                if i == 0 {
                    assert(small.last().key == key);
                } else {
                    assert(roomy[i - 1].key == key);
                    if main.len() == cap_main {
                        lemma_run_main_eviction_keys(main, key);
                    }
                }
            }
        }
    }
}

} // verus!

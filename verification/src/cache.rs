//! The cache engine itself: the three queues and the public operations
//! `with_capacity`, `get`, `insert`, and `len`.

use std::collections::VecDeque;
use vstd::pervasive::unreached;
use vstd::prelude::*;

use crate::model::{
    bump_item, decay_item, first_index, freqs_bounded, has_key, insert_result,
    lemma_first_index_of, lemma_run_main_eviction_props, lemma_run_small_eviction_props,
    lemma_sum_freq_cons, lemma_sum_freq_drop_last, run_main_eviction, run_small_eviction,
    sum_freq, Item, MAX_FREQ,
};

verus! {

/// An S3-FIFO cache: a small admission queue, a main retention queue, and a
/// ghost queue holding the bare keys most recently demoted from the small
/// queue.  The two capacity fields are the bounds fixed at construction.
pub struct S3Fifo<V> {
    pub small: VecDeque<Item<V>>,
    pub main: VecDeque<Item<V>>,
    pub tombstones: VecDeque<u64>,
    pub cap_small: usize,
    pub cap_main: usize,
}

impl<V> S3Fifo<V> {
    /// Well-formedness: both capacities are usable, their sum fits the
    /// machine, each queue respects its bound, and every stored frequency
    /// is within the counter's range.  Every operation preserves this, so
    /// `|Small| <= cap_small` and `|Main| <= cap_main` hold at every
    /// observable point.
    pub open spec fn wf(&self) -> bool {
        &&& 1 <= self.cap_small
        &&& 1 <= self.cap_main
        &&& self.cap_small + self.cap_main <= usize::MAX
        &&& self.small@.len() <= self.cap_small
        &&& self.main@.len() <= self.cap_main
        &&& freqs_bounded(self.small@)
        &&& freqs_bounded(self.main@)
    }

    /// Builds an empty cache, splitting the capacity budget roughly 1:9
    /// between the small and main queues; the ghost queue is sized to match
    /// the main queue.  Budgets below ten are ruled out: they would leave
    /// one of the queues with no capacity at all, for which no behaviour is
    /// defined.
    pub fn with_capacity(capacity: usize) -> (cache: Self)
        requires
            10 <= capacity,
        ensures
            cache.wf(),
            cache.cap_small == capacity / 10,
            cache.cap_main == capacity / 10 * 9,
            cache.small@ == Seq::<Item<V>>::empty(),
            cache.main@ == Seq::<Item<V>>::empty(),
            cache.tombstones@ == Seq::<u64>::empty(),
    {
        let unit: usize = capacity / 10;
        proof {
            assert(unit * 10 <= capacity && 1 <= unit) by (nonlinear_arith)
                requires
                    unit == capacity / 10,
                    10 <= capacity,
            ;
        }
        let nine: usize = unit * 9;
        Self {
            small: VecDeque::with_capacity(unit),
            main: VecDeque::with_capacity(nine),
            tombstones: VecDeque::with_capacity(nine),
            cap_small: unit,
            cap_main: nine,
        }
    }

    /// One main-queue eviction scan: pops tail entries, decaying each
    /// frequency, re-inserting survivors at the head, until one entry's
    /// frequency reaches zero and is dropped, freeing exactly one slot.
    fn evict_main(&mut self)
        requires
            freqs_bounded(old(self).main@),
        ensures
            final(self).main@ == run_main_eviction(old(self).main@),
            freqs_bounded(final(self).main@),
            old(self).main@.len() > 0 ==> final(self).main@.len() == old(self).main@.len() - 1,
            final(self).small == old(self).small,
            final(self).tombstones == old(self).tombstones,
            final(self).cap_small == old(self).cap_small,
            final(self).cap_main == old(self).cap_main,
    {
        let ghost orig = *self;
        loop
            invariant_except_break
                run_main_eviction(self.main@) == run_main_eviction(orig.main@),
            invariant
                freqs_bounded(self.main@),
                self.small == orig.small,
                self.tombstones == orig.tombstones,
                self.cap_small == orig.cap_small,
                self.cap_main == orig.cap_main,
            ensures
                self.main@ == run_main_eviction(orig.main@),
                freqs_bounded(self.main@),
                self.small == orig.small,
                self.tombstones == orig.tombstones,
                self.cap_small == orig.cap_small,
                self.cap_main == orig.cap_main,
            decreases sum_freq(self.main@),
        {
            let ghost pre = self.main@;
            match self.main.pop_back() {
                None => {
                    break ;
                },
                Some(scanned) => {
                    let mut scanned = scanned;
                    let decayed: u8 = if scanned.freq >= 1 {
                        scanned.freq - 1
                    } else {
                        0
                    };
                    proof {
                        assert(scanned == pre.last());
                        assert(self.main@ =~= pre.drop_last());
                    }
                    if decayed > 0 {
                        scanned.freq = decayed;
                        self.main.push_front(scanned);
                        proof {
                            assert(scanned == decay_item(pre.last()));
                            assert(self.main@ == seq![decay_item(pre.last())] + pre.drop_last());
                            lemma_sum_freq_cons(decay_item(pre.last()), pre.drop_last());
                            lemma_sum_freq_drop_last(pre);
                        }
                    } else {
                        break ;
                    }
                },
            }
        }
        proof {
            lemma_run_main_eviction_props(orig.main@);
        }
    }

    /// One small-queue eviction cascade: promotes popped tail entries with
    /// frequency above 1 to the head of the main queue (scanning the main
    /// queue first whenever it is at capacity), and stops at the first
    /// popped entry with frequency at most 1, whose bare key is demoted to
    /// the head of the ghost queue.
    fn evict_small(&mut self)
        requires
            freqs_bounded(old(self).small@),
            freqs_bounded(old(self).main@),
            1 <= old(self).cap_main,
        ensures
            ({
                let r = run_small_eviction(
                    old(self).small@,
                    old(self).main@,
                    old(self).tombstones@,
                    old(self).cap_main as nat,
                );
                &&& final(self).small@ == r.0
                &&& final(self).main@ == r.1
                &&& final(self).tombstones@ == r.2
            }),
            freqs_bounded(final(self).small@),
            freqs_bounded(final(self).main@),
            final(self).cap_small == old(self).cap_small,
            final(self).cap_main == old(self).cap_main,
    {
        let ghost orig = *self;
        loop
            invariant_except_break
                run_small_eviction(self.small@, self.main@, self.tombstones@, self.cap_main as nat)
                    == run_small_eviction(
                    orig.small@,
                    orig.main@,
                    orig.tombstones@,
                    orig.cap_main as nat,
                ),
            invariant
                freqs_bounded(self.small@),
                freqs_bounded(self.main@),
                self.cap_small == orig.cap_small,
                self.cap_main == orig.cap_main,
                1 <= self.cap_main,
            ensures
                ({
                    let r = run_small_eviction(
                        orig.small@,
                        orig.main@,
                        orig.tombstones@,
                        orig.cap_main as nat,
                    );
                    &&& self.small@ == r.0
                    &&& self.main@ == r.1
                    &&& self.tombstones@ == r.2
                }),
                freqs_bounded(self.small@),
                freqs_bounded(self.main@),
                self.cap_small == orig.cap_small,
                self.cap_main == orig.cap_main,
            decreases self.small@.len(),
        {
            let ghost pre = *self;
            match self.small.pop_back() {
                None => {
                    break ;
                },
                Some(tail) => {
                    proof {
                        assert(tail == pre.small@.last());
                        assert(self.small@ =~= pre.small@.drop_last());
                    }
                    if tail.freq > 1 {
                        if self.main.len() == self.cap_main {
                            self.evict_main();
                        }
                        self.main.push_front(tail);
                        proof {
                            assert(freqs_bounded(self.main@)) by {
                                assert(forall|i: int|
                                    0 < i < self.main@.len() ==> self.main@[i]
                                        == #[trigger] self.main@.drop_first()[i - 1]);
                                assert(self.main@.drop_first() =~= self.main@.subrange(
                                    1,
                                    self.main@.len() as int,
                                ));
                            }
                        }
                    } else {
                        self.tombstones.push_front(tail.key);
                        break ;
                    }
                },
            }
        }
    }

    /// Linear scan of the ghost queue for a tombstone of this key.
    fn tombstone_hit(&self, key: u64) -> (hit: bool)
        ensures
            hit == self.tombstones@.contains(key),
    {
        let mut i: usize = 0;
        while i < self.tombstones.len()
            invariant
                i <= self.tombstones@.len(),
                forall|j: int| 0 <= j < i ==> self.tombstones@[j] != key,
            decreases self.tombstones@.len() - i,
        {
            if self.tombstones[i] == key {
                proof {
                    assert(self.tombstones@[i as int] == key);
                }
                return true;
            }
            i = i + 1;
        }
        false
    }

    /// Inserts a key that is not resident in the small or main queue.  If
    /// the small queue is at capacity it is drained first.  A key with a
    /// ghost-queue tombstone is admitted directly at the head of the main
    /// queue — after a main eviction scan whenever the main queue is at
    /// capacity, so that its bound is kept — and any other key at the head
    /// of the small queue, with frequency zero either way; the tombstone,
    /// if any, is not purged.
    pub fn insert(&mut self, key: u64, value: V)
        requires
            old(self).wf(),
            !has_key(old(self).small@, key),
            !has_key(old(self).main@, key),
        ensures
            final(self).wf(),
            ({
                let r = insert_result(
                    old(self).small@,
                    old(self).main@,
                    old(self).tombstones@,
                    old(self).cap_small as nat,
                    old(self).cap_main as nat,
                    key,
                    value,
                );
                &&& final(self).small@ == r.0
                &&& final(self).main@ == r.1
                &&& final(self).tombstones@ == r.2
            }),
            final(self).cap_small == old(self).cap_small,
            final(self).cap_main == old(self).cap_main,
    {
        let ghost orig = *self;
        if self.small.len() == self.cap_small {
            self.evict_small();
            proof {
                lemma_run_small_eviction_props(
                    orig.small@,
                    orig.main@,
                    orig.tombstones@,
                    orig.cap_main as nat,
                );
            }
        }
        let hit = self.tombstone_hit(key);
        let fresh = Item::new(key, value);
        proof {
            assert(fresh == (Item { key, value, freq: 0u8 }));
        }
        if hit {
            if self.main.len() == self.cap_main {
                self.evict_main();
            }
            self.main.push_front(fresh);
        } else {
            self.small.push_front(fresh);
        }
        proof {
            assert(freqs_bounded(self.small@) && freqs_bounded(self.main@)) by {
                assert(forall|s: Seq<Item<V>>, i: int|
                    0 < i < (seq![fresh] + s).len() ==> (seq![fresh] + s)[i] == #[trigger] s[i
                        - 1]);
            }
        }
    }

    /// Looks the key up by a linear scan of the small queue and then the
    /// main queue.  On a hit, the first matching entry's frequency is
    /// bumped by one, saturating at the maximum, and a reference to its
    /// value is returned; queue order, every other entry, and the ghost
    /// queue are untouched.  On a miss nothing at all is mutated.
    pub fn get(&mut self, key: u64) -> (found: Option<&V>)
        requires
            old(self).wf(),
        ensures
            final(self).wf(),
            final(self).tombstones@ == old(self).tombstones@,
            final(self).cap_small == old(self).cap_small,
            final(self).cap_main == old(self).cap_main,
            final(self).small@.len() == old(self).small@.len(),
            final(self).main@.len() == old(self).main@.len(),
            match found {
                None => {
                    &&& !has_key(old(self).small@, key)
                    &&& !has_key(old(self).main@, key)
                    &&& *final(self) == *old(self)
                },
                Some(value) => {
                    if has_key(old(self).small@, key) {
                        let i = first_index(old(self).small@, key);
                        &&& *value == old(self).small@[i].value
                        &&& final(self).small@ == old(self).small@.update(
                            i,
                            bump_item(old(self).small@[i]),
                        )
                        &&& final(self).main@ == old(self).main@
                    } else {
                        let i = first_index(old(self).main@, key);
                        &&& has_key(old(self).main@, key)
                        &&& *value == old(self).main@[i].value
                        &&& final(self).main@ == old(self).main@.update(
                            i,
                            bump_item(old(self).main@[i]),
                        )
                        &&& final(self).small@ == old(self).small@
                    }
                },
            },
    {
        let mut i: usize = 0;
        while i < self.small.len()
            invariant
                *self == *old(self),
                old(self).wf(),
                i <= self.small@.len(),
                forall|j: int| 0 <= j < i ==> self.small@[j].key != key,
            decreases self.small@.len() - i,
        {
            if self.small[i].key == key {
                proof {
                    lemma_first_index_of(self.small@, key, i as int);
                }
                let mut item = match self.small.remove(i) {
                    Some(item) => item,
                    None => unreached(),
                };
                item.freq = if item.freq < MAX_FREQ {
                    item.freq + 1
                } else {
                    MAX_FREQ
                };
                self.small.insert(i, item);
                proof {
                    assert(item == bump_item(old(self).small@[i as int]));
                    assert(self.small@ =~= old(self).small@.update(i as int, item));
                }
                return Some(&self.small[i].value);
            }
            i = i + 1;
        }
        let mut i: usize = 0;
        while i < self.main.len()
            invariant
                *self == *old(self),
                old(self).wf(),
                !has_key(old(self).small@, key),
                i <= self.main@.len(),
                forall|j: int| 0 <= j < i ==> self.main@[j].key != key,
            decreases self.main@.len() - i,
        {
            if self.main[i].key == key {
                proof {
                    lemma_first_index_of(self.main@, key, i as int);
                }
                let mut item = match self.main.remove(i) {
                    Some(item) => item,
                    None => unreached(),
                };
                item.freq = if item.freq < MAX_FREQ {
                    item.freq + 1
                } else {
                    MAX_FREQ
                };
                self.main.insert(i, item);
                proof {
                    assert(item == bump_item(old(self).main@[i as int]));
                    assert(self.main@ =~= old(self).main@.update(i as int, item));
                }
                return Some(&self.main[i].value);
            }
            i = i + 1;
        }
        None
    }

    /// The number of live entries: the small and main queues together.
    /// The ghost queue holds no values and is not counted.
    pub fn len(&self) -> (count: usize)
        requires
            self.small@.len() + self.main@.len() <= usize::MAX,
        ensures
            count == self.small@.len() + self.main@.len(),
    {
        self.small.len() + self.main.len()
    }
}

} // verus!


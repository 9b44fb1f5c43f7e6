use s3fifo::S3Fifo;

#[test]
fn empty_cache_has_no_entries() {
    let mut cache: S3Fifo<i32> = S3Fifo::with_capacity(10);
    assert_eq!(cache.len(), 0);
    assert_eq!(cache.get(1), None);
    assert_eq!(cache.len(), 0);
}

#[test]
fn miss_on_never_inserted_key_mutates_nothing() {
    let mut cache: S3Fifo<i32> = S3Fifo::with_capacity(20);
    cache.insert(1, 10);
    cache.insert(2, 20);
    assert_eq!(cache.get(99), None);
    assert_eq!(cache.len(), 2);
    assert_eq!(cache.get(1), Some(&10));
    assert_eq!(cache.get(2), Some(&20));
}

#[test]
fn len_counts_small_and_main_queues() {
    // capacity 20: small holds 2, main holds 18.
    let mut cache: S3Fifo<i32> = S3Fifo::with_capacity(20);
    cache.insert(1, 10);
    assert_eq!(cache.len(), 1);
    cache.insert(2, 20);
    assert_eq!(cache.len(), 2);
    // A third insert overflows the small queue; key 1 has frequency 0 and is
    // demoted to the ghost queue, so the live count stays at 2.
    cache.insert(3, 30);
    assert_eq!(cache.len(), 2);
    assert_eq!(cache.get(1), None);
    assert_eq!(cache.get(2), Some(&20));
    assert_eq!(cache.get(3), Some(&30));
}

#[test]
fn smaller_budget_means_smaller_small_queue() {
    // capacity 10: small holds exactly 1 entry, so the second insert
    // already demotes the first.
    let mut cache: S3Fifo<i32> = S3Fifo::with_capacity(10);
    cache.insert(1, 10);
    cache.insert(2, 20);
    assert_eq!(cache.len(), 1);
    assert_eq!(cache.get(1), None);
    assert_eq!(cache.get(2), Some(&20));
}

#[test]
fn repeated_hits_saturate_and_keep_entry_promotable() {
    let mut cache: S3Fifo<i32> = S3Fifo::with_capacity(10);
    cache.insert(1, 10);
    for _ in 0..10 {
        assert_eq!(cache.get(1), Some(&10));
    }
    // Frequency is pinned at 3, far above the promotion threshold: the
    // small-queue overflow promotes key 1 into the main queue.
    cache.insert(2, 20);
    assert_eq!(cache.len(), 2);
    assert_eq!(cache.get(1), Some(&10));
    assert_eq!(cache.get(2), Some(&20));
}

#[test]
fn overflow_promotes_reused_entry_to_main() {
    let mut cache: S3Fifo<i32> = S3Fifo::with_capacity(10);
    cache.insert(1, 10);
    // Two hits lift the frequency to 2, above the promotion threshold.
    assert_eq!(cache.get(1), Some(&10));
    assert_eq!(cache.get(1), Some(&10));
    cache.insert(2, 20);
    assert_eq!(cache.len(), 2);
    assert_eq!(cache.get(1), Some(&10));
}

#[test]
fn overflow_demotes_barely_used_entry_to_ghost() {
    let mut cache: S3Fifo<i32> = S3Fifo::with_capacity(10);
    cache.insert(1, 10);
    // A single hit leaves the frequency at 1, not enough for promotion.
    assert_eq!(cache.get(1), Some(&10));
    cache.insert(2, 20);
    assert_eq!(cache.len(), 1);
    assert_eq!(cache.get(1), None);
    assert_eq!(cache.get(2), Some(&20));
}

#[test]
fn ghost_hit_readmits_key_straight_to_main() {
    // capacity 10: small capacity 1, main capacity 9.  Insert key 1, then
    // key 2: key 1 is evicted from the small queue with frequency 0 and its
    // bare key is pushed to the ghost queue.
    let mut cache: S3Fifo<i32> = S3Fifo::with_capacity(10);
    cache.insert(1, 10);
    cache.insert(2, 20);
    assert_eq!(cache.get(1), None);
    // Re-inserting key 1 finds its tombstone and admits it directly into
    // the main queue; the displaced key 2 is demoted.
    cache.insert(1, 11);
    assert_eq!(cache.len(), 1);
    assert_eq!(cache.get(1), Some(&11));
    // Key 1 must sit in the main queue, not the small queue: two further
    // inserts churn the small queue completely, yet key 1 survives.
    cache.insert(3, 30);
    cache.insert(4, 40);
    assert_eq!(cache.get(3), None);
    assert_eq!(cache.get(1), Some(&11));
    assert_eq!(cache.get(4), Some(&40));
}

#[test]
fn main_eviction_gives_second_chances_until_frequency_runs_out() {
    // capacity 10: small capacity 1, main capacity 9.  Promote keys 1..=10
    // into the main queue by giving each two hits before the next insert
    // displaces it from the small queue.
    let mut cache: S3Fifo<i32> = S3Fifo::with_capacity(10);
    for k in 1..=10u64 {
        cache.insert(k, k as i32 * 10);
        assert_eq!(cache.get(k), Some(&(k as i32 * 10)));
        assert_eq!(cache.get(k), Some(&(k as i32 * 10)));
    }
    // Keys 1..=9 fill the main queue (each with frequency 2) and key 10
    // waits in the small queue.
    assert_eq!(cache.len(), 10);
    // Promoting key 10 forces a main-queue scan: every entry survives one
    // decrement (second chance), then key 1 — scanned again at frequency
    // 1 — is dropped for good.
    cache.insert(11, 110);
    assert_eq!(cache.len(), 10);
    assert_eq!(cache.get(1), None);
    for k in 2..=10u64 {
        assert_eq!(cache.get(k), Some(&(k as i32 * 10)));
    }
    assert_eq!(cache.get(11), Some(&110));
}

#[test]
fn values_follow_their_keys() {
    let mut cache: S3Fifo<String> = S3Fifo::with_capacity(30);
    cache.insert(5, String::from("five"));
    cache.insert(7, String::from("seven"));
    assert_eq!(cache.get(5).map(String::as_str), Some("five"));
    assert_eq!(cache.get(7).map(String::as_str), Some("seven"));
    assert_eq!(cache.get(6), None);
}

#[test]
fn queue_bounds_hold_over_long_workloads() {
    // capacity 10: at most 1 entry in the small queue and 9 in the main
    // queue, so the live count can never exceed 10.
    let mut cache: S3Fifo<i32> = S3Fifo::with_capacity(10);
    for k in 0..200u64 {
        cache.insert(k, k as i32);
        assert!(cache.len() <= 10);
        // Give every third key reuse so that promotions and main-queue
        // eviction scans all get exercised.
        if k % 3 == 0 {
            cache.get(k);
            cache.get(k);
        }
        assert!(cache.len() <= 10);
    }
}

#[test]
fn ghost_readmission_into_full_main_makes_room_first() {
    // capacity 10: small capacity 1, main capacity 9.  Promote keys 1..=9
    // into the main queue (two hits each, then displaced from the small
    // queue by the next insert), leaving key 10 in the small queue.
    let mut cache: S3Fifo<i32> = S3Fifo::with_capacity(10);
    for k in 1..=9u64 {
        cache.insert(k, k as i32 * 10);
        assert_eq!(cache.get(k), Some(&(k as i32 * 10)));
        assert_eq!(cache.get(k), Some(&(k as i32 * 10)));
    }
    cache.insert(10, 100);
    // Key 10, never hit, is demoted to the ghost queue by the next insert;
    // the main queue stays full at 9 entries.
    cache.insert(11, 110);
    assert_eq!(cache.len(), 10);
    assert_eq!(cache.get(10), None);
    // Re-inserting key 10 hits its tombstone while the main queue is full:
    // a main eviction scan first frees one slot — key 1, the oldest, falls
    // after every entry's second chance — and only then is key 10 admitted
    // at the head, so the bound of 9 still holds.
    cache.insert(10, 101);
    assert_eq!(cache.len(), 9);
    assert_eq!(cache.get(1), None);
    assert_eq!(cache.get(10), Some(&101));
    for k in 2..=9u64 {
        assert_eq!(cache.get(k), Some(&(k as i32 * 10)));
    }
}

//! Reporting each key once: the rule that the polling watchers share.
//!
//! A watcher remembers a set of keys. From each snapshot it reports the items
//! whose key it has not met before, each key once and in snapshot order, and
//! then remembers every key of the snapshot.

use vstd::prelude::*;

verus! {

/// The keys that occur in `items`.
pub open spec fn keys_of<T, K>(items: Seq<T>, key: spec_fn(T) -> K) -> Set<K> {
    Set::new(|k: K| exists|i: int| 0 <= i < items.len() && #[trigger] key(items[i]) == k)
}

/// The items of one snapshot that are reported when `seen` is remembered: an
/// item is reported if its key is neither remembered nor carried by an earlier
/// item of the same snapshot.
pub open spec fn new_items<T, K>(seen: Set<K>, items: Seq<T>, key: spec_fn(T) -> K) -> Seq<T>
    decreases items.len(),
{
    if items.len() == 0 {
        Seq::empty()
    } else {
        let earlier = items.drop_last();
        let reported = new_items(seen, earlier, key);
        let k = key(items.last());
        if seen.contains(k) || keys_of(earlier, key).contains(k) {
            reported
        } else {
            reported.push(items.last())
        }
    }
}

/// How many of `items` carry the key `k`.
pub open spec fn count_key<T, K>(items: Seq<T>, key: spec_fn(T) -> K, k: K) -> nat
    decreases items.len(),
{
    if items.len() == 0 {
        0
    } else {
        count_key(items.drop_last(), key, k) + if key(items.last()) == k {
            1nat
        } else {
            0nat
        }
    }
}

/// What is remembered after the snapshots `cycles` were observed in turn,
/// starting from `seed`.
pub open spec fn seen_after<T, K>(seed: Set<K>, cycles: Seq<Seq<T>>, key: spec_fn(T) -> K) -> Set<K>
    decreases cycles.len(),
{
    if cycles.len() == 0 {
        seed
    } else {
        seen_after(seed, cycles.drop_last(), key).union(keys_of(cycles.last(), key))
    }
}

/// What the cycle with index `c` reports: the new items of its snapshot
/// against what the cycles before it left remembered.
pub open spec fn reported_in_cycle<T, K>(
    seed: Set<K>,
    cycles: Seq<Seq<T>>,
    key: spec_fn(T) -> K,
    c: int,
) -> Seq<T> {
    new_items(seen_after(seed, cycles.take(c), key), cycles[c], key)
}

/// How many items with key `k` are reported over all of `cycles`.
pub open spec fn reports_of_key<T, K>(
    seed: Set<K>,
    cycles: Seq<Seq<T>>,
    key: spec_fn(T) -> K,
    k: K,
) -> nat
    decreases cycles.len(),
{
    if cycles.len() == 0 {
        0
    } else {
        reports_of_key(seed, cycles.drop_last(), key, k) + count_key(
            reported_in_cycle(seed, cycles, key, cycles.len() - 1),
            key,
            k,
        )
    }
}

/// Whether cycle `c` is the first whose snapshot holds the key `k`.
pub open spec fn first_cycle_with<T, K>(
    cycles: Seq<Seq<T>>,
    key: spec_fn(T) -> K,
    k: K,
    c: int,
) -> bool {
    &&& 0 <= c < cycles.len()
    &&& keys_of(cycles[c], key).contains(k)
    &&& forall|b: int| 0 <= b < c ==> !keys_of(#[trigger] cycles[b], key).contains(k)
}

/// Whether any snapshot of `cycles` holds the key `k`.
pub open spec fn occurs_in<T, K>(cycles: Seq<Seq<T>>, key: spec_fn(T) -> K, k: K) -> bool {
    exists|c: int| 0 <= c < cycles.len() && keys_of(#[trigger] cycles[c], key).contains(k)
}

/// Observing one more snapshot adds its keys to what is remembered: a
/// watcher that remembers `seen_after(seed, cycles, key)` and then takes the
/// union with the keys of `next` remembers `seen_after` of the longer run.
pub proof fn lemma_seen_after_next<T, K>(
    seed: Set<K>,
    cycles: Seq<Seq<T>>,
    next: Seq<T>,
    key: spec_fn(T) -> K,
)
    ensures
        seen_after(seed, cycles.push(next), key) == seen_after(seed, cycles, key).union(
            keys_of(next, key),
        ),
        forall|k: K| seen_after(seed, cycles, key).contains(k) ==> seen_after(
            seed,
            cycles.push(next),
            key,
        ).contains(k),
{
    assert(cycles.push(next).drop_last() =~= cycles);
}

/// Extending a snapshot by one item adds that item's key to its keys.
pub proof fn lemma_keys_of_push<T, K>(items: Seq<T>, key: spec_fn(T) -> K)
    requires
        items.len() > 0,
    ensures
        keys_of(items, key) == keys_of(items.drop_last(), key).insert(key(items.last())),
{
    let earlier = items.drop_last();
    assert forall|k: K|
        keys_of(items, key).contains(k) <==> keys_of(earlier, key).insert(
            key(items.last()),
        ).contains(k) by {
        if keys_of(items, key).contains(k) {
            let i = choose|i: int| 0 <= i < items.len() && #[trigger] key(items[i]) == k;
            if i < items.len() - 1 {
                assert(key(earlier[i]) == k);
            }
        }
        if keys_of(earlier, key).contains(k) {
            let i = choose|i: int| 0 <= i < earlier.len() && #[trigger] key(earlier[i]) == k;
            assert(key(items[i]) == k);
        }
        if k == key(items.last()) {
            assert(key(items[items.len() - 1]) == k);
        }
    }
    assert(keys_of(items, key) =~= keys_of(earlier, key).insert(key(items.last())));
}

/// One snapshot reports a key once if the key is in the snapshot and was not
/// remembered, and not at all otherwise.
pub proof fn lemma_new_items_count<T, K>(seen: Set<K>, items: Seq<T>, key: spec_fn(T) -> K, k: K)
    ensures
        count_key(new_items(seen, items, key), key, k) == if !seen.contains(k) && keys_of(
            items,
            key,
        ).contains(k) {
            1nat
        } else {
            0nat
        },
    decreases items.len(),
{
    if items.len() == 0 {
        assert(!keys_of(items, key).contains(k));
    } else {
        let earlier = items.drop_last();
        lemma_new_items_count(seen, earlier, key, k);
        lemma_keys_of_push(items, key);
        let reported = new_items(seen, earlier, key);
        let last_key = key(items.last());
        if !(seen.contains(last_key) || keys_of(earlier, key).contains(last_key)) {
            assert(reported.push(items.last()).drop_last() =~= reported);
            assert(reported.push(items.last()).last() == items.last());
        }
    }
}

/// What is remembered after some cycles: the seed and every key of their
/// snapshots.
pub proof fn lemma_seen_after<T, K>(seed: Set<K>, cycles: Seq<Seq<T>>, key: spec_fn(T) -> K, k: K)
    ensures
        seen_after(seed, cycles, key).contains(k) <==> seed.contains(k) || occurs_in(
            cycles,
            key,
            k,
        ),
    decreases cycles.len(),
{
    if cycles.len() > 0 {
        let earlier = cycles.drop_last();
        lemma_seen_after(seed, earlier, key, k);
        if occurs_in(earlier, key, k) {
            let c = choose|c: int|
                0 <= c < earlier.len() && keys_of(#[trigger] earlier[c], key).contains(k);
            assert(keys_of(cycles[c], key).contains(k));
        }
        if keys_of(cycles.last(), key).contains(k) {
            assert(keys_of(cycles[cycles.len() - 1], key).contains(k));
        }
        if occurs_in(cycles, key, k) {
            let c = choose|c: int|
                0 <= c < cycles.len() && keys_of(#[trigger] cycles[c], key).contains(k);
            if c < cycles.len() - 1 {
                assert(keys_of(earlier[c], key).contains(k));
            }
        }
    }
}

/// A cycle reports the key `k` once if it is the first cycle whose snapshot
/// holds `k` and the seed does not, and otherwise not at all.
pub proof fn lemma_reported_on_first_cycle<T, K>(
    seed: Set<K>,
    cycles: Seq<Seq<T>>,
    key: spec_fn(T) -> K,
    k: K,
    c: int,
)
    requires
        0 <= c < cycles.len(),
    ensures
        count_key(reported_in_cycle(seed, cycles, key, c), key, k) == if !seed.contains(k)
            && first_cycle_with(cycles, key, k, c) {
            1nat
        } else {
            0nat
        },
{
    let before = cycles.take(c);
    lemma_seen_after(seed, before, key, k);
    lemma_new_items_count(seen_after(seed, before, key), cycles[c], key, k);
    if occurs_in(before, key, k) {
        let b = choose|b: int|
            0 <= b < before.len() && keys_of(#[trigger] before[b], key).contains(k);
        assert(keys_of(cycles[b], key).contains(k));
    }
    if !occurs_in(before, key, k) {
        assert forall|b: int| 0 <= b < c implies !keys_of(#[trigger] cycles[b], key).contains(
            k,
        ) by {
            assert(before[b] == cycles[b]);
        }
    }
}

/// Over any run of cycles a key is reported once if some snapshot holds it
/// and the seed does not, and otherwise never.
pub proof fn lemma_reported_once<T, K>(
    seed: Set<K>,
    cycles: Seq<Seq<T>>,
    key: spec_fn(T) -> K,
    k: K,
)
    ensures
        reports_of_key(seed, cycles, key, k) == if !seed.contains(k) && occurs_in(
            cycles,
            key,
            k,
        ) {
            1nat
        } else {
            0nat
        },
    decreases cycles.len(),
{
    if cycles.len() == 0 {
    } else {
        let earlier = cycles.drop_last();
        let c = cycles.len() - 1;
        lemma_reported_once(seed, earlier, key, k);
        lemma_reported_on_first_cycle(seed, cycles, key, k, c);
        assert(cycles.take(c) =~= earlier);
        if occurs_in(earlier, key, k) {
            let b = choose|b: int|
                0 <= b < earlier.len() && keys_of(#[trigger] earlier[b], key).contains(k);
            assert(keys_of(cycles[b], key).contains(k));
        } else {
            assert forall|b: int| 0 <= b < c implies !keys_of(#[trigger] cycles[b], key).contains(
                k,
            ) by {
                assert(earlier[b] == cycles[b]);
            }
            if occurs_in(cycles, key, k) {
                let b = choose|b: int|
                    0 <= b < cycles.len() && keys_of(#[trigger] cycles[b], key).contains(k);
                assert(b == c);
            }
        }
    }
}

} // verus!

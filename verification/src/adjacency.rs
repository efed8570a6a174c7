//! Ordering rows by an integer key: the positions of the rows that have one
//! key, in the order in which they came, and the runs of such positions for
//! the keys of a range, one after the other.

use vstd::prelude::*;

verus! {

/// The positions in `keys` that hold the key `v`, ascending.
pub open spec fn indices_with(keys: Seq<int>, v: int) -> Seq<int>
    decreases keys.len(),
{
    if keys.len() == 0 {
        Seq::empty()
    } else {
        let rest = indices_with(keys.drop_last(), v);
        if keys.last() == v {
            rest.push(keys.len() - 1)
        } else {
            rest
        }
    }
}

/// The positions in `keys` that hold a key in `lo..hi`: first those of the
/// key `lo`, in the order in which they came, then those of `lo + 1`, and so
/// on. This is the order of a stable sort of the rows with a key in the
/// range.
pub open spec fn run_concat(keys: Seq<int>, lo: int, hi: int) -> Seq<int>
    decreases hi - lo,
{
    if hi <= lo {
        Seq::empty()
    } else {
        run_concat(keys, lo, hi - 1) + indices_with(keys, hi - 1)
    }
}

/// The positions of one key are positions of `keys` that hold the key, they
/// ascend, and none is left out.
pub proof fn lemma_indices_with(keys: Seq<int>, v: int)
    ensures
        indices_with(keys, v).len() <= keys.len(),
        forall|t: int|
            0 <= t < indices_with(keys, v).len() ==> 0 <= (#[trigger] indices_with(keys, v)[t])
                < keys.len() && keys[indices_with(keys, v)[t]] == v,
        forall|s: int, t: int|
            0 <= s < t < indices_with(keys, v).len() ==> indices_with(keys, v)[s] < indices_with(
                keys,
                v,
            )[t],
        forall|i: int|
            0 <= i < keys.len() && keys[i] == v ==> indices_with(keys, v).contains(i),
    decreases keys.len(),
{
    if keys.len() > 0 {
        let front = keys.drop_last();
        lemma_indices_with(front, v);
        let rest = indices_with(front, v);
        let all = indices_with(keys, v);
        assert forall|i: int| 0 <= i < keys.len() && keys[i] == v implies all.contains(i) by {
            if i < keys.len() - 1 {
                assert(front[i] == v);
                let t = choose|t: int| 0 <= t < rest.len() && rest[t] == i;
                assert(all[t] == i);
            } else {
                assert(all[all.len() - 1] == i);
            }
        }
    }
}

/// One more key at the end adds its position to the positions of that key
/// and to no others.
pub proof fn lemma_indices_with_push(keys: Seq<int>, key: int, v: int)
    ensures
        indices_with(keys.push(key), v) == if key == v {
            indices_with(keys, v).push(keys.len() as int)
        } else {
            indices_with(keys, v)
        },
{
    assert(keys.push(key).drop_last() =~= keys);
}

/// The runs of a range are the runs of its lower part followed by the runs
/// of its upper part.
pub proof fn lemma_run_concat_split(keys: Seq<int>, lo: int, mid: int, hi: int)
    requires
        lo <= mid <= hi,
    ensures
        run_concat(keys, lo, hi) == run_concat(keys, lo, mid) + run_concat(keys, mid, hi),
    decreases hi - mid,
{
    if hi == mid {
        assert(run_concat(keys, lo, hi) =~= run_concat(keys, lo, mid) + run_concat(keys, mid, hi));
    } else {
        lemma_run_concat_split(keys, lo, mid, hi - 1);
        assert(run_concat(keys, lo, hi) =~= run_concat(keys, lo, mid) + run_concat(keys, mid, hi));
    }
}

/// The position `t` of the run of the key `v` inside the runs of a range
/// that holds `v`: the rows of the smaller keys come before it.
pub proof fn lemma_run_concat_index(keys: Seq<int>, lo: int, hi: int, v: int, t: int)
    requires
        lo <= v < hi,
        0 <= t < indices_with(keys, v).len(),
    ensures
        run_concat(keys, lo, v).len() + t < run_concat(keys, lo, v + 1).len(),
        run_concat(keys, lo, v + 1).len() == run_concat(keys, lo, v).len() + indices_with(
            keys,
            v,
        ).len(),
        run_concat(keys, lo, v + 1).len() <= run_concat(keys, lo, hi).len(),
        run_concat(keys, lo, hi)[run_concat(keys, lo, v).len() + t] == indices_with(keys, v)[t],
{
    lemma_run_concat_split(keys, lo, v + 1, hi);
    assert(run_concat(keys, lo, v + 1) == run_concat(keys, lo, v) + indices_with(keys, v));
}

/// Every position in the runs of a range is a position of `keys`, and its
/// key lies in the range.
pub proof fn lemma_run_concat_keys(keys: Seq<int>, lo: int, hi: int)
    ensures
        forall|t: int|
            0 <= t < run_concat(keys, lo, hi).len() ==> 0 <= (#[trigger] run_concat(
                keys,
                lo,
                hi,
            )[t]) < keys.len() && lo <= keys[run_concat(keys, lo, hi)[t]] < hi,
    decreases hi - lo,
{
    if hi > lo {
        lemma_run_concat_keys(keys, lo, hi - 1);
        lemma_indices_with(keys, hi - 1);
        let a = run_concat(keys, lo, hi - 1);
        let b = indices_with(keys, hi - 1);
        let all = run_concat(keys, lo, hi);
        assert forall|t: int| 0 <= t < all.len() implies 0 <= (#[trigger] all[t]) < keys.len() && lo
            <= keys[all[t]] < hi by {
            if t < a.len() {
                assert(all[t] == a[t]);
            } else {
                assert(all[t] == b[t - a.len()]);
            }
        }
    }
}

/// Where the runs of a range hold the position of a row with the key `v`,
/// that position lies in the run of `v`: at or after the rows of the smaller
/// keys, and before the rows of the larger ones.
pub proof fn lemma_run_concat_locate(keys: Seq<int>, lo: int, hi: int, v: int, t: int)
    requires
        lo <= v < hi,
        0 <= t < run_concat(keys, lo, hi).len(),
        0 <= run_concat(keys, lo, hi)[t] < keys.len(),
        keys[run_concat(keys, lo, hi)[t]] == v,
    ensures
        run_concat(keys, lo, v).len() <= t < run_concat(keys, lo, v + 1).len(),
{
    lemma_run_concat_split(keys, lo, v, hi);
    lemma_run_concat_split(keys, v, v + 1, hi);
    lemma_run_concat_split(keys, lo, v + 1, hi);
    lemma_run_concat_keys(keys, lo, v);
    lemma_run_concat_keys(keys, v + 1, hi);
    let a = run_concat(keys, lo, v);
    let b = run_concat(keys, lo, v + 1);
    let all = run_concat(keys, lo, hi);
    if t < a.len() {
        assert(all[t] == a[t]);
    } else if t >= b.len() {
        let rest = run_concat(keys, v + 1, hi);
        assert(all == b + rest);
        assert(all[t] == rest[t - b.len()]);
    }
}

/// The numbers of a list, as integers.
pub open spec fn ints(items: Seq<usize>) -> Seq<int> {
    items.map_values(|x: usize| x as int)
}

/// Sorts the positions of `keys` into buckets: the bucket `b` gets the
/// positions that hold the key `b`, ascending.
pub(crate) fn distribute(keys: &Vec<usize>, bucket_count: usize) -> (buckets: Vec<Vec<usize>>)
    requires
        forall|i: int| 0 <= i < keys@.len() ==> keys@[i] < bucket_count,
    ensures
        buckets@.len() == bucket_count,
        forall|b: int|
            0 <= b < bucket_count ==> ints((#[trigger] buckets@[b])@) == indices_with(
                ints(keys@),
                b,
            ),
{
    let ghost all = ints(keys@);
    let mut buckets: Vec<Vec<usize>> = Vec::new();
    let mut b: usize = 0;
    while b < bucket_count
        invariant
            0 <= b <= bucket_count,
            buckets@.len() == b,
            forall|k: int| 0 <= k < b ==> (#[trigger] buckets@[k])@.len() == 0,
        decreases bucket_count - b,
    {
        buckets.push(Vec::new());
        b += 1;
    }
    assert(all.take(0) =~= Seq::<int>::empty());
    assert forall|k: int| 0 <= k < bucket_count implies ints((#[trigger] buckets@[k])@)
        == indices_with(all.take(0), k) by {
        assert(ints(buckets@[k]@) =~= Seq::<int>::empty());
    }
    let mut i: usize = 0;
    while i < keys.len()
        invariant
            0 <= i <= keys@.len(),
            all == ints(keys@),
            buckets@.len() == bucket_count,
            forall|j: int| 0 <= j < keys@.len() ==> keys@[j] < bucket_count,
            forall|k: int|
                0 <= k < bucket_count ==> ints((#[trigger] buckets@[k])@) == indices_with(
                    all.take(i as int),
                    k,
                ),
        decreases keys@.len() - i,
    {
        let key = keys[i];
        let ghost before = buckets@;
        buckets[key].push(i);
        proof {
            assert(all.take(i + 1) =~= all.take(i as int).push(key as int));
            assert forall|k: int| 0 <= k < bucket_count implies ints((#[trigger] buckets@[k])@)
                == indices_with(all.take(i + 1), k) by {
                lemma_indices_with_push(all.take(i as int), key as int, k);
                if k == key {
                    assert(ints(buckets@[k]@) =~= ints(before[k]@).push(i as int));
                } else {
                    assert(buckets@[k] == before[k]);
                }
            }
        }
        i += 1;
    }
    assert(all.take(keys@.len() as int) =~= all);
    buckets
}


/// Lays the buckets `lo..hi` one after the other, and notes where each one
/// starts: the entry `t` of the second list is the number of positions in
/// the buckets before `lo + t`, and its last entry the number of all.
pub(crate) fn gather(
    buckets: &Vec<Vec<usize>>,
    lo: usize,
    hi: usize,
    Ghost(keys): Ghost<Seq<int>>,
) -> (r: (Vec<usize>, Vec<u64>))
    requires
        lo <= hi <= buckets@.len(),
        forall|b: int|
            lo <= b < hi ==> ints((#[trigger] buckets@[b])@) == indices_with(keys, b),
    ensures
        ints(r.0@) == run_concat(keys, lo as int, hi as int),
        r.1@.len() == hi - lo + 1,
        forall|t: int|
            0 <= t <= hi - lo ==> (#[trigger] r.1@[t]) == run_concat(keys, lo as int, lo + t).len(),
{
    let mut order: Vec<usize> = Vec::new();
    let mut offsets: Vec<u64> = Vec::new();
    let mut v: usize = lo;
    assert(ints(order@) =~= run_concat(keys, lo as int, lo as int));
    while v < hi
        invariant
            lo <= v <= hi <= buckets@.len(),
            forall|b: int|
                lo <= b < hi ==> ints((#[trigger] buckets@[b])@) == indices_with(keys, b),
            ints(order@) == run_concat(keys, lo as int, v as int),
            offsets@.len() == v - lo,
            forall|t: int|
                0 <= t < v - lo ==> (#[trigger] offsets@[t]) == run_concat(
                    keys,
                    lo as int,
                    lo + t,
                ).len(),
        decreases hi - v,
    {
        offsets.push(order.len() as u64);
        let bucket = &buckets[v];
        let ghost start = ints(order@);
        let mut m: usize = 0;
        assert(ints(order@) =~= start + ints(bucket@).take(0));
        while m < bucket.len()
            invariant
                0 <= m <= bucket@.len(),
                ints(order@) == start + ints(bucket@).take(m as int),
            decreases bucket@.len() - m,
        {
            let ghost before = order@;
            order.push(bucket[m]);
            proof {
                let target = start + ints(bucket@).take(m + 1);
                assert(ints(bucket@).len() == bucket@.len());
                assert(ints(before).len() == before.len());
                assert(ints(bucket@).take(m as int).len() == m);
                assert(ints(order@).len() == target.len());
                assert forall|t: int| 0 <= t < target.len() implies ints(order@)[t] == target[t] by {
                    if t < before.len() {
                        assert(ints(before)[t] == (start + ints(bucket@).take(m as int))[t]);
                    }
                }
                assert(ints(order@) =~= target);
            }
            m += 1;
        }
        assert(ints(bucket@).take(bucket@.len() as int) =~= ints(bucket@));
        v += 1;
    }
    offsets.push(order.len() as u64);
    (order, offsets)
}


/// One more key at the end adds one position to the runs of a range that
/// holds the key, and none to the runs of a range that does not.
pub proof fn lemma_run_concat_push(keys: Seq<int>, key: int, lo: int, hi: int)
    ensures
        run_concat(keys.push(key), lo, hi).len() == run_concat(keys, lo, hi).len() + if lo <= key
            < hi {
            1int
        } else {
            0int
        },
    decreases hi - lo,
{
    if hi > lo {
        lemma_run_concat_push(keys, key, lo, hi - 1);
        lemma_indices_with_push(keys, key, hi - 1);
    }
}

/// The runs of a range hold no more positions than there are keys.
pub proof fn lemma_run_concat_bound(keys: Seq<int>, lo: int, hi: int)
    ensures
        run_concat(keys, lo, hi).len() <= keys.len(),
    decreases keys.len(),
{
    if keys.len() == 0 {
        lemma_run_concat_keys(keys, lo, hi);
        if run_concat(keys, lo, hi).len() > 0 {
            assert(0 <= run_concat(keys, lo, hi)[0] < keys.len());
        }
    } else {
        lemma_run_concat_bound(keys.drop_last(), lo, hi);
        lemma_run_concat_push(keys.drop_last(), keys.last(), lo, hi);
        assert(keys.drop_last().push(keys.last()) =~= keys);
    }
}


/// The runs of a range are a stable sort of the rows with a key in the
/// range: the keys ascend along the runs, and rows of one key stay in the
/// order in which they came.
pub proof fn lemma_run_concat_sorted(keys: Seq<int>, lo: int, hi: int)
    ensures
        forall|a: int, b: int|
            0 <= a < b < run_concat(keys, lo, hi).len() ==> {
                let x = #[trigger] run_concat(keys, lo, hi)[a];
                let y = #[trigger] run_concat(keys, lo, hi)[b];
                keys[x] < keys[y] || (keys[x] == keys[y] && x < y)
            },
    decreases hi - lo,
{
    if hi > lo {
        lemma_run_concat_sorted(keys, lo, hi - 1);
        lemma_run_concat_keys(keys, lo, hi - 1);
        lemma_indices_with(keys, hi - 1);
        let front = run_concat(keys, lo, hi - 1);
        let last = indices_with(keys, hi - 1);
        let all = run_concat(keys, lo, hi);
        assert forall|a: int, b: int| 0 <= a < b < all.len() implies {
            let x = #[trigger] all[a];
            let y = #[trigger] all[b];
            keys[x] < keys[y] || (keys[x] == keys[y] && x < y)
        } by {
            if b < front.len() {
                assert(all[a] == front[a] && all[b] == front[b]);
            } else if a < front.len() {
                assert(all[a] == front[a]);
                assert(all[b] == last[b - front.len()]);
            } else {
                assert(all[a] == last[a - front.len()]);
                assert(all[b] == last[b - front.len()]);
            }
        }
    }
}

/// The runs of a range leave no row out: every position whose key lies in
/// the range stands in the runs.
pub proof fn lemma_run_concat_complete(keys: Seq<int>, lo: int, hi: int, i: int)
    requires
        0 <= i < keys.len(),
        lo <= keys[i] < hi,
    ensures
        run_concat(keys, lo, hi).contains(i),
{
    let v = keys[i];
    lemma_indices_with(keys, v);
    let run = indices_with(keys, v);
    let t = choose|t: int| 0 <= t < run.len() && run[t] == i;
    lemma_run_concat_index(keys, lo, hi, v, t);
    assert(run_concat(keys, lo, hi)[run_concat(keys, lo, v).len() + t] == i);
}

} // verus!

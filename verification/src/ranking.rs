//! Stable rankings of positions by small integer keys: the order in
//! which the engine consults stores and dispatchable plant.
use vstd::prelude::*;
use vstd::set_lib::{lemma_int_range, set_int_range};

verus! {

/// Position `a` ranks before position `b`: lower key first, ties in
/// position order.
pub open spec fn ranked_before(keys: Seq<usize>, a: usize, b: usize) -> bool {
    keys[a as int] < keys[b as int] || (keys[a as int] == keys[b as int] && a < b)
}

/// `ranking` visits every position of `keys` exactly once, in ascending
/// `(key, position)` order: a stable sort of the positions by key.
pub open spec fn is_stable_ranking(keys: Seq<usize>, ranking: Seq<usize>) -> bool {
    &&& ranking.len() == keys.len()
    &&& forall|k: int| 0 <= k < ranking.len() ==> #[trigger] ranking[k] < keys.len()
    &&& forall|a: int, b: int|
        0 <= a < b < ranking.len() ==> ranked_before(keys, #[trigger] ranking[a], #[trigger] ranking[b])
}

/// A sequence of positions below `n` that contains each of them and
/// repeats none has length `n`.
proof fn lemma_covering_sequence_len(sequence: Seq<usize>, n: nat)
    requires
        n <= usize::MAX,
        forall|k: int| 0 <= k < sequence.len() ==> #[trigger] sequence[k] < n,
        forall|j: usize| j < n ==> sequence.contains(j),
        forall|a: int, b: int| 0 <= a < b < sequence.len() ==> #[trigger] sequence[a] != #[trigger] sequence[b],
    ensures
        sequence.len() == n,
{
    let as_int = sequence.map_values(|x: usize| x as int);
    assert(as_int.no_duplicates()) by {
        assert forall|a: int, b: int| 0 <= a < as_int.len() && 0 <= b < as_int.len() && a != b implies as_int[a]
            != as_int[b] by {
            if a < b {
                assert(sequence[a] != sequence[b]);
            } else {
                assert(sequence[b] != sequence[a]);
            }
        }
    }
    as_int.unique_seq_to_set();
    assert(as_int.to_set() =~= set_int_range(0, n as int)) by {
        assert forall|x: int| as_int.to_set().contains(x) implies set_int_range(0, n as int).contains(x) by {
            let k = choose|k: int| 0 <= k < as_int.len() && as_int[k] == x;
            assert(sequence[k] < n);
        }
        assert forall|x: int| set_int_range(0, n as int).contains(x) implies as_int.to_set().contains(x) by {
            let j = x as usize;
            assert(sequence.contains(j));
            let k = choose|k: int| 0 <= k < sequence.len() && sequence[k] == j;
            assert(as_int[k] == x);
        }
    }
    lemma_int_range(0, n as int);
}

/// The positions of `keys` stably sorted by key (every key below
/// `bound`): every position exactly once, ascending key, ties in
/// position order.
pub fn stable_ranking(keys: &Vec<usize>, bound: usize) -> (sequence: Vec<usize>)
    requires
        forall|i: int| 0 <= i < keys.len() ==> #[trigger] keys@[i] < bound,
    ensures
        is_stable_ranking(keys@, sequence@),
{
    let n = keys.len();
    let ghost orders = keys@;
    let mut sequence: Vec<usize> = Vec::new();
    let mut key: usize = 0;
    while key < bound
        invariant
            n == orders.len(),
            orders == keys@,
            key <= bound,
            forall|i: int| 0 <= i < n ==> #[trigger] orders[i] < bound,
            forall|k: int| 0 <= k < sequence.len() ==> #[trigger] sequence@[k] < n && orders[sequence@[k] as int] < key,
            forall|j: usize| j < n && orders[j as int] < key ==> sequence@.contains(j),
            forall|a: int, b: int|
                0 <= a < b < sequence.len() ==> ranked_before(orders, #[trigger] sequence@[a], #[trigger] sequence@[b]),
        decreases bound - key,
    {
        let mut i: usize = 0;
        while i < n
            invariant
                n == orders.len(),
                orders == keys@,
                key < bound,
                i <= n,
                forall|k: int|
                    0 <= k < sequence.len() ==> #[trigger] sequence@[k] < n && (orders[sequence@[k] as int] < key || (
                    orders[sequence@[k] as int] == key && sequence@[k] < i)),
                forall|j: usize|
                    j < n && (orders[j as int] < key || (orders[j as int] == key && j < i))
                        ==> sequence@.contains(j),
                forall|a: int, b: int|
                    0 <= a < b < sequence.len() ==> ranked_before(orders, #[trigger] sequence@[a], #[trigger] sequence@[b]),
            decreases n - i,
        {
            if keys[i] == key {
                let ghost before = sequence@;
                sequence.push(i);
                proof {
                    assert forall|j: usize|
                        j < n && (orders[j as int] < key || (orders[j as int] == key && j < i + 1))
                            implies sequence@.contains(j) by {
                        if j == i {
                            assert(sequence@[sequence.len() - 1] == i);
                        } else {
                            assert(before.contains(j));
                            let k = choose|k: int| 0 <= k < before.len() && before[k] == j;
                            assert(sequence@[k] == j);
                        }
                    }
                }
            } else {
                proof {
                    assert forall|j: usize|
                        j < n && (orders[j as int] < key || (orders[j as int] == key && j < i + 1))
                            implies sequence@.contains(j) by {
                        if j == i {
                            assert(orders[j as int] != key);
                        }
                    }
                }
            }
            i += 1;
        }
        key += 1;
    }
    proof {
        assert forall|j: usize| j < n implies sequence@.contains(j) by {
            assert(orders[j as int] < bound);
        }
        lemma_covering_sequence_len(sequence@, n as nat);
    }
    sequence
}

/// A stable ranking visits every position of its keys.
pub proof fn lemma_ranking_visits_every_position(keys: Seq<usize>, ranking: Seq<usize>, i: usize)
    requires
        is_stable_ranking(keys, ranking),
        i < keys.len(),
    ensures
        ranking.contains(i),
{
    broadcast use vstd::seq_lib::seq_to_set_is_finite;

    let n = keys.len();
    let as_int = ranking.map_values(|x: usize| x as int);
    assert(as_int.no_duplicates()) by {
        assert forall|a: int, b: int| 0 <= a < as_int.len() && 0 <= b < as_int.len() && a != b implies as_int[a]
            != as_int[b] by {
            if a < b {
                assert(ranked_before(keys, ranking[a], ranking[b]));
            } else {
                assert(ranked_before(keys, ranking[b], ranking[a]));
            }
        }
    }
    as_int.unique_seq_to_set();
    lemma_int_range(0, n as int);
    assert(as_int.to_set().subset_of(set_int_range(0, n as int))) by {
        assert forall|x: int| as_int.to_set().contains(x) implies set_int_range(0, n as int).contains(x) by {
            let k = choose|k: int| 0 <= k < as_int.len() && as_int[k] == x;
            assert(ranking[k] < n);
        }
    }
    vstd::set_lib::lemma_subset_equality(as_int.to_set(), set_int_range(0, n as int));
    assert(set_int_range(0, n as int).contains(i as int));
    let k = choose|k: int| 0 <= k < as_int.len() && as_int[k] == i as int;
    assert(ranking[k] == i);
}

/// Two stable rankings of one key sequence agree up to position `k`.
proof fn lemma_rankings_agree_up_to(keys: Seq<usize>, r1: Seq<usize>, r2: Seq<usize>, k: int)
    requires
        is_stable_ranking(keys, r1),
        is_stable_ranking(keys, r2),
        0 <= k < r1.len(),
    ensures
        forall|j: int| 0 <= j <= k ==> r1[j] == r2[j],
    decreases k,
{
    if k > 0 {
        lemma_rankings_agree_up_to(keys, r1, r2, k - 1);
    }
    let x = r1[k];
    let y = r2[k];
    if x != y {
        lemma_ranking_visits_every_position(keys, r1, y);
        let p = choose|p: int| 0 <= p < r1.len() && r1[p] == y;
        if p < k {
            assert(ranked_before(keys, r2[p], r2[k]));
        }
        assert(ranked_before(keys, r1[k], r1[p]));
        lemma_ranking_visits_every_position(keys, r2, x);
        let q = choose|q: int| 0 <= q < r2.len() && r2[q] == x;
        if q < k {
            assert(ranked_before(keys, r1[q], r1[k]));
        }
        assert(ranked_before(keys, r2[k], r2[q]));
    }
}

/// A stable ranking is determined by its keys: two stable rankings of
/// the same keys are the same sequence.
pub proof fn lemma_stable_ranking_unique(keys: Seq<usize>, r1: Seq<usize>, r2: Seq<usize>)
    requires
        is_stable_ranking(keys, r1),
        is_stable_ranking(keys, r2),
    ensures
        r1 == r2,
{
    assert forall|k: int| 0 <= k < r1.len() implies r1[k] == r2[k] by {
        lemma_rankings_agree_up_to(keys, r1, r2, k);
    }
    assert(r1 =~= r2);
}

} // verus!

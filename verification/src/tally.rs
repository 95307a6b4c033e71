//! Counting votes for values.
//!
//! A value votes under a key, a sequence of integers. Keys compare
//! lexicographically, which is the order of the values they stand for.

use vstd::prelude::*;

verus! {

/// The weight of the votes for `key` among the first `n`.
pub open spec fn total(keys: Seq<Seq<u32>>, weights: Seq<u64>, key: Seq<u32>, n: int) -> nat
    decreases n,
{
    if n <= 0 {
        0
    } else {
        total(keys, weights, key, n - 1) + (if keys[n - 1] == key {
            weights[n - 1] as nat
        } else {
            0nat
        })
    }
}

/// Whether `a` comes before `b` lexicographically.
pub open spec fn precedes(a: Seq<u32>, b: Seq<u32>) -> bool
    decreases a.len(),
{
    if b.len() == 0 {
        false
    } else if a.len() == 0 {
        true
    } else if a[0] != b[0] {
        a[0] < b[0]
    } else {
        precedes(a.subrange(1, a.len() as int), b.subrange(1, b.len() as int))
    }
}

/// The keys behind their representations.
pub open spec fn keys_view(keys: Seq<Vec<u32>>) -> Seq<Seq<u32>> {
    keys.map_values(|k: Vec<u32>| k@)
}

/// Whether `key` wins the vote strictly: it has votes, and every other key has
/// less weight.
pub open spec fn wins(keys: Seq<Seq<u32>>, weights: Seq<u64>, key: Seq<u32>) -> bool {
    let n = keys.len() as int;
    keys.contains(key) && forall|i: int|
        0 <= i < n && (#[trigger] keys[i]) != key ==> total(keys, weights, keys[i], n) < total(
            keys,
            weights,
            key,
            n,
        )
}

/// Whether `key` is the most common one; among equally common ones the first in
/// lexicographic order.
pub open spec fn is_mode(keys: Seq<Seq<u32>>, key: Seq<u32>) -> bool {
    let n = keys.len() as int;
    let ones = Seq::new(keys.len(), |i: int| 1u64);
    keys.contains(key) && forall|i: int|
        0 <= i < n && (#[trigger] keys[i]) != key ==> {
            let other = total(keys, ones, keys[i], n);
            let own = total(keys, ones, key, n);
            other < own || (other == own && precedes(key, keys[i]))
        }
}

fn key_eq(a: &Vec<u32>, b: &Vec<u32>) -> (r: bool)
    ensures
        r == (a@ == b@),
{
    if a.len() != b.len() {
        return false;
    }
    let mut i: usize = 0;
    while i < a.len()
        invariant
            i <= a.len(),
            a@.len() == b@.len(),
            forall|k: int| 0 <= k < i ==> a@[k] == b@[k],
        decreases a.len() - i,
    {
        if a[i] != b[i] {
            return false;
        }
        i = i + 1;
    }
    assert(a@ =~= b@);
    true
}

fn key_precedes(a: &Vec<u32>, b: &Vec<u32>) -> (r: bool)
    ensures
        r == precedes(a@, b@),
{
    let mut i: usize = 0;
    assert(a@.subrange(0, a@.len() as int) =~= a@);
    assert(b@.subrange(0, b@.len() as int) =~= b@);
    while i < a.len() && i < b.len() && a[i] == b[i]
        invariant
            i <= a.len(),
            i <= b.len(),
            precedes(a@, b@) == precedes(
                a@.subrange(i as int, a@.len() as int),
                b@.subrange(i as int, b@.len() as int),
            ),
        decreases a.len() - i,
    {
        let ghost x = a@.subrange(i as int, a@.len() as int);
        let ghost y = b@.subrange(i as int, b@.len() as int);
        assert(x.subrange(1, x.len() as int) =~= a@.subrange(i + 1, a@.len() as int));
        assert(y.subrange(1, y.len() as int) =~= b@.subrange(i + 1, b@.len() as int));
        i = i + 1;
    }
    if i >= b.len() {
        false
    } else if i >= a.len() {
        true
    } else {
        a[i] < b[i]
    }
}

/// One key's tally: the index of its first vote and the weight of all its votes.
#[derive(Copy, Clone)]
struct Count {
    first: usize,
    weight: u128,
}

proof fn lemma_total_bound(keys: Seq<Seq<u32>>, weights: Seq<u64>, key: Seq<u32>, n: int)
    requires
        0 <= n <= weights.len(),
    ensures
        total(keys, weights, key, n) <= n * u64::MAX,
    decreases n,
{
    if n > 0 {
        lemma_total_bound(keys, weights, key, n - 1);
        assert((n - 1) * u64::MAX + u64::MAX == n * u64::MAX) by (nonlinear_arith);
    }
}

proof fn lemma_total_absent(keys: Seq<Seq<u32>>, weights: Seq<u64>, key: Seq<u32>, n: int)
    requires
        0 <= n <= keys.len(),
        forall|i: int| 0 <= i < n ==> (#[trigger] keys[i]) != key,
    ensures
        total(keys, weights, key, n) == 0,
    decreases n,
{
    if n > 0 {
        lemma_total_absent(keys, weights, key, n - 1);
    }
}

/// Whether the entries tally the first `n` votes: one entry per distinct key.
spec fn tallied(entries: Seq<Count>, keys: Seq<Seq<u32>>, weights: Seq<u64>, n: int) -> bool {
    &&& forall|j: int|
        0 <= j < entries.len() ==> (#[trigger] entries[j]).first < n && entries[j].weight == total(
            keys,
            weights,
            keys[entries[j].first as int],
            n,
        )
    &&& forall|i: int|
        0 <= i < n ==> exists|j: int|
            0 <= j < entries.len() && keys[(#[trigger] entries[j]).first as int]
                == #[trigger] keys[i]
    &&& forall|a: int, b: int|
        0 <= a < b < entries.len() ==> keys[(#[trigger] entries[a]).first as int]
            != keys[(#[trigger] entries[b]).first as int]
}

fn tally_votes(keys: &Vec<Vec<u32>>, weights: &Vec<u64>) -> (entries: Vec<Count>)
    requires
        keys@.len() == weights@.len(),
    ensures
        tallied(entries@, keys_view(keys@), weights@, keys@.len() as int),
{
    let ghost ks = keys_view(keys@);
    let mut entries: Vec<Count> = Vec::new();
    let mut n: usize = 0;
    while n < keys.len()
        invariant
            n <= keys.len(),
            keys@.len() == weights@.len(),
            ks == keys_view(keys@),
            tallied(entries@, ks, weights@, n as int),
        decreases keys.len() - n,
    {
        let mut j: usize = 0;
        let ghost prior = entries@;
        while j < entries.len() && !key_eq(&keys[entries[j].first], &keys[n])
            invariant
                j <= entries.len(),
                n < keys.len(),
                ks == keys_view(keys@),
                entries@ == prior,
                tallied(entries@, ks, weights@, n as int),
                forall|k: int|
                    0 <= k < j ==> ks[(#[trigger] entries@[k]).first as int] != ks[n as int],
            decreases entries.len() - j,
        {
            j = j + 1;
        }
        let w: u64 = weights[n];
        if j < entries.len() {
            let mut e: Count = entries[j];
            assert(ks[e.first as int] == ks[n as int]);
            proof {
                lemma_total_bound(ks, weights@, ks[n as int], n as int);
                assert(n * u64::MAX + u64::MAX <= u128::MAX) by (nonlinear_arith)
                    requires
                        n <= u64::MAX,
                ;
            }
            e.weight = e.weight + w as u128;
            entries.set(j, e);
        } else {
            proof {
                assert forall|i: int| 0 <= i < n implies (#[trigger] ks[i]) != ks[n as int] by {
                    let k = choose|k: int|
                        0 <= k < entries@.len() && ks[(#[trigger] entries@[k]).first as int]
                            == ks[i];
                    assert(ks[entries@[k].first as int] != ks[n as int]);
                }
                lemma_total_absent(ks, weights@, ks[n as int], n as int);
            }
            entries.push(Count { first: n, weight: w as u128 });
        }
        proof {
            assert forall|k: int| 0 <= k < entries@.len() implies (#[trigger] entries@[k]).first < n
                + 1 && entries@[k].weight == total(
                ks,
                weights@,
                ks[entries@[k].first as int],
                n + 1,
            ) by {
                if k < prior.len() && k != j {
                    assert(entries@[k] == prior[k]);
                    if j < prior.len() {
                        assert(ks[prior[k].first as int] != ks[prior[j as int].first as int]) by {
                            if k < j {
                                assert(ks[prior[k].first as int] != ks[n as int]);
                            } else {
                                assert(ks[prior[j as int].first as int]
                                    != ks[prior[k].first as int]);
                            }
                        }
                    } else {
                        assert(ks[prior[k].first as int] != ks[n as int]);
                    }
                }
            }
            assert forall|i: int| 0 <= i < n + 1 implies exists|k: int|
                0 <= k < entries@.len() && ks[(#[trigger] entries@[k]).first as int]
                    == #[trigger] ks[i] by {
                if i < n {
                    let k = choose|k: int|
                        0 <= k < prior.len() && ks[(#[trigger] prior[k]).first as int] == ks[i];
                    assert(entries@[k].first == prior[k].first);
                } else {
                    assert(ks[entries@[j as int].first as int] == ks[i]);
                }
            }
            assert forall|a: int, b: int| 0 <= a < b < entries@.len() implies ks[(
            #[trigger] entries@[a]).first as int] != ks[(#[trigger] entries@[b]).first as int] by {
                assert(entries@[a].first == prior[a].first);
                if b < prior.len() {
                    assert(entries@[b].first == prior[b].first);
                    assert(ks[prior[a].first as int] != ks[prior[b].first as int]);
                }
            }
        }
        n = n + 1;
    }
    entries
}

/// The index of a vote for the strict winner. `None` when there are no votes or
/// two keys share the largest weight: a tie is no mandate.
pub fn weighted_mode(keys: &Vec<Vec<u32>>, weights: &Vec<u64>) -> (r: Option<usize>)
    requires
        keys@.len() == weights@.len(),
    ensures
        match r {
            Some(i) => i < keys@.len() && wins(keys_view(keys@), weights@, keys@[i as int]@),
            None => forall|i: int|
                0 <= i < keys@.len() ==> !wins(
                    keys_view(keys@),
                    weights@,
                    #[trigger] keys_view(keys@)[i],
                ),
        },
{
    let ghost ks = keys_view(keys@);
    let ghost n = keys@.len() as int;
    let entries: Vec<Count> = tally_votes(keys, weights);
    if entries.len() == 0 {
        assert(n == 0) by {
            if n > 0 {
                let k = choose|k: int|
                    0 <= k < entries@.len() && ks[(#[trigger] entries@[k]).first as int] == ks[0];
                assert(false);
            }
        }
        return None;
    }
    let mut best: usize = 0;
    let mut tied: bool = false;
    let mut j: usize = 1;
    while j < entries.len()
        invariant
            1 <= j <= entries.len(),
            best < j,
            forall|k: int|
                0 <= k < j ==> (#[trigger] entries@[k]).weight <= entries@[best as int].weight,
            tied == (exists|k: int|
                0 <= k < j && k != best && (#[trigger] entries@[k]).weight
                    == entries@[best as int].weight),
        decreases entries.len() - j,
    {
        if entries[j].weight > entries[best].weight {
            best = j;
            tied = false;
        } else if entries[j].weight == entries[best].weight {
            tied = true;
        }
        j = j + 1;
    }
    let first: usize = entries[best].first;
    if tied {
        proof {
            let k = choose|k: int|
                0 <= k < entries@.len() && k != best && (#[trigger] entries@[k]).weight
                    == entries@[best as int].weight;
            assert forall|i: int| 0 <= i < n implies !wins(ks, weights@, #[trigger] ks[i]) by {
                let e = choose|e: int|
                    0 <= e < entries@.len() && ks[(#[trigger] entries@[e]).first as int] == ks[i];
                let rival = if e == best {
                    k
                } else {
                    best as int
                };
                assert(ks[entries@[rival].first as int] != ks[entries@[e].first as int]) by {
                    if rival < e {
                        assert(ks[entries@[rival].first as int] != ks[entries@[e].first as int]);
                    } else {
                        assert(ks[entries@[e].first as int] != ks[entries@[rival].first as int]);
                    }
                }
                assert(entries@[e].weight <= entries@[rival].weight);
            }
        }
        None
    } else {
        proof {
            let key = ks[first as int];
            assert(keys@[first as int]@ == key);
            assert(ks.contains(key));
            assert forall|i: int| 0 <= i < n && (#[trigger] ks[i]) != key implies total(
                ks,
                weights@,
                ks[i],
                n,
            ) < total(ks, weights@, key, n) by {
                let e = choose|e: int|
                    0 <= e < entries@.len() && ks[(#[trigger] entries@[e]).first as int] == ks[i];
                assert(e != best);
                assert(entries@[e].weight <= entries@[best as int].weight);
            }
        }
        Some(first)
    }
}

/// The index of the most common key; among equally common ones that of the
/// first in lexicographic order. `None` when there is no key.
pub fn mode(keys: &Vec<Vec<u32>>) -> (r: Option<usize>)
    ensures
        match r {
            Some(i) => i < keys@.len() && is_mode(keys_view(keys@), keys@[i as int]@),
            None => keys@.len() == 0,
        },
{
    let mut weights: Vec<u64> = Vec::new();
    let mut i: usize = 0;
    while i < keys.len()
        invariant
            i <= keys.len(),
            weights@ == Seq::new(i as nat, |k: int| 1u64),
        decreases keys.len() - i,
    {
        weights.push(1);
        i = i + 1;
        assert(weights@ =~= Seq::new(i as nat, |k: int| 1u64));
    }
    let ghost ks = keys_view(keys@);
    let ghost n = keys@.len() as int;
    assert(weights@ =~= Seq::new(ks.len(), |i: int| 1u64));
    let entries: Vec<Count> = tally_votes(keys, &weights);
    if entries.len() == 0 {
        assert(n == 0) by {
            if n > 0 {
                let k = choose|k: int|
                    0 <= k < entries@.len() && ks[(#[trigger] entries@[k]).first as int] == ks[0];
                assert(false);
            }
        }
        return None;
    }
    let mut best: usize = 0;
    let mut j: usize = 1;
    while j < entries.len()
        invariant
            1 <= j <= entries.len(),
            best < j,
            ks == keys_view(keys@),
            n == keys@.len(),
            tallied(entries@, ks, weights@, n),
            forall|k: int|
                0 <= k < j && k != best ==> (#[trigger] entries@[k]).weight
                    < entries@[best as int].weight || (entries@[k].weight
                    == entries@[best as int].weight && precedes(
                    ks[entries@[best as int].first as int],
                    ks[entries@[k].first as int],
                )),
        decreases entries.len() - j,
    {
        let ghost prior = best;
        let better: bool = entries[j].weight > entries[best].weight || (entries[j].weight
            == entries[best].weight && key_precedes(
            &keys[entries[j].first],
            &keys[entries[best].first],
        ));
        if better {
            proof {
                assert forall|k: int| 0 <= k < j + 1 && k != j implies (
                #[trigger] entries@[k]).weight < entries@[j as int].weight || (entries@[k].weight
                    == entries@[j as int].weight && precedes(
                    ks[entries@[j as int].first as int],
                    ks[entries@[k].first as int],
                )) by {
                    if k != prior && entries@[k].weight == entries@[j as int].weight {
                        lemma_precedes_trans(
                            ks[entries@[j as int].first as int],
                            ks[entries@[prior as int].first as int],
                            ks[entries@[k].first as int],
                        );
                    }
                }
            }
            best = j;
        } else {
            proof {
                assert(ks[entries@[best as int].first as int] != ks[entries@[j as int].first as int]);
                lemma_precedes_total(
                    ks[entries@[best as int].first as int],
                    ks[entries@[j as int].first as int],
                );
            }
        }
        j = j + 1;
    }
    let first: usize = entries[best].first;
    proof {
        let key = ks[first as int];
        assert(keys@[first as int]@ == key);
        assert(ks.contains(key));
        assert forall|i: int| 0 <= i < n && (#[trigger] ks[i]) != key implies ({
            let other = total(ks, weights@, ks[i], n);
            let own = total(ks, weights@, key, n);
            other < own || (other == own && precedes(key, ks[i]))
        }) by {
            let e = choose|e: int|
                0 <= e < entries@.len() && ks[(#[trigger] entries@[e]).first as int] == ks[i];
            assert(e != best);
        }
    }
    Some(first)
}

proof fn lemma_precedes_trans(a: Seq<u32>, b: Seq<u32>, c: Seq<u32>)
    requires
        precedes(a, b),
        precedes(b, c),
    ensures
        precedes(a, c),
    decreases a.len(),
{
    if a.len() > 0 && b.len() > 0 && c.len() > 0 && a[0] == b[0] && b[0] == c[0] {
        lemma_precedes_trans(
            a.subrange(1, a.len() as int),
            b.subrange(1, b.len() as int),
            c.subrange(1, c.len() as int),
        );
    }
}

proof fn lemma_precedes_total(a: Seq<u32>, b: Seq<u32>)
    requires
        a != b,
    ensures
        precedes(a, b) || precedes(b, a),
    decreases a.len(),
{
    if a.len() == 0 || b.len() == 0 {
        if a.len() == 0 && b.len() == 0 {
            assert(a =~= b);
        }
    } else if a[0] == b[0] {
        let x = a.subrange(1, a.len() as int);
        let y = b.subrange(1, b.len() as int);
        if x == y {
            assert(a =~= seq![a[0]] + x);
            assert(b =~= seq![b[0]] + y);
        }
        lemma_precedes_total(x, y);
    }
}

/// A strict winner is the only one.
pub proof fn winner_is_unique(
    keys: Seq<Seq<u32>>,
    weights: Seq<u64>,
    a: Seq<u32>,
    b: Seq<u32>,
)
    requires
        wins(keys, weights, a),
        wins(keys, weights, b),
    ensures
        a == b,
{
    if a != b {
        let i = choose|i: int| 0 <= i < keys.len() && keys[i] == a;
        let j = choose|j: int| 0 <= j < keys.len() && keys[j] == b;
        assert(keys[i] != b);
        assert(keys[j] != a);
    }
}

/// Whether at least half of the values are true.
pub open spec fn true_wins(values: Seq<bool>) -> bool {
    let ones = values.filter(|b: bool| b).len();
    2 * ones >= values.len()
}

/// Whether true is at least as common as false.
pub fn mode_bool(values: &Vec<bool>) -> (r: bool)
    ensures
        r == true_wins(values@),
{
    let ghost keep = |b: bool| b;
    let mut true_count: usize = 0;
    let mut i: usize = 0;
    while i < values.len()
        invariant
            i <= values.len(),
            keep == (|b: bool| b),
            true_count == values@.take(i as int).filter(keep).len(),
            true_count <= i,
        decreases values.len() - i,
    {
        proof {
            assert(values@.take(i + 1).drop_last() =~= values@.take(i as int));
            reveal(Seq::filter);
        }
        if values[i] {
            true_count = true_count + 1;
        }
        i = i + 1;
    }
    assert(values@.take(i as int) =~= values@);
    true_count >= values.len() - true_count
}

} // verus!

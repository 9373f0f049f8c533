//! Shared machinery of the idealization engine: strictly ordered depth keys,
//! policy reductions (minimum, rounded arithmetic mean, maximum) and
//! nearest-depth sampling, with the lemmas that relate them.
use vstd::prelude::*;
use vstd::arithmetic::div_mod::{lemma_div_is_ordered, lemma_div_multiples_vanish_fancy};
use vstd::arithmetic::mul::lemma_mul_inequality;

use crate::enums::SelectionMethod;

verus! {

/// Upper bound on the magnitude of any scaled measured value.
pub const MAX_VALUE: i64 = 1_000_000_000_000;

/// Upper bound on any scaled length or depth.
pub const MAX_DIMENSION: i64 = 1_000_000_000;

/// Depth keys are kept strictly ascending: sorted and duplicate-free.
pub open spec fn strictly_increasing(s: Seq<i64>) -> bool {
    forall|i: int, j: int| 0 <= i < j < s.len() ==> s[i] < s[j]
}

/// Smallest element of a non-empty sequence.
pub open spec fn seq_min(s: Seq<i64>) -> i64
    recommends
        s.len() > 0,
    decreases s.len(),
{
    if s.len() <= 1 {
        s[0]
    } else {
        let m = seq_min(s.drop_last());
        if s.last() < m {
            s.last()
        } else {
            m
        }
    }
}

/// Largest element of a non-empty sequence.
pub open spec fn seq_max(s: Seq<i64>) -> i64
    recommends
        s.len() > 0,
    decreases s.len(),
{
    if s.len() <= 1 {
        s[0]
    } else {
        let m = seq_max(s.drop_last());
        if s.last() > m {
            s.last()
        } else {
            m
        }
    }
}

/// Sum of a sequence.
pub open spec fn seq_sum(s: Seq<i64>) -> int
    decreases s.len(),
{
    if s.len() == 0 {
        0
    } else {
        seq_sum(s.drop_last()) + s.last()
    }
}

/// `a / b` rounded to the nearest integer, halves rounded up, for `b > 0` and
/// `a >= 0`.
pub open spec fn rounded_div(a: int, b: int) -> int {
    (2 * a + b) / (2 * b)
}

/// Arithmetic mean of a non-empty sequence, rounded to the nearest integer.
pub open spec fn mean_rounded(s: Seq<i64>) -> int {
    rounded_div(seq_sum(s), s.len() as int)
}

/// What one aggregation policy makes of the values sampled at one depth.
pub open spec fn reduce(mode: SelectionMethod, s: Seq<i64>) -> int {
    match mode {
        SelectionMethod::Min => seq_min(s) as int,
        SelectionMethod::Avg => mean_rounded(s),
        SelectionMethod::Max => seq_max(s) as int,
    }
}

/// Every element lies between the minimum and the maximum.
pub proof fn lemma_min_max_le(s: Seq<i64>, i: int)
    requires
        0 <= i < s.len(),
    ensures
        seq_min(s) <= s[i] <= seq_max(s),
    decreases s.len(),
{
    if s.len() > 1 && i < s.len() - 1 {
        lemma_min_max_le(s.drop_last(), i);
        assert(s.drop_last()[i] == s[i]);
    }
}

/// The minimum and the maximum are themselves elements.
pub proof fn lemma_min_max_elem(s: Seq<i64>)
    requires
        s.len() > 0,
    ensures
        s.contains(seq_min(s)),
        s.contains(seq_max(s)),
    decreases s.len(),
{
    if s.len() <= 1 {
        assert(s[0] == seq_min(s));
        assert(s[0] == seq_max(s));
    } else {
        lemma_min_max_elem(s.drop_last());
        if s.drop_last().contains(seq_min(s))  {
            let k = choose|k: int| 0 <= k < s.drop_last().len() && s.drop_last()[k] == seq_min(s);
            assert(s[k] == seq_min(s));
        }
        if s.drop_last().contains(seq_max(s)) {
            let k = choose|k: int| 0 <= k < s.drop_last().len() && s.drop_last()[k] == seq_max(s);
            assert(s[k] == seq_max(s));
        }
    }
}

/// The sum of a non-empty sequence lies between `len * min` and `len * max`.
pub proof fn lemma_sum_bounds(s: Seq<i64>)
    requires
        s.len() > 0,
    ensures
        s.len() * seq_min(s) <= seq_sum(s) <= s.len() * seq_max(s),
    decreases s.len(),
{
    if s.len() == 1 {
        assert(seq_sum(s) == seq_sum(s.drop_last()) + s.last());
        assert(seq_sum(s.drop_last()) == 0);
    } else {
        let d = s.drop_last();
        lemma_sum_bounds(d);
        lemma_min_max_le(s, s.len() - 1);
        // the minimum of the whole is at most the minimum of the prefix
        assert(seq_min(s) <= seq_min(d) && seq_max(s) >= seq_max(d));
        lemma_mul_inequality(seq_min(s) as int, seq_min(d) as int, d.len() as int);
        lemma_mul_inequality(seq_max(d) as int, seq_max(s) as int, d.len() as int);
        let n = s.len() as int;
        let mn = seq_min(s) as int;
        let mx = seq_max(s) as int;
        assert((n - 1) * mn + mn == n * mn) by (nonlinear_arith);
        assert((n - 1) * mx + mx == n * mx) by (nonlinear_arith);
        assert(d.len() as int * seq_min(d) == seq_min(d) as int * d.len()) by (nonlinear_arith);
        assert(d.len() as int * seq_max(d) == seq_max(d) as int * d.len()) by (nonlinear_arith);
    }
}

/// The rounded mean of a non-empty sequence lies between its minimum and its
/// maximum.
pub proof fn lemma_mean_bounds(s: Seq<i64>)
    requires
        s.len() > 0,
    ensures
        seq_min(s) <= mean_rounded(s) <= seq_max(s),
{
    let n = s.len() as int;
    let sum = seq_sum(s);
    let mn = seq_min(s) as int;
    let mx = seq_max(s) as int;
    lemma_sum_bounds(s);
    assert((2 * n) * mn + n <= 2 * sum + n) by (nonlinear_arith)
        requires n * mn <= sum;
    assert(2 * sum + n <= (2 * n) * mx + n) by (nonlinear_arith)
        requires sum <= n * mx;
    lemma_div_is_ordered((2 * n) * mn + n, 2 * sum + n, 2 * n);
    lemma_div_is_ordered(2 * sum + n, (2 * n) * mx + n, 2 * n);
    lemma_div_multiples_vanish_fancy(mn, n, 2 * n);
    lemma_div_multiples_vanish_fancy(mx, n, 2 * n);
}

/// Aggregation policies are ordered: at any one depth the Max-policy value is
/// at least the Avg-policy value, which is at least the Min-policy value.
pub proof fn lemma_policy_order(s: Seq<i64>)
    requires
        s.len() > 0,
    ensures
        reduce(SelectionMethod::Min, s) <= reduce(SelectionMethod::Avg, s),
        reduce(SelectionMethod::Avg, s) <= reduce(SelectionMethod::Max, s),
{
    lemma_mean_bounds(s);
}

/// Whatever the policy, the reduced value lies between the minimum and the
/// maximum of the sampled values.
pub proof fn lemma_reduce_bounds(mode: SelectionMethod, s: Seq<i64>)
    requires
        s.len() > 0,
    ensures
        seq_min(s) <= reduce(mode, s) <= seq_max(s),
{
    lemma_mean_bounds(s);
    lemma_min_max_le(s, 0);
}

/// Reducing a single value returns it unchanged, whatever the policy.
pub proof fn lemma_reduce_singleton(mode: SelectionMethod, s: Seq<i64>)
    requires
        s.len() == 1,
    ensures
        reduce(mode, s) == s[0],
{
    assert(seq_sum(s) == seq_sum(s.drop_last()) + s.last());
    assert(seq_sum(s.drop_last()) == 0);
    lemma_div_multiples_vanish_fancy(s[0] as int, 1, 2);
}

/// Reduces the values sampled from every experiment at one depth under the
/// given policy.
pub fn reduce_values(mode: SelectionMethod, values: &Vec<i64>) -> (r: i64)
    requires
        values@.len() > 0,
        forall|i: int| 0 <= i < values@.len() ==> 0 <= #[trigger] values@[i] <= MAX_VALUE,
    ensures
        r as int == reduce(mode, values@),
        0 <= r <= MAX_VALUE,
{
    proof {
        lemma_reduce_bounds(mode, values@);
        lemma_min_max_elem(values@);
        let kn = choose|k: int| 0 <= k < values@.len() && values@[k] == seq_min(values@);
        let kx = choose|k: int| 0 <= k < values@.len() && values@[k] == seq_max(values@);
        assert(0 <= seq_min(values@) && seq_max(values@) <= MAX_VALUE);
    }
    match mode {
        SelectionMethod::Min => {
            let mut m: i64 = values[0];
            let mut i: usize = 1;
            while i < values.len()
                invariant
                    1 <= i <= values@.len(),
                    m == seq_min(values@.take(i as int)),
                    forall|k: int| 0 <= k < values@.len() ==> 0 <= #[trigger] values@[k]
                        <= MAX_VALUE,
                decreases values@.len() - i,
            {
                proof {
                    assert(values@.take(i + 1).drop_last() =~= values@.take(i as int));
                }
                if values[i] < m {
                    m = values[i];
                }
                i = i + 1;
            }
            proof {
                assert(values@.take(values@.len() as int) =~= values@);
            }
            m
        },
        SelectionMethod::Max => {
            let mut m: i64 = values[0];
            let mut i: usize = 1;
            while i < values.len()
                invariant
                    1 <= i <= values@.len(),
                    m == seq_max(values@.take(i as int)),
                    forall|k: int| 0 <= k < values@.len() ==> 0 <= #[trigger] values@[k]
                        <= MAX_VALUE,
                decreases values@.len() - i,
            {
                proof {
                    assert(values@.take(i + 1).drop_last() =~= values@.take(i as int));
                }
                if values[i] > m {
                    m = values[i];
                }
                i = i + 1;
            }
            proof {
                assert(values@.take(values@.len() as int) =~= values@);
            }
            m
        },
        SelectionMethod::Avg => {
            let mut sum: u128 = 0;
            let mut i: usize = 0;
            while i < values.len()
                invariant
                    0 <= i <= values@.len(),
                    sum as int == seq_sum(values@.take(i as int)),
                    sum as int <= i * (MAX_VALUE as int),
                    forall|k: int| 0 <= k < values@.len() ==> 0 <= #[trigger] values@[k]
                        <= MAX_VALUE,
                decreases values@.len() - i,
            {
                proof {
                    assert(values@.take(i + 1).drop_last() =~= values@.take(i as int));
                    assert((i + 1) * (MAX_VALUE as int) == i * (MAX_VALUE as int) + MAX_VALUE as int)
                        by (nonlinear_arith);
                    assert(i * (MAX_VALUE as int) <= usize::MAX * (MAX_VALUE as int))
                        by (nonlinear_arith)
                        requires 0 <= i <= usize::MAX as int;
                }
                sum = sum + values[i] as u128;
                i = i + 1;
            }
            let n = values.len() as u128;
            proof {
                assert(values@.take(values@.len() as int) =~= values@);
                assert(values@.len() * (MAX_VALUE as int) <= usize::MAX * (MAX_VALUE as int))
                    by (nonlinear_arith)
                    requires 0 <= values@.len() <= usize::MAX as int;
            }
            let q: u128 = (2 * sum + n) / (2 * n);
            proof {
                lemma_mean_bounds(values@);
            }
            q as i64
        },
    }
}

/// Divides, rounding to the nearest integer with halves rounded up.
pub fn div_round_half_up(a: i64, b: i64) -> (r: i64)
    requires
        0 <= a,
        0 < b,
    ensures
        r as int == rounded_div(a as int, b as int),
        0 <= r <= a,
{
    let q: u128 = (2 * (a as u128) + (b as u128)) / (2 * (b as u128));
    proof {
        assert(2 * (a as int) + b as int <= (2 * (b as int)) * (a as int) + b as int)
            by (nonlinear_arith)
            requires a >= 0, b >= 1;
        lemma_div_is_ordered(
            2 * (a as int) + b as int,
            (2 * (b as int)) * (a as int) + b as int,
            2 * (b as int),
        );
        lemma_div_multiples_vanish_fancy(a as int, b as int, 2 * (b as int));
    }
    q as i64
}

/// Divides by a positive divisor, rounding toward negative infinity, matching
/// the quotient `/` denotes in specifications.
pub fn div_floor(a: i64, b: i64) -> (r: i64)
    requires
        0 < b,
        -1_000_000_000_000_000_000 <= a <= 1_000_000_000_000_000_000,
    ensures
        r as int == a as int / b as int,
{
    if a >= 0 {
        ((a as u64) / (b as u64)) as i64
    } else {
        let m: u64 = (-a) as u64;
        let q: u64 = (m + (b as u64) - 1) / (b as u64);
        proof {
            let mi = m as int;
            let bi = b as int;
            let qi = q as int;
            vstd::arithmetic::div_mod::lemma_fundamental_div_mod(mi + bi - 1, bi);
            assert(bi * qi <= mi + bi - 1);
            assert(bi * qi >= mi);
            // the quotient of the rounded-up division is at most the dividend
            assert(mi + bi - 1 <= bi * mi + bi - 1) by (nonlinear_arith)
                requires mi >= 1, bi >= 1;
            lemma_div_is_ordered(mi + bi - 1, bi * mi + bi - 1, bi);
            lemma_div_multiples_vanish_fancy(mi, bi - 1, bi);
            assert(qi <= mi);
            assert((-qi) * bi == -(bi * qi)) by (nonlinear_arith);
            vstd::arithmetic::div_mod::lemma_fundamental_div_mod_converse(
                -mi,
                bi,
                -qi,
                bi * qi - mi,
            );
        }
        -(q as i64)
    }
}

/// Index of the record that a nearest-depth lookup starting at `i` selects:
/// the first whose depth is at least `d`, else the last.
pub open spec fn sample_index_from(depths: Seq<i64>, d: i64, i: int) -> int
    recommends
        0 <= i < depths.len(),
    decreases depths.len() - i,
{
    if i >= depths.len() - 1 {
        depths.len() - 1
    } else if depths[i] >= d {
        i
    } else {
        sample_index_from(depths, d, i + 1)
    }
}

/// Index of the record that a nearest-depth lookup selects: the first whose
/// depth is at least `d`, else the last.
pub open spec fn sample_index(depths: Seq<i64>, d: i64) -> int {
    sample_index_from(depths, d, 0)
}

pub proof fn lemma_sample_from(depths: Seq<i64>, d: i64, i: int)
    requires
        0 <= i < depths.len(),
    ensures
        i <= sample_index_from(depths, d, i) < depths.len(),
        forall|j: int| i <= j < sample_index_from(depths, d, i) ==> depths[j] < d,
        (exists|j: int| i <= j < depths.len() && depths[j] >= d) ==> depths[sample_index_from(
            depths,
            d,
            i,
        )] >= d,
        sample_index_from(depths, d, i) < depths.len() - 1 ==> depths[sample_index_from(
            depths,
            d,
            i,
        )] >= d,
    decreases depths.len() - i,
{
    if i < depths.len() - 1 && depths[i] < d {
        lemma_sample_from(depths, d, i + 1);
    }
}

/// The facts `get_layer_at_depth`-style lookups rely on: the selected index is
/// in range, every earlier record is shallower than the query, and whenever
/// some record is at least as deep as the query the selected one is.
pub proof fn lemma_sample_index_props(depths: Seq<i64>, d: i64)
    requires
        depths.len() > 0,
    ensures
        0 <= sample_index(depths, d) < depths.len(),
        forall|j: int| 0 <= j < sample_index(depths, d) ==> depths[j] < d,
        (exists|j: int| 0 <= j < depths.len() && depths[j] >= d) ==> depths[sample_index(depths, d)]
            >= d,
        sample_index(depths, d) < depths.len() - 1 ==> depths[sample_index(depths, d)] >= d,
{
    lemma_sample_from(depths, d, 0);
}

/// A deeper query never stops in a shallower layer.
pub proof fn lemma_sample_index_mono(depths: Seq<i64>, d1: i64, d2: i64)
    requires
        depths.len() > 0,
        d1 <= d2,
    ensures
        sample_index(depths, d1) <= sample_index(depths, d2),
{
    lemma_sample_index_props(depths, d1);
    lemma_sample_index_props(depths, d2);
    let r1 = sample_index(depths, d1);
    let r2 = sample_index(depths, d2);
    if r1 > r2 {
        assert(r2 < depths.len() - 1);
        assert(depths[r2] >= d2);
        assert(depths[r2] < d1);
    }
}

/// A lookup that has already passed `k` records shallower than the query
/// continues as if it had started at `k`.
pub proof fn lemma_sample_skip(depths: Seq<i64>, d: i64, k: int)
    requires
        0 <= k < depths.len(),
        forall|j: int| 0 <= j < k ==> depths[j] < d,
    ensures
        sample_index(depths, d) == sample_index_from(depths, d, k),
    decreases k,
{
    if k > 0 {
        lemma_sample_skip(depths, d, k - 1);
    }
}

/// In a strictly ascending key sequence, looking a key up by nearest depth
/// finds exactly its own position.
pub proof fn lemma_sample_index_own_key(keys: Seq<i64>, k: int)
    requires
        strictly_increasing(keys),
        0 <= k < keys.len(),
    ensures
        sample_index(keys, keys[k]) == k,
{
    lemma_sample_skip(keys, keys[k], k);
}

/// In a strictly ascending sequence every member is at most the last entry.
pub proof fn lemma_sorted_le_last(s: Seq<i64>, x: i64)
    requires
        strictly_increasing(s),
        s.contains(x),
        s.len() > 0,
    ensures
        x <= s[s.len() - 1],
{
    let k = choose|k: int| 0 <= k < s.len() && s[k] == x;
    if k < s.len() - 1 {
        assert(s[k] < s[s.len() - 1]);
    }
}

/// Inserts a depth key into a strictly ascending sequence, keeping it strictly
/// ascending and duplicate-free.
pub fn insert_sorted(v: &mut Vec<i64>, x: i64)
    requires
        strictly_increasing(old(v)@),
    ensures
        strictly_increasing(final(v)@),
        forall|y: i64| final(v)@.contains(y) <==> (old(v)@.contains(y) || y == x),
{
    let n = v.len();
    let mut i: usize = 0;
    while i < n && v[i] < x
        invariant
            0 <= i <= n,
            n == v@.len(),
            v@ == old(v)@,
            forall|j: int| 0 <= j < i ==> v@[j] < x,
        decreases n - i,
    {
        i = i + 1;
    }
    if i < n && v[i] == x {
        proof {
            assert(v@.contains(x));
        }
        return ;
    }
    v.insert(i, x);
    proof {
        let s = old(v)@;
        let t = v@;
        assert(t == s.insert(i as int, x));
        assert forall|p: int, q: int| 0 <= p < q < t.len() implies t[p] < t[q] by {
            if q < i {
                assert(t[p] == s[p] && t[q] == s[q]);
            } else if p > i {
                assert(t[p] == s[p - 1] && t[q] == s[q - 1]);
            } else if p < i && q == i {
                assert(t[p] == s[p] && t[q] == x);
            } else if p == i && q > i {
                assert(t[p] == x && t[q] == s[q - 1]);
                assert(i < s.len() ==> s[i as int] > x);
                assert(q - 1 >= i);
                assert(i < s.len() && q - 1 >= i ==> s[q - 1] >= s[i as int] || q - 1 == i);
            } else if p < i && q > i {
                assert(t[p] == s[p] && t[q] == s[q - 1]);
                assert(s[p] < x);
                assert(i < s.len() ==> s[i as int] > x);
            }
        }
        assert forall|y: i64| t.contains(y) implies (s.contains(y) || y == x) by {
            let k = choose|k: int| 0 <= k < t.len() && t[k] == y;
            if k < i {
                assert(s[k] == y);
            } else if k > i {
                assert(s[k - 1] == y);
            }
        }
        assert forall|y: i64| s.contains(y) || y == x implies t.contains(y) by {
            if s.contains(y) {
                let k = choose|k: int| 0 <= k < s.len() && s[k] == y;
                if k < i {
                    assert(t[k] == y);
                } else {
                    assert(t[k + 1] == y);
                }
            } else {
                assert(t[i as int] == x);
            }
        }
    }
}

/// Two strictly ascending sequences with the same members are equal.
pub proof fn lemma_sorted_unique_eq(s: Seq<i64>, t: Seq<i64>)
    requires
        strictly_increasing(s),
        strictly_increasing(t),
        forall|x: i64| s.contains(x) <==> t.contains(x),
    ensures
        s == t,
    decreases s.len(),
{
    if s.len() == 0 {
        if t.len() > 0 {
            assert(t.contains(t[0]));
            assert(s.contains(t[0]));
        }
        assert(s =~= t);
    } else {
        assert(s.contains(s[0]));
        assert(t.contains(s[0]));
        assert(t.len() > 0);
        assert(t.contains(t[0]));
        assert(s.contains(t[0]));
        let a = choose|a: int| 0 <= a < t.len() && t[a] == s[0];
        let b = choose|b: int| 0 <= b < s.len() && s[b] == t[0];
        assert(t[0] <= t[a] && s[0] <= s[b]);
        assert(s[0] == t[0]);
        let s1 = s.subrange(1, s.len() as int);
        let t1 = t.subrange(1, t.len() as int);
        assert forall|x: i64| s1.contains(x) implies t1.contains(x) by {
            let k = choose|k: int| 0 <= k < s1.len() && s1[k] == x;
            assert(s[k + 1] == x);
            assert(x > s[0]);
            assert(s.contains(x));
            assert(t.contains(x));
            let m = choose|m: int| 0 <= m < t.len() && t[m] == x;
            assert(m != 0);
            assert(t1[m - 1] == x);
        }
        assert forall|x: i64| t1.contains(x) implies s1.contains(x) by {
            let k = choose|k: int| 0 <= k < t1.len() && t1[k] == x;
            assert(t[k + 1] == x);
            assert(x > t[0]);
            assert(t.contains(x));
            assert(s.contains(x));
            let m = choose|m: int| 0 <= m < s.len() && s[m] == x;
            assert(m != 0);
            assert(s1[m - 1] == x);
        }
        lemma_sorted_unique_eq(s1, t1);
        assert(s.len() == t.len());
        assert forall|i: int| 0 <= i < s.len() implies s[i] == t[i] by {
            if i > 0 {
                assert(s1[i - 1] == s[i]);
                assert(t1[i - 1] == t[i]);
            }
        }
        assert(s =~= t);
    }
}

} // verus!

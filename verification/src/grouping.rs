//! Partitioning a recipient list into fixed-size groups, and the
//! safety-margined gas ceiling shared by the grouped builders.

use vstd::prelude::*;
use vstd::arithmetic::div_mod::{
    lemma_div_is_ordered, lemma_div_multiples_vanish, lemma_div_pos_is_pos,
    lemma_fundamental_div_mod, lemma_fundamental_div_mod_converse,
};
use vstd::arithmetic::mul::lemma_mul_inequality;
use crate::errors::BuildError;

verus! {

/// How many groups of size `g` cover `n` items: the ceiling of `n / g`.
pub open spec fn group_count(n: int, g: int) -> int {
    (n + g - 1) / g
}

/// Where group `gi` ends: one past its last item.
pub open spec fn group_end(n: int, g: int, gi: int) -> int {
    if (gi + 1) * g <= n {
        (gi + 1) * g
    } else {
        n
    }
}

/// The sum of a sequence of values.
pub open spec fn seq_sum(vals: Seq<u128>) -> int
    decreases vals.len(),
{
    if vals.len() == 0 {
        0
    } else {
        seq_sum(vals.drop_last()) + vals.last()
    }
}

/// Appending a value adds it to the sum.
pub proof fn lemma_seq_sum_push(vals: Seq<u128>, v: u128)
    ensures
        seq_sum(vals.push(v)) == seq_sum(vals) + v,
{
    assert(vals.push(v).drop_last() =~= vals);
    assert(vals.push(v).last() == v);
}

/// The sum of a prefix never exceeds the sum of the whole sequence.
pub proof fn lemma_seq_sum_prefix_le(vals: Seq<u128>, i: int)
    requires
        0 <= i <= vals.len(),
    ensures
        seq_sum(vals.subrange(0, i)) <= seq_sum(vals),
    decreases vals.len() - i,
{
    if i == vals.len() {
        assert(vals.subrange(0, i) =~= vals);
    } else {
        assert(vals.subrange(0, i + 1) =~= vals.subrange(0, i).push(vals[i]));
        lemma_seq_sum_push(vals.subrange(0, i), vals[i]);
        lemma_seq_sum_prefix_le(vals, i + 1);
    }
}

/// A counter that has just passed `n` in steps of `g` has counted the
/// groups that cover `n` items.
pub proof fn lemma_group_count_from_bounds(n: int, g: int, gi: int)
    requires
        g >= 1,
        n >= 0,
        gi * g >= n,
        (gi - 1) * g < n,
    ensures
        gi == group_count(n, g),
{
    let x = n + g - 1;
    assert((gi - 1) * g == gi * g - g) by (nonlinear_arith);
    lemma_fundamental_div_mod_converse(x, g, gi, x - gi * g);
}

/// `group_count` is the ceiling of `n / g`: its groups cover every item,
/// and one group fewer would not.  Grouped builders therefore produce
/// exactly `ceil(n / g)` intents for `n` recipients.
pub proof fn lemma_group_count_is_ceiling(n: int, g: int)
    requires
        g >= 1,
        n >= 0,
    ensures
        group_count(n, g) * g >= n,
        n > 0 ==> (group_count(n, g) - 1) * g < n,
{
    let gc = group_count(n, g);
    lemma_fundamental_div_mod(n + g - 1, g);
    assert(g * gc == gc * g) by (nonlinear_arith);
    assert((gc - 1) * g == gc * g - g) by (nonlinear_arith);
}

/// Covering items never takes a negative number of groups.
pub proof fn lemma_group_count_ge_zero(n: int, g: int)
    requires
        g >= 1,
        n >= 0,
    ensures
        group_count(n, g) >= 0,
{
    lemma_div_pos_is_pos(n + g - 1, g);
}

/// A group whose start lies inside the items is within the group count.
pub proof fn lemma_group_count_lower(n: int, g: int, k: int)
    requires
        g >= 1,
        0 <= k,
        k * g < n,
    ensures
        k + 1 <= group_count(n, g),
{
    assert((k + 1) * g == k * g + g) by (nonlinear_arith);
    assert(g * (k + 1) == (k + 1) * g) by (nonlinear_arith);
    lemma_div_is_ordered((k + 1) * g, n + g - 1, g);
    lemma_div_multiples_vanish(k + 1, g);
}

/// The boundaries of the groups of size `g` that cover `n` items, in
/// order: group `gi` holds the items from `gi * g` up to `group_end`.
pub fn group_bounds(n: usize, g: usize) -> (r: Vec<(usize, usize)>)
    requires
        1 <= g,
        n + g <= usize::MAX,
    ensures
        r@.len() == group_count(n as int, g as int),
        forall|gi: int|
            0 <= gi < r@.len() ==> (#[trigger] r@[gi]).0 == gi * g && r@[gi].1 == group_end(
                n as int,
                g as int,
                gi,
            ),
        forall|gi: int| 0 <= gi < r@.len() ==> (#[trigger] r@[gi]).0 < r@[gi].1 <= n,
{
    let mut out: Vec<(usize, usize)> = Vec::new();
    let mut start: usize = 0;
    let ghost mut gi: int = 0;
    while start < n
        invariant
            1 <= g,
            n + g <= usize::MAX,
            out@.len() == gi,
            start == gi * g || (start == n && gi * g >= n),
            (gi - 1) * g < n,
            0 <= gi,
            forall|k: int|
                0 <= k < gi ==> (#[trigger] out@[k]).0 == k * g && out@[k].1 == group_end(
                    n as int,
                    g as int,
                    k,
                ),
            forall|k: int| 0 <= k < gi ==> (#[trigger] out@[k]).0 < out@[k].1 <= n,
        decreases n - start,
    {
        let end = if n - start > g {
            start + g
        } else {
            n
        };
        proof {
            assert((gi + 1) * g == gi * g + g) by (nonlinear_arith);
        }
        out.push((start, end));
        proof {
            gi = gi + 1;
        }
        start = if n - start > g {
            start + g
        } else {
            n
        };
    }
    proof {
        assert(gi * g >= n);
        lemma_group_count_from_bounds(n as int, g as int, gi);
    }
    out
}

/// A gas ceiling with its safety margin applied: the reported usage times
/// `num / den`, rounded up.
pub open spec fn with_margin(gas: u64, num: u64, den: u64) -> int {
    (gas * num + (den - 1)) / den as int
}

/// Applies a safety margin of `num / den` (at least one) to a reported gas
/// usage, rounding up.
pub fn apply_margin(gas: u64, num: u64, den: u64) -> (r: u64)
    requires
        1 <= den <= num,
        gas * num <= u64::MAX * den,
    ensures
        r == with_margin(gas, num, den),
{
    let wide = (gas as u128) * (num as u128) + ((den as u128) - 1);
    let r = wide / (den as u128);
    proof {
        lemma_div_is_ordered(
            wide as int,
            u64::MAX * den + (den - 1),
            den as int,
        );
        lemma_fundamental_div_mod_converse(
            u64::MAX * den + (den - 1),
            den as int,
            u64::MAX as int,
            den - 1,
        );
    }
    r as u64
}

/// Grouped gas margin: ten percent above the simulated usage.
pub const BATCH_MARGIN_NUM: u64 = 110;

/// Mint and swap gas margin: five percent above the simulated usage.
pub const MINT_MARGIN_NUM: u64 = 105;

/// Denominator of both margins.
pub const MARGIN_DEN: u64 = 100;

/// Sums `vals[start..end]`, or reports that the sum does not fit the wire
/// value field.
pub fn sum_range(vals: &Vec<u128>, start: usize, end: usize) -> (r: Result<u128, BuildError>)
    requires
        start <= end <= vals.len(),
    ensures
        (r is Ok) <==> seq_sum(vals@.subrange(start as int, end as int)) <= u128::MAX,
        r matches Ok(s) ==> s == seq_sum(vals@.subrange(start as int, end as int)),
        r matches Err(e) ==> e == BuildError::ValueOverflow,
{
    let ghost whole = vals@.subrange(start as int, end as int);
    let mut sum: u128 = 0;
    let mut j: usize = start;
    proof {
        assert(whole.subrange(0, 0) =~= Seq::<u128>::empty());
    }
    while j < end
        invariant
            start <= j <= end <= vals.len(),
            whole == vals@.subrange(start as int, end as int),
            sum == seq_sum(whole.subrange(0, j - start)),
        decreases end - j,
    {
        proof {
            assert(whole.subrange(0, j - start + 1) =~= whole.subrange(0, j - start).push(
                whole[j - start],
            ));
            lemma_seq_sum_push(whole.subrange(0, j - start), whole[j - start]);
            assert(whole[j - start] == vals@[j as int]);
        }
        sum = match sum.checked_add(vals[j]) {
            Some(s) => s,
            None => {
                proof {
                    lemma_seq_sum_prefix_le(whole, j - start + 1);
                }
                return Err(BuildError::ValueOverflow);
            },
        };
        j = j + 1;
    }
    proof {
        assert(whole.subrange(0, end - start) =~= whole);
    }
    Ok(sum)
}

} // verus!

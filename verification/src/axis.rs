//! The mathematical model of one grid axis (all columns or all rows) and of
//! the share-redistribution algorithm.
//!
//! A cell is modelled as a pair `(share, pinned)`: its percentage of the
//! axis's extent, and whether the caller fixed that percentage explicitly.
//! Redistribution reserves the pinned shares and splits what remains of 100%
//! equally, by integer floor division, over the non-pinned cells; the
//! remainder of that division is deliberately dropped, so an axis's total can
//! undershoot 100. An axis whose pinned shares exceed 100 is left untouched
//! (the caller sees an over-allocation failure), as is an axis with no
//! non-pinned cell to absorb the remaining percentage.

use vstd::prelude::*;

verus! {

/// The sum of the shares of the pinned cells of `s`.
pub open spec fn pinned_total(s: Seq<(u8, bool)>) -> int
    decreases s.len(),
{
    if s.len() == 0 {
        0
    } else {
        pinned_total(s.drop_last()) + (if s.last().1 {
            s.last().0 as int
        } else {
            0int
        })
    }
}

/// How many cells of `s` are not pinned.
pub open spec fn flex_count(s: Seq<(u8, bool)>) -> int
    decreases s.len(),
{
    if s.len() == 0 {
        0
    } else {
        flex_count(s.drop_last()) + (if s.last().1 {
            0int
        } else {
            1int
        })
    }
}

/// The sum of the shares of all cells of `s`.
pub open spec fn share_total(s: Seq<(u8, bool)>) -> int
    decreases s.len(),
{
    if s.len() == 0 {
        0
    } else {
        share_total(s.drop_last()) + s.last().0
    }
}

/// An axis is over-allocated when its pinned shares alone exceed 100%.
pub open spec fn over_allocated(s: Seq<(u8, bool)>) -> bool {
    pinned_total(s) > 100
}

/// The share every non-pinned cell receives when the axis is redistributed:
/// the percentage not reserved by pinned cells, floor-divided by the number
/// of non-pinned cells. Meaningful only when `flex_count(s) > 0`.
pub open spec fn equal_share(s: Seq<(u8, bool)>) -> int {
    (100 - pinned_total(s)) / flex_count(s)
}

/// The axis after one redistribution pass: pinned cells are kept, every
/// non-pinned cell's share becomes `equal_share(s)`. An over-allocated axis
/// and an axis with no non-pinned cell are left unchanged.
pub open spec fn redistributed(s: Seq<(u8, bool)>) -> Seq<(u8, bool)> {
    if over_allocated(s) || flex_count(s) == 0 {
        s
    } else {
        Seq::new(
            s.len(),
            |i: int|
                if s[i].1 {
                    s[i]
                } else {
                    (equal_share(s) as u8, false)
                },
        )
    }
}

/// Every quantity measured on a run of cells grows by the obvious
/// contribution of the next cell.
pub proof fn lemma_counts_step(s: Seq<(u8, bool)>, a: int, b: int)
    requires
        0 <= a <= b < s.len(),
    ensures
        pinned_total(s.subrange(a, b + 1)) == pinned_total(s.subrange(a, b)) + (if s[b].1 {
            s[b].0 as int
        } else {
            0int
        }),
        flex_count(s.subrange(a, b + 1)) == flex_count(s.subrange(a, b)) + (if s[b].1 {
            0int
        } else {
            1int
        }),
        share_total(s.subrange(a, b + 1)) == share_total(s.subrange(a, b)) + s[b].0,
{
    let t = s.subrange(a, b + 1);
    assert(t.drop_last() =~= s.subrange(a, b));
    assert(t.last() == s[b]);
}

/// All three measures are non-negative, and the pinned total never exceeds
/// the share total.
pub proof fn lemma_counts_nonneg(s: Seq<(u8, bool)>)
    ensures
        pinned_total(s) >= 0,
        0 <= flex_count(s) <= s.len(),
        share_total(s) >= 0,
        pinned_total(s) <= share_total(s),
    decreases s.len(),
{
    if s.len() > 0 {
        lemma_counts_nonneg(s.drop_last());
    }
}

/// A prefix of the axis pins no more than the whole axis does.
pub proof fn lemma_pinned_total_prefix_le(s: Seq<(u8, bool)>, k: int)
    requires
        0 <= k <= s.len(),
    ensures
        pinned_total(s.subrange(0, k)) <= pinned_total(s),
    decreases s.len() - k,
{
    if k == s.len() {
        assert(s.subrange(0, k) =~= s);
    } else {
        lemma_counts_step(s, 0, k);
        lemma_pinned_total_prefix_le(s, k + 1);
    }
}

/// Removing the first cell of a suffix removes exactly its share.
proof fn lemma_share_total_suffix_step(s: Seq<(u8, bool)>, k: int)
    requires
        0 <= k < s.len(),
    ensures
        share_total(s.subrange(k, s.len() as int)) == s[k].0 + share_total(
            s.subrange(k + 1, s.len() as int),
        ),
    decreases s.len() - k,
{
    let t = s.subrange(k, s.len() as int);
    let u = s.subrange(k + 1, s.len() as int);
    if k == s.len() - 1 {
        assert(t.drop_last() =~= u);
    } else {
        let p = s.subrange(0, s.len() as int - 1);
        lemma_share_total_suffix_step(p, k);
        assert(p.subrange(k, p.len() as int) =~= s.subrange(k, s.len() as int - 1));
        assert(p.subrange(k + 1, p.len() as int) =~= s.subrange(k + 1, s.len() as int - 1));
        assert(t.drop_last() =~= s.subrange(k, s.len() as int - 1));
        assert(u.drop_last() =~= s.subrange(k + 1, s.len() as int - 1));
        assert(t.last() == s.last());
        assert(u.last() == s.last());
    }
}

/// The share total splits across any cut point of the axis.
pub proof fn lemma_share_total_split(s: Seq<(u8, bool)>, k: int)
    requires
        0 <= k <= s.len(),
    ensures
        share_total(s) == share_total(s.subrange(0, k)) + share_total(
            s.subrange(k, s.len() as int),
        ),
    decreases s.len() - k,
{
    if k == s.len() {
        assert(s.subrange(0, k) =~= s);
    } else {
        lemma_share_total_split(s, k + 1);
        lemma_counts_step(s, 0, k);
        lemma_share_total_suffix_step(s, k);
    }
}

/// The equal share handed to the non-pinned cells lies between 0 and the
/// unreserved percentage, and handing it to every one of them never spends
/// more than that unreserved percentage.
pub proof fn lemma_equal_share_bounds(s: Seq<(u8, bool)>)
    requires
        !over_allocated(s),
        flex_count(s) != 0,
    ensures
        0 <= equal_share(s),
        equal_share(s) <= 100 - pinned_total(s),
        flex_count(s) * equal_share(s) <= 100 - pinned_total(s),
{
    lemma_counts_nonneg(s);
    let r = 100 - pinned_total(s);
    let f = flex_count(s);
    let q = r / f;
    vstd::arithmetic::div_mod::lemma_div_pos_is_pos(r, f);
    vstd::arithmetic::div_mod::lemma_remainder_lower(r, f);
    assert(q <= f * q) by (nonlinear_arith)
        requires
            f >= 1,
            q >= 0,
    ;
}

/// Law: a pinned cell is never altered by redistribution.
pub proof fn lemma_redistributed_pinned(s: Seq<(u8, bool)>, i: int)
    requires
        0 <= i < s.len(),
        s[i].1,
    ensures
        redistributed(s)[i] == s[i],
{
}

/// Redistribution never changes which cells are pinned, nor what the pinned
/// cells reserve, nor how many cells could absorb a future redistribution.
pub proof fn lemma_redistributed_counts(s: Seq<(u8, bool)>, k: int)
    requires
        0 <= k <= s.len(),
    ensures
        pinned_total(redistributed(s).subrange(0, k)) == pinned_total(s.subrange(0, k)),
        flex_count(redistributed(s).subrange(0, k)) == flex_count(s.subrange(0, k)),
    decreases k,
{
    if k > 0 {
        lemma_redistributed_counts(s, k - 1);
        lemma_counts_step(s, 0, k - 1);
        lemma_counts_step(redistributed(s), 0, k - 1);
    }
}

/// After a redistribution pass, the whole axis's shares sum to the reserved
/// percentage plus what the non-pinned cells were handed.
pub proof fn lemma_redistributed_share_total(s: Seq<(u8, bool)>)
    requires
        !over_allocated(s),
        flex_count(s) != 0,
    ensures
        share_total(redistributed(s)) == pinned_total(s) + flex_count(s) * equal_share(s),
{
    lemma_redistributed_sum_prefix(s, s.len() as int);
    assert(redistributed(s).subrange(0, s.len() as int) =~= redistributed(s));
    assert(s.subrange(0, s.len() as int) =~= s);
}

proof fn lemma_redistributed_sum_prefix(s: Seq<(u8, bool)>, k: int)
    requires
        !over_allocated(s),
        flex_count(s) != 0,
        0 <= k <= s.len(),
    ensures
        share_total(redistributed(s).subrange(0, k)) == pinned_total(s.subrange(0, k))
            + flex_count(s.subrange(0, k)) * equal_share(s),
    decreases k,
{
    let t = redistributed(s);
    let e = equal_share(s);
    lemma_equal_share_bounds(s);
    lemma_counts_nonneg(s);
    if k == 0 {
        assert(t.subrange(0, 0) =~= Seq::<(u8, bool)>::empty());
        assert(s.subrange(0, 0) =~= Seq::<(u8, bool)>::empty());
    } else {
        lemma_redistributed_sum_prefix(s, k - 1);
        lemma_counts_step(t, 0, k - 1);
        lemma_counts_step(s, 0, k - 1);
        if !s[k - 1].1 {
            let fc = flex_count(s.subrange(0, k - 1));
            assert((fc + 1) * e == fc * e + e) by (nonlinear_arith);
        }
    }
}

/// A redistribution pass that finds the axis not over-allocated leaves the
/// axis's shares summing to at most 100.
pub proof fn lemma_redistributed_wf(s: Seq<(u8, bool)>)
    requires
        !over_allocated(s),
    ensures
        share_total(redistributed(s)) <= 100,
{
    if flex_count(s) == 0 {
        lemma_fully_pinned_share_total(s);
    } else {
        lemma_redistributed_share_total(s);
        lemma_equal_share_bounds(s);
    }
}

/// On an axis with no non-pinned cell, the shares sum to exactly what the
/// pinned cells reserve.
pub proof fn lemma_fully_pinned_share_total(s: Seq<(u8, bool)>)
    requires
        flex_count(s) == 0,
    ensures
        share_total(s) == pinned_total(s),
    decreases s.len(),
{
    if s.len() > 0 {
        lemma_counts_nonneg(s.drop_last());
        lemma_fully_pinned_share_total(s.drop_last());
    }
}

/// Law: redistribution is idempotent. Running the pass again without any
/// intervening configuration change reproduces the same axis exactly.
pub proof fn lemma_redistributed_idempotent(s: Seq<(u8, bool)>)
    ensures
        redistributed(redistributed(s)) == redistributed(s),
{
    let t = redistributed(s);
    lemma_redistributed_counts(s, s.len() as int);
    assert(t.subrange(0, t.len() as int) =~= t);
    assert(s.subrange(0, s.len() as int) =~= s);
    if !(over_allocated(s) || flex_count(s) == 0) {
        assert(pinned_total(t) == pinned_total(s));
        assert(flex_count(t) == flex_count(s));
        assert(redistributed(t) =~= t);
    }
}

/// Law: on an axis of `N` cells with exactly one pinned cell, at percent
/// `P <= 100`, redistribution hands every other cell
/// `floor((100 - P) / (N - 1))`, and the axis's shares then sum to
/// `P + (N - 1) * floor((100 - P) / (N - 1))` -- possibly short of 100, as
/// the division's remainder is dropped.
pub proof fn lemma_single_pin_redistribution(s: Seq<(u8, bool)>, k: int)
    requires
        s.len() >= 2,
        0 <= k < s.len(),
        s[k].1,
        s[k].0 <= 100,
        forall|j: int| 0 <= j < s.len() && j != k ==> !(#[trigger] s[j]).1,
    ensures
        forall|j: int|
            0 <= j < s.len() && j != k ==> (#[trigger] redistributed(s)[j]) == ((
            (100 - s[k].0 as int) / (s.len() - 1)) as u8, false),
        redistributed(s)[k] == s[k],
        share_total(redistributed(s)) == s[k].0 + (s.len() - 1) * ((100 - s[k].0 as int) / (s.len()
            - 1)),
{
    lemma_single_pin_counts(s, k);
    lemma_redistributed_share_total(s);
}

/// On an axis with exactly one pinned cell, the pinned total is that cell's
/// share and every other cell counts as flexible.
proof fn lemma_single_pin_counts(s: Seq<(u8, bool)>, k: int)
    requires
        0 <= k < s.len(),
        s[k].1,
        forall|j: int| 0 <= j < s.len() && j != k ==> !(#[trigger] s[j]).1,
    ensures
        pinned_total(s) == s[k].0 as int,
        flex_count(s) == s.len() - 1,
    decreases s.len(),
{
    if k == s.len() - 1 {
        lemma_all_flex_counts(s.drop_last());
    } else {
        lemma_single_pin_counts(s.drop_last(), k);
    }
}

/// On an axis with no pinned cell at all, nothing is reserved and every cell
/// is flexible.
pub proof fn lemma_all_flex_counts(s: Seq<(u8, bool)>)
    requires
        forall|j: int| 0 <= j < s.len() ==> !(#[trigger] s[j]).1,
    ensures
        pinned_total(s) == 0,
        flex_count(s) == s.len(),
    decreases s.len(),
{
    if s.len() > 0 {
        lemma_all_flex_counts(s.drop_last());
    }
}

/// On an axis whose cells all hold the same share, the shares sum to the
/// cell count times that share.
pub proof fn lemma_uniform_share_total(s: Seq<(u8, bool)>, v: u8)
    requires
        forall|j: int| 0 <= j < s.len() ==> (#[trigger] s[j]).0 == v,
    ensures
        share_total(s) == s.len() * v,
    decreases s.len(),
{
    if s.len() > 0 {
        lemma_uniform_share_total(s.drop_last(), v);
        let n = s.len() as int;
        assert((n - 1) * v + v == n * v) by (nonlinear_arith);
    }
}

/// The shares of any contiguous run of cells sum to no more than the whole
/// axis's shares.
pub proof fn lemma_share_subrange_le_total(s: Seq<(u8, bool)>, a: int, b: int)
    requires
        0 <= a <= b <= s.len(),
    ensures
        share_total(s.subrange(a, b)) <= share_total(s),
{
    lemma_share_total_split(s, a);
    let t = s.subrange(a, s.len() as int);
    lemma_share_total_split(t, b - a);
    assert(t.subrange(0, b - a) =~= s.subrange(a, b));
    lemma_counts_nonneg(s.subrange(0, a));
    lemma_counts_nonneg(t.subrange(b - a, t.len() as int));
}

} // verus!

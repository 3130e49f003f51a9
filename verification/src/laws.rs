//! Properties that relate several operations of the calculator, stated
//! over the spec functions its contracts use and proved once and for
//! all.

use vstd::prelude::*;

use crate::model::{
    CalcView, cache_hit, calc_delta, calc_post, calc_succeeds, compound_delta_of,
    lemma_compound_delta_nonneg,
};

verus! {

/// The interest delta reads only the principal, rate, period and
/// compounding flag: two records agreeing on those four fields yield the
/// same delta, whatever their accumulated interest, timestamps or memo
/// hold.
pub proof fn lemma_delta_reads_only_inputs(v: CalcView, w: CalcView)
    requires
        v.principal == w.principal,
        v.rate == w.rate,
        v.period == w.period,
        v.compound == w.compound,
    ensures
        calc_delta(v) == calc_delta(w),
{
}

/// Two consecutive successful calculations with unchanged inputs yield
/// equal deltas, and the accumulated interest after the second one is
/// the original total plus twice that delta.
pub proof fn lemma_consecutive_deltas_equal(v: CalcView, now1: nat, now2: nat)
    requires
        calc_succeeds(v),
        calc_succeeds(calc_post(v, now1)),
    ensures
        calc_delta(calc_post(v, now1)) == calc_delta(v),
        calc_post(calc_post(v, now1), now2).accumulated_interest == v.accumulated_interest + 2
            * calc_delta(v),
{
    let v1 = calc_post(v, now1);
    lemma_delta_reads_only_inputs(v, v1);
    if v.principal != 0 {
        if v.compound == 1 {
            lemma_compound_delta_nonneg(v.principal, v.rate, v.period);
        }
        assert(calc_delta(v) >= 0);
        assert(v1.accumulated_interest == v.accumulated_interest + calc_delta(v));
        assert(calc_post(v1, now2).accumulated_interest == v1.accumulated_interest + calc_delta(
            v1,
        ));
    }
}

/// A calculation never decreases the accumulated interest: both interest
/// formulas yield a non-negative delta, and in a well-formed record so
/// does the memo.
pub proof fn lemma_accumulation_monotone(v: CalcView, now: nat)
    ensures
        calc_post(v, now).accumulated_interest >= v.accumulated_interest,
{
    if v.principal != 0 && v.compound == 1 {
        lemma_compound_delta_nonneg(v.principal, v.rate, v.period);
    }
}

/// The single-entry memo can never serve a stale result: whenever the
/// memo key (rate, period) of a well-formed record matches the stored
/// rate and period, the memoised result already equals the compound
/// delta of the *current* principal.  The key ignores the principal on
/// purpose; soundness comes from every setter clearing the memo, so a
/// matching key only ever arises over the values now stored.
pub proof fn lemma_memo_result_is_current(v: CalcView)
    requires
        v.wf(),
        cache_hit(v),
    ensures
        v.cached_result == compound_delta_of(v.principal, v.rate, v.period),
{
}

} // verus!

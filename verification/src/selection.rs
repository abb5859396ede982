//! Coin selection: the candidates handed to the selection function, what is
//! known of its answer, and the arithmetic of sub-collections.

use vstd::prelude::*;
use vstd::seq_lib::to_multiset_remove;

verus! {

/// A spendable output as the selection function sees it: its value, and the
/// position in the pool by which it is found again.
#[derive(Clone, Copy, Debug, PartialEq, Eq, Structural)]
pub struct Candidate {
    pub value: u64,
    pub index: usize,
}

/// Sum of the values of `s`.
pub open spec fn total_value(s: Seq<Candidate>) -> int
    decreases s.len(),
{
    if s.len() == 0 {
        0
    } else {
        total_value(s.drop_last()) + s.last().value
    }
}

/// An amount of money of the `bitcoin` crate; nothing of its inside is read
/// here.
#[verifier::external_type_specification]
#[verifier::external_body]
pub struct ExAmount(bitcoin::Amount);

/// A transaction weight of the `bitcoin` crate; nothing of its inside is read
/// here.
#[verifier::external_type_specification]
#[verifier::external_body]
pub struct ExWeight(bitcoin::Weight);

/// The amount that `bitcoin::Amount::from_sat` makes of a number of the
/// smallest unit.
pub uninterp spec fn amount_of_sat(satoshi: u64) -> bitcoin::Amount;

/// The weight that `bitcoin::Weight::from_wu` makes of a number of weight
/// units.
pub uninterp spec fn weight_of_wu(wu: u64) -> bitcoin::Weight;

/// `bitcoin::Amount::from_sat` wraps a number of the smallest unit as an
/// amount, and does nothing else: the same number gives the same amount.
pub assume_specification[ bitcoin::Amount::from_sat ](satoshi: u64) -> (r: bitcoin::Amount)
    ensures
        r == amount_of_sat(satoshi),
;

/// `bitcoin::Weight::from_wu` wraps a number of weight units as a weight,
/// and does nothing else: the same number gives the same weight.
pub assume_specification[ bitcoin::Weight::from_wu ](wu: u64) -> (r: bitcoin::Weight)
    ensures
        r == weight_of_wu(wu),
;

/// How the selection function reads a candidate: by its value alone, with no
/// weight of its own, so that spending it costs nothing at any fee rate.
impl bitcoin_coin_selection::WeightedUtxo for Candidate {
    /// The weight that spending the candidate adds: none.
    fn satisfaction_weight(&self) -> (r: bitcoin::Weight)
        ensures
            r == weight_of_wu(0),
    {
        bitcoin::Weight::from_wu(0)
    }

    /// The candidate's value, as an amount of the smallest unit.
    fn value(&self) -> (r: bitcoin::Amount)
        ensures
            r == amount_of_sat(self.value),
    {
        bitcoin::Amount::from_sat(self.value)
    }
}

/// Calls `bitcoin_coin_selection::select_coins` on `pool`, at a fee rate and
/// a long-term fee rate of zero, and hands back copies of the candidates it
/// chose.
///
/// The outside function first searches for a selection without change and,
/// where it finds none, draws candidates in random order until the target is
/// met. So its answer is not a function of the arguments, and the contract
/// says only what holds of every answer: a selection is never empty, is a
/// sub-collection of the pool (each position taken at most once) and covers
/// the target. Nothing is said of when a selection is found. The outside
/// function finds none in a pool that does not cover the target, and it may
/// find none in one that does: it draws for no target above the money
/// supply and counts no value above the largest signed amount.
#[verifier::external_body]
pub(crate) fn select_coins(target: u64, cost_of_change: u64, pool: &Vec<Candidate>) -> (r: Option<
    Vec<Candidate>,
>)
    ensures
        match r {
            Some(chosen) => {
                &&& chosen@.len() > 0
                &&& chosen@.to_multiset().subset_of(pool@.to_multiset())
                &&& total_value(chosen@) >= target
            },
            None => true,
        },
{
    let found = bitcoin_coin_selection::select_coins(
        bitcoin::Amount::from_sat(target),
        bitcoin::Amount::from_sat(cost_of_change),
        bitcoin::FeeRate::ZERO,
        bitcoin::FeeRate::ZERO,
        pool.as_slice(),
    );
    match found {
        Some((_, chosen)) => Some(chosen.into_iter().copied().collect()),
        None => None,
    }
}

/// What makes `chosen` a selection from `pool` for `target`: every candidate
/// is the one found in the pool at the position it names, no position is
/// named twice, and the values add up to the target.
pub open spec fn picks_from(
    chosen: Seq<Candidate>,
    pool: Seq<Candidate>,
    target: u64,
) -> bool {
    &&& forall|k: int|
        0 <= k < chosen.len() ==> (#[trigger] chosen[k]).index < pool.len() && pool[chosen[k].index as int]
            == chosen[k]
    &&& forall|k: int, l: int|
        0 <= k < l < chosen.len() ==> (#[trigger] chosen[k]).index != (#[trigger] chosen[l]).index
    &&& total_value(chosen) >= target
}

/// The pool is numbered: each candidate carries its own position.
pub open spec fn numbered(pool: Seq<Candidate>) -> bool {
    forall|i: int| 0 <= i < pool.len() ==> (#[trigger] pool[i]).index == i
}

/// A sub-collection of a numbered pool names positions of the pool, each at
/// most once, and carries the values found there.
pub proof fn lemma_part_picks(chosen: Seq<Candidate>, pool: Seq<Candidate>, target: u64)
    requires
        numbered(pool),
        chosen.to_multiset().subset_of(pool.to_multiset()),
        total_value(chosen) >= target,
    ensures
        picks_from(chosen, pool, target),
{
    broadcast use vstd::multiset::group_multiset_axioms;
    broadcast use vstd::seq_lib::group_to_multiset_ensures;

    assert(pool.no_duplicates()) by {
        assert forall|i: int, j: int| 0 <= i < pool.len() && 0 <= j < pool.len() && i
            != j implies pool[i] != pool[j] by {
            assert(pool[i].index == i && pool[j].index == j);
        }
    }
    pool.lemma_multiset_has_no_duplicates();
    assert forall|x: Candidate| chosen.to_multiset().contains(x) implies chosen.to_multiset().count(
        x,
    ) == 1 by {
        assert(chosen.to_multiset().count(x) <= pool.to_multiset().count(x));
        assert(pool.to_multiset().contains(x));
    }
    chosen.lemma_multiset_has_no_duplicates_conv();
    assert forall|k: int| 0 <= k < chosen.len() implies (#[trigger] chosen[k]).index < pool.len()
        && pool[chosen[k].index as int] == chosen[k] by {
        let x = chosen[k];
        assert(chosen.contains(x));
        assert(chosen.to_multiset().count(x) > 0);
        assert(pool.to_multiset().count(x) > 0);
        assert(pool.contains(x));
        let j = choose|j: int| 0 <= j < pool.len() && pool[j] == x;
        assert(pool[j].index == j);
    }
    assert forall|k: int, l: int| 0 <= k < l < chosen.len() implies (#[trigger] chosen[k]).index
        != (#[trigger] chosen[l]).index by {
        if chosen[k].index == chosen[l].index {
            assert(pool[chosen[k].index as int] == chosen[k]);
            assert(pool[chosen[l].index as int] == chosen[l]);
            assert(chosen[k] == chosen[l]);
        }
    }
}

/// A sum of values is never negative.
pub proof fn lemma_total_nonnegative(s: Seq<Candidate>)
    ensures
        total_value(s) >= 0,
    decreases s.len(),
{
    if s.len() > 0 {
        lemma_total_nonnegative(s.drop_last());
    }
}

/// The front of a sequence sums to no more than the sequence.
pub proof fn lemma_total_of_front(s: Seq<Candidate>, n: int)
    requires
        0 <= n <= s.len(),
    ensures
        total_value(s.take(n)) <= total_value(s),
    decreases s.len(),
{
    if n == s.len() {
        assert(s.take(n) =~= s);
    } else {
        lemma_total_of_front(s.drop_last(), n);
        assert(s.drop_last().take(n) =~= s.take(n));
    }
}

/// Taking one candidate out lowers the sum by its value.
pub proof fn lemma_total_remove(s: Seq<Candidate>, i: int)
    requires
        0 <= i < s.len(),
    ensures
        total_value(s) == total_value(s.remove(i)) + s[i].value,
    decreases s.len(),
{
    if i == s.len() - 1 {
        assert(s.remove(i) =~= s.drop_last());
    } else {
        lemma_total_remove(s.drop_last(), i);
        assert(s.remove(i).drop_last() =~= s.drop_last().remove(i));
        assert(s.remove(i).last() == s.last());
    }
}

/// A sub-collection sums to no more than the collection it is taken from.
pub proof fn lemma_total_of_part(part: Seq<Candidate>, whole: Seq<Candidate>)
    requires
        part.to_multiset().subset_of(whole.to_multiset()),
    ensures
        total_value(part) <= total_value(whole),
    decreases part.len(),
{
    broadcast use vstd::multiset::group_multiset_axioms;
    broadcast use vstd::seq_lib::group_to_multiset_ensures;

    if part.len() == 0 {
        lemma_total_nonnegative(whole);
    } else {
        let x = part.last();
        let rest = part.drop_last();
        assert(part =~= rest.push(x));
        assert(part.to_multiset().count(x) > 0);
        assert(whole.to_multiset().count(x) > 0);
        assert(whole.contains(x));
        let j = choose|j: int| 0 <= j < whole.len() && whole[j] == x;
        let less = whole.remove(j);
        to_multiset_remove(whole, j);
        assert(rest.to_multiset().subset_of(less.to_multiset())) by {
            assert forall|a: Candidate| rest.to_multiset().count(a) <= less.to_multiset().count(
                a,
            ) by {
                assert(part.to_multiset().count(a) <= whole.to_multiset().count(a));
            }
        }
        lemma_total_of_part(rest, less);
        lemma_total_remove(whole, j);
    }
}

} // verus!

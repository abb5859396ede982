//! The funding coordinator: from the outputs a wallet reports as spendable
//! to the set that funds a contract.
//!
//! The wallet is asked outside this library. What it lists comes in as plain
//! values, and what is to be reserved goes out as a list of outpoints for the
//! caller to lock in one batch.

use vstd::prelude::*;
use crate::contract::copy_bytes;
use crate::error::Error;
use crate::selection::{lemma_part_picks, lemma_total_nonnegative, lemma_total_of_front,
    lemma_total_of_part, numbered, picks_from, select_coins, total_value, Candidate};

verus! {

/// What producing a change output is taken to cost, in the smallest unit,
/// unless the caller says otherwise.
pub const COST_OF_CHANGE: u64 = 20;

/// Reference to one output of one earlier transaction.
#[derive(Clone, Copy, Debug, PartialEq, Eq)]
pub struct OutPoint {
    pub txid: [u8; 32],
    pub vout: u32,
}

/// Mathematical value of an [`OutPoint`].
pub ghost struct OutPointModel {
    pub txid: Seq<u8>,
    pub vout: u32,
}

impl View for OutPoint {
    type V = OutPointModel;

    open spec fn view(&self) -> OutPointModel {
        OutPointModel { txid: self.txid@, vout: self.vout }
    }
}

/// A transaction output: a value in the smallest unit and the script that
/// owns it.
#[derive(Debug, PartialEq, Eq)]
pub struct TxOut {
    pub value: u64,
    pub script_pubkey: Vec<u8>,
}

/// A spendable output. Its identity is its outpoint.
#[derive(Debug, PartialEq, Eq)]
pub struct Utxo {
    pub tx_out: TxOut,
    pub outpoint: OutPoint,
    pub address: String,
    pub redeem_script: Vec<u8>,
}

/// Mathematical value of a [`Utxo`].
pub ghost struct UtxoModel {
    pub value: u64,
    pub script_pubkey: Seq<u8>,
    pub outpoint: OutPointModel,
    pub address: Seq<char>,
    pub redeem_script: Seq<u8>,
}

impl View for Utxo {
    type V = UtxoModel;

    open spec fn view(&self) -> UtxoModel {
        UtxoModel {
            value: self.tx_out.value,
            script_pubkey: self.tx_out.script_pubkey@,
            outpoint: self.outpoint@,
            address: self.address@,
            redeem_script: self.redeem_script@,
        }
    }
}

impl Clone for Utxo {
    fn clone(&self) -> (r: Self)
        ensures
            r@ == self@,
    {
        Utxo {
            tx_out: TxOut {
                value: self.tx_out.value,
                script_pubkey: copy_bytes(&self.tx_out.script_pubkey),
            },
            outpoint: self.outpoint,
            address: self.address.clone(),
            redeem_script: copy_bytes(&self.redeem_script),
        }
    }
}

/// One output as the wallet lists it. The wallet may not know the address
/// that owns an output, and most outputs have no redeem script.
#[derive(Debug, PartialEq, Eq)]
pub struct UnspentOutput {
    pub txid: [u8; 32],
    pub vout: u32,
    pub address: Option<String>,
    pub script_pub_key: Vec<u8>,
    pub amount: u64,
    pub redeem_script: Option<Vec<u8>>,
}

impl UnspentOutput {
    /// Whether the wallet knows the address that owns the output.
    pub open spec fn is_tracked(&self) -> bool {
        self.address is Some
    }

    /// The spendable output that a tracked listing stands for. A missing
    /// redeem script is the empty script.
    pub open spec fn utxo(&self) -> UtxoModel {
        UtxoModel {
            value: self.amount,
            script_pubkey: self.script_pub_key@,
            outpoint: OutPointModel { txid: self.txid@, vout: self.vout },
            address: match self.address {
                Some(a) => a@,
                None => Seq::empty(),
            },
            redeem_script: match self.redeem_script {
                Some(s) => s@,
                None => Seq::empty(),
            },
        }
    }

    /// The spendable output that the listing stands for. An output without
    /// an owning address is refused: ownership of it could not be shown
    /// later.
    pub fn to_utxo(&self) -> (r: Result<Utxo, Error>)
        ensures
            match r {
                Ok(u) => self.is_tracked() && u@ == self.utxo(),
                Err(e) => e == Error::InvalidState && !self.is_tracked(),
            },
    {
        match &self.address {
            None => Err(Error::InvalidState),
            Some(address) => {
                let redeem_script = match &self.redeem_script {
                    Some(s) => copy_bytes(s),
                    None => Vec::new(),
                };
                Ok(
                    Utxo {
                        tx_out: TxOut {
                            value: self.amount,
                            script_pubkey: copy_bytes(&self.script_pub_key),
                        },
                        outpoint: OutPoint { txid: self.txid, vout: self.vout },
                        address: address.clone(),
                        redeem_script,
                    },
                )
            },
        }
    }
}

/// The outputs chosen to fund a contract, and the outpoints the caller is to
/// lock in one batch call: `None` where no reservation was asked for.
#[derive(Debug, PartialEq, Eq)]
pub struct Funding {
    pub utxos: Vec<Utxo>,
    pub reserve: Option<Vec<OutPoint>>,
}

/// Mathematical value of a [`Funding`].
pub ghost struct FundingModel {
    pub utxos: Seq<UtxoModel>,
    pub reserve: Option<Seq<OutPointModel>>,
}

/// The values of a sequence of outputs.
pub open spec fn models(utxos: Seq<Utxo>) -> Seq<UtxoModel> {
    Seq::new(utxos.len(), |i: int| utxos[i]@)
}

/// The values of a sequence of outpoints.
pub open spec fn outpoint_models(outpoints: Seq<OutPoint>) -> Seq<OutPointModel> {
    Seq::new(outpoints.len(), |i: int| outpoints[i]@)
}

impl View for Funding {
    type V = FundingModel;

    open spec fn view(&self) -> FundingModel {
        FundingModel {
            utxos: models(self.utxos@),
            reserve: match self.reserve {
                Some(r) => Some(outpoint_models(r@)),
                None => None,
            },
        }
    }
}

/// Whether the wallet knows the owner of every listed output.
pub open spec fn all_tracked(unspent: Seq<UnspentOutput>) -> bool {
    forall|i: int| 0 <= i < unspent.len() ==> (#[trigger] unspent[i]).is_tracked()
}

/// The pool of spendable outputs that a listing stands for.
pub open spec fn pool_of(unspent: Seq<UnspentOutput>) -> Seq<UtxoModel> {
    Seq::new(unspent.len(), |i: int| unspent[i].utxo())
}

/// The pool as the selection function sees it: each output by its value and
/// its position.
pub open spec fn candidates_of(pool: Seq<UtxoModel>) -> Seq<Candidate> {
    Seq::new(pool.len(), |i: int| Candidate { value: pool[i].value, index: i as usize })
}

/// Sum of the values of `utxos`.
pub open spec fn value_of(utxos: Seq<UtxoModel>) -> int {
    total_value(candidates_of(utxos))
}

/// The outpoints of `utxos`, in their order.
pub open spec fn outpoints_of(utxos: Seq<UtxoModel>) -> Seq<OutPointModel> {
    Seq::new(utxos.len(), |i: int| utxos[i].outpoint)
}

/// The outputs of `pool` that `chosen` names, in the order it names them.
pub open spec fn picked(pool: Seq<UtxoModel>, chosen: Seq<Candidate>) -> Seq<UtxoModel> {
    Seq::new(chosen.len(), |k: int| pool[chosen[k].index as int])
}

/// Whether the pool can fund the amount at all: it is not empty and its
/// values add up to the amount.
pub open spec fn covers(pool: Seq<UtxoModel>, amount: u64) -> bool {
    pool.len() > 0 && value_of(pool) >= amount
}

/// Length of the shortest front of `pool`, of at least `n` outputs, that
/// covers the amount; the length of the pool where none does.
pub open spec fn cover_from(pool: Seq<UtxoModel>, amount: u64, n: int) -> int
    decreases pool.len() - n,
{
    if n >= pool.len() || value_of(pool.take(n)) >= amount {
        n
    } else {
        cover_from(pool, amount, n + 1)
    }
}

/// The outputs taken from the front of the pool, in the order they are
/// listed, until the amount is covered: at least one.
pub open spec fn front_cover(pool: Seq<UtxoModel>, amount: u64) -> Seq<UtxoModel> {
    pool.take(cover_from(pool, amount, 1))
}

/// The funding that `utxos` make, with their outpoints to reserve where that
/// is asked for.
pub open spec fn funding_of(utxos: Seq<UtxoModel>, lock_utxos: bool) -> FundingModel {
    FundingModel {
        utxos,
        reserve: if lock_utxos {
            Some(outpoints_of(utxos))
        } else {
            None
        },
    }
}

/// What the coordinator answers to `choice`, the selection function's answer
/// on the pool and the amount. A selection is turned into the outputs it
/// names, with their outpoints to reserve where that was asked for. An
/// answer that is no selection from this pool is refused as malformed. Where
/// the selection function found nothing, a pool that covers the amount is
/// taken from the front, and only a pool that does not is short of coins.
pub open spec fn settled(
    pool: Seq<UtxoModel>,
    amount: u64,
    lock_utxos: bool,
    choice: Option<Seq<Candidate>>,
) -> Result<FundingModel, Error> {
    match choice {
        None => if covers(pool, amount) {
            Ok(funding_of(front_cover(pool, amount), lock_utxos))
        } else {
            Err(Error::NotEnoughCoins)
        },
        Some(chosen) => if picks_from(chosen, candidates_of(pool), amount) {
            Ok(funding_of(picked(pool, chosen), lock_utxos))
        } else {
            Err(Error::InvalidState)
        },
    }
}

/// Every member of `utxos` sits in `pool`, each at a position of its own.
pub open spec fn drawn_from(utxos: Seq<UtxoModel>, pool: Seq<UtxoModel>) -> bool {
    exists|at: Seq<int>|
        #![trigger at.len()]
        {
            &&& at.len() == utxos.len()
            &&& at.no_duplicates()
            &&& forall|k: int|
                0 <= k < at.len() ==> 0 <= #[trigger] at[k] < pool.len() && pool[at[k]] == utxos[k]
        }
}

/// What a funding owes its caller: outputs of the pool, each taken once,
/// that cover the amount, and their outpoints to reserve exactly where a
/// reservation was asked for.
pub open spec fn funds(f: FundingModel, pool: Seq<UtxoModel>, amount: u64, lock_utxos: bool) -> bool {
    &&& f.utxos.len() > 0
    &&& drawn_from(f.utxos, pool)
    &&& value_of(f.utxos) >= amount
    &&& f.reserve == if lock_utxos {
        Some(outpoints_of(f.utxos))
    } else {
        None
    }
}

/// Two sequences that agree on every value have the same sum.
pub proof fn lemma_total_by_values(a: Seq<Candidate>, b: Seq<Candidate>)
    requires
        a.len() == b.len(),
        forall|i: int| 0 <= i < a.len() ==> a[i].value == b[i].value,
    ensures
        total_value(a) == total_value(b),
    decreases a.len(),
{
    if a.len() > 0 {
        lemma_total_by_values(a.drop_last(), b.drop_last());
    }
}

/// The outputs that a selection names are drawn from the pool and are worth
/// what the selection is worth.
pub proof fn lemma_picked(pool: Seq<UtxoModel>, chosen: Seq<Candidate>, amount: u64)
    requires
        picks_from(chosen, candidates_of(pool), amount),
    ensures
        drawn_from(picked(pool, chosen), pool),
        value_of(picked(pool, chosen)) == total_value(chosen),
{
    let utxos = picked(pool, chosen);
    let at = Seq::new(chosen.len(), |k: int| chosen[k].index as int);
    assert forall|k: int| 0 <= k < at.len() implies 0 <= #[trigger] at[k] < pool.len() && pool[at[k]]
        == utxos[k] by {
        assert(chosen[k].index < candidates_of(pool).len());
    }
    assert(at.no_duplicates()) by {
        assert forall|k: int, l: int| 0 <= k < at.len() && 0 <= l < at.len() && k != l implies at[k]
            != at[l] by {
            if k < l {
                assert(chosen[k].index != chosen[l].index);
            } else {
                assert(chosen[l].index != chosen[k].index);
            }
        }
    }
    assert(at.len() == utxos.len());
    assert forall|k: int| 0 <= k < chosen.len() implies candidates_of(utxos)[k].value
        == chosen[k].value by {
        assert(chosen[k].index < candidates_of(pool).len());
        assert(candidates_of(pool)[chosen[k].index as int] == chosen[k]);
    }
    lemma_total_by_values(candidates_of(utxos), chosen);
}

/// A front of the pool is worth what its candidates are worth, and one
/// output more adds that output's value.
pub proof fn lemma_value_of_front(pool: Seq<UtxoModel>, n: int)
    requires
        0 <= n <= pool.len(),
    ensures
        0 <= value_of(pool.take(n)) <= value_of(pool),
        n < pool.len() ==> value_of(pool.take(n + 1)) == value_of(pool.take(n)) + pool[n].value,
{
    assert(candidates_of(pool.take(n)) =~= candidates_of(pool).take(n));
    lemma_total_of_front(candidates_of(pool), n);
    lemma_total_nonnegative(candidates_of(pool.take(n)));
    if n < pool.len() {
        let longer = candidates_of(pool.take(n + 1));
        assert(longer.drop_last() =~= candidates_of(pool.take(n)));
        assert(longer.last().value == pool[n].value);
    }
}

/// In a pool that covers the amount, the search for the shortest covering
/// front ends on a front that covers it.
pub proof fn lemma_cover_from(pool: Seq<UtxoModel>, amount: u64, n: int)
    requires
        1 <= n <= pool.len(),
        value_of(pool) >= amount,
    ensures
        n <= cover_from(pool, amount, n) <= pool.len(),
        value_of(pool.take(cover_from(pool, amount, n))) >= amount,
    decreases pool.len() - n,
{
    if n >= pool.len() {
        assert(pool.take(n) =~= pool);
    } else if value_of(pool.take(n)) >= amount {
    } else {
        lemma_cover_from(pool, amount, n + 1);
    }
}

/// The front taken from a pool that covers the amount is a funding of it.
pub proof fn lemma_front_funds(pool: Seq<UtxoModel>, amount: u64, lock_utxos: bool)
    requires
        covers(pool, amount),
    ensures
        funds(funding_of(front_cover(pool, amount), lock_utxos), pool, amount, lock_utxos),
{
    lemma_cover_from(pool, amount, 1);
    let n = cover_from(pool, amount, 1);
    let at = Seq::new(n as nat, |k: int| k);
    assert(at.len() == front_cover(pool, amount).len());
    assert(at.no_duplicates());
    assert forall|k: int| 0 <= k < at.len() implies 0 <= #[trigger] at[k] < pool.len() && pool[at[k]]
        == front_cover(pool, amount)[k] by {}
}

/// Turns the wallet's listing into the pool of spendable outputs. One output
/// without an owning address makes the whole listing unusable.
pub fn build_pool(unspent: &Vec<UnspentOutput>) -> (r: Result<Vec<Utxo>, Error>)
    ensures
        match r {
            Ok(pool) => all_tracked(unspent@) && models(pool@) == pool_of(unspent@),
            Err(e) => e == Error::InvalidState && !all_tracked(unspent@),
        },
{
    let mut pool: Vec<Utxo> = Vec::new();
    let mut i: usize = 0;
    while i < unspent.len()
        invariant
            0 <= i <= unspent@.len(),
            pool@.len() == i,
            forall|j: int| 0 <= j < i ==> (#[trigger] unspent@[j]).is_tracked(),
            forall|j: int| 0 <= j < i ==> (#[trigger] pool@[j])@ == unspent@[j].utxo(),
        decreases unspent@.len() - i,
    {
        match unspent[i].to_utxo() {
            Ok(utxo) => {
                pool.push(utxo);
            },
            Err(_) => {
                assert(!unspent@[i as int].is_tracked());
                return Err(Error::InvalidState);
            },
        }
        i += 1;
    }
    assert(models(pool@) =~= pool_of(unspent@));
    Ok(pool)
}

/// Wraps each output of the pool as a candidate for selection: its value,
/// and its position in the pool.
pub fn build_candidates(pool: &Vec<Utxo>) -> (r: Vec<Candidate>)
    ensures
        r@ == candidates_of(models(pool@)),
{
    let mut out: Vec<Candidate> = Vec::new();
    let mut i: usize = 0;
    while i < pool.len()
        invariant
            0 <= i <= pool@.len(),
            out@.len() == i,
            forall|j: int|
                0 <= j < i ==> #[trigger] out@[j] == (Candidate {
                    value: pool@[j]@.value,
                    index: j as usize,
                }),
        decreases pool@.len() - i,
    {
        out.push(Candidate { value: pool[i].tx_out.value, index: i });
        i += 1;
    }
    assert(out@ =~= candidates_of(models(pool@)));
    out
}

/// The outpoints of `utxos`, in their order.
pub fn collect_outpoints(utxos: &Vec<Utxo>) -> (r: Vec<OutPoint>)
    ensures
        outpoint_models(r@) == outpoints_of(models(utxos@)),
{
    let mut out: Vec<OutPoint> = Vec::new();
    let mut i: usize = 0;
    while i < utxos.len()
        invariant
            0 <= i <= utxos@.len(),
            out@.len() == i,
            forall|j: int| 0 <= j < i ==> (#[trigger] out@[j])@ == utxos@[j]@.outpoint,
        decreases utxos@.len() - i,
    {
        out.push(utxos[i].outpoint);
        i += 1;
    }
    assert(outpoint_models(out@) =~= outpoints_of(models(utxos@)));
    out
}

/// Takes outputs from the front of the pool, in the order they are listed,
/// until the amount is covered, and at least one; `None` where the pool
/// cannot cover the amount.
pub fn cover_front(pool: &Vec<Utxo>, amount: u64) -> (r: Option<Vec<Utxo>>)
    ensures
        match r {
            Some(utxos) => covers(models(pool@), amount) && models(utxos@) == front_cover(
                models(pool@),
                amount,
            ),
            None => !covers(models(pool@), amount),
        },
{
    if pool.len() == 0 {
        return None;
    }
    let ghost all = models(pool@);
    let mut utxos: Vec<Utxo> = Vec::new();
    utxos.push(pool[0].clone());
    proof {
        lemma_value_of_front(all, 0);
        assert(all.take(0) =~= Seq::<UtxoModel>::empty());
        assert(value_of(all.take(0)) == 0);
    }
    let first = pool[0].tx_out.value;
    let mut missing: u64 = if first >= amount {
        0
    } else {
        amount - first
    };
    let mut n: usize = 1;
    while missing > 0 && n < pool.len()
        invariant
            1 <= n <= pool@.len(),
            all == models(pool@),
            utxos@.len() == n,
            forall|l: int| 0 <= l < n ==> (#[trigger] utxos@[l])@ == pool@[l]@,
            missing == if value_of(all.take(n as int)) >= amount {
                0
            } else {
                amount - value_of(all.take(n as int))
            },
            cover_from(all, amount, 1) == cover_from(all, amount, n as int),
        decreases pool@.len() - n,
    {
        proof {
            lemma_value_of_front(all, n as int);
        }
        let value = pool[n].tx_out.value;
        utxos.push(pool[n].clone());
        missing = if value >= missing {
            0
        } else {
            missing - value
        };
        n += 1;
    }
    proof {
        lemma_value_of_front(all, n as int);
    }
    if missing > 0 {
        assert(all.take(n as int) =~= all);
        None
    } else {
        assert(models(utxos@) =~= all.take(n as int));
        Some(utxos)
    }
}

/// The value of an answer of the selection function, as the contracts speak
/// of it.
pub open spec fn choice_model(choice: Option<Vec<Candidate>>) -> Option<Seq<Candidate>> {
    match choice {
        Some(chosen) => Some(chosen@),
        None => None,
    }
}

/// Decides what the coordinator answers to `choice`, the selection
/// function's answer on `pool` and `amount`: see [`settled`].
pub fn settle(
    pool: &Vec<Utxo>,
    amount: u64,
    lock_utxos: bool,
    choice: Option<Vec<Candidate>>,
) -> (r: Result<Funding, Error>)
    ensures
        match r {
            Ok(f) => settled(models(pool@), amount, lock_utxos, choice_model(choice)) == Ok::<
                FundingModel,
                Error,
            >(f@),
            Err(e) => settled(models(pool@), amount, lock_utxos, choice_model(choice)) == Err::<
                FundingModel,
                Error,
            >(e),
        },
{
    let chosen = match choice {
        None => {
            return match cover_front(pool, amount) {
                Some(utxos) => {
                    let reserve = if lock_utxos {
                        Some(collect_outpoints(&utxos))
                    } else {
                        None
                    };
                    Ok(Funding { utxos, reserve })
                },
                None => Err(Error::NotEnoughCoins),
            };
        },
        Some(chosen) => chosen,
    };
    let ghost cands = candidates_of(models(pool@));
    let size = pool.len();
    let mut taken: Vec<bool> = Vec::new();
    let mut i: usize = 0;
    while i < size
        invariant
            0 <= i <= size,
            taken@.len() == i,
            forall|j: int| 0 <= j < i ==> !(#[trigger] taken@[j]),
        decreases size - i,
    {
        taken.push(false);
        i += 1;
    }
    let mut utxos: Vec<Utxo> = Vec::new();
    let mut missing: u64 = amount;
    let mut k: usize = 0;
    while k < chosen.len()
        invariant
            0 <= k <= chosen@.len(),
            choice_model(choice) == Some(chosen@),
            size == pool@.len(),
            cands == candidates_of(models(pool@)),
            taken@.len() == size,
            utxos@.len() == k,
            forall|l: int|
                0 <= l < k ==> (#[trigger] chosen@[l]).index < size && cands[chosen@[l].index as int]
                    == chosen@[l],
            forall|l: int, m: int|
                0 <= l < m < k ==> (#[trigger] chosen@[l]).index != (#[trigger] chosen@[m]).index,
            forall|j: int|
                0 <= j < size ==> (#[trigger] taken@[j] <==> exists|l: int|
                    0 <= l < k && (#[trigger] chosen@[l]).index == j),
            forall|l: int| 0 <= l < k ==> (#[trigger] utxos@[l])@ == pool@[chosen@[l].index as int]@,
            missing == if total_value(chosen@.take(k as int)) >= amount {
                0
            } else {
                amount - total_value(chosen@.take(k as int))
            },
        decreases chosen@.len() - k,
    {
        let c = chosen[k];
        if c.index >= size {
            assert(!picks_from(chosen@, cands, amount));
            return Err(Error::InvalidState);
        }
        if pool[c.index].tx_out.value != c.value {
            assert(cands[c.index as int] != chosen@[k as int]);
            assert(!picks_from(chosen@, cands, amount));
            return Err(Error::InvalidState);
        }
        if taken[c.index] {
            let ghost l = choose|l: int| 0 <= l < k && (#[trigger] chosen@[l]).index == c.index;
            assert(chosen@[l].index == chosen@[k as int].index);
            assert(!picks_from(chosen@, cands, amount));
            return Err(Error::InvalidState);
        }
        let ghost before = taken@;
        taken.set(c.index, true);
        utxos.push(pool[c.index].clone());
        proof {
            let next = chosen@.take(k + 1);
            assert(next.drop_last() =~= chosen@.take(k as int));
            assert(next.last() == chosen@[k as int]);
            crate::selection::lemma_total_nonnegative(chosen@.take(k as int));
        }
        missing = if c.value >= missing {
            0
        } else {
            missing - c.value
        };
        proof {
            assert forall|j: int| 0 <= j < size implies (#[trigger] taken@[j] <==> exists|l: int|
                0 <= l < k + 1 && (#[trigger] chosen@[l]).index == j) by {
                if j == c.index {
                    assert(chosen@[k as int].index == j);
                } else {
                    assert(taken@[j] == before[j]);
                    if before[j] {
                        let l = choose|l: int| 0 <= l < k && (#[trigger] chosen@[l]).index == j;
                        assert(0 <= l < k + 1 && chosen@[l].index == j);
                    }
                }
            }
            assert forall|l: int, m: int| 0 <= l < m < k + 1 implies (#[trigger] chosen@[l]).index
                != (#[trigger] chosen@[m]).index by {
                if m == k {
                    if chosen@[l].index == c.index {
                        assert(before[c.index as int]);
                    }
                }
            }
        }
        k += 1;
    }
    assert(chosen@.take(k as int) =~= chosen@);
    if missing > 0 {
        assert(!picks_from(chosen@, cands, amount));
        return Err(Error::InvalidState);
    }
    assert(picks_from(chosen@, cands, amount));
    assert(models(utxos@) =~= picked(models(pool@), chosen@));
    let reserve = if lock_utxos {
        Some(collect_outpoints(&utxos))
    } else {
        None
    };
    Ok(Funding { utxos, reserve })
}

/// Chooses the outputs that fund `amount` from what the wallet lists, taking
/// a change output to cost `cost_of_change`.
///
/// An output without an owning address makes the listing unusable. Otherwise
/// a funding is found exactly where the pool is not empty and covers the
/// amount. The selection function decides which outputs are taken, and that
/// is its own affair; where it finds none in a pool that covers the amount,
/// the outputs are taken from the front of the listing. Whichever it is, a
/// funding is drawn from the pool, covers the amount and names the outpoints
/// to reserve exactly where `lock_utxos` asks for it.
pub fn select_funding_with_cost(
    unspent: &Vec<UnspentOutput>,
    amount: u64,
    cost_of_change: u64,
    lock_utxos: bool,
) -> (r: Result<Funding, Error>)
    ensures
        match r {
            Ok(f) => all_tracked(unspent@) && funds(f@, pool_of(unspent@), amount, lock_utxos),
            Err(e) => if all_tracked(unspent@) {
                e == Error::NotEnoughCoins && !covers(pool_of(unspent@), amount)
            } else {
                e == Error::InvalidState
            },
        },
        r is Ok <==> all_tracked(unspent@) && covers(pool_of(unspent@), amount),
{
    let pool = match build_pool(unspent) {
        Ok(pool) => pool,
        Err(e) => {
            return Err(e);
        },
    };
    let candidates = build_candidates(&pool);
    let choice = select_coins(amount, cost_of_change, &candidates);
    proof {
        assert(numbered(candidates@));
        match choice_model(choice) {
            Some(chosen) => {
                lemma_part_picks(chosen, candidates@, amount);
                lemma_total_of_part(chosen, candidates@);
                lemma_picked(models(pool@), chosen, amount);
            },
            None => {
                if covers(models(pool@), amount) {
                    lemma_front_funds(models(pool@), amount, lock_utxos);
                }
            },
        }
    }
    settle(&pool, amount, lock_utxos, choice)
}

/// Chooses the outputs that fund `amount` from what the wallet lists, at the
/// default cost of change. The fee rate is advisory and takes no part in the
/// choice. See [`select_funding_with_cost`].
pub fn select_funding(
    unspent: &Vec<UnspentOutput>,
    amount: u64,
    _fee_rate: Option<u64>,
    lock_utxos: bool,
) -> (r: Result<Funding, Error>)
    ensures
        match r {
            Ok(f) => all_tracked(unspent@) && funds(f@, pool_of(unspent@), amount, lock_utxos),
            Err(e) => if all_tracked(unspent@) {
                e == Error::NotEnoughCoins && !covers(pool_of(unspent@), amount)
            } else {
                e == Error::InvalidState
            },
        },
        r is Ok <==> all_tracked(unspent@) && covers(pool_of(unspent@), amount),
{
    select_funding_with_cost(unspent, amount, COST_OF_CHANGE, lock_utxos)
}

} // verus!

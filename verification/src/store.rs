//! The contract store: an in-memory registry of contracts, each filed under
//! the one identifier it is known by at its stage.
//!
//! The store is modelled as a map from identifier to contract. Its entries
//! carry their own key, so a contract can never sit under a key other than
//! its current identifier, and no identifier is held twice.

use vstd::prelude::*;
use crate::contract::{same_id, Contract, ContractId, ContractModel, OfferedContract, OfferedModel,
    SignedContract, SignedModel, Stage};

verus! {

/// Why a store operation did not succeed.
#[derive(Clone, Copy, Debug, PartialEq, Eq, Structural)]
pub enum StorageError {
    /// No contract is stored under the identifier asked for.
    NotFound,
    /// The identifier of a new contract is already taken.
    AlreadyExists,
}

/// Identifier under which the `i`-th contract of `s` is filed.
pub open spec fn key_at(s: Seq<Contract>, i: int) -> Seq<u8> {
    s[i]@.current_id()
}

/// No two contracts of `s` are filed under the same identifier.
pub open spec fn distinct_keys(s: Seq<Contract>) -> bool {
    forall|i: int, j: int| 0 <= i < j < s.len() ==> key_at(s, i) != key_at(s, j)
}

/// Whether some contract of `s` is filed under `k`.
pub open spec fn holds_key(s: Seq<Contract>, k: Seq<u8>) -> bool {
    exists|i: int| 0 <= i < s.len() && key_at(s, i) == k
}

/// Position in `s` of a contract filed under `k`.
pub open spec fn slot_of(s: Seq<Contract>, k: Seq<u8>) -> int {
    choose|i: int| 0 <= i < s.len() && key_at(s, i) == k
}

/// The map that a sequence of contracts stands for.
pub open spec fn registry(s: Seq<Contract>) -> Map<Seq<u8>, ContractModel> {
    Map::new(|k: Seq<u8>| holds_key(s, k), |k: Seq<u8>| s[slot_of(s, k)]@)
}

/// What a lookup of `id` in the registry finds.
pub open spec fn found(m: Map<Seq<u8>, ContractModel>, id: Seq<u8>) -> Option<ContractModel> {
    if m.contains_key(id) {
        Some(m[id])
    } else {
        None
    }
}

/// The registry after `contract` is offered to it: unchanged where the
/// identifier is taken, extended by the offer otherwise.
pub open spec fn created(m: Map<Seq<u8>, ContractModel>, contract: OfferedModel) -> Map<
    Seq<u8>,
    ContractModel,
> {
    if m.contains_key(contract.id) {
        m
    } else {
        m.insert(contract.id, ContractModel::Offered(contract))
    }
}

/// The registry after `contract` is stored in it: the entry under the
/// temporary identifier is retired where the stage asks for it, and the
/// contract then takes the place under its current identifier.
pub open spec fn updated(m: Map<Seq<u8>, ContractModel>, contract: ContractModel) -> Map<
    Seq<u8>,
    ContractModel,
> {
    let kept = if contract.retires_temporary() {
        m.remove(contract.temporary_id())
    } else {
        m
    };
    kept.insert(contract.current_id(), contract)
}

/// What a stage-filtered listing of the registry `m` must be: every listed
/// contract is stored, at the stage asked for, under its own identifier;
/// every stored contract of that stage is listed; none is listed twice.
pub open spec fn lists_stage(
    listed: Seq<SignedContract>,
    m: Map<Seq<u8>, ContractModel>,
    stage: Stage,
) -> bool {
    &&& forall|i: int|
        0 <= i < listed.len() ==> m.contains_key(#[trigger] listed[i]@.id) && m[listed[i]@.id]
            == staged(listed[i]@, stage)
    &&& forall|k: Seq<u8>|
        m.contains_key(k) && (#[trigger] m[k]).stage() == stage ==> exists|i: int|
            0 <= i < listed.len() && #[trigger] listed[i]@.id == k
    &&& forall|i: int, j: int|
        0 <= i < j < listed.len() ==> #[trigger] listed[i]@.id != #[trigger] listed[j]@.id
}

/// A signed contract tagged `Confirmed` where `stage` says so, `Signed`
/// otherwise.
pub open spec fn staged(contract: SignedModel, stage: Stage) -> ContractModel {
    if stage == Stage::Confirmed {
        ContractModel::Confirmed(contract)
    } else {
        ContractModel::Signed(contract)
    }
}

/// Every position of a sequence with distinct keys is found again through
/// its key.
pub proof fn lemma_registry_at(s: Seq<Contract>, i: int)
    requires
        distinct_keys(s),
        0 <= i < s.len(),
    ensures
        registry(s).contains_key(key_at(s, i)),
        registry(s)[key_at(s, i)] == s[i]@,
        slot_of(s, key_at(s, i)) == i,
{
    let k = key_at(s, i);
    assert(holds_key(s, k));
    let j = slot_of(s, k);
    assert(0 <= j < s.len() && key_at(s, j) == k);
    if j < i {
        assert(key_at(s, j) != key_at(s, i));
    }
    if i < j {
        assert(key_at(s, i) != key_at(s, j));
    }
}

/// Appending a contract whose identifier is free inserts it in the registry.
pub proof fn lemma_registry_push(s: Seq<Contract>, c: Contract)
    requires
        distinct_keys(s),
        !holds_key(s, c@.current_id()),
    ensures
        distinct_keys(s.push(c)),
        registry(s.push(c)) == registry(s).insert(c@.current_id(), c@),
{
    let t = s.push(c);
    assert forall|i: int, j: int| 0 <= i < j < t.len() implies key_at(t, i) != key_at(t, j) by {
        if j == s.len() {
            assert(key_at(s, i) == key_at(t, i));
            assert(!holds_key(s, c@.current_id()));
        } else {
            assert(key_at(s, i) == key_at(t, i));
            assert(key_at(s, j) == key_at(t, j));
        }
    }
    let m = registry(s).insert(c@.current_id(), c@);
    assert forall|k: Seq<u8>| registry(t).contains_key(k) <==> m.contains_key(k) by {
        if holds_key(t, k) {
            let i = slot_of(t, k);
            if i < s.len() {
                assert(key_at(s, i) == k);
            }
        }
        if holds_key(s, k) {
            let i = slot_of(s, k);
            assert(key_at(t, i) == k);
        }
        if k == c@.current_id() {
            assert(key_at(t, s.len() as int) == k);
        }
    }
    assert forall|k: Seq<u8>| registry(t).contains_key(k) implies registry(t)[k] == m[k] by {
        let i = slot_of(t, k);
        lemma_registry_at(t, i);
        if i < s.len() {
            assert(key_at(s, i) == k);
            lemma_registry_at(s, i);
        }
    }
    assert(registry(t) =~= m);
}

/// Taking a contract out of the sequence removes its key from the registry.
pub proof fn lemma_registry_remove(s: Seq<Contract>, i: int)
    requires
        distinct_keys(s),
        0 <= i < s.len(),
    ensures
        distinct_keys(s.remove(i)),
        registry(s.remove(i)) == registry(s).remove(key_at(s, i)),
{
    let t = s.remove(i);
    let gone = key_at(s, i);
    assert forall|a: int| 0 <= a < t.len() implies key_at(t, a) == key_at(
        s,
        if a < i {
            a
        } else {
            a + 1
        },
    ) by {}
    assert forall|a: int, b: int| 0 <= a < b < t.len() implies key_at(t, a) != key_at(t, b) by {
        let sa = if a < i {
            a
        } else {
            a + 1
        };
        let sb = if b < i {
            b
        } else {
            b + 1
        };
        assert(key_at(s, sa) != key_at(s, sb));
    }
    let m = registry(s).remove(gone);
    assert forall|k: Seq<u8>| registry(t).contains_key(k) <==> m.contains_key(k) by {
        if holds_key(t, k) {
            let a = slot_of(t, k);
            let sa = if a < i {
                a
            } else {
                a + 1
            };
            assert(key_at(s, sa) == k);
            if sa < i {
                assert(key_at(s, sa) != key_at(s, i));
            } else {
                assert(key_at(s, i) != key_at(s, sa));
            }
        }
        if holds_key(s, k) && k != gone {
            let b = slot_of(s, k);
            let tb = if b < i {
                b
            } else {
                b - 1
            };
            assert(key_at(t, tb) == k);
        }
    }
    assert forall|k: Seq<u8>| registry(t).contains_key(k) implies registry(t)[k] == m[k] by {
        let a = slot_of(t, k);
        lemma_registry_at(t, a);
        let sa = if a < i {
            a
        } else {
            a + 1
        };
        assert(key_at(s, sa) == k);
        lemma_registry_at(s, sa);
    }
    assert(registry(t) =~= m);
}

/// A sequence with distinct keys stands for a finite map with one entry for
/// each of its contracts.
pub proof fn lemma_registry_size(s: Seq<Contract>)
    requires
        distinct_keys(s),
    ensures
        registry(s).dom().finite(),
        registry(s).dom().len() == s.len(),
    decreases s.len(),
{
    if s.len() == 0 {
        assert(registry(s).dom() =~= Set::<Seq<u8>>::empty());
    } else {
        let front = s.drop_last();
        let last = s.last();
        assert forall|i: int| 0 <= i < front.len() implies key_at(front, i) == key_at(s, i) by {}
        assert(distinct_keys(front)) by {
            assert forall|i: int, j: int| 0 <= i < j < front.len() implies key_at(front, i)
                != key_at(front, j) by {
                assert(key_at(s, i) != key_at(s, j));
            }
        }
        assert(!holds_key(front, last@.current_id())) by {
            if holds_key(front, last@.current_id()) {
                let i = slot_of(front, last@.current_id());
                assert(key_at(s, i) != key_at(s, s.len() - 1));
            }
        }
        lemma_registry_size(front);
        lemma_registry_push(front, last);
        assert(front.push(last) =~= s);
        assert(registry(s).dom() =~= registry(front).dom().insert(last@.current_id()));
        assert(!registry(front).dom().contains(last@.current_id()));
    }
}

/// Creating a contract under a free identifier and then looking that
/// identifier up finds the contract as it was offered; creating one under an
/// identifier that is taken leaves the registry as it was.
pub proof fn lemma_create_then_get(m: Map<Seq<u8>, ContractModel>, contract: OfferedModel)
    ensures
        !m.contains_key(contract.id) ==> found(created(m, contract), contract.id) == Some(
            ContractModel::Offered(contract),
        ),
        m.contains_key(contract.id) ==> created(m, contract) == m,
        forall|k: Seq<u8>| k != contract.id ==> found(created(m, contract), k) == found(m, k),
{
}

/// Storing an accepted contract leaves exactly one entry under its temporary
/// identifier, the contract itself, and touches no other entry.
pub proof fn lemma_update_accepted(m: Map<Seq<u8>, ContractModel>, contract: ContractModel)
    requires
        contract.stage() == Stage::Accepted,
    ensures
        contract.current_id() == contract.temporary_id(),
        updated(m, contract) == m.insert(contract.temporary_id(), contract),
        found(updated(m, contract), contract.temporary_id()) == Some(contract),
        forall|k: Seq<u8>|
            k != contract.temporary_id() ==> found(updated(m, contract), k) == found(m, k),
{
    let t = contract.temporary_id();
    assert(m.remove(t).insert(t, contract) =~= m.insert(t, contract));
}

/// Storing a signed contract whose permanent identifier differs from its
/// temporary one leaves no entry under the temporary identifier and the
/// contract itself under the permanent one, and touches no other entry.
pub proof fn lemma_update_signed(m: Map<Seq<u8>, ContractModel>, contract: ContractModel)
    requires
        contract.stage() == Stage::Signed,
        contract.temporary_id() != contract.current_id(),
    ensures
        found(updated(m, contract), contract.temporary_id()) is None,
        found(updated(m, contract), contract.current_id()) == Some(contract),
        forall|k: Seq<u8>|
            k != contract.temporary_id() && k != contract.current_id() ==> found(
                updated(m, contract),
                k,
            ) == found(m, k),
{
}

/// Where both are finite, the registry after an update holds at most one
/// entry more than before: nothing is duplicated.
pub proof fn lemma_update_size(m: Map<Seq<u8>, ContractModel>, contract: ContractModel)
    requires
        m.dom().finite(),
    ensures
        updated(m, contract).dom().finite(),
        updated(m, contract).dom().len() <= m.dom().len() + 1,
{
    let kept = if contract.retires_temporary() {
        m.remove(contract.temporary_id())
    } else {
        m
    };
    assert(kept.dom().finite());
    assert(kept.dom().len() <= m.dom().len());
}

/// An in-memory contract store.
#[derive(Debug)]
pub struct MemoryStorage {
    contracts: Vec<Contract>,
}

impl View for MemoryStorage {
    type V = Map<Seq<u8>, ContractModel>;

    closed spec fn view(&self) -> Map<Seq<u8>, ContractModel> {
        registry(self.contracts@)
    }
}

impl MemoryStorage {
    /// The store's invariant: no identifier is held by two entries.
    pub closed spec fn well_formed(&self) -> bool {
        distinct_keys(self.contracts@)
    }

    /// An empty store.
    pub fn new() -> (r: Self)
        ensures
            r.well_formed(),
            r@ == Map::<Seq<u8>, ContractModel>::empty(),
    {
        let r = MemoryStorage { contracts: Vec::new() };
        assert(r@ =~= Map::<Seq<u8>, ContractModel>::empty());
        r
    }

    /// Position of the entry filed under `id`, if there is one.
    fn find(&self, id: &ContractId) -> (r: Option<usize>)
        requires
            self.well_formed(),
        ensures
            match r {
                Some(i) => i < self.contracts@.len() && key_at(self.contracts@, i as int) == id@,
                None => !holds_key(self.contracts@, id@),
            },
            r is Some <==> self@.contains_key(id@),
    {
        let mut i: usize = 0;
        while i < self.contracts.len()
            invariant
                0 <= i <= self.contracts@.len(),
                forall|j: int| 0 <= j < i ==> key_at(self.contracts@, j) != id@,
            decreases self.contracts@.len() - i,
        {
            let key = self.contracts[i].get_id();
            if same_id(&key, id) {
                assert(key_at(self.contracts@, i as int) == id@);
                return Some(i);
            }
            i += 1;
        }
        None
    }

    /// The contract stored under `id`.
    pub fn get_contract(&self, id: &ContractId) -> (r: Result<Contract, StorageError>)
        requires
            self.well_formed(),
        ensures
            match r {
                Ok(c) => found(self@, id@) == Some(c@),
                Err(e) => e == StorageError::NotFound && found(self@, id@) is None,
            },
    {
        match self.find(id) {
            Some(i) => {
                proof {
                    lemma_registry_at(self.contracts@, i as int);
                }
                Ok(self.contracts[i].clone())
            },
            None => Err(StorageError::NotFound),
        }
    }

    /// Files a newly offered contract under its temporary identifier. The
    /// first writer wins: where the identifier is taken the store is left as
    /// it was.
    pub fn create_contract(&mut self, contract: &OfferedContract) -> (r: Result<(), StorageError>)
        requires
            old(self).well_formed(),
        ensures
            final(self).well_formed(),
            final(self)@ == created(old(self)@, contract@),
            r == if old(self)@.contains_key(contract@.id) {
                Err::<(), StorageError>(StorageError::AlreadyExists)
            } else {
                Ok::<(), StorageError>(())
            },
    {
        match self.find(&contract.id) {
            Some(_) => Err(StorageError::AlreadyExists),
            None => {
                let entry = Contract::Offered(contract.clone());
                proof {
                    lemma_registry_push(self.contracts@, entry);
                }
                self.contracts.push(entry);
                Ok(())
            },
        }
    }

    /// Takes the entry under `id` out of the store, if there is one.
    fn discard(&mut self, id: &ContractId)
        requires
            old(self).well_formed(),
        ensures
            final(self).well_formed(),
            final(self)@ == old(self)@.remove(id@),
    {
        match self.find(id) {
            Some(i) => {
                proof {
                    lemma_registry_remove(self.contracts@, i as int);
                }
                self.contracts.remove(i);
            },
            None => {
                assert(self@.remove(id@) =~= self@);
            },
        }
    }

    /// Removes the contract stored under `id`. Removing what is not there
    /// changes nothing and is no error.
    pub fn delete_contract(&mut self, id: &ContractId) -> (r: Result<(), StorageError>)
        requires
            old(self).well_formed(),
        ensures
            final(self).well_formed(),
            final(self)@ == old(self)@.remove(id@),
            !old(self)@.contains_key(id@) ==> final(self)@ == old(self)@,
            r is Ok,
    {
        proof {
            if !self@.contains_key(id@) {
                assert(self@.remove(id@) =~= self@);
            }
        }
        self.discard(id);
        Ok(())
    }

    /// Stores `contract` under its current identifier, replacing what was
    /// there. For an accepted or a signed contract the entry under its
    /// temporary identifier is retired in the same step, so that the contract
    /// is never held under both.
    pub fn update_contract(&mut self, contract: &Contract) -> (r: Result<(), StorageError>)
        requires
            old(self).well_formed(),
        ensures
            final(self).well_formed(),
            final(self)@ == updated(old(self)@, contract@),
            r is Ok,
    {
        match contract.stage() {
            Stage::Accepted | Stage::Signed => {
                let temporary = contract.get_temporary_id();
                self.discard(&temporary);
            },
            _ => {},
        }
        let ghost kept = self@;
        let current = contract.get_id();
        self.discard(&current);
        let entry = contract.clone();
        proof {
            assert(!self@.contains_key(current@));
            assert(!holds_key(self.contracts@, entry@.current_id()));
            lemma_registry_push(self.contracts@, entry);
            assert(kept.remove(current@).insert(current@, entry@) =~= kept.insert(
                current@,
                entry@,
            ));
        }
        self.contracts.push(entry);
        Ok(())
    }
    /// Number of contracts in the store.
    pub fn len(&self) -> (r: usize)
        requires
            self.well_formed(),
        ensures
            self@.dom().finite(),
            r == self@.dom().len(),
    {
        proof {
            lemma_registry_size(self.contracts@);
        }
        self.contracts.len()
    }

    /// The contracts stored at `stage`, which is `Signed` or `Confirmed`: the
    /// two stages that hold a signed contract.
    fn collect_stage(&self, stage: Stage) -> (r: Vec<SignedContract>)
        requires
            self.well_formed(),
            stage == Stage::Signed || stage == Stage::Confirmed,
        ensures
            lists_stage(r@, self@, stage),
    {
        let mut out: Vec<SignedContract> = Vec::new();
        let ghost mut origin: Seq<int> = Seq::empty();
        let mut at: usize = 0;
        while at < self.contracts.len()
            invariant
                0 <= at <= self.contracts@.len(),
                stage == Stage::Signed || stage == Stage::Confirmed,
                origin.len() == out@.len(),
                forall|t: int|
                    0 <= t < origin.len() ==> 0 <= #[trigger] origin[t] < at
                        && self.contracts@[origin[t]]@ == staged(out@[t]@, stage),
                forall|t: int, u: int|
                    0 <= t < u < origin.len() ==> #[trigger] origin[t] < #[trigger] origin[u],
                forall|a: int|
                    0 <= a < at && (#[trigger] self.contracts@[a])@.stage() == stage ==> exists|
                        t: int,
                    |
                        0 <= t < origin.len() && #[trigger] origin[t] == a,
            decreases self.contracts@.len() - at,
        {
            let ghost before = origin;
            let taken = match &self.contracts[at] {
                Contract::Signed(c) => {
                    if stage == Stage::Signed {
                        Some(c.clone())
                    } else {
                        None
                    }
                },
                Contract::Confirmed(c) => {
                    if stage == Stage::Confirmed {
                        Some(c.clone())
                    } else {
                        None
                    }
                },
                _ => None,
            };
            match taken {
                Some(c) => {
                    out.push(c);
                    proof {
                        origin = origin.push(at as int);
                    }
                },
                None => {},
            }
            proof {
                assert forall|a: int|
                    0 <= a < at + 1 && (#[trigger] self.contracts@[a])@.stage()
                        == stage implies exists|t: int|
                    0 <= t < origin.len() && #[trigger] origin[t] == a by {
                    if a < at {
                        let t = choose|t: int| 0 <= t < before.len() && #[trigger] before[t] == a;
                        assert(origin[t] == a);
                    } else {
                        assert(origin[origin.len() - 1] == a);
                    }
                }
            }
            at += 1;
        }
        proof {
            let s = self.contracts@;
            let m = self@;
            assert forall|i: int| 0 <= i < out@.len() implies m.contains_key(
                #[trigger] out@[i]@.id,
            ) && m[out@[i]@.id] == staged(out@[i]@, stage) by {
                lemma_registry_at(s, origin[i]);
            }
            assert forall|k: Seq<u8>| m.contains_key(k) && (#[trigger] m[k]).stage()
                == stage implies exists|i: int|
                0 <= i < out@.len() && #[trigger] out@[i]@.id == k by {
                let a = slot_of(s, k);
                assert(holds_key(s, k));
                assert(s[a]@.stage() == stage);
                let t = choose|t: int| 0 <= t < origin.len() && #[trigger] origin[t] == a;
                assert(out@[t]@.id == k);
            }
            assert forall|i: int, j: int| 0 <= i < j < out@.len() implies #[trigger] out@[i]@.id
                != #[trigger] out@[j]@.id by {
                assert(origin[i] < origin[j]);
                assert(key_at(s, origin[i]) != key_at(s, origin[j]));
            }
        }
        out
    }

    /// Every contract stored at the `Signed` stage, each once, in no
    /// particular order. An empty listing is no error.
    pub fn get_signed_contracts(&self) -> (r: Result<Vec<SignedContract>, StorageError>)
        requires
            self.well_formed(),
        ensures
            match r {
                Ok(listed) => lists_stage(listed@, self@, Stage::Signed),
                Err(_) => false,
            },
    {
        Ok(self.collect_stage(Stage::Signed))
    }

    /// Every contract stored at the `Confirmed` stage, each once, in no
    /// particular order. An empty listing is no error.
    pub fn get_confirmed_contracts(&self) -> (r: Result<Vec<SignedContract>, StorageError>)
        requires
            self.well_formed(),
        ensures
            match r {
                Ok(listed) => lists_stage(listed@, self@, Stage::Confirmed),
                Err(_) => false,
            },
    {
        Ok(self.collect_stage(Stage::Confirmed))
    }

    /// Every stored contract is filed under its own current identifier, and
    /// the store is finite.
    pub proof fn lemma_filed_by_identity(&self)
        requires
            self.well_formed(),
        ensures
            self@.dom().finite(),
            forall|k: Seq<u8>| self@.contains_key(k) ==> (#[trigger] self@[k]).current_id() == k,
    {
        lemma_registry_size(self.contracts@);
        assert forall|k: Seq<u8>| self@.contains_key(k) implies (#[trigger] self@[k]).current_id()
            == k by {
            assert(holds_key(self.contracts@, k));
            let i = slot_of(self.contracts@, k);
            assert(key_at(self.contracts@, i) == k);
        }
    }
}

} // verus!

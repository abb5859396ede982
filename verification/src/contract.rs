//! Contracts and the identifiers they are stored under.

use vstd::prelude::*;

verus! {

/// Identifier of a contract: thirty-two opaque bytes, compared byte by byte.
/// Temporary and permanent identifiers share this one key space.
pub type ContractId = [u8; 32];

/// Lifecycle position of a contract.
#[derive(Clone, Copy, Debug, PartialEq, Eq, Structural)]
pub enum Stage {
    Offered,
    Accepted,
    Signed,
    Confirmed,
}

/// A proposed contract. `id` is the temporary identifier assigned locally
/// before negotiation completes; `terms` is the offer as it was serialized.
#[derive(Debug, PartialEq, Eq)]
pub struct OfferedContract {
    pub id: ContractId,
    pub terms: Vec<u8>,
}

/// A contract the counterparty accepted. It is still known by the temporary
/// identifier of the offer it answers.
#[derive(Debug, PartialEq, Eq)]
pub struct AcceptedContract {
    pub offered_contract: OfferedContract,
    pub acceptance: Vec<u8>,
}

/// A fully signed contract. `id` is the permanent identifier; the same shape
/// is kept once the funding transaction confirms.
#[derive(Debug, PartialEq, Eq)]
pub struct SignedContract {
    pub accepted_contract: AcceptedContract,
    pub id: ContractId,
    pub signatures: Vec<u8>,
}

/// A contract tagged by its lifecycle stage.
#[derive(Debug, PartialEq, Eq)]
pub enum Contract {
    Offered(OfferedContract),
    Accepted(AcceptedContract),
    Signed(SignedContract),
    Confirmed(SignedContract),
}

/// Mathematical value of an [`OfferedContract`].
pub ghost struct OfferedModel {
    pub id: Seq<u8>,
    pub terms: Seq<u8>,
}

/// Mathematical value of an [`AcceptedContract`].
pub ghost struct AcceptedModel {
    pub offered: OfferedModel,
    pub acceptance: Seq<u8>,
}

/// Mathematical value of a [`SignedContract`].
pub ghost struct SignedModel {
    pub accepted: AcceptedModel,
    pub id: Seq<u8>,
    pub signatures: Seq<u8>,
}

/// Mathematical value of a [`Contract`].
pub ghost enum ContractModel {
    Offered(OfferedModel),
    Accepted(AcceptedModel),
    Signed(SignedModel),
    Confirmed(SignedModel),
}

impl ContractModel {
    /// The stage the contract is tagged with.
    pub open spec fn stage(self) -> Stage {
        match self {
            ContractModel::Offered(_) => Stage::Offered,
            ContractModel::Accepted(_) => Stage::Accepted,
            ContractModel::Signed(_) => Stage::Signed,
            ContractModel::Confirmed(_) => Stage::Confirmed,
        }
    }

    /// The identifier assigned when the contract was offered.
    pub open spec fn temporary_id(self) -> Seq<u8> {
        match self {
            ContractModel::Offered(o) => o.id,
            ContractModel::Accepted(a) => a.offered.id,
            ContractModel::Signed(s) => s.accepted.offered.id,
            ContractModel::Confirmed(s) => s.accepted.offered.id,
        }
    }

    /// The one identifier the contract is known by at its stage: the
    /// temporary one until it is signed, the permanent one from then on.
    pub open spec fn current_id(self) -> Seq<u8> {
        match self {
            ContractModel::Offered(o) => o.id,
            ContractModel::Accepted(a) => a.offered.id,
            ContractModel::Signed(s) => s.id,
            ContractModel::Confirmed(s) => s.id,
        }
    }

    /// Whether storing the contract retires the entry under its temporary
    /// identifier.
    pub open spec fn retires_temporary(self) -> bool {
        self.stage() == Stage::Accepted || self.stage() == Stage::Signed
    }
}

impl View for OfferedContract {
    type V = OfferedModel;

    open spec fn view(&self) -> OfferedModel {
        OfferedModel { id: self.id@, terms: self.terms@ }
    }
}

impl View for AcceptedContract {
    type V = AcceptedModel;

    open spec fn view(&self) -> AcceptedModel {
        AcceptedModel { offered: self.offered_contract@, acceptance: self.acceptance@ }
    }
}

impl View for SignedContract {
    type V = SignedModel;

    open spec fn view(&self) -> SignedModel {
        SignedModel {
            accepted: self.accepted_contract@,
            id: self.id@,
            signatures: self.signatures@,
        }
    }
}

impl View for Contract {
    type V = ContractModel;

    open spec fn view(&self) -> ContractModel {
        match self {
            Contract::Offered(o) => ContractModel::Offered(o@),
            Contract::Accepted(a) => ContractModel::Accepted(a@),
            Contract::Signed(s) => ContractModel::Signed(s@),
            Contract::Confirmed(s) => ContractModel::Confirmed(s@),
        }
    }
}

/// Byte-exact comparison of two identifiers.
pub fn same_id(a: &ContractId, b: &ContractId) -> (r: bool)
    ensures
        r == (a@ == b@),
{
    let mut i: usize = 0;
    while i < 32
        invariant
            0 <= i <= 32,
            forall|j: int| 0 <= j < i ==> a@[j] == b@[j],
        decreases 32 - i,
    {
        if a[i] != b[i] {
            return false;
        }
        i += 1;
    }
    assert(a@ =~= b@);
    true
}

/// A copy of a byte string.
pub fn copy_bytes(bytes: &Vec<u8>) -> (r: Vec<u8>)
    ensures
        r@ == bytes@,
{
    let r = bytes.clone();
    assert(r@ =~= bytes@);
    r
}

impl Clone for OfferedContract {
    fn clone(&self) -> (r: Self)
        ensures
            r@ == self@,
    {
        OfferedContract { id: self.id, terms: copy_bytes(&self.terms) }
    }
}

impl Clone for AcceptedContract {
    fn clone(&self) -> (r: Self)
        ensures
            r@ == self@,
    {
        AcceptedContract {
            offered_contract: self.offered_contract.clone(),
            acceptance: copy_bytes(&self.acceptance),
        }
    }
}

impl Clone for SignedContract {
    fn clone(&self) -> (r: Self)
        ensures
            r@ == self@,
    {
        SignedContract {
            accepted_contract: self.accepted_contract.clone(),
            id: self.id,
            signatures: copy_bytes(&self.signatures),
        }
    }
}

impl Clone for Contract {
    fn clone(&self) -> (r: Self)
        ensures
            r@ == self@,
    {
        match self {
            Contract::Offered(o) => Contract::Offered(o.clone()),
            Contract::Accepted(a) => Contract::Accepted(a.clone()),
            Contract::Signed(s) => Contract::Signed(s.clone()),
            Contract::Confirmed(s) => Contract::Confirmed(s.clone()),
        }
    }
}

impl Contract {
    /// The stage the contract is tagged with.
    pub fn stage(&self) -> (r: Stage)
        ensures
            r == self@.stage(),
    {
        match self {
            Contract::Offered(_) => Stage::Offered,
            Contract::Accepted(_) => Stage::Accepted,
            Contract::Signed(_) => Stage::Signed,
            Contract::Confirmed(_) => Stage::Confirmed,
        }
    }

    /// The identifier assigned when the contract was offered.
    pub fn get_temporary_id(&self) -> (r: ContractId)
        ensures
            r@ == self@.temporary_id(),
    {
        match self {
            Contract::Offered(o) => o.id,
            Contract::Accepted(a) => a.offered_contract.id,
            Contract::Signed(s) => s.accepted_contract.offered_contract.id,
            Contract::Confirmed(s) => s.accepted_contract.offered_contract.id,
        }
    }

    /// The identifier the contract is stored under at its stage.
    pub fn get_id(&self) -> (r: ContractId)
        ensures
            r@ == self@.current_id(),
    {
        match self {
            Contract::Offered(o) => o.id,
            Contract::Accepted(a) => a.offered_contract.id,
            Contract::Signed(s) => s.id,
            Contract::Confirmed(s) => s.id,
        }
    }
}

} // verus!

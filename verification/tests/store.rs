use bitcoin_rpc_provider::contract::{
    same_id, AcceptedContract, Contract, ContractId, OfferedContract, SignedContract, Stage,
};
use bitcoin_rpc_provider::store::{MemoryStorage, StorageError};

fn id(byte: u8) -> ContractId {
    [byte; 32]
}

fn offered(temporary: u8) -> OfferedContract {
    OfferedContract { id: id(temporary), terms: vec![temporary, 1, 2, 3] }
}

fn accepted(temporary: u8) -> AcceptedContract {
    AcceptedContract { offered_contract: offered(temporary), acceptance: vec![9, temporary] }
}

fn signed(temporary: u8, permanent: u8) -> SignedContract {
    SignedContract {
        accepted_contract: accepted(temporary),
        id: id(permanent),
        signatures: vec![7, 7, permanent],
    }
}

#[test]
fn new_store_is_empty() {
    let store = MemoryStorage::new();
    assert_eq!(store.len(), 0);
    assert_eq!(store.get_contract(&id(1)), Err(StorageError::NotFound));
    assert_eq!(store.get_signed_contracts(), Ok(vec![]));
    assert_eq!(store.get_confirmed_contracts(), Ok(vec![]));
}

#[test]
fn create_then_get_returns_the_contract() {
    let mut store = MemoryStorage::new();
    assert_eq!(store.create_contract(&offered(1)), Ok(()));
    assert_eq!(store.get_contract(&id(1)), Ok(Contract::Offered(offered(1))));
    assert_eq!(store.len(), 1);
}

#[test]
fn create_on_a_taken_id_fails_and_changes_nothing() {
    let mut store = MemoryStorage::new();
    assert_eq!(store.create_contract(&offered(1)), Ok(()));
    let other = OfferedContract { id: id(1), terms: vec![42] };
    assert_eq!(store.create_contract(&other), Err(StorageError::AlreadyExists));
    assert_eq!(store.get_contract(&id(1)), Ok(Contract::Offered(offered(1))));
    assert_eq!(store.len(), 1);
}

#[test]
fn create_collides_with_any_stage() {
    let mut store = MemoryStorage::new();
    assert_eq!(store.update_contract(&Contract::Signed(signed(1, 2))), Ok(()));
    assert_eq!(store.create_contract(&offered(2)), Err(StorageError::AlreadyExists));
    assert_eq!(store.get_contract(&id(2)), Ok(Contract::Signed(signed(1, 2))));
}

#[test]
fn get_of_a_missing_id_is_not_found() {
    let mut store = MemoryStorage::new();
    store.create_contract(&offered(1)).unwrap();
    assert_eq!(store.get_contract(&id(2)), Err(StorageError::NotFound));
}

#[test]
fn delete_of_a_missing_id_is_no_error() {
    let mut store = MemoryStorage::new();
    store.create_contract(&offered(1)).unwrap();
    assert_eq!(store.delete_contract(&id(2)), Ok(()));
    assert_eq!(store.len(), 1);
    assert_eq!(store.get_contract(&id(1)), Ok(Contract::Offered(offered(1))));
}

#[test]
fn delete_removes_the_contract() {
    let mut store = MemoryStorage::new();
    store.create_contract(&offered(1)).unwrap();
    store.create_contract(&offered(2)).unwrap();
    assert_eq!(store.delete_contract(&id(1)), Ok(()));
    assert_eq!(store.get_contract(&id(1)), Err(StorageError::NotFound));
    assert_eq!(store.get_contract(&id(2)), Ok(Contract::Offered(offered(2))));
    assert_eq!(store.len(), 1);
    assert_eq!(store.delete_contract(&id(1)), Ok(()));
    assert_eq!(store.len(), 1);
}

#[test]
fn update_accepted_leaves_one_entry_at_the_temporary_id() {
    let mut store = MemoryStorage::new();
    store.create_contract(&offered(1)).unwrap();
    assert_eq!(store.update_contract(&Contract::Accepted(accepted(1))), Ok(()));
    assert_eq!(store.len(), 1);
    assert_eq!(store.get_contract(&id(1)), Ok(Contract::Accepted(accepted(1))));
}

#[test]
fn update_accepted_without_an_offer_inserts() {
    let mut store = MemoryStorage::new();
    assert_eq!(store.update_contract(&Contract::Accepted(accepted(5))), Ok(()));
    assert_eq!(store.len(), 1);
    assert_eq!(store.get_contract(&id(5)), Ok(Contract::Accepted(accepted(5))));
}

#[test]
fn update_signed_moves_the_contract_to_its_permanent_id() {
    let mut store = MemoryStorage::new();
    store.create_contract(&offered(1)).unwrap();
    store.create_contract(&offered(3)).unwrap();
    store.update_contract(&Contract::Accepted(accepted(1))).unwrap();
    assert_eq!(store.update_contract(&Contract::Signed(signed(1, 2))), Ok(()));
    assert_eq!(store.get_contract(&id(1)), Err(StorageError::NotFound));
    assert_eq!(store.get_contract(&id(2)), Ok(Contract::Signed(signed(1, 2))));
    assert_eq!(store.get_contract(&id(3)), Ok(Contract::Offered(offered(3))));
    assert_eq!(store.len(), 2);
}

#[test]
fn update_signed_with_equal_ids_keeps_the_entry() {
    let mut store = MemoryStorage::new();
    store.create_contract(&offered(4)).unwrap();
    assert_eq!(store.update_contract(&Contract::Signed(signed(4, 4))), Ok(()));
    assert_eq!(store.len(), 1);
    assert_eq!(store.get_contract(&id(4)), Ok(Contract::Signed(signed(4, 4))));
}

#[test]
fn update_confirmed_replaces_the_signed_entry() {
    let mut store = MemoryStorage::new();
    store.update_contract(&Contract::Signed(signed(1, 2))).unwrap();
    assert_eq!(store.update_contract(&Contract::Confirmed(signed(1, 2))), Ok(()));
    assert_eq!(store.len(), 1);
    assert_eq!(store.get_contract(&id(2)), Ok(Contract::Confirmed(signed(1, 2))));
}

#[test]
fn update_confirmed_does_not_retire_the_temporary_entry() {
    let mut store = MemoryStorage::new();
    store.create_contract(&offered(1)).unwrap();
    assert_eq!(store.update_contract(&Contract::Confirmed(signed(1, 2))), Ok(()));
    assert_eq!(store.len(), 2);
    assert_eq!(store.get_contract(&id(1)), Ok(Contract::Offered(offered(1))));
    assert_eq!(store.get_contract(&id(2)), Ok(Contract::Confirmed(signed(1, 2))));
}

#[test]
fn update_offered_overwrites_in_place() {
    let mut store = MemoryStorage::new();
    store.create_contract(&offered(1)).unwrap();
    let changed = OfferedContract { id: id(1), terms: vec![8, 8] };
    assert_eq!(store.update_contract(&Contract::Offered(changed)), Ok(()));
    assert_eq!(
        store.get_contract(&id(1)),
        Ok(Contract::Offered(OfferedContract { id: id(1), terms: vec![8, 8] }))
    );
    assert_eq!(store.len(), 1);
}

#[test]
fn listings_filter_by_stage() {
    let mut store = MemoryStorage::new();
    store.create_contract(&offered(1)).unwrap();
    store.update_contract(&Contract::Accepted(accepted(2))).unwrap();
    store.update_contract(&Contract::Signed(signed(3, 13))).unwrap();
    store.update_contract(&Contract::Signed(signed(4, 14))).unwrap();
    store.update_contract(&Contract::Confirmed(signed(5, 15))).unwrap();

    let mut listed = store.get_signed_contracts().unwrap();
    listed.sort_by_key(|c| c.id);
    assert_eq!(listed, vec![signed(3, 13), signed(4, 14)]);

    let confirmed = store.get_confirmed_contracts().unwrap();
    assert_eq!(confirmed, vec![signed(5, 15)]);
}

#[test]
fn a_confirmed_contract_leaves_the_signed_listing() {
    let mut store = MemoryStorage::new();
    store.update_contract(&Contract::Signed(signed(3, 13))).unwrap();
    store.update_contract(&Contract::Confirmed(signed(3, 13))).unwrap();
    assert_eq!(store.get_signed_contracts(), Ok(vec![]));
    assert_eq!(store.get_confirmed_contracts(), Ok(vec![signed(3, 13)]));
}

#[test]
fn full_lifecycle_keeps_one_entry() {
    let mut store = MemoryStorage::new();
    store.create_contract(&offered(1)).unwrap();
    store.update_contract(&Contract::Accepted(accepted(1))).unwrap();
    store.update_contract(&Contract::Signed(signed(1, 2))).unwrap();
    store.update_contract(&Contract::Confirmed(signed(1, 2))).unwrap();
    assert_eq!(store.len(), 1);
    assert_eq!(store.get_contract(&id(1)), Err(StorageError::NotFound));
    assert_eq!(store.get_contract(&id(2)), Ok(Contract::Confirmed(signed(1, 2))));
    store.delete_contract(&id(2)).unwrap();
    assert_eq!(store.len(), 0);
}

#[test]
fn identifiers_compare_byte_by_byte() {
    let a = id(1);
    let mut b = id(1);
    assert!(same_id(&a, &b));
    b[31] = 2;
    assert!(!same_id(&a, &b));
    let mut c = id(1);
    c[0] = 0;
    assert!(!same_id(&a, &c));
}

#[test]
fn contract_identifiers_follow_the_stage() {
    let o = Contract::Offered(offered(1));
    assert_eq!(o.stage(), Stage::Offered);
    assert_eq!(o.get_id(), id(1));
    assert_eq!(o.get_temporary_id(), id(1));
    let a = Contract::Accepted(accepted(1));
    assert_eq!(a.stage(), Stage::Accepted);
    assert_eq!(a.get_id(), id(1));
    assert_eq!(a.get_temporary_id(), id(1));
    let s = Contract::Signed(signed(1, 2));
    assert_eq!(s.stage(), Stage::Signed);
    assert_eq!(s.get_id(), id(2));
    assert_eq!(s.get_temporary_id(), id(1));
    let c = Contract::Confirmed(signed(1, 2));
    assert_eq!(c.stage(), Stage::Confirmed);
    assert_eq!(c.get_id(), id(2));
    assert_eq!(c.get_temporary_id(), id(1));
}

#[test]
fn a_clone_is_equal() {
    let s = Contract::Signed(signed(1, 2));
    assert_eq!(s.clone(), s);
}

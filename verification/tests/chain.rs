use bitcoin_rpc_provider::chain::{
    decode_transaction, transaction_confirmations, unknown_transaction, unsigned_count,
    witness_address, Network, TransactionLookup, UNKNOWN_TRANSACTION_CODE,
};
use bitcoin_rpc_provider::error::{Error, RpcFailure};

fn unknown() -> RpcFailure {
    RpcFailure::Rpc { code: -5, message: String::from("Invalid or non-wallet transaction id") }
}

fn sample_transaction() -> bitcoin::Transaction {
    bitcoin::Transaction {
        version: bitcoin::transaction::Version::TWO,
        lock_time: bitcoin::absolute::LockTime::ZERO,
        input: vec![bitcoin::TxIn {
            previous_output: bitcoin::OutPoint::null(),
            script_sig: bitcoin::ScriptBuf::from_bytes(vec![0x51]),
            sequence: bitcoin::Sequence::MAX,
            witness: bitcoin::Witness::new(),
        }],
        output: vec![bitcoin::TxOut {
            value: bitcoin::Amount::from_sat(5000),
            script_pubkey: bitcoin::ScriptBuf::from_bytes(vec![0x00, 0x14, 1, 2, 3]),
        }],
    }
}

fn compressed_generator() -> Vec<u8> {
    let mut key = vec![0x02];
    key.extend_from_slice(&[
        0x79, 0xbe, 0x66, 0x7e, 0xf9, 0xdc, 0xbb, 0xac, 0x55, 0xa0, 0x62, 0x95, 0xce, 0x87, 0x0b,
        0x07, 0x02, 0x9b, 0xfc, 0xdb, 0x2d, 0xce, 0x28, 0xd9, 0x59, 0xf2, 0x81, 0x5b, 0x16, 0xf8,
        0x17, 0x98,
    ]);
    key
}

#[test]
fn unknown_transaction_has_no_confirmations() {
    assert_eq!(UNKNOWN_TRANSACTION_CODE, -5);
    assert!(unknown_transaction(&unknown()));
    assert_eq!(transaction_confirmations(TransactionLookup::Failed(unknown())), Ok(0));
}

#[test]
fn found_transaction_reports_its_confirmations() {
    assert_eq!(transaction_confirmations(TransactionLookup::Found { confirmations: 0 }), Ok(0));
    assert_eq!(transaction_confirmations(TransactionLookup::Found { confirmations: 6 }), Ok(6));
    assert_eq!(
        transaction_confirmations(TransactionLookup::Found { confirmations: i32::MAX }),
        Ok(2_147_483_647)
    );
}

#[test]
fn negative_confirmations_keep_their_bits() {
    assert_eq!(unsigned_count(-1), 4_294_967_295);
    assert_eq!(unsigned_count(-2), 4_294_967_294);
    assert_eq!(unsigned_count(i32::MIN), 2_147_483_648);
    assert_eq!(
        transaction_confirmations(TransactionLookup::Found { confirmations: -1 }),
        Ok(u32::MAX)
    );
}

#[test]
fn other_code_stays_a_failure() {
    let failure =
        RpcFailure::Rpc { code: -4, message: String::from("Invalid or non-wallet transaction id") };
    assert!(!unknown_transaction(&failure));
    assert_eq!(
        transaction_confirmations(TransactionLookup::Failed(failure.clone())),
        Err(Error::RpcError(failure))
    );
}

#[test]
fn other_message_stays_a_failure() {
    let failure = RpcFailure::Rpc { code: -5, message: String::from("No such mempool transaction") };
    assert!(!unknown_transaction(&failure));
    assert_eq!(
        transaction_confirmations(TransactionLookup::Failed(failure.clone())),
        Err(Error::RpcError(failure))
    );
    let close =
        RpcFailure::Rpc { code: -5, message: String::from("Invalid or non-wallet transaction id.") };
    assert!(!unknown_transaction(&close));
}

#[test]
fn transport_failure_stays_a_failure() {
    let failure = RpcFailure::Other(String::from("Invalid or non-wallet transaction id"));
    assert!(!unknown_transaction(&failure));
    assert_eq!(
        transaction_confirmations(TransactionLookup::Failed(failure.clone())),
        Err(Error::RpcError(failure))
    );
}

#[test]
fn transaction_bytes_decode() {
    let transaction = sample_transaction();
    let raw = bitcoin::consensus::encode::serialize(&transaction);
    assert_eq!(decode_transaction(&raw), Ok(transaction));
}

#[test]
fn decoding_does_not_mind_what_follows() {
    let transaction = sample_transaction();
    let mut raw = bitcoin::consensus::encode::serialize(&transaction);
    raw.extend_from_slice(&[0xff, 0xff, 0xff]);
    assert_eq!(decode_transaction(&raw), Ok(transaction));
}

#[test]
fn truncated_transaction_is_a_chain_data_error() {
    let transaction = sample_transaction();
    let mut raw = bitcoin::consensus::encode::serialize(&transaction);
    raw.truncate(raw.len() - 1);
    assert_eq!(decode_transaction(&raw), Err(Error::BitcoinError));
    assert_eq!(decode_transaction(&vec![]), Err(Error::BitcoinError));
    assert_eq!(decode_transaction(&vec![1, 2, 3]), Err(Error::BitcoinError));
}

#[test]
fn witness_address_of_a_known_key() {
    let key = compressed_generator();
    assert_eq!(
        witness_address(&key, Network::Bitcoin),
        Ok(String::from("bc1qw508d6qejxtdg4y5r3zarvary0c5xw7kv8f3t4"))
    );
    assert_eq!(
        witness_address(&key, Network::Testnet),
        Ok(String::from("tb1qw508d6qejxtdg4y5r3zarvary0c5xw7kxpjzsx"))
    );
    assert_eq!(
        witness_address(&key, Network::Signet),
        Ok(String::from("tb1qw508d6qejxtdg4y5r3zarvary0c5xw7kxpjzsx"))
    );
    assert_eq!(
        witness_address(&key, Network::Testnet4),
        Ok(String::from("tb1qw508d6qejxtdg4y5r3zarvary0c5xw7kxpjzsx"))
    );
    let regtest = witness_address(&key, Network::Regtest).unwrap();
    assert!(regtest.starts_with("bcrt1qw508d6qejxtdg4y5r3zarvary0c5xw7k"));
}

#[test]
fn bytes_that_are_no_key_are_refused() {
    assert_eq!(witness_address(&vec![], Network::Bitcoin), Err(Error::BitcoinError));
    assert_eq!(witness_address(&vec![5; 33], Network::Bitcoin), Err(Error::BitcoinError));
    assert_eq!(witness_address(&vec![0; 33], Network::Bitcoin), Err(Error::BitcoinError));
    let mut short = compressed_generator();
    short.pop();
    assert_eq!(witness_address(&short, Network::Bitcoin), Err(Error::BitcoinError));
}

#[test]
fn a_key_in_its_long_form_is_refused() {
    let mut key = compressed_generator();
    key[0] = 0x04;
    key.extend_from_slice(&[
        0x48, 0x3a, 0xda, 0x77, 0x26, 0xa3, 0xc4, 0x65, 0x5d, 0xa4, 0xfb, 0xfc, 0x0e, 0x11, 0x08,
        0xa8, 0xfd, 0x17, 0xb4, 0x48, 0xa6, 0x85, 0x54, 0x19, 0x9c, 0x47, 0xd0, 0x8f, 0xfb, 0x10,
        0xd4, 0xb8,
    ]);
    assert_eq!(key.len(), 65);
    assert!(bitcoin::secp256k1::PublicKey::from_slice(&key).is_ok());
    assert_eq!(witness_address(&key, Network::Bitcoin), Err(Error::BitcoinError));
}

#[test]
fn errors_say_what_went_wrong() {
    assert_eq!(
        Error::NotEnoughCoins.message(),
        "Utxo pool did not contain enough coins to reach target."
    );
    assert_eq!(Error::BitcoinError.message(), "Bitcoin related error");
    assert_eq!(Error::InvalidState.message(), "Unexpected state was encountered");
    assert_eq!(
        Error::RpcError(RpcFailure::Other(String::from("connection refused"))).message(),
        "Bitcoin Rpc Error connection refused"
    );
    assert_eq!(Error::RpcError(unknown()).message(), "Bitcoin Rpc Error Invalid or non-wallet transaction id");
}

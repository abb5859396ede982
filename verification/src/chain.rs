//! What the adapter decides about chain data: how often a transaction is
//! confirmed, whether its bytes decode, and which address pays to a key.

use vstd::prelude::*;
use crate::error::{Error, RpcFailure};

verus! {

/// The network an address belongs to.
#[derive(Clone, Copy, Debug, PartialEq, Eq, Structural)]
pub enum Network {
    Bitcoin,
    Testnet,
    Testnet4,
    Signet,
    Regtest,
}

/// What the wallet service answered when asked for a transaction.
#[derive(Debug, PartialEq, Eq)]
pub enum TransactionLookup {
    /// The wallet knows the transaction, with this many confirmations as it
    /// counts them.
    Found { confirmations: i32 },
    /// The call failed.
    Failed(RpcFailure),
}

/// The error code with which the wallet service answers for a transaction
/// that is not its own.
pub const UNKNOWN_TRANSACTION_CODE: i32 = -5;

/// The message that goes with [`UNKNOWN_TRANSACTION_CODE`].
pub open spec fn unknown_transaction_message() -> Seq<char> {
    "Invalid or non-wallet transaction id"@
}

/// Whether a failure says that the wallet does not know the transaction:
/// an error object with exactly that code and exactly that message.
pub open spec fn is_unknown_transaction(failure: RpcFailure) -> bool {
    match failure {
        RpcFailure::Rpc { code, message } => code == UNKNOWN_TRANSACTION_CODE && message@
            == unknown_transaction_message(),
        RpcFailure::Other(_) => false,
    }
}

/// The count that a confirmation number of the wallet stands for. The
/// wallet counts in thirty-two signed bits; the same bits are read unsigned.
pub open spec fn confirmation_count(confirmations: i32) -> int {
    if confirmations >= 0 {
        confirmations as int
    } else {
        confirmations + 0x1_0000_0000
    }
}

/// What a lookup says of a transaction's confirmations. A transaction that
/// the wallet does not know has none; every other failure stays a failure.
pub open spec fn confirmations_of(lookup: TransactionLookup) -> Result<int, Error> {
    match lookup {
        TransactionLookup::Found { confirmations } => Ok(confirmation_count(confirmations)),
        TransactionLookup::Failed(failure) => if is_unknown_transaction(failure) {
            Ok(0)
        } else {
            Err(Error::RpcError(failure))
        },
    }
}

/// Reads the bits of a signed confirmation number as an unsigned count.
pub fn unsigned_count(confirmations: i32) -> (r: u32)
    ensures
        r == confirmation_count(confirmations),
{
    if confirmations >= 0 {
        confirmations as u32
    } else {
        let above: u32 = (confirmations + 0x7fff_ffff + 1) as u32;
        above + 0x8000_0000
    }
}

/// Whether a failure says that the wallet does not know the transaction.
pub fn unknown_transaction(failure: &RpcFailure) -> (r: bool)
    ensures
        r == is_unknown_transaction(*failure),
{
    match failure {
        RpcFailure::Rpc { code, message } => {
            if *code != UNKNOWN_TRANSACTION_CODE {
                return false;
            }
            let expected = "Invalid or non-wallet transaction id".to_owned();
            *message == expected
        },
        RpcFailure::Other(_) => false,
    }
}

/// The number of confirmations that a lookup reports.
pub fn transaction_confirmations(lookup: TransactionLookup) -> (r: Result<u32, Error>)
    ensures
        match r {
            Ok(n) => confirmations_of(lookup) == Ok::<int, Error>(n as int),
            Err(e) => confirmations_of(lookup) == Err::<int, Error>(e),
        },
{
    match lookup {
        TransactionLookup::Found { confirmations } => Ok(unsigned_count(confirmations)),
        TransactionLookup::Failed(failure) => {
            if unknown_transaction(&failure) {
                Ok(0)
            } else {
                Err(Error::RpcError(failure))
            }
        },
    }
}

/// A transaction of the `bitcoin` crate; nothing of its inside is read here.
#[verifier::external_type_specification]
#[verifier::external_body]
pub struct ExTransaction(bitcoin::Transaction);

/// The transaction that the consensus decoding of the `bitcoin` crate reads
/// from the front of `raw`; `None` where it reads none.
pub uninterp spec fn decoded_transaction(raw: Seq<u8>) -> Option<bitcoin::Transaction>;

/// Calls `bitcoin::consensus::encode::deserialize_partial` for a
/// transaction. Decoding reads from the front of the bytes and does not mind
/// what follows; what it reads, and whether it reads anything, depends on
/// the bytes alone.
#[verifier::external_body]
fn deserialize_transaction(raw: &Vec<u8>) -> (r: Option<bitcoin::Transaction>)
    ensures
        r == decoded_transaction(raw@),
{
    match bitcoin::consensus::encode::deserialize_partial::<bitcoin::Transaction>(raw.as_slice()) {
        Ok((transaction, _)) => Some(transaction),
        Err(_) => None,
    }
}

/// Decodes the bytes of a transaction as the wallet hands them over: the
/// transaction that the decoding reads from them. Bytes that do not decode
/// are a fault of the chain data, told apart from a failure of the call that
/// fetched them.
pub fn decode_transaction(raw: &Vec<u8>) -> (r: Result<bitcoin::Transaction, Error>)
    ensures
        match r {
            Ok(transaction) => decoded_transaction(raw@) == Some(transaction),
            Err(e) => e == Error::BitcoinError && decoded_transaction(raw@) is None,
        },
{
    match deserialize_transaction(raw) {
        Some(transaction) => Ok(transaction),
        None => Err(Error::BitcoinError),
    }
}

/// Length of a public key in its compressed form.
pub const COMPRESSED_KEY_LENGTH: usize = 33;

/// The witness address, as the `bitcoin` crate writes it, that pays on
/// `network` to the public key that `pubkey` encodes; `None` where the bytes
/// encode no public key. The crate reads a key in its compressed form and in
/// the longer forms alike.
pub uninterp spec fn p2wpkh_address(pubkey: Seq<u8>, network: Network) -> Option<Seq<char>>;

/// Parses the key with `bitcoin::CompressedPublicKey::from_slice`, derives
/// its address with `bitcoin::Address::p2wpkh` and writes it out as text.
/// All of it depends on the arguments alone.
#[verifier::external_body]
fn derive_p2wpkh(pubkey: &Vec<u8>, network: Network) -> (r: Option<String>)
    ensures
        p2wpkh_address(pubkey@, network) == match r {
            Some(address) => Some(address@),
            None => None,
        },
{
    let network = match network {
        Network::Bitcoin => bitcoin::Network::Bitcoin,
        Network::Testnet => bitcoin::Network::Testnet,
        Network::Testnet4 => bitcoin::Network::Testnet4,
        Network::Signet => bitcoin::Network::Signet,
        Network::Regtest => bitcoin::Network::Regtest,
    };
    match bitcoin::CompressedPublicKey::from_slice(pubkey.as_slice()) {
        Ok(key) => Some(bitcoin::Address::p2wpkh(&key, network).to_string()),
        Err(_) => None,
    }
}

/// The witness address of a public key given in its compressed form: bytes
/// of any other length have none.
pub open spec fn compressed_key_address(pubkey: Seq<u8>, network: Network) -> Option<Seq<char>> {
    if pubkey.len() == COMPRESSED_KEY_LENGTH {
        p2wpkh_address(pubkey, network)
    } else {
        None
    }
}

/// The witness address under which the wallet holds the secret key of
/// `pubkey`, a public key in its compressed form. Bytes of another length,
/// and bytes that encode no key, are refused.
pub fn witness_address(pubkey: &Vec<u8>, network: Network) -> (r: Result<String, Error>)
    ensures
        match r {
            Ok(address) => compressed_key_address(pubkey@, network) == Some(address@),
            Err(e) => e == Error::BitcoinError && compressed_key_address(pubkey@, network)
                is None,
        },
{
    if pubkey.len() != COMPRESSED_KEY_LENGTH {
        return Err(Error::BitcoinError);
    }
    match derive_p2wpkh(pubkey, network) {
        Some(address) => Ok(address),
        None => Err(Error::BitcoinError),
    }
}

} // verus!

//! Failures of the wallet adapter.

use vstd::prelude::*;

verus! {

/// What the wallet service answered in place of a result, reduced to what
/// this library reads of it.
#[derive(Debug, PartialEq, Eq)]
pub enum RpcFailure {
    /// The service answered the call with an error object.
    Rpc { code: i32, message: String },
    /// Any other failure of the call, with its description.
    Other(String),
}

/// Why an operation of the wallet adapter did not succeed.
#[derive(Debug, PartialEq, Eq)]
pub enum Error {
    /// The wallet service could not be reached or rejected the call.
    RpcError(RpcFailure),
    /// The spendable outputs do not add up to the amount asked for.
    NotEnoughCoins,
    /// Chain data could not be decoded or derived.
    BitcoinError,
    /// The wallet service handed over data this library cannot work with.
    InvalidState,
}

impl Clone for RpcFailure {
    fn clone(&self) -> (r: Self)
        ensures
            r == *self,
    {
        match self {
            RpcFailure::Rpc { code, message } => RpcFailure::Rpc {
                code: *code,
                message: message.clone(),
            },
            RpcFailure::Other(description) => RpcFailure::Other(description.clone()),
        }
    }
}

impl Clone for Error {
    fn clone(&self) -> (r: Self)
        ensures
            r == *self,
    {
        match self {
            Error::RpcError(failure) => Error::RpcError(failure.clone()),
            Error::NotEnoughCoins => Error::NotEnoughCoins,
            Error::BitcoinError => Error::BitcoinError,
            Error::InvalidState => Error::InvalidState,
        }
    }
}

impl RpcFailure {
    /// The words the failure came with.
    pub open spec fn detail(&self) -> Seq<char> {
        match self {
            RpcFailure::Rpc { code, message } => message@,
            RpcFailure::Other(description) => description@,
        }
    }
}

impl Error {
    /// What [`Error::message`] says of the error.
    pub open spec fn text(&self) -> Seq<char> {
        match self {
            Error::RpcError(failure) => "Bitcoin Rpc Error "@ + failure.detail(),
            Error::NotEnoughCoins => "Utxo pool did not contain enough coins to reach target."@,
            Error::BitcoinError => "Bitcoin related error"@,
            Error::InvalidState => "Unexpected state was encountered"@,
        }
    }

    /// A sentence for the error, for a reader.
    pub fn message(&self) -> (r: String)
        ensures
            r@ == self.text(),
    {
        match self {
            Error::RpcError(failure) => {
                let head = String::from_str("Bitcoin Rpc Error ");
                match failure {
                    RpcFailure::Rpc { code, message } => head.concat(message.as_str()),
                    RpcFailure::Other(description) => head.concat(description.as_str()),
                }
            },
            Error::NotEnoughCoins => String::from_str(
                "Utxo pool did not contain enough coins to reach target.",
            ),
            Error::BitcoinError => String::from_str("Bitcoin related error"),
            Error::InvalidState => String::from_str("Unexpected state was encountered"),
        }
    }
}

} // verus!

use vstd::prelude::*;

verus! {

/// Every way in which an operation of the wallet can fail.
#[derive(Debug, Clone, PartialEq, Eq)]
pub enum WalletError {
    /// Funds selected (in zatoshis) and funds required (in zatoshis).
    NotEnoughFunds(u64, u64),
    /// A key, address, witness or hex field could not be decoded.
    Decode(String),
    /// The proving parameters could not be loaded.
    Prover,
    /// An intermediate artifact is malformed or belongs to another round.
    TxParse,
    /// Sync was attempted before the account was bootstrapped.
    AccountNotInitialized,
    /// The relay rejected the transaction: error code and message.
    Submit(i32, String),
    /// The aggregated signature of at least one input did not verify.
    AggregationFailed,
    /// The signing scheme refused to sign with the round-one material.
    SigningRefused,
    /// A set of signing nonces was offered for a second signature.
    NonceReuse,
    /// The destination is not a shielded payment address.
    UnsupportedRecipient(String),
    /// The reorganisation safety margin is zero.
    ZeroReorgMargin,
    /// A calendar date that does not exist or falls outside block time.
    InvalidDate(i32, u32, u32),
    /// A ceremony was asked for with a threshold or a signer count out of range.
    InvalidThreshold(u32, u32),
}

} // verus!

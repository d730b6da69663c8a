//! Verified core of a token-swap execution pipeline for a block-height-expiry
//! ledger: transaction decoding and rebuilding, compute-budget directives,
//! signing glue, the expiry-aware confirmation state machine, result
//! extraction, and a health-probe battery.
#![allow(unused_imports)]

use vstd::prelude::*;

pub mod builder;
pub mod commands;
pub mod confirm;
pub mod extract;
pub mod health;
pub mod report;
pub mod codec;
pub mod compute;
pub mod sign;
pub mod txmodel;
pub mod utils;
pub mod wallet;

verus! {

/// The failure taxonomy of the pipeline. Every failure is terminal for the
/// current invocation; no variant triggers an automatic retry.
#[derive(Debug)]
pub enum ExecError {
    /// The route service returned no usable quote.
    RouteUnavailable,
    /// The route service returned no usable swap transaction.
    SwapBuildFailed,
    /// The transaction payload did not decode or parse.
    MalformedTransaction,
    /// The wallet key material did not yield a keypair.
    SigningFailed,
    /// The network rejected or never accepted the broadcast itself.
    BroadcastFailed,
    /// The transaction executed on chain and failed there.
    OnChainFailure(String),
    /// The chain advanced past the transaction's validity window.
    Expired,
    /// The status never resolved within the attempt ceiling.
    TimedOut,
    /// The wallet blob had neither accepted shape.
    InvalidWalletFormat,
    /// The ledger endpoint failed a probe or a query.
    RpcUnavailable,
}

} // verus!

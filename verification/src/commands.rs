//! The three command surfaces: health probe, simulate-only, and full swap
//! execution. Each command struct carries the plain inputs of one
//! invocation; the I/O around them stays outside the library, handing in
//! values and taking decisions back.
use vstd::prelude::*;

use crate::confirm::ConfirmationOutcome;
use crate::utils::str_eq;
use crate::ExecError;

verus! {

/// The health-probe command: an endpoint and a timeout in seconds.
pub struct PingCommand {
    pub rpc_url: String,
    pub timeout: u64,
}

impl PingCommand {
    /// Carry the probe inputs.
    pub fn new(rpc_url: String, timeout: u64) -> (r: Self)
        ensures
            r.rpc_url == rpc_url,
            r.timeout == timeout,
    {
        PingCommand { rpc_url, timeout }
    }
}

/// The simulate-only command: build and simulate, never broadcast.
pub struct SimulateCommand {
    pub input_mint: String,
    pub output_mint: String,
    pub amount: String,
    pub slippage_bps: u16,
    pub rpc_url: String,
    pub route_info: Option<String>,
}

impl SimulateCommand {
    /// Carry the simulation inputs.
    pub fn new(
        input_mint: String,
        output_mint: String,
        amount: String,
        slippage_bps: u16,
        rpc_url: String,
        route_info: Option<String>,
    ) -> (r: Self)
        ensures
            r.input_mint == input_mint,
            r.output_mint == output_mint,
            r.amount == amount,
            r.slippage_bps == slippage_bps,
            r.rpc_url == rpc_url,
            r.route_info == route_info,
    {
        SimulateCommand { input_mint, output_mint, amount, slippage_bps, rpc_url, route_info }
    }
}

/// The full-pipeline command: fetch or accept a route, build, sign,
/// broadcast and confirm.
pub struct SwapCommand {
    pub input_mint: String,
    pub output_mint: String,
    pub amount: String,
    pub slippage_bps: u16,
    pub wallet: String,
    pub rpc_url: String,
    pub mode: String,
    pub idempotency_key: Option<String>,
    pub route_info: Option<String>,
    pub priority_fee: Option<u64>,
    pub compute_unit_limit: Option<u32>,
}

impl SwapCommand {
    /// Carry the swap inputs.
    pub fn new(
        input_mint: String,
        output_mint: String,
        amount: String,
        slippage_bps: u16,
        wallet: String,
        rpc_url: String,
        mode: String,
        idempotency_key: Option<String>,
        route_info: Option<String>,
        priority_fee: Option<u64>,
        compute_unit_limit: Option<u32>,
    ) -> (r: Self)
        ensures
            r.input_mint == input_mint,
            r.output_mint == output_mint,
            r.amount == amount,
            r.slippage_bps == slippage_bps,
            r.wallet == wallet,
            r.rpc_url == rpc_url,
            r.mode == mode,
            r.idempotency_key == idempotency_key,
            r.route_info == route_info,
            r.priority_fee == priority_fee,
            r.compute_unit_limit == compute_unit_limit,
    {
        SwapCommand {
            input_mint,
            output_mint,
            amount,
            slippage_bps,
            wallet,
            rpc_url,
            mode,
            idempotency_key,
            route_info,
            priority_fee,
            compute_unit_limit,
        }
    }

    /// Whether compute directives are requested for this swap.
    pub fn wants_compute_directives(&self) -> (r: bool)
        ensures
            r == (self.priority_fee is Some || self.compute_unit_limit is Some),
    {
        self.priority_fee.is_some() || self.compute_unit_limit.is_some()
    }
}

/// A pluggable submission channel. Only the direct channel is implemented;
/// the relay channels are acknowledged strategies that fail as unsupported.
#[derive(PartialEq, Eq, Structural, Debug, Clone, Copy)]
pub enum SubmissionMode {
    /// Direct broadcast to the ledger endpoint.
    Simple,
    /// A bundle-relay channel, not implemented.
    Jito,
    /// Another relay channel, not implemented.
    Bloxroute,
}

/// The channel named by a mode string; an unknown mode falls back to the
/// direct channel.
pub open spec fn spec_parse_mode(s: Seq<char>) -> SubmissionMode {
    if s == "jito"@ {
        SubmissionMode::Jito
    } else if s == "bloxroute"@ {
        SubmissionMode::Bloxroute
    } else {
        SubmissionMode::Simple
    }
}

/// Resolve a mode string to a submission channel.
pub fn parse_submission_mode(mode: &str) -> (r: SubmissionMode)
    ensures
        r == spec_parse_mode(mode@),
{
    if str_eq(mode, "jito") {
        SubmissionMode::Jito
    } else if str_eq(mode, "bloxroute") {
        SubmissionMode::Bloxroute
    } else {
        SubmissionMode::Simple
    }
}

/// The error a terminal confirmation outcome propagates, if it is a
/// failure: an on-chain rejection keeps its reason; expiry and timeout keep
/// their kinds; a confirmation propagates nothing.
pub fn outcome_error(outcome: ConfirmationOutcome) -> (r: Option<ExecError>)
    ensures
        outcome is Confirmed <==> r is None,
        outcome matches ConfirmationOutcome::Failed(reason) ==> r == Some(
            ExecError::OnChainFailure(reason),
        ),
        outcome is Expired ==> r == Some(ExecError::Expired),
        outcome is TimedOut ==> r == Some(ExecError::TimedOut),
{
    match outcome {
        ConfirmationOutcome::Confirmed => None,
        ConfirmationOutcome::Failed(reason) => Some(ExecError::OnChainFailure(reason)),
        ConfirmationOutcome::Expired => Some(ExecError::Expired),
        ConfirmationOutcome::TimedOut => Some(ExecError::TimedOut),
    }
}

} // verus!

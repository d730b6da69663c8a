//! The externally observed outcome record, and the builders that each
//! command uses to fill it: one success shape and one failure shape per
//! command, each written exactly once per invocation.
use vstd::prelude::*;

use crate::utils::{format_duration, spec_digits, spec_format_duration, u64_to_string};

verus! {

/// The outcome record of one invocation: a success flag and the optional
/// artifacts of the pipeline stages, with accumulated log lines.
pub struct ExecutorResult {
    pub success: bool,
    pub signature: Option<String>,
    pub received_amount: Option<String>,
    pub slot: Option<u64>,
    pub error: Option<String>,
    pub logs: Option<Vec<String>>,
    pub expected_out: Option<String>,
    pub compute_units_used: Option<u32>,
    pub idempotency_key: Option<String>,
}

/// Concatenate a label and a value into one log line.
fn line(label: &str, value: &str) -> (r: String)
    ensures
        r@ == label@ + value@,
{
    let mut out = String::new();
    out.push_str(label);
    out.push_str(value);
    proof {
        assert(out@ =~= label@ + value@);
    }
    out
}

/// The record of a completed swap: confirmed on chain, with the signature,
/// the received amount and the confirmation slot, and a log line for each.
pub fn swap_success_result(
    signature: String,
    received_amount: String,
    slot: u64,
    idempotency_key: Option<String>,
) -> (r: ExecutorResult)
    ensures
        r.success,
        r.signature == Some(signature),
        r.received_amount == Some(received_amount),
        r.slot == Some(slot),
        r.error is None,
        r.expected_out is None,
        r.compute_units_used is None,
        r.idempotency_key == idempotency_key,
        r.logs matches Some(l) && l@.len() == 3 && l@[0]@ == "Transaction signature: "@
            + signature@ && l@[1]@ == "Received amount: "@ + received_amount@ && l@[2]@
            == "Confirmed at slot: "@ + spec_digits(slot as nat),
{
    let mut logs: Vec<String> = Vec::new();
    logs.push(line("Transaction signature: ", signature.as_str()));
    logs.push(line("Received amount: ", received_amount.as_str()));
    let slot_text = u64_to_string(slot);
    logs.push(line("Confirmed at slot: ", slot_text.as_str()));
    ExecutorResult {
        success: true,
        signature: Some(signature),
        received_amount: Some(received_amount),
        slot: Some(slot),
        error: None,
        logs: Some(logs),
        expected_out: None,
        compute_units_used: None,
        idempotency_key,
    }
}

/// The record of a failed swap attempt: no artifacts, the failure text, and
/// one log line naming it.
pub fn swap_failure_result(error_text: String, idempotency_key: Option<String>) -> (r:
    ExecutorResult)
    ensures
        !r.success,
        r.signature is None,
        r.received_amount is None,
        r.slot is None,
        r.error matches Some(e) && e@ == "Swap failed: "@ + error_text@,
        r.expected_out is None,
        r.compute_units_used is None,
        r.idempotency_key == idempotency_key,
        r.logs matches Some(l) && l@.len() == 1 && l@[0]@ == "Error: "@ + error_text@,
{
    let mut logs: Vec<String> = Vec::new();
    logs.push(line("Error: ", error_text.as_str()));
    ExecutorResult {
        success: false,
        signature: None,
        received_amount: None,
        slot: None,
        error: Some(line("Swap failed: ", error_text.as_str())),
        logs: Some(logs),
        expected_out: None,
        compute_units_used: None,
        idempotency_key,
    }
}

/// The record of a passed probe: the slot it read, and log lines for the
/// endpoint, the slot and the response time.
pub fn ping_success_result(rpc_url: &str, slot: u64, duration_ms: u64) -> (r: ExecutorResult)
    requires
        duration_ms + 3000 <= u64::MAX,
    ensures
        r.success,
        r.signature is None,
        r.received_amount is None,
        r.slot == Some(slot),
        r.error is None,
        r.expected_out is None,
        r.compute_units_used is None,
        r.idempotency_key is None,
        r.logs matches Some(l) && l@.len() == 3 && l@[0]@ == "RPC endpoint: "@ + rpc_url@
            && l@[1]@ == "Current slot: "@ + spec_digits(slot as nat) && l@[2]@
            == "Response time: "@ + spec_format_duration(duration_ms),
{
    let mut logs: Vec<String> = Vec::new();
    logs.push(line("RPC endpoint: ", rpc_url));
    let slot_text = u64_to_string(slot);
    logs.push(line("Current slot: ", slot_text.as_str()));
    let time_text = format_duration(duration_ms);
    logs.push(line("Response time: ", time_text.as_str()));
    ExecutorResult {
        success: true,
        signature: None,
        received_amount: None,
        slot: Some(slot),
        error: None,
        logs: Some(logs),
        expected_out: None,
        compute_units_used: None,
        idempotency_key: None,
    }
}

/// The record of a failed probe: the failure text, and log lines for the
/// endpoint and the error.
pub fn ping_failure_result(rpc_url: &str, error_text: String) -> (r: ExecutorResult)
    ensures
        !r.success,
        r.signature is None,
        r.received_amount is None,
        r.slot is None,
        r.error matches Some(e) && e@ == "Ping failed: "@ + error_text@,
        r.expected_out is None,
        r.compute_units_used is None,
        r.idempotency_key is None,
        r.logs matches Some(l) && l@.len() == 2 && l@[0]@ == "RPC endpoint: "@ + rpc_url@
            && l@[1]@ == "Error: "@ + error_text@,
{
    let mut logs: Vec<String> = Vec::new();
    logs.push(line("RPC endpoint: ", rpc_url));
    logs.push(line("Error: ", error_text.as_str()));
    ExecutorResult {
        success: false,
        signature: None,
        received_amount: None,
        slot: None,
        error: Some(line("Ping failed: ", error_text.as_str())),
        logs: Some(logs),
        expected_out: None,
        compute_units_used: None,
        idempotency_key: None,
    }
}

/// The record of a completed simulation: the expected output and the
/// compute units it consumed, with the simulation log followed by one line
/// for each.
pub fn simulate_success_result(
    expected_out: String,
    compute_units: u32,
    sim_logs: Vec<String>,
) -> (r: ExecutorResult)
    ensures
        r.success,
        r.signature is None,
        r.received_amount is None,
        r.slot is None,
        r.error is None,
        r.expected_out == Some(expected_out),
        r.compute_units_used == Some(compute_units),
        r.idempotency_key is None,
        r.logs matches Some(l) && l@.len() == sim_logs@.len() + 2 && (forall|i: int|
            0 <= i < sim_logs@.len() ==> l@[i] == sim_logs@[i]) && l@[sim_logs@.len() as int]@
            == "Expected output: "@ + expected_out@ && l@[sim_logs@.len() as int + 1]@
            == "Compute units used: "@ + spec_digits(compute_units as nat),
{
    let mut logs = sim_logs;
    logs.push(line("Expected output: ", expected_out.as_str()));
    let units_text = u64_to_string(compute_units as u64);
    logs.push(line("Compute units used: ", units_text.as_str()));
    ExecutorResult {
        success: true,
        signature: None,
        received_amount: None,
        slot: None,
        error: None,
        logs: Some(logs),
        expected_out: Some(expected_out),
        compute_units_used: Some(compute_units),
        idempotency_key: None,
    }
}

/// The record of a failed simulation: the failure text and one log line
/// naming it.
pub fn simulate_failure_result(error_text: String) -> (r: ExecutorResult)
    ensures
        !r.success,
        r.signature is None,
        r.received_amount is None,
        r.slot is None,
        r.error matches Some(e) && e@ == "Simulation failed: "@ + error_text@,
        r.expected_out is None,
        r.compute_units_used is None,
        r.idempotency_key is None,
        r.logs matches Some(l) && l@.len() == 1 && l@[0]@ == "Error: "@ + error_text@,
{
    let mut logs: Vec<String> = Vec::new();
    logs.push(line("Error: ", error_text.as_str()));
    ExecutorResult {
        success: false,
        signature: None,
        received_amount: None,
        slot: None,
        error: Some(line("Simulation failed: ", error_text.as_str())),
        logs: Some(logs),
        expected_out: None,
        compute_units_used: None,
        idempotency_key: None,
    }
}

} // verus!

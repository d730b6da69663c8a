//! Compute-budget sizing: the derived compute-unit limit and the default
//! per-unit priority price.
use vstd::prelude::*;

verus! {

/// Base compute-unit allowance granted before counting instructions.
pub const BASE_COMPUTE_LIMIT: u32 = 200_000;

/// Additional compute units provisioned per instruction.
pub const COMPUTE_UNITS_PER_INSTRUCTION: u32 = 50_000;

/// Hard network ceiling on a transaction's compute-unit limit.
pub const MAX_COMPUTE_LIMIT: u32 = 1_400_000;

/// Default per-unit priority price in micro-lamports, used when the caller
/// gives no explicit price.
pub const DEFAULT_COMPUTE_UNIT_PRICE: u64 = 1_000;

/// The compute-unit limit derived for a transaction with `n` instructions:
/// a base allowance plus a per-instruction increment, capped at the network
/// ceiling.
pub open spec fn spec_compute_limit(n: nat) -> nat {
    if 200_000 + 50_000 * n <= 1_400_000 {
        (200_000 + 50_000 * n) as nat
    } else {
        1_400_000 as nat
    }
}

/// Derive the compute-unit limit from an instruction count, when no explicit
/// limit was requested.
pub fn derive_compute_limit(instruction_count: usize) -> (r: u32)
    ensures
        r == spec_compute_limit(instruction_count as nat),
{
    if instruction_count >= 24 {
        MAX_COMPUTE_LIMIT
    } else {
        BASE_COMPUTE_LIMIT + (instruction_count as u32) * COMPUTE_UNITS_PER_INSTRUCTION
    }
}

} // verus!

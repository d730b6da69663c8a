//! The health probe: an ordered battery of checks against the ledger
//! endpoint, failing fast on the first check that does not pass, with the
//! failure attributed to that check specifically.
use vstd::prelude::*;

verus! {

/// One check of the probe battery, in battery order.
#[derive(PartialEq, Eq, Structural, Debug, Clone, Copy)]
pub enum HealthCheck {
    /// Current slot query.
    Slot,
    /// Block height query.
    BlockHeight,
    /// Epoch info query.
    EpochInfo,
    /// Latest blockhash query.
    LatestBlockhash,
    /// Lookup of a well-known account.
    AccountLookup,
}

/// How many checks the battery has.
pub const PROBE_CHECKS: usize = 5;

/// The fixed order in which the battery is issued.
pub fn check_order() -> (r: Vec<HealthCheck>)
    ensures
        r@ =~= seq![
            HealthCheck::Slot,
            HealthCheck::BlockHeight,
            HealthCheck::EpochInfo,
            HealthCheck::LatestBlockhash,
            HealthCheck::AccountLookup,
        ],
{
    let mut r: Vec<HealthCheck> = Vec::new();
    r.push(HealthCheck::Slot);
    r.push(HealthCheck::BlockHeight);
    r.push(HealthCheck::EpochInfo);
    r.push(HealthCheck::LatestBlockhash);
    r.push(HealthCheck::AccountLookup);
    r
}

/// The verdict over the battery outcomes, in battery order: the first check
/// that failed, and nothing when every check passed.
pub open spec fn spec_probe_verdict(o: Seq<bool>) -> Option<HealthCheck>
    recommends
        o.len() == 5,
{
    if !o[0] {
        Some(HealthCheck::Slot)
    } else if !o[1] {
        Some(HealthCheck::BlockHeight)
    } else if !o[2] {
        Some(HealthCheck::EpochInfo)
    } else if !o[3] {
        Some(HealthCheck::LatestBlockhash)
    } else if !o[4] {
        Some(HealthCheck::AccountLookup)
    } else {
        None
    }
}

/// Attribute a probe failure: the first failed check in battery order, and
/// nothing exactly when all five checks passed.
pub fn first_failed_check(outcomes: &Vec<bool>) -> (r: Option<HealthCheck>)
    requires
        outcomes@.len() == 5,
    ensures
        r == spec_probe_verdict(outcomes@),
        r is None <==> (forall|i: int| 0 <= i < 5 ==> outcomes@[i]),
{
    if !outcomes[0] {
        Some(HealthCheck::Slot)
    } else if !outcomes[1] {
        Some(HealthCheck::BlockHeight)
    } else if !outcomes[2] {
        Some(HealthCheck::EpochInfo)
    } else if !outcomes[3] {
        Some(HealthCheck::LatestBlockhash)
    } else if !outcomes[4] {
        Some(HealthCheck::AccountLookup)
    } else {
        None
    }
}

/// A short name for a check, for the probe's report.
pub fn check_name(c: HealthCheck) -> (r: &'static str)
    ensures
        c == HealthCheck::Slot ==> r@ == "slot"@,
        c == HealthCheck::BlockHeight ==> r@ == "block height"@,
        c == HealthCheck::EpochInfo ==> r@ == "epoch info"@,
        c == HealthCheck::LatestBlockhash ==> r@ == "latest blockhash"@,
        c == HealthCheck::AccountLookup ==> r@ == "account lookup"@,
{
    match c {
        HealthCheck::Slot => "slot",
        HealthCheck::BlockHeight => "block height",
        HealthCheck::EpochInfo => "epoch info",
        HealthCheck::LatestBlockhash => "latest blockhash",
        HealthCheck::AccountLookup => "account lookup",
    }
}

} // verus!

use swap_exec::commands::{
    outcome_error, parse_submission_mode, PingCommand, SimulateCommand, SubmissionMode,
    SwapCommand,
};
use swap_exec::confirm::{ConfirmationEngine, ConfirmationOutcome, SignatureStatus};
use swap_exec::extract::{extract_compute_units, extract_received_amount, BalanceRecord};
use swap_exec::health::{check_order, first_failed_check, HealthCheck};
use swap_exec::report::{ping_success_result, swap_failure_result, swap_success_result};
use swap_exec::ExecError;

#[test]
fn test_expiry_beats_attempt_budget() {
    let mut engine = ConfirmationEngine::start(100, 150, 60);
    let out = engine.step(SignatureStatus::NotSeen, 251);
    assert!(matches!(out, Some(ConfirmationOutcome::Expired)));
}

#[test]
fn test_height_inside_window_keeps_polling() {
    let mut engine = ConfirmationEngine::start(100, 150, 60);
    assert!(engine.step(SignatureStatus::NotSeen, 250).is_none());
    assert!(engine.step(SignatureStatus::NotSeen, 250).is_none());
}

#[test]
fn test_on_chain_failure_is_never_timeout_or_expiry() {
    let mut engine = ConfirmationEngine::start(100, 150, 2);
    let trace = vec![
        (SignatureStatus::NotSeen, 120),
        (SignatureStatus::Failed(String::from("slippage exceeded")), 9_999),
    ];
    match engine.run_trace(trace) {
        Some(ConfirmationOutcome::Failed(reason)) => {
            assert_eq!(reason, "slippage exceeded");
        }
        other => panic!("unexpected outcome: {:?}", outcome_name(&other)),
    }
}

#[test]
fn test_success_confirms() {
    let mut engine = ConfirmationEngine::start(100, 150, 60);
    let out = engine.step(SignatureStatus::Succeeded, 140);
    assert!(matches!(out, Some(ConfirmationOutcome::Confirmed)));
}

#[test]
fn test_attempt_ceiling_fires() {
    let mut engine = ConfirmationEngine::start(100, 150, 3);
    let trace = vec![
        (SignatureStatus::NotSeen, 120),
        (SignatureStatus::NotSeen, 121),
        (SignatureStatus::NotSeen, 122),
        (SignatureStatus::NotSeen, 123),
    ];
    assert!(matches!(engine.run_trace(trace), Some(ConfirmationOutcome::TimedOut)));
}

fn outcome_name(o: &Option<ConfirmationOutcome>) -> &'static str {
    match o {
        None => "pending",
        Some(ConfirmationOutcome::Confirmed) => "confirmed",
        Some(ConfirmationOutcome::Failed(_)) => "failed",
        Some(ConfirmationOutcome::Expired) => "expired",
        Some(ConfirmationOutcome::TimedOut) => "timed out",
    }
}

#[test]
fn test_outcome_error_mapping() {
    assert!(outcome_error(ConfirmationOutcome::Confirmed).is_none());
    assert!(matches!(
        outcome_error(ConfirmationOutcome::Failed(String::from("x"))),
        Some(ExecError::OnChainFailure(_))
    ));
    assert!(matches!(outcome_error(ConfirmationOutcome::Expired), Some(ExecError::Expired)));
    assert!(matches!(outcome_error(ConfirmationOutcome::TimedOut), Some(ExecError::TimedOut)));
}

#[test]
fn three_records() {
    let records = vec![
        BalanceRecord { mint: String::from("mintA"), amount: String::from("11") },
        BalanceRecord { mint: String::from("mintB"), amount: String::from("22") },
        BalanceRecord { mint: String::from("mintC"), amount: String::from("33") },
    ];
    assert_eq!(extract_received_amount(&records, "mintB"), "22");
    assert_eq!(extract_received_amount(&records, "mintZ"), "0");
    assert_eq!(extract_received_amount(&Vec::new(), "mintA"), "0");
}

#[test]
fn test_zero_amount_does_not_downgrade_success() {
    let r = swap_success_result(
        String::from("sig111"),
        String::from("0"),
        42,
        Some(String::from("key-1")),
    );
    assert!(r.success);
    assert_eq!(r.received_amount.as_deref(), Some("0"));
    assert_eq!(r.slot, Some(42));
    assert_eq!(r.idempotency_key.as_deref(), Some("key-1"));
    let logs = r.logs.unwrap();
    assert_eq!(logs[0], "Transaction signature: sig111");
    assert_eq!(logs[2], "Confirmed at slot: 42");
}

#[test]
fn test_swap_failure_record() {
    let r = swap_failure_result(String::from("boom"), None);
    assert!(!r.success);
    assert_eq!(r.error.as_deref(), Some("Swap failed: boom"));
    assert_eq!(r.logs.unwrap(), vec![String::from("Error: boom")]);
}

#[test]
fn test_probe_attributes_blockhash_failure() {
    let outcomes = vec![true, true, true, false, true];
    assert_eq!(first_failed_check(&outcomes), Some(HealthCheck::LatestBlockhash));
    let all_good = vec![true; 5];
    assert_eq!(first_failed_check(&all_good), None);
    let first_bad = vec![false, true, true, true, true];
    assert_eq!(first_failed_check(&first_bad), Some(HealthCheck::Slot));
}

#[test]
fn test_check_order_is_fixed() {
    let order = check_order();
    assert_eq!(
        order,
        vec![
            HealthCheck::Slot,
            HealthCheck::BlockHeight,
            HealthCheck::EpochInfo,
            HealthCheck::LatestBlockhash,
            HealthCheck::AccountLookup,
        ]
    );
}

#[test]
fn test_ping_success_record() {
    let r = ping_success_result("http://localhost:8899", 777, 1500);
    assert!(r.success);
    assert_eq!(r.slot, Some(777));
    let logs = r.logs.unwrap();
    assert_eq!(logs[0], "RPC endpoint: http://localhost:8899");
    assert_eq!(logs[1], "Current slot: 777");
    assert_eq!(logs[2], "Response time: 1.5s");
}

#[test]
fn test_extract_compute_units() {
    let logs = vec![
        String::from("Program log: starting"),
        String::from("Program xyz consumed 12345 of 200000 compute units"),
    ];
    assert_eq!(extract_compute_units(&logs), 12345);
    let none = vec![String::from("Program log: 999 nothing relevant")];
    assert_eq!(extract_compute_units(&none), 0);
    let last_wins = vec![
        String::from("Program a consumed 100 of 200000 compute units"),
        String::from("Program b consumed 250 of 200000 compute units"),
    ];
    assert_eq!(extract_compute_units(&last_wins), 250);
}

#[test]
fn test_submission_mode_parsing() {
    assert_eq!(parse_submission_mode("simple"), SubmissionMode::Simple);
    assert_eq!(parse_submission_mode("jito"), SubmissionMode::Jito);
    assert_eq!(parse_submission_mode("bloxroute"), SubmissionMode::Bloxroute);
    assert_eq!(parse_submission_mode("anything else"), SubmissionMode::Simple);
}

#[test]
fn test_command_constructors_carry_inputs() {
    let ping = PingCommand::new(String::from("http://node"), 5);
    assert_eq!(ping.rpc_url, "http://node");
    assert_eq!(ping.timeout, 5);
    let sim = SimulateCommand::new(
        String::from("inA"),
        String::from("outB"),
        String::from("1.0"),
        50,
        String::from("http://node"),
        None,
    );
    assert_eq!(sim.slippage_bps, 50);
    assert!(sim.route_info.is_none());
    let swap = SwapCommand::new(
        String::from("inA"),
        String::from("outB"),
        String::from("1000000000"),
        50,
        String::from("wallet.json"),
        String::from("http://node"),
        String::from("simple"),
        Some(String::from("idem-1")),
        None,
        Some(2_000),
        None,
    );
    assert!(swap.wants_compute_directives());
    assert_eq!(swap.idempotency_key.as_deref(), Some("idem-1"));
}

#[test]
fn test_trace_with_immediate_success() {
    let mut engine = ConfirmationEngine::start(100, 150, 60);
    let trace = vec![(SignatureStatus::Succeeded, 101)];
    assert!(matches!(engine.run_trace(trace), Some(ConfirmationOutcome::Confirmed)));
    let mut engine2 = ConfirmationEngine::start(100, 150, 60);
    assert!(engine2.run_trace(Vec::new()).is_none());
}

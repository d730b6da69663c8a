use swap_exec::builder::{
    compute_budget_program_key, inject_compute_directives, prepare_transaction,
};
use swap_exec::codec::{
    decode_transaction_payload, encode_transaction_payload, parse_transaction, serialize_message,
    serialize_transaction,
};
use swap_exec::compute::derive_compute_limit;
use swap_exec::txmodel::{CompiledInstruction, LedgerTransaction, TxMessage};
use swap_exec::sign::wallet_key_usable;
use swap_exec::wallet::{parse_wallet_bytes, validate_pubkey};
use swap_exec::ExecError;

fn sample_message() -> TxMessage {
    TxMessage {
        num_required_signatures: 1,
        num_readonly_signed: 0,
        num_readonly_unsigned: 1,
        account_keys: vec![vec![7u8; 32], vec![8u8; 32]],
        recent_blockhash: vec![9u8; 32],
        instructions: vec![
            CompiledInstruction { program_id_index: 1, accounts: vec![0], data: vec![1, 2, 3] },
            CompiledInstruction { program_id_index: 1, accounts: vec![0, 1], data: vec![] },
        ],
    }
}

fn sample_transaction() -> LedgerTransaction {
    LedgerTransaction { signatures: vec![vec![0u8; 64]], message: sample_message() }
}

fn test_keypair_bytes() -> Vec<u8> {
    let kp = solana_sdk::signature::Keypair::new_from_array([1u8; 32]);
    kp.to_bytes().to_vec()
}

#[test]
fn test_derive_compute_limit_formula() {
    assert_eq!(derive_compute_limit(0), 200_000);
    assert_eq!(derive_compute_limit(1), 250_000);
    assert_eq!(derive_compute_limit(4), 400_000);
    assert_eq!(derive_compute_limit(24), 1_400_000);
    assert_eq!(derive_compute_limit(1000), 1_400_000);
}

#[test]
fn test_serialize_parse_round_trip() {
    let tx = sample_transaction();
    let bytes = serialize_transaction(&tx);
    let back = parse_transaction(&bytes).expect("round trip parses");
    assert_eq!(back.signatures, tx.signatures);
    assert_eq!(back.message.account_keys, tx.message.account_keys);
    assert_eq!(back.message.recent_blockhash, tx.message.recent_blockhash);
    assert_eq!(back.message.instructions.len(), 2);
    assert_eq!(back.message.instructions[0].data, vec![1, 2, 3]);
}

#[test]
fn test_base64_envelope_round_trip() {
    let tx = sample_transaction();
    let payload = encode_transaction_payload(&tx);
    let raw = serialize_transaction(&tx);
    assert_ne!(payload.as_bytes(), raw.as_slice());
    let back = decode_transaction_payload(payload.as_str()).expect("envelope decodes");
    assert_eq!(back.message.account_keys[0], tx.message.account_keys[0]);
    assert_eq!(back.message.instructions.len(), tx.message.instructions.len());
}

#[test]
fn test_decode_rejects_garbage() {
    assert!(decode_transaction_payload("!!!not base64!!!").is_none());
    assert!(decode_transaction_payload("AAEC").is_none());
}

#[test]
fn test_injection_orders_directives() {
    let m = sample_message();
    let injected = inject_compute_directives(m, 400_000, 1_000);
    assert_eq!(injected.account_keys.len(), 3);
    assert_eq!(injected.account_keys[2], compute_budget_program_key());
    assert_eq!(injected.instructions.len(), 4);
    let limit_ix = &injected.instructions[0];
    let price_ix = &injected.instructions[1];
    assert_eq!(limit_ix.program_id_index, 2);
    assert_eq!(limit_ix.data, vec![2u8, 0x80, 0x1a, 0x06, 0x00]);
    assert_eq!(price_ix.program_id_index, 2);
    assert_eq!(price_ix.data, vec![3u8, 0xe8, 0x03, 0, 0, 0, 0, 0, 0]);
    assert_eq!(injected.instructions[2].data, vec![1, 2, 3]);
    assert_eq!(injected.account_keys[0], vec![7u8; 32]);
    assert_eq!(injected.num_readonly_unsigned, 2);
}

#[test]
fn test_prepare_transaction_resigns_rebuilt_message() {
    let tx = sample_transaction();
    let payload = encode_transaction_payload(&tx);
    let key = test_keypair_bytes();
    let signed = prepare_transaction(payload.as_str(), &key, None, Some(5_000)).expect("prepares");
    assert_eq!(signed.message.instructions.len(), 4);
    assert_eq!(signed.message.account_keys[0], vec![7u8; 32]);
    assert_eq!(signed.signatures.len(), 1);
    assert_eq!(signed.signatures[0].len(), 64);
    let msg_bytes = serialize_message(&signed.message);
    let kp = solana_sdk::signature::Keypair::new_from_array([1u8; 32]);
    let expected = solana_sdk::signature::Signer::sign_message(&kp, msg_bytes.as_slice());
    assert_eq!(signed.signatures[0].as_slice(), expected.as_ref());
}

#[test]
fn test_prepare_transaction_passthrough_without_directives() {
    let tx = sample_transaction();
    let payload = encode_transaction_payload(&tx);
    let key = test_keypair_bytes();
    let signed = prepare_transaction(payload.as_str(), &key, None, None).expect("prepares");
    assert_eq!(signed.message.instructions.len(), 2);
    assert_eq!(signed.message.account_keys.len(), 2);
}

#[test]
fn test_prepare_transaction_rejects_bad_payload() {
    let key = test_keypair_bytes();
    match prepare_transaction("no-such-payload", &key, None, None) {
        Err(ExecError::MalformedTransaction) => {}
        other => panic!("unexpected outcome: {:?}", other.map(|_| ())),
    }
}

#[test]
fn test_prepare_transaction_rejects_bad_key() {
    let tx = sample_transaction();
    let payload = encode_transaction_payload(&tx);
    let key = vec![0u8; 63];
    match prepare_transaction(payload.as_str(), &key, None, None) {
        Err(ExecError::SigningFailed) => {}
        other => panic!("unexpected outcome: {:?}", other.map(|_| ())),
    }
}

#[test]
fn test_wallet_json_array() {
    let mut text = String::from("[");
    for i in 0..64 {
        if i > 0 {
            text.push(',');
        }
        text.push_str(&format!("{}", i));
    }
    text.push(']');
    let data: Vec<u8> = text.into_bytes();
    let key = parse_wallet_bytes(&data).expect("json wallet parses");
    assert_eq!(key.len(), 64);
    assert_eq!(key[0], 0);
    assert_eq!(key[63], 63);
}

#[test]
fn test_wallet_raw_bytes() {
    let data = vec![5u8; 64];
    let key = parse_wallet_bytes(&data).expect("raw wallet parses");
    assert_eq!(key, data);
}

#[test]
fn test_wallet_invalid_format() {
    let data = vec![5u8; 63];
    match parse_wallet_bytes(&data) {
        Err(ExecError::InvalidWalletFormat) => {}
        other => panic!("unexpected outcome: {:?}", other.map(|_| ())),
    }
    let short_json = b"[1,2,3]".to_vec();
    assert!(parse_wallet_bytes(&short_json).is_err());
}

#[test]
fn test_validate_pubkey() {
    assert!(validate_pubkey("11111111111111111111111111111112"));
    assert!(!validate_pubkey("not a key!"));
    assert!(!validate_pubkey(""));
}

#[test]
fn test_wallet_json_precedence_over_raw() {
    // a JSON array of 21 zeros, padded with spaces to exactly 64 bytes:
    // the JSON reading parses but has the wrong count, so the raw reading
    // takes over and hands back the text bytes themselves
    let mut text = String::from("[0");
    for _ in 0..20 {
        text.push_str(",0");
    }
    text.push(']');
    while text.len() < 64 {
        text.push(' ');
    }
    let data: Vec<u8> = text.clone().into_bytes();
    assert_eq!(data.len(), 64);
    let key = parse_wallet_bytes(&data).expect("raw reading takes over");
    assert_eq!(key, data);
}

#[test]
fn test_wallet_key_usable() {
    let good = test_keypair_bytes();
    assert!(wallet_key_usable(&good));
    let zeros = vec![0u8; 64];
    assert!(!wallet_key_usable(&zeros));
    let short = vec![1u8; 63];
    assert!(!wallet_key_usable(&short));
}

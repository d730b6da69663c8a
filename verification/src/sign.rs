//! Signing a rebuilt transaction message. A signature attests to the exact
//! serialized message bytes, so signing always happens after any instruction
//! mutation, never before.
use vstd::prelude::*;

use crate::codec::{serialize_message, spec_ser_msg};
use crate::txmodel::{LedgerTransaction, TxMessage};
use crate::ExecError;

verus! {

/// The ed25519 signature produced for `msg` by the keypair recovered from
/// the 64-byte blob `key`.
pub uninterp spec fn sig_of(key: Seq<u8>, msg: Seq<u8>) -> Seq<u8>;

/// Whether the blob `key` recovers a keypair: 64 bytes whose public half
/// matches the one derived from the secret half, a function of the key
/// bytes alone.
pub uninterp spec fn keypair_ok(key: Seq<u8>) -> bool;

/// Relies on solana-keypair's `Keypair::try_from` (recovering a keypair from
/// a 64-byte secret-and-public blob; acceptance depends on the blob alone)
/// and `Signer::sign_message` (producing a 64-byte ed25519 signature, never
/// failing, determined by the key bytes and the message bytes alone).
#[verifier::external_body]
fn sign_message_bytes(key: &Vec<u8>, msg: &Vec<u8>) -> (r: Option<Vec<u8>>)
    ensures
        (r is Some) == keypair_ok(key@),
        r matches Some(s) ==> s@ == sig_of(key@, msg@) && s@.len() == 64,
{
    match solana_sdk::signature::Keypair::try_from(key.as_slice()) {
        Ok(kp) => Some(
            solana_sdk::signature::Signer::sign_message(&kp, msg.as_slice()).as_ref().to_vec(),
        ),
        Err(_) => None,
    }
}

/// Byte-for-byte equality of two byte vectors.
pub fn bytes_eq(a: &Vec<u8>, b: &Vec<u8>) -> (r: bool)
    ensures
        r == (a@ == b@),
{
    if a.len() != b.len() {
        assert(a@ != b@);
        return false;
    }
    let mut i: usize = 0;
    while i < a.len()
        invariant
            i <= a@.len(),
            a@.len() == b@.len(),
            forall|j: int| 0 <= j < i ==> a@[j] == b@[j],
        decreases a@.len() - i,
    {
        if a[i] != b[i] {
            return false;
        }
        i = i + 1;
    }
    assert(a@ =~= b@);
    true
}

/// Whether the wallet key blob recovers a keypair: probed through the
/// signing call itself, which succeeds exactly on usable key material.
pub fn wallet_key_usable(key: &Vec<u8>) -> (r: bool)
    ensures
        r == keypair_ok(key@),
{
    let probe: Vec<u8> = Vec::new();
    sign_message_bytes(key, &probe).is_some()
}

/// Wrap a message and one signature over its bytes into a transaction.
/// Verified for every signature value handed in.
pub fn attach_signature(message: TxMessage, sig: Vec<u8>) -> (t: LedgerTransaction)
    requires
        message@.wf(),
        sig@.len() == 64,
    ensures
        t@.message == message@,
        t@.signatures == seq![sig@],
        t@.wf(),
{
    let mut signatures: Vec<Vec<u8>> = Vec::new();
    signatures.push(sig);
    let t = LedgerTransaction { signatures, message };
    proof {
        assert(t@.signatures =~= seq![t.signatures@[0]@]);
    }
    t
}

/// Sign a message with the 64-byte wallet key blob: serialize the message,
/// sign those exact bytes, and attach the signature. Succeeds exactly when
/// the key material recovers a keypair, and fails only with the signing
/// error.
pub fn sign_transaction(message: TxMessage, key: &Vec<u8>) -> (r: Result<
    LedgerTransaction,
    ExecError,
>)
    requires
        message@.wf(),
    ensures
        (r is Ok) == keypair_ok(key@),
        r matches Ok(t) ==> {
            &&& t@.message == message@
            &&& t@.signatures == seq![sig_of(key@, spec_ser_msg(message@))]
            &&& t@.wf()
        },
        r matches Err(e) ==> e == ExecError::SigningFailed,
{
    let msg_bytes = serialize_message(&message);
    match sign_message_bytes(key, &msg_bytes) {
        Some(sig) => Ok(attach_signature(message, sig)),
        None => Err(ExecError::SigningFailed),
    }
}

} // verus!

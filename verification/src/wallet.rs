//! Wallet key material: a 64-byte secret-and-public blob, accepted either
//! as a JSON array of 64 integers or as 64 raw bytes.
use vstd::prelude::*;

use crate::builder::clone_bytes;
use crate::ExecError;

verus! {

/// Length in bytes of a wallet key blob.
pub const WALLET_KEY_LEN: usize = 64;

/// The byte vector serde_json recovers from `s`, when it accepts `s` as a
/// JSON array of byte-range integers, and nothing when it rejects `s`.
pub uninterp spec fn json_byte_array_of(s: Seq<u8>) -> Option<Seq<u8>>;

/// Relies on serde_json's `from_slice` for `Vec<u8>`: whether the bytes
/// parse as a JSON array of byte-range integers, and to which bytes, are
/// both functions of the input alone.
#[verifier::external_body]
fn json_byte_array(data: &Vec<u8>) -> (r: Option<Vec<u8>>)
    ensures
        (r is Some) == (json_byte_array_of(data@) is Some),
        r matches Some(v) ==> Some(v@) == json_byte_array_of(data@),
{
    match serde_json::from_slice::<Vec<u8>>(data.as_slice()) {
        Ok(v) => Some(v),
        Err(_) => None,
    }
}

/// The input holds a JSON array of exactly 64 byte-range integers.
pub open spec fn spec_json_wallet(data: Seq<u8>) -> bool {
    json_byte_array_of(data) matches Some(v) && v.len() == 64
}

/// The key bytes a wallet file's contents stand for: the 64 integers of a
/// JSON array of exactly 64, read first; otherwise the contents themselves
/// when they are exactly 64 raw bytes.
pub open spec fn spec_wallet_key(data: Seq<u8>) -> Option<Seq<u8>> {
    if spec_json_wallet(data) {
        json_byte_array_of(data)
    } else if data.len() == 64 {
        Some(data)
    } else {
        None
    }
}

/// Recover the 64 key bytes from a wallet file's contents. Succeeds exactly
/// when the contents are a JSON array of 64 byte-range integers or 64 raw
/// bytes, the JSON reading taking precedence, and then returns exactly
/// those key bytes; anything else is an invalid wallet format.
pub fn parse_wallet_bytes(data: &Vec<u8>) -> (r: Result<Vec<u8>, ExecError>)
    ensures
        (r is Ok) == (spec_wallet_key(data@) is Some),
        r matches Ok(k) ==> Some(k@) == spec_wallet_key(data@) && k@.len() == 64,
        r matches Err(e) ==> e == ExecError::InvalidWalletFormat,
{
    match json_byte_array(data) {
        Some(v) => {
            if v.len() == WALLET_KEY_LEN {
                return Ok(v);
            }
            if data.len() == WALLET_KEY_LEN {
                return Ok(clone_bytes(data));
            }
            Err(ExecError::InvalidWalletFormat)
        },
        None => {
            if data.len() == WALLET_KEY_LEN {
                return Ok(clone_bytes(data));
            }
            Err(ExecError::InvalidWalletFormat)
        },
    }
}

/// The 32 public-key bytes behind a base58 account string, when the string
/// is a well-formed key.
pub uninterp spec fn pubkey_bytes_of(s: Seq<char>) -> Option<Seq<u8>>;

/// Relies on solana-pubkey's `FromStr` and `to_bytes`: whether a string
/// parses, and to which 32 bytes, is a function of the string alone.
#[verifier::external_body]
fn parse_pubkey(s: &str) -> (r: Option<Vec<u8>>)
    ensures
        (r is Some) == (pubkey_bytes_of(s@) is Some),
        r matches Some(v) ==> Some(v@) == pubkey_bytes_of(s@) && v@.len() == 32,
{
    match <solana_sdk::pubkey::Pubkey as std::str::FromStr>::from_str(s) {
        Ok(p) => Some(p.to_bytes().to_vec()),
        Err(_) => None,
    }
}

/// Whether a string is a well-formed base58 account key.
pub fn validate_pubkey(pubkey_str: &str) -> (r: bool)
    ensures
        r == (pubkey_bytes_of(pubkey_str@) is Some),
{
    parse_pubkey(pubkey_str).is_some()
}

} // verus!

//! Rebuilding a decoded transaction with compute-budget directives: a
//! compute-unit limit instruction and a per-unit price instruction are
//! prepended, in that order, before all original instructions, and the fee
//! payer is kept.
use vstd::prelude::*;

use crate::codec::{
    decode_transaction_payload, lemma_tx_round_trip, spec_parse_tx, spec_payload_tx, spec_ser_msg,
    spec_ser_tx,
};
use crate::compute::{derive_compute_limit, spec_compute_limit, DEFAULT_COMPUTE_UNIT_PRICE};
use crate::sign::{keypair_ok, sig_of, sign_transaction};
use crate::txmodel::{
    CompiledInstruction, InstructionModel, LedgerTransaction, MessageModel, TransactionModel,
    TxMessage, MAX_SEQ_LEN,
};
use crate::ExecError;

verus! {

/// The account key of the ledger's compute-budget program.
pub open spec fn spec_compute_budget_key() -> Seq<u8> {
    seq![
        3u8, 6u8, 70u8, 111u8, 229u8, 33u8, 23u8, 50u8, 255u8, 236u8, 173u8, 186u8, 114u8, 195u8,
        155u8, 231u8, 188u8, 140u8, 229u8, 187u8, 197u8, 247u8, 18u8, 107u8, 44u8, 67u8, 155u8,
        58u8, 64u8, 0u8, 0u8, 0u8,
    ]
}

/// The compute-budget program key as bytes.
pub fn compute_budget_program_key() -> (r: Vec<u8>)
    ensures
        r@ == spec_compute_budget_key(),
{
    let r: Vec<u8> = vec![
        3u8, 6u8, 70u8, 111u8, 229u8, 33u8, 23u8, 50u8, 255u8, 236u8, 173u8, 186u8, 114u8, 195u8,
        155u8, 231u8, 188u8, 140u8, 229u8, 187u8, 197u8, 247u8, 18u8, 107u8, 44u8, 67u8, 155u8,
        58u8, 64u8, 0u8, 0u8, 0u8,
    ];
    assert(r@ =~= spec_compute_budget_key());
    r
}

/// The four little-endian bytes of a 32-bit value.
pub open spec fn spec_u32_le(v: u32) -> Seq<u8> {
    seq![
        (v % 0x100) as u8,
        ((v / 0x100) % 0x100) as u8,
        ((v / 0x10000) % 0x100) as u8,
        ((v / 0x1000000) % 0x100) as u8,
    ]
}

/// The eight little-endian bytes of a 64-bit value.
pub open spec fn spec_u64_le(v: u64) -> Seq<u8> {
    seq![
        (v % 0x100) as u8,
        ((v / 0x100) % 0x100) as u8,
        ((v / 0x10000) % 0x100) as u8,
        ((v / 0x1000000) % 0x100) as u8,
        ((v / 0x100000000) % 0x100) as u8,
        ((v / 0x10000000000) % 0x100) as u8,
        ((v / 0x1000000000000) % 0x100) as u8,
        ((v / 0x100000000000000) % 0x100) as u8,
    ]
}

/// The data bytes of a compute-unit limit directive: its discriminant, then
/// the limit in little-endian form.
pub open spec fn spec_limit_ix_data(limit: u32) -> Seq<u8> {
    seq![2u8] + spec_u32_le(limit)
}

/// The data bytes of a compute-unit price directive: its discriminant, then
/// the price in little-endian form.
pub open spec fn spec_price_ix_data(price: u64) -> Seq<u8> {
    seq![3u8] + spec_u64_le(price)
}

/// The compute-unit limit directive, compiled against key index `idx`.
pub open spec fn spec_limit_ix(idx: u8, limit: u32) -> InstructionModel {
    InstructionModel {
        program_id_index: idx,
        accounts: Seq::empty(),
        data: spec_limit_ix_data(limit),
    }
}

/// The compute-unit price directive, compiled against key index `idx`.
pub open spec fn spec_price_ix(idx: u8, price: u64) -> InstructionModel {
    InstructionModel {
        program_id_index: idx,
        accounts: Seq::empty(),
        data: spec_price_ix_data(price),
    }
}

/// Build the limit directive's data bytes.
pub fn limit_ix_data(limit: u32) -> (r: Vec<u8>)
    ensures
        r@ == spec_limit_ix_data(limit),
{
    let mut r: Vec<u8> = Vec::new();
    r.push(2u8);
    r.push((limit % 0x100) as u8);
    r.push(((limit / 0x100) % 0x100) as u8);
    r.push(((limit / 0x10000) % 0x100) as u8);
    r.push(((limit / 0x1000000) % 0x100) as u8);
    assert(r@ =~= spec_limit_ix_data(limit));
    r
}

/// Build the price directive's data bytes.
pub fn price_ix_data(price: u64) -> (r: Vec<u8>)
    ensures
        r@ == spec_price_ix_data(price),
{
    let mut r: Vec<u8> = Vec::new();
    r.push(3u8);
    r.push((price % 0x100) as u8);
    r.push(((price / 0x100) % 0x100) as u8);
    r.push(((price / 0x10000) % 0x100) as u8);
    r.push(((price / 0x1000000) % 0x100) as u8);
    r.push(((price / 0x100000000) % 0x100) as u8);
    r.push(((price / 0x10000000000) % 0x100) as u8);
    r.push(((price / 0x1000000000000) % 0x100) as u8);
    r.push(((price / 0x100000000000000) % 0x100) as u8);
    assert(r@ =~= spec_price_ix_data(price));
    r
}

/// The first position of `key` in `keys`, if it occurs.
pub open spec fn spec_key_lookup(keys: Seq<Seq<u8>>, key: Seq<u8>) -> Option<nat>
    decreases keys.len(),
{
    if keys.len() == 0 {
        None
    } else if keys[0] == key {
        Some(0 as nat)
    } else {
        match spec_key_lookup(keys.skip(1), key) {
            Some(i) => Some((i + 1) as nat),
            None => None,
        }
    }
}

/// Shift a lookup outcome by `i` positions.
pub open spec fn lookup_shift(i: nat, r: Option<nat>) -> Option<nat> {
    match r {
        Some(j) => Some((i + j) as nat),
        None => None,
    }
}

/// Find the first position of `key` among the message's account keys.
pub fn find_key(keys: &Vec<Vec<u8>>, key: &Vec<u8>) -> (r: Option<usize>)
    ensures
        match r {
            Some(i) => spec_key_lookup(crate::codec::vecs_view(keys@), key@) == Some(i as nat) && i
                < keys@.len(),
            None => spec_key_lookup(crate::codec::vecs_view(keys@), key@) is None,
        },
{
    let ghost whole = crate::codec::vecs_view(keys@);
    proof {
        assert(whole.skip(0) =~= whole);
    }
    let mut i: usize = 0;
    while i < keys.len()
        invariant
            i <= keys@.len(),
            whole == crate::codec::vecs_view(keys@),
            spec_key_lookup(whole, key@) == lookup_shift(
                i as nat,
                spec_key_lookup(whole.skip(i as int), key@),
            ),
        decreases keys@.len() - i,
    {
        let ghost rem = whole.skip(i as int);
        assert(rem[0] == whole[i as int]);
        let hit = crate::sign::bytes_eq(&keys[i], key);
        if hit {
            return Some(i);
        }
        proof {
            assert(rem.skip(1) =~= whole.skip(i + 1));
        }
        i = i + 1;
    }
    assert(whole.skip(i as int) =~= Seq::<Seq<u8>>::empty());
    None
}

/// The message rebuilt with the two compute-budget directives prepended: the
/// limit directive, then the price directive, then every original
/// instruction in its original order. The compute-budget program key is
/// reused if the message already lists it, and otherwise appended to the key
/// table as a readonly unsigned account; either way the fee payer and every
/// original key keep their positions.
pub open spec fn spec_inject(m: MessageModel, limit: u32, price: u64) -> MessageModel {
    let (keys2, idx, nru) = match spec_key_lookup(m.account_keys, spec_compute_budget_key()) {
        Some(i) => (m.account_keys, i, m.num_readonly_unsigned as nat),
        None => (
            m.account_keys.push(spec_compute_budget_key()),
            m.account_keys.len(),
            (m.num_readonly_unsigned + 1) as nat,
        ),
    };
    MessageModel {
        num_required_signatures: m.num_required_signatures,
        num_readonly_signed: m.num_readonly_signed,
        num_readonly_unsigned: nru as u8,
        account_keys: keys2,
        recent_blockhash: m.recent_blockhash,
        instructions: seq![spec_limit_ix(idx as u8, limit), spec_price_ix(idx as u8, price)]
            + m.instructions,
    }
}

/// Directive injection keeps the fee payer, keeps every original key at its
/// position, places the limit directive first and the price directive
/// second, and keeps all original instructions after them in their original
/// relative order.
pub proof fn lemma_inject_shape(m: MessageModel, limit: u32, price: u64)
    requires
        m.wf(),
        m.account_keys.len() >= 1,
        m.account_keys.len() < 0x100,
    ensures
        ({
            let m2 = spec_inject(m, limit, price);
            &&& m2.fee_payer() == m.fee_payer()
            &&& forall|i: int|
                0 <= i < m.account_keys.len() ==> m2.account_keys[i] == m.account_keys[i]
            &&& m2.recent_blockhash == m.recent_blockhash
            &&& m2.instructions.len() == m.instructions.len() + 2
            &&& m2.instructions[0].data == spec_limit_ix_data(limit)
            &&& m2.instructions[1].data == spec_price_ix_data(price)
            &&& m2.instructions[0].program_id_index == m2.instructions[1].program_id_index
            &&& m2.account_keys[m2.instructions[0].program_id_index as int]
                == spec_compute_budget_key()
            &&& m2.instructions.skip(2) == m.instructions
        }),
{
    let m2 = spec_inject(m, limit, price);
    lemma_key_lookup_hit(m.account_keys, spec_compute_budget_key());
    assert(m2.instructions.skip(2) =~= m.instructions);
}

/// A successful lookup points at the key it looked for.
pub proof fn lemma_key_lookup_hit(keys: Seq<Seq<u8>>, key: Seq<u8>)
    ensures
        spec_key_lookup(keys, key) matches Some(i) ==> i < keys.len() && keys[i as int] == key,
    decreases keys.len(),
{
    if keys.len() > 0 && !(keys[0] == key) {
        lemma_key_lookup_hit(keys.skip(1), key);
    }
}

/// Rebuild the message with the two compute-budget directives prepended.
pub fn inject_compute_directives(m: TxMessage, limit: u32, price: u64) -> (r: TxMessage)
    requires
        m@.wf(),
        m@.account_keys.len() < 0x100,
        m@.num_readonly_unsigned < 0xFF,
        m@.instructions.len() + 2 <= crate::txmodel::MAX_SEQ_LEN,
    ensures
        r@ == spec_inject(m@, limit, price),
        r@.wf(),
{
    let cb_key = compute_budget_program_key();
    let mut keys = m.account_keys;
    let ghost keys0 = crate::codec::vecs_view(keys@);
    let (idx, nru): (usize, u8) = match find_key(&keys, &cb_key) {
        Some(i) => (i, m.num_readonly_unsigned),
        None => {
            let i = keys.len();
            keys.push(cb_key);
            proof {
                assert(crate::codec::vecs_view(keys@) =~= keys0.push(spec_compute_budget_key()));
            }
            (i, m.num_readonly_unsigned + 1)
        },
    };
    let mut instructions: Vec<CompiledInstruction> = Vec::new();
    instructions.push(
        CompiledInstruction {
            program_id_index: idx as u8,
            accounts: Vec::new(),
            data: limit_ix_data(limit),
        },
    );
    instructions.push(
        CompiledInstruction {
            program_id_index: idx as u8,
            accounts: Vec::new(),
            data: price_ix_data(price),
        },
    );
    let mut k: usize = 0;
    let old_ixs = m.instructions;
    while k < old_ixs.len()
        invariant
            k <= old_ixs@.len(),
            instructions@.len() == k + 2,
            forall|i: int|
                0 <= i < old_ixs@.len() ==> (#[trigger] old_ixs@[i])@
                    == crate::codec::ixs_view(old_ixs@)[i],
            crate::codec::ixs_view(instructions@) =~= seq![
                spec_limit_ix(idx as u8, limit),
                spec_price_ix(idx as u8, price),
            ] + crate::codec::ixs_view(old_ixs@).take(k as int),
        decreases old_ixs@.len() - k,
    {
        let ghost before = crate::codec::ixs_view(instructions@);
        let ix = &old_ixs[k];
        instructions.push(
            CompiledInstruction {
                program_id_index: ix.program_id_index,
                accounts: clone_bytes(&ix.accounts),
                data: clone_bytes(&ix.data),
            },
        );
        proof {
            assert(crate::codec::ixs_view(instructions@) =~= before.push(old_ixs@[k as int]@));
            assert(crate::codec::ixs_view(old_ixs@).take(k + 1) =~= crate::codec::ixs_view(
                old_ixs@,
            ).take(k as int).push(old_ixs@[k as int]@));
        }
        k = k + 1;
    }
    let r = TxMessage {
        num_required_signatures: m.num_required_signatures,
        num_readonly_signed: m.num_readonly_signed,
        num_readonly_unsigned: nru,
        account_keys: keys,
        recent_blockhash: m.recent_blockhash,
        instructions,
    };
    proof {
        assert(crate::codec::ixs_view(old_ixs@).take(old_ixs@.len() as int) =~= crate::codec::ixs_view(
            old_ixs@,
        ));
        assert(r@.instructions =~= crate::codec::ixs_view(r.instructions@));
        assert(r@.account_keys =~= crate::codec::vecs_view(r.account_keys@));
        assert(r@ =~= spec_inject(m@, limit, price));
        lemma_key_lookup_hit(m@.account_keys, spec_compute_budget_key());
    }
    r
}

/// Copy a byte vector.
pub fn clone_bytes(v: &Vec<u8>) -> (r: Vec<u8>)
    ensures
        r@ == v@,
{
    let mut r: Vec<u8> = Vec::new();
    let mut i: usize = 0;
    while i < v.len()
        invariant
            i <= v@.len(),
            r@ =~= v@.subrange(0, i as int),
        decreases v@.len() - i,
    {
        r.push(v[i]);
        i = i + 1;
    }
    assert(r@ =~= v@);
    r
}

/// The message a transaction is rebuilt around when directives are
/// requested: the explicit limit if given, else the limit derived from the
/// original instruction count; the explicit price if given, else the default
/// price. With neither requested the message passes through unchanged.
pub open spec fn spec_directed_message(
    m: MessageModel,
    limit: Option<u32>,
    price: Option<u64>,
) -> MessageModel {
    if limit is None && price is None {
        m
    } else {
        let l: u32 = match limit {
            Some(v) => v,
            None => spec_compute_limit(m.instructions.len()) as u32,
        };
        let p: u64 = match price {
            Some(v) => v,
            None => DEFAULT_COMPUTE_UNIT_PRICE,
        };
        spec_inject(m, l, p)
    }
}

/// Apply the requested compute directives to a message.
pub fn apply_compute_directives(m: TxMessage, limit: Option<u32>, price: Option<u64>) -> (r:
    TxMessage)
    requires
        m@.wf(),
        m@.account_keys.len() < 0x100,
        m@.num_readonly_unsigned < 0xFF,
        m@.instructions.len() + 2 <= crate::txmodel::MAX_SEQ_LEN,
    ensures
        r@ == spec_directed_message(m@, limit, price),
        r@.wf(),
{
    match (limit, price) {
        (None, None) => m,
        (lo, po) => {
            let l: u32 = match lo {
                Some(v) => v,
                None => derive_compute_limit(m.instructions.len()),
            };
            let p: u64 = match po {
                Some(v) => v,
                None => DEFAULT_COMPUTE_UNIT_PRICE,
            };
            inject_compute_directives(m, l, p)
        },
    }
}


/// The envelope carries a transaction whose message fits the rebuild: key
/// table and header with room for the compute-budget key, and instruction
/// count with room for the two directives.
pub open spec fn spec_payload_buildable(s: Seq<char>) -> bool {
    &&& spec_payload_tx(s) is Some
    &&& ({
        let m = spec_payload_tx(s)->0.message;
        &&& m.account_keys.len() < 0x100
        &&& m.num_readonly_unsigned < 0xFF
        &&& m.instructions.len() + 2 <= MAX_SEQ_LEN
    })
}

/// Decode a base64 swap-transaction payload, rebuild it with the requested
/// compute directives, and re-sign the rebuilt message with the wallet key.
/// The signature always covers the message as rebuilt, never the message as
/// delivered: mutation happens strictly before signing. Succeeds exactly on
/// a buildable payload and key material that recovers a keypair; a payload
/// that does not decode, parse or fit is rejected as malformed, and sound
/// payloads fail only as a signing failure.
pub fn prepare_transaction(
    payload: &str,
    key: &Vec<u8>,
    limit: Option<u32>,
    price: Option<u64>,
) -> (r: Result<LedgerTransaction, ExecError>)
    ensures
        (r is Ok) == (spec_payload_buildable(payload@) && keypair_ok(key@)),
        (r == Err::<LedgerTransaction, ExecError>(ExecError::MalformedTransaction))
            == !spec_payload_buildable(payload@),
        (r == Err::<LedgerTransaction, ExecError>(ExecError::SigningFailed)) == (
        spec_payload_buildable(payload@) && !keypair_ok(key@)),
        r matches Ok(t) ==> ({
            let parsed = spec_payload_tx(payload@);
            &&& parsed is Some
            &&& ({
                let m2 = spec_directed_message(parsed->0.message, limit, price);
                &&& t@.message == m2
                &&& t@.signatures == seq![sig_of(key@, spec_ser_msg(m2))]
                &&& t@.wf()
            })
        }),
{
    let tx = match decode_transaction_payload(payload) {
        Some(t) => t,
        None => {
            return Err(ExecError::MalformedTransaction);
        },
    };
    let message = tx.message;
    if message.account_keys.len() >= 0x100 || message.num_readonly_unsigned == 0xFF
        || message.instructions.len() > MAX_SEQ_LEN - 2 {
        return Err(ExecError::MalformedTransaction);
    }
    let directed = apply_compute_directives(message, limit, price);
    sign_transaction(directed, key)
}


/// Directive injection preserves well-formedness.
pub proof fn lemma_inject_wf(m: MessageModel, limit: u32, price: u64)
    requires
        m.wf(),
        m.account_keys.len() < 0x100,
        m.instructions.len() + 2 <= MAX_SEQ_LEN,
    ensures
        spec_inject(m, limit, price).wf(),
{
    let m2 = spec_inject(m, limit, price);
    assert(spec_compute_budget_key().len() == 32);
    assert forall|i: int| 0 <= i < m2.account_keys.len() implies (#[trigger] m2.account_keys[i]).len()
        == 32 by {
        if i < m.account_keys.len() {
            assert(m.account_keys[i].len() == 32);
        }
    }
    assert forall|i: int| 0 <= i < m2.instructions.len() implies (#[trigger] m2.instructions[i]).wf()
        by {
        if i >= 2 {
            assert(m2.instructions[i] == m.instructions[i - 2]);
            assert(m.instructions[i - 2].wf());
        }
    }
}

/// Round trip through the envelope with directives: a transaction parsed
/// from envelope bytes and rebuilt with the two compute directives keeps
/// its fee payer and all original instructions in their original relative
/// order, and the rebuilt, re-signed transaction serializes to bytes that
/// parse back to exactly itself.
pub proof fn lemma_rebuild_round_trip(bytes: Seq<u8>, limit: u32, price: u64, sig: Seq<u8>)
    requires
        spec_parse_tx(bytes) is Some,
        ({
            let t = spec_parse_tx(bytes)->0;
            &&& t.wf()
            &&& t.message.account_keys.len() >= 1
            &&& t.message.account_keys.len() < 0x100
            &&& t.message.instructions.len() + 2 <= MAX_SEQ_LEN
        }),
        sig.len() == 64,
    ensures
        ({
            let t = spec_parse_tx(bytes)->0;
            let m2 = spec_inject(t.message, limit, price);
            let t2 = TransactionModel { signatures: seq![sig], message: m2 };
            &&& m2.fee_payer() == t.message.fee_payer()
            &&& m2.instructions.skip(2) == t.message.instructions
            &&& spec_parse_tx(spec_ser_tx(t2)) == Some(t2)
        }),
{
    let t = spec_parse_tx(bytes)->0;
    let m2 = spec_inject(t.message, limit, price);
    let t2 = TransactionModel { signatures: seq![sig], message: m2 };
    lemma_inject_shape(t.message, limit, price);
    lemma_inject_wf(t.message, limit, price);
    assert(t2.wf());
    lemma_tx_round_trip(t2);
}

} // verus!

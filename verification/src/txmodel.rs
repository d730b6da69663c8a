//! Model of a ledger transaction: an ordered instruction sequence compiled
//! against a table of account keys, a fee payer (the first key), a recent
//! blockhash binding the transaction to a ledger state, and signatures over
//! the serialized message bytes.
use vstd::prelude::*;

verus! {

/// Length in bytes of an account key.
pub const KEY_LEN: usize = 32;

/// Length in bytes of a signature.
pub const SIG_LEN: usize = 64;

/// Largest count encodable by the length prefix of the wire format.
pub const MAX_SEQ_LEN: usize = 0xFFFF;

/// Mathematical model of one compiled instruction: a program referenced by
/// its index into the message's account-key table, the indices of the
/// accounts it touches, and its opaque data bytes.
#[verifier::ext_equal]
pub struct InstructionModel {
    pub program_id_index: u8,
    pub accounts: Seq<u8>,
    pub data: Seq<u8>,
}

/// Mathematical model of a transaction message.
#[verifier::ext_equal]
pub struct MessageModel {
    pub num_required_signatures: u8,
    pub num_readonly_signed: u8,
    pub num_readonly_unsigned: u8,
    pub account_keys: Seq<Seq<u8>>,
    pub recent_blockhash: Seq<u8>,
    pub instructions: Seq<InstructionModel>,
}

/// Mathematical model of a transaction: signatures over the message bytes,
/// then the message itself.
#[verifier::ext_equal]
pub struct TransactionModel {
    pub signatures: Seq<Seq<u8>>,
    pub message: MessageModel,
}

impl InstructionModel {
    /// The instruction fits the wire format's length prefixes.
    pub open spec fn wf(self) -> bool {
        &&& self.accounts.len() <= MAX_SEQ_LEN
        &&& self.data.len() <= MAX_SEQ_LEN
    }
}

impl MessageModel {
    /// Every key and the blockhash have their fixed lengths, and all counts
    /// fit the wire format's length prefixes.
    pub open spec fn wf(self) -> bool {
        &&& self.account_keys.len() <= MAX_SEQ_LEN
        &&& forall|i: int|
            0 <= i < self.account_keys.len() ==> (#[trigger] self.account_keys[i]).len() == KEY_LEN
        &&& self.recent_blockhash.len() == KEY_LEN
        &&& self.instructions.len() <= MAX_SEQ_LEN
        &&& forall|i: int|
            0 <= i < self.instructions.len() ==> (#[trigger] self.instructions[i]).wf()
    }

    /// The fee payer is the first account key.
    pub open spec fn fee_payer(self) -> Seq<u8> {
        self.account_keys[0]
    }
}

impl TransactionModel {
    /// Every signature has its fixed length, their count fits the wire
    /// format, and the message is well formed.
    pub open spec fn wf(self) -> bool {
        &&& self.signatures.len() <= MAX_SEQ_LEN
        &&& forall|i: int|
            0 <= i < self.signatures.len() ==> (#[trigger] self.signatures[i]).len() == SIG_LEN
        &&& self.message.wf()
    }
}

/// One compiled instruction of a transaction message.
pub struct CompiledInstruction {
    pub program_id_index: u8,
    pub accounts: Vec<u8>,
    pub data: Vec<u8>,
}

/// A transaction message: header counts, account-key table, recent
/// blockhash, and the ordered instruction sequence.
pub struct TxMessage {
    pub num_required_signatures: u8,
    pub num_readonly_signed: u8,
    pub num_readonly_unsigned: u8,
    pub account_keys: Vec<Vec<u8>>,
    pub recent_blockhash: Vec<u8>,
    pub instructions: Vec<CompiledInstruction>,
}

/// A transaction: signatures over the serialized message bytes, and the
/// message they attest to.
pub struct LedgerTransaction {
    pub signatures: Vec<Vec<u8>>,
    pub message: TxMessage,
}

impl View for CompiledInstruction {
    type V = InstructionModel;

    open spec fn view(&self) -> InstructionModel {
        InstructionModel {
            program_id_index: self.program_id_index,
            accounts: self.accounts@,
            data: self.data@,
        }
    }
}

impl View for TxMessage {
    type V = MessageModel;

    open spec fn view(&self) -> MessageModel {
        MessageModel {
            num_required_signatures: self.num_required_signatures,
            num_readonly_signed: self.num_readonly_signed,
            num_readonly_unsigned: self.num_readonly_unsigned,
            account_keys: Seq::new(self.account_keys@.len(), |i: int| self.account_keys@[i]@),
            recent_blockhash: self.recent_blockhash@,
            instructions: Seq::new(self.instructions@.len(), |i: int| self.instructions@[i]@),
        }
    }
}

impl View for LedgerTransaction {
    type V = TransactionModel;

    open spec fn view(&self) -> TransactionModel {
        TransactionModel {
            signatures: Seq::new(self.signatures@.len(), |i: int| self.signatures@[i]@),
            message: self.message@,
        }
    }
}

} // verus!

//! Wire format of a ledger transaction: a length-prefixed binary envelope.
//! Counts are encoded in a compact little-endian form, seven value bits per
//! byte with the high bit marking continuation, at most three bytes, and the
//! unique shortest encoding is the only one accepted.
use vstd::prelude::*;

use crate::txmodel::{
    CompiledInstruction, InstructionModel, LedgerTransaction, MessageModel, TransactionModel,
    TxMessage,
};

verus! {

/// The compact encoding of a count `n <= 0xFFFF`: seven value bits per byte,
/// least significant group first, high bit set on every byte but the last.
pub open spec fn spec_encode_len(n: nat) -> Seq<u8>
    recommends
        n <= 0xFFFF,
{
    if n < 0x80 {
        seq![n as u8]
    } else if n < 0x4000 {
        seq![(n % 0x80 + 0x80) as u8, (n / 0x80) as u8]
    } else {
        seq![(n % 0x80 + 0x80) as u8, ((n / 0x80) % 0x80 + 0x80) as u8, (n / 0x4000) as u8]
    }
}

/// Read a compact count from the front of `s`: the decoded count and the
/// number of bytes consumed. Rejects continuation past the third byte, any
/// zero byte after the first (an overlong alias of a shorter encoding), and
/// values over 0xFFFF, so exactly the encodings `spec_encode_len` produces
/// are accepted.
pub open spec fn spec_read_len(s: Seq<u8>) -> Option<(nat, nat)> {
    if s.len() >= 1 && s[0] < 0x80 {
        Some(((s[0] as nat), 1 as nat))
    } else if s.len() >= 2 && s[0] >= 0x80 && 0 < s[1] < 0x80 {
        Some((((s[0] - 0x80) + 0x80 * s[1]) as nat, 2 as nat))
    } else if s.len() >= 3 && s[0] >= 0x80 && s[1] >= 0x80 && 0 < s[2] <= 3 {
        Some((((s[0] - 0x80) + 0x80 * (s[1] - 0x80) + 0x4000 * s[2]) as nat, 3 as nat))
    } else {
        None
    }
}

/// Reading the front of an encoded count followed by anything returns that
/// count and consumes exactly the encoding.
pub proof fn lemma_read_encoded_len(n: nat, rest: Seq<u8>)
    requires
        n <= 0xFFFF,
    ensures
        spec_read_len(spec_encode_len(n) + rest) == Some((n, spec_encode_len(n).len())),
{
    let s = spec_encode_len(n) + rest;
    if n < 0x80 {
        assert(s[0] == n as u8);
    } else if n < 0x4000 {
        assert(s[0] == (n % 0x80 + 0x80) as u8);
        assert(s[1] == (n / 0x80) as u8);
        assert(0x80 * (n / 0x80) + n % 0x80 == n) by {
            vstd::arithmetic::div_mod::lemma_fundamental_div_mod(n as int, 0x80);
        }
        assert(1 <= n / 0x80 < 0x80) by {
            vstd::arithmetic::div_mod::lemma_div_is_ordered(0x80, n as int, 0x80);
            assert(0x80int / 0x80 == 1);
            vstd::arithmetic::div_mod::lemma_div_is_ordered(n as int, 0x3fff, 0x80);
            assert(0x3fffint / 0x80 == 127);
        }
    } else {
        assert(s[0] == (n % 0x80 + 0x80) as u8);
        assert(s[1] == ((n / 0x80) % 0x80 + 0x80) as u8);
        assert(s[2] == (n / 0x4000) as u8);
        assert(1 <= n / 0x4000 <= 3) by {
            vstd::arithmetic::div_mod::lemma_div_is_ordered(0x4000, n as int, 0x4000);
            assert(0x4000int / 0x4000 == 1);
            vstd::arithmetic::div_mod::lemma_div_is_ordered(n as int, 0xFFFF, 0x4000);
            assert(0xFFFFint / 0x4000 == 3);
        }
        assert((n / 0x80) / 0x80 == n / 0x4000) by {
            vstd::arithmetic::div_mod::lemma_div_denominator(n as int, 0x80, 0x80);
        }
        assert(0x80 * (n / 0x80) + n % 0x80 == n) by {
            vstd::arithmetic::div_mod::lemma_fundamental_div_mod(n as int, 0x80);
        }
        assert(0x80 * ((n / 0x80) / 0x80) + (n / 0x80) % 0x80 == n / 0x80) by {
            vstd::arithmetic::div_mod::lemma_fundamental_div_mod((n / 0x80) as int, 0x80);
        }
        assert((n % 0x80) + 0x80 * ((n / 0x80) % 0x80) + 0x4000 * (n / 0x4000) == n);
    }
}

/// Append the compact encoding of `n` to `out`.
pub fn push_encoded_len(out: &mut Vec<u8>, n: u16)
    ensures
        final(out)@ == old(out)@ + spec_encode_len(n as nat),
{
    if n < 0x80 {
        out.push(n as u8);
    } else if n < 0x4000 {
        out.push((n % 0x80 + 0x80) as u8);
        out.push((n / 0x80) as u8);
    } else {
        out.push((n % 0x80 + 0x80) as u8);
        out.push(((n / 0x80) % 0x80 + 0x80) as u8);
        out.push((n / 0x4000) as u8);
    }
    assert(out@ =~= old(out)@ + spec_encode_len(n as nat));
}

/// Read a compact count at `pos`; on success, the count and the position
/// just past its encoding.
pub fn read_len(bytes: &Vec<u8>, pos: usize) -> (r: Option<(u16, usize)>)
    requires
        pos <= bytes@.len(),
    ensures
        match r {
            Some(p) => {
                &&& spec_read_len(bytes@.skip(pos as int)) == Some(
                    (p.0 as nat, (p.1 - pos) as nat),
                )
                &&& pos < p.1 <= bytes@.len()
            },
            None => spec_read_len(bytes@.skip(pos as int)) is None,
        },
{
    let ghost tail = bytes@.skip(pos as int);
    let avail = bytes.len() - pos;
    if avail >= 1 && bytes[pos] < 0x80 {
        assert(tail[0] == bytes@[pos as int]);
        Some((bytes[pos] as u16, pos + 1))
    } else if avail >= 2 && bytes[pos] >= 0x80 && 0 < bytes[pos + 1] && bytes[pos + 1] < 0x80 {
        assert(tail[0] == bytes@[pos as int]);
        assert(tail[1] == bytes@[pos + 1]);
        let v: u16 = (bytes[pos] - 0x80) as u16 + 0x80 * (bytes[pos + 1] as u16);
        Some((v, pos + 2))
    } else if avail >= 3 && bytes[pos] >= 0x80 && bytes[pos + 1] >= 0x80 && 0 < bytes[pos + 2]
        && bytes[pos + 2] <= 3 {
        assert(tail[0] == bytes@[pos as int]);
        assert(tail[1] == bytes@[pos + 1]);
        assert(tail[2] == bytes@[pos + 2]);
        let v: u16 = (bytes[pos] - 0x80) as u16 + 0x80 * ((bytes[pos + 1] - 0x80) as u16) + 0x4000
            * (bytes[pos + 2] as u16);
        Some((v, pos + 3))
    } else {
        assert(spec_read_len(tail) is None) by {
            if pos < bytes@.len() {
                assert(tail[0] == bytes@[pos as int]);
            }
            if pos + 1 < bytes@.len() {
                assert(tail[1] == bytes@[pos + 1]);
            }
            if pos + 2 < bytes@.len() {
                assert(tail[2] == bytes@[pos + 2]);
            }
        }
        None
    }
}

/// The views of a sequence of byte vectors.
pub open spec fn vecs_view(v: Seq<Vec<u8>>) -> Seq<Seq<u8>> {
    Seq::new(v.len(), |i: int| v[i]@)
}

/// Read `count` chunks of `size` bytes each from the front of `s`.
pub open spec fn spec_read_chunks(s: Seq<u8>, count: nat, size: nat) -> Option<
    (Seq<Seq<u8>>, nat),
>
    decreases count,
{
    if count == 0 {
        Some((Seq::empty(), 0 as nat))
    } else if s.len() >= size {
        match spec_read_chunks(s.skip(size as int), (count - 1) as nat, size) {
            Some(p) => Some((seq![s.take(size as int)] + p.0, size + p.1)),
            None => None,
        }
    } else {
        None
    }
}

/// The concatenation of a sequence of chunks.
pub open spec fn spec_ser_chunks(chunks: Seq<Seq<u8>>) -> Seq<u8>
    decreases chunks.len(),
{
    if chunks.len() == 0 {
        Seq::empty()
    } else {
        chunks[0] + spec_ser_chunks(chunks.skip(1))
    }
}

/// Reading back the concatenation of `count` chunks of equal size, followed
/// by anything, returns exactly those chunks.
pub proof fn lemma_read_ser_chunks(chunks: Seq<Seq<u8>>, size: nat, rest: Seq<u8>)
    requires
        forall|i: int| 0 <= i < chunks.len() ==> (#[trigger] chunks[i]).len() == size,
    ensures
        spec_read_chunks(spec_ser_chunks(chunks) + rest, chunks.len(), size) == Some(
            (chunks, size * chunks.len()),
        ),
    decreases chunks.len(),
{
    if chunks.len() == 0 {
        assert(spec_ser_chunks(chunks) + rest =~= rest);
        assert(chunks =~= Seq::<Seq<u8>>::empty());
    } else {
        let s = spec_ser_chunks(chunks) + rest;
        let tail_ser = spec_ser_chunks(chunks.skip(1));
        assert(s =~= chunks[0] + (tail_ser + rest));
        assert(s.take(size as int) =~= chunks[0]);
        assert(s.skip(size as int) =~= tail_ser + rest);
        lemma_read_ser_chunks(chunks.skip(1), size, rest);
        assert(seq![s.take(size as int)] + chunks.skip(1) =~= chunks);
        assert(size * chunks.len() == size + size * (chunks.len() - 1))
            by (nonlinear_arith);
    }
}

/// Copy `n` bytes starting at `pos`; on success, the bytes and the position
/// just past them. Fails exactly when fewer than `n` bytes remain.
pub fn read_exact(bytes: &Vec<u8>, pos: usize, n: usize) -> (r: Option<(Vec<u8>, usize)>)
    requires
        pos <= bytes@.len(),
    ensures
        match r {
            Some(p) => {
                &&& p.0@ == bytes@.skip(pos as int).take(n as int)
                &&& p.0@.len() == n
                &&& p.1 == pos + n
                &&& p.1 <= bytes@.len()
            },
            None => bytes@.len() - pos < n,
        },
{
    if bytes.len() - pos < n {
        return None;
    }
    let end: usize = pos + n;
    let mut out: Vec<u8> = Vec::new();
    let mut i: usize = pos;
    while i < end
        invariant
            pos <= i <= end,
            end == pos + n,
            end <= bytes@.len(),
            out@ =~= bytes@.subrange(pos as int, i as int),
        decreases end - i,
    {
        out.push(bytes[i]);
        i = i + 1;
    }
    assert(out@ =~= bytes@.skip(pos as int).take(n as int));
    Some((out, end))
}

/// Helper joining a parsed prefix with the outcome of reading the remaining
/// chunks.
pub open spec fn chunks_step(
    pre: Seq<Seq<u8>>,
    consumed: nat,
    r: Option<(Seq<Seq<u8>>, nat)>,
) -> Option<(Seq<Seq<u8>>, nat)> {
    match r {
        Some(p) => Some((pre + p.0, consumed + p.1)),
        None => None,
    }
}

/// Read `count` chunks of `size` bytes each starting at `pos`.
pub fn read_chunks(bytes: &Vec<u8>, pos: usize, count: u16, size: usize) -> (r: Option<
    (Vec<Vec<u8>>, usize),
>)
    requires
        pos <= bytes@.len(),
    ensures
        match r {
            Some(p) => {
                &&& spec_read_chunks(bytes@.skip(pos as int), count as nat, size as nat) == Some(
                    (vecs_view(p.0@), (p.1 - pos) as nat),
                )
                &&& p.0@.len() == count
                &&& forall|i: int| 0 <= i < p.0@.len() ==> (#[trigger] p.0@[i])@.len() == size
                &&& pos <= p.1 <= bytes@.len()
            },
            None => spec_read_chunks(bytes@.skip(pos as int), count as nat, size as nat) is None,
        },
{
    let ghost tail = bytes@.skip(pos as int);
    let mut acc: Vec<Vec<u8>> = Vec::new();
    let mut cur: usize = pos;
    let mut k: u16 = 0;
    while k < count
        invariant
            pos <= cur <= bytes@.len(),
            k <= count,
            tail == bytes@.skip(pos as int),
            acc@.len() == k,
            forall|i: int| 0 <= i < acc@.len() ==> (#[trigger] acc@[i])@.len() == size,
            spec_read_chunks(tail, count as nat, size as nat) == chunks_step(
                vecs_view(acc@),
                (cur - pos) as nat,
                spec_read_chunks(bytes@.skip(cur as int), (count - k) as nat, size as nat),
            ),
        decreases count - k,
    {
        let ghost pre = vecs_view(acc@);
        let ghost remaining = bytes@.skip(cur as int);
        match read_exact(bytes, cur, size) {
            Some(p) => {
                proof {
                    assert(remaining.skip(size as int) =~= bytes@.skip(p.1 as int));
                }
                let ghost old_acc = acc@;
                acc.push(p.0);
                k = k + 1;
                proof {
                    assert(vecs_view(acc@) =~= pre.push(p.0@));
                    let rec = spec_read_chunks(
                        bytes@.skip(p.1 as int),
                        (count - k) as nat,
                        size as nat,
                    );
                    match rec {
                        Some(q) => {
                            assert(pre + (seq![remaining.take(size as int)] + q.0) =~= vecs_view(
                                acc@,
                            ) + q.0);
                        },
                        None => {},
                    }
                }
                cur = p.1;
            },
            None => {
                return None;
            },
        }
    }
    assert(spec_read_chunks(bytes@.skip(cur as int), 0, size as nat) == Some(
        (Seq::<Seq<u8>>::empty(), 0 as nat),
    ));
    assert(vecs_view(acc@) + Seq::<Seq<u8>>::empty() =~= vecs_view(acc@));
    Some((acc, cur))
}

/// Append every byte of `v` to `out`.
pub fn push_bytes(out: &mut Vec<u8>, v: &Vec<u8>)
    ensures
        final(out)@ == old(out)@ + v@,
{
    let ghost before = out@;
    let mut j: usize = 0;
    while j < v.len()
        invariant
            j <= v@.len(),
            out@ =~= before + v@.subrange(0, j as int),
        decreases v@.len() - j,
    {
        out.push(v[j]);
        j = j + 1;
    }
    assert(out@ =~= before + v@);
}

/// Append every chunk of `chunks` to `out`.
pub fn push_chunks(out: &mut Vec<u8>, chunks: &Vec<Vec<u8>>)
    ensures
        final(out)@ == old(out)@ + spec_ser_chunks(vecs_view(chunks@)),
{
    let ghost whole = vecs_view(chunks@);
    proof {
        assert(whole.skip(0) =~= whole);
    }
    let mut k: usize = 0;
    while k < chunks.len()
        invariant
            k <= chunks@.len(),
            whole == vecs_view(chunks@),
            out@ + spec_ser_chunks(whole.skip(k as int)) == old(out)@ + spec_ser_chunks(whole),
        decreases chunks@.len() - k,
    {
        let ghost before = out@;
        push_bytes(out, &chunks[k]);
        proof {
            assert(out@ =~= before + whole[k as int]);
            assert(spec_ser_chunks(whole.skip(k as int)) == whole[k as int] + spec_ser_chunks(
                whole.skip(k as int).skip(1),
            ));
            assert(whole.skip(k as int).skip(1) =~= whole.skip(k + 1));
            assert(before + whole[k as int] + spec_ser_chunks(whole.skip(k + 1)) =~= before
                + spec_ser_chunks(whole.skip(k as int)));
        }
        k = k + 1;
    }
    proof {
        assert(whole.skip(k as int) =~= Seq::<Seq<u8>>::empty());
        assert(out@ + Seq::<u8>::empty() =~= out@);
    }
}

/// Read one compiled instruction from the front of `s`: the program index
/// byte, then the account indices and the data bytes, each with a compact
/// length prefix.
pub open spec fn spec_read_ix(s: Seq<u8>) -> Option<(InstructionModel, nat)> {
    if s.len() < 1 {
        None
    } else {
        match spec_read_len(s.skip(1)) {
            Some(p1) => {
                let s2 = s.skip(1 + p1.1 as int);
                if s2.len() >= p1.0 {
                    match spec_read_len(s2.skip(p1.0 as int)) {
                        Some(p2) => {
                            let s3 = s2.skip(p1.0 as int).skip(p2.1 as int);
                            if s3.len() >= p2.0 {
                                Some(
                                    (
                                        InstructionModel {
                                            program_id_index: s[0],
                                            accounts: s2.take(p1.0 as int),
                                            data: s3.take(p2.0 as int),
                                        },
                                        (1 + p1.1 + p1.0 + p2.1 + p2.0) as nat,
                                    ),
                                )
                            } else {
                                None
                            }
                        },
                        None => None,
                    }
                } else {
                    None
                }
            },
            None => None,
        }
    }
}

/// The wire bytes of one compiled instruction.
pub open spec fn spec_ser_ix(ix: InstructionModel) -> Seq<u8> {
    seq![ix.program_id_index] + spec_encode_len(ix.accounts.len()) + ix.accounts
        + spec_encode_len(ix.data.len()) + ix.data
}

/// Reading back a serialized instruction, followed by anything, returns
/// exactly that instruction.
#[verifier::rlimit(60)]
pub proof fn lemma_read_ser_ix(ix: InstructionModel, rest: Seq<u8>)
    requires
        ix.wf(),
    ensures
        spec_read_ix(spec_ser_ix(ix) + rest) == Some((ix, spec_ser_ix(ix).len())),
{
    let e1 = spec_encode_len(ix.accounts.len());
    let e2 = spec_encode_len(ix.data.len());
    let s = spec_ser_ix(ix) + rest;
    assert(s[0] == ix.program_id_index);
    assert(s.skip(1) =~= e1 + (ix.accounts + e2 + ix.data + rest));
    lemma_read_encoded_len(ix.accounts.len(), ix.accounts + e2 + ix.data + rest);
    let s2 = s.skip(1 + e1.len() as int);
    assert(s2 =~= ix.accounts + (e2 + ix.data + rest));
    assert(s2.take(ix.accounts.len() as int) =~= ix.accounts);
    assert(s2.skip(ix.accounts.len() as int) =~= e2 + (ix.data + rest));
    lemma_read_encoded_len(ix.data.len(), ix.data + rest);
    let s3 = s2.skip(ix.accounts.len() as int).skip(e2.len() as int);
    assert(s3 =~= ix.data + rest);
    assert(s3.take(ix.data.len() as int) =~= ix.data);
    let got = spec_read_ix(s)->0;
    assert(got.0 =~= ix);
}

/// Read one compiled instruction at `pos`.
pub fn read_ix(bytes: &Vec<u8>, pos: usize) -> (r: Option<(CompiledInstruction, usize)>)
    requires
        pos <= bytes@.len(),
    ensures
        match r {
            Some(p) => {
                &&& spec_read_ix(bytes@.skip(pos as int)) == Some((p.0@, (p.1 - pos) as nat))
                &&& p.0@.wf()
                &&& pos <= p.1 <= bytes@.len()
            },
            None => spec_read_ix(bytes@.skip(pos as int)) is None,
        },
{
    let ghost tail = bytes@.skip(pos as int);
    if bytes.len() - pos < 1 {
        return None;
    }
    let pid = bytes[pos];
    assert(tail[0] == bytes@[pos as int]);
    assert(tail.skip(1) =~= bytes@.skip(pos + 1));
    let (na, apos) = match read_len(bytes, pos + 1) {
        Some(p) => p,
        None => {
            return None;
        },
    };
    assert(tail.skip(1 + (apos - (pos + 1)) as int) =~= bytes@.skip(apos as int));
    let (accounts, dlpos) = match read_exact(bytes, apos, na as usize) {
        Some(p) => p,
        None => {
            assert(bytes@.skip(apos as int).len() < na as nat);
            return None;
        },
    };
    assert(bytes@.skip(apos as int).skip(na as int) =~= bytes@.skip(dlpos as int));
    let (nd, dpos) = match read_len(bytes, dlpos) {
        Some(p) => p,
        None => {
            return None;
        },
    };
    assert(bytes@.skip(apos as int).skip(na as int).skip((dpos - dlpos) as int) =~= bytes@.skip(
        dpos as int,
    ));
    let (data, endpos) = match read_exact(bytes, dpos, nd as usize) {
        Some(p) => p,
        None => {
            assert(bytes@.skip(dpos as int).len() < nd as nat);
            return None;
        },
    };
    let ix = CompiledInstruction { program_id_index: pid, accounts, data };
    proof {
        let got = spec_read_ix(tail)->0;
        assert(got.0 =~= ix@);
    }
    Some((ix, endpos))
}

/// Append the wire bytes of one instruction to `out`.
pub fn push_ix(out: &mut Vec<u8>, ix: &CompiledInstruction)
    requires
        ix@.wf(),
    ensures
        final(out)@ == old(out)@ + spec_ser_ix(ix@),
{
    out.push(ix.program_id_index);
    push_encoded_len(out, ix.accounts.len() as u16);
    push_bytes(out, &ix.accounts);
    push_encoded_len(out, ix.data.len() as u16);
    push_bytes(out, &ix.data);
    assert(out@ =~= old(out)@ + spec_ser_ix(ix@));
}


/// The views of a sequence of compiled instructions.
pub open spec fn ixs_view(v: Seq<CompiledInstruction>) -> Seq<InstructionModel> {
    Seq::new(v.len(), |i: int| v[i]@)
}

/// Read `count` compiled instructions from the front of `s`.
pub open spec fn spec_read_ixs(s: Seq<u8>, count: nat) -> Option<(Seq<InstructionModel>, nat)>
    decreases count,
{
    if count == 0 {
        Some((Seq::empty(), 0 as nat))
    } else {
        match spec_read_ix(s) {
            Some(p) => match spec_read_ixs(s.skip(p.1 as int), (count - 1) as nat) {
                Some(q) => Some((seq![p.0] + q.0, p.1 + q.1)),
                None => None,
            },
            None => None,
        }
    }
}

/// The concatenated wire bytes of a sequence of instructions.
pub open spec fn spec_ser_ixs(ixs: Seq<InstructionModel>) -> Seq<u8>
    decreases ixs.len(),
{
    if ixs.len() == 0 {
        Seq::empty()
    } else {
        spec_ser_ix(ixs[0]) + spec_ser_ixs(ixs.skip(1))
    }
}

/// Reading back serialized instructions, followed by anything, returns
/// exactly those instructions.
pub proof fn lemma_read_ser_ixs(ixs: Seq<InstructionModel>, rest: Seq<u8>)
    requires
        forall|i: int| 0 <= i < ixs.len() ==> (#[trigger] ixs[i]).wf(),
    ensures
        spec_read_ixs(spec_ser_ixs(ixs) + rest, ixs.len()) == Some(
            (ixs, spec_ser_ixs(ixs).len()),
        ),
    decreases ixs.len(),
{
    if ixs.len() == 0 {
        assert(spec_ser_ixs(ixs) + rest =~= rest);
        assert(ixs =~= Seq::<InstructionModel>::empty());
    } else {
        let s = spec_ser_ixs(ixs) + rest;
        let tail_ser = spec_ser_ixs(ixs.skip(1));
        assert(s =~= spec_ser_ix(ixs[0]) + (tail_ser + rest));
        lemma_read_ser_ix(ixs[0], tail_ser + rest);
        assert(s.skip(spec_ser_ix(ixs[0]).len() as int) =~= tail_ser + rest);
        lemma_read_ser_ixs(ixs.skip(1), rest);
        assert(seq![ixs[0]] + ixs.skip(1) =~= ixs);
    }
}

/// Helper joining parsed instructions with the outcome of reading the rest.
pub open spec fn ixs_step(
    pre: Seq<InstructionModel>,
    consumed: nat,
    r: Option<(Seq<InstructionModel>, nat)>,
) -> Option<(Seq<InstructionModel>, nat)> {
    match r {
        Some(p) => Some((pre + p.0, consumed + p.1)),
        None => None,
    }
}

/// Read `count` compiled instructions starting at `pos`.
pub fn read_ixs(bytes: &Vec<u8>, pos: usize, count: u16) -> (r: Option<
    (Vec<CompiledInstruction>, usize),
>)
    requires
        pos <= bytes@.len(),
    ensures
        match r {
            Some(p) => {
                &&& spec_read_ixs(bytes@.skip(pos as int), count as nat) == Some(
                    (ixs_view(p.0@), (p.1 - pos) as nat),
                )
                &&& p.0@.len() == count
                &&& forall|i: int| 0 <= i < p.0@.len() ==> (#[trigger] p.0@[i])@.wf()
                &&& pos <= p.1 <= bytes@.len()
            },
            None => spec_read_ixs(bytes@.skip(pos as int), count as nat) is None,
        },
{
    let ghost tail = bytes@.skip(pos as int);
    let mut acc: Vec<CompiledInstruction> = Vec::new();
    let mut cur: usize = pos;
    let mut k: u16 = 0;
    while k < count
        invariant
            pos <= cur <= bytes@.len(),
            k <= count,
            tail == bytes@.skip(pos as int),
            acc@.len() == k,
            forall|i: int| 0 <= i < acc@.len() ==> (#[trigger] acc@[i])@.wf(),
            spec_read_ixs(tail, count as nat) == ixs_step(
                ixs_view(acc@),
                (cur - pos) as nat,
                spec_read_ixs(bytes@.skip(cur as int), (count - k) as nat),
            ),
        decreases count - k,
    {
        let ghost pre = ixs_view(acc@);
        let ghost remaining = bytes@.skip(cur as int);
        match read_ix(bytes, cur) {
            Some(p) => {
                proof {
                    assert(remaining.skip((p.1 - cur) as int) =~= bytes@.skip(p.1 as int));
                }
                acc.push(p.0);
                k = k + 1;
                proof {
                    assert(ixs_view(acc@) =~= pre.push(p.0@));
                    let rec = spec_read_ixs(bytes@.skip(p.1 as int), (count - k) as nat);
                    match rec {
                        Some(q) => {
                            assert(pre + (seq![p.0@] + q.0) =~= ixs_view(acc@) + q.0);
                        },
                        None => {},
                    }
                }
                cur = p.1;
            },
            None => {
                return None;
            },
        }
    }
    assert(spec_read_ixs(bytes@.skip(cur as int), 0) == Some(
        (Seq::<InstructionModel>::empty(), 0 as nat),
    ));
    assert(ixs_view(acc@) + Seq::<InstructionModel>::empty() =~= ixs_view(acc@));
    Some((acc, cur))
}

/// Append the wire bytes of every instruction to `out`.
pub fn push_ixs(out: &mut Vec<u8>, ixs: &Vec<CompiledInstruction>)
    requires
        forall|i: int| 0 <= i < ixs@.len() ==> (#[trigger] ixs@[i])@.wf(),
    ensures
        final(out)@ == old(out)@ + spec_ser_ixs(ixs_view(ixs@)),
{
    let ghost whole = ixs_view(ixs@);
    proof {
        assert(whole.skip(0) =~= whole);
    }
    let mut k: usize = 0;
    while k < ixs.len()
        invariant
            k <= ixs@.len(),
            whole == ixs_view(ixs@),
            forall|i: int| 0 <= i < ixs@.len() ==> (#[trigger] ixs@[i])@.wf(),
            out@ + spec_ser_ixs(whole.skip(k as int)) == old(out)@ + spec_ser_ixs(whole),
        decreases ixs@.len() - k,
    {
        let ghost before = out@;
        push_ix(out, &ixs[k]);
        proof {
            assert(out@ =~= before + spec_ser_ix(whole[k as int]));
            assert(spec_ser_ixs(whole.skip(k as int)) == spec_ser_ix(whole[k as int])
                + spec_ser_ixs(whole.skip(k as int).skip(1)));
            assert(whole.skip(k as int).skip(1) =~= whole.skip(k + 1));
            assert(before + spec_ser_ix(whole[k as int]) + spec_ser_ixs(whole.skip(k + 1)) =~=
                before + spec_ser_ixs(whole.skip(k as int)));
        }
        k = k + 1;
    }
    proof {
        assert(whole.skip(k as int) =~= Seq::<InstructionModel>::empty());
        assert(out@ + Seq::<u8>::empty() =~= out@);
    }
}


/// Read a transaction message from the front of `s`: three header bytes,
/// the account keys, the recent blockhash, and the instructions.
pub open spec fn spec_read_msg(s: Seq<u8>) -> Option<(MessageModel, nat)> {
    if s.len() < 3 {
        None
    } else {
        match spec_read_len(s.skip(3)) {
            Some(pk) => match spec_read_chunks(s.skip(3 + pk.1 as int), pk.0, 32) {
                Some(ck) => {
                    let s2 = s.skip(3 + pk.1 as int).skip(ck.1 as int);
                    if s2.len() >= 32 {
                        match spec_read_len(s2.skip(32)) {
                            Some(pi) => match spec_read_ixs(s2.skip(32).skip(pi.1 as int), pi.0) {
                                Some(ci) => Some(
                                    (
                                        MessageModel {
                                            num_required_signatures: s[0],
                                            num_readonly_signed: s[1],
                                            num_readonly_unsigned: s[2],
                                            account_keys: ck.0,
                                            recent_blockhash: s2.take(32),
                                            instructions: ci.0,
                                        },
                                        (3 + pk.1 + ck.1 + 32 + pi.1 + ci.1) as nat,
                                    ),
                                ),
                                None => None,
                            },
                            None => None,
                        }
                    } else {
                        None
                    }
                },
                None => None,
            },
            None => None,
        }
    }
}

/// The wire bytes of a transaction message.
pub open spec fn spec_ser_msg(m: MessageModel) -> Seq<u8> {
    seq![m.num_required_signatures, m.num_readonly_signed, m.num_readonly_unsigned]
        + spec_encode_len(m.account_keys.len()) + spec_ser_chunks(m.account_keys)
        + m.recent_blockhash + spec_encode_len(m.instructions.len()) + spec_ser_ixs(
        m.instructions,
    )
}

/// Reading back a serialized message, followed by anything, returns exactly
/// that message.
#[verifier::rlimit(100)]
proof fn lemma_read_ser_msg_front(m: MessageModel, rest: Seq<u8>)
    requires
        m.wf(),
    ensures
        ({
            let s = spec_ser_msg(m) + rest;
            let ek = spec_encode_len(m.account_keys.len());
            let nk = m.account_keys.len();
            &&& s.len() >= 3
            &&& s[0] == m.num_required_signatures
            &&& s[1] == m.num_readonly_signed
            &&& s[2] == m.num_readonly_unsigned
            &&& spec_read_len(s.skip(3)) == Some((nk, ek.len()))
            &&& spec_read_chunks(s.skip(3 + ek.len() as int), nk, 32) == Some(
                (m.account_keys, (32 * nk) as nat),
            )
            &&& s.skip(3 + ek.len() as int).skip((32 * nk) as int) == m.recent_blockhash + (
            spec_encode_len(m.instructions.len()) + (spec_ser_ixs(m.instructions) + rest))
        }),
{
    let ek = spec_encode_len(m.account_keys.len());
    let keys = spec_ser_chunks(m.account_keys);
    let ei = spec_encode_len(m.instructions.len());
    let ixs = spec_ser_ixs(m.instructions);
    let bh = m.recent_blockhash;
    let s = spec_ser_msg(m) + rest;
    lemma_ser_chunks_len(m.account_keys, 32);
    assert(s.len() >= 3 && s[0] == m.num_required_signatures && s[1] == m.num_readonly_signed
        && s[2] == m.num_readonly_unsigned) by {
        assert(s =~= seq![
            m.num_required_signatures,
            m.num_readonly_signed,
            m.num_readonly_unsigned,
        ] + (ek + keys + bh + ei + ixs + rest));
    }
    assert(spec_read_len(s.skip(3)) == Some((m.account_keys.len(), ek.len()))) by {
        assert(s.skip(3) =~= ek + (keys + bh + ei + ixs + rest));
        lemma_read_encoded_len(m.account_keys.len(), keys + bh + ei + ixs + rest);
    }
    assert(spec_read_chunks(s.skip(3 + ek.len() as int), m.account_keys.len(), 32) == Some(
        (m.account_keys, (32 * m.account_keys.len()) as nat),
    )) by {
        assert(s.skip(3 + ek.len() as int) =~= keys + (bh + ei + ixs + rest));
        lemma_read_ser_chunks(m.account_keys, 32, bh + ei + ixs + rest);
    }
    assert(s.skip(3 + ek.len() as int).skip((32 * m.account_keys.len()) as int) =~= bh + (ei + (
    ixs + rest)));
}

/// Reading back a serialized message, followed by anything, returns exactly
/// that message.
#[verifier::rlimit(100)]
pub proof fn lemma_read_ser_msg(m: MessageModel, rest: Seq<u8>)
    requires
        m.wf(),
    ensures
        spec_read_msg(spec_ser_msg(m) + rest) == Some((m, spec_ser_msg(m).len())),
{
    let ek = spec_encode_len(m.account_keys.len());
    let ei = spec_encode_len(m.instructions.len());
    let ixs = spec_ser_ixs(m.instructions);
    let bh = m.recent_blockhash;
    let s = spec_ser_msg(m) + rest;
    lemma_read_ser_msg_front(m, rest);
    lemma_ser_chunks_len(m.account_keys, 32);
    let s2 = s.skip(3 + ek.len() as int).skip((32 * m.account_keys.len()) as int);
    assert(s2.len() >= 32 && s2.take(32) =~= bh);
    assert(spec_read_len(s2.skip(32)) == Some((m.instructions.len(), ei.len()))) by {
        assert(s2.skip(32) =~= ei + (ixs + rest));
        lemma_read_encoded_len(m.instructions.len(), ixs + rest);
    }
    assert(spec_read_ixs(s2.skip(32).skip(ei.len() as int), m.instructions.len()) == Some(
        (m.instructions, ixs.len()),
    )) by {
        assert(s2.skip(32).skip(ei.len() as int) =~= ixs + rest);
        lemma_read_ser_ixs(m.instructions, rest);
    }
    let got = spec_read_msg(s)->0;
    assert(got.0 =~= m);
    assert(got.1 == spec_ser_msg(m).len());
}

/// The concatenation of equally sized chunks has their total length.
pub proof fn lemma_ser_chunks_len(chunks: Seq<Seq<u8>>, size: nat)
    requires
        forall|i: int| 0 <= i < chunks.len() ==> (#[trigger] chunks[i]).len() == size,
    ensures
        spec_ser_chunks(chunks).len() == size * chunks.len(),
    decreases chunks.len(),
{
    if chunks.len() == 0 {
        assert(size * 0 == 0) by (nonlinear_arith);
    } else {
        lemma_ser_chunks_len(chunks.skip(1), size);
        assert(size + size * (chunks.len() - 1) == size * chunks.len()) by (nonlinear_arith);
    }
}

/// Read a transaction message at `pos`.
#[verifier::rlimit(100)]
pub fn read_msg(bytes: &Vec<u8>, pos: usize) -> (r: Option<(TxMessage, usize)>)
    requires
        pos <= bytes@.len(),
    ensures
        match r {
            Some(p) => {
                &&& spec_read_msg(bytes@.skip(pos as int)) == Some((p.0@, (p.1 - pos) as nat))
                &&& p.0@.wf()
                &&& pos <= p.1 <= bytes@.len()
            },
            None => spec_read_msg(bytes@.skip(pos as int)) is None,
        },
{
    let ghost tail = bytes@.skip(pos as int);
    if bytes.len() - pos < 3 {
        return None;
    }
    let h0 = bytes[pos];
    let h1 = bytes[pos + 1];
    let h2 = bytes[pos + 2];
    proof {
        assert(tail[0] == bytes@[pos as int]);
        assert(tail[1] == bytes@[pos + 1]);
        assert(tail[2] == bytes@[pos + 2]);
        assert(tail.skip(3) =~= bytes@.skip(pos + 3));
    }
    let (nk, kpos) = match read_len(bytes, pos + 3) {
        Some(p) => p,
        None => {
            return None;
        },
    };
    proof {
        assert(tail.skip(3 + (kpos - (pos + 3)) as int) =~= bytes@.skip(kpos as int));
    }
    let (keys, bhpos) = match read_chunks(bytes, kpos, nk, 32) {
        Some(p) => p,
        None => {
            return None;
        },
    };
    proof {
        assert(bytes@.skip(kpos as int).skip((bhpos - kpos) as int) =~= bytes@.skip(
            bhpos as int,
        ));
    }
    let (bh, ilpos) = match read_exact(bytes, bhpos, 32) {
        Some(p) => p,
        None => {
            assert(bytes@.skip(bhpos as int).len() < 32);
            return None;
        },
    };
    proof {
        assert(bytes@.skip(bhpos as int).skip(32) =~= bytes@.skip(ilpos as int));
    }
    let (ni, ipos) = match read_len(bytes, ilpos) {
        Some(p) => p,
        None => {
            return None;
        },
    };
    proof {
        assert(bytes@.skip(bhpos as int).skip(32).skip((ipos - ilpos) as int) =~= bytes@.skip(
            ipos as int,
        ));
    }
    let (ixs, endpos) = match read_ixs(bytes, ipos, ni) {
        Some(p) => p,
        None => {
            return None;
        },
    };
    let m = TxMessage {
        num_required_signatures: h0,
        num_readonly_signed: h1,
        num_readonly_unsigned: h2,
        account_keys: keys,
        recent_blockhash: bh,
        instructions: ixs,
    };
    proof {
        let got = spec_read_msg(tail)->0;
        assert(m@.account_keys =~= vecs_view(m.account_keys@));
        assert(m@.instructions =~= ixs_view(m.instructions@));
        assert(got.0 =~= m@);
    }
    Some((m, endpos))
}

/// Append the wire bytes of a message to `out`.
pub fn push_msg(out: &mut Vec<u8>, m: &TxMessage)
    requires
        m@.wf(),
    ensures
        final(out)@ == old(out)@ + spec_ser_msg(m@),
{
    out.push(m.num_required_signatures);
    out.push(m.num_readonly_signed);
    out.push(m.num_readonly_unsigned);
    push_encoded_len(out, m.account_keys.len() as u16);
    proof {
        assert(vecs_view(m.account_keys@) =~= m@.account_keys);
    }
    push_chunks(out, &m.account_keys);
    push_bytes(out, &m.recent_blockhash);
    push_encoded_len(out, m.instructions.len() as u16);
    proof {
        assert(ixs_view(m.instructions@) =~= m@.instructions);
        assert forall|i: int| 0 <= i < m.instructions@.len() implies (#[trigger] m.instructions@[i])@.wf() by {
            assert(m@.instructions[i] == m.instructions@[i]@);
            assert(m@.instructions[i].wf());
        }
    }
    push_ixs(out, &m.instructions);
    assert(out@ =~= old(out)@ + spec_ser_msg(m@));
}

/// Serialize a well-formed message to its wire bytes: what a signature
/// attests to.
pub fn serialize_message(m: &TxMessage) -> (r: Vec<u8>)
    requires
        m@.wf(),
    ensures
        r@ == spec_ser_msg(m@),
{
    let mut out: Vec<u8> = Vec::new();
    push_msg(&mut out, m);
    assert(out@ =~= spec_ser_msg(m@));
    out
}

/// Read a whole transaction from the front of `s`: the signatures with a
/// compact count, then the message.
pub open spec fn spec_read_tx(s: Seq<u8>) -> Option<(TransactionModel, nat)> {
    match spec_read_len(s) {
        Some(ps) => match spec_read_chunks(s.skip(ps.1 as int), ps.0, 64) {
            Some(cs) => match spec_read_msg(s.skip(ps.1 as int).skip(cs.1 as int)) {
                Some(pm) => Some(
                    (
                        TransactionModel { signatures: cs.0, message: pm.0 },
                        (ps.1 + cs.1 + pm.1) as nat,
                    ),
                ),
                None => None,
            },
            None => None,
        },
        None => None,
    }
}

/// The transaction carried by the envelope `s`, if it parses. Trailing
/// bytes after the encoded transaction are tolerated.
pub open spec fn spec_parse_tx(s: Seq<u8>) -> Option<TransactionModel> {
    match spec_read_tx(s) {
        Some(p) => Some(p.0),
        None => None,
    }
}

/// The wire bytes of a whole transaction.
pub open spec fn spec_ser_tx(t: TransactionModel) -> Seq<u8> {
    spec_encode_len(t.signatures.len()) + spec_ser_chunks(t.signatures) + spec_ser_msg(t.message)
}

/// Reading back a serialized transaction, followed by anything, returns
/// exactly that transaction.
pub proof fn lemma_read_ser_tx(t: TransactionModel, rest: Seq<u8>)
    requires
        t.wf(),
    ensures
        spec_read_tx(spec_ser_tx(t) + rest) == Some((t, spec_ser_tx(t).len())),
{
    let es = spec_encode_len(t.signatures.len());
    let sigs = spec_ser_chunks(t.signatures);
    let msg = spec_ser_msg(t.message);
    let s = spec_ser_tx(t) + rest;
    assert(s =~= es + (sigs + msg + rest));
    lemma_read_encoded_len(t.signatures.len(), sigs + msg + rest);
    assert(s.skip(es.len() as int) =~= sigs + (msg + rest));
    lemma_read_ser_chunks(t.signatures, 64, msg + rest);
    lemma_ser_chunks_len(t.signatures, 64);
    assert(s.skip(es.len() as int).skip((64 * t.signatures.len()) as int) =~= msg + rest);
    lemma_read_ser_msg(t.message, rest);
    let got = spec_read_tx(s)->0;
    assert(got.0 =~= t);
}

/// Round trip: a well-formed transaction serializes to bytes that parse back
/// to exactly the same transaction.
pub proof fn lemma_tx_round_trip(t: TransactionModel)
    requires
        t.wf(),
    ensures
        spec_parse_tx(spec_ser_tx(t)) == Some(t),
{
    lemma_read_ser_tx(t, Seq::empty());
    assert(spec_ser_tx(t) + Seq::<u8>::empty() =~= spec_ser_tx(t));
}

/// Parse a transaction from envelope bytes. Returns exactly the transaction
/// `spec_parse_tx` reads, and fails exactly when it fails.
pub fn parse_transaction(bytes: &Vec<u8>) -> (r: Option<LedgerTransaction>)
    ensures
        match r {
            Some(t) => spec_parse_tx(bytes@) == Some(t@) && t@.wf(),
            None => spec_parse_tx(bytes@) is None,
        },
{
    proof {
        assert(bytes@.skip(0) =~= bytes@);
    }
    let (ns, spos) = match read_len(bytes, 0) {
        Some(p) => p,
        None => {
            return None;
        },
    };
    let (sigs, mpos) = match read_chunks(bytes, spos, ns, 64) {
        Some(p) => p,
        None => {
            return None;
        },
    };
    proof {
        assert(bytes@.skip(spos as int).skip((mpos - spos) as int) =~= bytes@.skip(mpos as int));
    }
    let (message, _endpos) = match read_msg(bytes, mpos) {
        Some(p) => p,
        None => {
            return None;
        },
    };
    let t = LedgerTransaction { signatures: sigs, message };
    proof {
        let got = spec_read_tx(bytes@)->0;
        assert(t@.signatures =~= vecs_view(t.signatures@));
        assert(got.0 =~= t@);
    }
    Some(t)
}

/// Serialize a well-formed transaction to its wire bytes.
pub fn serialize_transaction(t: &LedgerTransaction) -> (r: Vec<u8>)
    requires
        t@.wf(),
    ensures
        r@ == spec_ser_tx(t@),
{
    let mut out: Vec<u8> = Vec::new();
    push_encoded_len(&mut out, t.signatures.len() as u16);
    proof {
        assert(vecs_view(t.signatures@) =~= t@.signatures);
    }
    push_chunks(&mut out, &t.signatures);
    push_msg(&mut out, &t.message);
    assert(out@ =~= spec_ser_tx(t@));
    out
}


/// The bytes the standard base64 decoder recovers from `s`, when it accepts
/// `s`, and nothing when it rejects `s`.
pub uninterp spec fn b64_decode_of(s: Seq<char>) -> Option<Seq<u8>>;

/// The standard base64 encoding of `b`.
pub uninterp spec fn b64_encode_of(b: Seq<u8>) -> Seq<char>;

/// Relies on the standard base64 engine's `decode` (padded standard
/// alphabet, canonical padding required): whether a string is accepted, and
/// to which bytes it decodes, are both functions of the input string alone.
#[verifier::external_body]
fn b64_decode(s: &str) -> (r: Option<Vec<u8>>)
    ensures
        (r is Some) == (b64_decode_of(s@) is Some),
        r matches Some(v) ==> Some(v@) == b64_decode_of(s@),
{
    match base64::Engine::decode(&base64::engine::general_purpose::STANDARD, s) {
        Ok(v) => Some(v),
        Err(_) => None,
    }
}

/// Relies on the standard base64 engine's `encode`: the encoding is a
/// function of the input bytes alone.
#[verifier::external_body]
fn b64_encode(b: &Vec<u8>) -> (r: String)
    ensures
        r@ == b64_encode_of(b@),
{
    base64::Engine::encode(&base64::engine::general_purpose::STANDARD, b.as_slice())
}

/// The transaction a base64 envelope carries: the envelope must be accepted
/// base64 and its bytes must parse.
pub open spec fn spec_payload_tx(s: Seq<char>) -> Option<TransactionModel> {
    match b64_decode_of(s) {
        Some(bytes) => spec_parse_tx(bytes),
        None => None,
    }
}

/// Decode a base64 transaction envelope and parse the transaction in it.
/// Succeeds exactly when the envelope is accepted base64 and the decoded
/// bytes hold a parseable transaction, and then returns exactly it.
pub fn decode_transaction_payload(s: &str) -> (r: Option<LedgerTransaction>)
    ensures
        (r is Some) == (spec_payload_tx(s@) is Some),
        r matches Some(t) ==> spec_payload_tx(s@) == Some(t@) && t@.wf(),
{
    match b64_decode(s) {
        Some(bytes) => parse_transaction(&bytes),
        None => None,
    }
}

/// Serialize a well-formed transaction and wrap it in a base64 envelope.
pub fn encode_transaction_payload(t: &LedgerTransaction) -> (r: String)
    requires
        t@.wf(),
    ensures
        r@ == b64_encode_of(spec_ser_tx(t@)),
{
    let bytes = serialize_transaction(t);
    b64_encode(&bytes)
}

} // verus!

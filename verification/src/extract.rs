//! Result extraction from confirmed-transaction metadata: the received
//! amount is read from the post-execution balance records, and the compute
//! units consumed are read from simulation log lines. A confirmed
//! transaction with no matching balance record yields the zero amount
//! rather than a failure.
use vstd::prelude::*;
use vstd::string::StringSliceAdditionalSpecFns;
use vstd::utf8::encode_utf8;

use crate::utils::{spec_all_digits, spec_digits_value, spec_is_digit, str_eq};

verus! {

/// One post-execution token balance record: the asset it concerns and its
/// amount, both as the network reports them.
pub struct BalanceRecord {
    pub mint: String,
    pub amount: String,
}

/// The amount of the first record matching `mint`, if any record does.
pub open spec fn spec_first_matching(records: Seq<BalanceRecord>, mint: Seq<char>) -> Option<
    Seq<char>,
>
    decreases records.len(),
{
    if records.len() == 0 {
        None
    } else if records[0].mint@ == mint {
        Some(records[0].amount@)
    } else {
        spec_first_matching(records.skip(1), mint)
    }
}

/// Scan the balance records for the output asset and return its amount; a
/// confirmed transaction with no matching record degrades gracefully to the
/// zero amount instead of overturning the confirmation.
#[verifier::loop_isolation(false)]
pub fn extract_received_amount(records: &Vec<BalanceRecord>, output_mint: &str) -> (r: String)
    ensures
        ({
            match spec_first_matching(records@, output_mint@) {
                Some(a) => r@ == a,
                None => r@ == "0"@,
            }
        }),
{
    let mut i: usize = 0;
    proof {
        assert(records@.skip(0) =~= records@);
    }
    while i < records.len()
        invariant
            i <= records@.len(),
            spec_first_matching(records@, output_mint@) == spec_first_matching(
                records@.skip(i as int),
                output_mint@,
            ),
        decreases records@.len() - i,
    {
        proof {
            assert(records@.skip(i as int)[0] == records@[i as int]);
        }
        if str_eq(records[i].mint.as_str(), output_mint) {
            return records[i].amount.clone();
        }
        proof {
            assert(records@.skip(i as int).skip(1) =~= records@.skip(i + 1));
        }
        i = i + 1;
    }
    proof {
        assert(records@.skip(i as int) =~= Seq::<BalanceRecord>::empty());
    }
    let mut z = String::new();
    z.push('0');
    proof {
        reveal_strlit("0");
        assert(z@ =~= "0"@);
    }
    z
}

/// The pattern occurs in `s` starting at `i`.
pub open spec fn spec_contains_at(s: Seq<u8>, pat: Seq<u8>, i: int) -> bool {
    0 <= i && i + pat.len() <= s.len() && s.subrange(i, i + pat.len()) == pat
}

/// The pattern occurs somewhere in `s`.
pub open spec fn spec_contains(s: Seq<u8>, pat: Seq<u8>) -> bool {
    exists|i: int| spec_contains_at(s, pat, i)
}

/// Whether `pat` occurs in `hay`.
#[verifier::loop_isolation(false)]
pub fn contains_bytes(hay: &[u8], pat: &Vec<u8>) -> (r: bool)
    ensures
        r == spec_contains(hay@, pat@),
{
    if pat.len() == 0 {
        proof {
            assert(hay@.subrange(0, 0) =~= pat@);
            assert(spec_contains_at(hay@, pat@, 0));
        }
        return true;
    }
    if pat.len() > hay.len() {
        proof {
            assert forall|i: int| !spec_contains_at(hay@, pat@, i) by {}
        }
        return false;
    }
    let last_start = hay.len() - pat.len();
    let mut i: usize = 0;
    while i <= last_start
        invariant
            i <= last_start + 1,
            forall|k: int| 0 <= k < i ==> !spec_contains_at(hay@, pat@, k),
        decreases last_start - i + 1,
    {
        let mut j: usize = 0;
        let mut hit = true;
        while j < pat.len()
            invariant
                j <= pat@.len(),
                i + pat@.len() <= hay@.len(),
                hit ==> hay@.subrange(i as int, i + j) =~= pat@.take(j as int),
                !hit ==> !spec_contains_at(hay@, pat@, i as int),
            decreases pat@.len() - j,
        {
            if hay[i + j] != pat[j] {
                proof {
                    if spec_contains_at(hay@, pat@, i as int) {
                        assert(hay@.subrange(i as int, i + pat@.len())[j as int] == pat@[j as int]);
                    }
                }
                hit = false;
                j = pat.len();
            } else {
                proof {
                    if hit {
                        assert(hay@.subrange(i as int, i + j + 1) =~= hay@.subrange(
                            i as int,
                            i + j,
                        ).push(hay@[i + j]));
                        assert(pat@.take(j + 1) =~= pat@.take(j as int).push(pat@[j as int]));
                    }
                }
                j = j + 1;
            }
        }
        if hit {
            proof {
                assert(pat@.take(pat@.len() as int) =~= pat@);
                assert(spec_contains_at(hay@, pat@, i as int));
            }
            return true;
        }
        i = i + 1;
    }
    proof {
        assert forall|k: int| !spec_contains_at(hay@, pat@, k) by {
            if 0 <= k && k + pat@.len() <= hay@.len() {
                assert(k < i);
            }
        }
    }
    false
}

/// A byte that separates tokens.
pub open spec fn spec_is_space(b: u8) -> bool {
    b == 0x20 || b == 0x09 || b == 0x0a || b == 0x0d
}

/// Length of the maximal token (run of non-space bytes) at the front of `s`.
pub open spec fn spec_token_len(s: Seq<u8>) -> nat
    decreases s.len(),
{
    if s.len() == 0 || spec_is_space(s[0]) {
        0
    } else {
        1 + spec_token_len(s.skip(1))
    }
}

/// A token is never longer than the text, and non-empty where the text
/// starts with a non-space byte.
pub proof fn lemma_token_len_bounds(s: Seq<u8>)
    ensures
        spec_token_len(s) <= s.len(),
        (s.len() > 0 && !spec_is_space(s[0])) ==> spec_token_len(s) >= 1,
    decreases s.len(),
{
    if s.len() > 0 && !spec_is_space(s[0]) {
        lemma_token_len_bounds(s.skip(1));
    }
}

/// The value of the first whitespace-separated token of `s` that is a
/// decimal number fitting thirty-two bits, if any token is.
pub open spec fn spec_first_numeric_token(s: Seq<u8>) -> Option<nat>
    decreases s.len(),
    via spec_first_numeric_token_dec
{
    if s.len() == 0 {
        None
    } else if spec_is_space(s[0]) {
        spec_first_numeric_token(s.skip(1))
    } else {
        let t = spec_token_len(s);
        let tok = s.take(t as int);
        if t >= 1 && spec_all_digits(tok) && spec_digits_value(tok) <= u32::MAX {
            Some(spec_digits_value(tok))
        } else {
            spec_first_numeric_token(s.skip(t as int))
        }
    }
}

#[via_fn]
proof fn spec_first_numeric_token_dec(s: Seq<u8>) {
    if s.len() > 0 && !spec_is_space(s[0]) {
        lemma_token_len_bounds(s);
    }
}

/// Length of the token starting at `pos`.
#[verifier::loop_isolation(false)]
fn token_len_at(b: &[u8], pos: usize) -> (r: usize)
    requires
        pos <= b@.len(),
    ensures
        r == spec_token_len(b@.skip(pos as int)),
        pos + r <= b@.len(),
{
    let mut i: usize = pos;
    while i < b.len() && b[i] != 0x20 && b[i] != 0x09 && b[i] != 0x0a && b[i] != 0x0d
        invariant
            pos <= i <= b@.len(),
            spec_token_len(b@.skip(pos as int)) == i - pos + spec_token_len(b@.skip(i as int)),
        decreases b@.len() - i,
    {
        proof {
            assert(b@.skip(i as int)[0] == b@[i as int]);
            assert(b@.skip(i as int).skip(1) =~= b@.skip(i + 1));
        }
        i = i + 1;
    }
    proof {
        if i < b@.len() {
            assert(b@.skip(i as int)[0] == b@[i as int]);
        }
        assert(spec_token_len(b@.skip(i as int)) == 0);
    }
    i - pos
}

/// The first numeric token at or after `pos`.
#[verifier::loop_isolation(false)]
fn first_numeric_token_at(b: &[u8], pos: usize) -> (r: Option<u32>)
    requires
        pos <= b@.len(),
    ensures
        match r {
            Some(v) => spec_first_numeric_token(b@.skip(pos as int)) == Some(v as nat),
            None => spec_first_numeric_token(b@.skip(pos as int)) is None,
        },
    decreases b@.len() - pos,
{
    if pos >= b.len() {
        return None;
    }
    let c = b[pos];
    proof {
        assert(b@.skip(pos as int)[0] == b@[pos as int]);
    }
    if c == 0x20 || c == 0x09 || c == 0x0a || c == 0x0d {
        proof {
            assert(b@.skip(pos as int).skip(1) =~= b@.skip(pos + 1));
        }
        return first_numeric_token_at(b, pos + 1);
    }
    let t = token_len_at(b, pos);
    let ghost tail = b@.skip(pos as int);
    proof {
        lemma_token_len_bounds(tail);
        assert(tail.take(t as int) =~= b@.subrange(pos as int, pos + t));
        assert(tail.skip(t as int) =~= b@.skip(pos + t));
    }
    let mut all_digits = true;
    let mut j: usize = pos;
    while j < pos + t
        invariant
            pos <= j <= pos + t,
            pos + t <= b@.len(),
            all_digits <==> spec_all_digits(b@.subrange(pos as int, j as int)),
        decreases pos + t - j,
    {
        let d = b[j];
        proof {
            assert(b@.subrange(pos as int, j + 1) =~= b@.subrange(pos as int, j as int).push(
                b@[j as int],
            ));
        }
        if d < 0x30 || d > 0x39 {
            all_digits = false;
            proof {
                assert(b@.subrange(pos as int, j + 1)[j - pos] == b@[j as int]);
            }
            j = j + 1;
            proof {
                assert(!spec_all_digits(b@.subrange(pos as int, j as int))) by {
                    assert(b@.subrange(pos as int, j as int)[j - 1 - pos] == b@[j - 1]);
                }
            }
        } else {
            j = j + 1;
        }
    }
    if all_digits && t >= 1 {
        match crate::utils::digits_value_u64(b, pos, pos + t) {
            Some(v) => {
                if v <= 0xFFFFFFFF {
                    proof {
                        assert(spec_first_numeric_token(tail) == Some(v as nat));
                    }
                    return Some(v as u32);
                }
            },
            None => {},
        }
        proof {
            assert(spec_digits_value(tail.take(t as int)) > u32::MAX);
        }
        return first_numeric_token_at(b, pos + t);
    }
    proof {
        if t >= 1 {
            assert(!spec_all_digits(tail.take(t as int)));
        }
    }
    first_numeric_token_at(b, pos + t)
}

/// The byte pattern naming consumption in a simulation log line.
pub open spec fn spec_pat_consumed() -> Seq<u8> {
    seq![0x63u8, 0x6fu8, 0x6eu8, 0x73u8, 0x75u8, 0x6du8, 0x65u8, 0x64u8]
}

/// The byte pattern naming compute units in a simulation log line.
pub open spec fn spec_pat_compute_units() -> Seq<u8> {
    seq![
        0x63u8, 0x6fu8, 0x6du8, 0x70u8, 0x75u8, 0x74u8, 0x65u8, 0x20u8, 0x75u8, 0x6eu8, 0x69u8,
        0x74u8, 0x73u8,
    ]
}

/// The compute units read from one log line: its first numeric token, when
/// the line mentions both consumption and compute units.
pub open spec fn spec_line_units(line: Seq<u8>) -> Option<nat> {
    if spec_contains(line, spec_pat_consumed()) && spec_contains(line, spec_pat_compute_units()) {
        spec_first_numeric_token(line)
    } else {
        None
    }
}

/// The byte encodings of a sequence of strings.
pub open spec fn strings_bytes(v: Seq<String>) -> Seq<Seq<u8>> {
    Seq::new(v.len(), |i: int| encode_utf8(v[i]@))
}

/// The compute units reported by a log: the value of the last line that
/// mentions consumption and compute units and carries a numeric token, and
/// zero when no line does.
pub open spec fn spec_extract_units(lines: Seq<Seq<u8>>) -> nat
    decreases lines.len(),
{
    if lines.len() == 0 {
        0
    } else {
        match spec_line_units(lines.last()) {
            Some(v) => v,
            None => spec_extract_units(lines.drop_last()),
        }
    }
}

/// Scan simulation log lines for the compute units consumed.
#[verifier::loop_isolation(false)]
pub fn extract_compute_units(logs: &Vec<String>) -> (r: u32)
    ensures
        r as nat == spec_extract_units(strings_bytes(logs@)),
{
    let ghost lines = strings_bytes(logs@);
    let pat1: Vec<u8> = vec![0x63u8, 0x6fu8, 0x6eu8, 0x73u8, 0x75u8, 0x6du8, 0x65u8, 0x64u8];
    let pat2: Vec<u8> = vec![
        0x63u8, 0x6fu8, 0x6du8, 0x70u8, 0x75u8, 0x74u8, 0x65u8, 0x20u8, 0x75u8, 0x6eu8, 0x69u8,
        0x74u8, 0x73u8,
    ];
    proof {
        assert(pat1@ =~= spec_pat_consumed());
        assert(pat2@ =~= spec_pat_compute_units());
    }
    let mut units: u32 = 0;
    let mut i: usize = 0;
    proof {
        assert(lines.take(0) =~= Seq::<Seq<u8>>::empty());
    }
    while i < logs.len()
        invariant
            i <= logs@.len(),
            lines == strings_bytes(logs@),
            pat1@ == spec_pat_consumed(),
            pat2@ == spec_pat_compute_units(),
            units as nat == spec_extract_units(lines.take(i as int)),
        decreases logs@.len() - i,
    {
        let lb = logs[i].as_str().as_bytes();
        proof {
            assert(lb@ == lines[i as int]);
            assert(lines.take(i + 1).drop_last() =~= lines.take(i as int));
            assert(lines.take(i + 1).last() == lines[i as int]);
        }
        if contains_bytes(lb, &pat1) && contains_bytes(lb, &pat2) {
            match first_numeric_token_at(lb, 0) {
                Some(v) => {
                    proof {
                        assert(lb@.skip(0) =~= lb@);
                    }
                    units = v;
                },
                None => {
                    proof {
                        assert(lb@.skip(0) =~= lb@);
                    }
                },
            }
        }
        i = i + 1;
    }
    proof {
        assert(lines.take(logs@.len() as int) =~= lines);
    }
    units
}

} // verus!

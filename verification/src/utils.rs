//! Amount parsing, duration formatting, and the small string machinery they
//! need. An amount string without a decimal point is an exact integer count
//! of base units; one with a decimal point is a whole-asset amount scaled by
//! a fixed factor to base units.
use vstd::prelude::*;
use vstd::string::StringSliceAdditionalSpecFns;
use vstd::utf8::{encode_utf8, encode_utf8_decode_utf8};

verus! {

/// Base units per whole asset unit.
pub const BASE_UNITS_PER_WHOLE: u64 = 1_000_000_000;

/// Relies on std's `String::push`: appends exactly the given character.
pub assume_specification[ String::push ](s: &mut String, c: char)
    ensures
        final(s)@ == old(s)@.push(c),
;

/// Relies on std's `String::push_str`: appends exactly the given string.
pub assume_specification[ String::push_str ](s: &mut String, other: &str)
    ensures
        final(s)@ == old(s)@ + other@,
;

/// Equal byte encodings come from equal character sequences.
pub proof fn lemma_encode_utf8_injective(a: Seq<char>, b: Seq<char>)
    requires
        encode_utf8(a) == encode_utf8(b),
    ensures
        a == b,
{
    encode_utf8_decode_utf8(a);
    encode_utf8_decode_utf8(b);
}

/// Character-for-character equality of two string slices.
pub fn str_eq(a: &str, b: &str) -> (r: bool)
    ensures
        r == (a@ == b@),
{
    let ab = a.as_bytes();
    let bb = b.as_bytes();
    if ab.len() != bb.len() {
        proof {
            assert(a@ != b@);
        }
        return false;
    }
    let mut i: usize = 0;
    while i < ab.len()
        invariant
            i <= ab@.len(),
            ab@.len() == bb@.len(),
            ab@ == a.spec_bytes(),
            bb@ == b.spec_bytes(),
            forall|j: int| 0 <= j < i ==> ab@[j] == bb@[j],
        decreases ab@.len() - i,
    {
        if ab[i] != bb[i] {
            proof {
                assert(a.spec_bytes() != b.spec_bytes());
            }
            return false;
        }
        i = i + 1;
    }
    proof {
        assert(a.spec_bytes() =~= b.spec_bytes());
        lemma_encode_utf8_injective(a@, b@);
    }
    true
}

/// The character for one decimal digit.
pub open spec fn digit_char(d: nat) -> char
    recommends
        d < 10,
{
    if d == 0 {
        '0'
    } else if d == 1 {
        '1'
    } else if d == 2 {
        '2'
    } else if d == 3 {
        '3'
    } else if d == 4 {
        '4'
    } else if d == 5 {
        '5'
    } else if d == 6 {
        '6'
    } else if d == 7 {
        '7'
    } else if d == 8 {
        '8'
    } else {
        '9'
    }
}

/// The decimal digit characters of `n`, most significant first, with no
/// leading zero except for zero itself.
pub open spec fn spec_digits(n: nat) -> Seq<char>
    decreases n,
{
    if n < 10 {
        seq![digit_char(n)]
    } else {
        spec_digits(n / 10).push(digit_char(n % 10))
    }
}

/// The character for one decimal digit value.
pub fn digit_to_char(d: u64) -> (r: char)
    requires
        d < 10,
    ensures
        r == digit_char(d as nat),
{
    if d == 0 {
        '0'
    } else if d == 1 {
        '1'
    } else if d == 2 {
        '2'
    } else if d == 3 {
        '3'
    } else if d == 4 {
        '4'
    } else if d == 5 {
        '5'
    } else if d == 6 {
        '6'
    } else if d == 7 {
        '7'
    } else if d == 8 {
        '8'
    } else {
        '9'
    }
}

/// Render a 64-bit value in decimal.
#[verifier::loop_isolation(false)]
pub fn u64_to_string(n: u64) -> (r: String)
    ensures
        r@ == spec_digits(n as nat),
{
    let mut rev: Vec<char> = Vec::new();
    let mut m: u64 = n;
    while m >= 10
        invariant
            spec_digits(n as nat) == spec_digits(m as nat) + rev@.reverse(),
        decreases m,
    {
        let ghost rev0 = rev@;
        rev.push(digit_to_char(m % 10));
        proof {
            assert(rev@.reverse() =~= seq![digit_char((m % 10) as nat)] + rev0.reverse());
            assert(spec_digits((m / 10) as nat).push(digit_char((m % 10) as nat)) + rev0.reverse()
                =~= spec_digits((m / 10) as nat) + rev@.reverse());
        }
        m = m / 10;
    }
    let ghost rev1 = rev@;
    rev.push(digit_to_char(m));
    proof {
        assert(rev@.reverse() =~= seq![digit_char(m as nat)] + rev1.reverse());
        assert(spec_digits(m as nat) + rev1.reverse() =~= rev@.reverse());
        assert(spec_digits(n as nat) == rev@.reverse());
    }
    let mut out = String::new();
    let total = rev.len();
    let mut j: usize = 0;
    while j < total
        invariant
            j <= total,
            total == rev@.len(),
            out@ =~= rev@.reverse().take(j as int),
        decreases total - j,
    {
        let c = rev[total - 1 - j];
        proof {
            assert(rev@.reverse()[j as int] == rev@[total - 1 - j]);
        }
        out.push(c);
        proof {
            assert(out@ =~= rev@.reverse().take(j + 1));
        }
        j = j + 1;
    }
    proof {
        assert(rev@.reverse().take(total as int) =~= rev@.reverse());
    }
    out
}

/// The rendering of a duration in milliseconds: plain milliseconds under one
/// second, tenths of seconds under one minute, else tenths of minutes, each
/// rounded half up.
pub open spec fn spec_format_duration(ms: u64) -> Seq<char> {
    if ms < 1000 {
        spec_digits(ms as nat) + seq!['m', 's']
    } else if ms < 60000 {
        let t = (ms + 50) / 100;
        spec_digits((t / 10) as nat) + seq!['.', digit_char((t % 10) as nat), 's']
    } else {
        let t = (ms + 3000) / 6000;
        spec_digits((t / 10) as nat) + seq!['.', digit_char((t % 10) as nat), 'm']
    }
}

/// Render a duration in milliseconds in a short human-readable form.
pub fn format_duration(duration_ms: u64) -> (r: String)
    requires
        duration_ms + 3000 <= u64::MAX,
    ensures
        r@ == spec_format_duration(duration_ms),
{
    if duration_ms < 1000 {
        let mut out = u64_to_string(duration_ms);
        out.push('m');
        out.push('s');
        proof {
            assert(out@ =~= spec_format_duration(duration_ms));
        }
        out
    } else if duration_ms < 60000 {
        let t = (duration_ms + 50) / 100;
        let mut out = u64_to_string(t / 10);
        out.push('.');
        out.push(digit_to_char(t % 10));
        out.push('s');
        proof {
            assert(out@ =~= spec_format_duration(duration_ms));
        }
        out
    } else {
        let t = (duration_ms + 3000) / 6000;
        let mut out = u64_to_string(t / 10);
        out.push('.');
        out.push(digit_to_char(t % 10));
        out.push('m');
        proof {
            assert(out@ =~= spec_format_duration(duration_ms));
        }
        out
    }
}

/// Whether a byte is a decimal digit character.
pub open spec fn spec_is_digit(b: u8) -> bool {
    0x30 <= b <= 0x39
}

/// The value of a string of decimal digit bytes, most significant first.
pub open spec fn spec_digits_value(s: Seq<u8>) -> nat
    decreases s.len(),
{
    if s.len() == 0 {
        0
    } else {
        (spec_digits_value(s.take(s.len() - 1)) * 10 + (s.last() - 0x30)) as nat
    }
}

/// A non-empty run of digit bytes.
pub open spec fn spec_all_digits(s: Seq<u8>) -> bool {
    forall|i: int| 0 <= i < s.len() ==> spec_is_digit(#[trigger] s[i])
}

/// A plain base-unit amount: one or more digits and nothing else.
pub open spec fn spec_is_integer_amount(s: Seq<u8>) -> bool {
    s.len() >= 1 && spec_all_digits(s)
}

/// A whole-asset amount: exactly one decimal point, at least one digit, and
/// digits everywhere else.
pub open spec fn spec_is_decimal_amount(s: Seq<u8>) -> bool {
    exists|k: int|
        {
            &&& 0 <= k < s.len()
            &&& s[k] == 0x2eu8
            &&& s.len() >= 2
            &&& spec_all_digits(s.take(k))
            &&& spec_all_digits(s.skip(k + 1))
        }
}

/// The nine-digit base-unit value of a fractional digit run: the first nine
/// fractional digits, zero padded.
pub open spec fn spec_frac_value(frac: Seq<u8>) -> nat {
    spec_digits_value((frac + seq![0x30u8, 0x30u8, 0x30u8, 0x30u8, 0x30u8, 0x30u8, 0x30u8, 0x30u8, 0x30u8]).take(9))
}

/// The base-unit value of an amount string: an integer amount stands for
/// itself; a decimal amount is scaled by the base-unit factor, fractional
/// digits past the ninth truncated.
pub open spec fn spec_amount_value(s: Seq<u8>) -> Option<nat> {
    if spec_is_integer_amount(s) {
        Some(spec_digits_value(s))
    } else if spec_is_decimal_amount(s) {
        let k = choose|k: int|
            {
                &&& 0 <= k < s.len()
                &&& s[k] == 0x2eu8
                &&& spec_all_digits(s.take(k))
                &&& spec_all_digits(s.skip(k + 1))
            };
        Some(spec_digits_value(s.take(k)) * 1_000_000_000 + spec_frac_value(s.skip(k + 1)))
    } else {
        None
    }
}


/// Ten to the `n`-th power.
pub open spec fn pow10(n: nat) -> nat
    decreases n,
{
    if n == 0 {
        1
    } else {
        10 * pow10((n - 1) as nat)
    }
}

/// A run of `n` digit bytes has a value under ten to the `n`-th.
pub proof fn lemma_digits_value_bound(s: Seq<u8>)
    requires
        spec_all_digits(s),
    ensures
        spec_digits_value(s) < pow10(s.len()),
    decreases s.len(),
{
    if s.len() > 0 {
        assert(spec_all_digits(s.take(s.len() - 1)));
        lemma_digits_value_bound(s.take(s.len() - 1));
    }
}

/// A digit run is worth at least any of its prefixes.
pub proof fn lemma_digits_value_prefix(s: Seq<u8>, i: int)
    requires
        0 <= i <= s.len(),
        spec_all_digits(s),
    ensures
        spec_digits_value(s.take(i)) <= spec_digits_value(s),
    decreases s.len() - i,
{
    if i < s.len() {
        lemma_digits_value_prefix(s, i + 1);
        assert(s.take(i + 1).take(i) =~= s.take(i));
        assert(s.take(i + 1).last() == s[i]);
        assert(spec_is_digit(s[i]));
        assert(spec_digits_value(s.take(i)) <= spec_digits_value(s.take(i + 1)));
    } else {
        assert(s.take(i) =~= s);
    }
}

/// Parse the digit bytes of `b` in `[from, to)` as a value; fails exactly
/// when the value does not fit sixty-four bits.
#[verifier::loop_isolation(false)]
pub fn digits_value_u64(b: &[u8], from: usize, to: usize) -> (r: Option<u64>)
    requires
        from <= to <= b@.len(),
        spec_all_digits(b@.subrange(from as int, to as int)),
    ensures
        ({
            let v = spec_digits_value(b@.subrange(from as int, to as int));
            match r {
                Some(x) => x as nat == v,
                None => v > u64::MAX,
            }
        }),
{
    let ghost digits = b@.subrange(from as int, to as int);
    let mut val: u64 = 0;
    let mut i: usize = from;
    while i < to
        invariant
            from <= i <= to,
            val as nat == spec_digits_value(digits.take(i - from)),
        decreases to - i,
    {
        proof {
            assert(digits[i - from] == b@[i as int]);
            assert(spec_is_digit(b@[i as int]));
            assert(digits.take(i - from + 1).take(i - from) =~= digits.take(i - from));
            assert(digits.take(i - from + 1).last() == digits[i - from]);
        }
        let d = b[i] - 0x30;
        if val > (u64::MAX - d as u64) / 10 {
            proof {
                vstd::arithmetic::div_mod::lemma_fundamental_div_mod(
                    (u64::MAX - d) as int,
                    10,
                );
                assert(spec_digits_value(digits.take(i - from + 1)) > u64::MAX);
                assert(spec_all_digits(digits));
                lemma_digits_value_prefix(digits, i - from + 1);
            }
            return None;
        }
        proof {
            vstd::arithmetic::div_mod::lemma_fundamental_div_mod((u64::MAX - d) as int, 10);
        }
        val = val * 10 + d as u64;
        i = i + 1;
    }
    proof {
        assert(digits.take(to - from) =~= digits);
    }
    Some(val)
}

/// Parse an amount string to base units. A digits-only string is an exact
/// base-unit count; a string with one decimal point is a whole-asset amount
/// scaled by the base-unit factor, fractional digits past the ninth
/// truncated. Fails exactly on any other shape and on values that do not
/// fit sixty-four bits.
#[verifier::loop_isolation(false)]
#[verifier::rlimit(100)]
pub fn parse_amount(amount_str: &str) -> (r: Option<u64>)
    ensures
        ({
            let a = spec_amount_value(amount_str.spec_bytes());
            match r {
                Some(v) => a == Some(v as nat),
                None => a is None || a->0 > u64::MAX,
            }
        }),
{
    let b = amount_str.as_bytes();
    let ghost s = amount_str.spec_bytes();
    let mut dot1: Option<usize> = None;
    let mut dot2: Option<usize> = None;
    let mut bad: Option<usize> = None;
    let mut i: usize = 0;
    while i < b.len()
        invariant
            i <= b@.len(),
            b@ == s,
            match dot1 {
                Some(p) => p < i && s[p as int] == 0x2eu8 && forall|j: int|
                    0 <= j < p ==> s[j] != 0x2eu8,
                None => forall|j: int| 0 <= j < i ==> s[j] != 0x2eu8,
            },
            match dot2 {
                Some(q) => {
                    &&& q < i
                    &&& s[q as int] == 0x2eu8
                    &&& dot1 matches Some(p) && p < q
                },
                None => match dot1 {
                    Some(p) => forall|j: int| 0 <= j < i && j != p ==> s[j] != 0x2eu8,
                    None => true,
                },
            },
            match bad {
                Some(u) => u < i && !spec_is_digit(s[u as int]) && s[u as int] != 0x2eu8,
                None => forall|j: int|
                    0 <= j < i ==> (spec_is_digit(#[trigger] s[j]) || s[j] == 0x2eu8),
            },
        decreases b@.len() - i,
    {
        let c = b[i];
        if c == 0x2e {
            if dot1.is_none() {
                dot1 = Some(i);
            } else if dot2.is_none() {
                dot2 = Some(i);
            }
        } else if c < 0x30 || c > 0x39 {
            if bad.is_none() {
                bad = Some(i);
            }
        }
        i = i + 1;
    }
    if let Some(u) = bad {
        proof {
            assert(!spec_is_integer_amount(s));
            assert forall|k: int|
                !({
                    &&& 0 <= k < s.len()
                    &&& s[k] == 0x2eu8
                    &&& s.len() >= 2
                    &&& spec_all_digits(s.take(k))
                    &&& spec_all_digits(s.skip(k + 1))
                }) by {
                if 0 <= k < s.len() && s[k] == 0x2eu8 {
                    if u < k {
                        assert(s.take(k)[u as int] == s[u as int]);
                        assert(!spec_all_digits(s.take(k)));
                    } else {
                        assert(u != k);
                        assert(s.skip(k + 1)[u - k - 1] == s[u as int]);
                        assert(!spec_all_digits(s.skip(k + 1)));
                    }
                }
            }
            assert(!spec_is_decimal_amount(s));
        }
        return None;
    }
    if let Some(q) = dot2 {
        let p = dot1.unwrap();
        proof {
            assert(!spec_is_digit(s[p as int]));
            assert(!spec_is_integer_amount(s));
            assert forall|k: int|
                !({
                    &&& 0 <= k < s.len()
                    &&& s[k] == 0x2eu8
                    &&& s.len() >= 2
                    &&& spec_all_digits(s.take(k))
                    &&& spec_all_digits(s.skip(k + 1))
                }) by {
                if 0 <= k < s.len() && s[k] == 0x2eu8 {
                    let w: int = if k == p as int {
                        q as int
                    } else {
                        p as int
                    };
                    assert(s[w] == 0x2eu8 && w != k);
                    if w < k {
                        assert(s.take(k)[w] == s[w]);
                        assert(!spec_all_digits(s.take(k)));
                    } else {
                        assert(s.skip(k + 1)[w - k - 1] == s[w]);
                        assert(!spec_all_digits(s.skip(k + 1)));
                    }
                }
            }
            assert(!spec_is_decimal_amount(s));
        }
        return None;
    }
    match dot1 {
        None => {
            if b.len() == 0 {
                proof {
                    assert(!spec_is_integer_amount(s));
                    assert(!spec_is_decimal_amount(s));
                }
                return None;
            }
            proof {
                assert(spec_all_digits(s));
                assert(s.subrange(0, s.len() as int) =~= s);
            }
            digits_value_u64(b, 0, b.len())
        },
        Some(p) => {
            if b.len() < 2 {
                proof {
                    assert(!spec_is_integer_amount(s));
                    assert(!spec_is_decimal_amount(s));
                }
                return None;
            }
            proof {
                assert forall|j: int| 0 <= j < s.len() && j != p implies spec_is_digit(
                    #[trigger] s[j],
                ) by {}
                assert(spec_all_digits(s.take(p as int))) by {
                    assert(forall|j: int|
                        0 <= j < p ==> s.take(p as int)[j] == #[trigger] s[j]);
                }
                assert(spec_all_digits(s.skip(p + 1))) by {
                    assert(forall|j: int|
                        0 <= j < s.len() - p - 1 ==> s.skip(p + 1)[j] == #[trigger] s[j + p
                            + 1]);
                }
                assert(spec_is_decimal_amount(s));
                assert(!spec_is_integer_amount(s));
            }
            let iv = match digits_value_u64(b, 0, p) {
                Some(v) => v,
                None => {
                    proof {
                        lemma_amount_choose_is(s, p as int);
                        assert(spec_digits_value(s.take(p as int)) > u64::MAX);
                        assert(spec_digits_value(s.take(p as int)) * 1_000_000_000
                            >= spec_digits_value(s.take(p as int)) * 1) by (nonlinear_arith);
                    }
                    return None;
                },
            };
            proof {
                assert(s.subrange(0, p as int) =~= s.take(p as int));
            }
            let mut fb: Vec<u8> = Vec::new();
            let mut j: usize = 0;
            let ghost frac = s.skip(p + 1);
            let ghost padded = (frac + seq![
                0x30u8,
                0x30u8,
                0x30u8,
                0x30u8,
                0x30u8,
                0x30u8,
                0x30u8,
                0x30u8,
                0x30u8,
            ]).take(9);
            while j < 9
                invariant
                    j <= 9,
                    p < b@.len(),
                    b@ == s,
                    frac == s.skip(p + 1),
                    padded == (frac + seq![
                        0x30u8,
                        0x30u8,
                        0x30u8,
                        0x30u8,
                        0x30u8,
                        0x30u8,
                        0x30u8,
                        0x30u8,
                        0x30u8,
                    ]).take(9),
                    fb@ =~= padded.take(j as int),
                decreases 9 - j,
            {
                let d: u8 = if j < b.len() - p - 1 {
                    b[p + 1 + j]
                } else {
                    0x30
                };
                proof {
                    if j < b@.len() - p - 1 {
                        assert(padded[j as int] == frac[j as int]);
                        assert(frac[j as int] == s[p + 1 + j]);
                    } else {
                        assert(padded[j as int] == 0x30u8);
                    }
                }
                fb.push(d);
                proof {
                    assert(fb@ =~= padded.take(j + 1));
                }
                j = j + 1;
            }
            proof {
                assert(fb@ =~= padded);
                assert(spec_all_digits(padded)) by {
                    assert(forall|t: int|
                        0 <= t < 9 ==> spec_is_digit(#[trigger] padded[t]));
                }
                assert(fb@.subrange(0, 9) =~= padded);
            }
            let fr = match digits_value_u64(fb.as_slice(), 0, 9) {
                Some(v) => v,
                None => {
                    proof {
                        lemma_digits_value_bound(padded);
                        lemma_pow10_9();
                        assert(false);
                    }
                    return None;
                },
            };
            proof {
                lemma_digits_value_bound(padded);
                lemma_pow10_9();
                assert(fr < 1_000_000_000);
            }
            if iv > u64::MAX / 1_000_000_000 {
                proof {
                    lemma_amount_choose_is(s, p as int);
                    vstd::arithmetic::div_mod::lemma_fundamental_div_mod(u64::MAX as int, 1_000_000_000);
                    assert((iv as nat) * 1_000_000_000 > u64::MAX) by (nonlinear_arith)
                        requires iv > u64::MAX / 1_000_000_000,
                            u64::MAX as int == 1_000_000_000 * ((u64::MAX as int) / 1_000_000_000) + (u64::MAX as int) % 1_000_000_000,
                            0 <= (u64::MAX as int) % 1_000_000_000 < 1_000_000_000;
                }
                return None;
            }
            proof {
                vstd::arithmetic::div_mod::lemma_fundamental_div_mod(u64::MAX as int, 1_000_000_000);
                assert((iv as nat) * 1_000_000_000 <= u64::MAX) by (nonlinear_arith)
                    requires iv <= u64::MAX / 1_000_000_000,
                        u64::MAX as int == 1_000_000_000 * ((u64::MAX as int) / 1_000_000_000) + (u64::MAX as int) % 1_000_000_000,
                        0 <= (u64::MAX as int) % 1_000_000_000 < 1_000_000_000;
            }
            let scaled: u64 = iv * 1_000_000_000;
            if scaled > u64::MAX - fr {
                proof {
                    lemma_amount_choose_is(s, p as int);
                }
                return None;
            }
            proof {
                lemma_amount_choose_is(s, p as int);
            }
            Some(scaled + fr)
        },
    }
}

/// Ten to the ninth is the base-unit factor.
pub proof fn lemma_pow10_9()
    ensures
        pow10(9) == 1_000_000_000,
{
    assert(pow10(0) == 1);
    assert(pow10(1) == 10);
    assert(pow10(2) == 100);
    assert(pow10(3) == 1000);
    assert(pow10(4) == 10000);
    assert(pow10(5) == 100000);
    assert(pow10(6) == 1000000);
    assert(pow10(7) == 10000000);
    assert(pow10(8) == 100000000);
    assert(pow10(9) == 1000000000);
}

/// On a string whose only decimal point stands at `p`, the amount value is
/// taken at `p`.
pub proof fn lemma_amount_choose_is(s: Seq<u8>, p: int)
    requires
        0 <= p < s.len(),
        s.len() >= 2,
        s[p] == 0x2eu8,
        forall|j: int| 0 <= j < s.len() && j != p ==> spec_is_digit(#[trigger] s[j]),
    ensures
        spec_is_decimal_amount(s),
        !spec_is_integer_amount(s),
        spec_amount_value(s) == Some(
            (spec_digits_value(s.take(p)) * 1_000_000_000 + spec_frac_value(s.skip(p + 1))) as nat,
        ),
{
    assert(spec_all_digits(s.take(p))) by {
        assert(forall|j: int| 0 <= j < p ==> s.take(p)[j] == #[trigger] s[j]);
    }
    assert(spec_all_digits(s.skip(p + 1))) by {
        assert(forall|j: int|
            0 <= j < s.len() - p - 1 ==> s.skip(p + 1)[j] == #[trigger] s[j + p + 1]);
    }
    assert(spec_is_decimal_amount(s));
    assert(!spec_is_digit(s[p]));
    assert(!spec_is_integer_amount(s));
    let k = choose|k: int|
        {
            &&& 0 <= k < s.len()
            &&& s[k] == 0x2eu8
            &&& spec_all_digits(s.take(k))
            &&& spec_all_digits(s.skip(k + 1))
        };
    if k != p {
        if k < p {
            assert(s.skip(k + 1)[p - k - 1] == s[p]);
            assert(!spec_all_digits(s.skip(k + 1)));
        } else {
            assert(s.take(k)[p] == s[p]);
            assert(!spec_all_digits(s.take(k)));
        }
    }
    assert(k == p);
}

/// Relies on std's system clock (`SystemTime::now`, `duration_since` the
/// epoch, `as_millis`): the value depends on the wall clock, so nothing is
/// promised of it.
#[verifier::external_body]
pub fn current_timestamp_ms() -> u64 {
    std::time::SystemTime::now()
        .duration_since(std::time::UNIX_EPOCH)
        .map(|d| d.as_millis() as u64)
        .unwrap_or(0)
}

} // verus!

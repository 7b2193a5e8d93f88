//! Decimal parsing and fixed-point arithmetic.
//!
//! Tool output carries decimal numbers, some with a fractional part. The
//! library keeps every such quantity as an integer in a fixed sub-unit
//! (hundredths for percentages, thousandths for degrees and watts,
//! millionths of a megabyte for sizes), so the parsers below turn digit
//! strings into exact scaled integers.

use vstd::prelude::*;
use crate::bytes::{spec_find_byte, spec_trim, find_byte, sub_vec, trim};

verus! {

pub open spec fn is_digit(b: u8) -> bool {
    48 <= b && b <= 57
}

pub open spec fn all_digits(s: Seq<u8>) -> bool {
    forall|i: int| 0 <= i < s.len() ==> is_digit(#[trigger] s[i])
}

/// Numeric value of a digit string, most significant digit first.
pub open spec fn digits_val(s: Seq<u8>) -> nat
    decreases s.len(),
{
    if s.len() == 0 {
        0
    } else {
        digits_val(s.drop_last()) * 10 + (s.last() - 48) as nat
    }
}

/// A value clamped to what fits in a `u64`.
pub open spec fn sat64(v: nat) -> u64 {
    if v <= u64::MAX {
        v as u64
    } else {
        u64::MAX
    }
}

/// A value clamped to what fits in a `u32`.
pub open spec fn sat32(v: nat) -> u32 {
    if v <= u32::MAX {
        v as u32
    } else {
        u32::MAX
    }
}

pub open spec fn pow10(k: nat) -> nat
    decreases k,
{
    if k == 0 {
        1
    } else {
        10 * pow10((k - 1) as nat)
    }
}

/// The value of a digit string is bounded by the power of ten of its length.
pub proof fn lemma_digits_val_bound(s: Seq<u8>)
    requires
        all_digits(s),
    ensures
        digits_val(s) < pow10(s.len() as nat),
    decreases s.len(),
{
    if s.len() > 0 {
        assert(all_digits(s.drop_last())) by {
            assert(forall|i: int| 0 <= i < s.len() - 1 ==> s.drop_last()[i] == s[i]);
        }
        lemma_digits_val_bound(s.drop_last());
        assert(digits_val(s.drop_last()) + 1 <= pow10((s.len() - 1) as nat));
        assert(digits_val(s) < (digits_val(s.drop_last()) + 1) * 10) by {
            assert(s.last() - 48 < 10);
        }
        assert((digits_val(s.drop_last()) + 1) * 10 <= pow10((s.len() - 1) as nat) * 10) by (nonlinear_arith)
            requires
                digits_val(s.drop_last()) + 1 <= pow10((s.len() - 1) as nat),
        ;
    }
}

/// Extending a digit string can only increase its value.
pub proof fn lemma_digits_val_mono(s: Seq<u8>, k: int)
    requires
        0 <= k <= s.len(),
    ensures
        digits_val(s) >= digits_val(s.take(k)),
    decreases s.len(),
{
    if k == s.len() {
        assert(s.take(k) =~= s);
    } else if s.len() > 0 {
        lemma_digits_val_mono(s.drop_last(), k);
        assert(s.drop_last().take(k) =~= s.take(k));
    }
}

/// Whether `s` is a non-empty run of decimal digits.
pub fn is_digits(s: &[u8]) -> (r: bool)
    ensures
        r == (s@.len() > 0 && all_digits(s@)),
{
    if s.len() == 0 {
        return false;
    }
    all_digits_check(s)
}

/// Whether every byte of `s` (possibly none) is a decimal digit.
pub fn all_digits_check(s: &[u8]) -> (r: bool)
    ensures
        r == all_digits(s@),
{
    let mut k: usize = 0;
    while k < s.len()
        invariant
            k <= s@.len(),
            forall|i: int| 0 <= i < k ==> is_digit(#[trigger] s@[i]),
        decreases s@.len() - k,
    {
        let b = s[k];
        if !(48 <= b && b <= 57) {
            return false;
        }
        k = k + 1;
    }
    true
}

/// Value of an all-digit string, clamped to `u64`.
pub fn dec_sat(s: &[u8]) -> (r: u64)
    requires
        all_digits(s@),
    ensures
        r == sat64(digits_val(s@)),
{
    let mut acc: u64 = 0;
    let mut k: usize = 0;
    while k < s.len()
        invariant
            k <= s@.len(),
            all_digits(s@),
            acc == sat64(digits_val(s@.take(k as int))),
        decreases s@.len() - k,
    {
        let d = s[k] - 48;
        let wide: u128 = acc as u128 * 10 + d as u128;
        proof {
            let pre = s@.take(k as int);
            let post = s@.take(k + 1);
            assert(post.drop_last() =~= pre);
            assert(digits_val(post) == digits_val(pre) * 10 + d);
            if digits_val(pre) > u64::MAX {
                assert(digits_val(pre) * 10 >= digits_val(pre) * 1) by (nonlinear_arith);
            }
        }
        if wide > u64::MAX as u128 {
            acc = u64::MAX;
        } else {
            acc = wide as u64;
        }
        k = k + 1;
    }
    proof {
        assert(s@.take(s@.len() as int) =~= s@);
    }
    acc
}

/// An unsigned decimal number, `None` on an empty string, a non-digit,
/// or a value that does not fit; matches `str::parse::<u64>`.
pub open spec fn spec_parse_u64(s: Seq<u8>) -> Option<u64> {
    if s.len() > 0 && all_digits(s) && digits_val(s) <= u64::MAX {
        Some(digits_val(s) as u64)
    } else {
        None
    }
}

pub fn parse_u64(s: &[u8]) -> (r: Option<u64>)
    ensures
        r == spec_parse_u64(s@),
{
    if !is_digits(s) {
        return None;
    }
    let mut acc: u64 = 0;
    let mut k: usize = 0;
    while k < s.len()
        invariant
            k <= s@.len(),
            s@.len() > 0,
            all_digits(s@),
            acc == digits_val(s@.take(k as int)),
            digits_val(s@.take(k as int)) <= u64::MAX,
        decreases s@.len() - k,
    {
        let d = s[k] - 48;
        let wide: u128 = acc as u128 * 10 + d as u128;
        proof {
            let pre = s@.take(k as int);
            let post = s@.take(k + 1);
            assert(post.drop_last() =~= pre);
            assert(digits_val(post) == digits_val(pre) * 10 + d);
        }
        if wide > u64::MAX as u128 {
            proof {
                lemma_digits_val_mono(s@, k + 1);
            }
            return None;
        }
        acc = wide as u64;
        k = k + 1;
    }
    proof {
        assert(s@.take(s@.len() as int) =~= s@);
    }
    Some(acc)
}

pub open spec fn spec_parse_u32(s: Seq<u8>) -> Option<u32> {
    if s.len() > 0 && all_digits(s) && digits_val(s) <= u32::MAX {
        Some(digits_val(s) as u32)
    } else {
        None
    }
}

pub fn parse_u32(s: &[u8]) -> (r: Option<u32>)
    ensures
        r == spec_parse_u32(s@),
{
    match parse_u64(s) {
        Some(v) => if v <= u32::MAX as u64 {
            Some(v as u32)
        } else {
            None
        },
        None => None,
    }
}

pub open spec fn spec_parse_u16(s: Seq<u8>) -> Option<u16> {
    if s.len() > 0 && all_digits(s) && digits_val(s) <= u16::MAX {
        Some(digits_val(s) as u16)
    } else {
        None
    }
}

pub fn parse_u16(s: &[u8]) -> (r: Option<u16>)
    ensures
        r == spec_parse_u16(s@),
{
    match parse_u64(s) {
        Some(v) => if v <= u16::MAX as u64 {
            Some(v as u16)
        } else {
            None
        },
        None => None,
    }
}

pub open spec fn spec_parse_u8(s: Seq<u8>) -> Option<u8> {
    if s.len() > 0 && all_digits(s) && digits_val(s) <= u8::MAX {
        Some(digits_val(s) as u8)
    } else {
        None
    }
}

pub fn parse_u8(s: &[u8]) -> (r: Option<u8>)
    ensures
        r == spec_parse_u8(s@),
{
    match parse_u64(s) {
        Some(v) => if v <= u8::MAX as u64 {
            Some(v as u8)
        } else {
            None
        },
        None => None,
    }
}

pub open spec fn spec_parse_with_default(s: Seq<u8>, default: u64) -> u64 {
    match spec_parse_u64(spec_trim(s)) {
        Some(v) => v,
        None => default,
    }
}

/// The number written in `s` (ignoring surrounding whitespace), or
/// `default` when `s` holds no parseable number.
pub fn parse_with_default(s: &[u8], default: u64) -> (r: u64)
    ensures
        r == spec_parse_with_default(s@, default),
{
    let t = trim(s);
    match parse_u64(t.as_slice()) {
        Some(v) => v,
        None => default,
    }
}

/// `part` of `whole` as a percentage in hundredths of a percent,
/// clamped to `u32`; zero when `whole` is zero.
pub open spec fn spec_pct_centi(part: nat, whole: nat) -> u32 {
    if whole == 0 {
        0
    } else {
        sat32(part * 10000 / whole)
    }
}

pub fn pct_centi(part: u64, whole: u64) -> (r: u32)
    ensures
        r == spec_pct_centi(part as nat, whole as nat),
{
    if whole == 0 {
        return 0;
    }
    let wide: u128 = part as u128 * 10000 / whole as u128;
    if wide > u32::MAX as u128 {
        u32::MAX
    } else {
        wide as u32
    }
}

/// `part` of `whole` as a percentage in hundredths of a percent,
/// clamped to `u64`; zero when `whole` is zero.
pub open spec fn spec_pct_centi64(part: nat, whole: nat) -> u64 {
    if whole == 0 {
        0
    } else {
        sat64(part * 10000 / whole)
    }
}

pub fn pct_centi64(part: u64, whole: u64) -> (r: u64)
    ensures
        r == spec_pct_centi64(part as nat, whole as nat),
{
    if whole == 0 {
        return 0;
    }
    let wide: u128 = part as u128 * 10000 / whole as u128;
    if wide > u64::MAX as u128 {
        u64::MAX
    } else {
        wide as u64
    }
}

/// The fractional digit string `fp`, scaled to exactly `d` digits:
/// truncated if longer, padded with zeros if shorter.
pub open spec fn frac_scaled(fp: Seq<u8>, d: nat) -> nat {
    if fp.len() >= d {
        digits_val(fp.take(d as int))
    } else {
        digits_val(fp) * pow10((d - fp.len()) as nat)
    }
}

/// Value of a non-negative decimal numeral `s` (digits, optionally one
/// point with digits on at least one side) in units of `10^-d`;
/// `None` when `s` is not such a numeral.
pub open spec fn spec_scaled_val(s: Seq<u8>, d: nat) -> Option<nat> {
    let dot = spec_find_byte(s, 46, 0);
    let ip = match dot {
        Some(i) => s.subrange(0, i),
        None => s,
    };
    let fp = match dot {
        Some(i) => s.subrange(i + 1, s.len() as int),
        None => Seq::<u8>::empty(),
    };
    if all_digits(ip) && all_digits(fp) && ip.len() + fp.len() > 0 {
        Some(digits_val(ip) * pow10(d) + frac_scaled(fp, d))
    } else {
        None
    }
}

pub fn pow10_exec(k: usize) -> (r: u64)
    requires
        k <= 19,
    ensures
        r == pow10(k as nat),
        r >= 1,
{
    let mut r: u64 = 1;
    let mut i: usize = 0;
    while i < k
        invariant
            i <= k <= 19,
            r == pow10(i as nat),
            r >= 1,
        decreases k - i,
    {
        proof {
            lemma_pow10_mono(i as nat, 18);
            lemma_pow10_18();
            assert(pow10((i + 1) as nat) == 10 * pow10(i as nat));
        }
        r = r * 10;
        i = i + 1;
    }
    r
}

pub proof fn lemma_pow10_pos(k: nat)
    ensures
        pow10(k) >= 1,
    decreases k,
{
    if k > 0 {
        lemma_pow10_pos((k - 1) as nat);
    }
}

pub proof fn lemma_pow10_18()
    ensures
        pow10(18) == 1000000000000000000,
{
    reveal_with_fuel(pow10, 20);
}

pub proof fn lemma_pow10_6()
    ensures
        pow10(6) == 1000000,
{
    reveal_with_fuel(pow10, 8);
}

pub proof fn lemma_pow10_mono(a: nat, b: nat)
    requires
        a <= b,
    ensures
        pow10(a) <= pow10(b),
    decreases b,
{
    if a < b {
        lemma_pow10_mono(a, (b - 1) as nat);
        assert(pow10(b) == 10 * pow10((b - 1) as nat));
        assert(pow10((b - 1) as nat) >= 1) by { lemma_pow10_pos((b - 1) as nat); }
    }
}

/// Parse a decimal numeral into units of `10^-d`, clamped to `u64`;
/// `None` when `s` is not a numeral.
pub fn parse_scaled(s: &[u8], d: usize) -> (r: Option<u64>)
    requires
        d <= 6,
    ensures
        match spec_scaled_val(s@, d as nat) {
            Some(v) => r == Some(sat64(v)),
            None => r is None,
        },
{
    let n = s.len();
    let dot = find_byte(s, 46, 0);
    let ip: Vec<u8>;
    let fp: Vec<u8>;
    match dot {
        Some(i) => {
            ip = sub_vec(s, 0, i);
            fp = sub_vec(s, i + 1, n);
        },
        None => {
            ip = sub_vec(s, 0, n);
            proof {
                assert(s@.subrange(0, s@.len() as int) =~= s@);
            }
            fp = Vec::new();
        },
    }
    let ghost ival = digits_val(ip@);
    let ghost fscaled = frac_scaled(fp@, d as nat);
    if !all_digits_check(ip.as_slice()) || !all_digits_check(fp.as_slice()) {
        return None;
    }
    if ip.len() == 0 && fp.len() == 0 {
        return None;
    }
    let int_sat = dec_sat(ip.as_slice());
    let fval: u64;
    if fp.len() >= d {
        let fd = sub_vec(fp.as_slice(), 0, d);
        proof {
            assert(fd@ =~= fp@.take(d as int));
            lemma_digits_val_bound(fd@);
            lemma_pow10_mono(fd@.len() as nat, 6);
            lemma_pow10_6();
        }
        fval = dec_sat(fd.as_slice());
    } else {
        proof {
            lemma_digits_val_bound(fp@);
        }
        let fraw = dec_sat(fp.as_slice());
        let scale = pow10_exec(d - fp.len());
        proof {
            lemma_pow10_mono((d - fp@.len()) as nat, 6);
            lemma_pow10_mono(fp@.len() as nat, 6);
            lemma_pow10_6();
            assert(digits_val(fp@) * pow10((d - fp@.len()) as nat) < pow10(fp@.len() as nat)
                * pow10((d - fp@.len()) as nat)) by (nonlinear_arith)
                requires
                    digits_val(fp@) < pow10(fp@.len() as nat),
                    pow10((d - fp@.len()) as nat) >= 1,
            ;
            lemma_pow10_mul(fp@.len() as nat, (d - fp@.len()) as nat);
            lemma_pow10_mono((fp@.len() + (d - fp@.len())) as nat, 6);
        }
        fval = fraw * scale;
    }
    proof {
        assert(fval == fscaled);
        assert(fscaled < 1000000) by {
            lemma_pow10_6();
            lemma_pow10_mono(d as nat, 6);
            if fp@.len() >= d as nat {
                lemma_digits_val_bound(fp@.take(d as int));
                lemma_pow10_mono(d as nat, 6);
            } else {
                lemma_digits_val_bound(fp@);
                assert(digits_val(fp@) * pow10((d - fp@.len()) as nat) < pow10(fp@.len() as nat)
                    * pow10((d - fp@.len()) as nat)) by (nonlinear_arith)
                    requires
                        digits_val(fp@) < pow10(fp@.len() as nat),
                        pow10((d - fp@.len()) as nat) >= 1,
                ;
                lemma_pow10_mul(fp@.len() as nat, (d - fp@.len()) as nat);
            }
        }
    }
    let scale_all = pow10_exec(d);
    proof {
        lemma_pow10_mono(d as nat, 6);
        lemma_pow10_6();
        assert(int_sat as nat * scale_all as nat <= (u64::MAX as nat) * 1000000) by (nonlinear_arith)
            requires
                int_sat as nat <= u64::MAX as nat,
                scale_all as nat <= 1000000,
        ;
    }
    let wide: u128 = int_sat as u128 * scale_all as u128 + fval as u128;
    proof {
        let v = ival * pow10(d as nat) + fscaled;
        assert(spec_scaled_val(s@, d as nat) == Some(v));
        if ival > u64::MAX {
            lemma_pow10_pos(d as nat);
            assert(ival * pow10(d as nat) >= ival * 1) by (nonlinear_arith)
                requires
                    pow10(d as nat) >= 1,
                    ival >= 0,
            ;
            assert(wide as nat == (u64::MAX as nat) * pow10(d as nat) + fscaled);
            assert((u64::MAX as nat) * pow10(d as nat) >= (u64::MAX as nat) * 1) by (nonlinear_arith)
                requires
                    pow10(d as nat) >= 1,
            ;
        }
    }
    if wide > u64::MAX as u128 {
        Some(u64::MAX)
    } else {
        Some(wide as u64)
    }
}

#[verifier::spinoff_prover]
pub proof fn lemma_pow10_mul(a: nat, b: nat)
    ensures
        pow10(a) * pow10(b) == pow10((a + b) as nat),
    decreases a,
{
    if a == 0 {
        assert(pow10(a) == 1);
        assert((a + b) as nat == b);
        assert(pow10(a) * pow10(b) == pow10(b));
    } else {
        let am = (a - 1) as nat;
        lemma_pow10_mul(am, b);
        assert(am + b == (a + b - 1) as nat);
        assert(pow10(a) == 10 * pow10(am));
        assert(pow10((a + b) as nat) == 10 * pow10(((a + b) as nat - 1) as nat));
        assert(pow10(a) * pow10(b) == pow10((a + b) as nat)) by (nonlinear_arith)
            requires
                pow10(a) == 10 * pow10(am),
                pow10(am) * pow10(b) == pow10((am + b) as nat),
                (am + b) as nat == ((a + b) as nat - 1) as nat,
                pow10((a + b) as nat) == 10 * pow10(((a + b) as nat - 1) as nat),
        ;
    }
}

} // verus!

//! Transfer amounts.
//!
//! Amounts are written by operators as decimal values in the chain's native
//! unit and carried by the engine as exact integers in the chain's minor
//! unit (18 decimal places).  Conversion floors the integer part and scales
//! the fractional digits; precision beyond the eighteenth decimal place is
//! truncated, never rounded.

use vstd::prelude::*;
use vstd::arithmetic::div_mod::{lemma_fundamental_div_mod, lemma_fundamental_div_mod_converse};
use vstd::arithmetic::mul::lemma_mul_inequality;
use vstd::slice::slice_index_get;
use vstd::string::StringSliceAdditionalSpecFns;

verus! {

/// Minor units per native unit: the native unit has 18 decimal places.
pub const MINOR_UNITS_PER_TOKEN: u128 = 1_000_000_000_000_000_000;

/// Decimal places of the native unit.
pub const AMOUNT_DECIMALS: usize = 18;

/// `10^n`.
pub open spec fn pow10(n: nat) -> nat
    decreases n,
{
    if n == 0 {
        1
    } else {
        10 * pow10((n - 1) as nat)
    }
}

/// Combines a whole number of native units and a minor-unit remainder into
/// one minor-unit value.
pub fn to_minor_units(whole: u64, frac: u64) -> (r: u128)
    requires
        frac < MINOR_UNITS_PER_TOKEN,
    ensures
        r == whole * MINOR_UNITS_PER_TOKEN + frac,
{
    proof {
        lemma_mul_inequality(whole as int, u64::MAX as int, MINOR_UNITS_PER_TOKEN as int);
    }
    (whole as u128) * MINOR_UNITS_PER_TOKEN + (frac as u128)
}

/// Splits a minor-unit value into whole native units and the minor-unit
/// remainder.
pub fn split_minor_units(v: u128) -> (r: (u128, u128))
    ensures
        r.0 == v as int / MINOR_UNITS_PER_TOKEN as int,
        r.1 == v as int % MINOR_UNITS_PER_TOKEN as int,
        r.1 < MINOR_UNITS_PER_TOKEN,
{
    (v / MINOR_UNITS_PER_TOKEN, v % MINOR_UNITS_PER_TOKEN)
}

/// Amount conversion is exact on whole and fractional parts: decoding an
/// encoded amount gives back exactly the parts that were encoded, so
/// re-encoding them reproduces the value with no drift.
pub proof fn lemma_minor_units_round_trip(whole: u64, frac: u64)
    requires
        frac < MINOR_UNITS_PER_TOKEN,
    ensures
        (whole * MINOR_UNITS_PER_TOKEN + frac) / MINOR_UNITS_PER_TOKEN as int == whole,
        (whole * MINOR_UNITS_PER_TOKEN + frac) % MINOR_UNITS_PER_TOKEN as int == frac,
{
    lemma_fundamental_div_mod_converse(
        whole * MINOR_UNITS_PER_TOKEN + frac,
        MINOR_UNITS_PER_TOKEN as int,
        whole as int,
        frac as int,
    );
}

/// Decoding and re-encoding is the identity on every minor-unit value.
pub proof fn lemma_minor_units_recombine(v: u128)
    ensures
        (v as int / MINOR_UNITS_PER_TOKEN as int) * MINOR_UNITS_PER_TOKEN + (
        v as int % MINOR_UNITS_PER_TOKEN as int) == v,
{
    lemma_fundamental_div_mod(v as int, MINOR_UNITS_PER_TOKEN as int);
}

/// Whether `b` is the code of an ASCII decimal digit.
pub open spec fn is_dec_digit(b: u8) -> bool {
    48 <= b <= 57
}

/// Whether every byte of `s` is a decimal digit.
pub open spec fn all_dec_digits(s: Seq<u8>) -> bool {
    forall|i: int| 0 <= i < s.len() ==> is_dec_digit(#[trigger] s[i])
}

/// The number that a string of decimal digits denotes.
pub open spec fn digits_val(s: Seq<u8>) -> int
    decreases s.len(),
{
    if s.len() == 0 {
        0
    } else {
        digits_val(s.drop_last()) * 10 + (s.last() - 48)
    }
}

/// The index of the first `.` in `s`, or `s.len()` if there is none.
pub open spec fn dot_index(s: Seq<u8>) -> int
    decreases s.len(),
{
    if s.len() == 0 {
        0
    } else if s[0] == 46 {
        0
    } else {
        1 + dot_index(s.drop_first())
    }
}

/// The integer-part digits of amount text.
pub open spec fn whole_digits(s: Seq<u8>) -> Seq<u8> {
    s.subrange(0, dot_index(s))
}

/// The fractional-part digits of amount text (empty if there is no `.`).
pub open spec fn frac_digits(s: Seq<u8>) -> Seq<u8> {
    if dot_index(s) < s.len() {
        s.subrange(dot_index(s) + 1, s.len() as int)
    } else {
        Seq::empty()
    }
}

/// Valid amount text: one or more digits, optionally followed by `.` and
/// one or more digits.
pub open spec fn is_amount_text(s: Seq<u8>) -> bool {
    &&& whole_digits(s).len() >= 1
    &&& all_dec_digits(whole_digits(s))
    &&& dot_index(s) < s.len() ==> {
        &&& frac_digits(s).len() >= 1
        &&& all_dec_digits(frac_digits(s))
    }
}

/// The fractional digits that count: everything past the eighteenth decimal
/// place is truncated.
pub open spec fn kept_frac_digits(s: Seq<u8>) -> Seq<u8> {
    let f = frac_digits(s);
    if f.len() <= AMOUNT_DECIMALS {
        f
    } else {
        f.subrange(0, AMOUNT_DECIMALS as int)
    }
}

/// The minor-unit value that valid amount text denotes.
pub open spec fn amount_val(s: Seq<u8>) -> int {
    let k = kept_frac_digits(s);
    digits_val(whole_digits(s)) * MINOR_UNITS_PER_TOKEN + digits_val(k) * pow10(
        (AMOUNT_DECIMALS - k.len()) as nat,
    )
}

/// Appending a digit multiplies the value by ten and adds the digit.
proof fn lemma_digits_val_push(s: Seq<u8>, b: u8)
    ensures
        digits_val(s.push(b)) == digits_val(s) * 10 + (b - 48),
{
    assert(s.push(b).last() == b);
    assert(s.push(b).drop_last() =~= s);
}

/// A string of decimal digits denotes a number, never a negative value.
proof fn lemma_digits_val_nonneg(s: Seq<u8>)
    requires
        all_dec_digits(s),
    ensures
        digits_val(s) >= 0,
    decreases s.len(),
{
    if s.len() > 0 {
        assert forall|j: int| 0 <= j < s.drop_last().len() implies is_dec_digit(
            #[trigger] s.drop_last()[j],
        ) by {
            assert(s.drop_last()[j] == s[j]);
        }
        lemma_digits_val_nonneg(s.drop_last());
    }
}

/// The value of a digit string dominates the value of each of its prefixes.
proof fn lemma_digits_val_prefix_le(s: Seq<u8>, i: int)
    requires
        0 <= i <= s.len(),
        all_dec_digits(s),
    ensures
        digits_val(s.subrange(0, i)) <= digits_val(s),
    decreases s.len() - i,
{
    assert forall|j: int| 0 <= j < i implies is_dec_digit(#[trigger] s.subrange(0, i)[j]) by {
        assert(s.subrange(0, i)[j] == s[j]);
    }
    if i == s.len() {
        assert(s.subrange(0, i) =~= s);
    } else {
        let t = s.subrange(0, i + 1);
        assert(t =~= s.subrange(0, i).push(s[i]));
        lemma_digits_val_push(s.subrange(0, i), s[i]);
        lemma_digits_val_nonneg(s.subrange(0, i));
        lemma_digits_val_prefix_le(s, i + 1);
    }
}

/// A scan that found no `.` before `i`, and one at `i` if `i` is inside the
/// text, has found the first `.`.
proof fn lemma_dot_index_of_scan(s: Seq<u8>, i: int)
    requires
        0 <= i <= s.len(),
        forall|j: int| 0 <= j < i ==> s[j] != 46,
        i < s.len() ==> s[i] == 46,
    ensures
        dot_index(s) == i,
    decreases s.len(),
{
    if s.len() == 0 {
    } else if s[0] == 46 {
    } else {
        let t = s.drop_first();
        assert forall|j: int| 0 <= j < i - 1 implies t[j] != 46 by {
            assert(t[j] == s[j + 1]);
        }
        if i - 1 < t.len() {
            assert(t[i - 1] == s[i as int]);
        }
        lemma_dot_index_of_scan(t, i - 1);
    }
}

/// `10^18` written out, for linking the recursive power to the constant.
proof fn lemma_pow10_full()
    ensures
        pow10(AMOUNT_DECIMALS as nat) == MINOR_UNITS_PER_TOKEN,
{
    reveal_with_fuel(pow10, 19);
}

/// `10^n` for `n` up to the native unit's decimal places.
fn pow10_u128(n: usize) -> (r: u128)
    requires
        n <= AMOUNT_DECIMALS,
    ensures
        r == pow10(n as nat),
        r <= MINOR_UNITS_PER_TOKEN,
{
    let mut r: u128 = 1;
    let mut i: usize = 0;
    while i < n
        invariant
            i <= n <= AMOUNT_DECIMALS,
            r == pow10(i as nat),
            r <= MINOR_UNITS_PER_TOKEN,
        decreases n - i,
    {
        proof {
            lemma_pow10_le(i as nat + 1, AMOUNT_DECIMALS as nat);
            lemma_pow10_full();
        }
        r = r * 10;
        i = i + 1;
    }
    r
}

/// `10^n` grows with `n`.
proof fn lemma_pow10_le(n: nat, m: nat)
    requires
        n <= m,
    ensures
        pow10(n) <= pow10(m),
    decreases m,
{
    if n < m {
        lemma_pow10_le(n, (m - 1) as nat);
        assert(pow10(m) == 10 * pow10((m - 1) as nat));
    }
}

/// Parses decimal amount text into minor units, truncating past the
/// eighteenth decimal place.  Returns `None` for malformed text and for a
/// whole part beyond `u64::MAX` native units.
pub fn parse_amount(s: &str) -> (r: Option<u128>)
    ensures
        r is Some <==> is_amount_text(s.spec_bytes()) && digits_val(whole_digits(s.spec_bytes()))
            <= u64::MAX,
        r matches Some(v) ==> v == amount_val(s.spec_bytes()),
{
    parse_amount_bytes(s.as_bytes())
}

/// Parses decimal amount text given as bytes.
pub fn parse_amount_bytes(bytes: &[u8]) -> (r: Option<u128>)
    ensures
        r is Some <==> is_amount_text(bytes@) && digits_val(whole_digits(bytes@)) <= u64::MAX,
        r matches Some(v) ==> v == amount_val(bytes@),
{
    let n = bytes.len();
    let ghost sb = bytes@;

    // Find the first `.`, if any.
    let mut dot: usize = 0;
    while dot < n && *slice_index_get(bytes, dot) != 46
        invariant
            dot <= n,
            n == bytes.len(),
            bytes@ == sb,
            sb == bytes@,
            forall|j: int| 0 <= j < dot ==> sb[j] != 46,
        decreases n - dot,
    {
        dot = dot + 1;
    }
    proof {
        lemma_dot_index_of_scan(sb, dot as int);
    }
    assert(dot_index(sb) == dot);

    // The whole part: at least one digit, value at most u64::MAX.
    if dot == 0 {
        return None;
    }
    let ghost wd = whole_digits(sb);
    let mut whole: u128 = 0;
    let mut i: usize = 0;
    while i < dot
        invariant
            i <= dot <= n,
            n == bytes.len(),
            bytes@ == sb,
            sb == bytes@,
            dot_index(sb) == dot,
            wd == whole_digits(sb),
            wd =~= sb.subrange(0, dot as int),
            all_dec_digits(wd.subrange(0, i as int)),
            whole == digits_val(wd.subrange(0, i as int)),
            whole <= u64::MAX,
        decreases dot - i,
    {
        let b = *slice_index_get(bytes, i);
        if b < 48 || b > 57 {
            proof {
                assert(!is_dec_digit(wd[i as int]));
            }
            return None;
        }
        proof {
            assert(wd.subrange(0, i + 1) =~= wd.subrange(0, i as int).push(wd[i as int]));
            lemma_digits_val_push(wd.subrange(0, i as int), wd[i as int]);
        }
        whole = whole * 10 + ((b - 48) as u128);
        i = i + 1;
        if whole > u64::MAX as u128 {
            proof {
                if all_dec_digits(wd) {
                    lemma_digits_val_prefix_le(wd, i as int);
                }
            }
            return None;
        }
    }
    proof {
        assert(wd.subrange(0, dot as int) =~= wd);
    }

    // The fractional part: at least one digit if a `.` is present; the
    // first eighteen digits count, scaled up to the full decimal precision.
    let ghost fd = frac_digits(sb);
    let ghost kept = kept_frac_digits(sb);
    let mut frac: u128 = 0;
    let mut kept_len: usize = 0;
    if dot < n {
        if dot + 1 == n {
            return None;
        }
        let frac_len = n - dot - 1;
        kept_len = if frac_len <= AMOUNT_DECIMALS {
            frac_len
        } else {
            AMOUNT_DECIMALS
        };
        proof {
            assert(fd =~= sb.subrange(dot + 1, n as int));
            assert(kept =~= fd.subrange(0, kept_len as int));
        }
        let mut i: usize = 0;
        while i < frac_len
            invariant
                i <= frac_len,
                n == bytes.len(),
                bytes@ == sb,
                sb == bytes@,
                dot_index(sb) == dot,
                dot < n,
                wd == whole_digits(sb),
                wd.len() >= 1,
                all_dec_digits(wd),
                whole == digits_val(wd),
                whole <= u64::MAX,
                dot + 1 + frac_len == n,
                kept_len == if frac_len <= AMOUNT_DECIMALS {
                    frac_len as int
                } else {
                    AMOUNT_DECIMALS as int
                },
                fd == frac_digits(sb),
                fd =~= sb.subrange(dot + 1, n as int),
                kept == kept_frac_digits(sb),
                kept =~= fd.subrange(0, kept_len as int),
                all_dec_digits(fd.subrange(0, i as int)),
                i <= kept_len ==> frac == digits_val(kept.subrange(0, i as int)),
                i > kept_len ==> frac == digits_val(kept),
                frac < pow10(if i <= kept_len {
                    i as nat
                } else {
                    kept_len as nat
                }),
            decreases frac_len - i,
        {
            let b = *slice_index_get(bytes, dot + 1 + i);
            if b < 48 || b > 57 {
                proof {
                    assert(!is_dec_digit(fd[i as int]));
                }
                return None;
            }
            if i < kept_len {
                proof {
                    assert(kept.subrange(0, i + 1) =~= kept.subrange(0, i as int).push(
                        kept[i as int],
                    ));
                    lemma_digits_val_push(kept.subrange(0, i as int), kept[i as int]);
                    lemma_pow10_le(i as nat + 1, AMOUNT_DECIMALS as nat);
                    lemma_pow10_full();
                    assert(kept[i as int] == fd[i as int]);
                }
                frac = frac * 10 + ((b - 48) as u128);
            }
            proof {
                if i + 1 > kept_len {
                    assert(kept.subrange(0, kept_len as int) =~= kept);
                }
            }
            i = i + 1;
        }
        proof {
            assert(fd.subrange(0, frac_len as int) =~= fd);
            if frac_len <= AMOUNT_DECIMALS {
                assert(kept.subrange(0, kept_len as int) =~= kept);
            }
        }
    }

    // Scale the kept fractional digits to the full decimal precision.
    proof {
        if dot == n {
            assert(frac_digits(sb) =~= Seq::empty());
            assert(kept =~= Seq::empty());
        }
        assert(pow10(0) == 1);
    }
    let scale = pow10_u128(AMOUNT_DECIMALS - kept_len);
    proof {
        lemma_scaled_frac_bound(frac as int, kept_len as nat);
    }
    let frac_minor = frac * scale;
    Some(to_minor_units(whole as u64, frac_minor as u64))
}

/// `10^a * 10^b == 10^(a + b)`.
proof fn lemma_pow10_mul_split(a: nat, b: nat)
    ensures
        pow10(a) * pow10(b) == pow10(a + b),
    decreases a,
{
    if a == 0 {
        assert(pow10(a) == 1);
        assert(a + b == b);
        assert(pow10(a + b) == pow10(b));
    } else {
        lemma_pow10_mul_split((a - 1) as nat, b);
        let p = pow10((a - 1) as nat) as int;
        let q = pow10(b) as int;
        let r = pow10((a - 1) as nat + b) as int;
        assert(pow10(a) == 10 * p);
        assert(pow10(a + b) == 10 * pow10((a + b - 1) as nat));
        assert((a + b - 1) as nat == (a - 1) as nat + b);
        assert(p * q == r);
        assert(pow10(a) * pow10(b) == pow10(a + b)) by (nonlinear_arith)
            requires
                pow10(a) == 10 * p,
                q == pow10(b),
                p * q == r,
                pow10(a + b) == 10 * r,
        ;
    }
}

/// `10^n` is positive.
proof fn lemma_pow10_pos(n: nat)
    ensures
        pow10(n) >= 1,
    decreases n,
{
    if n > 0 {
        lemma_pow10_pos((n - 1) as nat);
    }
}

/// A value below `10^k` scaled by `10^(18-k)` stays below `10^18`.
proof fn lemma_scaled_frac_bound(v: int, k: nat)
    requires
        0 <= v < pow10(k),
        k <= AMOUNT_DECIMALS,
    ensures
        v * pow10((AMOUNT_DECIMALS - k) as nat) < MINOR_UNITS_PER_TOKEN,
{
    let q = pow10((AMOUNT_DECIMALS - k) as nat) as int;
    lemma_pow10_pos((AMOUNT_DECIMALS - k) as nat);
    lemma_mul_inequality(v, pow10(k) - 1, q);
    assert((pow10(k) - 1) * q == pow10(k) * q - q) by (nonlinear_arith);
    lemma_pow10_mul_split(k, (AMOUNT_DECIMALS - k) as nat);
    lemma_pow10_full();
}

} // verus!

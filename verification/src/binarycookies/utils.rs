//! Timestamps of the container format.
//!
//! The format stores an instant as a 64-bit IEEE 754 number of seconds since
//! 2001-01-01T00:00:00Z. The instants handled here are whole seconds, so the
//! stored number is always an integer, and its bit pattern is computed with
//! integer arithmetic alone.

use vstd::prelude::*;
use vstd::arithmetic::power2::{pow2, lemma_pow2_unfold, lemma_pow2_adds, lemma_pow2_pos,
    lemma_pow2_strictly_increases, lemma2_to64, lemma2_to64_rest};
use vstd::arithmetic::mul::{lemma_mul_strict_inequality, lemma_mul_inequality,
    lemma_mul_is_commutative};
use vstd::arithmetic::div_mod::{lemma_fundamental_div_mod, lemma_mod_bound};

verus! {

/// Seconds between 1970-01-01T00:00:00Z and 2001-01-01T00:00:00Z.
pub const COCOA_EPOCH_OFFSET: i64 = 978_307_200;

/// Seconds a cookie lives when no expiration is given: thirty days.
pub const DEFAULT_LIFETIME: i64 = 2_592_000;

/// Index of the highest set bit of `m`, and zero when `m` is zero.
pub open spec fn floor_log2(m: nat) -> nat
    decreases m,
{
    if m <= 1 {
        0
    } else {
        1 + floor_log2(m / 2)
    }
}

/// `m / d` rounded to the nearest integer, a tie going to the even neighbour.
pub open spec fn div_round_half_even(m: nat, d: nat) -> nat {
    let q = m / d;
    let r = m % d;
    if 2 * r > d || (2 * r == d && q % 2 == 1) {
        q + 1
    } else {
        q
    }
}

/// The 53-bit significand of the binary64 number nearest to `m`, for `m > 0`:
/// `m` scaled by a power of two into `[2^52, 2^53]`.
pub open spec fn binary64_significand(m: nat) -> nat {
    let e = floor_log2(m);
    if e <= 52 {
        m * pow2((52 - e) as nat)
    } else {
        div_round_half_even(m, pow2((e - 52) as nat))
    }
}

/// The bit pattern of the binary64 number nearest to the integer `x`, a tie
/// going to the even significand: sign in bit 63, biased exponent in bits 52
/// to 62, fraction below. Zero is positive zero.
pub open spec fn binary64_of_int(x: int) -> nat {
    let m = if x < 0 { (-x) as nat } else { x as nat };
    if m == 0 {
        0
    } else {
        let sign = if x < 0 { pow2(63) } else { 0 };
        let biased = floor_log2(m) + 1023;
        (sign + biased * pow2(52) + binary64_significand(m) - pow2(52)) as nat
    }
}

/// Seconds since 2001-01-01T00:00:00Z of the instant `unix_secs` seconds
/// after 1970-01-01T00:00:00Z.
pub open spec fn cocoa_seconds(unix_secs: int) -> int {
    unix_secs - COCOA_EPOCH_OFFSET
}

/// `2^floor_log2(m) <= m < 2^(floor_log2(m) + 1)` for every positive `m`.
pub proof fn lemma_floor_log2_bounds(m: nat)
    requires
        m > 0,
    ensures
        pow2(floor_log2(m)) <= m < pow2(floor_log2(m) + 1),
    decreases m,
{
    lemma2_to64();
    if m > 1 {
        lemma_floor_log2_bounds(m / 2);
        let e = floor_log2(m / 2);
        lemma_pow2_unfold(e + 1);
        lemma_pow2_unfold(e + 2);
    }
}

/// `floor_log2` of a 64-bit number is below 64.
proof fn lemma_floor_log2_u64(m: u64)
    requires
        m > 0,
    ensures
        floor_log2(m as nat) <= 63,
{
    lemma_floor_log2_bounds(m as nat);
    lemma2_to64();
    let e = floor_log2(m as nat);
    if e > 63 {
        if e > 64 {
            lemma_pow2_strictly_increases(64, e);
        }
    }
}

/// The significand of a positive 64-bit number lies in `[2^52, 2^53]`.
pub proof fn lemma_significand_range(m: nat)
    requires
        m > 0,
    ensures
        pow2(52) <= binary64_significand(m) <= pow2(53),
{
    lemma_floor_log2_bounds(m);
    let e = floor_log2(m);
    if e <= 52 {
        let k = (52 - e) as nat;
        lemma_pow2_pos(k);
        lemma_pow2_adds(e, k);
        lemma_pow2_adds(e + 1, k);
        lemma_mul_inequality(pow2(e) as int, m as int, pow2(k) as int);
        lemma_mul_strict_inequality(m as int, pow2(e + 1) as int, pow2(k) as int);
    } else {
        let k = (e - 52) as nat;
        let d = pow2(k);
        lemma_pow2_pos(k);
        lemma_pow2_adds(52, k);
        lemma_pow2_adds(53, k);
        lemma_fundamental_div_mod(m as int, d as int);
        lemma_mod_bound(m as int, d as int);
        let q = m / d;
        lemma_mul_is_commutative(d as int, q as int);
        if q < pow2(52) {
            lemma_mul_inequality(q as int + 1, pow2(52) as int, d as int);
            assert((q + 1) * d == q * d + d) by (nonlinear_arith);
        }
        if q >= pow2(53) {
            lemma_mul_inequality(pow2(53) as int, q as int, d as int);
        }
    }
}

/// The three fields of the bit pattern of a nonzero integer: bit 63 is the
/// sign, bits 52 to 62 hold the exponent plus 1023, and the low 52 bits hold
/// the significand without its leading one. Where the integer is below 2^53
/// in magnitude, that significand times 2^exponent is the integer times 2^52:
/// the number stored is the integer itself.
pub proof fn lemma_binary64_fields(x: int)
    requires
        x != 0,
        -pow2(53) < x < pow2(53),
    ensures
        ({
            let m = if x < 0 { (-x) as nat } else { x as nat };
            let bits = binary64_of_int(x);
            &&& bits / pow2(63) == if x < 0 { 1nat } else { 0nat }
            &&& (bits / pow2(52)) % pow2(11) == floor_log2(m) + 1023
            &&& bits % pow2(52) == binary64_significand(m) - pow2(52)
            &&& binary64_significand(m) * pow2(floor_log2(m)) == m * pow2(52)
        }),
{
    let m = if x < 0 { (-x) as nat } else { x as nat };
    let e = floor_log2(m);
    let sig = binary64_significand(m);
    let bits = binary64_of_int(x);
    lemma_floor_log2_bounds(m);
    lemma_significand_range(m);
    lemma2_to64();
    lemma2_to64_rest();
    if e > 52 {
        lemma_pow2_strictly_increases(53, e);
    }
    let k = (52 - e) as nat;
    lemma_pow2_adds(e, k);
    lemma_pow2_adds(e + 1, k);
    lemma_pow2_pos(k);
    lemma_mul_strict_inequality(m as int, pow2(e + 1) as int, pow2(k) as int);
    assert(sig < pow2(53));
    assert(sig * pow2(e) == m * pow2(52)) by (nonlinear_arith)
        requires
            sig == m * pow2(k),
            pow2(52) == pow2(e) * pow2(k),
    ;
    let fraction = (sig - pow2(52)) as nat;
    let biased = e + 1023;
    let sign: nat = if x < 0 { 1 } else { 0 };
    assert(bits == sign * 0x8000_0000_0000_0000 + biased * 0x10_0000_0000_0000 + fraction);
    assert(fraction < 0x10_0000_0000_0000);
    assert(biased < 2048);
    assert(bits % 0x10_0000_0000_0000 == fraction && bits / 0x10_0000_0000_0000 == sign * 2048
        + biased) by (nonlinear_arith)
        requires
            bits == sign * 0x8000_0000_0000_0000 + biased * 0x10_0000_0000_0000 + fraction,
            fraction < 0x10_0000_0000_0000,
    ;
    assert((sign * 2048 + biased) % 2048 == biased) by (nonlinear_arith)
        requires
            biased < 2048,
            sign <= 1,
    ;
    assert(bits / 0x8000_0000_0000_0000 == sign) by (nonlinear_arith)
        requires
            bits == sign * 0x8000_0000_0000_0000 + biased * 0x10_0000_0000_0000 + fraction,
            fraction < 0x10_0000_0000_0000,
            biased < 2048,
            sign <= 1,
    ;
}

/// Two to the power `k`.
fn power_of_two(k: u32) -> (r: u64)
    requires
        k <= 63,
    ensures
        r == pow2(k as nat),
{
    let mut r: u64 = 1;
    let mut i: u32 = 0;
    proof {
        lemma2_to64();
    }
    while i < k
        invariant
            i <= k <= 63,
            r == pow2(i as nat),
        decreases k - i,
    {
        proof {
            lemma_pow2_unfold((i + 1) as nat);
            lemma2_to64_rest();
            if i + 1 < 63 {
                lemma_pow2_strictly_increases((i + 1) as nat, 63);
            }
        }
        r = r * 2;
        i = i + 1;
    }
    r
}

/// Index of the highest set bit of `m`.
fn highest_bit(m: u64) -> (e: u32)
    requires
        m > 0,
    ensures
        e == floor_log2(m as nat),
        e <= 63,
{
    let mut rest: u64 = m;
    let mut e: u32 = 0;
    proof {
        lemma_floor_log2_u64(m);
    }
    while rest > 1
        invariant
            rest > 0,
            floor_log2(m as nat) == e + floor_log2(rest as nat),
            floor_log2(m as nat) <= 63,
        decreases rest,
    {
        rest = rest / 2;
        e = e + 1;
    }
    e
}

/// The bit pattern of the binary64 number nearest to the integer of
/// magnitude `m`, negative when `negative` is set and `m` is not zero.
pub fn binary64_bits(negative: bool, m: u64) -> (bits: u64)
    ensures
        bits == binary64_of_int(if negative { -(m as int) } else { m as int }),
{
    if m == 0 {
        return 0;
    }
    let e: u32 = highest_bit(m);
    proof {
        lemma_floor_log2_bounds(m as nat);
        lemma_significand_range(m as nat);
        lemma2_to64();
        lemma2_to64_rest();
    }
    let significand: u64 = if e <= 52 {
        let f: u64 = power_of_two(52 - e);
        m * f
    } else {
        let d: u64 = power_of_two(e - 52);
        let q: u64 = m / d;
        let r: u64 = m % d;
        proof {
            if e - 52 < 11 {
                lemma_pow2_strictly_increases((e - 52) as nat, 11);
            }
        }
        if 2 * r > d || (2 * r == d && q % 2 == 1) {
            q + 1
        } else {
            q
        }
    };
    let sign: u64 = if negative { 0x8000_0000_0000_0000 } else { 0 };
    let biased: u64 = e as u64 + 1023;
    assert(biased * 0x10_0000_0000_0000 <= 1086 * 0x10_0000_0000_0000) by (nonlinear_arith)
        requires
            biased <= 1086,
    ;
    sign + biased * 0x10_0000_0000_0000 + (significand - 0x10_0000_0000_0000)
}

/// The instant `unix_secs` seconds after 1970-01-01T00:00:00Z, or before it
/// for a negative count, as the format stores it: the bit pattern of the
/// binary64 number of seconds since 2001-01-01T00:00:00Z.
pub fn to_cocoa_timestamp(unix_secs: i64) -> (bits: u64)
    ensures
        bits == binary64_of_int(cocoa_seconds(unix_secs as int)),
{
    if unix_secs >= COCOA_EPOCH_OFFSET {
        binary64_bits(false, (unix_secs - COCOA_EPOCH_OFFSET) as u64)
    } else {
        binary64_bits(true, (COCOA_EPOCH_OFFSET as i128 - unix_secs as i128) as u64)
    }
}

/// The count of seconds that names an instant given by its distance from
/// 1970-01-01T00:00:00Z: `Ok` holds the whole seconds after it, `Err` the
/// whole seconds before it.
pub open spec fn signed_seconds_of(distance: Result<u64, u64>) -> int {
    match distance {
        Ok(after) => if after <= i64::MAX {
            after as int
        } else {
            i64::MAX as int
        },
        Err(before) => if before <= i64::MAX {
            -(before as int)
        } else {
            -(i64::MAX as int)
        },
    }
}

/// The signed count of seconds since 1970-01-01T00:00:00Z for an instant
/// given by its distance from then, after (`Ok`) or before (`Err`). A
/// distance that no signed 64-bit count can hold counts as the greatest
/// that one can.
pub fn signed_seconds(distance: Result<u64, u64>) -> (secs: i64)
    ensures
        secs == signed_seconds_of(distance),
{
    match distance {
        Ok(after) => if after <= 0x7fff_ffff_ffff_ffff {
            after as i64
        } else {
            0x7fff_ffff_ffff_ffff
        },
        Err(before) => if before <= 0x7fff_ffff_ffff_ffff {
            -(before as i64)
        } else {
            -0x7fff_ffff_ffff_ffff
        },
    }
}

} // verus!

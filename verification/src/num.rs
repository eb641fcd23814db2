//! Bit-level model of the runtime's numbers.
//!
//! A number is carried as the 64 bits of an IEEE-754 double: a sign bit, an
//! 11-bit biased exponent and a 52-bit fraction. Equality, ordering and
//! truncation are defined here directly over those fields, so the rest of the
//! library can reason about numbers without touching hardware arithmetic.
use vstd::prelude::*;

verus! {

/// 2^52, the weight of the exponent field and the implicit mantissa bit.
pub const FRAC_UNIT: u64 = 0x10_0000_0000_0000;

/// 2^53, the first magnitude at which the mantissa no longer fits.
pub const MANT_LIMIT: u64 = 0x20_0000_0000_0000;

/// 2^63, the weight of the sign bit.
pub const SIGN_UNIT: u64 = 0x8000_0000_0000_0000;

/// The all-ones exponent field, used by infinities and not-a-number payloads.
pub const EXP_SPECIAL: u64 = 0x7FF;

/// The exponent bias plus the fraction width: a mantissa in
/// `[2^52, 2^53)` with this biased exponent has the mantissa's own value.
pub const EXP_OF_MANTISSA: u64 = 1075;

/// The bias of the exponent field: biased exponent 1023 means 2^0.
pub const EXP_BIAS: u64 = 1023;

pub open spec fn sign_field(b: u64) -> u64 {
    b / SIGN_UNIT
}

pub open spec fn exp_field(b: u64) -> u64 {
    (b / FRAC_UNIT) % 0x800
}

pub open spec fn frac_field(b: u64) -> u64 {
    b % FRAC_UNIT
}

/// The pattern encodes not-a-number: special exponent with a nonzero fraction.
pub open spec fn is_nan_bits(b: u64) -> bool {
    exp_field(b) == EXP_SPECIAL && frac_field(b) != 0
}

/// The pattern encodes a zero of either sign.
pub open spec fn is_zero_bits(b: u64) -> bool {
    exp_field(b) == 0 && frac_field(b) == 0
}

/// Numeric equality of two encoded doubles: nothing equals a not-a-number,
/// and the two zeroes equal each other; otherwise the patterns must agree.
pub open spec fn eq_bits(a: u64, b: u64) -> bool {
    &&& !is_nan_bits(a)
    &&& !is_nan_bits(b)
    &&& (a == b || (is_zero_bits(a) && is_zero_bits(b)))
}

/// Numeric strict order of two encoded doubles. With equal signs the
/// magnitude fields order the values (reversed below zero); with unequal
/// signs the negative one is smaller unless both are zeroes.
pub open spec fn lt_bits(a: u64, b: u64) -> bool {
    &&& !is_nan_bits(a)
    &&& !is_nan_bits(b)
    &&& if is_zero_bits(a) && is_zero_bits(b) {
        false
    } else if sign_field(a) != sign_field(b) {
        sign_field(a) == 1
    } else if sign_field(a) == 0 {
        a < b
    } else {
        b < a
    }
}

pub fn num_is_nan(b: u64) -> (r: bool)
    ensures
        r == is_nan_bits(b),
{
    (b / FRAC_UNIT) % 0x800 == EXP_SPECIAL && b % FRAC_UNIT != 0
}

pub fn num_is_zero(b: u64) -> (r: bool)
    ensures
        r == is_zero_bits(b),
{
    (b / FRAC_UNIT) % 0x800 == 0 && b % FRAC_UNIT == 0
}

pub fn num_eq(a: u64, b: u64) -> (r: bool)
    ensures
        r == eq_bits(a, b),
{
    !num_is_nan(a) && !num_is_nan(b) && (a == b || (num_is_zero(a) && num_is_zero(b)))
}

pub fn num_lt(a: u64, b: u64) -> (r: bool)
    ensures
        r == lt_bits(a, b),
{
    if num_is_nan(a) || num_is_nan(b) {
        false
    } else if num_is_zero(a) && num_is_zero(b) {
        false
    } else if a / SIGN_UNIT != b / SIGN_UNIT {
        a / SIGN_UNIT == 1
    } else if a / SIGN_UNIT == 0 {
        a < b
    } else {
        b < a
    }
}

/// Strict order never holds both ways round.
pub proof fn lemma_lt_bits_asymmetric(a: u64, b: u64)
    ensures
        !(lt_bits(a, b) && lt_bits(b, a)),
        lt_bits(a, b) ==> !eq_bits(a, b),
{
}

/// `m` halved `k` times, rounding towards zero.
pub open spec fn halved(m: u64, k: nat) -> u64
    decreases k,
{
    if k == 0 {
        m
    } else {
        halved(m / 2, (k - 1) as nat)
    }
}

/// `m` doubled `k` times, pinned to the largest value once it can no
/// longer double without wrapping.
pub open spec fn doubled_sat(m: u64, k: nat) -> u64
    decreases k,
{
    if k == 0 {
        m
    } else if m >= SIGN_UNIT {
        u64::MAX
    } else {
        doubled_sat((m * 2) as u64, (k - 1) as nat)
    }
}

/// The value a cast of the encoded double to an unsigned machine word
/// yields: truncation towards zero, negatives and not-a-number to zero,
/// values beyond the word pinned to its largest value.
pub open spec fn trunc_u64_of(b: u64) -> u64 {
    if is_nan_bits(b) || sign_field(b) == 1 {
        0
    } else {
        let e = exp_field(b);
        if e < EXP_BIAS {
            0
        } else if e >= 1087 {
            u64::MAX
        } else {
            let m = (FRAC_UNIT + frac_field(b)) as u64;
            if e <= EXP_OF_MANTISSA {
                halved(m, (EXP_OF_MANTISSA - e) as nat)
            } else {
                doubled_sat(m, (e - EXP_OF_MANTISSA) as nat)
            }
        }
    }
}

fn halve_times(m: u64, k: u64) -> (r: u64)
    ensures
        r == halved(m, k as nat),
{
    let mut cur: u64 = m;
    let mut left: u64 = k;
    while left > 0
        invariant
            halved(cur, left as nat) == halved(m, k as nat),
        decreases left,
    {
        cur = cur / 2;
        left = left - 1;
    }
    cur
}

fn double_times_sat(m: u64, k: u64) -> (r: u64)
    ensures
        r == doubled_sat(m, k as nat),
{
    let mut cur: u64 = m;
    let mut left: u64 = k;
    while left > 0
        invariant
            doubled_sat(cur, left as nat) == doubled_sat(m, k as nat),
        decreases left,
    {
        if cur >= SIGN_UNIT {
            return u64::MAX;
        }
        cur = cur * 2;
        left = left - 1;
    }
    cur
}

/// Truncating cast of an encoded double to an unsigned machine word.
pub fn num_trunc_u64(b: u64) -> (r: u64)
    ensures
        r == trunc_u64_of(b),
{
    if num_is_nan(b) || b / SIGN_UNIT == 1 {
        0
    } else {
        let e = (b / FRAC_UNIT) % 0x800;
        if e < EXP_BIAS {
            0
        } else if e >= 1087 {
            u64::MAX
        } else {
            let m = FRAC_UNIT + b % FRAC_UNIT;
            if e <= EXP_OF_MANTISSA {
                halve_times(m, EXP_OF_MANTISSA - e)
            } else {
                double_times_sat(m, e - EXP_OF_MANTISSA)
            }
        }
    }
}

/// A mantissa scaled up into `[2^52, 2^53)`, with the biased exponent
/// lowered in step; the encoding of any whole number below `2^53` starts here.
pub open spec fn scaled_up(m: u64, e: u64) -> (u64, u64)
    decreases 2 * FRAC_UNIT - m,
{
    if m < FRAC_UNIT && 1 <= m && e >= 1 {
        scaled_up((m * 2) as u64, (e - 1) as u64)
    } else {
        (m, e)
    }
}

/// The bit pattern of the double with the given sign that holds the whole
/// number `mag` exactly. Meaningful for magnitudes up to `2^53`.
pub open spec fn bits_of_mag(sig: u64, mag: u64) -> u64 {
    if mag == 0 {
        (sig * SIGN_UNIT) as u64
    } else {
        let se = scaled_up(mag, EXP_OF_MANTISSA);
        (sig * SIGN_UNIT + se.1 * FRAC_UNIT + (se.0 - FRAC_UNIT)) as u64
    }
}

/// The bit pattern of the double holding the whole number `v` exactly.
pub open spec fn bits_of_int(v: int) -> u64 {
    if v >= 0 {
        bits_of_mag(0, v as u64)
    } else {
        bits_of_mag(1, (-v) as u64)
    }
}

/// The position of the highest set bit.
pub open spec fn spec_log2(m: nat) -> nat
    decreases m,
{
    if m < 2 {
        0
    } else {
        spec_log2(m / 2) + 1
    }
}

proof fn lemma_log2_below(m: nat, p: nat)
    requires
        m < pow2_nat(p),
        p >= 1,
    ensures
        spec_log2(m) < p,
    decreases m,
{
    if m >= 2 {
        lemma_log2_below(m / 2, (p - 1) as nat);
    }
}

proof fn lemma_log2_above(m: nat, p: nat)
    requires
        m >= pow2_nat(p),
    ensures
        spec_log2(m) >= p,
    decreases p,
{
    if p >= 1 {
        lemma_log2_above(m / 2, (p - 1) as nat);
    }
}

pub open spec fn pow2_nat(k: nat) -> nat
    decreases k,
{
    if k == 0 {
        1nat
    } else {
        2 * pow2_nat((k - 1) as nat)
    }
}

proof fn lemma_pow2_52()
    ensures
        pow2_nat(52) == FRAC_UNIT,
{
    reveal_with_fuel(pow2_nat, 53);
}

/// Encode a whole number of magnitude below `2^53` as double bits, exactly.
pub fn num_of_mag(sig: u64, mag: u64) -> (r: u64)
    requires
        sig <= 1,
        mag < MANT_LIMIT,
    ensures
        r == bits_of_mag(sig, mag),
{
    if mag == 0 {
        return sig * SIGN_UNIT;
    }
    proof {
        lemma_pow2_52();
        lemma_log2_below(mag as nat, 53);
    }
    let mut m: u64 = mag;
    let mut e: u64 = EXP_OF_MANTISSA;
    while m < FRAC_UNIT
        invariant
            1 <= m < MANT_LIMIT,
            e == EXP_OF_MANTISSA - spec_log2(m as nat) + spec_log2(mag as nat),
            spec_log2(m as nat) <= 52,
            spec_log2(mag as nat) <= 52,
            scaled_up(m, e) == scaled_up(mag as u64, EXP_OF_MANTISSA),
        decreases 2 * FRAC_UNIT - m,
    {
        proof {
            lemma_pow2_52();
            lemma_log2_below(m as nat, 52);
            assert(spec_log2((m * 2) as nat) == spec_log2(m as nat) + 1);
        }
        m = m * 2;
        e = e - 1;
    }
    assert(scaled_up(m, e) == (m, e));
    sig * SIGN_UNIT + (e * FRAC_UNIT + (m - FRAC_UNIT))
}

/// A mantissa scaled down into `[2^52, 2^53)` with round and sticky bits
/// collected on the way, as rounding to nearest requires.
pub open spec fn scaled_down(m: u64, e: u64, round: bool, sticky: bool) -> (u64, u64, bool, bool)
    decreases m,
{
    if m < MANT_LIMIT {
        (m, e, round, sticky)
    } else {
        scaled_down(m / 2, (e + 1) as u64, m % 2 == 1, sticky || round)
    }
}

/// The bit pattern of the double nearest to the machine word `n`, ties to
/// the even mantissa: the meaning of a cast from the word to a double.
pub open spec fn bits_of_u64_rne(n: u64) -> u64 {
    if n < MANT_LIMIT {
        bits_of_mag(0, n)
    } else {
        let sdown = scaled_down(n, EXP_OF_MANTISSA, false, false);
        let m = sdown.0;
        let e = sdown.1;
        let up = sdown.2 && (sdown.3 || m % 2 == 1);
        let m2 = if up {
            (m + 1) as u64
        } else {
            m
        };
        if m2 == MANT_LIMIT {
            ((e + 1) * FRAC_UNIT + (m2 / 2 - FRAC_UNIT)) as u64
        } else {
            (e * FRAC_UNIT + (m2 - FRAC_UNIT)) as u64
        }
    }
}

/// A mantissa with its low `k` bits stripped, provided they are all clear.
pub open spec fn whole_mag(m: u64, k: nat) -> Option<u64>
    decreases k,
{
    if k == 0 {
        Some(m)
    } else if m % 2 == 1 {
        None
    } else {
        whole_mag(m / 2, (k - 1) as nat)
    }
}

/// The whole number below `2^52` in magnitude that the pattern encodes, if
/// any. The negative zero and magnitudes of `2^52` and above are left out,
/// so an encoding produced back from the answer is the pattern itself.
pub open spec fn small_int_of(b: u64) -> Option<int> {
    if b == 0 {
        Some(0)
    } else {
        let e = exp_field(b);
        if e < EXP_BIAS || e >= EXP_OF_MANTISSA {
            None
        } else {
            match whole_mag((FRAC_UNIT + frac_field(b)) as u64, (EXP_OF_MANTISSA - e) as nat) {
                Some(mag) => if sign_field(b) == 0 {
                    Some(mag as int)
                } else {
                    Some(-(mag as int))
                },
                None => None,
            }
        }
    }
}

/// Decode the pattern as a whole number below `2^52` in magnitude, if it is one.
pub fn num_small_int(b: u64) -> (r: Option<i64>)
    ensures
        r is Some <==> small_int_of(b) is Some,
        r matches Some(v) ==> small_int_of(b) == Some(v as int) && -(FRAC_UNIT as int) < v
            < FRAC_UNIT as int,
{
    if b == 0 {
        return Some(0);
    }
    let e = (b / FRAC_UNIT) % 0x800;
    if e < EXP_BIAS || e >= EXP_OF_MANTISSA {
        return None;
    }
    let mut m: u64 = FRAC_UNIT + b % FRAC_UNIT;
    let mut k: u64 = EXP_OF_MANTISSA - e;
    while k > 0
        invariant
            whole_mag(m, k as nat) == whole_mag(
                (FRAC_UNIT + frac_field(b)) as u64,
                (EXP_OF_MANTISSA - exp_field(b)) as nat,
            ),
            m < MANT_LIMIT,
            k == 0 ==> m < FRAC_UNIT,
            k >= 1 ==> EXP_BIAS <= exp_field(b) < EXP_OF_MANTISSA,
        decreases k,
    {
        if m % 2 == 1 {
            return None;
        }
        m = m / 2;
        k = k - 1;
    }
    if b / SIGN_UNIT == 0 {
        Some(m as i64)
    } else {
        Some(-(m as i64))
    }
}

/// Encode a whole number below `2^53` in magnitude as double bits, exactly.
pub fn num_of_int(v: i64) -> (r: u64)
    requires
        -(MANT_LIMIT as int) < v < MANT_LIMIT as int,
    ensures
        r == bits_of_int(v as int),
{
    if v >= 0 {
        num_of_mag(0, v as u64)
    } else {
        num_of_mag(1, (-v) as u64)
    }
}

/// Encode a machine word as the nearest double, exactly when it is small.
pub fn num_of_u64(n: u64) -> (r: u64)
    ensures
        r == bits_of_u64_rne(n),
{
    if n < MANT_LIMIT {
        return num_of_mag(0, n);
    }
    proof {
        lemma_pow2_52();
        reveal_with_fuel(pow2_nat, 66);
        lemma_log2_below(n as nat, 64);
        lemma_log2_above(n as nat, 53);
    }
    let mut m: u64 = n;
    let mut e: u64 = EXP_OF_MANTISSA;
    let mut round: bool = false;
    let mut sticky: bool = false;
    while m >= MANT_LIMIT
        invariant
            scaled_down(m, e, round, sticky) == scaled_down(
                n,
                EXP_OF_MANTISSA,
                false,
                false,
            ),
            e == EXP_OF_MANTISSA + spec_log2(n as nat) - spec_log2(m as nat),
            spec_log2(n as nat) <= 63,
            m >= FRAC_UNIT,
            spec_log2(m as nat) >= 52,
        decreases m,
    {
        proof {
            lemma_pow2_52();
            lemma_log2_above(m as nat, 53);
            lemma_log2_above((m / 2) as nat, 52);
        }
        sticky = sticky || round;
        round = m % 2 == 1;
        m = m / 2;
        e = e + 1;
    }
    let up = round && (sticky || m % 2 == 1);
    let m2: u64 = if up {
        m + 1
    } else {
        m
    };
    if m2 == MANT_LIMIT {
        (e + 1) * FRAC_UNIT + (m2 / 2 - FRAC_UNIT)
    } else {
        e * FRAC_UNIT + (m2 - FRAC_UNIT)
    }
}

proof fn lemma_pow2_pos(k: nat)
    ensures
        pow2_nat(k) >= 1,
    decreases k,
{
    if k > 0 {
        lemma_pow2_pos((k - 1) as nat);
    }
}

proof fn lemma_pow2_mono(k1: nat, k2: nat)
    requires
        k1 <= k2,
    ensures
        pow2_nat(k1) <= pow2_nat(k2),
    decreases k2,
{
    if k1 < k2 {
        lemma_pow2_mono(k1, (k2 - 1) as nat);
        lemma_pow2_pos((k2 - 1) as nat);
    }
}

/// A mantissa whose low stripped bits were all clear is its whole value
/// scaled back up: the stripped form times the stripped power of two.
proof fn lemma_whole_mag_value(m: u64, k: nat)
    requires
        whole_mag(m, k) is Some,
    ensures
        m as int == (whole_mag(m, k)->0 as int) * pow2_nat(k) as int,
        whole_mag(m, k)->0 <= m,
    decreases k,
{
    if k == 0 {
        let mag = whole_mag(m, k)->0 as int;
        assert(pow2_nat(k) == 1);
        assert(mag * 1 == mag) by (nonlinear_arith);
    } else {
        lemma_whole_mag_value(m / 2, (k - 1) as nat);
        let mag = whole_mag(m, k)->0 as int;
        let pk1 = pow2_nat((k - 1) as nat) as int;
        assert(pow2_nat(k) == 2 * pow2_nat((k - 1) as nat));
        assert(pow2_nat(k) as int == 2 * pk1);
        assert((m / 2) as int == mag * pk1);
        assert(m as int == mag * (2 * pk1)) by (nonlinear_arith)
            requires
                m as int == 2 * ((m / 2) as int),
                (m / 2) as int == mag * pk1,
        {
        }
        assert(m as int == mag * (pow2_nat(k) as int));
    }
}

/// With a smaller biased exponent the whole value is smaller, whatever the
/// fractions: the scaled magnitudes live in disjoint ranges.
proof fn lemma_smaller_exp_smaller_mag(ea: u64, fa: u64, maga: int, eb: u64, fb: u64, magb: int)
    requires
        EXP_BIAS <= ea < eb < EXP_OF_MANTISSA,
        fa < FRAC_UNIT,
        fb < FRAC_UNIT,
        (FRAC_UNIT + fa) as int == maga * pow2_nat((EXP_OF_MANTISSA - ea) as nat) as int,
        (FRAC_UNIT + fb) as int == magb * pow2_nat((EXP_OF_MANTISSA - eb) as nat) as int,
        maga >= 0,
        magb >= 0,
    ensures
        maga < magb,
{
    let ka = (EXP_OF_MANTISSA - ea) as nat;
    let kb = (EXP_OF_MANTISSA - eb) as nat;
    let pa = pow2_nat(ka) as int;
    let pb = pow2_nat(kb) as int;
    lemma_pow2_pos(kb);
    lemma_pow2_mono((kb + 1) as nat, ka);
    assert(pow2_nat((kb + 1) as nat) == 2 * pow2_nat(kb));
    assert(maga * (2 * pb) <= maga * pa) by (nonlinear_arith)
        requires
            maga >= 0,
            2 * pb <= pa,
    {
    }
    assert(maga * pa < 2 * (magb * pb)) by (nonlinear_arith)
        requires
            maga * pa < 2 * FRAC_UNIT as int,
            2 * (magb * pb) >= 2 * FRAC_UNIT as int,
    {
    }
    assert(2 * (magb * pb) == magb * (2 * pb)) by (nonlinear_arith);
    assert(maga < magb) by (nonlinear_arith)
        requires
            maga * (2 * pb) < magb * (2 * pb),
            pb >= 1,
    {
    }
}

/// With equal biased exponents the fraction fields order the whole values.
proof fn lemma_same_exp_frac_order(ea: u64, fa: u64, maga: int, fb: u64, magb: int)
    requires
        EXP_BIAS <= ea < EXP_OF_MANTISSA,
        fa < FRAC_UNIT,
        fb < FRAC_UNIT,
        (FRAC_UNIT + fa) as int == maga * pow2_nat((EXP_OF_MANTISSA - ea) as nat) as int,
        (FRAC_UNIT + fb) as int == magb * pow2_nat((EXP_OF_MANTISSA - ea) as nat) as int,
    ensures
        (fa < fb) <==> (maga < magb),
{
    let p = pow2_nat((EXP_OF_MANTISSA - ea) as nat) as int;
    lemma_pow2_pos((EXP_OF_MANTISSA - ea) as nat);
    assert((maga * p < magb * p) <==> (maga < magb)) by (nonlinear_arith)
        requires
            p >= 1,
    {
    }
}

/// The whole value a nonzero small pattern encodes, by its fields.
spec fn whole_value_of(b: u64) -> int {
    let m = (FRAC_UNIT + frac_field(b)) as u64;
    let k = (EXP_OF_MANTISSA - exp_field(b)) as nat;
    if sign_field(b) == 0 {
        whole_mag(m, k)->0 as int
    } else {
        -(whole_mag(m, k)->0 as int)
    }
}

proof fn lemma_small_nonzero_shape(b: u64)
    requires
        small_int_of(b) is Some,
        b != 0,
    ensures
        EXP_BIAS <= exp_field(b) < EXP_OF_MANTISSA,
        sign_field(b) <= 1,
        !is_nan_bits(b),
        !is_zero_bits(b),
        whole_mag((FRAC_UNIT + frac_field(b)) as u64, (EXP_OF_MANTISSA - exp_field(b)) as nat)
            is Some,
        small_int_of(b) == Some(whole_value_of(b)),
        1 <= whole_mag(
            (FRAC_UNIT + frac_field(b)) as u64,
            (EXP_OF_MANTISSA - exp_field(b)) as nat,
        )->0,
        b == sign_field(b) * SIGN_UNIT + exp_field(b) * FRAC_UNIT + frac_field(b),
{
    let m = (FRAC_UNIT + frac_field(b)) as u64;
    let k = (EXP_OF_MANTISSA - exp_field(b)) as nat;
    lemma_whole_mag_value(m, k);
    let mag = whole_mag(m, k)->0 as int;
    let p = pow2_nat(k) as int;
    lemma_pow2_pos(k);
    assert(mag >= 1) by (nonlinear_arith)
        requires
            mag * p >= 1,
            p >= 1,
            mag >= 0,
    {
    }
    assert(b == (b / SIGN_UNIT) * SIGN_UNIT + ((b / FRAC_UNIT) % 0x800) * FRAC_UNIT + b
        % FRAC_UNIT) by (bit_vector);
}

/// On whole-valued patterns the bit-level order is the whole numbers' order.
pub proof fn lemma_lt_bits_on_whole(a: u64, b: u64)
    requires
        small_int_of(a) is Some,
        small_int_of(b) is Some,
    ensures
        lt_bits(a, b) <==> small_int_of(a)->0 < small_int_of(b)->0,
{
    if a == 0 && b == 0 {
    } else if a == 0 {
        lemma_small_nonzero_shape(b);
    } else if b == 0 {
        lemma_small_nonzero_shape(a);
    } else {
        lemma_small_nonzero_shape(a);
        lemma_small_nonzero_shape(b);
        let ma = (FRAC_UNIT + frac_field(a)) as u64;
        let ka = (EXP_OF_MANTISSA - exp_field(a)) as nat;
        let mb = (FRAC_UNIT + frac_field(b)) as u64;
        let kb = (EXP_OF_MANTISSA - exp_field(b)) as nat;
        lemma_whole_mag_value(ma, ka);
        lemma_whole_mag_value(mb, kb);
        let maga = whole_mag(ma, ka)->0 as int;
        let magb = whole_mag(mb, kb)->0 as int;
        if sign_field(a) == sign_field(b) {
            if exp_field(a) < exp_field(b) {
                lemma_smaller_exp_smaller_mag(
                    exp_field(a),
                    frac_field(a),
                    maga,
                    exp_field(b),
                    frac_field(b),
                    magb,
                );
            } else if exp_field(b) < exp_field(a) {
                lemma_smaller_exp_smaller_mag(
                    exp_field(b),
                    frac_field(b),
                    magb,
                    exp_field(a),
                    frac_field(a),
                    maga,
                );
            } else {
                lemma_same_exp_frac_order(
                    exp_field(a),
                    frac_field(a),
                    maga,
                    frac_field(b),
                    magb,
                );
            }
        }
    }
}

} // verus!


//! The 80-bit extended format as two integer words, and the exact
//! conversions into it from doubles, singles and integers.
use vstd::prelude::*;

verus! {

/// Two to the 63rd: the explicit integer bit of a normal mantissa.
pub const MANTISSA_TOP: u64 = 0x8000_0000_0000_0000;

/// The sign bit of the sign-exponent word.
pub const SIGN_BIT: u16 = 0x8000;

/// The exponent field that marks an infinity or a NaN.
pub const EXP_SPECIAL: u16 = 0x7FFF;

/// The exponent bias of the extended format.
pub const EXP_BIAS: u16 = 0x3FFF;

/// An 80-bit extended-precision value, held as its two words: the 64-bit
/// mantissa with its explicit integer bit, and the sign bit over the 15-bit
/// biased exponent.
#[derive(Clone, Copy, PartialEq, Eq, Structural, Debug)]
pub struct F80 {
    pub mantissa: u64,
    pub sign_exponent: u16,
}

/// The sign-exponent word of a value with the given sign and exponent field.
pub open spec fn se_word(negative: bool, exp: int) -> int {
    if negative { 0x8000 + exp } else { exp }
}

impl F80 {
    /// The sign bit.
    pub open spec fn is_neg(self) -> bool {
        self.sign_exponent >= 0x8000
    }

    /// The 15-bit biased exponent field.
    pub open spec fn exp_field(self) -> int {
        (self.sign_exponent % 0x8000) as int
    }

    /// Zero, of either sign.
    pub open spec fn spec_is_zero(self) -> bool {
        self.exp_field() == 0 && self.mantissa == 0
    }

    /// A NaN: the special exponent with some bit below the integer bit set.
    pub open spec fn spec_is_nan(self) -> bool {
        self.exp_field() == 0x7FFF && self.mantissa % 0x8000_0000_0000_0000 != 0
    }

    /// Neither an infinity nor a NaN.
    pub open spec fn spec_is_finite(self) -> bool {
        self.exp_field() != 0x7FFF
    }

    /// The value with its sign bit flipped.
    pub open spec fn spec_neg(self) -> F80 {
        F80 {
            mantissa: self.mantissa,
            sign_exponent: (if self.is_neg() { self.sign_exponent - 0x8000 } else { self.sign_exponent + 0x8000 }) as u16,
        }
    }

    /// The value with its sign bit cleared.
    pub open spec fn spec_abs(self) -> F80 {
        F80 { mantissa: self.mantissa, sign_exponent: self.exp_field() as u16 }
    }

    /// Ordered below zero: not a NaN, not a zero of either sign, and negative.
    pub open spec fn spec_lt_zero(self) -> bool {
        !self.spec_is_nan() && !self.spec_is_zero() && self.is_neg()
    }

    /// The positive zero.
    pub fn zero() -> (r: F80)
        ensures
            r == (F80 { mantissa: 0, sign_exponent: 0 }),
    {
        F80 { mantissa: 0, sign_exponent: 0 }
    }

    /// One.
    pub fn one() -> (r: F80)
        ensures
            r == (F80 { mantissa: MANTISSA_TOP, sign_exponent: EXP_BIAS }),
    {
        F80 { mantissa: MANTISSA_TOP, sign_exponent: EXP_BIAS }
    }

    /// The default NaN that an invalid operation produces.
    pub fn indefinite_nan() -> (r: F80)
        ensures
            r == spec_indefinite_nan(),
    {
        F80 { mantissa: 0xC000_0000_0000_0000, sign_exponent: 0xFFFF }
    }

    /// Plus infinity.
    pub fn pos_infinity() -> (r: F80)
        ensures
            r == (F80 { mantissa: MANTISSA_TOP, sign_exponent: 0x7FFF }),
    {
        F80 { mantissa: MANTISSA_TOP, sign_exponent: 0x7FFF }
    }

    /// Minus infinity.
    pub fn neg_infinity() -> (r: F80)
        ensures
            r == (F80 { mantissa: MANTISSA_TOP, sign_exponent: 0xFFFF }),
    {
        F80 { mantissa: MANTISSA_TOP, sign_exponent: 0xFFFF }
    }

    /// Equal to zero as a number: either zero, whatever its sign.
    pub fn is_zero(&self) -> (r: bool)
        ensures
            r == self.spec_is_zero(),
    {
        self.sign_exponent % 0x8000 == 0 && self.mantissa == 0
    }

    /// A NaN: the special exponent with anything below the integer bit set.
    pub fn is_nan(&self) -> (r: bool)
        ensures
            r == self.spec_is_nan(),
    {
        self.sign_exponent % 0x8000 == EXP_SPECIAL && self.mantissa % MANTISSA_TOP != 0
    }

    /// Neither an infinity nor a NaN.
    pub fn is_finite(&self) -> (r: bool)
        ensures
            r == self.spec_is_finite(),
    {
        self.sign_exponent % 0x8000 != EXP_SPECIAL
    }

    /// The sign bit.
    pub fn sign(&self) -> (r: bool)
        ensures
            r == self.is_neg(),
    {
        self.sign_exponent >= SIGN_BIT
    }

    /// Whether the value compares below zero.
    pub fn lt_zero(&self) -> (r: bool)
        ensures
            r == self.spec_lt_zero(),
    {
        !self.is_nan() && !self.is_zero() && self.sign()
    }

    /// The value with its sign bit flipped.
    pub fn neg(&self) -> (r: F80)
        ensures
            r == self.spec_neg(),
    {
        let se = if self.sign_exponent >= SIGN_BIT {
            self.sign_exponent - SIGN_BIT
        } else {
            self.sign_exponent + SIGN_BIT
        };
        F80 { mantissa: self.mantissa, sign_exponent: se }
    }

    /// The value with its sign bit cleared.
    pub fn abs(&self) -> (r: F80)
        ensures
            r == self.spec_abs(),
    {
        F80 { mantissa: self.mantissa, sign_exponent: self.sign_exponent % 0x8000 }
    }

    /// The unbiased exponent: the exponent field less the bias.
    pub fn exponent(&self) -> (r: i16)
        ensures
            r == self.exp_field() - 0x3FFF,
    {
        (self.sign_exponent % 0x8000) as i16 - 0x3FFF
    }
}

/// The default NaN: negative, quiet, with no payload.
pub open spec fn spec_indefinite_nan() -> F80 {
    F80 { mantissa: 0xC000_0000_0000_0000, sign_exponent: 0xFFFF }
}

/// A significand shifted left, with the exponent counted down, until its top
/// bit is the integer bit; a zero significand is left as it is.
pub open spec fn normalize_spec(negative: bool, exp: int, sig: nat) -> F80
    decreases 0x1_0000_0000_0000_0000 - sig,
{
    if sig == 0 || sig >= 0x8000_0000_0000_0000 {
        F80 { mantissa: sig as u64, sign_exponent: se_word(negative, exp) as u16 }
    } else {
        normalize_spec(negative, exp - 1, sig * 2)
    }
}

/// The extended value that the double with these bits holds: every double
/// has one, with nothing lost. A NaN comes out quiet, its payload kept.
pub open spec fn widen_f64(bits: u64) -> F80 {
    let negative = bits >= 0x8000_0000_0000_0000;
    let exp = (bits / 0x10_0000_0000_0000) % 0x800;
    let frac = bits % 0x10_0000_0000_0000;
    if exp == 0x7FF {
        if frac == 0 {
            F80 { mantissa: 0x8000_0000_0000_0000, sign_exponent: se_word(negative, 0x7FFF) as u16 }
        } else {
            F80 {
                mantissa: (0xC000_0000_0000_0000 + (frac % 0x8_0000_0000_0000) * 0x800) as u64,
                sign_exponent: se_word(negative, 0x7FFF) as u16,
            }
        }
    } else if exp == 0 {
        if frac == 0 {
            F80 { mantissa: 0, sign_exponent: se_word(negative, 0) as u16 }
        } else {
            normalize_spec(negative, 0x3C01, (frac * 0x800) as nat)
        }
    } else {
        F80 {
            mantissa: (0x8000_0000_0000_0000 + frac * 0x800) as u64,
            sign_exponent: se_word(negative, exp + 0x3C00) as u16,
        }
    }
}

/// Whether the double with these bits is a signalling NaN, the one input on
/// which widening it raises the invalid-operation flag.
pub open spec fn f64_is_snan(bits: u64) -> bool {
    (bits / 0x10_0000_0000_0000) % 0x800 == 0x7FF && bits % 0x10_0000_0000_0000 != 0
        && bits % 0x10_0000_0000_0000 < 0x8_0000_0000_0000
}

/// The extended value that the single with these bits holds.
pub open spec fn widen_f32(bits: u32) -> F80 {
    let negative = bits >= 0x8000_0000;
    let exp = (bits / 0x80_0000) % 0x100;
    let frac = bits % 0x80_0000;
    if exp == 0xFF {
        if frac == 0 {
            F80 { mantissa: 0x8000_0000_0000_0000, sign_exponent: se_word(negative, 0x7FFF) as u16 }
        } else {
            F80 {
                mantissa: (0xC000_0000_0000_0000 + (frac % 0x40_0000) * 0x100_0000_0000) as u64,
                sign_exponent: se_word(negative, 0x7FFF) as u16,
            }
        }
    } else if exp == 0 {
        if frac == 0 {
            F80 { mantissa: 0, sign_exponent: se_word(negative, 0) as u16 }
        } else {
            normalize_spec(negative, 0x3F81, (frac * 0x100_0000_0000) as nat)
        }
    } else {
        F80 {
            mantissa: (0x8000_0000_0000_0000 + frac * 0x100_0000_0000) as u64,
            sign_exponent: se_word(negative, exp + 0x3F80) as u16,
        }
    }
}

/// Whether the single with these bits is a signalling NaN.
pub open spec fn f32_is_snan(bits: u32) -> bool {
    (bits / 0x80_0000) % 0x100 == 0xFF && bits % 0x80_0000 != 0 && bits % 0x80_0000 < 0x40_0000
}

/// The extended value of an integer of magnitude `mag` with the given sign.
pub open spec fn int_to_f80(negative: bool, mag: nat) -> F80 {
    if mag == 0 {
        F80 { mantissa: 0, sign_exponent: 0 }
    } else {
        normalize_spec(negative, 0x403E, mag)
    }
}

/// The magnitude of a 64-bit integer.
pub open spec fn magnitude(v: int) -> nat {
    if v < 0 { (-v) as nat } else { v as nat }
}

proof fn lemma_pow2_step(k: nat)
    ensures
        vstd::arithmetic::power2::pow2(k + 1) == 2 * vstd::arithmetic::power2::pow2(k),
{
    vstd::arithmetic::power2::lemma_pow2_unfold(k + 1);
}

/// Shifts `sig` left until its top bit is set, counting the exponent down.
fn normalize(negative: bool, exp: u16, sig: u64) -> (r: F80)
    requires
        0 < sig,
        64 <= exp < 0x8000,
    ensures
        r == normalize_spec(negative, exp as int, sig as nat),
{
    let mut m: u64 = sig;
    let mut e: u16 = exp;
    proof {
        vstd::arithmetic::power2::lemma2_to64();
    }
    while m < MANTISSA_TOP
        invariant
            0 < m,
            e <= exp,
            exp - e <= 63,
            64 <= exp < 0x8000,
            m >= vstd::arithmetic::power2::pow2((exp - e) as nat),
            normalize_spec(negative, e as int, m as nat) == normalize_spec(negative, exp as int, sig as nat),
        decreases 63 - (exp - e),
    {
        proof {
            vstd::arithmetic::power2::lemma2_to64();
            vstd::arithmetic::power2::lemma2_to64_rest();
            lemma_pow2_step((exp - e) as nat);
        }
        m = m * 2;
        e = e - 1;
    }
    let se: u16 = if negative { SIGN_BIT + e } else { e };
    F80 { mantissa: m, sign_exponent: se }
}

impl F80 {
    /// The double with these bits, widened: exact for every double.
    pub fn of_f64(bits: u64) -> (r: F80)
        ensures
            r == widen_f64(bits),
    {
        let negative = bits >= 0x8000_0000_0000_0000;
        let exp = (bits / 0x10_0000_0000_0000) % 0x800;
        let frac = bits % 0x10_0000_0000_0000;
        let top: u16 = if negative { SIGN_BIT } else { 0 };
        if exp == 0x7FF {
            if frac == 0 {
                F80 { mantissa: MANTISSA_TOP, sign_exponent: top + 0x7FFF }
            } else {
                F80 {
                    mantissa: 0xC000_0000_0000_0000 + (frac % 0x8_0000_0000_0000) * 0x800,
                    sign_exponent: top + 0x7FFF,
                }
            }
        } else if exp == 0 {
            if frac == 0 {
                F80 { mantissa: 0, sign_exponent: top }
            } else {
                normalize(negative, 0x3C01, frac * 0x800)
            }
        } else {
            F80 {
                mantissa: MANTISSA_TOP + frac * 0x800,
                sign_exponent: top + exp as u16 + 0x3C00,
            }
        }
    }

    /// The single with these bits, widened: exact for every single.
    pub fn of_f32(v: i32) -> (r: F80)
        ensures
            r == widen_f32(v as u32),
    {
        let bits = v as u32;
        let negative = bits >= 0x8000_0000;
        let exp = (bits / 0x80_0000) % 0x100;
        let frac = bits % 0x80_0000;
        let top: u16 = if negative { SIGN_BIT } else { 0 };
        if exp == 0xFF {
            if frac == 0 {
                F80 { mantissa: MANTISSA_TOP, sign_exponent: top + 0x7FFF }
            } else {
                F80 {
                    mantissa: 0xC000_0000_0000_0000 + (frac % 0x40_0000) as u64 * 0x100_0000_0000,
                    sign_exponent: top + 0x7FFF,
                }
            }
        } else if exp == 0 {
            if frac == 0 {
                F80 { mantissa: 0, sign_exponent: top }
            } else {
                normalize(negative, 0x3F81, frac as u64 * 0x100_0000_0000)
            }
        } else {
            F80 {
                mantissa: MANTISSA_TOP + frac as u64 * 0x100_0000_0000,
                sign_exponent: top + exp as u16 + 0x3F80,
            }
        }
    }

    /// A 32-bit integer as an extended value: exact.
    pub fn of_i32(v: i32) -> (r: F80)
        ensures
            r == int_to_f80(v < 0, magnitude(v as int)),
    {
        if v == 0 {
            F80 { mantissa: 0, sign_exponent: 0 }
        } else {
            let mag: u64 = if v < 0 { (0 - (v as i64)) as u64 } else { v as u64 };
            normalize(v < 0, 0x403E, mag)
        }
    }

    /// A 64-bit integer as an extended value: exact, the most negative one too.
    pub fn of_i64(v: i64) -> (r: F80)
        ensures
            r == int_to_f80(v < 0, magnitude(v as int)),
    {
        if v == 0 {
            F80 { mantissa: 0, sign_exponent: 0 }
        } else {
            let mag: u64 = if v == i64::MIN {
                MANTISSA_TOP
            } else if v < 0 {
                (0 - v) as u64
            } else {
                v as u64
            };
            normalize(v < 0, 0x403E, mag)
        }
    }
}

/// Whether the double with these bits is a signalling NaN.
pub fn f64_bits_snan(bits: u64) -> (r: bool)
    ensures
        r == f64_is_snan(bits),
{
    (bits / 0x10_0000_0000_0000) % 0x800 == 0x7FF && bits % 0x10_0000_0000_0000 != 0
        && bits % 0x10_0000_0000_0000 < 0x8_0000_0000_0000
}

/// Whether the single with these bits is a signalling NaN.
pub fn f32_bits_snan(bits: u32) -> (r: bool)
    ensures
        r == f32_is_snan(bits),
{
    (bits / 0x80_0000) % 0x100 == 0xFF && bits % 0x80_0000 != 0 && bits % 0x80_0000 < 0x40_0000
}


/// The one double whose bits could widen to `x`, if the shape of `x` allows
/// one: its exponent in a double's range and no mantissa bit below what a
/// double keeps. A NaN is given its quiet form.
pub open spec fn f64_candidate(x: F80) -> Option<u64> {
    let sign: int = if x.is_neg() { 0x8000_0000_0000_0000 } else { 0 };
    let e = x.exp_field();
    let m = x.mantissa as int;
    if e == 0x7FFF {
        if m == 0x8000_0000_0000_0000 {
            Some((sign + 0x7FF0_0000_0000_0000) as u64)
        } else if m >= 0xC000_0000_0000_0000 && m % 0x800 == 0 {
            Some((sign + 0x7FF0_0000_0000_0000 + (m - 0x8000_0000_0000_0000) / 0x800) as u64)
        } else {
            None
        }
    } else if e == 0 && m == 0 {
        Some(sign as u64)
    } else if m >= 0x8000_0000_0000_0000 && m % 0x800 == 0 && 0x3C01 <= e <= 0x43FE {
        Some((sign + (e - 0x3C00) * 0x10_0000_0000_0000 + (m - 0x8000_0000_0000_0000) / 0x800) as u64)
    } else if m >= 0x8000_0000_0000_0000 && 0x3C01 - 52 <= e <= 0x3C00 {
        Some((sign + m / (vstd::arithmetic::power2::pow2((0x3C01 - e + 11) as nat) as int)) as u64)
    } else {
        None
    }
}

/// `normalize_spec` in closed form: the significand times two to some `t`,
/// landing in the top bit, with the exponent lowered by `t`.
proof fn lemma_normalize_shape(negative: bool, exp: int, sig: nat) -> (t: nat)
    requires
        0 < sig < 0x1_0000_0000_0000_0000,
    ensures
        normalize_spec(negative, exp, sig).mantissa == sig * vstd::arithmetic::power2::pow2(t),
        normalize_spec(negative, exp, sig).sign_exponent == se_word(negative, exp - t) as u16,
        0x8000_0000_0000_0000 <= sig * vstd::arithmetic::power2::pow2(t) < 0x1_0000_0000_0000_0000,
    decreases 0x1_0000_0000_0000_0000 - sig,
{
    if sig >= 0x8000_0000_0000_0000 {
        vstd::arithmetic::power2::lemma2_to64();
        0
    } else {
        let t1 = lemma_normalize_shape(negative, exp - 1, sig * 2);
        lemma_pow2_step(t1);
        let p = vstd::arithmetic::power2::pow2(t1);
        assert(sig * 2 * p == sig * (2 * p)) by (nonlinear_arith);
        t1 + 1
    }
}

/// A nonzero integer in the 80-bit format carries the sign it was given,
/// and a biased exponent between 0x3FFF and 0x403E.
pub proof fn lemma_int_to_f80_sign(negative: bool, mag: nat)
    requires
        0 < mag < 0x1_0000_0000_0000_0000,
    ensures
        int_to_f80(negative, mag).is_neg() == negative,
        0x3FFF <= int_to_f80(negative, mag).exp_field() <= 0x403E,
{
    let t = lemma_normalize_shape(negative, 0x403E, mag);
    let p = vstd::arithmetic::power2::pow2(t);
    vstd::arithmetic::power2::lemma2_to64();
    vstd::arithmetic::power2::lemma_pow2_pos(t);
    if t >= 64 {
        if t > 64 {
            vstd::arithmetic::power2::lemma_pow2_strictly_increases(64, t);
        }
        assert(p >= 0x1_0000_0000_0000_0000);
        assert(mag * p >= p) by (nonlinear_arith)
            requires
                mag >= 1,
                p > 0,
        ;
        assert(false);
    }
}

/// Every double's widening has a candidate, and the candidate widens to
/// the same value.
pub proof fn lemma_f64_candidate_complete(b: u64)
    ensures
        f64_candidate(widen_f64(b)) is Some,
        widen_f64(f64_candidate(widen_f64(b))->0) == widen_f64(b),
{
    let v = widen_f64(b);
    let negative = b >= 0x8000_0000_0000_0000;
    let exp = (b / 0x10_0000_0000_0000) % 0x800;
    let frac = b % 0x10_0000_0000_0000;
    let sign: int = if negative { 0x8000_0000_0000_0000 } else { 0 };
    assert(b == sign + exp * 0x10_0000_0000_0000 + frac);
    if exp == 0x7FF {
        if frac != 0 {
            let c = f64_candidate(v)->0;
            assert(c == sign + 0x7FF0_0000_0000_0000 + 0x8_0000_0000_0000 + frac % 0x8_0000_0000_0000);
        }
    } else if exp == 0 {
        if frac != 0 {
            let sig = (frac * 0x800) as nat;
            let t = lemma_normalize_shape(negative, 0x3C01, sig);
            let p = vstd::arithmetic::power2::pow2(t);
            vstd::arithmetic::power2::lemma2_to64();
            vstd::arithmetic::power2::lemma_pow2_pos(t);
            if t == 0 {
                assert(sig * p == sig) by (nonlinear_arith)
                    requires p == 1;
                assert(false);
            }
            if t >= 53 {
                vstd::arithmetic::power2::lemma2_to64_rest();
                if t > 53 {
                    vstd::arithmetic::power2::lemma_pow2_strictly_increases(53, t);
                }
                assert(sig * p >= 0x800 * p) by (nonlinear_arith)
                    requires sig >= 0x800, p > 0;
                assert(false);
            }
            vstd::arithmetic::power2::lemma_pow2_adds(11, t);
            assert(sig * p == frac * vstd::arithmetic::power2::pow2(11 + t)) by (nonlinear_arith)
                requires
                    sig == frac * 0x800,
                    vstd::arithmetic::power2::pow2(11 + t) == 0x800 * p,
            ;
            vstd::arithmetic::div_mod::lemma_div_by_multiple(
                frac as int,
                vstd::arithmetic::power2::pow2(11 + t) as int,
            );
            assert(v.exp_field() == 0x3C01 - t);
            assert((0x3C01 - v.exp_field() + 11) as nat == 11 + t);
        }
    }
}

/// The candidate, kept only when it widens back to exactly `x`.
pub open spec fn f64_exact_bits(x: F80) -> Option<u64> {
    match f64_candidate(x) {
        Some(c) => if widen_f64(c) == x { Some(c) } else { None },
        None => None,
    }
}

/// The bits of the double that widens to exactly `value`, or nothing when
/// no double does.
pub fn f80_exact_f64_bits(value: &F80) -> (r: Option<u64>)
    ensures
        r == f64_exact_bits(*value),
        r matches Some(b) ==> widen_f64(b) == *value,
        r is None ==> forall|b: u64| #[trigger] widen_f64(b) != *value,
{
    let negative = value.sign_exponent >= SIGN_BIT;
    let sign: u64 = if negative { 0x8000_0000_0000_0000 } else { 0 };
    let e = value.sign_exponent % 0x8000;
    let m = value.mantissa;
    let candidate: Option<u64> = if e == 0x7FFF {
        if m == MANTISSA_TOP {
            Some(sign + 0x7FF0_0000_0000_0000)
        } else if m >= 0xC000_0000_0000_0000 && m % 0x800 == 0 {
            Some(sign + 0x7FF0_0000_0000_0000 + (m - MANTISSA_TOP) / 0x800)
        } else {
            None
        }
    } else if e == 0 && m == 0 {
        Some(sign)
    } else if m >= MANTISSA_TOP && m % 0x800 == 0 && 0x3C01 <= e && e <= 0x43FE {
        Some(sign + (e - 0x3C00) as u64 * 0x10_0000_0000_0000 + (m - MANTISSA_TOP) / 0x800)
    } else if m >= MANTISSA_TOP && 0x3C01 - 52 <= e && e <= 0x3C00 {
        let shift: u64 = (0x3C01 - e + 11) as u64;
        proof {
            vstd::bits::lemma_u64_shr_is_div(m, shift);
            vstd::arithmetic::power2::lemma2_to64();
            if shift > 12 {
                vstd::arithmetic::power2::lemma_pow2_strictly_increases(12, shift as nat);
            }
            vstd::arithmetic::div_mod::lemma_div_is_ordered_by_denominator(m as int, 0x1000, vstd::arithmetic::power2::pow2(shift as nat) as int);
            assert(m as int / 0x1000 < 0x10_0000_0000_0000);
            assert((m >> shift) < 0x10_0000_0000_0000);
        }
        Some(sign + (m >> shift))
    } else {
        None
    };
    assert(candidate == f64_candidate(*value));
    match candidate {
        Some(c) => {
            let w = F80::of_f64(c);
            if w == *value {
                Some(c)
            } else {
                proof {
                    assert forall|b: u64| #[trigger] widen_f64(b) != *value by {
                        lemma_f64_candidate_complete(b);
                    }
                }
                None
            }
        },
        None => {
            proof {
                assert forall|b: u64| #[trigger] widen_f64(b) != *value by {
                    lemma_f64_candidate_complete(b);
                }
            }
            None
        },
    }
}

} // verus!

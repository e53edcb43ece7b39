use vstd::prelude::*;

use crate::Error;

verus! {

/// Number of atoms in one whole unit: fixed-point values carry 18 decimal
/// digits after the point.
pub const DECIMAL_FRACTIONAL: u128 = 1_000_000_000_000_000_000;

/// `DECIMAL_FRACTIONAL * DECIMAL_FRACTIONAL`, the atom count of the square of
/// one whole unit. It fits u128, which is what makes `reverse_decimal` total
/// on nonzero inputs.
pub const DECIMAL_FRACTIONAL_SQUARED: u128 = 1_000_000_000_000_000_000_000_000_000_000_000_000;

pub const TWO_POW_64: u128 = 0x1_0000_0000_0000_0000;

pub const TWO_POW_127: u128 = 0x8000_0000_0000_0000_0000_0000_0000_0000;

/// The value a two-limb wide integer stands for: `hi * 2^128 + lo`.
pub open spec fn wide_value(hi: u128, lo: u128) -> int {
    hi * (u128::MAX as int + 1) + lo
}

proof fn lemma_pow2_values()
    ensures
        vstd::arithmetic::power2::pow2(0) == 1,
        vstd::arithmetic::power2::pow2(1) == 2,
        vstd::arithmetic::power2::pow2(64) == TWO_POW_64,
        vstd::arithmetic::power2::pow2(127) == TWO_POW_127,
        vstd::arithmetic::power2::pow2(128) == u128::MAX as int + 1,
{
    vstd::arithmetic::power2::lemma2_to64();
    vstd::arithmetic::power2::lemma2_to64_rest();
    vstd::arithmetic::power2::lemma_pow2_adds(64, 63);
    vstd::arithmetic::power2::lemma_pow2_adds(64, 64);
}

/// The full 256-bit product of two u128 values, split into 64-bit halves so
/// that no partial product overflows.
pub fn mul_wide(a: u128, b: u128) -> (r: (u128, u128))
    ensures
        wide_value(r.0, r.1) == a * b,
{
    let a1 = a / TWO_POW_64;
    let a0 = a % TWO_POW_64;
    let b1 = b / TWO_POW_64;
    let b0 = b % TWO_POW_64;
    proof {
        assert(a1 < TWO_POW_64 && b1 < TWO_POW_64) by (nonlinear_arith)
            requires
                a1 == a as int / TWO_POW_64 as int,
                b1 == b as int / TWO_POW_64 as int,
                a <= u128::MAX,
                b <= u128::MAX,
        ;
        vstd::arithmetic::mul::lemma_mul_upper_bound(
            a0 as int,
            TWO_POW_64 - 1,
            b0 as int,
            TWO_POW_64 - 1,
        );
        vstd::arithmetic::mul::lemma_mul_upper_bound(
            a0 as int,
            TWO_POW_64 - 1,
            b1 as int,
            TWO_POW_64 - 1,
        );
        vstd::arithmetic::mul::lemma_mul_upper_bound(
            a1 as int,
            TWO_POW_64 - 1,
            b0 as int,
            TWO_POW_64 - 1,
        );
        vstd::arithmetic::mul::lemma_mul_upper_bound(
            a1 as int,
            TWO_POW_64 - 1,
            b1 as int,
            TWO_POW_64 - 1,
        );
    }
    let p00 = a0 * b0;
    let p01 = a0 * b1;
    let p10 = a1 * b0;
    let p11 = a1 * b1;
    let l0 = p00 % TWO_POW_64;
    let c0 = p00 / TWO_POW_64;
    let p01_lo = p01 % TWO_POW_64;
    let p01_hi = p01 / TWO_POW_64;
    let p10_lo = p10 % TWO_POW_64;
    let p10_hi = p10 / TWO_POW_64;
    proof {
        assert(c0 <= TWO_POW_64 - 2 && p01_hi <= TWO_POW_64 - 2 && p10_hi <= TWO_POW_64 - 2)
            by (nonlinear_arith)
            requires
                p00 <= (TWO_POW_64 - 1) * (TWO_POW_64 - 1),
                p01 <= (TWO_POW_64 - 1) * (TWO_POW_64 - 1),
                p10 <= (TWO_POW_64 - 1) * (TWO_POW_64 - 1),
                c0 == p00 as int / TWO_POW_64 as int,
                p01_hi == p01 as int / TWO_POW_64 as int,
                p10_hi == p10 as int / TWO_POW_64 as int,
        ;
    }
    let m = c0 + p01_lo + p10_lo;
    let l1 = m % TWO_POW_64;
    let c1 = m / TWO_POW_64;
    proof {
        assert(c1 <= 2) by (nonlinear_arith)
            requires
                m <= 3 * (TWO_POW_64 as int) - 4,
                c1 == m as int / TWO_POW_64 as int,
        ;
    }
    let hi = c1 + p01_hi + p10_hi + p11;
    let lo = l1 * TWO_POW_64 + l0;
    proof {
        vstd::arithmetic::div_mod::lemma_fundamental_div_mod(a as int, TWO_POW_64 as int);
        vstd::arithmetic::div_mod::lemma_fundamental_div_mod(b as int, TWO_POW_64 as int);
        vstd::arithmetic::div_mod::lemma_fundamental_div_mod(p00 as int, TWO_POW_64 as int);
        vstd::arithmetic::div_mod::lemma_fundamental_div_mod(p01 as int, TWO_POW_64 as int);
        vstd::arithmetic::div_mod::lemma_fundamental_div_mod(p10 as int, TWO_POW_64 as int);
        vstd::arithmetic::div_mod::lemma_fundamental_div_mod(m as int, TWO_POW_64 as int);
        assert(hi * (u128::MAX as int + 1) + lo == a * b) by (nonlinear_arith)
            requires
                a == (TWO_POW_64 as int) * a1 + a0,
                b == (TWO_POW_64 as int) * b1 + b0,
                p00 == a0 * b0,
                p01 == a0 * b1,
                p10 == a1 * b0,
                p11 == a1 * b1,
                p00 == (TWO_POW_64 as int) * c0 + l0,
                p01 == (TWO_POW_64 as int) * p01_hi + p01_lo,
                p10 == (TWO_POW_64 as int) * p10_hi + p10_lo,
                m == c0 + p01_lo + p10_lo,
                m == (TWO_POW_64 as int) * c1 + l1,
                hi == c1 + p01_hi + p10_hi + p11,
                lo == l1 * (TWO_POW_64 as int) + l0,
                u128::MAX as int + 1 == (TWO_POW_64 as int) * (TWO_POW_64 as int),
        ;
    }
    (hi, lo)
}

/// One shift step of the long division: splitting off the top bit of the
/// unprocessed low limb.
proof fn lemma_shift_step(lo: u128, k: nat)
    requires
        k < 128,
    ensures
        ({
            let big = vstd::arithmetic::power2::pow2((128 - k) as nat) as int;
            let small = vstd::arithmetic::power2::pow2((127 - k) as nat) as int;
            let bit = (lo as int % big) / small;
            &&& big == 2 * small
            &&& 0 < small
            &&& 0 <= bit < 2
            &&& lo as int / small == 2 * (lo as int / big) + bit
            &&& (lo as int % big) % small == lo as int % small
        }),
{
    let big = vstd::arithmetic::power2::pow2((128 - k) as nat) as int;
    let small = vstd::arithmetic::power2::pow2((127 - k) as nat) as int;
    vstd::arithmetic::power2::lemma_pow2_pos((127 - k) as nat);
    vstd::arithmetic::power2::lemma_pow2_adds(1, (127 - k) as nat);
    vstd::arithmetic::power2::lemma2_to64();
    assert(big == 2 * small);
    let va = lo as int / big;
    let vr = lo as int % big;
    vstd::arithmetic::div_mod::lemma_fundamental_div_mod(lo as int, big);
    let bit = vr / small;
    let vr2 = vr % small;
    vstd::arithmetic::div_mod::lemma_fundamental_div_mod(vr, small);
    assert(0 <= bit < 2) by {
        if bit >= 2 {
            assert(vr == bit * small + vr2);
            assert(bit * small >= 2 * small) by (nonlinear_arith)
                requires
                    bit >= 2,
                    small > 0,
            ;
        }
    };
    // lo == (2 * va + bit) * small + vr2, with 0 <= vr2 < small
    assert(lo as int == (2 * va + bit) * small + vr2) by (nonlinear_arith)
        requires
            lo as int == big * va + vr,
            big == 2 * small,
            vr == small * bit + vr2,
    ;
    assert(small * (2 * va + bit) + vr2 == lo as int) by (nonlinear_arith)
        requires
            lo as int == (2 * va + bit) * small + vr2,
    ;
    vstd::arithmetic::div_mod::lemma_div_multiples_vanish_fancy(2 * va + bit, vr2, small);
    vstd::arithmetic::div_mod::lemma_fundamental_div_mod_converse_mod(
        lo as int,
        small,
        2 * va + bit,
        vr2,
    );
}

/// `floor((hi * 2^128 + lo) / d)`, by binary restoring long division. The
/// quotient fits u128 exactly when `hi < d`.
pub fn div_wide(hi: u128, lo: u128, d: u128) -> (q: u128)
    requires
        d != 0,
        hi < d,
    ensures
        q == wide_value(hi, lo) / (d as int),
{
    proof {
        lemma_pow2_values();
        vstd::arithmetic::div_mod::lemma_fundamental_div_mod_converse_div(
            lo as int,
            u128::MAX as int + 1,
            0,
            lo as int,
        );
        vstd::arithmetic::div_mod::lemma_small_mod(
            lo as nat,
            vstd::arithmetic::power2::pow2(128),
        );
    }
    let mut q: u128 = 0;
    let mut rem: u128 = hi;
    let mut rest: u128 = lo;
    let mut k: usize = 0;
    while k < 128
        invariant
            k <= 128,
            d != 0,
            rem < d,
            q < vstd::arithmetic::power2::pow2(k as nat),
            rest as int == (lo as int % (vstd::arithmetic::power2::pow2((128 - k) as nat) as int))
                * (vstd::arithmetic::power2::pow2(k as nat) as int),
            q * d + rem == hi * (vstd::arithmetic::power2::pow2(k as nat) as int) + lo as int
                / (vstd::arithmetic::power2::pow2((128 - k) as nat) as int),
        decreases 128 - k,
    {
        let ghost big = vstd::arithmetic::power2::pow2((128 - k) as nat) as int;
        let ghost small = vstd::arithmetic::power2::pow2((127 - k) as nat) as int;
        let ghost pk = vstd::arithmetic::power2::pow2(k as nat) as int;
        proof {
            lemma_pow2_values();
            lemma_shift_step(lo, k as nat);
            vstd::arithmetic::power2::lemma_pow2_adds((127 - k) as nat, k as nat);
            vstd::arithmetic::power2::lemma_pow2_adds(k as nat, 1);
            vstd::arithmetic::power2::lemma_pow2_pos(k as nat);
            if k < 127 {
                vstd::arithmetic::power2::lemma_pow2_strictly_increases(k as nat, 127);
            }
        }
        let bit = rest / TWO_POW_127;
        let rest_low = rest % TWO_POW_127;
        proof {
            let vr = lo as int % big;
            // rest == vr * 2^k, so its top bit is vr / small and the rest is
            // (vr % small) * 2^k == (lo % small) * 2^k.
            vstd::arithmetic::div_mod::lemma_div_multiples_vanish_quotient(pk, vr, small);
            assert(bit == vr / small);
            vstd::arithmetic::div_mod::lemma_breakdown(vr * pk, pk, small);
            vstd::arithmetic::div_mod::lemma_div_by_multiple(vr, pk);
            vstd::arithmetic::div_mod::lemma_mod_multiples_basic(vr, pk);
            assert(rest as int == vr * pk);
            assert(pk * small == TWO_POW_127 as int);
            assert((vr * pk) % (pk * small) == pk * ((vr * pk / pk) % small) + (vr * pk) % pk);
            assert(vr * pk / pk == vr);
            assert((vr * pk) % pk == 0);
            assert(rest_low as int == pk * (vr % small));
            assert(vr % small == lo as int % small);
            assert(rest_low as int == (lo as int % small) * pk);
        }
        let rest2 = rest_low * 2;
        let new_rem: u128;
        let new_q: u128;
        if rem >= TWO_POW_127 {
            // rem*2 + bit exceeds the limb; it is also certainly >= d.
            let t = rem - TWO_POW_127;
            let r2 = t * 2 + bit;
            proof {
                assert(r2 as int + (u128::MAX - d) + 1 == 2 * rem + bit - d);
                assert(2 * rem + bit - d < d);
            }
            new_rem = r2 + (u128::MAX - d) + 1;
            new_q = q * 2 + 1;
        } else {
            let r2 = rem * 2 + bit;
            if r2 >= d {
                new_rem = r2 - d;
                new_q = q * 2 + 1;
            } else {
                new_rem = r2;
                new_q = q * 2;
            }
        }
        proof {
            let bit_i = bit as int;
            assert(new_q * d + new_rem == 2 * (q * d + rem) + bit_i) by (nonlinear_arith)
                requires
                    new_q == 2 * q + (if new_rem == 2 * rem + bit_i - d {
                        1int
                    } else {
                        0int
                    }),
                    new_rem == 2 * rem + bit_i - d || new_rem == 2 * rem + bit_i,
                    new_rem != 2 * rem + bit_i - d || new_q == 2 * q + 1,
                    new_rem != 2 * rem + bit_i || new_q == 2 * q || d == 0,
            ;
        }
        let ghost q0 = q as int;
        let ghost rem0 = rem as int;
        rem = new_rem;
        q = new_q;
        rest = rest2;
        k = k + 1;
        proof {
            let pk1 = vstd::arithmetic::power2::pow2(k as nat) as int;
            assert(pk1 == 2 * pk);
            assert(vstd::arithmetic::power2::pow2((128 - k) as nat) as int == small);
            assert(rest as int == (lo as int % small) * pk1) by (nonlinear_arith)
                requires
                    rest as int == ((lo as int % small) * pk) * 2,
                    pk1 == 2 * pk,
            ;
            assert(q * d + rem == hi * pk1 + lo as int / small) by (nonlinear_arith)
                requires
                    q * d + rem == 2 * (q0 * d + rem0) + ((lo as int % (2 * small)) / small),
                    q0 * d + rem0 == hi * pk + lo as int / (2 * small),
                    lo as int / small == 2 * (lo as int / (2 * small)) + (lo as int % (2 * small))
                        / small,
                    pk1 == 2 * pk,
            ;
            assert(q < pk1) by (nonlinear_arith)
                requires
                    q <= 2 * q0 + 1,
                    q0 < pk,
                    pk1 == 2 * pk,
            ;
        }
    }
    proof {
        lemma_pow2_values();
        assert(lo as int / (vstd::arithmetic::power2::pow2(0) as int) == lo as int);
        assert(q * d + rem == wide_value(hi, lo));
        vstd::arithmetic::div_mod::lemma_fundamental_div_mod_converse_div(
            wide_value(hi, lo),
            d as int,
            q as int,
            rem as int,
        );
    }
    q
}

/// Whether the quotient of a wide value fits u128 is decided by comparing
/// its high limb with the divisor.
pub proof fn lemma_wide_div_bounds(hi: u128, lo: u128, d: u128)
    requires
        d != 0,
    ensures
        hi < d ==> wide_value(hi, lo) / (d as int) <= u128::MAX,
        hi >= d ==> wide_value(hi, lo) / (d as int) > u128::MAX,
{
    let base = u128::MAX as int + 1;
    if hi < d {
        assert(wide_value(hi, lo) <= d * base - 1) by (nonlinear_arith)
            requires
                wide_value(hi, lo) == hi * base + lo,
                hi <= d - 1,
                lo < base,
                base > 0,
        ;
        vstd::arithmetic::div_mod::lemma_div_is_ordered(
            wide_value(hi, lo),
            d * base - 1,
            d as int,
        );
        assert(d * base - 1 == (base - 1) * d + (d - 1)) by (nonlinear_arith);
        vstd::arithmetic::div_mod::lemma_fundamental_div_mod_converse_div(
            d * base - 1,
            d as int,
            base - 1,
            d - 1,
        );
    } else {
        assert(d * base <= wide_value(hi, lo)) by (nonlinear_arith)
            requires
                wide_value(hi, lo) == hi * base + lo,
                hi >= d,
                lo >= 0,
                base > 0,
        ;
        vstd::arithmetic::div_mod::lemma_div_is_ordered(
            d * base,
            wide_value(hi, lo),
            d as int,
        );
        vstd::arithmetic::div_mod::lemma_div_multiples_vanish(base, d as int);
    }
}

/// An unsigned fixed-point decimal with 18 fractional digits, stored as a
/// count of atoms (1 atom = 10^-18). Products and scaled quotients are
/// computed exactly over 256-bit intermediates, so intermediate products of
/// balances and rates never overflow; an operation fails with an `Error`
/// only when its exact truncated result does not fit the atom range, which
/// keeps cross-contract numeric agreement bit-for-bit.
#[derive(Clone, Copy, Debug, PartialEq, Eq, Structural)]
#[verifier::ext_equal]
pub struct Decimal {
    pub atoms: u128,
}

impl Decimal {
    pub fn zero() -> (r: Decimal)
        ensures
            r.atoms == 0,
    {
        Decimal { atoms: 0 }
    }

    pub fn one() -> (r: Decimal)
        ensures
            r.atoms == DECIMAL_FRACTIONAL,
    {
        Decimal { atoms: DECIMAL_FRACTIONAL }
    }

    pub fn is_zero(&self) -> (r: bool)
        ensures
            r == (self.atoms == 0),
    {
        self.atoms == 0
    }

    /// The exact value `numerator / denominator`, truncated to 18 fractional
    /// digits and computed over a wide intermediate. Fails with
    /// `DivisionByZero` on a zero denominator and with `ArithmeticError`
    /// only when the result itself does not fit.
    pub fn from_ratio(numerator: u128, denominator: u128) -> (r: Result<Decimal, Error>)
        ensures
            denominator == 0 ==> r == Err::<Decimal, Error>(Error::DivisionByZero),
            denominator != 0 && numerator * DECIMAL_FRACTIONAL / (denominator as int) > u128::MAX
                ==> r == Err::<Decimal, Error>(Error::ArithmeticError),
            denominator != 0 && numerator * DECIMAL_FRACTIONAL / (denominator as int) <= u128::MAX
                ==> (r matches Ok(d) && d.atoms == numerator * DECIMAL_FRACTIONAL / (
            denominator as int)),
    {
        if denominator == 0 {
            return Err(Error::DivisionByZero);
        }
        let wide = mul_wide(numerator, DECIMAL_FRACTIONAL);
        proof {
            lemma_wide_div_bounds(wide.0, wide.1, denominator);
        }
        if wide.0 >= denominator {
            return Err(Error::ArithmeticError);
        }
        Ok(Decimal { atoms: div_wide(wide.0, wide.1, denominator) })
    }

    /// The whole number `v`, as a decimal. Fails with `ArithmeticError` when
    /// `v * 10^18` does not fit.
    pub fn from_uint(v: u128) -> (r: Result<Decimal, Error>)
        ensures
            v * DECIMAL_FRACTIONAL <= u128::MAX ==> (r matches Ok(d) && d.atoms == v
                * DECIMAL_FRACTIONAL),
            v * DECIMAL_FRACTIONAL > u128::MAX ==> r == Err::<Decimal, Error>(
                Error::ArithmeticError,
            ),
    {
        match v.checked_mul(DECIMAL_FRACTIONAL) {
            Some(scaled) => Ok(Decimal { atoms: scaled }),
            None => Err(Error::ArithmeticError),
        }
    }

    pub fn checked_add(self, other: Decimal) -> (r: Result<Decimal, Error>)
        ensures
            self.atoms + other.atoms <= u128::MAX ==> (r matches Ok(d) && d.atoms == self.atoms
                + other.atoms),
            self.atoms + other.atoms > u128::MAX ==> r == Err::<Decimal, Error>(
                Error::ArithmeticError,
            ),
    {
        match self.atoms.checked_add(other.atoms) {
            Some(sum) => Ok(Decimal { atoms: sum }),
            None => Err(Error::ArithmeticError),
        }
    }

    pub fn checked_sub(self, other: Decimal) -> (r: Result<Decimal, Error>)
        ensures
            self.atoms >= other.atoms ==> (r matches Ok(d) && d.atoms == self.atoms - other.atoms),
            self.atoms < other.atoms ==> r == Err::<Decimal, Error>(Error::ArithmeticError),
    {
        match self.atoms.checked_sub(other.atoms) {
            Some(diff) => Ok(Decimal { atoms: diff }),
            None => Err(Error::ArithmeticError),
        }
    }

    /// The exact product, truncated to 18 fractional digits and computed
    /// over a wide intermediate. Fails only when the result does not fit.
    pub fn checked_mul(self, other: Decimal) -> (r: Result<Decimal, Error>)
        ensures
            self.atoms * other.atoms / (DECIMAL_FRACTIONAL as int) <= u128::MAX ==> (r matches Ok(
                d,
            ) && d.atoms == self.atoms * other.atoms / (DECIMAL_FRACTIONAL as int)),
            self.atoms * other.atoms / (DECIMAL_FRACTIONAL as int) > u128::MAX ==> r == Err::<
                Decimal,
                Error,
            >(Error::ArithmeticError),
    {
        let wide = mul_wide(self.atoms, other.atoms);
        proof {
            lemma_wide_div_bounds(wide.0, wide.1, DECIMAL_FRACTIONAL);
        }
        if wide.0 >= DECIMAL_FRACTIONAL {
            return Err(Error::ArithmeticError);
        }
        Ok(Decimal { atoms: div_wide(wide.0, wide.1, DECIMAL_FRACTIONAL) })
    }

    /// The exact quotient, truncated to 18 fractional digits and computed
    /// over a wide intermediate. Fails with `DivisionByZero` on a zero
    /// divisor and with `ArithmeticError` only when the result does not fit.
    pub fn checked_div(self, other: Decimal) -> (r: Result<Decimal, Error>)
        ensures
            other.atoms == 0 ==> r == Err::<Decimal, Error>(Error::DivisionByZero),
            other.atoms != 0 && self.atoms * DECIMAL_FRACTIONAL / (other.atoms as int) > u128::MAX
                ==> r == Err::<Decimal, Error>(Error::ArithmeticError),
            other.atoms != 0 && self.atoms * DECIMAL_FRACTIONAL / (other.atoms as int)
                <= u128::MAX ==> (r matches Ok(d) && d.atoms == self.atoms * DECIMAL_FRACTIONAL / (
            other.atoms as int)),
    {
        if other.atoms == 0 {
            return Err(Error::DivisionByZero);
        }
        let wide = mul_wide(self.atoms, DECIMAL_FRACTIONAL);
        proof {
            lemma_wide_div_bounds(wide.0, wide.1, other.atoms);
        }
        if wide.0 >= other.atoms {
            return Err(Error::ArithmeticError);
        }
        Ok(Decimal { atoms: div_wide(wide.0, wide.1, other.atoms) })
    }

    /// The exact quotient by a whole number, truncated. Never overflows.
    pub fn checked_div_uint(self, divisor: u128) -> (r: Result<Decimal, Error>)
        ensures
            divisor == 0 ==> r == Err::<Decimal, Error>(Error::DivisionByZero),
            divisor != 0 ==> (r matches Ok(d) && d.atoms == self.atoms / divisor),
    {
        if divisor == 0 {
            return Err(Error::DivisionByZero);
        }
        Ok(Decimal { atoms: self.atoms / divisor })
    }

    /// `amount * self`, truncated to a whole base-asset amount and computed
    /// over a wide intermediate. This is the conversion applied to token
    /// amounts; it fails only when the result does not fit.
    pub fn mul_uint(self, amount: u128) -> (r: Result<u128, Error>)
        ensures
            amount * self.atoms / (DECIMAL_FRACTIONAL as int) <= u128::MAX ==> (r matches Ok(v)
                && v == amount * self.atoms / (DECIMAL_FRACTIONAL as int)),
            amount * self.atoms / (DECIMAL_FRACTIONAL as int) > u128::MAX ==> r == Err::<
                u128,
                Error,
            >(Error::ArithmeticError),
    {
        let wide = mul_wide(amount, self.atoms);
        proof {
            lemma_wide_div_bounds(wide.0, wide.1, DECIMAL_FRACTIONAL);
        }
        if wide.0 >= DECIMAL_FRACTIONAL {
            return Err(Error::ArithmeticError);
        }
        Ok(div_wide(wide.0, wide.1, DECIMAL_FRACTIONAL))
    }
}

/// `1 / d`, truncated to 18 fractional digits. Fails only with
/// `DivisionByZero`: the scaled unit numerator always fits u128.
pub fn reverse_decimal(d: Decimal) -> (r: Result<Decimal, Error>)
    ensures
        d.atoms == 0 ==> r == Err::<Decimal, Error>(Error::DivisionByZero),
        d.atoms != 0 ==> (r matches Ok(q) && q.atoms == DECIMAL_FRACTIONAL_SQUARED / d.atoms),
{
    if d.atoms == 0 {
        return Err(Error::DivisionByZero);
    }
    Ok(Decimal { atoms: DECIMAL_FRACTIONAL_SQUARED / d.atoms })
}

/// `left - right`, as `Decimal::checked_sub`.
pub fn decimal_subtraction(left: Decimal, right: Decimal) -> (r: Result<Decimal, Error>)
    ensures
        left.atoms >= right.atoms ==> (r matches Ok(d) && d.atoms == left.atoms - right.atoms),
        left.atoms < right.atoms ==> r == Err::<Decimal, Error>(Error::ArithmeticError),
{
    left.checked_sub(right)
}

/// `left / right`, as `Decimal::checked_div`.
pub fn decimal_division(left: Decimal, right: Decimal) -> (r: Result<Decimal, Error>)
    ensures
        right.atoms == 0 ==> r == Err::<Decimal, Error>(Error::DivisionByZero),
        right.atoms != 0 && left.atoms * DECIMAL_FRACTIONAL / (right.atoms as int) > u128::MAX
            ==> r == Err::<Decimal, Error>(Error::ArithmeticError),
        right.atoms != 0 && left.atoms * DECIMAL_FRACTIONAL / (right.atoms as int) <= u128::MAX
            ==> (r matches Ok(d) && d.atoms == left.atoms * DECIMAL_FRACTIONAL / (
        right.atoms as int)),
{
    left.checked_div(right)
}

} // verus!

//! Counting the characters of the base-10 rendering of integers: one
//! digit count for every primitive integer type, for options of them, and
//! for fixed-point values given by mantissa and scale.

use vstd::prelude::*;

verus! {

use vstd::arithmetic::div_mod::lemma_fundamental_div_mod;
use vstd::arithmetic::power2::lemma2_to64;
use vstd::arithmetic::power2::lemma_pow2_adds;
use vstd::arithmetic::power2::pow2;

/// The number of base-10 digits of `n` (one digit for zero).
pub open spec fn spec_digits_nat(n: nat) -> nat
    decreases n,
{
    if n < 10 {
        1
    } else {
        1 + spec_digits_nat(n / 10)
    }
}

/// The `k`-th power of ten.
pub open spec fn pow10(k: nat) -> nat
    decreases k,
{
    if k == 0 {
        1
    } else {
        10 * pow10((k - 1) as nat)
    }
}

/// Ten to the `k` dominates two to the `3 k`.
proof fn lemma_pow10_ge_pow2(k: nat)
    ensures
        pow10(k) >= pow2(3 * k),
    decreases k,
{
    if k == 0 {
        lemma2_to64();
    } else {
        lemma_pow10_ge_pow2((k - 1) as nat);
        lemma_pow2_adds(3, 3 * ((k - 1) as nat));
        lemma2_to64();
        assert(3 * k == 3 + 3 * ((k - 1) as nat));
        assert(pow2(3 * k) == 8 * pow2(3 * ((k - 1) as nat)));
        assert(pow10(k) == 10 * pow10((k - 1) as nat));
    }
}

/// A number below ten to the `k` has at most `k` digits.
proof fn lemma_digits_le(n: nat, k: nat)
    requires
        n < pow10(k),
        k >= 1,
    ensures
        spec_digits_nat(n) <= k,
    decreases k,
{
    if n >= 10 {
        lemma_fundamental_div_mod(n as int, 10);
        assert(10 * (n as int / 10) <= n);
        assert(n / 10 < pow10((k - 1) as nat));
        lemma_digits_le(n / 10, (k - 1) as nat);
    }
}

/// Every `u128` has at most 43 digits.
proof fn lemma_digits_u128(n: u128)
    ensures
        spec_digits_nat(n as nat) <= 43,
{
    lemma_pow10_ge_pow2(43);
    lemma_pow2_adds(64, 64);
    lemma_pow2_adds(128, 1);
    lemma2_to64();
    assert(pow2(128) == 0x1_0000_0000_0000_0000 * 0x1_0000_0000_0000_0000);
    assert(n < pow2(128));
    assert(pow2(129) == 2 * pow2(128));
    assert(n < pow10(43));
    lemma_digits_le(n as nat, 43);
}

/// Counts the base-10 digits of a `u128`.
pub fn digit_count_u128(v: u128) -> (n: usize)
    ensures
        n == spec_digits_nat(v as nat),
        n <= 43,
{
    proof {
        lemma_digits_u128(v);
    }
    let mut count: usize = 1;
    let mut m = v;
    while m >= 10
        invariant
            spec_digits_nat(v as nat) == count - 1 + spec_digits_nat(m as nat),
            1 <= count,
            spec_digits_nat(v as nat) <= 43,
        decreases m,
    {
        m = m / 10;
        count = count + 1;
    }
    count
}

/// The absolute value of an `i128`, as a `u128` (which also holds the
/// magnitude of `i128::MIN`).
fn abs_u128(v: i128) -> (r: u128)
    ensures
        r == if v < 0 {
            -(v as int)
        } else {
            v as int
        },
{
    if v >= 0 {
        v as u128
    } else {
        // `-(v + 1)` always fits in `i128`, also for the minimum value.
        let pos = -(v + 1);
        (pos as u128) + 1
    }
}

/// A trait extending integer types, and options of them, with a count of
/// the characters of their base-10 rendering: one character per digit,
/// one more for the sign of a negative value, one for zero, and none at
/// all for `None`.
pub trait IntegerDigits {
    /// The number of characters of the base-10 rendering.
    spec fn spec_digit_count(&self) -> nat;

    /// Counts the characters of the base-10 rendering.
    fn digit_count(self) -> (n: usize)
        ensures
            n == self.spec_digit_count(),
    ;
}

impl IntegerDigits for u8 {
    open spec fn spec_digit_count(&self) -> nat {
        spec_digits_nat(*self as nat)
    }

    fn digit_count(self) -> (n: usize) {
        digit_count_u128(self as u128)
    }
}

impl IntegerDigits for u16 {
    open spec fn spec_digit_count(&self) -> nat {
        spec_digits_nat(*self as nat)
    }

    fn digit_count(self) -> (n: usize) {
        digit_count_u128(self as u128)
    }
}

impl IntegerDigits for u32 {
    open spec fn spec_digit_count(&self) -> nat {
        spec_digits_nat(*self as nat)
    }

    fn digit_count(self) -> (n: usize) {
        digit_count_u128(self as u128)
    }
}

impl IntegerDigits for u64 {
    open spec fn spec_digit_count(&self) -> nat {
        spec_digits_nat(*self as nat)
    }

    fn digit_count(self) -> (n: usize) {
        digit_count_u128(self as u128)
    }
}

impl IntegerDigits for u128 {
    open spec fn spec_digit_count(&self) -> nat {
        spec_digits_nat(*self as nat)
    }

    fn digit_count(self) -> (n: usize) {
        digit_count_u128(self as u128)
    }
}

impl IntegerDigits for usize {
    open spec fn spec_digit_count(&self) -> nat {
        spec_digits_nat(*self as nat)
    }

    fn digit_count(self) -> (n: usize) {
        digit_count_u128(self as u128)
    }
}

impl IntegerDigits for i8 {
    open spec fn spec_digit_count(&self) -> nat {
        if *self < 0 {
            1 + spec_digits_nat((-(*self as int)) as nat)
        } else {
            spec_digits_nat(*self as nat)
        }
    }

    fn digit_count(self) -> (n: usize) {
        let neg = self < 0;
        let d = digit_count_u128(abs_u128(self as i128));
        if neg {
            d + 1
        } else {
            d
        }
    }
}

impl IntegerDigits for i16 {
    open spec fn spec_digit_count(&self) -> nat {
        if *self < 0 {
            1 + spec_digits_nat((-(*self as int)) as nat)
        } else {
            spec_digits_nat(*self as nat)
        }
    }

    fn digit_count(self) -> (n: usize) {
        let neg = self < 0;
        let d = digit_count_u128(abs_u128(self as i128));
        if neg {
            d + 1
        } else {
            d
        }
    }
}

impl IntegerDigits for i32 {
    open spec fn spec_digit_count(&self) -> nat {
        if *self < 0 {
            1 + spec_digits_nat((-(*self as int)) as nat)
        } else {
            spec_digits_nat(*self as nat)
        }
    }

    fn digit_count(self) -> (n: usize) {
        let neg = self < 0;
        let d = digit_count_u128(abs_u128(self as i128));
        if neg {
            d + 1
        } else {
            d
        }
    }
}

impl IntegerDigits for i64 {
    open spec fn spec_digit_count(&self) -> nat {
        if *self < 0 {
            1 + spec_digits_nat((-(*self as int)) as nat)
        } else {
            spec_digits_nat(*self as nat)
        }
    }

    fn digit_count(self) -> (n: usize) {
        let neg = self < 0;
        let d = digit_count_u128(abs_u128(self as i128));
        if neg {
            d + 1
        } else {
            d
        }
    }
}

impl IntegerDigits for i128 {
    open spec fn spec_digit_count(&self) -> nat {
        if *self < 0 {
            1 + spec_digits_nat((-(*self as int)) as nat)
        } else {
            spec_digits_nat(*self as nat)
        }
    }

    fn digit_count(self) -> (n: usize) {
        let neg = self < 0;
        let d = digit_count_u128(abs_u128(self as i128));
        if neg {
            d + 1
        } else {
            d
        }
    }
}

impl IntegerDigits for isize {
    open spec fn spec_digit_count(&self) -> nat {
        if *self < 0 {
            1 + spec_digits_nat((-(*self as int)) as nat)
        } else {
            spec_digits_nat(*self as nat)
        }
    }

    fn digit_count(self) -> (n: usize) {
        let neg = self < 0;
        let d = digit_count_u128(abs_u128(self as i128));
        if neg {
            d + 1
        } else {
            d
        }
    }
}

impl<T: IntegerDigits> IntegerDigits for Option<T> {
    open spec fn spec_digit_count(&self) -> nat {
        match self {
            Some(v) => v.spec_digit_count(),
            None => 0,
        }
    }

    fn digit_count(self) -> (n: usize) {
        match self {
            Some(v) => v.digit_count(),
            None => 0,
        }
    }
}

/// Counts the characters of the base-10 rendering of any value with an
/// `IntegerDigits` implementation, standard integers and options of them
/// included.
pub fn digit_count<T: IntegerDigits>(n: T) -> (r: usize)
    ensures
        r == n.spec_digit_count(),
{
    n.digit_count()
}

/// The number of characters of a fixed-point value written from a
/// mantissa and a scale: the sign, the integral digits (at least one),
/// and, for a positive scale, the point and exactly `scale` fractional
/// digits.
pub open spec fn spec_decimal_digit_count(mantissa: int, scale: nat) -> nat {
    let abs = if mantissa < 0 {
        -mantissa
    } else {
        mantissa
    };
    let sign: nat = if mantissa < 0 {
        1nat
    } else {
        0nat
    };
    if scale == 0 {
        (if abs == 0 {
            1nat
        } else {
            spec_digits_nat(abs as nat)
        }) + sign
    } else {
        let md = if abs == 0 {
            1nat
        } else {
            spec_digits_nat(abs as nat)
        };
        let visual = if md >= scale + 1 {
            md
        } else {
            scale + 1
        };
        visual + 1 + sign
    }
}

/// Counts the characters of the fixed-point value `mantissa / 10^scale`
/// written with exactly `scale` digits after the point: for instance
/// mantissa 12345 at scale 2 reads `123.45` and counts 6. The scale is
/// capped at 28, as in the 96-bit decimal representation this models.
pub fn decimal_digit_count(mantissa: i128, scale: u32) -> (n: usize)
    requires
        scale <= 28,
    ensures
        n == spec_decimal_digit_count(mantissa as int, scale as nat),
{
    let scale_us = scale as usize;
    let abs = abs_u128(mantissa);
    let sign_len: usize = if mantissa < 0 {
        1
    } else {
        0
    };
    if scale_us == 0 {
        let d: usize = if abs == 0 {
            1
        } else {
            digit_count_u128(abs)
        };
        d + sign_len
    } else {
        let md: usize = if abs == 0 {
            1
        } else {
            digit_count_u128(abs)
        };
        let visual: usize = if md >= scale_us + 1 {
            md
        } else {
            scale_us + 1
        };
        visual + 1 + sign_len
    }
}

} // verus!

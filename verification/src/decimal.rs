//! Fixed-point decimal numbers.
//!
//! Every quantity of a document (pixels, multipliers, opacities, colour
//! channels) is a [`Decimal`]: a signed count of millionths. Sums that leave
//! the representable range stay at the nearest bound.
use crate::text::{fraction_text, nat_text, push_char, push_fraction, push_nat};
use vstd::prelude::*;

verus! {

/// The number of millionths in one.
pub const MICROS_PER_UNIT: i64 = 1_000_000;

/// A signed fixed-point number with six fractional digits.
#[derive(Clone, Copy, Debug, PartialEq, Eq, Hash, Structural)]
pub struct Decimal {
    /// The value, in millionths.
    pub micros: i64,
}

/// The nearest representable count of millionths to `v`.
pub open spec fn clamp_micros(v: int) -> int {
    if v > i64::MAX {
        i64::MAX as int
    } else if v < i64::MIN {
        i64::MIN as int
    } else {
        v
    }
}

/// `v / 2`, rounded towards zero.
pub open spec fn half_towards_zero(v: int) -> int {
    if v >= 0 {
        v / 2
    } else {
        -((-v) / 2)
    }
}

/// The size of `v`, whatever its sign.
pub open spec fn magnitude(v: int) -> nat {
    if v < 0 {
        (-v) as nat
    } else {
        v as nat
    }
}

/// A count of millionths written as a decimal number: a minus sign where it
/// is negative, the whole part, and, where there is a fraction, a point and
/// the digits of the fraction without trailing zeros.
pub open spec fn decimal_text(micros: int) -> Seq<char> {
    let size = magnitude(micros);
    let sign = if micros < 0 {
        seq!['-']
    } else {
        Seq::<char>::empty()
    };
    let fraction = if size % 1_000_000 == 0 {
        Seq::<char>::empty()
    } else {
        seq!['.'] + fraction_text(size % 1_000_000, 100_000)
    };
    sign + nat_text(size / 1_000_000) + fraction
}

impl Decimal {
    /// Zero.
    pub fn zero() -> (r: Decimal)
        ensures
            r.micros == 0,
    {
        Decimal { micros: 0 }
    }

    /// One.
    pub fn one() -> (r: Decimal)
        ensures
            r.micros == MICROS_PER_UNIT,
    {
        Decimal { micros: MICROS_PER_UNIT }
    }

    /// The decimal of a count of millionths.
    pub fn from_micros(micros: i64) -> (r: Decimal)
        ensures
            r.micros == micros,
    {
        Decimal { micros }
    }

    /// The decimal of a whole number.
    pub fn from_int(whole: i32) -> (r: Decimal)
        ensures
            r.micros == whole * MICROS_PER_UNIT,
    {
        Decimal { micros: (whole as i64) * MICROS_PER_UNIT }
    }

    /// Whether the decimal is zero.
    pub fn is_zero(self) -> (r: bool)
        ensures
            r == (self.micros == 0),
    {
        self.micros == 0
    }

    /// Whether the decimal is one.
    pub fn is_one(self) -> (r: bool)
        ensures
            r == (self.micros == MICROS_PER_UNIT),
    {
        self.micros == MICROS_PER_UNIT
    }

    /// The sum, kept inside the representable range.
    pub fn add(self, other: Decimal) -> (r: Decimal)
        ensures
            r.micros == clamp_micros(self.micros + other.micros),
    {
        let wide: i128 = self.micros as i128 + other.micros as i128;
        Decimal { micros: narrow(wide) }
    }

    /// The difference, kept inside the representable range.
    pub fn sub(self, other: Decimal) -> (r: Decimal)
        ensures
            r.micros == clamp_micros(self.micros - other.micros),
    {
        let wide: i128 = self.micros as i128 - other.micros as i128;
        Decimal { micros: narrow(wide) }
    }

    /// The negation, kept inside the representable range.
    pub fn neg(self) -> (r: Decimal)
        ensures
            r.micros == clamp_micros(-self.micros),
    {
        let wide: i128 = -(self.micros as i128);
        Decimal { micros: narrow(wide) }
    }

    /// Adds the decimal number at the end of `s`.
    pub fn write_to(self, s: &mut String)
        ensures
            final(s)@ == old(s)@ + decimal_text(self.micros as int),
    {
        let size: u64 = if self.micros < 0 {
            (-(self.micros as i128)) as u64
        } else {
            self.micros as u64
        };
        if self.micros < 0 {
            push_char(s, '-');
        }
        push_nat(s, size / 1_000_000);
        if size % 1_000_000 != 0 {
            push_char(s, '.');
            push_fraction(s, size % 1_000_000, 100_000);
        }
        proof {
            assert(s@ =~= old(s)@ + decimal_text(self.micros as int));
        }
    }

    /// The decimal number as text.
    pub fn to_text(self) -> (r: String)
        ensures
            r@ == decimal_text(self.micros as int),
    {
        let mut s = String::new();
        self.write_to(&mut s);
        s
    }

    /// Half of the value, rounded towards zero.
    pub fn half(self) -> (r: Decimal)
        ensures
            r.micros == half_towards_zero(self.micros as int),
    {
        Decimal { micros: self.micros / 2 }
    }
}

fn narrow(wide: i128) -> (r: i64)
    ensures
        r == clamp_micros(wide as int),
{
    if wide > i64::MAX as i128 {
        i64::MAX
    } else if wide < i64::MIN as i128 {
        i64::MIN
    } else {
        wide as i64
    }
}

} // verus!

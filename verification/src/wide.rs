//! Unsigned integers of 256 bits, for the sums and products of the scorer
//! that outgrow 128 bits.

use vstd::prelude::*;

verus! {

/// An unsigned integer of 256 bits: `hi * 2^128 + lo`.
#[derive(Debug, Clone, Copy)]
pub struct Wide {
    /// The high 128 bits.
    pub hi: u128,
    /// The low 128 bits.
    pub lo: u128,
}

impl View for Wide {
    type V = int;

    open spec fn view(&self) -> int {
        self.hi * 0x1_0000_0000_0000_0000_0000_0000_0000_0000int + self.lo
    }
}

impl Wide {
    /// The number `value`.
    pub(crate) fn from_u128(value: u128) -> (r: Wide)
        ensures
            r@ == value,
    {
        Wide { hi: 0, lo: value }
    }

    /// `self + term`.
    pub(crate) fn add_u128(self, term: u128) -> (r: Wide)
        requires
            self.hi < u128::MAX,
        ensures
            r@ == self@ + term,
    {
        if term <= u128::MAX - self.lo {
            Wide { hi: self.hi, lo: self.lo + term }
        } else {
            Wide { hi: self.hi + 1, lo: term - (u128::MAX - self.lo) - 1 }
        }
    }

    /// Whether `self <= other`.
    pub(crate) fn le(&self, other: &Wide) -> (r: bool)
        ensures
            r == (self@ <= other@),
    {
        self.hi < other.hi || (self.hi == other.hi && self.lo <= other.lo)
    }

    /// `self - other`, where `other` is not the larger.
    pub(crate) fn sub(self, other: Wide) -> (r: Wide)
        requires
            other@ <= self@,
        ensures
            r@ == self@ - other@,
    {
        if self.lo >= other.lo {
            Wide { hi: self.hi - other.hi, lo: self.lo - other.lo }
        } else {
            Wide { hi: self.hi - other.hi - 1, lo: (u128::MAX - other.lo) + self.lo + 1 }
        }
    }

    /// `self + other`.
    pub(crate) fn add(self, other: Wide) -> (r: Wide)
        requires
            self.hi + other.hi < u128::MAX,
        ensures
            r@ == self@ + other@,
    {
        let low: Wide = Wide { hi: self.hi + other.hi, lo: self.lo };
        low.add_u128(other.lo)
    }

    /// `self + term * 2^64`.
    pub(crate) fn add_shifted(self, term: u128) -> (r: Wide)
        requires
            self.hi + term / 0x1_0000_0000_0000_0000 < u128::MAX,
        ensures
            r@ == self@ + term * 0x1_0000_0000_0000_0000int,
    {
        let high: u128 = term / 0x1_0000_0000_0000_0000;
        let low: u128 = term % 0x1_0000_0000_0000_0000;
        let moved: Wide = Wide { hi: self.hi + high, lo: self.lo };
        moved.add_u128(low * 0x1_0000_0000_0000_0000)
    }

    /// `x * y`.
    pub(crate) fn product(x: u128, y: u128) -> (r: Wide)
        ensures
            r@ == x * y,
    {
        let x_high: u128 = x / 0x1_0000_0000_0000_0000;
        let x_low: u128 = x % 0x1_0000_0000_0000_0000;
        let y_high: u128 = y / 0x1_0000_0000_0000_0000;
        let y_low: u128 = y % 0x1_0000_0000_0000_0000;
        proof {
            lemma_limb_product(x_high as int, y_high as int);
            lemma_limb_product(x_high as int, y_low as int);
            lemma_limb_product(x_low as int, y_high as int);
            lemma_limb_product(x_low as int, y_low as int);
            assert(x * y == (x_high * y_high) * 0x1_0000_0000_0000_0000_0000_0000_0000_0000int + (
            x_high * y_low) * 0x1_0000_0000_0000_0000int + (x_low * y_high)
                * 0x1_0000_0000_0000_0000int + x_low * y_low) by (nonlinear_arith)
                requires
                    x == x_high * 0x1_0000_0000_0000_0000int + x_low,
                    y == y_high * 0x1_0000_0000_0000_0000int + y_low,
            ;
        }
        let ends: Wide = Wide { hi: x_high * y_high, lo: x_low * y_low };
        ends.add_shifted(x_high * y_low).add_shifted(x_low * y_high)
    }

    /// `self * factor`; none where the product has more than 256 bits.
    pub(crate) fn times(self, factor: u128) -> (r: Option<Wide>)
        ensures
            r matches Some(product) ==> product@ == self@ * factor,
            r is None ==> self@ * factor
                >= 0x1_0000_0000_0000_0000_0000_0000_0000_0000_0000_0000_0000_0000_0000_0000_0000_0000int,
    {
        let low: Wide = Wide::product(self.lo, factor);
        proof {
            assert(self@ * factor == (self.hi * factor) * 0x1_0000_0000_0000_0000_0000_0000_0000_0000int
                + self.lo * factor) by (nonlinear_arith)
                requires
                    self@ == self.hi * 0x1_0000_0000_0000_0000_0000_0000_0000_0000int + self.lo,
            ;
            assert(self.hi * factor >= 0 && self.lo * factor >= 0) by (nonlinear_arith)
                requires
                    self.hi >= 0,
                    self.lo >= 0,
                    factor >= 0,
            ;
        }
        match self.hi.checked_mul(factor) {
            Some(high) => match high.checked_add(low.hi) {
                Some(hi) => Some(Wide { hi, lo: low.lo }),
                None => None,
            },
            None => None,
        }
    }
}

/// The product of two numbers below `2^64` is at most `(2^64 - 1)^2`.
proof fn lemma_limb_product(a: int, b: int)
    requires
        0 <= a < 0x1_0000_0000_0000_0000,
        0 <= b < 0x1_0000_0000_0000_0000,
    ensures
        0 <= a * b <= 0xffff_ffff_ffff_fffe_0000_0000_0000_0001,
{
    assert(0 <= a * b <= 0xffff_ffff_ffff_ffff * 0xffff_ffff_ffff_ffff) by (nonlinear_arith)
        requires
            0 <= a <= 0xffff_ffff_ffff_ffff,
            0 <= b <= 0xffff_ffff_ffff_ffff,
    ;
}

} // verus!

//! The two statements as algebraic intermediate representations: the
//! parameters of each, and the width of its trace.

use vstd::prelude::*;
use crate::biometric::prefix_element;
use crate::biometric::prefix_field;
use crate::field::BabyBearField;
use crate::field::reduce;

verus! {

/// The threshold statement.
#[derive(Debug, Clone, Copy)]
pub struct RepIDAir {
    /// The number of score columns.
    pub num_categories: usize,
    /// The threshold.
    pub threshold: BabyBearField,
    /// The time window of the score calculation.
    pub time_window: BabyBearField,
    /// The decay per day in basis points.
    pub decay_rate: BabyBearField,
    /// The bonus factor in thousandths.
    pub multiplicative_factor: BabyBearField,
}

impl RepIDAir {
    /// The bonus factor in thousandths: a tenth of the basis points, rounded
    /// down, not below zero and not above `u32::MAX`.
    pub open spec fn thousandths(multiplicative_factor: i64) -> int {
        if multiplicative_factor <= 0 {
            0
        } else if multiplicative_factor as int / 10 > u32::MAX {
            u32::MAX as int
        } else {
            multiplicative_factor as int / 10
        }
    }

    /// The statement with the given parameters; the bonus factor is given in
    /// basis points and kept in thousandths.
    pub fn new(
        num_categories: usize,
        threshold: u32,
        time_window: u64,
        decay_rate: u16,
        multiplicative_factor: i64,
    ) -> (air: Self)
        ensures
            air.num_categories == num_categories,
            air.threshold == reduce(threshold as int),
            air.time_window == reduce(time_window as int),
            air.decay_rate == reduce(decay_rate as int),
            air.multiplicative_factor == reduce(Self::thousandths(multiplicative_factor)),
    {
        let scaled: u32 = if multiplicative_factor <= 0 {
            0
        } else if multiplicative_factor / 10 > u32::MAX as i64 {
            u32::MAX
        } else {
            (multiplicative_factor / 10) as u32
        };
        RepIDAir {
            num_categories,
            threshold: BabyBearField::from_u32(threshold),
            time_window: BabyBearField::new(time_window),
            decay_rate: BabyBearField::from_u32(decay_rate as u32),
            multiplicative_factor: BabyBearField::from_u32(scaled),
        }
    }

    /// The width of the trace: threshold, time window, timestamp, one column
    /// for each category, final score, threshold bit, validity flag.
    pub open spec fn spec_width(&self) -> int {
        self.num_categories + 6
    }

    /// The width of the trace; none where it does not fit the machine.
    pub fn width(&self) -> (w: Option<usize>)
        ensures
            w matches Some(width) ==> width == self.spec_width(),
            w is None <==> self.spec_width() > usize::MAX,
    {
        self.num_categories.checked_add(6)
    }
}

/// The biometric statement.
#[derive(Debug, Clone, Copy)]
pub struct BiometricAIR {
    /// The number of authentication factors.
    pub num_factors: usize,
    /// The challenge that every row must carry.
    pub webauthn_challenge: BabyBearField,
}

impl BiometricAIR {
    /// The statement for `num_factors` factors and the challenge whose first
    /// eight bytes, read little-endian, give the challenge element.
    pub fn new(num_factors: usize, webauthn_challenge: [u8; 32]) -> (air: Self)
        ensures
            air.num_factors == num_factors,
            air.webauthn_challenge == prefix_element(webauthn_challenge@),
    {
        BiometricAIR { num_factors, webauthn_challenge: prefix_field(&webauthn_challenge) }
    }

    /// The width of the trace: challenge, biometric hash, one column for
    /// each factor, the all-verified column, validity flag.
    pub open spec fn spec_width(&self) -> int {
        self.num_factors + 4
    }

    /// The width of the trace; none where it does not fit the machine.
    pub fn width(&self) -> (w: Option<usize>)
        ensures
            w matches Some(width) ==> width == self.spec_width(),
            w is None <==> self.spec_width() > usize::MAX,
    {
        self.num_factors.checked_add(4)
    }
}

} // verus!

//! The records that cross the library's boundary: categories, requests,
//! results, proof metadata and errors.

use vstd::prelude::*;
use vstd::std_specs::cmp::PartialEqSpecImpl;
use crate::field::BabyBearField;

verus! {

/// One whole unit in basis points: a weight or factor of `10_000` means `1.0`.
pub const BASIS_POINTS: u32 = 10_000;

/// The number of seconds in a day, the unit of time over which decay is rated.
pub const SECONDS_PER_DAY: u64 = 86_400;

/// Basis points times seconds per day: what a rate in basis points a day,
/// multiplied by a time in seconds, is divided by.
pub const DECAY_DENOMINATOR: u64 = 864_000_000;

/// Basis points times the decay denominator: the number of parts into which
/// decay divides one score point.
pub const DECAY_SCALE: u64 = 8_640_000_000_000;

/// The decay denominator is basis points times seconds per day, and the
/// decay scale is basis points times the decay denominator.
pub proof fn lemma_decay_constants()
    ensures
        DECAY_DENOMINATOR == BASIS_POINTS * SECONDS_PER_DAY,
        DECAY_SCALE == BASIS_POINTS * DECAY_DENOMINATOR,
{
    assert(10_000 * 86_400 == 864_000_000int);
    assert(10_000 * 864_000_000 == 8_640_000_000_000int);
}

/// A reputation scoring category.
#[derive(Debug, Hash)]
pub enum RepIDCategory {
    /// Governance participation and voting.
    Governance,
    /// Community contributions and social proof.
    Community,
    /// Technical contributions and development.
    Technical,
    /// Faith-tech specific contributions.
    FaithTech,
    /// DeFi protocol interactions.
    DeFi,
    /// An application-defined category, identified by its label.
    Custom(String),
}

/// What identifies a category: its tag, and for a custom one its label.
pub enum CategoryId {
    Governance,
    Community,
    Technical,
    FaithTech,
    DeFi,
    Custom(Seq<char>),
}

impl View for RepIDCategory {
    type V = CategoryId;

    open spec fn view(&self) -> CategoryId {
        match self {
            RepIDCategory::Governance => CategoryId::Governance,
            RepIDCategory::Community => CategoryId::Community,
            RepIDCategory::Technical => CategoryId::Technical,
            RepIDCategory::FaithTech => CategoryId::FaithTech,
            RepIDCategory::DeFi => CategoryId::DeFi,
            RepIDCategory::Custom(label) => CategoryId::Custom(label@),
        }
    }
}

impl Clone for RepIDCategory {
    fn clone(&self) -> (r: Self)
        ensures
            r == *self,
    {
        match self {
            RepIDCategory::Governance => RepIDCategory::Governance,
            RepIDCategory::Community => RepIDCategory::Community,
            RepIDCategory::Technical => RepIDCategory::Technical,
            RepIDCategory::FaithTech => RepIDCategory::FaithTech,
            RepIDCategory::DeFi => RepIDCategory::DeFi,
            RepIDCategory::Custom(label) => RepIDCategory::Custom(label.clone()),
        }
    }
}

impl PartialEq for RepIDCategory {
    fn eq(&self, other: &Self) -> (r: bool) {
        match self {
            RepIDCategory::Governance => matches!(other, RepIDCategory::Governance),
            RepIDCategory::Community => matches!(other, RepIDCategory::Community),
            RepIDCategory::Technical => matches!(other, RepIDCategory::Technical),
            RepIDCategory::FaithTech => matches!(other, RepIDCategory::FaithTech),
            RepIDCategory::DeFi => matches!(other, RepIDCategory::DeFi),
            RepIDCategory::Custom(a) => match other {
                RepIDCategory::Custom(b) => *a == *b,
                _ => false,
            },
        }
    }
}

impl PartialEqSpecImpl for RepIDCategory {
    open spec fn obeys_eq_spec() -> bool {
        true
    }

    open spec fn eq_spec(&self, other: &Self) -> bool {
        self@ == other@
    }
}

impl Eq for RepIDCategory {

}

/// Parameters of the time-based decay of a score.
#[derive(Debug, Clone, Copy)]
pub struct DecayParameters {
    /// The decay per day in basis points of the score (`100` is 1% a day).
    pub base_decay_rate: u16,
    /// The bonus per active category, in basis points of one score point
    /// (`12_000` adds 1.2 points for each active category; one below zero
    /// takes points away).
    pub multiplicative_factor: i64,
    /// The score below which decay does not push.
    pub min_threshold: u32,
}

/// A request to show that a score meets a threshold.
#[derive(Debug, Clone)]
pub struct ThresholdVerificationRequest {
    /// The minimum score required.
    pub threshold: u32,
    /// The categories whose scores count towards the threshold.
    pub categories: Vec<RepIDCategory>,
    /// The time window of the score calculation, in seconds.
    pub time_window: u64,
    /// Decay parameters, if decay applies.
    pub decay_params: Option<DecayParameters>,
}

/// Facts about a generated proof that are not part of the statement.
#[derive(Debug, Clone)]
pub struct ProofMetadata {
    /// Which statement was proved.
    pub operation_type: String,
    /// When the proof was generated, in seconds since the epoch.
    pub timestamp: u64,
    /// A non-cryptographic identifier of the wallet.
    pub wallet_hash: String,
    /// The size of the encoded proof in bytes.
    pub proof_size: usize,
    /// How long proving took, in milliseconds.
    pub generation_time_ms: u64,
}

/// An encoded proof with its public inputs and metadata.
#[derive(Debug, Clone)]
pub struct RepIDProof {
    /// The encoded STARK proof.
    pub proof_data: Vec<u8>,
    /// The public inputs of the statement.
    pub public_inputs: Vec<BabyBearField>,
    /// Facts about the proof.
    pub metadata: ProofMetadata,
}

/// How a threshold verification was parameterised.
#[derive(Debug, Clone)]
pub struct VerificationMetadata {
    /// The categories that counted.
    pub categories_verified: Vec<RepIDCategory>,
    /// The threshold that was used.
    pub threshold_used: u32,
    /// The time window that was applied.
    pub time_window_applied: u64,
    /// Whether decay parameters were given.
    pub decay_applied: bool,
}

/// The outcome of a threshold verification.
#[derive(Debug, Clone)]
pub struct ThresholdVerificationResult {
    /// Whether the counted scores reach the threshold.
    pub meets_threshold: bool,
    /// The proof of the statement.
    pub proof: RepIDProof,
    /// How the verification was parameterised.
    pub metadata: VerificationMetadata,
}

/// What an on-chain verifier contract is handed.
#[derive(Debug, Clone)]
pub struct SolidityVerificationData {
    /// A non-cryptographic identifier of the proof, `0x` and 32 hex digits.
    pub proof_hash: String,
    /// Each public input as `0x` and 16 hex digits.
    pub public_inputs: Vec<String>,
    /// Which statement was proved.
    pub proof_type: String,
    /// When the proof was generated.
    pub timestamp: u64,
    /// The size of the encoded proof in bytes.
    pub proof_size: usize,
}

/// How many queries and how much blowup a proof uses.
#[derive(Debug, Clone, Copy, PartialEq, Eq, Structural)]
pub enum SecurityLevel {
    /// 40 queries, blowup 4.
    Fast,
    /// 80 queries, blowup 8.
    Standard,
    /// 120 queries, blowup 16.
    High,
}

impl SecurityLevel {
    /// The number of queries of a proof at this level.
    pub open spec fn spec_num_queries(self) -> usize {
        match self {
            SecurityLevel::Fast => 40,
            SecurityLevel::Standard => 80,
            SecurityLevel::High => 120,
        }
    }

    /// The blowup factor of the low-degree extension at this level.
    pub open spec fn spec_blowup_factor(self) -> usize {
        match self {
            SecurityLevel::Fast => 4,
            SecurityLevel::Standard => 8,
            SecurityLevel::High => 16,
        }
    }

    /// The pair `(num_queries, blowup_factor)` of this level.
    pub fn parameters(self) -> (r: (usize, usize))
        ensures
            r == (self.spec_num_queries(), self.spec_blowup_factor()),
    {
        match self {
            SecurityLevel::Fast => (40, 4),
            SecurityLevel::Standard => (80, 8),
            SecurityLevel::High => (120, 16),
        }
    }
}

/// What can go wrong in proving and verifying.
#[derive(Debug)]
pub enum ZKPError {
    /// Constraint construction failed.
    CircuitError(String),
    /// Proving failed.
    ProofGenerationError(String),
    /// Reserved for failures of opening checks.
    VerificationError(String),
    /// A parameter is out of its documented range.
    InvalidInput(String),
    /// The bytes are not an encoded proof.
    SerializationError(String),
}

impl ZKPError {
    /// The detail that the error carries.
    pub open spec fn detail(self) -> Seq<char> {
        match self {
            ZKPError::CircuitError(s) => s@,
            ZKPError::ProofGenerationError(s) => s@,
            ZKPError::VerificationError(s) => s@,
            ZKPError::InvalidInput(s) => s@,
            ZKPError::SerializationError(s) => s@,
        }
    }

    /// The heading under which each kind of error is reported.
    pub open spec fn spec_heading(self) -> Seq<char> {
        match self {
            ZKPError::CircuitError(_) => "Circuit execution failed: "@,
            ZKPError::ProofGenerationError(_) => "Proof generation failed: "@,
            ZKPError::VerificationError(_) => "Proof verification failed: "@,
            ZKPError::InvalidInput(_) => "Invalid input parameters: "@,
            ZKPError::SerializationError(_) => "Serialization error: "@,
        }
    }

    /// The human-readable message: the heading of the kind, then the detail.
    pub fn message(&self) -> (r: String)
        ensures
            r@ == self.spec_heading() + self.detail(),
    {
        match self {
            ZKPError::CircuitError(s) => "Circuit execution failed: ".to_owned().concat(
                s.as_str(),
            ),
            ZKPError::ProofGenerationError(s) => "Proof generation failed: ".to_owned().concat(
                s.as_str(),
            ),
            ZKPError::VerificationError(s) => "Proof verification failed: ".to_owned().concat(
                s.as_str(),
            ),
            ZKPError::InvalidInput(s) => "Invalid input parameters: ".to_owned().concat(
                s.as_str(),
            ),
            ZKPError::SerializationError(s) => "Serialization error: ".to_owned().concat(
                s.as_str(),
            ),
        }
    }
}

} // verus!

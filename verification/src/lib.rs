//! Proofs that private reputation scores meet a public threshold, and that a
//! four-factor biometric authentication was completed, in the shape of a
//! zk-STARK over the BabyBear field.
//!
//! The library is verified with Verus. Its parts, leaves first:
//!
//! - `field`, `fermat`: the prime field and Fermat's little theorem for it;
//! - `encoding`, `hex`, `hash`: bytes, hexadecimal text, and the digests and
//!   the generator that come from other crates;
//! - `trace`, `threshold`, `biometric`, `air`: the execution trace and the
//!   two statements;
//! - `commitment`, `extension`, `fri`, `query`: the parts of a proof;
//! - `stark_proof`, `codec`: the proof and its byte layout;
//! - `stark_prover`, `stark_verifier`, `system`: prover, verifier and the
//!   two together;
//! - `wide`, `scoring`: unsigned integers of 256 bits, and the hierarchical
//!   scorer that sums in them;
//! - `laws`, `codec_laws`, `scoring_laws`, `scoring_bounds`: what holds of
//!   all of these.

pub mod encoding;
pub mod field;
pub mod fermat;
pub mod types;
pub mod trace;
pub mod hash;
pub mod hex;
pub mod stark_proof;
pub mod codec;
pub mod codec_laws;
pub mod commitment;
pub mod extension;
pub mod fri;
pub mod query;
pub mod threshold;
pub mod biometric;
pub mod air;
pub mod stark_prover;
pub mod stark_verifier;
pub mod laws;
pub mod wide;
pub mod scoring;
pub mod scoring_bounds;
pub mod scoring_laws;
pub mod system;

pub use air::BiometricAIR;
pub use air::RepIDAir;
pub use field::BabyBearField;
pub use field::BabyBearField as F;
pub use scoring::FuzzyRule;
pub use scoring::HierarchicalScorer;
pub use scoring::ScoreRange;
pub use scoring::ScoreResult;
pub use stark_proof::FriProof;
pub use stark_proof::QueryResponse;
pub use stark_proof::StarkProof;
pub use stark_prover::CustomStarkProver;
pub use stark_verifier::CustomStarkVerifier;
pub use system::RepIDZKPSystem;
pub use trace::ExecutionTrace;
pub use types::DecayParameters;
pub use types::ProofMetadata;
pub use types::RepIDCategory;
pub use types::RepIDProof;
pub use types::SecurityLevel;
pub use types::SolidityVerificationData;
pub use types::ThresholdVerificationRequest;
pub use types::ThresholdVerificationResult;
pub use types::VerificationMetadata;
pub use types::ZKPError;

use zkp_circuits::codec::deserialize_proof;
use zkp_circuits::codec::serialize_proof;
use zkp_circuits::hex::hex_text;
use zkp_circuits::hex::prefixed_hex_text;
use zkp_circuits::hex::prefixed_hex_u64;
use zkp_circuits::system::copy_categories;
use zkp_circuits::system::is_listed;
use zkp_circuits::system::sum_counted;
use zkp_circuits::BabyBearField;
use zkp_circuits::BiometricAIR;
use zkp_circuits::DecayParameters;
use zkp_circuits::ProofMetadata;
use zkp_circuits::RepIDAir;
use zkp_circuits::RepIDCategory;
use zkp_circuits::RepIDProof;
use zkp_circuits::RepIDZKPSystem;
use zkp_circuits::SecurityLevel;
use zkp_circuits::ThresholdVerificationRequest;
use zkp_circuits::ZKPError;

const NOW: u64 = 1_700_000_000;

fn request(threshold: u32) -> ThresholdVerificationRequest {
    ThresholdVerificationRequest {
        threshold,
        categories: vec![RepIDCategory::Technical, RepIDCategory::Governance],
        time_window: 86400,
        decay_params: None,
    }
}

fn user_scores() -> Vec<(RepIDCategory, u32)> {
    vec![
        (RepIDCategory::Technical, 75),
        (RepIDCategory::Governance, 50),
        (RepIDCategory::Community, 25),
    ]
}

#[test]
fn test_threshold_verification() {
    let mut zkp_system = RepIDZKPSystem::new(SecurityLevel::Fast);

    let request = ThresholdVerificationRequest {
        threshold: 100,
        categories: vec![RepIDCategory::Technical, RepIDCategory::Governance],
        time_window: 86400, // 1 day
        decay_params: None,
    };

    let user_scores = vec![
        (RepIDCategory::Technical, 75),
        (RepIDCategory::Governance, 50),
        (RepIDCategory::Community, 25),
    ];

    let result = zkp_system.prove_threshold_verification(&request, &user_scores, "0x1234567890abcdef", NOW);

    assert!(result.is_ok());
    let proof_result = result.unwrap();
    assert!(proof_result.meets_threshold); // 75 + 50 = 125 >= 100
}

#[test]
fn test_biometric_verification() {
    let mut zkp_system = RepIDZKPSystem::new(SecurityLevel::Fast);

    let webauthn_challenge = [1u8; 32];
    let biometric_hash = [2u8; 32];
    let factor_proofs = [true, true, true, true];

    let result = zkp_system.prove_biometric_4fa(webauthn_challenge, biometric_hash, &factor_proofs, NOW);

    assert!(result.is_ok());
    let proof = result.unwrap();
    assert_eq!(proof.metadata.operation_type, "biometric_4fa");
}

#[test]
fn test_proof_verification() {
    let mut zkp_system = RepIDZKPSystem::new(SecurityLevel::Fast);

    let request = ThresholdVerificationRequest {
        threshold: 50,
        categories: vec![RepIDCategory::Community],
        time_window: 86400,
        decay_params: None,
    };

    let user_scores = vec![(RepIDCategory::Community, 75)];

    let proof_result = zkp_system
        .prove_threshold_verification(&request, &user_scores, "0xtest", NOW)
        .unwrap();

    let verification = zkp_system.verify_proof(&proof_result.proof, Some(&request));
    assert!(verification.is_ok());
    assert!(verification.unwrap());
}

#[test]
fn security_levels() {
    assert_eq!(SecurityLevel::Fast.parameters(), (40, 4));
    assert_eq!(SecurityLevel::Standard.parameters(), (80, 8));
    assert_eq!(SecurityLevel::High.parameters(), (120, 16));
    for (level, queries, rows) in [
        (SecurityLevel::Fast, 40usize, 32u64),
        (SecurityLevel::Standard, 80, 64),
        (SecurityLevel::High, 120, 128),
    ] {
        let mut system = RepIDZKPSystem::new(level);
        let result = system.prove_threshold_verification(&request(100), &user_scores(), "w", NOW).unwrap();
        let stark = deserialize_proof(&result.proof.proof_data).unwrap();
        assert_eq!(stark.queries.len(), queries);
        for query in &stark.queries {
            assert!((query.position as u64) < rows);
        }
        assert!(system.verify_proof(&result.proof, None).unwrap());
    }
}

#[test]
fn threshold_met_without_decay() {
    let mut system = RepIDZKPSystem::new(SecurityLevel::Fast);
    let result = system
        .prove_threshold_verification(&request(100), &user_scores(), "0x1234567890abcdef", NOW)
        .unwrap();
    assert!(result.meets_threshold);
    assert_eq!(result.proof.public_inputs, vec![BabyBearField(100), BabyBearField(86_400)]);
    assert_eq!(system.verify_proof(&result.proof, Some(&request(100))).unwrap(), true);
    assert_eq!(result.proof.metadata.operation_type, "threshold_verification");
    assert_eq!(result.proof.metadata.timestamp, NOW);
    assert_eq!(result.proof.metadata.wallet_hash, "24b84e40a821520250a0f1dbcf94afc4");
    assert_eq!(result.proof.metadata.proof_size, result.proof.proof_data.len());
    assert_eq!(result.proof.metadata.generation_time_ms, 0);
    assert_eq!(result.metadata.categories_verified, vec![RepIDCategory::Technical, RepIDCategory::Governance]);
    assert_eq!(result.metadata.threshold_used, 100);
    assert_eq!(result.metadata.time_window_applied, 86_400);
    assert_eq!(result.metadata.decay_applied, false);
    // 64 bytes of roots, one commitment, eight coefficients, the nonce,
    // forty queries with five digests each, and two public inputs
    assert_eq!(result.proof.proof_data.len(), 64 + (8 + 32) + (8 + 64) + 8 + (8 + 40 * (24 + 160)) + (8 + 16));
}

#[test]
fn threshold_not_met() {
    let mut system = RepIDZKPSystem::new(SecurityLevel::Fast);
    let result = system.prove_threshold_verification(&request(200), &user_scores(), "0x1234567890abcdef", NOW).unwrap();
    assert!(!result.meets_threshold);
    assert_eq!(system.verify_proof(&result.proof, Some(&request(200))).unwrap(), true);
    assert_eq!(result.proof.public_inputs, vec![BabyBearField(200), BabyBearField(86_400)]);
}

#[test]
fn threshold_counts_the_requested_categories_only() {
    let mut system = RepIDZKPSystem::new(SecurityLevel::Fast);
    for (threshold, met) in [(125u32, true), (126, false), (150, false)] {
        let result = system.prove_threshold_verification(&request(threshold), &user_scores(), "w", NOW).unwrap();
        assert_eq!(result.meets_threshold, met);
    }
    let mut nothing = request(1);
    nothing.categories = vec![];
    let result = system.prove_threshold_verification(&nothing, &user_scores(), "w", NOW).unwrap();
    assert_eq!(result.meets_threshold, false);
    assert_eq!(result.metadata.categories_verified.len(), 0);
}

#[test]
fn decay_parameters_are_recorded() {
    let mut system = RepIDZKPSystem::new(SecurityLevel::Fast);
    let mut with_decay = request(100);
    with_decay.decay_params = Some(DecayParameters { base_decay_rate: 500, multiplicative_factor: 12_000, min_threshold: 10 });
    let result = system.prove_threshold_verification(&with_decay, &user_scores(), "w", NOW).unwrap();
    assert!(result.metadata.decay_applied);
    // the sum in the clear is not decayed
    assert!(result.meets_threshold);
    let plain = RepIDZKPSystem::new(SecurityLevel::Fast)
        .prove_threshold_verification(&request(100), &user_scores(), "w", NOW)
        .unwrap();
    let decayed = deserialize_proof(&result.proof.proof_data).unwrap();
    let undecayed = deserialize_proof(&plain.proof.proof_data).unwrap();
    assert_ne!(decayed.trace_root, undecayed.trace_root);
}

#[test]
fn biometric_all_pass() {
    let mut system = RepIDZKPSystem::new(SecurityLevel::Standard);
    let proof = system.prove_biometric_4fa([1u8; 32], [2u8; 32], &[true, true, true, true], NOW).unwrap();
    assert_eq!(system.verify_proof(&proof, None).unwrap(), true);
    assert_eq!(proof.public_inputs[0], BabyBearField::new(u64::from_le_bytes([1; 8])));
    assert_eq!(proof.public_inputs.len(), 1);
    assert_eq!(proof.metadata.wallet_hash, "biometric_verification");
    assert_eq!(proof.metadata.timestamp, NOW);
    assert_eq!(proof.metadata.proof_size, proof.proof_data.len());
}

#[test]
fn biometric_one_fail() {
    let mut system = RepIDZKPSystem::new(SecurityLevel::Standard);
    let proof = system.prove_biometric_4fa([1u8; 32], [2u8; 32], &[true, true, false, true], NOW).unwrap();
    assert_eq!(system.verify_proof(&proof, None).unwrap(), true);
    let passing = RepIDZKPSystem::new(SecurityLevel::Standard)
        .prove_biometric_4fa([1u8; 32], [2u8; 32], &[true, true, true, true], NOW)
        .unwrap();
    let failed = deserialize_proof(&proof.proof_data).unwrap();
    let passed = deserialize_proof(&passing.proof_data).unwrap();
    assert_ne!(failed.trace_root, passed.trace_root);
}

#[test]
fn biometric_at_the_fast_level_is_not_accepted() {
    let mut system = RepIDZKPSystem::new(SecurityLevel::Fast);
    let proof = system.prove_biometric_4fa([1u8; 32], [2u8; 32], &[true, true, true, true], NOW).unwrap();
    assert_eq!(system.verify_proof(&proof, None).unwrap(), false);
    let mut system = RepIDZKPSystem::new(SecurityLevel::High);
    let proof = system.prove_biometric_4fa([1u8; 32], [2u8; 32], &[true, true, true, true], NOW).unwrap();
    assert_eq!(system.verify_proof(&proof, None).unwrap(), true);
}

fn with_public_input(proof: &RepIDProof, index: usize, value: u64) -> RepIDProof {
    let mut stark = deserialize_proof(&proof.proof_data).unwrap();
    stark.public_inputs[index] = BabyBearField(value);
    let proof_data = serialize_proof(&stark);
    RepIDProof {
        proof_data,
        public_inputs: stark.public_inputs,
        metadata: ProofMetadata {
            operation_type: proof.metadata.operation_type.clone(),
            timestamp: proof.metadata.timestamp,
            wallet_hash: proof.metadata.wallet_hash.clone(),
            proof_size: proof.metadata.proof_size,
            generation_time_ms: proof.metadata.generation_time_ms,
        },
    }
}

#[test]
fn out_of_range_threshold_is_rejected() {
    let mut system = RepIDZKPSystem::new(SecurityLevel::Fast);
    let result = system.prove_threshold_verification(&request(100), &user_scores(), "w", NOW).unwrap();
    for (value, accepted) in [(0u64, false), (2000, false), (1000, true), (1, true)] {
        let changed = with_public_input(&result.proof, 0, value);
        assert_eq!(system.verify_proof(&changed, None).unwrap(), accepted);
    }
    let changed = with_public_input(&result.proof, 1, 0);
    assert_eq!(system.verify_proof(&changed, None).unwrap(), false);
}

#[test]
fn tampered_proof_of_work_is_rejected() {
    let mut system = RepIDZKPSystem::new(SecurityLevel::Fast);
    let result = system.prove_threshold_verification(&request(100), &user_scores(), "w", NOW).unwrap();
    let honest = deserialize_proof(&result.proof.proof_data).unwrap();
    let mut rejected = 0;
    for byte in 0..8 {
        let mut stark = deserialize_proof(&result.proof.proof_data).unwrap();
        stark.fri_proof.pow_nonce = honest.fri_proof.pow_nonce ^ (1u64 << (8 * byte));
        let still_valid = zkp_circuits::fri::check_pow(stark.fri_proof.pow_nonce);
        let mut changed = with_public_input(&result.proof, 0, 100);
        changed.proof_data = serialize_proof(&stark);
        assert_eq!(system.verify_proof(&changed, None).unwrap(), still_valid);
        if !still_valid {
            rejected += 1;
        }
    }
    assert!(rejected >= 7);
}

#[test]
fn bytes_that_are_no_proof_fail_verification() {
    let mut system = RepIDZKPSystem::new(SecurityLevel::Fast);
    let result = system.prove_threshold_verification(&request(100), &user_scores(), "w", NOW).unwrap();
    let mut broken = with_public_input(&result.proof, 0, 100);
    broken.proof_data.truncate(100);
    match system.verify_proof(&broken, None) {
        Err(ZKPError::SerializationError(detail)) => {
            assert_eq!(detail, "Failed to deserialize proof: unexpected end of input")
        },
        _ => panic!("expected SerializationError"),
    }
    broken.proof_data.clear();
    assert!(system.verify_proof(&broken, None).is_err());
}

#[test]
fn statement_is_named_by_the_metadata() {
    let mut system = RepIDZKPSystem::new(SecurityLevel::Fast);
    let result = system.prove_threshold_verification(&request(100), &user_scores(), "w", NOW).unwrap();
    let mut renamed = with_public_input(&result.proof, 0, 2000);
    assert_eq!(system.verify_proof(&renamed, None).unwrap(), false);
    renamed.metadata.operation_type = "biometric_4fa".to_string();
    assert_eq!(system.verify_proof(&renamed, None).unwrap(), true);
    renamed.metadata.operation_type = "other".to_string();
    assert_eq!(system.verify_proof(&renamed, None).unwrap(), true);
}

#[test]
fn scores_that_overflow_are_rejected() {
    let mut system = RepIDZKPSystem::new(SecurityLevel::Fast);
    let scores = vec![(RepIDCategory::Technical, u32::MAX), (RepIDCategory::Community, 1)];
    match system.prove_threshold_verification(&request(100), &scores, "w", NOW) {
        Err(ZKPError::InvalidInput(detail)) => assert_eq!(detail, "scores out of range"),
        _ => panic!("expected InvalidInput"),
    }
}

#[test]
fn solidity_verification_data() {
    let mut system = RepIDZKPSystem::new(SecurityLevel::Fast);
    let result = system.prove_threshold_verification(&request(100), &user_scores(), "w", NOW).unwrap();
    let data = system.extract_solidity_verification_data(&result.proof);
    assert_eq!(data.proof_hash, format!("0x{:x}", md5::compute(&result.proof.proof_data)));
    assert_eq!(data.proof_hash.len(), 34);
    assert_eq!(data.public_inputs, vec!["0x0000000000000064".to_string(), "0x0000000000015180".to_string()]);
    assert_eq!(data.proof_type, "threshold_verification");
    assert_eq!(data.timestamp, NOW);
    assert_eq!(data.proof_size, result.proof.proof_data.len());
    let mut empty = with_public_input(&result.proof, 0, u64::MAX);
    empty.proof_data.clear();
    let data = system.extract_solidity_verification_data(&empty);
    assert_eq!(data.proof_hash, "0xd41d8cd98f00b204e9800998ecf8427e");
    assert_eq!(data.public_inputs[0], "0xffffffffffffffff");
}

#[test]
fn hexadecimal_text() {
    assert_eq!(hex_text(&[]), "");
    assert_eq!(hex_text(&[0x00, 0x0f, 0xa0, 0xff, 0x12]), "000fa0ff12");
    assert_eq!(prefixed_hex_text(&[0xde, 0xad, 0xbe, 0xef]), "0xdeadbeef");
    assert_eq!(prefixed_hex_u64(0), "0x0000000000000000");
    assert_eq!(prefixed_hex_u64(0x0123_4567_89ab_cdef), "0x0123456789abcdef");
    assert_eq!(prefixed_hex_u64(86_400), format!("0x{:016x}", 86_400u64));
    let all: Vec<u8> = (0..=255).collect();
    let expected: String = all.iter().map(|b| format!("{:02x}", b)).collect();
    assert_eq!(hex_text(&all), expected);
}

#[test]
fn listed_categories_and_counted_sum() {
    let categories = vec![RepIDCategory::Technical, RepIDCategory::Custom("x".to_string())];
    assert!(is_listed(&categories, &RepIDCategory::Technical));
    assert!(is_listed(&categories, &RepIDCategory::Custom("x".to_string())));
    assert!(!is_listed(&categories, &RepIDCategory::Custom("y".to_string())));
    assert!(!is_listed(&categories, &RepIDCategory::Governance));
    assert!(!is_listed(&vec![], &RepIDCategory::Governance));
    let scores = vec![
        (RepIDCategory::Technical, 75),
        (RepIDCategory::Governance, 50),
        (RepIDCategory::Custom("x".to_string()), 5),
        (RepIDCategory::Technical, 1),
    ];
    assert_eq!(sum_counted(&scores, &categories), 81);
    assert_eq!(sum_counted(&scores, &vec![]), 0);
    assert_eq!(copy_categories(&categories), categories);
}

#[test]
fn error_messages() {
    assert_eq!(ZKPError::CircuitError("a".to_string()).message(), "Circuit execution failed: a");
    assert_eq!(ZKPError::ProofGenerationError("PoW timeout".to_string()).message(), "Proof generation failed: PoW timeout");
    assert_eq!(ZKPError::VerificationError("c".to_string()).message(), "Proof verification failed: c");
    assert_eq!(ZKPError::InvalidInput("d".to_string()).message(), "Invalid input parameters: d");
    assert_eq!(ZKPError::SerializationError("".to_string()).message(), "Serialization error: ");
}

#[test]
fn statements_as_airs() {
    let air = RepIDAir::new(3, 100, 86_400, 500, 12_000);
    assert_eq!(air.num_categories, 3);
    assert_eq!(air.threshold, BabyBearField(100));
    assert_eq!(air.time_window, BabyBearField(86_400));
    assert_eq!(air.decay_rate, BabyBearField(500));
    assert_eq!(air.multiplicative_factor, BabyBearField(1200));
    assert_eq!(air.width(), Some(9));
    assert_eq!(RepIDAir::new(usize::MAX - 5, 0, 2013265921, 0, 19).width(), None);
    assert_eq!(RepIDAir::new(usize::MAX - 6, 0, 2013265921, 0, 19).width(), Some(usize::MAX));
    assert_eq!(RepIDAir::new(0, 0, 2013265921 + 4, 0, 19).time_window, BabyBearField(4));
    assert_eq!(RepIDAir::new(0, 0, 0, 0, 19).multiplicative_factor, BabyBearField(1));
    assert_eq!(RepIDAir::new(0, 0, 0, 0, -19).multiplicative_factor, BabyBearField(0));
    assert_eq!(RepIDAir::new(0, 0, 0, 0, i64::MAX).multiplicative_factor, BabyBearField(u32::MAX as u64 % 2013265921));
    let air = BiometricAIR::new(4, [1u8; 32]);
    assert_eq!(air.num_factors, 4);
    assert_eq!(air.webauthn_challenge, BabyBearField(1054653081));
    assert_eq!(air.width(), Some(8));
    assert_eq!(BiometricAIR::new(usize::MAX, [0u8; 32]).width(), None);
}

#[test]
fn default_system_is_standard() {
    let mut system = RepIDZKPSystem::default();
    let result = system.prove_threshold_verification(&request(100), &user_scores(), "w", NOW).unwrap();
    let stark = deserialize_proof(&result.proof.proof_data).unwrap();
    assert_eq!(stark.queries.len(), 80);
    assert_eq!(stark.fri_proof.commitments.len(), 2);
    assert!(system.verify_proof(&result.proof, None).unwrap());
}

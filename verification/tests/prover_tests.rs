use rand::RngCore;
use rand::SeedableRng;
use rand_chacha::ChaCha20Rng;
use zkp_circuits::threshold::apply_decay;
use zkp_circuits::fri::check_pow;
use zkp_circuits::trace::fill_row;
use zkp_circuits::biometric::flag_field;
use zkp_circuits::fri::grind_pow;
use zkp_circuits::commitment::hash_u64;
use zkp_circuits::biometric::prefix_field;
use zkp_circuits::encoding::push_u64_le;
use zkp_circuits::query::query_response;
use zkp_circuits::threshold::total_score;
use zkp_circuits::fri::POW_BUDGET;
use zkp_circuits::BabyBearField;
use zkp_circuits::CustomStarkProver;
use zkp_circuits::DecayParameters;
use zkp_circuits::ExecutionTrace;
use zkp_circuits::RepIDCategory;
use zkp_circuits::ZKPError;

const P: u64 = 2013265921;
const NOW: u64 = 1_700_000_000;

fn scores() -> Vec<(RepIDCategory, u32)> {
    vec![
        (RepIDCategory::Technical, 75),
        (RepIDCategory::Governance, 50),
        (RepIDCategory::Community, 25),
    ]
}

fn pow_digest(nonce: u64) -> [u8; 32] {
    let mut input = b"RepID_PoW".to_vec();
    input.extend_from_slice(&nonce.to_le_bytes());
    *blake3::hash(&input).as_bytes()
}

#[test]
fn total_score_sums() {
    assert_eq!(total_score(&scores()), Some(150));
    assert_eq!(total_score(&[]), Some(0));
    let full = vec![(RepIDCategory::DeFi, u32::MAX)];
    assert_eq!(total_score(&full), Some(u32::MAX));
    let over = vec![(RepIDCategory::DeFi, u32::MAX), (RepIDCategory::DeFi, 1)];
    assert_eq!(total_score(&over), None);
}

#[test]
fn apply_decay_without_configuration_keeps_the_total() {
    assert_eq!(apply_decay(150, None, 2_000_000, 1_000), 150);
}

#[test]
fn apply_decay_within_the_window_keeps_the_total() {
    let decay = DecayParameters { base_decay_rate: 500, multiplicative_factor: 12_000, min_threshold: 10 };
    assert_eq!(apply_decay(150, Some(&decay), 86_400, 86_400), 150);
    assert_eq!(apply_decay(150, Some(&decay), 1, 86_400), 150);
}

#[test]
fn apply_decay_takes_the_rated_share() {
    // 1000 points at 1% a day for two days and a half lose 25 points
    let decay = DecayParameters { base_decay_rate: 100, multiplicative_factor: 0, min_threshold: 0 };
    assert_eq!(apply_decay(1000, Some(&decay), 86_400 + 216_000, 86_400), 975);
    // 150 points at 5% a day for one day lose 7.5, rounded down to 7
    let decay = DecayParameters { base_decay_rate: 500, multiplicative_factor: 0, min_threshold: 0 };
    assert_eq!(apply_decay(150, Some(&decay), 2 * 86_400, 86_400), 143);
}

#[test]
fn apply_decay_stops_at_the_minimum_and_at_zero() {
    let decay = DecayParameters { base_decay_rate: 500, multiplicative_factor: 0, min_threshold: 10 };
    assert_eq!(apply_decay(100, Some(&decay), 2_000_000_000, 1_000_000_000), 10);
    let decay = DecayParameters { base_decay_rate: 500, multiplicative_factor: 0, min_threshold: 0 };
    assert_eq!(apply_decay(100, Some(&decay), 2_000_000_000, 1_000_000_000), 0);
    // the minimum lifts a total that was below it, once decay applies
    let decay = DecayParameters { base_decay_rate: 0, multiplicative_factor: 0, min_threshold: 500 };
    assert_eq!(apply_decay(100, Some(&decay), 86_401, 86_400), 500);
    let decay = DecayParameters { base_decay_rate: u16::MAX, multiplicative_factor: 0, min_threshold: 3 };
    assert_eq!(apply_decay(u32::MAX, Some(&decay), u64::MAX, 0), 3);
}

#[test]
fn threshold_trace_layout() {
    let prover = CustomStarkProver::new(40, 4);
    let trace = prover.create_threshold_trace(&scores(), 100, 86_400, None, NOW).unwrap();
    assert_eq!(trace.width, 9);
    assert_eq!(trace.height, 8);
    let expected: Vec<BabyBearField> = vec![
        BabyBearField(100),
        BabyBearField(86_400),
        BabyBearField(NOW),
        BabyBearField(75),
        BabyBearField(50),
        BabyBearField(25),
        BabyBearField(150),
        BabyBearField(1),
        BabyBearField(1),
    ];
    for row in 0..8 {
        assert_eq!(trace.data[row], expected);
    }
}

#[test]
fn threshold_trace_below_threshold_and_reduced_columns() {
    let prover = CustomStarkProver::new(40, 4);
    let trace = prover.create_threshold_trace(&scores(), 200, P + 3, None, P + 9).unwrap();
    assert_eq!(trace.get(0, 0), BabyBearField(200));
    assert_eq!(trace.get(0, 1), BabyBearField(3));
    assert_eq!(trace.get(0, 2), BabyBearField(9));
    assert_eq!(trace.get(7, 6), BabyBearField(150));
    assert_eq!(trace.get(7, 7), BabyBearField(0));
    assert_eq!(trace.get(7, 8), BabyBearField(1));
}

#[test]
fn threshold_trace_with_decay() {
    let prover = CustomStarkProver::new(40, 4);
    let decay = DecayParameters { base_decay_rate: 500, multiplicative_factor: 12_000, min_threshold: 10 };
    let trace = prover
        .create_threshold_trace(&scores(), 100, 86_400, Some(&decay), 2 * 86_400)
        .unwrap();
    // 150 less 5% of 150 for one day, rounded down: 150 - 7
    assert_eq!(trace.get(0, 6), BabyBearField(143));
    assert_eq!(trace.get(0, 7), BabyBearField(1));
    let trace = prover
        .create_threshold_trace(&scores(), 100, 86_400, Some(&decay), 11 * 86_400)
        .unwrap();
    // ten days take 75 points, which leaves 75, below the threshold
    assert_eq!(trace.get(3, 6), BabyBearField(75));
    assert_eq!(trace.get(3, 7), BabyBearField(0));
}

#[test]
fn threshold_trace_without_scores() {
    let prover = CustomStarkProver::new(40, 4);
    let trace = prover.create_threshold_trace(&[], 1, 1, None, 0).unwrap();
    assert_eq!(trace.width, 6);
    assert_eq!(trace.data[0], vec![
        BabyBearField(1),
        BabyBearField(1),
        BabyBearField(0),
        BabyBearField(0),
        BabyBearField(0),
        BabyBearField(1),
    ]);
}

#[test]
fn threshold_trace_rejects_scores_that_overflow() {
    let prover = CustomStarkProver::new(40, 4);
    let over = vec![(RepIDCategory::DeFi, u32::MAX), (RepIDCategory::Technical, 1)];
    match prover.create_threshold_trace(&over, 100, 86_400, None, NOW) {
        Err(ZKPError::InvalidInput(detail)) => assert_eq!(detail, "scores out of range"),
        _ => panic!("expected InvalidInput"),
    }
}

#[test]
fn biometric_trace_layout() {
    let prover = CustomStarkProver::new(40, 4);
    let trace = prover.create_biometric_trace([1u8; 32], [2u8; 32], &[true, true, true, true]).unwrap();
    assert_eq!(trace.width, 8);
    assert_eq!(trace.height, 4);
    let expected: Vec<BabyBearField> = vec![
        BabyBearField(u64::from_le_bytes([1; 8]) % P),
        BabyBearField(u64::from_le_bytes([2; 8]) % P),
        BabyBearField(1),
        BabyBearField(1),
        BabyBearField(1),
        BabyBearField(1),
        BabyBearField(1),
        BabyBearField(1),
    ];
    for row in 0..4 {
        assert_eq!(trace.data[row], expected);
    }
    assert_eq!(expected[0], BabyBearField(1054653081));
    assert_eq!(expected[1], BabyBearField(96040241));
}

#[test]
fn biometric_all_verified_iff_all_four_factors() {
    let prover = CustomStarkProver::new(40, 4);
    for mask in 0u8..16 {
        let factors = [mask & 1 != 0, mask & 2 != 0, mask & 4 != 0, mask & 8 != 0];
        let trace = prover.create_biometric_trace([1u8; 32], [2u8; 32], &factors).unwrap();
        for row in 0..4 {
            for (k, &factor) in factors.iter().enumerate() {
                assert_eq!(trace.get(row, 2 + k), BabyBearField(factor as u64));
            }
            assert_eq!(trace.get(row, 6) == BabyBearField(1), mask == 15);
            assert_eq!(trace.get(row, 6), BabyBearField((mask == 15) as u64));
            assert_eq!(trace.get(row, 7), BabyBearField(1));
        }
    }
}

#[test]
fn biometric_one_factor_fails() {
    let prover = CustomStarkProver::new(40, 4);
    let trace = prover.create_biometric_trace([1u8; 32], [2u8; 32], &[true, true, false, true]).unwrap();
    assert_eq!(trace.get(0, 4), BabyBearField(0));
    assert_eq!(trace.get(0, 6), BabyBearField(0));
}

#[test]
fn prefix_field_reads_eight_bytes() {
    let mut bytes = [0u8; 32];
    bytes[0] = 0x34;
    bytes[1] = 0x12;
    bytes[8] = 0xff;
    assert_eq!(prefix_field(&bytes), BabyBearField(0x1234));
    assert_eq!(prefix_field(&[0xff; 32]), BabyBearField(u64::MAX % P));
    assert_eq!(flag_field(true), BabyBearField(1));
    assert_eq!(flag_field(false), BabyBearField(0));
}

#[test]
fn honest_threshold_trace_has_zero_residuals() {
    let prover = CustomStarkProver::new(40, 4);
    for threshold in [100u32, 150, 151, 200] {
        let trace = prover.create_threshold_trace(&scores(), threshold, 86_400, None, NOW).unwrap();
        let residuals = prover.generate_threshold_constraints(&trace, threshold, 86_400).unwrap();
        assert_eq!(residuals.len(), 8);
        for row in residuals {
            assert_eq!(row, vec![BabyBearField(0); 4]);
        }
    }
}

#[test]
fn threshold_residuals_show_what_is_wrong() {
    let prover = CustomStarkProver::new(40, 4);
    let mut trace = prover.create_threshold_trace(&scores(), 100, 86_400, None, NOW).unwrap();
    trace.set(2, 0, BabyBearField(101));
    trace.set(3, 1, BabyBearField(86_399));
    trace.set(4, 7, BabyBearField(0));
    trace.set(5, 8, BabyBearField(0));
    let residuals = prover.generate_threshold_constraints(&trace, 100, 86_400).unwrap();
    assert_eq!(residuals[0], vec![BabyBearField(0); 4]);
    assert_eq!(residuals[2], vec![BabyBearField(1), BabyBearField(0), BabyBearField(0), BabyBearField(0)]);
    assert_eq!(residuals[3], vec![BabyBearField(0), BabyBearField(P - 1), BabyBearField(0), BabyBearField(0)]);
    assert_eq!(residuals[4], vec![BabyBearField(0), BabyBearField(0), BabyBearField(P - 1), BabyBearField(0)]);
    assert_eq!(residuals[5], vec![BabyBearField(0), BabyBearField(0), BabyBearField(0), BabyBearField(P - 1)]);
}

#[test]
fn threshold_residuals_of_a_narrow_trace_read_zero_outside() {
    let prover = CustomStarkProver::new(40, 4);
    let trace = ExecutionTrace::new(1, 2);
    let residuals = prover.generate_threshold_constraints(&trace, 5, 7).unwrap();
    // columns: 0 - 5, 0 - 7, 0 - 0 (no final score, so below the threshold), 0 - 1
    assert_eq!(residuals, vec![
        vec![BabyBearField(P - 5), BabyBearField(P - 7), BabyBearField(0), BabyBearField(P - 1)];
        2
    ]);
}

#[test]
fn honest_biometric_trace_has_zero_residuals() {
    let prover = CustomStarkProver::new(40, 4);
    for mask in 0u8..16 {
        let factors = [mask & 1 != 0, mask & 2 != 0, mask & 4 != 0, mask & 8 != 0];
        let trace = prover.create_biometric_trace([9u8; 32], [2u8; 32], &factors).unwrap();
        let residuals = prover.generate_biometric_constraints(&trace, [9u8; 32]).unwrap();
        assert_eq!(residuals, vec![vec![BabyBearField(0); 2]; 4]);
    }
}

#[test]
fn biometric_residuals_show_what_is_wrong() {
    let prover = CustomStarkProver::new(40, 4);
    let mut trace = prover.create_biometric_trace([1u8; 32], [2u8; 32], &[true, true, false, true]).unwrap();
    trace.set(1, 6, BabyBearField(1));
    let residuals = prover.generate_biometric_constraints(&trace, [3u8; 32]).unwrap();
    let challenge_gap = BabyBearField::new(u64::from_le_bytes([1; 8])) - BabyBearField::new(u64::from_le_bytes([3; 8]));
    assert_eq!(residuals[0], vec![challenge_gap, BabyBearField(0)]);
    assert_eq!(residuals[1], vec![challenge_gap, BabyBearField(1)]);
}

#[test]
fn commitment_is_the_digest_of_the_cells_in_row_major_order() {
    let prover = CustomStarkProver::new(40, 4);
    let mut trace = ExecutionTrace::new(2, 2);
    trace.set(0, 0, BabyBearField(1));
    trace.set(0, 1, BabyBearField(2));
    trace.set(1, 0, BabyBearField(3));
    trace.set(1, 1, BabyBearField(4));
    let mut bytes = Vec::new();
    for v in [1u64, 2, 3, 4] {
        bytes.extend_from_slice(&v.to_le_bytes());
    }
    assert_eq!(prover.commit_to_trace(&trace).unwrap(), *blake3::hash(&bytes).as_bytes());
    assert_eq!(prover.commit_to_lde(&trace).unwrap(), *blake3::hash(&bytes).as_bytes());
    assert_ne!(prover.commit_to_trace(&trace).unwrap()[..], bytes[..]);
}

#[test]
fn commitment_matches_the_incremental_hasher() {
    let prover = CustomStarkProver::new(40, 4);
    let trace = prover.create_threshold_trace(&scores(), 100, 86_400, None, NOW).unwrap();
    let mut hasher = blake3::Hasher::new();
    for row in &trace.data {
        for cell in row {
            hasher.update(&cell.to_bytes());
        }
    }
    assert_eq!(prover.commit_to_trace(&trace).unwrap(), *hasher.finalize().as_bytes());
}

#[test]
fn commitment_of_the_empty_trace() {
    let prover = CustomStarkProver::new(40, 4);
    let trace = ExecutionTrace::new(0, 0);
    assert_eq!(prover.commit_to_trace(&trace).unwrap(), *blake3::hash(&[]).as_bytes());
}

#[test]
fn commitment_is_deterministic_and_changes_with_any_cell() {
    let prover = CustomStarkProver::new(40, 4);
    let trace = prover.create_threshold_trace(&scores(), 100, 86_400, None, NOW).unwrap();
    let again = prover.create_threshold_trace(&scores(), 100, 86_400, None, NOW).unwrap();
    let root = prover.commit_to_trace(&trace).unwrap();
    assert_eq!(root, prover.commit_to_trace(&again).unwrap());
    for row in 0..trace.height {
        for col in 0..trace.width {
            let mut changed = prover.create_threshold_trace(&scores(), 100, 86_400, None, NOW).unwrap();
            changed.set(row, col, trace.get(row, col) + BabyBearField(1));
            assert_ne!(root, prover.commit_to_trace(&changed).unwrap());
        }
    }
}

#[test]
fn extension_copies_then_scales() {
    let prover = CustomStarkProver::new(40, 4);
    let trace = prover.create_threshold_trace(&scores(), 100, 86_400, None, NOW).unwrap();
    let lde = prover.compute_lde(&trace).unwrap();
    assert_eq!(lde.width, 9);
    assert_eq!(lde.height, 32);
    for row in 0..8 {
        assert_eq!(lde.data[row], trace.data[row]);
    }
    for row in 8..32 {
        for col in 0..9 {
            let expected = trace.get(row % 8, col) * BabyBearField::new(row as u64 + 1);
            assert_eq!(lde.get(row, col), expected);
        }
    }
    assert_eq!(lde.get(8, 3), BabyBearField(675));
    assert_eq!(lde.get(31, 0), BabyBearField(3200));
    assert_eq!(lde.get(8, 2), BabyBearField((NOW % P) * 9 % P));
}

#[test]
fn extension_with_blowup_one_and_zero() {
    let trace = CustomStarkProver::new(1, 1).create_biometric_trace([1u8; 32], [2u8; 32], &[true; 4]).unwrap();
    let lde = CustomStarkProver::new(1, 1).compute_lde(&trace).unwrap();
    assert_eq!(lde.data, trace.data);
    let lde = CustomStarkProver::new(0, 0).compute_lde(&trace).unwrap();
    assert_eq!(lde.height, 0);
    assert_eq!(lde.width, 8);
    assert_eq!(lde.data.len(), 0);
}

#[test]
fn extension_rejects_a_height_that_overflows() {
    let trace = ExecutionTrace::new(1, 2);
    match CustomStarkProver::new(1, usize::MAX).compute_lde(&trace) {
        Err(ZKPError::InvalidInput(detail)) => assert_eq!(detail, "extended height out of range"),
        _ => panic!("expected InvalidInput"),
    }
}

#[test]
fn hash_u64_is_the_digest_of_eight_little_endian_bytes() {
    assert_eq!(hash_u64(32), *blake3::hash(&32u64.to_le_bytes()).as_bytes());
    assert_eq!(hash_u64(u64::MAX), *blake3::hash(&[0xff; 8]).as_bytes());
    let mut out = vec![7u8];
    push_u64_le(&mut out, 0x0102_0304_0506_0708);
    assert_eq!(out, vec![7, 8, 7, 6, 5, 4, 3, 2, 1]);
}

#[test]
fn proof_of_work_accepts_two_leading_zero_bytes() {
    for nonce in [0u64, 1, 2, 1000, 65_536, u64::MAX] {
        let digest = pow_digest(nonce);
        assert_eq!(check_pow(nonce), digest[0] == 0 && digest[1] == 0);
    }
}

#[test]
fn grinding_finds_the_least_accepted_nonce() {
    let nonce = grind_pow().expect("a nonce within the budget");
    assert!(nonce <= POW_BUDGET);
    assert_eq!(POW_BUDGET, 1_000_000);
    assert!(check_pow(nonce));
    let digest = pow_digest(nonce);
    assert_eq!(&digest[0..2], &[0, 0]);
    for earlier in 0..nonce {
        let digest = pow_digest(earlier);
        assert!(digest[0] != 0 || digest[1] != 0);
    }
}

#[test]
fn the_first_accepted_nonce() {
    assert_eq!(grind_pow(), Some(187_630));
    assert!(check_pow(187_630));
    assert!(!check_pow(187_629));
    assert!(!check_pow(0));
}

#[test]
fn fri_proof_for_thirty_two_rows() {
    let mut prover = CustomStarkProver::new(40, 4);
    let lde = ExecutionTrace::new(1, 32);
    let fri = prover.generate_fri_proof(&lde, &Vec::new()).unwrap();
    assert_eq!(fri.commitments, vec![*blake3::hash(&32u64.to_le_bytes()).as_bytes()]);
    assert_eq!(fri.final_poly, vec![BabyBearField(1); 8]);
    assert_eq!(Some(fri.pow_nonce), grind_pow());
}

#[test]
fn fri_proof_rounds_and_final_polynomial() {
    let mut prover = CustomStarkProver::new(40, 4);
    let cases: [(usize, Vec<u64>, usize); 8] = [
        (0, vec![], 0),
        (1, vec![], 1),
        (7, vec![], 7),
        (8, vec![], 8),
        (16, vec![], 8),
        (17, vec![17], 8),
        (128, vec![128, 64, 32], 8),
        (100, vec![100, 50, 25], 8),
    ];
    for (height, sizes, final_len) in cases {
        let lde = ExecutionTrace::new(1, height);
        let fri = prover.generate_fri_proof(&lde, &Vec::new()).unwrap();
        let expected: Vec<[u8; 32]> = sizes.iter().map(|s| *blake3::hash(&s.to_le_bytes()).as_bytes()).collect();
        assert_eq!(fri.commitments, expected);
        assert_eq!(fri.final_poly, vec![BabyBearField(1); final_len]);
    }
}

fn leaf(lde: &ExecutionTrace, row: usize) -> [u8; 32] {
    *blake3::hash(&lde.get(row, 0).0.to_le_bytes()).as_bytes()
}

fn node(lde: &ExecutionTrace, start: usize, span: usize) -> [u8; 32] {
    if span <= 1 {
        leaf(lde, start)
    } else {
        let mut pair = node(lde, start, span / 2).to_vec();
        pair.extend_from_slice(&node(lde, start + span / 2, span / 2));
        *blake3::hash(&pair).as_bytes()
    }
}

fn path(lde: &ExecutionTrace, position: usize) -> Vec<[u8; 32]> {
    let mut out = Vec::new();
    let (mut index, mut span, mut size) = (position, 1usize, lde.height);
    while size > 1 {
        out.push(node(lde, (index ^ 1) * span, span));
        index /= 2;
        span *= 2;
        size /= 2;
    }
    out
}

fn fold(start: [u8; 32], position: usize, path: &[[u8; 32]]) -> [u8; 32] {
    let mut current = start;
    let mut index = position;
    for next in path {
        let mut pair = Vec::new();
        if index % 2 == 0 {
            pair.extend_from_slice(&current);
            pair.extend_from_slice(next);
        } else {
            pair.extend_from_slice(next);
            pair.extend_from_slice(&current);
        }
        current = *blake3::hash(&pair).as_bytes();
        index /= 2;
    }
    current
}

fn extended() -> ExecutionTrace {
    let prover = CustomStarkProver::new(40, 4);
    let trace = prover.create_threshold_trace(&scores(), 100, 86_400, None, NOW).unwrap();
    prover.compute_lde(&trace).unwrap()
}

#[test]
fn query_response_position_value_and_path() {
    let lde = extended();
    let query = query_response(&lde, 1_000_003);
    // 1_000_003 mod 32 = 3
    assert_eq!(query.position, 3);
    assert_eq!(query.value, BabyBearField(100));
    assert_eq!(query.auth_path.len(), 5);
    // the leaf next to row 3 is row 2, whose first cell is the threshold
    assert_eq!(query.auth_path[0], *blake3::hash(&100u64.to_le_bytes()).as_bytes());
    // above it, the node over rows 0 and 1
    let mut pair = blake3::hash(&100u64.to_le_bytes()).as_bytes().to_vec();
    pair.extend_from_slice(blake3::hash(&100u64.to_le_bytes()).as_bytes());
    assert_eq!(query.auth_path[1], *blake3::hash(&pair).as_bytes());
    assert_eq!(query.auth_path[2], node(&lde, 4, 4));
    assert_eq!(query.auth_path[3], node(&lde, 8, 8));
    assert_eq!(query.auth_path[4], node(&lde, 16, 16));
    assert_eq!(query.auth_path, path(&lde, 3));

    let query = query_response(&lde, 29);
    assert_eq!(query.position, 29);
    assert_eq!(query.value, BabyBearField(100 * 30));
    // the leaf next to row 29 is row 28, whose first cell is 100 * 29
    assert_eq!(query.auth_path[0], *blake3::hash(&2900u64.to_le_bytes()).as_bytes());
    assert_eq!(query.auth_path, path(&lde, 29));
}

#[test]
fn every_path_opens_its_leaf_to_the_root() {
    let lde = extended();
    let root = node(&lde, 0, 32);
    for position in 0..32u64 {
        let query = query_response(&lde, position);
        assert_eq!(query.position as u64, position);
        assert_eq!(query.auth_path, path(&lde, query.position));
        assert_eq!(fold(leaf(&lde, query.position), query.position, &query.auth_path), root);
    }
    // another cell in the first column changes the root, and paths no longer open to the old one
    let mut changed = extended();
    changed.set(7, 0, BabyBearField(1));
    assert_ne!(node(&changed, 0, 32), root);
    let query = query_response(&changed, 6);
    assert_ne!(fold(leaf(&changed, 6), 6, &query.auth_path), root);
}

#[test]
fn a_leaf_is_the_digest_of_a_cell_not_of_a_row_number() {
    let lde = extended();
    let query = query_response(&lde, 3);
    assert_ne!(query.auth_path[0], *blake3::hash(&2u64.to_le_bytes()).as_bytes());
}

#[test]
fn query_response_on_a_single_row_has_no_path() {
    let mut lde = ExecutionTrace::new(2, 1);
    lde.set(0, 0, BabyBearField(5));
    let query = query_response(&lde, u64::MAX);
    assert_eq!(query.position, 0);
    assert_eq!(query.value, BabyBearField(5));
    assert_eq!(query.auth_path.len(), 0);
    let lde = ExecutionTrace::new(0, 3);
    let query = query_response(&lde, 5);
    assert_eq!(query.position, 2);
    assert_eq!(query.value, BabyBearField(0));
    // the row next to row 2 lies beyond the trace and counts as a zero cell
    assert_eq!(query.auth_path, vec![*blake3::hash(&0u64.to_le_bytes()).as_bytes()]);
}

#[test]
fn paths_in_a_trace_of_twenty_four_rows() {
    let mut trace = ExecutionTrace::new(1, 8);
    for row in 0..8 {
        trace.set(row, 0, BabyBearField(row as u64 + 1));
    }
    let lde = CustomStarkProver::new(1, 3).compute_lde(&trace).unwrap();
    assert_eq!(lde.height, 24);
    for position in 0..24u64 {
        let query = query_response(&lde, position);
        assert_eq!(query.auth_path.len(), 4);
        assert_eq!(query.auth_path, path(&lde, query.position));
        assert_eq!(query.auth_path[0], leaf(&lde, query.position ^ 1));
    }
}

#[test]
fn queries_are_drawn_from_the_seeded_generator() {
    let mut prover = CustomStarkProver::new(40, 4);
    let trace = prover.create_threshold_trace(&scores(), 100, 86_400, None, NOW).unwrap();
    let lde = prover.compute_lde(&trace).unwrap();
    let fri = prover.generate_fri_proof(&lde, &Vec::new()).unwrap();
    let queries = prover.generate_queries(&trace, &lde, &fri).unwrap();
    assert_eq!(queries.len(), 40);
    let mut rng = ChaCha20Rng::from_seed([42u8; 32]);
    let mut distinct = std::collections::BTreeSet::new();
    for query in &queries {
        let raw = rng.next_u64();
        assert_eq!(query.position as u64, raw % 32);
        assert_eq!(query.value, lde.get(query.position, 0));
        assert_eq!(query.auth_path.len(), 5);
        assert_eq!(query.auth_path[0], *blake3::hash(&lde.get(query.position ^ 1, 0).0.to_le_bytes()).as_bytes());
        assert_eq!(query.auth_path, path(&lde, query.position));
        distinct.insert(query.position);
    }
    assert!(distinct.len() > 1);
    // the generator moves on: the next queries follow in the stream
    let more = prover.generate_queries(&trace, &lde, &fri).unwrap();
    for query in &more {
        assert_eq!(query.position as u64, rng.next_u64() % 32);
    }
}

#[test]
fn queries_of_an_empty_extension() {
    let trace = ExecutionTrace::new(1, 2);
    let lde = ExecutionTrace::new(1, 0);
    let mut prover = CustomStarkProver::new(3, 0);
    let fri = prover.generate_fri_proof(&lde, &Vec::new()).unwrap();
    match prover.generate_queries(&trace, &lde, &fri) {
        Err(ZKPError::InvalidInput(detail)) => assert_eq!(detail, "extended trace is empty"),
        _ => panic!("expected InvalidInput"),
    }
    let mut prover = CustomStarkProver::new(0, 0);
    assert_eq!(prover.generate_queries(&trace, &lde, &fri).unwrap().len(), 0);
}

#[test]
fn fill_row_writes_one_row() {
    let mut trace = ExecutionTrace::new(2, 3);
    fill_row(&mut trace, 1, &vec![BabyBearField(4), BabyBearField(5)]);
    assert_eq!(trace.data, vec![
        vec![BabyBearField(0), BabyBearField(0)],
        vec![BabyBearField(4), BabyBearField(5)],
        vec![BabyBearField(0), BabyBearField(0)],
    ]);
}

#[test]
fn threshold_proof_parts() {
    let mut prover = CustomStarkProver::new(40, 4);
    let proof = prover.prove_threshold_verification(&scores(), 100, 86_400, None, NOW).unwrap();
    let reference = CustomStarkProver::new(40, 4);
    let trace = reference.create_threshold_trace(&scores(), 100, 86_400, None, NOW).unwrap();
    let lde = reference.compute_lde(&trace).unwrap();
    assert_eq!(proof.trace_root, reference.commit_to_trace(&trace).unwrap());
    assert_eq!(proof.lde_root, reference.commit_to_lde(&lde).unwrap());
    assert_ne!(proof.trace_root, proof.lde_root);
    assert_eq!(proof.fri_proof.commitments.len(), 1);
    assert_eq!(proof.fri_proof.final_poly, vec![BabyBearField(1); 8]);
    assert!(check_pow(proof.fri_proof.pow_nonce));
    assert_eq!(proof.queries.len(), 40);
    let mut rng = ChaCha20Rng::from_seed([42u8; 32]);
    for query in &proof.queries {
        assert_eq!(query.position as u64, rng.next_u64() % 32);
        assert_eq!(query.value, lde.get(query.position, 0));
        assert_eq!(query.auth_path.len(), 5);
    }
    assert_eq!(proof.public_inputs, vec![BabyBearField(100), BabyBearField(86_400)]);
}

#[test]
fn biometric_proof_parts() {
    let mut prover = CustomStarkProver::new(80, 8);
    let proof = prover.prove_biometric_verification([1u8; 32], [2u8; 32], &[true, true, true, true]).unwrap();
    assert_eq!(proof.fri_proof.commitments, vec![*blake3::hash(&32u64.to_le_bytes()).as_bytes()]);
    assert_eq!(proof.queries.len(), 80);
    for query in &proof.queries {
        assert!(query.position < 32);
        assert_eq!(query.auth_path.len(), 5);
    }
    assert_eq!(proof.public_inputs, vec![BabyBearField(u64::from_le_bytes([1; 8]) % P)]);
}

#[test]
fn proofs_with_fixed_inputs_are_identical() {
    let first = CustomStarkProver::new(40, 4).prove_threshold_verification(&scores(), 100, 86_400, None, NOW).unwrap();
    let second = CustomStarkProver::new(40, 4).prove_threshold_verification(&scores(), 100, 86_400, None, NOW).unwrap();
    assert_eq!(zkp_circuits::codec::serialize_proof(&first), zkp_circuits::codec::serialize_proof(&second));
}

#[test]
fn proving_fails_on_bad_parameters() {
    let over = vec![(RepIDCategory::DeFi, u32::MAX), (RepIDCategory::Technical, 1)];
    match CustomStarkProver::new(40, 4).prove_threshold_verification(&over, 100, 86_400, None, NOW) {
        Err(ZKPError::InvalidInput(detail)) => assert_eq!(detail, "scores out of range"),
        _ => panic!("expected InvalidInput"),
    }
    match CustomStarkProver::new(40, usize::MAX).prove_threshold_verification(&scores(), 100, 86_400, None, NOW) {
        Err(ZKPError::InvalidInput(detail)) => assert_eq!(detail, "extended height out of range"),
        _ => panic!("expected InvalidInput"),
    }
    match CustomStarkProver::new(40, 0).prove_biometric_verification([1u8; 32], [2u8; 32], &[true; 4]) {
        Err(ZKPError::InvalidInput(detail)) => assert_eq!(detail, "extended trace is empty"),
        _ => panic!("expected InvalidInput"),
    }
    let proof = CustomStarkProver::new(0, 0).prove_biometric_verification([1u8; 32], [2u8; 32], &[true; 4]).unwrap();
    assert_eq!(proof.queries.len(), 0);
    assert_eq!(proof.fri_proof.commitments.len(), 0);
    assert_eq!(proof.fri_proof.final_poly.len(), 0);
}

fn malformed() -> Vec<ExecutionTrace> {
    vec![
        ExecutionTrace { width: 2, height: 2, data: vec![vec![BabyBearField(0); 2]] },
        ExecutionTrace { width: 2, height: 1, data: vec![vec![BabyBearField(0); 3]] },
        ExecutionTrace { width: 2, height: 2, data: vec![vec![BabyBearField(0); 2], vec![]] },
        ExecutionTrace { width: 0, height: 0, data: vec![vec![]] },
    ]
}

fn expect_malformed<T>(result: Result<T, ZKPError>) {
    match result {
        Err(ZKPError::CircuitError(detail)) => assert_eq!(detail, "malformed trace"),
        _ => panic!("expected CircuitError"),
    }
}

#[test]
fn well_formedness_is_checked() {
    assert!(ExecutionTrace::new(3, 4).is_well_formed());
    assert!(ExecutionTrace::new(0, 0).is_well_formed());
    assert!(ExecutionTrace::new(0, 5).is_well_formed());
    for trace in malformed() {
        assert!(!trace.is_well_formed());
    }
}

#[test]
fn malformed_traces_are_rejected() {
    for trace in malformed() {
        let mut prover = CustomStarkProver::new(2, 2);
        expect_malformed(prover.compute_lde(&trace));
        expect_malformed(prover.generate_threshold_constraints(&trace, 1, 1));
        expect_malformed(prover.generate_biometric_constraints(&trace, [0u8; 32]));
        let fri = prover.generate_fri_proof(&trace, &Vec::new()).unwrap();
        expect_malformed(prover.generate_queries(&trace, &trace, &fri));
        expect_malformed(prover.prove_trace(&trace, &Vec::new(), Vec::new()));
    }
}

#[test]
fn any_well_formed_trace_can_be_proved() {
    let mut trace = ExecutionTrace::new(2, 3);
    trace.set(1, 0, BabyBearField(9));
    let mut prover = CustomStarkProver::new(5, 7);
    let proof = prover.prove_trace(&trace, &Vec::new(), vec![BabyBearField(4)]).unwrap();
    assert_eq!(proof.queries.len(), 5);
    assert_eq!(proof.fri_proof.commitments.len(), 1);
    assert_eq!(proof.fri_proof.final_poly.len(), 8);
    assert_eq!(proof.public_inputs, vec![BabyBearField(4)]);
    for query in &proof.queries {
        assert!(query.position < 21);
        assert_eq!(query.auth_path.len(), 4);
        let expected = if query.position < 3 {
            trace.get(query.position, 0)
        } else {
            trace.get(query.position % 3, 0) * BabyBearField::new(query.position as u64 + 1)
        };
        assert_eq!(query.value, expected);
    }
}

#[test]
fn threshold_bit_follows_the_stored_element() {
    let prover = CustomStarkProver::new(40, 4);
    // the total 2013265926 is stored as 5, which is below the threshold
    let big = vec![(RepIDCategory::Technical, 2_013_265_926u32)];
    let trace = prover.create_threshold_trace(&big, 100, 86_400, None, NOW).unwrap();
    assert_eq!(trace.get(0, 4), BabyBearField(5));
    assert_eq!(trace.get(0, 5), BabyBearField(0));
    let residuals = prover.generate_threshold_constraints(&trace, 100, 86_400).unwrap();
    assert_eq!(residuals, vec![vec![BabyBearField(0); 4]; 8]);
    let trace = prover.create_threshold_trace(&big, 5, 86_400, None, NOW).unwrap();
    assert_eq!(trace.get(0, 5), BabyBearField(1));
    let residuals = prover.generate_threshold_constraints(&trace, 5, 86_400).unwrap();
    assert_eq!(residuals, vec![vec![BabyBearField(0); 4]; 8]);
}

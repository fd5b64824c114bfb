use zkp_circuits::BabyBearField;
use zkp_circuits::DecayParameters;
use zkp_circuits::HierarchicalScorer;
use zkp_circuits::RepIDCategory;
use zkp_circuits::ScoreRange;

#[test]
fn test_hierarchical_scoring() {
    let scorer = HierarchicalScorer::new();

    let user_scores = vec![
        (RepIDCategory::Governance, 75),
        (RepIDCategory::Technical, 85),
        (RepIDCategory::Community, 50),
    ];

    let result = scorer.calculate_score(&user_scores, 1000000000, 999999999);

    assert!(result.final_score > 0);
    assert_eq!(result.active_categories.len(), 3);
    assert!(!result.decay_applied); // No decay config
}

#[test]
fn test_decay_application() {
    let decay_params = DecayParameters {
        base_decay_rate: 500, // 5%
        multiplicative_factor: 12_000, // 1.2
        min_threshold: 10,
    };

    let scorer = HierarchicalScorer::new().with_decay(decay_params);

    let user_scores = vec![(RepIDCategory::Technical, 100)];

    // Test with old timestamp (should trigger decay)
    let result = scorer.calculate_score(&user_scores, 2000000000, 1000000000);
    assert!(result.decay_applied);
}

#[test]
fn default_weights_and_synergies() {
    let scorer = HierarchicalScorer::new();
    assert_eq!(scorer.weight(&RepIDCategory::Governance), 10_000);
    assert_eq!(scorer.weight(&RepIDCategory::Community), 8_000);
    assert_eq!(scorer.weight(&RepIDCategory::Technical), 12_000);
    assert_eq!(scorer.weight(&RepIDCategory::FaithTech), 9_000);
    assert_eq!(scorer.weight(&RepIDCategory::DeFi), 11_000);
    assert_eq!(scorer.weight(&RepIDCategory::Custom("anything".to_string())), 10_000);
    assert_eq!(scorer.synergy(&RepIDCategory::Governance, &RepIDCategory::Technical), Some(13_000));
    assert_eq!(scorer.synergy(&RepIDCategory::Technical, &RepIDCategory::Governance), Some(13_000));
    assert_eq!(scorer.synergy(&RepIDCategory::Community, &RepIDCategory::FaithTech), Some(12_500));
    assert_eq!(scorer.synergy(&RepIDCategory::FaithTech, &RepIDCategory::Community), Some(12_500));
    assert_eq!(scorer.synergy(&RepIDCategory::Technical, &RepIDCategory::DeFi), Some(12_000));
    assert_eq!(scorer.synergy(&RepIDCategory::DeFi, &RepIDCategory::Technical), Some(12_000));
    assert_eq!(scorer.synergy(&RepIDCategory::Governance, &RepIDCategory::Community), None);
    assert_eq!(scorer.synergy(&RepIDCategory::Governance, &RepIDCategory::Governance), None);
    assert!(scorer.decay_config.is_none());
}

#[test]
fn weighted_base_and_synergy_bonus() {
    let scorer = HierarchicalScorer::new();
    let user_scores = vec![
        (RepIDCategory::Governance, 75),
        (RepIDCategory::Technical, 85),
        (RepIDCategory::Community, 50),
    ];
    let result = scorer.calculate_score(&user_scores, 1000000000, 999999999);
    // 75 * 1.0 + 85 * 1.2 + 50 * 0.8
    assert_eq!(result.base_score, 217);
    // (75 + 85) * (1.3 - 1)
    assert_eq!(result.synergy_bonus, 48);
    assert_eq!(result.multiplicative_bonus, 0);
    assert_eq!(result.final_score, 265);
    assert_eq!(result.active_categories, vec![
        RepIDCategory::Governance,
        RepIDCategory::Technical,
        RepIDCategory::Community,
    ]);
    assert_eq!(result.timestamp, 1000000000);
}

#[test]
fn synergy_does_not_depend_on_the_order_of_the_pair() {
    let scorer = HierarchicalScorer::new();
    let forward = scorer.calculate_score(&[(RepIDCategory::Governance, 75), (RepIDCategory::Technical, 85)], 0, 0);
    let backward = scorer.calculate_score(&[(RepIDCategory::Technical, 85), (RepIDCategory::Governance, 75)], 0, 0);
    assert_eq!(forward.synergy_bonus, 48);
    assert_eq!(backward.synergy_bonus, 48);
    assert_eq!(forward.final_score, backward.final_score);
}

#[test]
fn all_three_default_synergies_add_up() {
    let scorer = HierarchicalScorer::new();
    let user_scores = vec![
        (RepIDCategory::Governance, 10),
        (RepIDCategory::Community, 20),
        (RepIDCategory::Technical, 30),
        (RepIDCategory::FaithTech, 40),
        (RepIDCategory::DeFi, 50),
    ];
    let result = scorer.calculate_score(&user_scores, 5, 10);
    // 10 + 16 + 36 + 36 + 55
    assert_eq!(result.base_score, 153);
    // (10 + 30) * 0.3 + (20 + 40) * 0.25 + (30 + 50) * 0.2
    assert_eq!(result.synergy_bonus, 43);
    assert_eq!(result.final_score, 196);
}

#[test]
fn inactive_categories_count_for_nothing() {
    let scorer = HierarchicalScorer::new();
    let user_scores = vec![
        (RepIDCategory::Governance, 0),
        (RepIDCategory::Technical, 85),
    ];
    let result = scorer.calculate_score(&user_scores, 0, 0);
    assert_eq!(result.base_score, 102);
    assert_eq!(result.synergy_bonus, 0);
    assert_eq!(result.final_score, 102);
    assert_eq!(result.active_categories, vec![RepIDCategory::Technical]);
    let nothing = scorer.calculate_score(&[], 0, 0);
    assert_eq!(nothing.final_score, 0);
    assert_eq!(nothing.active_categories.len(), 0);
}

#[test]
fn scores_are_rounded_down_at_the_end_only() {
    let scorer = HierarchicalScorer::new();
    // 33 * 0.8 = 26.4 and 7 * 0.9 = 6.3: together 32.7; the pair earns (33 + 7) * 0.25 = 10
    let result = scorer.calculate_score(&[(RepIDCategory::Community, 33), (RepIDCategory::FaithTech, 7)], 0, 0);
    assert_eq!(result.base_score, 32);
    assert_eq!(result.synergy_bonus, 10);
    assert_eq!(result.final_score, 42);
    // 1 * 0.8 + 1 * 0.9 = 1.7 and (1 + 1) * 0.25 = 0.5: together 2.2
    let result = scorer.calculate_score(&[(RepIDCategory::Community, 1), (RepIDCategory::FaithTech, 1)], 0, 0);
    assert_eq!(result.base_score, 1);
    assert_eq!(result.synergy_bonus, 0);
    assert_eq!(result.final_score, 2);
}

#[test]
fn first_entry_of_a_category_gives_its_score_to_the_synergy() {
    let scorer = HierarchicalScorer::new();
    let user_scores = vec![
        (RepIDCategory::Governance, 0),
        (RepIDCategory::Governance, 5),
        (RepIDCategory::Technical, 10),
    ];
    let result = scorer.calculate_score(&user_scores, 0, 0);
    assert_eq!(result.base_score, 17);
    // the pair is active through the second entry, and scored by the first: (0 + 10) * 0.3
    assert_eq!(result.synergy_bonus, 3);
    assert_eq!(result.final_score, 20);
    assert_eq!(result.active_categories, vec![RepIDCategory::Governance, RepIDCategory::Technical]);
}

#[test]
fn decay_floor_and_bonus() {
    let decay_params = DecayParameters { base_decay_rate: 500, multiplicative_factor: 12_000, min_threshold: 10 };
    let scorer = HierarchicalScorer::new().with_decay(decay_params);
    let result = scorer.calculate_score(&[(RepIDCategory::Technical, 100)], 2000000000, 1000000000);
    assert!(result.decay_applied);
    assert_eq!(result.base_score, 120);
    assert_eq!(result.multiplicative_bonus, 1);
    // decayed far below the minimum of 10, then 1.2 of bonus
    assert_eq!(result.final_score, 11);
}

#[test]
fn decay_takes_the_rated_share() {
    let decay_params = DecayParameters { base_decay_rate: 100, multiplicative_factor: 0, min_threshold: 0 };
    let scorer = HierarchicalScorer::new().with_decay(decay_params);
    // 1% a day for two days and a half
    let result = scorer.calculate_score(&[(RepIDCategory::Governance, 1000)], 86_400 + 216_000, 86_400);
    assert!(result.decay_applied);
    assert_eq!(result.final_score, 975);
    // 26.4 * 0.99 = 26.136
    let result = scorer.calculate_score(&[(RepIDCategory::Community, 33)], 2 * 86_400, 86_400);
    assert_eq!(result.final_score, 26);
    // 100 days at 1% take everything
    let result = scorer.calculate_score(&[(RepIDCategory::Governance, 1000)], 101 * 86_400, 86_400);
    assert_eq!(result.final_score, 0);
    // 99 days leave 1%
    let result = scorer.calculate_score(&[(RepIDCategory::Governance, 1000)], 100 * 86_400, 86_400);
    assert_eq!(result.final_score, 10);
    // one second of decay on 1000 points leaves 999.99...
    let result = scorer.calculate_score(&[(RepIDCategory::Governance, 1000)], 86_401, 86_400);
    assert_eq!(result.final_score, 999);
}

#[test]
fn no_decay_within_the_window() {
    let decay_params = DecayParameters { base_decay_rate: 500, multiplicative_factor: 12_000, min_threshold: 10 };
    let scorer = HierarchicalScorer::new().with_decay(decay_params);
    let user_scores = vec![
        (RepIDCategory::Governance, 10),
        (RepIDCategory::Technical, 20),
        (RepIDCategory::DeFi, 0),
    ];
    for timestamp in [0u64, 86_399, 86_400] {
        let result = scorer.calculate_score(&user_scores, timestamp, 86_400);
        assert!(!result.decay_applied);
        assert_eq!(result.base_score, 34);
        assert_eq!(result.synergy_bonus, 9);
        // two active categories at 1.2 each
        assert_eq!(result.multiplicative_bonus, 2);
        // 34 + 9 + 2.4
        assert_eq!(result.final_score, 45);
        assert!(result.final_score >= result.base_score);
    }
    let result = scorer.calculate_score(&user_scores, 86_401, 86_400);
    assert!(result.decay_applied);
}

#[test]
fn minimum_does_not_apply_within_the_window() {
    let decay_params = DecayParameters { base_decay_rate: 500, multiplicative_factor: 0, min_threshold: 500 };
    let scorer = HierarchicalScorer::new().with_decay(decay_params);
    let result = scorer.calculate_score(&[(RepIDCategory::Governance, 7)], 10, 10);
    assert_eq!(result.final_score, 7);
    let result = scorer.calculate_score(&[(RepIDCategory::Governance, 7)], 11, 10);
    assert_eq!(result.final_score, 500);
}

#[test]
fn custom_weights() {
    let mut scorer = HierarchicalScorer::new();
    let label = RepIDCategory::Custom("mentoring".to_string());
    let result = scorer.calculate_score(&[(label.clone(), 40)], 0, 0);
    assert_eq!(result.final_score, 40);
    scorer.set_category_weight(label.clone(), 25_000);
    assert_eq!(scorer.weight(&label), 25_000);
    assert_eq!(scorer.weight(&RepIDCategory::Custom("other".to_string())), 10_000);
    let result = scorer.calculate_score(&[(label.clone(), 40)], 0, 0);
    assert_eq!(result.final_score, 100);
    scorer.set_category_weight(label.clone(), 5_000);
    assert_eq!(scorer.weight(&label), 5_000);
    assert_eq!(scorer.category_weights.len(), 6);
    scorer.set_category_weight(RepIDCategory::Technical, 0);
    assert_eq!(scorer.weight(&RepIDCategory::Technical), 0);
    assert_eq!(scorer.weight(&RepIDCategory::Governance), 10_000);
    assert_eq!(scorer.category_weights.len(), 6);
}

#[test]
fn custom_synergies_are_symmetric() {
    let mut scorer = HierarchicalScorer::new();
    scorer.set_synergy(RepIDCategory::DeFi, RepIDCategory::Governance, 20_000);
    assert_eq!(scorer.synergy(&RepIDCategory::DeFi, &RepIDCategory::Governance), Some(20_000));
    assert_eq!(scorer.synergy(&RepIDCategory::Governance, &RepIDCategory::DeFi), Some(20_000));
    let result = scorer.calculate_score(&[(RepIDCategory::Governance, 10), (RepIDCategory::DeFi, 10)], 0, 0);
    // 10 + 11 + (10 + 10) * 1.0
    assert_eq!(result.final_score, 41);
    scorer.set_synergy(RepIDCategory::Technical, RepIDCategory::Governance, 15_000);
    assert_eq!(scorer.synergy(&RepIDCategory::Governance, &RepIDCategory::Technical), Some(15_000));
    assert_eq!(scorer.synergy(&RepIDCategory::Technical, &RepIDCategory::Governance), Some(15_000));
    assert_eq!(scorer.synergy(&RepIDCategory::Technical, &RepIDCategory::DeFi), Some(12_000));
}

#[test]
fn a_synergy_below_one_costs_points() {
    let mut scorer = HierarchicalScorer::new();
    scorer.set_synergy(RepIDCategory::Governance, RepIDCategory::Technical, 5_000);
    let result = scorer.calculate_score(&[(RepIDCategory::Governance, 10), (RepIDCategory::Technical, 10)], 0, 0);
    assert_eq!(result.base_score, 22);
    assert_eq!(result.synergy_bonus, 0);
    assert_eq!(result.final_score, 12);
    // with a weight of zero the score then falls as the technical score rises
    scorer.set_category_weight(RepIDCategory::Technical, 0);
    let low = scorer.calculate_score(&[(RepIDCategory::Governance, 10), (RepIDCategory::Technical, 2)], 0, 0);
    let high = scorer.calculate_score(&[(RepIDCategory::Governance, 10), (RepIDCategory::Technical, 10)], 0, 0);
    assert_eq!(low.final_score, 4);
    assert_eq!(high.final_score, 0);
}

#[test]
fn raising_a_score_never_lowers_the_final_score() {
    let scorer = HierarchicalScorer::new();
    let categories = [
        RepIDCategory::Governance,
        RepIDCategory::Community,
        RepIDCategory::Technical,
        RepIDCategory::FaithTech,
        RepIDCategory::DeFi,
    ];
    let base: Vec<(RepIDCategory, u32)> = categories.iter().cloned().zip([0u32, 3, 50, 0, 97]).collect();
    let before = scorer.calculate_score(&base, 0, 0).final_score;
    for index in 0..base.len() {
        let mut last = before;
        for step in [1u32, 2, 10, 1000, 1_000_000] {
            let mut raised = base.clone();
            raised[index].1 += step;
            let after = scorer.calculate_score(&raised, 0, 0).final_score;
            assert!(after >= last);
            last = after;
        }
    }
}

#[test]
fn final_score_saturates() {
    let scorer = HierarchicalScorer::new();
    let result = scorer.calculate_score(&[(RepIDCategory::Technical, u32::MAX)], 0, 0);
    assert_eq!(result.base_score, u32::MAX);
    assert_eq!(result.final_score, u32::MAX);
    let result = scorer.calculate_score(
        &[(RepIDCategory::Technical, u32::MAX), (RepIDCategory::Governance, u32::MAX)],
        0,
        0,
    );
    // 2 * (2^32 - 1) * 0.3
    assert_eq!(result.synergy_bonus, 2_576_980_377);
    assert_eq!(result.base_score, u32::MAX);
    assert_eq!(result.final_score, u32::MAX);
}

#[test]
fn negative_points_under_long_decay_turn_positive() {
    let mut scorer = HierarchicalScorer::new();
    scorer.set_category_weight(RepIDCategory::Governance, 0);
    scorer.set_category_weight(RepIDCategory::Technical, 0);
    scorer.set_synergy(RepIDCategory::Governance, RepIDCategory::Technical, 0);
    let user_scores = vec![(RepIDCategory::Governance, 100), (RepIDCategory::Technical, 100)];
    let plain = scorer.calculate_score(&user_scores, 0, 0);
    assert_eq!(plain.base_score, 0);
    assert_eq!(plain.synergy_bonus, 0);
    assert_eq!(plain.final_score, 0);
    // -200 points lose three times themselves over 300 days at 1% a day: 400 are left
    let scorer = scorer.with_decay(DecayParameters { base_decay_rate: 100, multiplicative_factor: 0, min_threshold: 0 });
    let result = scorer.calculate_score(&user_scores, 300 * 86_400, 0);
    assert_eq!(result.final_score, 400);
    let scorer = scorer.with_decay(DecayParameters { base_decay_rate: u16::MAX, multiplicative_factor: 0, min_threshold: 0 });
    let result = scorer.calculate_score(&user_scores, u64::MAX, 0);
    assert_eq!(result.final_score, u32::MAX);
}

#[test]
fn score_ranges() {
    assert_eq!(ScoreRange::from_score(0), ScoreRange::Low);
    assert_eq!(ScoreRange::from_score(33), ScoreRange::Low);
    assert_eq!(ScoreRange::from_score(34), ScoreRange::Medium);
    assert_eq!(ScoreRange::from_score(66), ScoreRange::Medium);
    assert_eq!(ScoreRange::from_score(67), ScoreRange::High);
    assert_eq!(ScoreRange::from_score(100), ScoreRange::High);
    assert_eq!(ScoreRange::from_score(101), ScoreRange::Expert);
    assert_eq!(ScoreRange::from_score(u32::MAX), ScoreRange::Expert);
}

#[test]
fn result_as_field_elements() {
    let decay_params = DecayParameters { base_decay_rate: 500, multiplicative_factor: 12_000, min_threshold: 10 };
    let scorer = HierarchicalScorer::new().with_decay(decay_params);
    let result = scorer.calculate_score(&[(RepIDCategory::Technical, 100)], 2013265921 + 5, 1000000000);
    assert_eq!(scorer.to_field_elements(&result), vec![
        BabyBearField(120),
        BabyBearField(0),
        BabyBearField(1),
        BabyBearField(11),
        BabyBearField(5),
        BabyBearField(1),
    ]);
    let plain = HierarchicalScorer::new();
    let result = plain.calculate_score(&[(RepIDCategory::Governance, 9), (RepIDCategory::Technical, 1)], 77, 1000);
    assert_eq!(plain.to_field_elements(&result), vec![
        BabyBearField(10),
        BabyBearField(3),
        BabyBearField(0),
        BabyBearField(13),
        BabyBearField(77),
        BabyBearField(0),
    ]);
}

#[test]
fn fuzzy_rules() {
    let rules = HierarchicalScorer::new().generate_fuzzy_rules();
    assert_eq!(rules.len(), 3);
    assert_eq!(rules[0].conditions, vec![
        (RepIDCategory::Governance, ScoreRange::High),
        (RepIDCategory::Technical, ScoreRange::High),
    ]);
    assert_eq!(rules[0].output_multiplier, 15_000);
    assert_eq!(rules[0].description, "Leadership tier - Strong governance and technical skills");
    assert_eq!(rules[1].conditions, vec![
        (RepIDCategory::Community, ScoreRange::High),
        (RepIDCategory::FaithTech, ScoreRange::High),
    ]);
    assert_eq!(rules[1].output_multiplier, 13_000);
    assert_eq!(rules[1].description, "Purpose-driven tier - Strong community and faith-tech alignment");
    assert_eq!(rules[2].conditions, vec![
        (RepIDCategory::Governance, ScoreRange::Medium),
        (RepIDCategory::Community, ScoreRange::Medium),
        (RepIDCategory::Technical, ScoreRange::Medium),
    ]);
    assert_eq!(rules[2].output_multiplier, 12_000);
    assert_eq!(rules[2].description, "Well-rounded contributor - Balanced across categories");
}

#[test]
fn categories_compare_by_tag_and_label() {
    assert_eq!(RepIDCategory::Governance, RepIDCategory::Governance);
    assert_ne!(RepIDCategory::Governance, RepIDCategory::Community);
    assert_eq!(RepIDCategory::Custom("a".to_string()), RepIDCategory::Custom("a".to_string()));
    assert_ne!(RepIDCategory::Custom("a".to_string()), RepIDCategory::Custom("b".to_string()));
    assert_ne!(RepIDCategory::Custom("DeFi".to_string()), RepIDCategory::DeFi);
    let copy = RepIDCategory::Custom("a".to_string()).clone();
    assert_eq!(copy, RepIDCategory::Custom("a".to_string()));
}

#[test]
fn any_number_of_entries_is_scored() {
    let scorer = HierarchicalScorer::default();
    let mut many = vec![(RepIDCategory::Community, 0); 70_000];
    many[10].1 = 75;
    many[10].0 = RepIDCategory::Governance;
    many[69_999].1 = 85;
    many[69_999].0 = RepIDCategory::Technical;
    let result = scorer.calculate_score(&many, 7, 9);
    // 75 + 102 + (75 + 85) * 0.3
    assert_eq!(result.base_score, 177);
    assert_eq!(result.synergy_bonus, 48);
    assert_eq!(result.final_score, 225);
    assert_eq!(result.active_categories, vec![RepIDCategory::Governance, RepIDCategory::Technical]);
    assert!(!result.decay_applied);
}

#[test]
fn large_sums_saturate_and_cancel() {
    // 300 entries of one category pair with itself by a synergy of the largest multiplier:
    // 44850 pairs, each worth 2 * (2^32 - 1) * (2^63 - 10001) basis points
    let mut scorer = HierarchicalScorer::new();
    let label = RepIDCategory::Custom("x".to_string());
    scorer.set_synergy(label.clone(), label.clone(), i64::MAX);
    scorer.set_category_weight(label.clone(), 0);
    let many = vec![(label.clone(), u32::MAX); 300];
    let result = scorer.calculate_score(&many, 0, 0);
    assert_eq!(result.base_score, 0);
    assert_eq!(result.synergy_bonus, u32::MAX);
    assert_eq!(result.final_score, u32::MAX);
    // the same size taken away leaves nothing
    scorer.set_synergy(label.clone(), label.clone(), 0);
    scorer.set_category_weight(label.clone(), i64::MAX);
    let result = scorer.calculate_score(&many, 0, 0);
    // a base of 300 * (2^32 - 1) * (2^63 - 1) basis points is far above u32::MAX; the pairs take
    // 44850 * 2 * (2^32 - 1) points, which is less
    assert_eq!(result.base_score, u32::MAX);
    assert_eq!(result.synergy_bonus, 0);
    assert_eq!(result.final_score, u32::MAX);
    let few = vec![(label.clone(), 1), (label.clone(), 1), (label.clone(), 1)];
    scorer.set_category_weight(label.clone(), 10_000);
    let result = scorer.calculate_score(&few, 0, 0);
    // three points of base; three pairs each take 2 points
    assert_eq!(result.base_score, 3);
    assert_eq!(result.final_score, 0);
}

#[test]
fn many_inactive_entries_score_nothing() {
    let scorer = HierarchicalScorer::new();
    let mut many = vec![(RepIDCategory::Governance, 0); 2_000];
    many.push((RepIDCategory::Technical, 10));
    let result = scorer.calculate_score(&many, 0, 0);
    assert_eq!(result.final_score, 12);
    assert_eq!(result.active_categories, vec![RepIDCategory::Technical]);
}

#[test]
fn weights_below_zero_take_points_away() {
    let mut scorer = HierarchicalScorer::new();
    scorer.set_category_weight(RepIDCategory::Community, -5_000);
    assert_eq!(scorer.weight(&RepIDCategory::Community), -5_000);
    // 100 * 1.0 - 50 * 0.5
    let result = scorer.calculate_score(&[(RepIDCategory::Governance, 100), (RepIDCategory::Community, 50)], 0, 0);
    assert_eq!(result.base_score, 75);
    assert_eq!(result.final_score, 75);
    // -25 counts as nothing
    let result = scorer.calculate_score(&[(RepIDCategory::Community, 50)], 0, 0);
    assert_eq!(result.base_score, 0);
    assert_eq!(result.final_score, 0);
    assert_eq!(result.active_categories, vec![RepIDCategory::Community]);
    // 40 * 1.2 - 50 * 0.5
    let result = scorer.calculate_score(&[(RepIDCategory::Community, 50), (RepIDCategory::Technical, 40)], 0, 0);
    assert_eq!(result.base_score, 23);
    scorer.set_category_weight(RepIDCategory::Technical, i64::MIN);
    let result = scorer.calculate_score(&[(RepIDCategory::Governance, u32::MAX), (RepIDCategory::Technical, 1)], 0, 0);
    assert_eq!(result.base_score, 0);
    // the pair adds (2^32 - 1 + 1) * 0.3 points, far less than the weight of -2^63 takes
    assert_eq!(result.synergy_bonus, 1_288_490_188);
    assert_eq!(result.final_score, 0);
}

#[test]
fn multipliers_below_zero() {
    let mut scorer = HierarchicalScorer::new();
    scorer.set_synergy(RepIDCategory::Governance, RepIDCategory::Technical, -10_000);
    // 10 + 12 + (10 + 10) * (-1 - 1)
    let result = scorer.calculate_score(&[(RepIDCategory::Governance, 10), (RepIDCategory::Technical, 10)], 0, 0);
    assert_eq!(result.base_score, 22);
    assert_eq!(result.synergy_bonus, 0);
    assert_eq!(result.final_score, 0);
    // 100 + 1.2 + 101 * -2 is below zero as well; with 200 governance points and none technical nothing is taken
    let result = scorer.calculate_score(&[(RepIDCategory::Governance, 200), (RepIDCategory::Technical, 0)], 0, 0);
    assert_eq!(result.final_score, 200);
}

#[test]
fn bonus_factors_below_zero() {
    let decay_params = DecayParameters { base_decay_rate: 100, multiplicative_factor: -25_000, min_threshold: 10 };
    let scorer = HierarchicalScorer::new().with_decay(decay_params);
    let user_scores = vec![(RepIDCategory::Governance, 100), (RepIDCategory::Community, 10)];
    // within the window: 100 + 8 - 2 * 2.5
    let result = scorer.calculate_score(&user_scores, 5, 10);
    assert_eq!(result.base_score, 108);
    assert_eq!(result.multiplicative_bonus, 0);
    assert_eq!(result.final_score, 103);
    // one day of decay at 1%: 108 * 0.99 - 5 = 101.92
    let result = scorer.calculate_score(&user_scores, 86_400, 0);
    assert_eq!(result.final_score, 101);
    // long decay leaves the minimum of 10, and the bonus takes 5 of it
    let result = scorer.calculate_score(&user_scores, 1_000 * 86_400, 0);
    assert_eq!(result.final_score, 5);
    let harsh = HierarchicalScorer::new().with_decay(DecayParameters {
        base_decay_rate: 100,
        multiplicative_factor: i64::MIN,
        min_threshold: u32::MAX,
    });
    let result = harsh.calculate_score(&user_scores, 86_400, 0);
    assert_eq!(result.final_score, 0);
    let kind = HierarchicalScorer::new().with_decay(DecayParameters {
        base_decay_rate: 100,
        multiplicative_factor: i64::MAX,
        min_threshold: 0,
    });
    let result = kind.calculate_score(&user_scores, 86_400, 0);
    assert_eq!(result.final_score, u32::MAX);
    assert_eq!(result.multiplicative_bonus, u32::MAX);
}

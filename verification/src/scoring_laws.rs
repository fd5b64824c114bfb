//! What holds of every score calculation.

use vstd::prelude::*;
use vstd::arithmetic::div_mod::lemma_div_is_ordered;
use vstd::arithmetic::div_mod::lemma_div_multiples_vanish;
use vstd::arithmetic::mul::lemma_mul_inequality;
use crate::scoring::active_categories;
use crate::scoring::base_points;
use crate::scoring::bonus_points;
use crate::scoring::decay_applies;
use crate::scoring::factor_nonnegative;
use crate::scoring::first_score;
use crate::scoring::HierarchicalScorer;
use crate::scoring::pair_term;
use crate::scoring::row_synergy;
use crate::scoring::synergies_reward;
use crate::scoring::Synergy;
use crate::scoring::synergy_lookup;
use crate::scoring::synergy_of;
use crate::scoring::synergy_points;
use crate::scoring::truncate_points;
use crate::scoring::weight_of;
use crate::scoring::weights_nonnegative;
use crate::scoring_bounds::lemma_first_score_bounds;
use crate::types::BASIS_POINTS;
use crate::types::CategoryId;
use crate::types::DECAY_DENOMINATOR;
use crate::types::DECAY_SCALE;
use crate::types::RepIDCategory;

verus! {

/// The scores of `higher` are those of `lower`, each raised or left as it is:
/// the same categories in the same order, and no score lower.
pub open spec fn scores_raised(
    lower: Seq<(RepIDCategory, u32)>,
    higher: Seq<(RepIDCategory, u32)>,
) -> bool {
    &&& lower.len() == higher.len()
    &&& forall|i: int|
        0 <= i < lower.len() ==> (#[trigger] higher[i]).0@ == lower[i].0@ && higher[i].1
            >= lower[i].1
}

/// Rounding keeps the order of numerators.
pub proof fn lemma_truncate_monotonic(a: int, b: int, denominator: int)
    requires
        a <= b,
        denominator > 0,
    ensures
        truncate_points(a, denominator) <= truncate_points(b, denominator),
{
    lemma_div_is_ordered(a, b, denominator);
    if b > 0 {
        lemma_div_is_ordered(0, b, denominator);
    }
}

/// A recorded multiplier is one of the entries'.
proof fn lemma_lookup_rewards(synergies: Seq<Synergy>, a: CategoryId, b: CategoryId)
    requires
        synergies_reward(synergies),
    ensures
        synergy_lookup(synergies, a, b) matches Some(m) ==> m >= BASIS_POINTS,
    decreases synergies.len(),
{
    if synergies.len() > 0 {
        assert(synergies[0].multiplier >= BASIS_POINTS);
        if !(synergies[0].first@ == a && synergies[0].second@ == b) {
            assert forall|k: int| 0 <= k < synergies.drop_first().len() implies (
            #[trigger] synergies.drop_first()[k]).multiplier >= BASIS_POINTS by {
                assert(synergies.drop_first()[k] == synergies[k + 1]);
            }
            lemma_lookup_rewards(synergies.drop_first(), a, b);
        }
    }
}

/// Raising scores raises no first score.
proof fn lemma_first_score_monotonic(
    lower: Seq<(RepIDCategory, u32)>,
    higher: Seq<(RepIDCategory, u32)>,
    category: CategoryId,
)
    requires
        scores_raised(lower, higher),
    ensures
        first_score(lower, category) <= first_score(higher, category),
    decreases lower.len(),
{
    if lower.len() > 0 {
        assert(higher[0].0@ == lower[0].0@ && higher[0].1 >= lower[0].1);
        if lower[0].0@ != category {
            assert forall|i: int| 0 <= i < lower.drop_first().len() implies (
            #[trigger] higher.drop_first()[i]).0@ == lower.drop_first()[i].0@
                && higher.drop_first()[i].1 >= lower.drop_first()[i].1 by {
                assert(higher.drop_first()[i] == higher[i + 1]);
                assert(lower.drop_first()[i] == lower[i + 1]);
            }
            lemma_first_score_monotonic(lower.drop_first(), higher.drop_first(), category);
        }
    }
}

/// With rewarding synergies no pair term is negative.
proof fn lemma_pair_term_nonnegative(
    synergies: Seq<Synergy>,
    scores: Seq<(RepIDCategory, u32)>,
    i: int,
    j: int,
)
    requires
        synergies_reward(synergies),
    ensures
        pair_term(synergies, scores, i, j) >= 0,
{
    let a = scores[i].0@;
    let b = scores[j].0@;
    lemma_lookup_rewards(synergies, a, b);
    lemma_lookup_rewards(synergies, b, a);
    lemma_first_score_bounds(scores, a);
    lemma_first_score_bounds(scores, b);
    match synergy_of(synergies, a, b) {
        Some(m) => {
            let sum = first_score(scores, a) + first_score(scores, b);
            let bonus = m - BASIS_POINTS;
            assert(sum * bonus >= 0) by (nonlinear_arith)
                requires
                    sum >= 0,
                    bonus >= 0,
            ;
        },
        None => {},
    }
}

/// With rewarding synergies, raising scores lowers no pair term.
proof fn lemma_pair_term_monotonic(
    synergies: Seq<Synergy>,
    lower: Seq<(RepIDCategory, u32)>,
    higher: Seq<(RepIDCategory, u32)>,
    i: int,
    j: int,
)
    requires
        synergies_reward(synergies),
        scores_raised(lower, higher),
        0 <= i < lower.len(),
        0 <= j < lower.len(),
    ensures
        pair_term(synergies, lower, i, j) <= pair_term(synergies, higher, i, j),
{
    let a = lower[i].0@;
    let b = lower[j].0@;
    assert(higher[i].0@ == a && higher[i].1 >= lower[i].1);
    assert(higher[j].0@ == b && higher[j].1 >= lower[j].1);
    lemma_pair_term_nonnegative(synergies, higher, i, j);
    if lower[i].1 > 0 && lower[j].1 > 0 {
        lemma_lookup_rewards(synergies, a, b);
        lemma_lookup_rewards(synergies, b, a);
        lemma_first_score_monotonic(lower, higher, a);
        lemma_first_score_monotonic(lower, higher, b);
        match synergy_of(synergies, a, b) {
            Some(m) => {
                let low = first_score(lower, a) + first_score(lower, b);
                let high = first_score(higher, a) + first_score(higher, b);
                let bonus = m - BASIS_POINTS;
                lemma_mul_inequality(low, high, bonus);
            },
            None => {},
        }
    }
}

/// With rewarding synergies no row sum is negative, and raising scores
/// lowers none.
proof fn lemma_row_monotonic(
    synergies: Seq<Synergy>,
    lower: Seq<(RepIDCategory, u32)>,
    higher: Seq<(RepIDCategory, u32)>,
    i: int,
    end: int,
)
    requires
        synergies_reward(synergies),
        scores_raised(lower, higher),
        0 <= i < lower.len(),
        end <= lower.len(),
    ensures
        0 <= row_synergy(synergies, lower, i, end) <= row_synergy(synergies, higher, i, end),
    decreases end - i,
{
    if end > i + 1 {
        lemma_row_monotonic(synergies, lower, higher, i, end - 1);
        lemma_pair_term_monotonic(synergies, lower, higher, i, end - 1);
        lemma_pair_term_nonnegative(synergies, lower, i, end - 1);
    }
}

/// With rewarding synergies the synergy bonus is not negative, and raising
/// scores does not lower it.
pub proof fn lemma_synergy_monotonic(
    synergies: Seq<Synergy>,
    lower: Seq<(RepIDCategory, u32)>,
    higher: Seq<(RepIDCategory, u32)>,
    end: int,
)
    requires
        synergies_reward(synergies),
        scores_raised(lower, higher),
        end <= lower.len(),
    ensures
        0 <= synergy_points(synergies, lower, end) <= synergy_points(synergies, higher, end),
    decreases end,
{
    if end > 0 {
        lemma_synergy_monotonic(synergies, lower, higher, end - 1);
        lemma_row_monotonic(synergies, lower, higher, end - 1, lower.len() as int);
    }
}

/// The scores that are left when the last entry is dropped are raised as the
/// whole is.
proof fn lemma_raised_drop_last(lower: Seq<(RepIDCategory, u32)>, higher: Seq<(RepIDCategory, u32)>)
    requires
        scores_raised(lower, higher),
        lower.len() > 0,
    ensures
        scores_raised(lower.drop_last(), higher.drop_last()),
        higher.last().0@ == lower.last().0@,
        higher.last().1 >= lower.last().1,
{
    assert(higher[lower.len() - 1].0@ == lower[lower.len() - 1].0@);
    assert forall|i: int| 0 <= i < lower.drop_last().len() implies (
    #[trigger] higher.drop_last()[i]).0@ == lower.drop_last()[i].0@ && higher.drop_last()[i].1
        >= lower.drop_last()[i].1 by {
        assert(higher.drop_last()[i] == higher[i]);
        assert(lower.drop_last()[i] == lower[i]);
    }
}

/// Where no recorded weight is below zero, no weight is.
proof fn lemma_weight_nonnegative(weights: Seq<(RepIDCategory, i64)>, category: CategoryId)
    requires
        weights_nonnegative(weights),
    ensures
        weight_of(weights, category) >= 0,
    decreases weights.len(),
{
    if weights.len() > 0 {
        assert(weights[0].1 >= 0);
        if weights[0].0@ != category {
            assert forall|k: int| 0 <= k < weights.drop_first().len() implies (
            #[trigger] weights.drop_first()[k]).1 >= 0 by {
                assert(weights.drop_first()[k] == weights[k + 1]);
            }
            lemma_weight_nonnegative(weights.drop_first(), category);
        }
    }
}

/// Where no weight is below zero, raising scores does not lower the base
/// score.
pub proof fn lemma_base_monotonic(
    weights: Seq<(RepIDCategory, i64)>,
    lower: Seq<(RepIDCategory, u32)>,
    higher: Seq<(RepIDCategory, u32)>,
)
    requires
        weights_nonnegative(weights),
        scores_raised(lower, higher),
    ensures
        base_points(weights, lower) <= base_points(weights, higher),
    decreases lower.len(),
{
    if lower.len() > 0 {
        lemma_raised_drop_last(lower, higher);
        lemma_base_monotonic(weights, lower.drop_last(), higher.drop_last());
        let w = weight_of(weights, lower.last().0@);
        lemma_weight_nonnegative(weights, lower.last().0@);
        lemma_mul_inequality(lower.last().1 as int, higher.last().1 as int, w);
    }
}

/// Raising scores does not lower the number of active categories.
pub proof fn lemma_active_monotonic(
    lower: Seq<(RepIDCategory, u32)>,
    higher: Seq<(RepIDCategory, u32)>,
)
    requires
        scores_raised(lower, higher),
    ensures
        active_categories(lower).len() <= active_categories(higher).len(),
    decreases lower.len(),
{
    if lower.len() > 0 {
        lemma_raised_drop_last(lower, higher);
        lemma_active_monotonic(lower.drop_last(), higher.drop_last());
    }
}

/// Monotonicity: where no weight and no bonus factor is below zero, no
/// synergy multiplier is below `1.0`, and decay is not applied, raising
/// scores does not lower the final score.
pub proof fn lemma_final_score_monotonic(
    scorer: HierarchicalScorer,
    lower: Seq<(RepIDCategory, u32)>,
    higher: Seq<(RepIDCategory, u32)>,
    timestamp: u64,
    time_window: u64,
)
    requires
        weights_nonnegative(scorer.category_weights@),
        factor_nonnegative(scorer.decay_config),
        synergies_reward(scorer.synergy_matrix@),
        scores_raised(lower, higher),
        !decay_applies(scorer.decay_config, timestamp, time_window),
    ensures
        scorer.spec_final_score(lower, timestamp, time_window) <= scorer.spec_final_score(
            higher,
            timestamp,
            time_window,
        ),
{
    lemma_base_monotonic(scorer.category_weights@, lower, higher);
    lemma_synergy_monotonic(scorer.synergy_matrix@, lower, higher, lower.len() as int);
    lemma_active_monotonic(lower, higher);
    let low_active = active_categories(lower).len() as int;
    let high_active = active_categories(higher).len() as int;
    match scorer.decay_config {
        Some(d) => {
            lemma_mul_inequality(low_active, high_active, d.multiplicative_factor as int);
        },
        None => {},
    }
    lemma_truncate_monotonic(
        base_points(scorer.category_weights@, lower) + synergy_points(
            scorer.synergy_matrix@,
            lower,
            lower.len() as int,
        ) + bonus_points(scorer.decay_config, low_active),
        base_points(scorer.category_weights@, higher) + synergy_points(
            scorer.synergy_matrix@,
            higher,
            higher.len() as int,
        ) + bonus_points(scorer.decay_config, high_active),
        BASIS_POINTS as int,
    );
}

/// Raising one score and leaving the others as they are does not lower the
/// final score, where no weight and no bonus factor is below zero, no
/// synergy multiplier is below `1.0`, and decay is not applied.
pub proof fn lemma_single_score_monotonic(
    scorer: HierarchicalScorer,
    scores: Seq<(RepIDCategory, u32)>,
    index: int,
    raised: u32,
    timestamp: u64,
    time_window: u64,
)
    requires
        weights_nonnegative(scorer.category_weights@),
        factor_nonnegative(scorer.decay_config),
        synergies_reward(scorer.synergy_matrix@),
        0 <= index < scores.len(),
        raised >= scores[index].1,
        !decay_applies(scorer.decay_config, timestamp, time_window),
    ensures
        scorer.spec_final_score(scores, timestamp, time_window) <= scorer.spec_final_score(
            scores.update(index, (scores[index].0, raised)),
            timestamp,
            time_window,
        ),
{
    lemma_final_score_monotonic(
        scorer,
        scores,
        scores.update(index, (scores[index].0, raised)),
        timestamp,
        time_window,
    );
}

/// Within the time window no decay is applied; and the final score is then
/// at least the base score, where no synergy multiplier is below `1.0` and
/// the bonus factor is not below zero.
pub proof fn lemma_no_decay_within_window(
    scorer: HierarchicalScorer,
    scores: Seq<(RepIDCategory, u32)>,
    timestamp: u64,
    time_window: u64,
)
    requires
        timestamp <= time_window,
    ensures
        !decay_applies(scorer.decay_config, timestamp, time_window),
        synergies_reward(scorer.synergy_matrix@) && factor_nonnegative(scorer.decay_config)
            ==> scorer.spec_final_score(scores, timestamp, time_window) >= scorer.spec_base_score(
            scores,
        ),
{
    if synergies_reward(scorer.synergy_matrix@) && factor_nonnegative(scorer.decay_config) {
        assert(scores_raised(scores, scores));
        lemma_synergy_monotonic(scorer.synergy_matrix@, scores, scores, scores.len() as int);
        let active = active_categories(scores).len() as int;
        let bonus = bonus_points(scorer.decay_config, active);
        match scorer.decay_config {
            Some(d) => {
                assert(active * d.multiplicative_factor >= 0) by (nonlinear_arith)
                    requires
                        active >= 0,
                        d.multiplicative_factor >= 0,
                ;
            },
            None => {},
        }
        let base = base_points(scorer.category_weights@, scores);
        let synergy = synergy_points(scorer.synergy_matrix@, scores, scores.len() as int);
        lemma_truncate_monotonic(base, base + synergy + bonus, BASIS_POINTS as int);
    }
}

/// Where decay is applied and the bonus factor is not below zero, the final
/// score is not below the configured minimum, however late the timestamp.
pub proof fn lemma_decay_keeps_minimum(
    scorer: HierarchicalScorer,
    scores: Seq<(RepIDCategory, u32)>,
    timestamp: u64,
    time_window: u64,
)
    requires
        decay_applies(scorer.decay_config, timestamp, time_window),
        factor_nonnegative(scorer.decay_config),
    ensures
        scorer.spec_final_score(scores, timestamp, time_window)
            >= scorer.decay_config->0.min_threshold,
{
    let d = scorer.decay_config->0;
    let active = active_categories(scores).len() as int;
    let floor = d.min_threshold * DECAY_SCALE;
    assert(active * d.multiplicative_factor * DECAY_DENOMINATOR >= 0) by (nonlinear_arith)
        requires
            active >= 0,
            d.multiplicative_factor >= 0,
            DECAY_DENOMINATOR > 0,
    ;
    lemma_div_multiples_vanish(d.min_threshold as int, DECAY_SCALE as int);
    assert(truncate_points(floor, DECAY_SCALE as int) == d.min_threshold);
    let points = base_points(scorer.category_weights@, scores) + synergy_points(
        scorer.synergy_matrix@,
        scores,
        scores.len() as int,
    );
    let kept = points * (DECAY_DENOMINATOR - d.base_decay_rate * (timestamp - time_window));
    let raised = if kept < floor {
        floor
    } else {
        kept
    };
    lemma_truncate_monotonic(
        floor,
        raised + bonus_points(scorer.decay_config, active) * DECAY_DENOMINATOR,
        DECAY_SCALE as int,
    );
}

/// Every score is zero.
pub open spec fn scores_zero(scores: Seq<(RepIDCategory, u32)>) -> bool {
    forall|i: int| 0 <= i < scores.len() ==> (#[trigger] scores[i]).1 == 0
}

proof fn lemma_zero_base(weights: Seq<(RepIDCategory, i64)>, scores: Seq<(RepIDCategory, u32)>)
    requires
        scores_zero(scores),
    ensures
        base_points(weights, scores) == 0,
        active_categories(scores).len() == 0,
    decreases scores.len(),
{
    if scores.len() > 0 {
        assert(scores.last() == scores[scores.len() - 1]);
        assert(scores_zero(scores.drop_last())) by {
            assert forall|i: int| 0 <= i < scores.drop_last().len() implies (
            #[trigger] scores.drop_last()[i]).1 == 0 by {
                assert(scores.drop_last()[i] == scores[i]);
            }
        }
        lemma_zero_base(weights, scores.drop_last());
    }
}

proof fn lemma_zero_row(synergies: Seq<Synergy>, scores: Seq<(RepIDCategory, u32)>, i: int, end: int)
    requires
        scores_zero(scores),
        0 <= i < scores.len(),
        end <= scores.len(),
    ensures
        row_synergy(synergies, scores, i, end) == 0,
    decreases end - i,
{
    if end > i + 1 {
        lemma_zero_row(synergies, scores, i, end - 1);
    }
}

proof fn lemma_zero_synergy(synergies: Seq<Synergy>, scores: Seq<(RepIDCategory, u32)>, end: int)
    requires
        scores_zero(scores),
        end <= scores.len(),
    ensures
        synergy_points(synergies, scores, end) == 0,
    decreases end,
{
    if end > 0 {
        lemma_zero_synergy(synergies, scores, end - 1);
        lemma_zero_row(synergies, scores, end - 1, scores.len() as int);
    }
}

/// Where every score is zero, no category is active and the base score and
/// the synergy bonus are zero; without decay the final score is zero too.
pub proof fn lemma_zero_scores(
    scorer: HierarchicalScorer,
    scores: Seq<(RepIDCategory, u32)>,
    timestamp: u64,
    time_window: u64,
)
    requires
        scores_zero(scores),
    ensures
        active_categories(scores).len() == 0,
        scorer.spec_base_score(scores) == 0,
        scorer.spec_synergy_bonus(scores) == 0,
        scorer.spec_multiplicative_bonus(scores) == 0,
        !decay_applies(scorer.decay_config, timestamp, time_window) ==> scorer.spec_final_score(
            scores,
            timestamp,
            time_window,
        ) == 0,
{
    lemma_zero_base(scorer.category_weights@, scores);
    lemma_zero_synergy(scorer.synergy_matrix@, scores, scores.len() as int);
}

} // verus!

//! Hierarchical scoring: weighted category scores, synergies between pairs
//! of categories, decay over time, and a bonus for sustained activity.
//!
//! Weights, synergy multipliers and the bonus factor are signed fixed-point
//! numbers in basis points (`10_000` is `1.0`, `-5_000` is `-0.5`), and every
//! formula is evaluated exactly over the integers, whatever the number of
//! entries; a score is rounded down, and held between zero and `u32::MAX`,
//! only where it is written into a result.

use vstd::prelude::*;
use vstd::arithmetic::div_mod::*;
use vstd::arithmetic::mul::*;
use crate::field::BabyBearField;
use crate::field::reduce;
use crate::scoring_bounds::lemma_active_len;
use crate::scoring_bounds::lemma_base_parts;
use crate::scoring_bounds::lemma_first_score_bounds;
use crate::scoring_bounds::lemma_parts;
use crate::scoring_bounds::lemma_parts_bound;
use crate::scoring_bounds::lemma_quotient_saturates;
use crate::scoring_bounds::lemma_row_part_inactive;
use crate::scoring_bounds::lemma_synergy_lookup_push;
use crate::scoring_bounds::lemma_synergy_lookup_update;
use crate::scoring_bounds::lemma_weight_bounds;
use crate::scoring_bounds::lemma_weight_lookup_push;
use crate::scoring_bounds::lemma_weight_lookup_update;
use crate::scoring_bounds::max_term;
use crate::types::BASIS_POINTS;
use crate::types::CategoryId;
use crate::types::DECAY_DENOMINATOR;
use crate::types::DECAY_SCALE;
use crate::types::DecayParameters;
use crate::types::RepIDCategory;
use crate::wide::Wide;

verus! {

/// A synergy between two categories: the multiplier, in basis points, that
/// the sum of their scores earns.
#[derive(Debug, Clone)]
pub struct Synergy {
    /// The first category of the pair.
    pub first: RepIDCategory,
    /// The second category of the pair.
    pub second: RepIDCategory,
    /// The multiplier in basis points.
    pub multiplier: i64,
}

/// The outcome of a score calculation.
#[derive(Debug, Clone)]
pub struct ScoreResult {
    /// The weighted sum of the scores, rounded down.
    pub base_score: u32,
    /// The synergy bonus, rounded down; zero where it is negative.
    pub synergy_bonus: u32,
    /// The bonus for sustained activity, rounded down.
    pub multiplicative_bonus: u32,
    /// The final score.
    pub final_score: u32,
    /// The categories with a score above zero.
    pub active_categories: Vec<RepIDCategory>,
    /// Whether decay was applied.
    pub decay_applied: bool,
    /// The timestamp of the calculation.
    pub timestamp: u64,
}

/// A range of scores.
#[derive(Debug, Clone, Copy, PartialEq, Eq, Structural)]
pub enum ScoreRange {
    /// 0 to 33.
    Low,
    /// 34 to 66.
    Medium,
    /// 67 to 100.
    High,
    /// Above 100.
    Expert,
}

/// A rule that multiplies a score where each of its conditions is met.
#[derive(Debug, Clone)]
pub struct FuzzyRule {
    /// The range that each named category's score must lie in.
    pub conditions: Vec<(RepIDCategory, ScoreRange)>,
    /// The multiplier in basis points.
    pub output_multiplier: i64,
    /// What the rule stands for.
    pub description: String,
}

/// The scoring engine.
#[derive(Debug, Clone)]
pub struct HierarchicalScorer {
    /// The weight of each category in basis points; a category without an
    /// entry weighs `1.0`.
    pub category_weights: Vec<(RepIDCategory, i64)>,
    /// The decay, if any is configured.
    pub decay_config: Option<DecayParameters>,
    /// The synergies between pairs of categories.
    pub synergy_matrix: Vec<Synergy>,
}

/// The weight recorded for `category`: that of the first entry for it.
pub open spec fn weight_lookup(entries: Seq<(RepIDCategory, i64)>, category: CategoryId) -> Option<
    i64,
>
    decreases entries.len(),
{
    if entries.len() == 0 {
        None
    } else if entries[0].0@ == category {
        Some(entries[0].1)
    } else {
        weight_lookup(entries.drop_first(), category)
    }
}

/// The weight of `category` in basis points: the recorded one, else `1.0`.
pub open spec fn weight_of(entries: Seq<(RepIDCategory, i64)>, category: CategoryId) -> int {
    match weight_lookup(entries, category) {
        Some(w) => w as int,
        None => BASIS_POINTS as int,
    }
}

/// The multiplier recorded for the ordered pair `(a, b)`: that of the first
/// entry for it.
pub open spec fn synergy_lookup(entries: Seq<Synergy>, a: CategoryId, b: CategoryId) -> Option<i64>
    decreases entries.len(),
{
    if entries.len() == 0 {
        None
    } else if entries[0].first@ == a && entries[0].second@ == b {
        Some(entries[0].multiplier)
    } else {
        synergy_lookup(entries.drop_first(), a, b)
    }
}

/// The multiplier of the unordered pair: the one recorded for `(a, b)`, else
/// the one recorded for `(b, a)`.
pub open spec fn synergy_of(entries: Seq<Synergy>, a: CategoryId, b: CategoryId) -> Option<i64> {
    match synergy_lookup(entries, a, b) {
        Some(m) => Some(m),
        None => synergy_lookup(entries, b, a),
    }
}

/// No category has two weights.
pub open spec fn weights_distinct(entries: Seq<(RepIDCategory, i64)>) -> bool {
    forall|i: int, j: int|
        0 <= i < j < entries.len() ==> (#[trigger] entries[i]).0@ != (#[trigger] entries[j]).0@
}

/// No ordered pair has two synergies.
pub open spec fn synergies_distinct(entries: Seq<Synergy>) -> bool {
    forall|i: int, j: int|
        0 <= i < j < entries.len() ==> !((#[trigger] entries[i]).first@ == (
        #[trigger] entries[j]).first@ && entries[i].second@ == entries[j].second@)
}

/// No weight is below zero.
pub open spec fn weights_nonnegative(entries: Seq<(RepIDCategory, i64)>) -> bool {
    forall|k: int| 0 <= k < entries.len() ==> (#[trigger] entries[k]).1 >= 0
}

/// The bonus factor, where decay is configured, is not below zero.
pub open spec fn factor_nonnegative(decay: Option<DecayParameters>) -> bool {
    decay matches Some(d) ==> d.multiplicative_factor >= 0
}

/// No synergy multiplier is below `1.0`.
pub open spec fn synergies_reward(synergies: Seq<Synergy>) -> bool {
    forall|k: int| 0 <= k < synergies.len() ==> (#[trigger] synergies[k]).multiplier >= BASIS_POINTS
}

/// The score of the first entry for `category`; zero where there is none.
pub open spec fn first_score(scores: Seq<(RepIDCategory, u32)>, category: CategoryId) -> int
    decreases scores.len(),
{
    if scores.len() == 0 {
        0
    } else if scores[0].0@ == category {
        scores[0].1 as int
    } else {
        first_score(scores.drop_first(), category)
    }
}

/// What one entry adds to the base score, in basis points: its score times
/// the weight of its category.
pub open spec fn base_term(weights: Seq<(RepIDCategory, i64)>, entry: (RepIDCategory, u32)) -> int {
    entry.1 * weight_of(weights, entry.0@)
}

/// The base score in basis points: the weighted sum of the scores.
pub open spec fn base_points(
    weights: Seq<(RepIDCategory, i64)>,
    scores: Seq<(RepIDCategory, u32)>,
) -> int
    decreases scores.len(),
{
    if scores.len() == 0 {
        0
    } else {
        base_points(weights, scores.drop_last()) + base_term(weights, scores.last())
    }
}

/// The categories with a score above zero, in the order of the entries.
pub open spec fn active_categories(scores: Seq<(RepIDCategory, u32)>) -> Seq<RepIDCategory>
    decreases scores.len(),
{
    if scores.len() == 0 {
        Seq::empty()
    } else if scores.last().1 > 0 {
        active_categories(scores.drop_last()).push(scores.last().0)
    } else {
        active_categories(scores.drop_last())
    }
}

/// What the pair of entries `i` and `j` adds to the synergy bonus, in basis
/// points: where both are active and a synergy is recorded for their
/// categories, the sum of the two categories' scores times the multiplier
/// less one.
pub open spec fn pair_term(
    synergies: Seq<Synergy>,
    scores: Seq<(RepIDCategory, u32)>,
    i: int,
    j: int,
) -> int {
    if scores[i].1 > 0 && scores[j].1 > 0 {
        match synergy_of(synergies, scores[i].0@, scores[j].0@) {
            Some(m) => (first_score(scores, scores[i].0@) + first_score(scores, scores[j].0@)) * (m
                - BASIS_POINTS),
            None => 0,
        }
    } else {
        0
    }
}

/// The sum of the pair terms of entry `i` with the entries after it and
/// before `end`.
pub open spec fn row_synergy(
    synergies: Seq<Synergy>,
    scores: Seq<(RepIDCategory, u32)>,
    i: int,
    end: int,
) -> int
    decreases end - i,
{
    if end <= i + 1 {
        0
    } else {
        row_synergy(synergies, scores, i, end - 1) + pair_term(synergies, scores, i, end - 1)
    }
}

/// The synergy bonus in basis points of the pairs whose first entry lies
/// before `end`.
pub open spec fn synergy_points(
    synergies: Seq<Synergy>,
    scores: Seq<(RepIDCategory, u32)>,
    end: int,
) -> int
    decreases end,
{
    if end <= 0 {
        0
    } else {
        synergy_points(synergies, scores, end - 1) + row_synergy(
            synergies,
            scores,
            end - 1,
            scores.len() as int,
        )
    }
}

/// One part of what an entry adds to the base score: the term where it is
/// above zero for the part that adds, its size where it is below zero for
/// the part that takes away.
pub open spec fn base_part_term(
    weights: Seq<(RepIDCategory, i64)>,
    entry: (RepIDCategory, u32),
    adds: bool,
) -> int {
    let term = base_term(weights, entry);
    if adds {
        if term > 0 {
            term
        } else {
            0
        }
    } else {
        if term < 0 {
            -term
        } else {
            0
        }
    }
}

/// One part of the base score: the base score is the part that adds less
/// the part that takes away.
pub open spec fn base_part(
    weights: Seq<(RepIDCategory, i64)>,
    scores: Seq<(RepIDCategory, u32)>,
    adds: bool,
) -> int
    decreases scores.len(),
{
    if scores.len() == 0 {
        0
    } else {
        base_part(weights, scores.drop_last(), adds) + base_part_term(weights, scores.last(), adds)
    }
}

/// One part of a pair term: the term where it is above zero for the part
/// that adds, its size where it is below zero for the part that takes away.
pub open spec fn part_term(
    synergies: Seq<Synergy>,
    scores: Seq<(RepIDCategory, u32)>,
    i: int,
    j: int,
    adds: bool,
) -> int {
    let term = pair_term(synergies, scores, i, j);
    if adds {
        if term > 0 {
            term
        } else {
            0
        }
    } else {
        if term < 0 {
            -term
        } else {
            0
        }
    }
}

/// One part of the pair terms of entry `i` with the entries after it and
/// before `end`.
pub open spec fn row_part(
    synergies: Seq<Synergy>,
    scores: Seq<(RepIDCategory, u32)>,
    i: int,
    end: int,
    adds: bool,
) -> int
    decreases end - i,
{
    if end <= i + 1 {
        0
    } else {
        row_part(synergies, scores, i, end - 1, adds) + part_term(
            synergies,
            scores,
            i,
            end - 1,
            adds,
        )
    }
}

/// One part of the synergy bonus of the pairs whose first entry lies before
/// `end`: the bonus is the part that adds less the part that takes away.
pub open spec fn part_points(
    synergies: Seq<Synergy>,
    scores: Seq<(RepIDCategory, u32)>,
    end: int,
    adds: bool,
) -> int
    decreases end,
{
    if end <= 0 {
        0
    } else {
        part_points(synergies, scores, end - 1, adds) + row_part(
            synergies,
            scores,
            end - 1,
            scores.len() as int,
            adds,
        )
    }
}

/// A quotient of integers as a score: rounded towards zero, not below zero
/// and not above `u32::MAX`.
pub open spec fn truncate_points(numerator: int, denominator: int) -> int {
    if numerator <= 0 {
        0
    } else if numerator / denominator > u32::MAX {
        u32::MAX as int
    } else {
        numerator / denominator
    }
}

/// Whether decay applies: it is configured and the timestamp lies beyond the
/// time window.
pub open spec fn decay_applies(decay: Option<DecayParameters>, timestamp: u64, time_window: u64) -> bool {
    decay is Some && timestamp > time_window
}

/// The bonus for sustained activity in basis points: the number of active
/// categories times the configured factor; zero where no decay is configured.
pub open spec fn bonus_points(decay: Option<DecayParameters>, active: int) -> int {
    match decay {
        Some(d) => active * d.multiplicative_factor,
        None => 0,
    }
}

/// The final score of `points` basis points before decay and bonus.
///
/// Without decay it is the points plus the bonus. With decay the points lose
/// the fraction `rate * elapsed / (10_000 * 86_400)`, are raised to the
/// minimum where they fall below it, and then gain the bonus.
pub open spec fn final_points(
    points: int,
    bonus: int,
    decay: Option<DecayParameters>,
    timestamp: u64,
    time_window: u64,
) -> int {
    if decay_applies(decay, timestamp, time_window) {
        let d = decay->0;
        let kept = points * (DECAY_DENOMINATOR - d.base_decay_rate * (timestamp - time_window));
        let floor = d.min_threshold * DECAY_SCALE;
        let raised = if kept < floor {
            floor
        } else {
            kept
        };
        truncate_points(raised + bonus * DECAY_DENOMINATOR, DECAY_SCALE as int)
    } else {
        truncate_points(points + bonus, BASIS_POINTS as int)
    }
}

/// The weight of each category in a new scorer, in basis points.
pub open spec fn default_weight(category: CategoryId) -> int {
    match category {
        CategoryId::Governance => 10_000,
        CategoryId::Community => 8_000,
        CategoryId::Technical => 12_000,
        CategoryId::FaithTech => 9_000,
        CategoryId::DeFi => 11_000,
        CategoryId::Custom(_) => 10_000,
    }
}

/// The synergy recorded in a new scorer for the ordered pair `(a, b)`.
pub open spec fn default_synergy_entry(a: CategoryId, b: CategoryId) -> Option<i64> {
    if a == CategoryId::Governance && b == CategoryId::Technical {
        Some(13_000i64)
    } else if a == CategoryId::Community && b == CategoryId::FaithTech {
        Some(12_500i64)
    } else if a == CategoryId::Technical && b == CategoryId::DeFi {
        Some(12_000i64)
    } else {
        None
    }
}

/// The synergy of the unordered pair in a new scorer: 1.3 for governance and
/// technical, 1.25 for community and faith-tech, 1.2 for technical and DeFi.
pub open spec fn default_synergy(a: CategoryId, b: CategoryId) -> Option<i64> {
    match default_synergy_entry(a, b) {
        Some(m) => Some(m),
        None => default_synergy_entry(b, a),
    }
}

/// The first entry for `category`, if any.
pub fn find_weight(entries: &Vec<(RepIDCategory, i64)>, category: &RepIDCategory) -> (r: Option<
    usize,
>)
    ensures
        r matches Some(i) ==> i < entries@.len() && entries@[i as int].0@ == category@
            && weight_lookup(entries@, category@) == Some(entries@[i as int].1) && forall|k: int|
            0 <= k < i ==> (#[trigger] entries@[k]).0@ != category@,
        r is None ==> weight_lookup(entries@, category@) is None && forall|k: int|
            0 <= k < entries@.len() ==> (#[trigger] entries@[k]).0@ != category@,
{
    let mut i: usize = 0;
    assert(entries@.skip(0) =~= entries@);
    while i < entries.len()
        invariant
            i <= entries@.len(),
            weight_lookup(entries@, category@) == weight_lookup(entries@.skip(i as int), category@),
            forall|k: int| 0 <= k < i ==> (#[trigger] entries@[k]).0@ != category@,
        decreases entries@.len() - i,
    {
        assert(entries@.skip(i as int)[0] == entries@[i as int]);
        assert(entries@.skip(i as int).drop_first() =~= entries@.skip(i + 1));
        if entries[i].0 == *category {
            return Some(i);
        }
        i = i + 1;
    }
    None
}

/// The first entry for the ordered pair `(a, b)`, if any.
pub fn find_synergy(entries: &Vec<Synergy>, a: &RepIDCategory, b: &RepIDCategory) -> (r: Option<
    usize,
>)
    ensures
        r matches Some(i) ==> i < entries@.len() && entries@[i as int].first@ == a@
            && entries@[i as int].second@ == b@ && synergy_lookup(entries@, a@, b@) == Some(
            entries@[i as int].multiplier,
        ) && forall|k: int|
            0 <= k < i ==> !((#[trigger] entries@[k]).first@ == a@ && entries@[k].second@ == b@),
        r is None ==> synergy_lookup(entries@, a@, b@) is None && forall|k: int|
            0 <= k < entries@.len() ==> !((#[trigger] entries@[k]).first@ == a@
                && entries@[k].second@ == b@),
{
    let mut i: usize = 0;
    assert(entries@.skip(0) =~= entries@);
    while i < entries.len()
        invariant
            i <= entries@.len(),
            synergy_lookup(entries@, a@, b@) == synergy_lookup(entries@.skip(i as int), a@, b@),
            forall|k: int|
                0 <= k < i ==> !((#[trigger] entries@[k]).first@ == a@ && entries@[k].second@
                    == b@),
        decreases entries@.len() - i,
    {
        assert(entries@.skip(i as int)[0] == entries@[i as int]);
        assert(entries@.skip(i as int).drop_first() =~= entries@.skip(i + 1));
        if entries[i].first == *a && entries[i].second == *b {
            return Some(i);
        }
        i = i + 1;
    }
    None
}

/// The score of the first entry for `category`; zero where there is none.
pub fn find_score(user_scores: &[(RepIDCategory, u32)], category: &RepIDCategory) -> (score: u32)
    ensures
        score == first_score(user_scores@, category@),
{
    let mut i: usize = 0;
    assert(user_scores@.skip(0) =~= user_scores@);
    while i < user_scores.len()
        invariant
            i <= user_scores@.len(),
            first_score(user_scores@, category@) == first_score(
                user_scores@.skip(i as int),
                category@,
            ),
        decreases user_scores@.len() - i,
    {
        assert(user_scores@.skip(i as int)[0] == user_scores@[i as int]);
        assert(user_scores@.skip(i as int).drop_first() =~= user_scores@.skip(i + 1));
        if user_scores[i].0 == *category {
            return user_scores[i].1;
        }
        i = i + 1;
    }
    0
}

/// Rounds the quotient of a numerator and a positive denominator towards
/// zero into a score.
fn truncate_quotient(numerator: u128, denominator: u128) -> (score: u32)
    requires
        denominator > 0,
    ensures
        score == truncate_points(numerator as int, denominator as int),
{
    let quotient: u128 = numerator / denominator;
    if quotient > u32::MAX as u128 {
        u32::MAX
    } else {
        quotient as u32
    }
}

/// Rounds the quotient of a wide numerator and a positive denominator of at
/// most 96 bits towards zero into a score.
fn truncate_wide(numerator: Wide, denominator: u128) -> (score: u32)
    requires
        0 < denominator <= 0xffff_ffff_ffff_ffff_ffff_ffff,
    ensures
        score == truncate_points(numerator@, denominator as int),
{
    if numerator.hi > 0 {
        proof {
            lemma_quotient_saturates(numerator@, denominator as int);
        }
        u32::MAX
    } else {
        truncate_quotient(numerator.lo, denominator)
    }
}

/// The size of a number.
fn size_of(value: i128) -> (size: u128)
    requires
        value > i128::MIN,
    ensures
        size == if value >= 0 {
            value as int
        } else {
            -(value as int)
        },
{
    if value >= 0 {
        value as u128
    } else {
        (-value) as u128
    }
}

/// What is left of a gain after a loss, rounded into a score.
fn settle(gain: Wide, loss: Wide, denominator: u128) -> (score: u32)
    requires
        0 < denominator <= 0xffff_ffff_ffff_ffff_ffff_ffff,
    ensures
        score == truncate_points(gain@ - loss@, denominator as int),
{
    if gain.le(&loss) {
        0
    } else {
        truncate_wide(gain.sub(loss), denominator)
    }
}

/// The final score of `gain - loss` basis points with `bonus` basis points
/// of bonus.
fn finish_score(
    gain: Wide,
    loss: Wide,
    bonus: i128,
    decay: Option<DecayParameters>,
    timestamp: u64,
    time_window: u64,
) -> (score: u32)
    requires
        gain.hi < 0x100_0000_0000_0000_0000_0000_0000_0000,
        loss.hi < 0x100_0000_0000_0000_0000_0000_0000_0000,
        -0x7fff_ffff_ffff_ffff_ffff_ffff_ffff_ffff <= bonus <= 0x7fff_ffff_ffff_ffff_ffff_ffff_ffff_ffff,
    ensures
        score == final_points(gain@ - loss@, bonus as int, decay, timestamp, time_window),
{
    let applies: bool = match decay {
        Some(_) => timestamp > time_window,
        None => false,
    };
    let bonus_size: u128 = size_of(bonus);
    if !applies {
        if bonus >= 0 {
            settle(gain.add_u128(bonus_size), loss, BASIS_POINTS as u128)
        } else {
            settle(gain, loss.add_u128(bonus_size), BASIS_POINTS as u128)
        }
    } else {
        let d: DecayParameters = decay.unwrap();
        let elapsed: u64 = timestamp - time_window;
        let rate: u16 = d.base_decay_rate;
        let unit: u128 = DECAY_DENOMINATOR as u128;
        let scale: u128 = DECAY_SCALE as u128;
        proof {
            assert(0 <= rate * elapsed <= 0xffff * 0xffff_ffff_ffff_ffff) by (nonlinear_arith)
                requires
                    0 <= rate <= 0xffff,
                    0 <= elapsed <= 0xffff_ffff_ffff_ffff,
            ;
        }
        let rate_elapsed: u128 = (rate as u128) * (elapsed as u128);
        let floor: u128 = (d.min_threshold as u128) * scale;
        let bonus_parts: Wide = Wide::product(bonus_size, unit);
        let ghost points: int = gain@ - loss@;
        let ghost factor: int = unit - rate_elapsed;
        let ghost kept: int = points * factor;
        let ghost raised: int = if kept < floor {
            floor as int
        } else {
            kept
        };
        proof {
            assert(kept == points * (DECAY_DENOMINATOR - d.base_decay_rate * (timestamp
                - time_window)));
            assert(0 <= bonus_size * unit <= 0x7fff_ffff_ffff_ffff_ffff_ffff_ffff_ffff * 864_000_000)
                by (nonlinear_arith)
                requires
                    0 <= bonus_size <= 0x7fff_ffff_ffff_ffff_ffff_ffff_ffff_ffff,
                    unit == 864_000_000,
            ;
            assert(bonus * DECAY_DENOMINATOR == if bonus >= 0 {
                bonus_size * unit
            } else {
                -(bonus_size * unit)
            }) by (nonlinear_arith)
                requires
                    unit == DECAY_DENOMINATOR,
                    bonus_size == if bonus >= 0 {
                        bonus as int
                    } else {
                        -(bonus as int)
                    },
            ;
        }
        // the size of the points, and whether they are above zero
        let above: bool = !gain.le(&loss);
        let size: Wide = if above {
            gain.sub(loss)
        } else {
            loss.sub(gain)
        };
        // the size of the factor, and whether it is above zero
        let keeps: bool = rate_elapsed < unit;
        let share: u128 = if keeps {
            unit - rate_elapsed
        } else {
            rate_elapsed - unit
        };
        let grows: bool = share > 0 && (size.hi > 0 || size.lo > 0) && above == keeps;
        let left: Option<Wide> = if !grows {
            proof {
                assert(points * factor <= 0) by (nonlinear_arith)
                    requires
                        (points >= 0 && factor <= 0) || (points <= 0 && factor >= 0),
                ;
            }
            Some(Wide::from_u128(floor))
        } else {
            proof {
                assert(points * factor == size@ * share) by (nonlinear_arith)
                    requires
                        (size@ == points && share == factor) || (size@ == -points && share
                            == -factor),
                ;
            }
            match size.times(share) {
                Some(kept_parts) => {
                    if kept_parts.le(&Wide::from_u128(floor)) {
                        Some(Wide::from_u128(floor))
                    } else {
                        Some(kept_parts)
                    }
                },
                None => None,
            }
        };
        let small: Option<Wide> = match left {
            Some(left) => if left.hi < 0x1_0000_0000_0000_0000 {
                Some(left)
            } else {
                None
            },
            None => None,
        };
        match small {
            Some(left) => {
                assert(left@ == raised);
                if bonus >= 0 {
                    truncate_wide(left.add(bonus_parts), scale)
                } else {
                    settle(left, bonus_parts, scale)
                }
            },
            None => {
                proof {
                    assert(raised >= 0x1_0000_0000_0000_0000_0000_0000_0000_0000_0000_0000_0000_0000int);
                    lemma_quotient_saturates(raised + bonus * DECAY_DENOMINATOR, DECAY_SCALE as int);
                }
                u32::MAX
            },
        }
    }
}

impl ScoreRange {
    /// The range that `score` lies in.
    pub open spec fn spec_from_score(score: u32) -> ScoreRange {
        if score <= 33 {
            ScoreRange::Low
        } else if score <= 66 {
            ScoreRange::Medium
        } else if score <= 100 {
            ScoreRange::High
        } else {
            ScoreRange::Expert
        }
    }

    /// The range that `score` lies in.
    pub fn from_score(score: u32) -> (range: Self)
        ensures
            range == Self::spec_from_score(score),
    {
        if score <= 33 {
            ScoreRange::Low
        } else if score <= 66 {
            ScoreRange::Medium
        } else if score <= 100 {
            ScoreRange::High
        } else {
            ScoreRange::Expert
        }
    }
}

impl HierarchicalScorer {
    /// The scorer holds a map: no category has two weights, and no ordered
    /// pair of categories two synergies.
    pub open spec fn wf(&self) -> bool {
        weights_distinct(self.category_weights@) && synergies_distinct(self.synergy_matrix@)
    }

    /// The weight of `category` in basis points.
    pub open spec fn spec_weight(&self, category: CategoryId) -> int {
        weight_of(self.category_weights@, category)
    }

    /// The synergy multiplier of the unordered pair, if one is recorded.
    pub open spec fn spec_synergy(&self, a: CategoryId, b: CategoryId) -> Option<i64> {
        synergy_of(self.synergy_matrix@, a, b)
    }

    /// A scorer with the default weights and synergies, and no decay.
    pub fn new() -> (scorer: Self)
        ensures
            scorer.wf(),
            scorer.decay_config is None,
            forall|c: CategoryId| scorer.spec_weight(c) == default_weight(c),
            forall|a: CategoryId, b: CategoryId| scorer.spec_synergy(a, b) == default_synergy(a, b),
            synergies_reward(scorer.synergy_matrix@),
            weights_nonnegative(scorer.category_weights@),
    {
        let mut category_weights: Vec<(RepIDCategory, i64)> = Vec::new();
        category_weights.push((RepIDCategory::Governance, 10_000));
        category_weights.push((RepIDCategory::Community, 8_000));
        category_weights.push((RepIDCategory::Technical, 12_000));
        category_weights.push((RepIDCategory::FaithTech, 9_000));
        category_weights.push((RepIDCategory::DeFi, 11_000));
        let mut synergy_matrix: Vec<Synergy> = Vec::new();
        synergy_matrix.push(
            Synergy {
                first: RepIDCategory::Governance,
                second: RepIDCategory::Technical,
                multiplier: 13_000,
            },
        );
        synergy_matrix.push(
            Synergy {
                first: RepIDCategory::Community,
                second: RepIDCategory::FaithTech,
                multiplier: 12_500,
            },
        );
        synergy_matrix.push(
            Synergy {
                first: RepIDCategory::Technical,
                second: RepIDCategory::DeFi,
                multiplier: 12_000,
            },
        );
        proof {
            reveal_with_fuel(weight_lookup, 6);
            reveal_with_fuel(synergy_lookup, 4);
            let w = category_weights@;
            assert(w.drop_first() =~= seq![w[1], w[2], w[3], w[4]]);
            assert(w.drop_first().drop_first() =~= seq![w[2], w[3], w[4]]);
            assert(w.drop_first().drop_first().drop_first() =~= seq![w[3], w[4]]);
            assert(w.drop_first().drop_first().drop_first().drop_first() =~= seq![w[4]]);
            assert(w.drop_first().drop_first().drop_first().drop_first().drop_first()
                =~= Seq::empty());
            let m = synergy_matrix@;
            assert(m.drop_first() =~= seq![m[1], m[2]]);
            assert(m.drop_first().drop_first() =~= seq![m[2]]);
            assert(m.drop_first().drop_first().drop_first() =~= Seq::empty());
        }
        HierarchicalScorer { category_weights, decay_config: None, synergy_matrix }
    }

    /// The same scorer with decay configured.
    pub fn with_decay(self, decay_params: DecayParameters) -> (scorer: Self)
        ensures
            self.wf() ==> scorer.wf(),
            scorer.decay_config == Some(decay_params),
            scorer.category_weights == self.category_weights,
            scorer.synergy_matrix == self.synergy_matrix,
    {
        let mut scorer = self;
        scorer.decay_config = Some(decay_params);
        scorer
    }

    /// Records `weight`, in basis points, as the weight of `category`.
    pub fn set_category_weight(&mut self, category: RepIDCategory, weight: i64)
        ensures
            old(self).wf() ==> final(self).wf(),
            weights_nonnegative(old(self).category_weights@) && weight >= 0 ==> weights_nonnegative(
                final(self).category_weights@,
            ),
            final(self).decay_config == old(self).decay_config,
            final(self).synergy_matrix == old(self).synergy_matrix,
            forall|c: CategoryId|
                final(self).spec_weight(c) == if c == category@ {
                    weight as int
                } else {
                    old(self).spec_weight(c)
                },
    {
        let ghost before = self.category_weights@;
        let ghost entry = (category, weight);
        match find_weight(&self.category_weights, &category) {
            Some(i) => {
                self.category_weights[i] = (category, weight);
                proof {
                    assert(self.category_weights@ =~= before.update(i as int, entry));
                    assert forall|c: CategoryId|
                        weight_lookup(self.category_weights@, c) == if c == entry.0@ {
                            Some(weight)
                        } else {
                            weight_lookup(before, c)
                        } by {
                        lemma_weight_lookup_update(before, i as int, entry, c);
                    }
                }
            },
            None => {
                self.category_weights.push((category, weight));
                proof {
                    assert forall|c: CategoryId|
                        weight_lookup(self.category_weights@, c) == if c == entry.0@ {
                            Some(weight)
                        } else {
                            weight_lookup(before, c)
                        } by {
                        lemma_weight_lookup_push(before, entry, c);
                    }
                }
            },
        }
    }

    /// Records `multiplier`, in basis points, for an ordered pair.
    fn set_ordered_synergy(&mut self, first: RepIDCategory, second: RepIDCategory, multiplier: i64)
        ensures
            old(self).wf() ==> final(self).wf(),
            final(self).decay_config == old(self).decay_config,
            final(self).category_weights == old(self).category_weights,
            synergies_reward(old(self).synergy_matrix@) && multiplier >= BASIS_POINTS
                ==> synergies_reward(final(self).synergy_matrix@),
            forall|a: CategoryId, b: CategoryId|
                synergy_lookup(final(self).synergy_matrix@, a, b) == if a == first@ && b
                    == second@ {
                    Some(multiplier)
                } else {
                    synergy_lookup(old(self).synergy_matrix@, a, b)
                },
    {
        let ghost before = self.synergy_matrix@;
        match find_synergy(&self.synergy_matrix, &first, &second) {
            Some(i) => {
                let entry = Synergy { first, second, multiplier };
                let ghost e = entry;
                self.synergy_matrix[i] = entry;
                proof {
                    assert(self.synergy_matrix@ =~= before.update(i as int, e));
                    assert forall|a: CategoryId, b: CategoryId|
                        synergy_lookup(self.synergy_matrix@, a, b) == if a == e.first@ && b
                            == e.second@ {
                            Some(multiplier)
                        } else {
                            synergy_lookup(before, a, b)
                        } by {
                        lemma_synergy_lookup_update(before, i as int, e, a, b);
                    }
                }
            },
            None => {
                let entry = Synergy { first, second, multiplier };
                let ghost e = entry;
                self.synergy_matrix.push(entry);
                proof {
                    assert forall|a: CategoryId, b: CategoryId|
                        synergy_lookup(self.synergy_matrix@, a, b) == if a == e.first@ && b
                            == e.second@ {
                            Some(multiplier)
                        } else {
                            synergy_lookup(before, a, b)
                        } by {
                        lemma_synergy_lookup_push(before, e, a, b);
                    }
                }
            },
        }
    }

    /// Records `multiplier`, in basis points, as the synergy between two
    /// categories, in both orders.
    pub fn set_synergy(&mut self, cat1: RepIDCategory, cat2: RepIDCategory, multiplier: i64)
        ensures
            old(self).wf() ==> final(self).wf(),
            final(self).decay_config == old(self).decay_config,
            final(self).category_weights == old(self).category_weights,
            synergies_reward(old(self).synergy_matrix@) && multiplier >= BASIS_POINTS
                ==> synergies_reward(final(self).synergy_matrix@),
            forall|a: CategoryId, b: CategoryId|
                final(self).spec_synergy(a, b) == if (a == cat1@ && b == cat2@) || (a == cat2@
                    && b == cat1@) {
                    Some(multiplier)
                } else {
                    old(self).spec_synergy(a, b)
                },
    {
        self.set_ordered_synergy(cat1.clone(), cat2.clone(), multiplier);
        self.set_ordered_synergy(cat2, cat1, multiplier);
    }

    /// The base score of `scores`, rounded down.
    pub open spec fn spec_base_score(&self, scores: Seq<(RepIDCategory, u32)>) -> int {
        truncate_points(base_points(self.category_weights@, scores), BASIS_POINTS as int)
    }

    /// The synergy bonus of `scores`, rounded down; zero where it is negative.
    pub open spec fn spec_synergy_bonus(&self, scores: Seq<(RepIDCategory, u32)>) -> int {
        truncate_points(
            synergy_points(self.synergy_matrix@, scores, scores.len() as int),
            BASIS_POINTS as int,
        )
    }

    /// The bonus for sustained activity of `scores`, rounded down.
    pub open spec fn spec_multiplicative_bonus(&self, scores: Seq<(RepIDCategory, u32)>) -> int {
        truncate_points(
            bonus_points(self.decay_config, active_categories(scores).len() as int),
            BASIS_POINTS as int,
        )
    }

    /// The final score of `scores` at `timestamp`.
    pub open spec fn spec_final_score(
        &self,
        scores: Seq<(RepIDCategory, u32)>,
        timestamp: u64,
        time_window: u64,
    ) -> int {
        final_points(
            base_points(self.category_weights@, scores) + synergy_points(
                self.synergy_matrix@,
                scores,
                scores.len() as int,
            ),
            bonus_points(self.decay_config, active_categories(scores).len() as int),
            self.decay_config,
            timestamp,
            time_window,
        )
    }

    /// Whether `result` is what a calculation on `scores` at `timestamp`
    /// returns.
    pub open spec fn score_matches(
        &self,
        result: ScoreResult,
        scores: Seq<(RepIDCategory, u32)>,
        timestamp: u64,
        time_window: u64,
    ) -> bool {
        &&& result.base_score == self.spec_base_score(scores)
        &&& result.synergy_bonus == self.spec_synergy_bonus(scores)
        &&& result.multiplicative_bonus == self.spec_multiplicative_bonus(scores)
        &&& result.final_score == self.spec_final_score(scores, timestamp, time_window)
        &&& result.active_categories@ == active_categories(scores)
        &&& result.decay_applied == decay_applies(self.decay_config, timestamp, time_window)
        &&& result.timestamp == timestamp
    }

    /// The two parts of the base score in basis points, what the entries add
    /// and what they take away, and the active categories.
    fn weighted_base(&self, user_scores: &[(RepIDCategory, u32)]) -> (r: (
        Wide,
        Wide,
        Vec<RepIDCategory>,
    ))
        ensures
            r.0@ == base_part(self.category_weights@, user_scores@, true),
            r.1@ == base_part(self.category_weights@, user_scores@, false),
            r.2@ == active_categories(user_scores@),
    {
        let mut adds: Wide = Wide::from_u128(0);
        let mut takes: Wide = Wide::from_u128(0);
        let mut active: Vec<RepIDCategory> = Vec::new();
        let mut i: usize = 0;
        assert(user_scores@.take(0) =~= Seq::empty());
        while i < user_scores.len()
            invariant
                i <= user_scores@.len(),
                adds@ == base_part(self.category_weights@, user_scores@.take(i as int), true),
                takes@ == base_part(self.category_weights@, user_scores@.take(i as int), false),
                active@ == active_categories(user_scores@.take(i as int)),
            decreases user_scores@.len() - i,
        {
            let raw: u32 = user_scores[i].1;
            proof {
                assert(user_scores@.take(i + 1).drop_last() =~= user_scores@.take(i as int));
                assert(user_scores@.take(i + 1).last() == user_scores@[i as int]);
                lemma_base_parts(self.category_weights@, user_scores@.take(i as int));
                lemma_weight_bounds(self.category_weights@, user_scores@[i as int].0@);
                assert(i * max_term() <= 0xffff_ffff_ffff_ffff * 0x8000_0000_0000_0000_0000_0000)
                    by (nonlinear_arith)
                    requires
                        0 <= i <= 0xffff_ffff_ffff_ffff,
                        max_term() == 0x8000_0000_0000_0000_0000_0000,
                ;
            }
            if raw > 0 {
                active.push(user_scores[i].0.clone());
                let weight: i64 = self.weight(&user_scores[i].0);
                let size: u128 = size_of(weight as i128);
                proof {
                    assert(0 <= raw * size <= 0xffff_ffff * 0x8000_0000_0000_0000)
                        by (nonlinear_arith)
                        requires
                            0 <= raw <= 0xffff_ffff,
                            0 <= size <= 0x8000_0000_0000_0000,
                    ;
                    assert(raw * weight == if weight >= 0 {
                        raw * size
                    } else {
                        -(raw * size)
                    }) by (nonlinear_arith)
                        requires
                            size == if weight >= 0 {
                                weight as int
                            } else {
                                -(weight as int)
                            },
                    ;
                }
                if weight >= 0 {
                    adds = adds.add_u128((raw as u128) * size);
                } else {
                    takes = takes.add_u128((raw as u128) * size);
                }
            } else {
                assert(base_term(self.category_weights@, user_scores@[i as int]) == 0) by {
                    lemma_mul_basics(weight_of(self.category_weights@, user_scores@[i as int].0@));
                }
            }
            i = i + 1;
        }
        assert(user_scores@.take(i as int) =~= user_scores@);
        (adds, takes, active)
    }

    /// The two parts of the synergy bonus in basis points: what the pairs
    /// add, and what they take away.
    fn synergy_parts(&self, user_scores: &[(RepIDCategory, u32)]) -> (r: (Wide, Wide))
        ensures
            r.0@ == part_points(
                self.synergy_matrix@,
                user_scores@,
                user_scores@.len() as int,
                true,
            ),
            r.1@ == part_points(
                self.synergy_matrix@,
                user_scores@,
                user_scores@.len() as int,
                false,
            ),
    {
        let n: usize = user_scores.len();
        let mut adds: Wide = Wide::from_u128(0);
        let mut takes: Wide = Wide::from_u128(0);
        let mut i: usize = 0;
        while i < n
            invariant
                n == user_scores@.len(),
                i <= n,
                adds@ == part_points(self.synergy_matrix@, user_scores@, i as int, true),
                takes@ == part_points(self.synergy_matrix@, user_scores@, i as int, false),
            decreases n - i,
        {
            if user_scores[i].1 > 0 {
                let own_score: u32 = find_score(user_scores, &user_scores[i].0);
                let mut j: usize = i + 1;
                while j < n
                    invariant
                        n == user_scores@.len(),
                        i < n,
                        i + 1 <= j <= n,
                        user_scores@[i as int].1 > 0,
                        own_score == first_score(user_scores@, user_scores@[i as int].0@),
                        adds@ == part_points(self.synergy_matrix@, user_scores@, i as int, true)
                            + row_part(self.synergy_matrix@, user_scores@, i as int, j as int, true),
                        takes@ == part_points(self.synergy_matrix@, user_scores@, i as int, false)
                            + row_part(
                            self.synergy_matrix@,
                            user_scores@,
                            i as int,
                            j as int,
                            false,
                        ),
                    decreases n - j,
                {
                    proof {
                        lemma_parts_bound(self.synergy_matrix@, user_scores@, i as int, j as int);
                        lemma_first_score_bounds(user_scores@, user_scores@[i as int].0@);
                        lemma_first_score_bounds(user_scores@, user_scores@[j as int].0@);
                    }
                    if user_scores[j].1 > 0 {
                        match self.synergy(&user_scores[i].0, &user_scores[j].0) {
                            Some(multiplier) => {
                                let other_score: u32 = find_score(user_scores, &user_scores[j].0);
                                let sum: u128 = own_score as u128 + other_score as u128;
                                if multiplier >= BASIS_POINTS as i64 {
                                    let bonus: u128 = (multiplier as i128 - BASIS_POINTS as i128) as u128;
                                    proof {
                                        assert(0 <= sum * bonus <= 2 * 0xffff_ffff
                                            * 0x8000_0000_0000_0000) by (nonlinear_arith)
                                            requires
                                                0 <= sum <= 2 * 0xffff_ffff,
                                                0 <= bonus <= 0x8000_0000_0000_0000,
                                        ;
                                    }
                                    adds = adds.add_u128(sum * bonus);
                                } else {
                                    let cost: u128 = (BASIS_POINTS as i128 - multiplier as i128) as u128;
                                    proof {
                                        assert(0 <= sum * cost <= 2 * 0xffff_ffff
                                            * 0x8000_0000_0000_2710) by (nonlinear_arith)
                                            requires
                                                0 <= sum <= 2 * 0xffff_ffff,
                                                0 <= cost <= 0x8000_0000_0000_2710,
                                        ;
                                        assert(sum * (multiplier - BASIS_POINTS) == -(sum * cost))
                                            by (nonlinear_arith)
                                            requires
                                                cost == BASIS_POINTS - multiplier,
                                        ;
                                    }
                                    takes = takes.add_u128(sum * cost);
                                }
                            },
                            None => {},
                        }
                    }
                    j = j + 1;
                }
            } else {
                proof {
                    lemma_row_part_inactive(
                        self.synergy_matrix@,
                        user_scores@,
                        i as int,
                        n as int,
                        true,
                    );
                    lemma_row_part_inactive(
                        self.synergy_matrix@,
                        user_scores@,
                        i as int,
                        n as int,
                        false,
                    );
                }
            }
            i = i + 1;
        }
        (adds, takes)
    }

    /// Calculates the score of `user_scores` at `timestamp`.
    ///
    /// The base score is the weighted sum of the scores. Each pair of active
    /// categories with a recorded synergy adds the sum of the two scores
    /// times the multiplier less one. Where decay is configured and the
    /// timestamp lies beyond the time window, the score decays; where decay
    /// is configured, each active category earns the bonus factor.
    pub fn calculate_score(
        &self,
        user_scores: &[(RepIDCategory, u32)],
        timestamp: u64,
        time_window: u64,
    ) -> (result: ScoreResult)
        ensures
            self.score_matches(result, user_scores@, timestamp, time_window),
    {
        let (base_adds, base_takes, active_categories) = self.weighted_base(user_scores);
        let (adds, takes) = self.synergy_parts(user_scores);
        let count: usize = user_scores.len();
        proof {
            let n = count as int;
            lemma_base_parts(self.category_weights@, user_scores@);
            lemma_parts(self.synergy_matrix@, user_scores@, n);
            lemma_parts_bound(self.synergy_matrix@, user_scores@, n, n + 1);
            lemma_active_len(user_scores@);
            assert(n * max_term() <= 0xffff_ffff_ffff_ffff * 0x8000_0000_0000_0000_0000_0000)
                by (nonlinear_arith)
                requires
                    0 <= n <= 0xffff_ffff_ffff_ffff,
                    max_term() == 0x8000_0000_0000_0000_0000_0000,
            ;
        }
        let active_count: usize = active_categories.len();
        let bonus: i128 = match self.decay_config {
            Some(decay) => {
                proof {
                    assert(-(0xffff_ffff_ffff_ffff * 0x8000_0000_0000_0000) <= active_count
                        * decay.multiplicative_factor <= 0xffff_ffff_ffff_ffff
                        * 0x8000_0000_0000_0000) by (nonlinear_arith)
                        requires
                            0 <= active_count <= 0xffff_ffff_ffff_ffff,
                            -0x8000_0000_0000_0000 <= decay.multiplicative_factor
                                <= 0x8000_0000_0000_0000,
                    ;
                }
                (active_count as i128) * (decay.multiplicative_factor as i128)
            },
            None => 0,
        };
        let decay_applied: bool = match self.decay_config {
            Some(_) => timestamp > time_window,
            None => false,
        };
        let final_score: u32 = finish_score(
            adds.add(base_adds),
            takes.add(base_takes),
            bonus,
            self.decay_config,
            timestamp,
            time_window,
        );
        let multiplicative_bonus: u32 = if bonus <= 0 {
            0
        } else {
            truncate_quotient(bonus as u128, BASIS_POINTS as u128)
        };
        ScoreResult {
            base_score: settle(base_adds, base_takes, BASIS_POINTS as u128),
            synergy_bonus: settle(adds, takes, BASIS_POINTS as u128),
            multiplicative_bonus,
            final_score,
            active_categories,
            decay_applied,
            timestamp,
        }
    }

    /// The three rules of the fuzzy scoring tiers: leadership, purpose-driven
    /// and well-rounded.
    pub fn generate_fuzzy_rules(&self) -> (rules: Vec<FuzzyRule>)
        ensures
            rules@.len() == 3,
            rules@[0].conditions@ == seq![
                (RepIDCategory::Governance, ScoreRange::High),
                (RepIDCategory::Technical, ScoreRange::High),
            ],
            rules@[0].output_multiplier == 15_000,
            rules@[0].description@
                == "Leadership tier - Strong governance and technical skills"@,
            rules@[1].conditions@ == seq![
                (RepIDCategory::Community, ScoreRange::High),
                (RepIDCategory::FaithTech, ScoreRange::High),
            ],
            rules@[1].output_multiplier == 13_000,
            rules@[1].description@
                == "Purpose-driven tier - Strong community and faith-tech alignment"@,
            rules@[2].conditions@ == seq![
                (RepIDCategory::Governance, ScoreRange::Medium),
                (RepIDCategory::Community, ScoreRange::Medium),
                (RepIDCategory::Technical, ScoreRange::Medium),
            ],
            rules@[2].output_multiplier == 12_000,
            rules@[2].description@
                == "Well-rounded contributor - Balanced across categories"@,
    {
        let mut rules: Vec<FuzzyRule> = Vec::new();
        rules.push(
            FuzzyRule {
                conditions: vec![
                    (RepIDCategory::Governance, ScoreRange::High),
                    (RepIDCategory::Technical, ScoreRange::High),
                ],
                output_multiplier: 15_000,
                description: "Leadership tier - Strong governance and technical skills".to_owned(),
            },
        );
        rules.push(
            FuzzyRule {
                conditions: vec![
                    (RepIDCategory::Community, ScoreRange::High),
                    (RepIDCategory::FaithTech, ScoreRange::High),
                ],
                output_multiplier: 13_000,
                description: "Purpose-driven tier - Strong community and faith-tech alignment".to_owned(),
            },
        );
        rules.push(
            FuzzyRule {
                conditions: vec![
                    (RepIDCategory::Governance, ScoreRange::Medium),
                    (RepIDCategory::Community, ScoreRange::Medium),
                    (RepIDCategory::Technical, ScoreRange::Medium),
                ],
                output_multiplier: 12_000,
                description: "Well-rounded contributor - Balanced across categories".to_owned(),
            },
        );
        assert(rules@[0].conditions@ =~= seq![
            (RepIDCategory::Governance, ScoreRange::High),
            (RepIDCategory::Technical, ScoreRange::High),
        ]);
        assert(rules@[1].conditions@ =~= seq![
            (RepIDCategory::Community, ScoreRange::High),
            (RepIDCategory::FaithTech, ScoreRange::High),
        ]);
        assert(rules@[2].conditions@ =~= seq![
            (RepIDCategory::Governance, ScoreRange::Medium),
            (RepIDCategory::Community, ScoreRange::Medium),
            (RepIDCategory::Technical, ScoreRange::Medium),
        ]);
        rules
    }

    /// The field elements of a result: base score, synergy bonus, bonus for
    /// sustained activity, final score, timestamp, and whether decay applied.
    pub fn to_field_elements(&self, score_result: &ScoreResult) -> (elements: Vec<BabyBearField>)
        ensures
            elements@ == seq![
                reduce(score_result.base_score as int),
                reduce(score_result.synergy_bonus as int),
                reduce(score_result.multiplicative_bonus as int),
                reduce(score_result.final_score as int),
                reduce(score_result.timestamp as int),
                reduce(
                    if score_result.decay_applied {
                        1int
                    } else {
                        0int
                    },
                ),
            ],
    {
        let mut elements: Vec<BabyBearField> = Vec::new();
        elements.push(BabyBearField::from_u32(score_result.base_score));
        elements.push(BabyBearField::from_u32(score_result.synergy_bonus));
        elements.push(BabyBearField::from_u32(score_result.multiplicative_bonus));
        elements.push(BabyBearField::from_u32(score_result.final_score));
        elements.push(BabyBearField::new(score_result.timestamp));
        elements.push(
            BabyBearField::from_u32(
                if score_result.decay_applied {
                    1
                } else {
                    0
                },
            ),
        );
        assert(elements@ =~= seq![
            reduce(score_result.base_score as int),
            reduce(score_result.synergy_bonus as int),
            reduce(score_result.multiplicative_bonus as int),
            reduce(score_result.final_score as int),
            reduce(score_result.timestamp as int),
            reduce(
                if score_result.decay_applied {
                    1int
                } else {
                    0int
                },
            ),
        ]);
        elements
    }

    /// The weight of `category` in basis points.
    pub fn weight(&self, category: &RepIDCategory) -> (w: i64)
        ensures
            w == self.spec_weight(category@),
    {
        match find_weight(&self.category_weights, category) {
            Some(i) => self.category_weights[i].1,
            None => BASIS_POINTS as i64,
        }
    }

    /// The synergy multiplier of the unordered pair, if one is recorded.
    pub fn synergy(&self, a: &RepIDCategory, b: &RepIDCategory) -> (m: Option<i64>)
        ensures
            m == self.spec_synergy(a@, b@),
    {
        match find_synergy(&self.synergy_matrix, a, b) {
            Some(i) => Some(self.synergy_matrix[i].multiplier),
            None => match find_synergy(&self.synergy_matrix, b, a) {
                Some(i) => Some(self.synergy_matrix[i].multiplier),
                None => None,
            },
        }
    }
}

impl Default for HierarchicalScorer {
    /// A scorer with the default weights and synergies, and no decay.
    fn default() -> (scorer: Self)
        ensures
            scorer.wf(),
            scorer.decay_config is None,
            forall|c: CategoryId| scorer.spec_weight(c) == default_weight(c),
            forall|a: CategoryId, b: CategoryId| scorer.spec_synergy(a, b) == default_synergy(a, b),
            synergies_reward(scorer.synergy_matrix@),
            weights_nonnegative(scorer.category_weights@),
    {
        Self::new()
    }
}

} // verus!

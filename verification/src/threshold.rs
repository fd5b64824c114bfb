//! The threshold statement: its trace and its constraints.

use vstd::prelude::*;
use vstd::std_specs::ops::SubSpec;
use crate::biometric::flag;
use crate::field::BabyBearField;
use crate::field::reduce;
use crate::trace::ExecutionTrace;
use crate::types::DECAY_DENOMINATOR;
use crate::types::DecayParameters;
use crate::types::RepIDCategory;

verus! {

/// The number of rows of a threshold trace.
pub const THRESHOLD_TRACE_HEIGHT: usize = 8;

/// The number of columns of a threshold trace beside the score columns.
pub const THRESHOLD_FIXED_COLUMNS: usize = 6;

/// The sum of the scores.
pub open spec fn score_sum(scores: Seq<(RepIDCategory, u32)>) -> int
    decreases scores.len(),
{
    if scores.len() == 0 {
        0
    } else {
        score_sum(scores.drop_last()) + scores.last().1
    }
}

/// The points that decay takes from `total` after `elapsed` seconds at
/// `rate` basis points a day, rounded down and capped at `u32::MAX`.
pub open spec fn decay_amount(total: int, rate: int, elapsed: int) -> int {
    let exact = (total * rate * elapsed) / (DECAY_DENOMINATOR as int);
    if exact > u32::MAX {
        u32::MAX as int
    } else {
        exact
    }
}

/// The score after decay: `total` where no decay is configured or the
/// timestamp lies within the window; otherwise `total` less the decay, not
/// below zero and not below the configured minimum.
pub open spec fn decayed_score(
    total: int,
    decay: Option<DecayParameters>,
    timestamp: int,
    time_window: int,
) -> int {
    match decay {
        Some(d) => if timestamp > time_window {
            let taken = decay_amount(total, d.base_decay_rate as int, timestamp - time_window);
            let left = if taken > total {
                0
            } else {
                total - taken
            };
            if left < d.min_threshold {
                d.min_threshold as int
            } else {
                left
            }
        } else {
            total
        },
        None => total,
    }
}

/// One row of the threshold trace: threshold, time window, timestamp, the
/// scores, the score after decay, whether that element as it is stored
/// meets the threshold, and the validity flag.
pub open spec fn threshold_row(
    scores: Seq<(RepIDCategory, u32)>,
    threshold: u32,
    time_window: u64,
    timestamp: u64,
    final_score: int,
) -> Seq<BabyBearField> {
    Seq::new(
        scores.len() + 6,
        |c: int|
            if c == 0 {
                reduce(threshold as int)
            } else if c == 1 {
                reduce(time_window as int)
            } else if c == 2 {
                reduce(timestamp as int)
            } else if c < 3 + scores.len() {
                reduce(scores[c - 3].1 as int)
            } else if c == 3 + scores.len() {
                reduce(final_score)
            } else if c == 4 + scores.len() {
                flag(reduce(final_score)@ >= threshold)
            } else {
                BabyBearField(1)
            },
    )
}

/// Whether a threshold trace can be built of these scores: their sum fits in
/// 32 bits and the row fits in memory.
pub open spec fn threshold_scores_ok(scores: Seq<(RepIDCategory, u32)>) -> bool {
    score_sum(scores) <= u32::MAX && scores.len() + 6 <= usize::MAX
}

/// The rows of the threshold trace: eight times the same row.
pub open spec fn threshold_trace_rows(
    scores: Seq<(RepIDCategory, u32)>,
    threshold: u32,
    time_window: u64,
    decay: Option<DecayParameters>,
    timestamp: u64,
) -> Seq<Seq<BabyBearField>> {
    let final_score = decayed_score(score_sum(scores), decay, timestamp as int, time_window as int);
    Seq::new(
        THRESHOLD_TRACE_HEIGHT as nat,
        |r: int| threshold_row(scores, threshold, time_window, timestamp, final_score),
    )
}

/// The parameters that an optional reference points to.
pub open spec fn decay_value(decay: Option<&DecayParameters>) -> Option<DecayParameters> {
    match decay {
        Some(d) => Some(*d),
        None => None,
    }
}

/// The residuals of row `row` of a threshold trace: the threshold and time
/// window columns less their expected values, the threshold bit less what the
/// final score calls for, and the validity flag less one.
pub open spec fn threshold_residuals(
    trace: ExecutionTrace,
    row: int,
    threshold: u32,
    time_window: u64,
) -> Seq<BabyBearField> {
    let w = trace.width as int;
    seq![
        trace.cell(row, 0).sub_spec(reduce(threshold as int)),
        trace.cell(row, 1).sub_spec(reduce(time_window as int)),
        trace.cell(row, w - 2).sub_spec(flag(trace.cell(row, w - 3)@ >= threshold)),
        trace.cell(row, w - 1).sub_spec(BabyBearField(1)),
    ]
}

/// The sum of a prefix of the scores is at most the sum of all.
pub proof fn lemma_score_sum_prefix(scores: Seq<(RepIDCategory, u32)>, n: int)
    requires
        0 <= n <= scores.len(),
    ensures
        0 <= score_sum(scores.take(n)) <= score_sum(scores),
    decreases scores.len(),
{
    if n == scores.len() {
        assert(scores.take(n) =~= scores);
        if scores.len() > 0 {
            lemma_score_sum_prefix(scores.drop_last(), n - 1);
        }
    } else {
        lemma_score_sum_prefix(scores.drop_last(), n);
        assert(scores.drop_last().take(n) =~= scores.take(n));
    }
}

/// The sum of the scores, or none where it does not fit in 32 bits.
pub fn total_score(user_scores: &[(RepIDCategory, u32)]) -> (total: Option<u32>)
    ensures
        total matches Some(t) ==> t == score_sum(user_scores@),
        total is None <==> score_sum(user_scores@) > u32::MAX,
{
    let mut total: u32 = 0;
    let mut i: usize = 0;
    assert(user_scores@.take(0) =~= Seq::empty());
    while i < user_scores.len()
        invariant
            i <= user_scores@.len(),
            total == score_sum(user_scores@.take(i as int)),
        decreases user_scores@.len() - i,
    {
        let score: u32 = user_scores[i].1;
        proof {
            assert(user_scores@.take(i + 1).drop_last() =~= user_scores@.take(i as int));
            lemma_score_sum_prefix(user_scores@, i + 1);
        }
        match total.checked_add(score) {
            Some(next) => {
                total = next;
            },
            None => {
                return None;
            },
        }
        i = i + 1;
    }
    assert(user_scores@.take(i as int) =~= user_scores@);
    Some(total)
}

/// The score that is left of `total` after decay.
pub fn apply_decay(
    total: u32,
    decay_params: Option<&DecayParameters>,
    timestamp: u64,
    time_window: u64,
) -> (left: u32)
    ensures
        left == decayed_score(
            total as int,
            decay_value(decay_params),
            timestamp as int,
            time_window as int,
        ),
{
    match decay_params {
        Some(decay) => {
            if timestamp > time_window {
                let elapsed: u64 = timestamp - time_window;
                let rate: u16 = decay.base_decay_rate;
                proof {
                    assert(0 <= total * rate <= 0xffff_ffff * 0xffff) by (nonlinear_arith)
                        requires
                            0 <= total <= 0xffff_ffff,
                            0 <= rate <= 0xffff,
                    ;
                    assert(0 <= (total * rate) * elapsed <= (0xffff_ffff * 0xffff)
                        * 0xffff_ffff_ffff_ffff) by (nonlinear_arith)
                        requires
                            0 <= total * rate <= 0xffff_ffff * 0xffff,
                            0 <= elapsed <= 0xffff_ffff_ffff_ffff,
                    ;
                }
                let product: u128 = (total as u128) * (rate as u128) * (elapsed as u128);
                let exact: u128 = product / (DECAY_DENOMINATOR as u128);
                let taken: u32 = if exact > u32::MAX as u128 {
                    u32::MAX
                } else {
                    exact as u32
                };
                let left: u32 = if taken > total {
                    0
                } else {
                    total - taken
                };
                if left < decay.min_threshold {
                    decay.min_threshold
                } else {
                    left
                }
            } else {
                total
            }
        },
        None => total,
    }
}

} // verus!

//! What the proofs about scoring rest on: how lookups change when an entry
//! is recorded, and how large the sums of a calculation can grow.

use vstd::prelude::*;
use vstd::arithmetic::div_mod::lemma_div_is_ordered;
use vstd::arithmetic::div_mod::lemma_div_multiples_vanish;
use crate::scoring::active_categories;
use crate::scoring::base_part;
use crate::scoring::base_points;
use crate::scoring::first_score;
use crate::scoring::pair_term;
use crate::scoring::part_points;
use crate::scoring::part_term;
use crate::scoring::row_part;
use crate::scoring::truncate_points;
use crate::scoring::row_synergy;
use crate::scoring::Synergy;
use crate::scoring::synergy_lookup;
use crate::scoring::synergy_of;
use crate::scoring::synergy_points;
use crate::scoring::weight_lookup;
use crate::scoring::weight_of;
use crate::types::BASIS_POINTS;
use crate::types::CategoryId;
use crate::types::RepIDCategory;

verus! {

/// A bound on the size of what one entry adds to the base score, `2^95`.
pub open spec fn max_term() -> int {
    0x8000_0000_0000_0000_0000_0000
}

/// A bound on the size of a pair term, `2^98`.
pub open spec fn max_pair_term() -> int {
    0x4_0000_0000_0000_0000_0000_0000
}

/// Lookup after an entry is appended: what was found before is still found;
/// a category that was not found is found if it is the appended one.
pub proof fn lemma_weight_lookup_push(
    entries: Seq<(RepIDCategory, i64)>,
    entry: (RepIDCategory, i64),
    category: CategoryId,
)
    ensures
        weight_lookup(entries.push(entry), category) == match weight_lookup(entries, category) {
            Some(w) => Some(w),
            None => if entry.0@ == category {
                Some(entry.1)
            } else {
                None
            },
        },
    decreases entries.len(),
{
    if entries.len() == 0 {
        assert(entries.push(entry).drop_first() =~= entries);
    } else {
        assert(entries.push(entry).drop_first() =~= entries.drop_first().push(entry));
        lemma_weight_lookup_push(entries.drop_first(), entry, category);
    }
}

/// Lookup after the first entry for a category is replaced by another entry
/// for the same category: that category gives the new weight, every other
/// what it gave before.
pub proof fn lemma_weight_lookup_update(
    entries: Seq<(RepIDCategory, i64)>,
    index: int,
    entry: (RepIDCategory, i64),
    category: CategoryId,
)
    requires
        0 <= index < entries.len(),
        entries[index].0@ == entry.0@,
        forall|k: int| 0 <= k < index ==> (#[trigger] entries[k]).0@ != entry.0@,
    ensures
        weight_lookup(entries.update(index, entry), category) == if category == entry.0@ {
            Some(entry.1)
        } else {
            weight_lookup(entries, category)
        },
    decreases entries.len(),
{
    if index > 0 {
        assert(entries.update(index, entry).drop_first() =~= entries.drop_first().update(
            index - 1,
            entry,
        ));
        assert forall|k: int| 0 <= k < index - 1 implies (#[trigger] entries.drop_first()[k]).0@
            != entry.0@ by {
            assert(entries.drop_first()[k] == entries[k + 1]);
        }
        assert(entries[0].0@ != entry.0@);
        lemma_weight_lookup_update(entries.drop_first(), index - 1, entry, category);
    } else {
        assert(entries.update(index, entry).drop_first() =~= entries.drop_first());
    }
}

/// Lookup after an entry is appended: what was found before is still found;
/// a pair that was not found is found if it is the appended one.
pub proof fn lemma_synergy_lookup_push(
    entries: Seq<Synergy>,
    entry: Synergy,
    a: CategoryId,
    b: CategoryId,
)
    ensures
        synergy_lookup(entries.push(entry), a, b) == match synergy_lookup(entries, a, b) {
            Some(m) => Some(m),
            None => if entry.first@ == a && entry.second@ == b {
                Some(entry.multiplier)
            } else {
                None
            },
        },
    decreases entries.len(),
{
    if entries.len() == 0 {
        assert(entries.push(entry).drop_first() =~= entries);
    } else {
        assert(entries.push(entry).drop_first() =~= entries.drop_first().push(entry));
        lemma_synergy_lookup_push(entries.drop_first(), entry, a, b);
    }
}

/// Lookup after the first entry for a pair is replaced by another entry for
/// the same pair: that pair gives the new multiplier, every other what it
/// gave before.
pub proof fn lemma_synergy_lookup_update(
    entries: Seq<Synergy>,
    index: int,
    entry: Synergy,
    a: CategoryId,
    b: CategoryId,
)
    requires
        0 <= index < entries.len(),
        entries[index].first@ == entry.first@,
        entries[index].second@ == entry.second@,
        forall|k: int|
            0 <= k < index ==> !((#[trigger] entries[k]).first@ == entry.first@
                && entries[k].second@ == entry.second@),
    ensures
        synergy_lookup(entries.update(index, entry), a, b) == if a == entry.first@ && b
            == entry.second@ {
            Some(entry.multiplier)
        } else {
            synergy_lookup(entries, a, b)
        },
    decreases entries.len(),
{
    if index > 0 {
        assert(entries.update(index, entry).drop_first() =~= entries.drop_first().update(
            index - 1,
            entry,
        ));
        assert forall|k: int| 0 <= k < index - 1 implies !((
        #[trigger] entries.drop_first()[k]).first@ == entry.first@ && entries.drop_first()[k].second@
            == entry.second@) by {
            assert(entries.drop_first()[k] == entries[k + 1]);
        }
        assert(!(entries[0].first@ == entry.first@ && entries[0].second@ == entry.second@));
        lemma_synergy_lookup_update(entries.drop_first(), index - 1, entry, a, b);
    } else {
        assert(entries.update(index, entry).drop_first() =~= entries.drop_first());
    }
}

/// A weight is a 64-bit number.
pub proof fn lemma_weight_bounds(weights: Seq<(RepIDCategory, i64)>, category: CategoryId)
    ensures
        -0x8000_0000_0000_0000 <= weight_of(weights, category) <= 0x7fff_ffff_ffff_ffff,
    decreases weights.len(),
{
    if weights.len() > 0 && weights[0].0@ != category {
        lemma_weight_bounds(weights.drop_first(), category);
    }
}

/// A first score lies between zero and `u32::MAX`.
pub proof fn lemma_first_score_bounds(scores: Seq<(RepIDCategory, u32)>, category: CategoryId)
    ensures
        0 <= first_score(scores, category) <= u32::MAX,
    decreases scores.len(),
{
    if scores.len() > 0 && scores[0].0@ != category {
        lemma_first_score_bounds(scores.drop_first(), category);
    }
}

/// Each part of the base score lies between zero and the largest term for
/// each entry, and the base score is the part that adds less the part that
/// takes away.
pub proof fn lemma_base_parts(weights: Seq<(RepIDCategory, i64)>, scores: Seq<(RepIDCategory, u32)>)
    ensures
        0 <= base_part(weights, scores, true) <= scores.len() * max_term(),
        0 <= base_part(weights, scores, false) <= scores.len() * max_term(),
        base_points(weights, scores) == base_part(weights, scores, true) - base_part(
            weights,
            scores,
            false,
        ),
    decreases scores.len(),
{
    if scores.len() > 0 {
        lemma_base_parts(weights, scores.drop_last());
        let entry = scores.last();
        let w = weight_of(weights, entry.0@);
        lemma_weight_bounds(weights, entry.0@);
        assert(-0x8000_0000_0000_0000_0000_0000 <= entry.1 * w <= 0x8000_0000_0000_0000_0000_0000)
            by (nonlinear_arith)
            requires
                0 <= entry.1 <= 0xffff_ffff,
                -0x8000_0000_0000_0000 <= w <= 0x7fff_ffff_ffff_ffff,
        ;
    }
}

/// A pair term lies within the largest pair term of zero.
pub proof fn lemma_pair_term_bounds(
    synergies: Seq<Synergy>,
    scores: Seq<(RepIDCategory, u32)>,
    i: int,
    j: int,
)
    ensures
        -max_pair_term() <= pair_term(synergies, scores, i, j) <= max_pair_term(),
{
    let a = scores[i].0@;
    let b = scores[j].0@;
    lemma_first_score_bounds(scores, a);
    lemma_first_score_bounds(scores, b);
    let sum = first_score(scores, a) + first_score(scores, b);
    match synergy_of(synergies, a, b) {
        Some(m) => {
            let bonus = m - BASIS_POINTS;
            assert(-0x4_0000_0000_0000_0000_0000_0000 <= sum * bonus
                <= 0x4_0000_0000_0000_0000_0000_0000) by (nonlinear_arith)
                requires
                    0 <= sum <= 2 * 0xffff_ffff,
                    -0x8000_0000_0000_2710 <= bonus <= 0x7fff_ffff_ffff_ffff,
            ;
        },
        None => {},
    }
}

/// Each part of a pair term lies between zero and the largest pair term, and
/// the term is the part that adds less the part that takes away.
pub proof fn lemma_part_term(
    synergies: Seq<Synergy>,
    scores: Seq<(RepIDCategory, u32)>,
    i: int,
    j: int,
)
    ensures
        0 <= part_term(synergies, scores, i, j, true) <= max_pair_term(),
        0 <= part_term(synergies, scores, i, j, false) <= max_pair_term(),
        pair_term(synergies, scores, i, j) == part_term(synergies, scores, i, j, true) - part_term(
            synergies,
            scores,
            i,
            j,
            false,
        ),
{
    lemma_pair_term_bounds(synergies, scores, i, j);
}

/// Each part of the pair terms of one entry lies between zero and the
/// largest pair term for each later entry, and the sum of the terms is the
/// part that adds less the part that takes away.
pub proof fn lemma_row_parts(
    synergies: Seq<Synergy>,
    scores: Seq<(RepIDCategory, u32)>,
    i: int,
    end: int,
)
    requires
        0 <= i,
        i < end,
    ensures
        0 <= row_part(synergies, scores, i, end, true) <= max_pair_term() * (end - i - 1),
        0 <= row_part(synergies, scores, i, end, false) <= max_pair_term() * (end - i - 1),
        row_synergy(synergies, scores, i, end) == row_part(synergies, scores, i, end, true)
            - row_part(synergies, scores, i, end, false),
    decreases end - i,
{
    let unit = max_pair_term();
    if end > i + 1 {
        lemma_row_parts(synergies, scores, i, end - 1);
        lemma_part_term(synergies, scores, i, end - 1);
        let k = end - i - 1;
        assert(unit * (k - 1) + unit == unit * k) by (nonlinear_arith);
    } else {
        assert(unit * 0 == 0);
    }
}

/// An entry without a score adds nothing to either part.
pub proof fn lemma_row_part_inactive(
    synergies: Seq<Synergy>,
    scores: Seq<(RepIDCategory, u32)>,
    i: int,
    end: int,
    adds: bool,
)
    requires
        scores[i].1 == 0,
    ensures
        row_part(synergies, scores, i, end, adds) == 0,
    decreases end - i,
{
    if end > i + 1 {
        lemma_row_part_inactive(synergies, scores, i, end - 1, adds);
    }
}

/// Each part of the synergy of the first `end` rows lies between zero and
/// the largest pair term for each pair of entries, and the synergy is the
/// part that adds less the part that takes away.
pub proof fn lemma_parts(synergies: Seq<Synergy>, scores: Seq<(RepIDCategory, u32)>, end: int)
    requires
        0 <= end <= scores.len(),
    ensures
        0 <= part_points(synergies, scores, end, true) <= max_pair_term() * (scores.len() * end),
        0 <= part_points(synergies, scores, end, false) <= max_pair_term() * (scores.len() * end),
        synergy_points(synergies, scores, end) == part_points(synergies, scores, end, true)
            - part_points(synergies, scores, end, false),
    decreases end,
{
    let unit = max_pair_term();
    let n = scores.len() as int;
    if end > 0 {
        lemma_parts(synergies, scores, end - 1);
        lemma_row_parts(synergies, scores, end - 1, n);
        let row_adds = row_part(synergies, scores, end - 1, n, true);
        let rest_adds = part_points(synergies, scores, end - 1, true);
        let row_takes = row_part(synergies, scores, end - 1, n, false);
        let rest_takes = part_points(synergies, scores, end - 1, false);
        assert(rest_adds + row_adds <= unit * (n * end) && rest_takes + row_takes <= unit * (n
            * end)) by (nonlinear_arith)
            requires
                rest_adds <= unit * (n * (end - 1)),
                rest_takes <= unit * (n * (end - 1)),
                row_adds <= unit * (n - (end - 1) - 1),
                row_takes <= unit * (n - (end - 1) - 1),
                0 < end <= n,
                unit >= 0,
        ;
    } else {
        assert(unit * (n * 0) == 0) by (nonlinear_arith);
    }
}

/// While the pairs of entry `i` before `j` are summed, neither part has
/// grown to 240 bits.
pub proof fn lemma_parts_bound(
    synergies: Seq<Synergy>,
    scores: Seq<(RepIDCategory, u32)>,
    i: int,
    j: int,
)
    requires
        0 <= i <= scores.len() <= usize::MAX,
        i < j <= scores.len() + 1,
    ensures
        0 <= part_points(synergies, scores, i, true) + row_part(synergies, scores, i, j, true)
            < 0x1_0000_0000_0000_0000_0000_0000_0000_0000_0000_0000_0000_0000_0000_0000_0000int,
        0 <= part_points(synergies, scores, i, false) + row_part(synergies, scores, i, j, false)
            < 0x1_0000_0000_0000_0000_0000_0000_0000_0000_0000_0000_0000_0000_0000_0000_0000int,
{
    let unit = max_pair_term();
    let n = scores.len() as int;
    lemma_parts(synergies, scores, i);
    lemma_row_parts(synergies, scores, i, j);
    let pairs = n * i;
    let rest = j - i - 1;
    assert(0 <= pairs <= 0xffff_ffff_ffff_ffff * 0xffff_ffff_ffff_ffff) by (nonlinear_arith)
        requires
            pairs == n * i,
            0 <= i <= n <= 0xffff_ffff_ffff_ffff,
    ;
    assert(0 <= unit * pairs < 0x8_0000_0000_0000_0000_0000_0000_0000_0000_0000_0000_0000_0000_0000_0000int) by (nonlinear_arith)
        requires
            unit == 0x4_0000_0000_0000_0000_0000_0000,
            0 <= pairs <= 0xffff_ffff_ffff_ffff * 0xffff_ffff_ffff_ffff,
    ;
    assert(0 <= unit * rest < 0x8_0000_0000_0000_0000_0000_0000_0000_0000_0000_0000int) by (nonlinear_arith)
        requires
            unit == 0x4_0000_0000_0000_0000_0000_0000,
            0 <= rest <= 0xffff_ffff_ffff_ffff,
    ;
    assert(part_points(synergies, scores, i, true) <= unit * pairs);
    assert(part_points(synergies, scores, i, false) <= unit * pairs);
    assert(row_part(synergies, scores, i, j, true) <= unit * rest);
    assert(row_part(synergies, scores, i, j, false) <= unit * rest);
}

/// A numerator of 128 bits or more over a denominator of at most 96 bits
/// is a quotient above `u32::MAX`.
pub proof fn lemma_quotient_saturates(numerator: int, denominator: int)
    requires
        numerator >= 0x1_0000_0000_0000_0000_0000_0000_0000_0000int,
        0 < denominator <= 0xffff_ffff_ffff_ffff_ffff_ffff,
    ensures
        truncate_points(numerator, denominator) == u32::MAX,
{
    let least = 0x1_0000_0000int * denominator;
    assert(least <= 0x1_0000_0000_0000_0000_0000_0000_0000_0000int) by (nonlinear_arith)
        requires
            least == 0x1_0000_0000int * denominator,
            0 < denominator <= 0xffff_ffff_ffff_ffff_ffff_ffff,
    ;
    lemma_div_is_ordered(least, numerator, denominator);
    lemma_div_multiples_vanish(0x1_0000_0000int, denominator);
}

/// The active categories are at most as many as the entries.
pub proof fn lemma_active_len(scores: Seq<(RepIDCategory, u32)>)
    ensures
        active_categories(scores).len() <= scores.len(),
    decreases scores.len(),
{
    if scores.len() > 0 {
        lemma_active_len(scores.drop_last());
    }
}

} // verus!

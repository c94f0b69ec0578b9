//! Deterministic scoring of one candidate against a normalized request.
//!
//! `score = w_pop * popularity + w_diet * dietary_match + w_cal * calorie_score`,
//! with every factor a fixed-point integer in thousandths, so the score is an
//! exact integer in millionths. No side effects, no randomness, no
//! renormalization of the weights.

use vstd::prelude::*;

use crate::schema::{Candidate, MenuItem, PreferenceRequest};

verus! {

/// The dietary-match component, in thousandths.
///
/// If `vegan_only` is requested the candidate scores 1.0 exactly when its
/// vegan flag is known true, else 0.0 (an unknown flag counts as false).
/// Otherwise, if `vegetarian_only` is requested, the same rule applies to
/// the vegetarian flag. With no diet constraint the component is a neutral
/// 0.5.
pub open spec fn spec_dietary_match(
    vegan_only: bool,
    vegetarian_only: bool,
    vegan: Option<bool>,
    vegetarian: Option<bool>,
) -> int {
    if vegan_only {
        if vegan == Some(true) {
            1000
        } else {
            0
        }
    } else if vegetarian_only {
        if vegetarian == Some(true) {
            1000
        } else {
            0
        }
    } else {
        500
    }
}

/// Compute the dietary-match component.
pub fn dietary_match(
    vegan_only: bool,
    vegetarian_only: bool,
    vegan: Option<bool>,
    vegetarian: Option<bool>,
) -> (r: i64)
    ensures
        r == spec_dietary_match(vegan_only, vegetarian_only, vegan, vegetarian),
        r == 0 || r == 500 || r == 1000,
{
    if vegan_only {
        match vegan {
            Some(true) => 1000,
            _ => 0,
        }
    } else if vegetarian_only {
        match vegetarian {
            Some(true) => 1000,
            _ => 0,
        }
    } else {
        500
    }
}

/// The calorie component, in thousandths.
///
/// With a positive calorie cap and known calories the component is
/// `clamp01((max - calories) / max)`: fewer calories relative to the cap
/// score higher, never below 0. A cap of 0 or less is treated like unknown
/// calories (0.6) so no division by zero can arise; a cap with unknown
/// calories is the mildly optimistic 0.6; no cap at all is a neutral 0.5.
pub open spec fn spec_calorie_score(max_calories: Option<i32>, calories: Option<i32>) -> int {
    match max_calories {
        None => 500,
        Some(maxc) => if maxc <= 0 {
            600
        } else {
            match calories {
                None => 600,
                Some(c) => {
                    let short = if maxc - c > 0 {
                        maxc - c
                    } else {
                        0
                    };
                    let ratio = short * 1000 / (maxc as int);
                    if ratio > 1000 {
                        1000
                    } else {
                        ratio
                    }
                },
            }
        },
    }
}

/// The calorie component is always a fraction of `[0, 1]`.
pub proof fn lemma_calorie_score_bounds(max_calories: Option<i32>, calories: Option<i32>)
    ensures
        0 <= spec_calorie_score(max_calories, calories) <= 1000,
{
    match max_calories {
        None => {},
        Some(maxc) => {
            if maxc <= 0 {
            } else {
                match calories {
                    None => {},
                    Some(c) => {
                        let short = if maxc - c > 0 {
                            maxc - c
                        } else {
                            0int
                        };
                        assert(short * 1000 >= 0) by (nonlinear_arith)
                            requires
                                short >= 0,
                        ;
                        assert(short * 1000 / (maxc as int) >= 0) by (nonlinear_arith)
                            requires
                                short * 1000 >= 0,
                                maxc > 0,
                        ;
                    },
                }
            }
        },
    }
}

/// Compute the calorie component.
pub fn calorie_score(max_calories: Option<i32>, calories: Option<i32>) -> (r: i64)
    ensures
        r == spec_calorie_score(max_calories, calories),
        0 <= r <= 1000,
{
    proof {
        lemma_calorie_score_bounds(max_calories, calories);
    }
    match max_calories {
        None => 500,
        Some(maxc) => {
            if maxc <= 0 {
                600
            } else {
                match calories {
                    None => 600,
                    Some(c) => {
                        let diff: i64 = maxc as i64 - c as i64;
                        let short: i64 = if diff > 0 {
                            diff
                        } else {
                            0
                        };
                        assert(short * 1000 <= 0x8_0000_0000i64 * 1000) by (nonlinear_arith)
                            requires
                                0 <= short <= 0x8_0000_0000i64,
                        ;
                        let ratio: i64 = short * 1000 / (maxc as i64);
                        if ratio > 1000 {
                            1000
                        } else {
                            ratio
                        }
                    },
                }
            }
        },
    }
}

/// The closed-form weighted sum, in millionths: each weight and each
/// component is a fraction in thousandths, so each product is in
/// millionths and the sum lies in `[0, 3_000_000]`.
pub open spec fn spec_weighted_sum(
    popularity: int,
    dietary: int,
    calorie: int,
    w_pop: int,
    w_diet: int,
    w_cal: int,
) -> int {
    w_pop * popularity + w_diet * dietary + w_cal * calorie
}

/// Products of fractions in `[0, 1000]` keep the weighted sum within
/// `[0, 3_000_000]`.
pub proof fn lemma_weighted_sum_bounds(
    popularity: int,
    dietary: int,
    calorie: int,
    w_pop: int,
    w_diet: int,
    w_cal: int,
)
    requires
        0 <= popularity <= 1000,
        0 <= dietary <= 1000,
        0 <= calorie <= 1000,
        0 <= w_pop <= 1000,
        0 <= w_diet <= 1000,
        0 <= w_cal <= 1000,
    ensures
        0 <= spec_weighted_sum(popularity, dietary, calorie, w_pop, w_diet, w_cal) <= 3_000_000,
{
    assert(0 <= w_pop * popularity <= 1000 * 1000) by (nonlinear_arith)
        requires
            0 <= popularity <= 1000,
            0 <= w_pop <= 1000,
    ;
    assert(0 <= w_diet * dietary <= 1000 * 1000) by (nonlinear_arith)
        requires
            0 <= dietary <= 1000,
            0 <= w_diet <= 1000,
    ;
    assert(0 <= w_cal * calorie <= 1000 * 1000) by (nonlinear_arith)
        requires
            0 <= calorie <= 1000,
            0 <= w_cal <= 1000,
    ;
}

/// Deterministic scoring:
/// `score = w_pop * popularity + w_diet * dietary_match + w_cal * calorie_score`.
/// The result is the exact closed-form weighted sum, recomputable from the
/// clamped weights and the input fields alone.
pub fn compute_score(
    popularity: i64,
    dietary: i64,
    calorie: i64,
    w_pop: i64,
    w_diet: i64,
    w_cal: i64,
) -> (r: i64)
    requires
        0 <= popularity <= 1000,
        0 <= dietary <= 1000,
        0 <= calorie <= 1000,
        0 <= w_pop <= 1000,
        0 <= w_diet <= 1000,
        0 <= w_cal <= 1000,
    ensures
        r == spec_weighted_sum(
            popularity as int,
            dietary as int,
            calorie as int,
            w_pop as int,
            w_diet as int,
            w_cal as int,
        ),
        0 <= r <= 3_000_000,
{
    proof {
        lemma_weighted_sum_bounds(
            popularity as int,
            dietary as int,
            calorie as int,
            w_pop as int,
            w_diet as int,
            w_cal as int,
        );
    }
    w_pop * popularity + w_diet * dietary + w_cal * calorie
}

/// The exact score of one candidate under a normalized request, in
/// millionths.
pub open spec fn spec_score(c: Candidate, req: PreferenceRequest) -> int {
    spec_weighted_sum(
        c.popularity as int,
        spec_dietary_match(req.vegan_only, req.vegetarian_only, c.vegan, c.vegetarian),
        spec_calorie_score(req.max_calories, c.calories),
        req.w_pop as int,
        req.w_diet as int,
        req.w_cal as int,
    )
}

/// The scored item a candidate turns into, with the exact closed-form
/// score and every descriptive field carried over unchanged.
pub open spec fn spec_scored_item(c: Candidate, req: PreferenceRequest) -> MenuItem {
    MenuItem {
        id: c.id,
        hall_id: c.hall_id,
        name: c.name,
        calories: c.calories,
        vegan: c.vegan,
        vegetarian: c.vegetarian,
        popularity_score: c.popularity,
        score: spec_score(c, req) as i64,
    }
}

/// Score one candidate: copy its descriptive fields and attach the exact
/// weighted sum.
pub fn score_candidate(c: Candidate, req: &PreferenceRequest) -> (m: MenuItem)
    requires
        c.wf(),
        req.wf(),
    ensures
        m == spec_scored_item(c, *req),
        m.score == spec_score(c, *req),
        0 <= m.score <= 3_000_000,
{
    let dietary = dietary_match(req.vegan_only, req.vegetarian_only, c.vegan, c.vegetarian);
    let calorie = calorie_score(req.max_calories, c.calories);
    let score = compute_score(c.popularity, dietary, calorie, req.w_pop, req.w_diet, req.w_cal);
    MenuItem {
        id: c.id,
        hall_id: c.hall_id,
        name: c.name,
        calories: c.calories,
        vegan: c.vegan,
        vegetarian: c.vegetarian,
        popularity_score: c.popularity,
        score,
    }
}

} // verus!

//! Request and result types of the recommendation engine.
//!
//! Weights and popularity are fixed-point integers in thousandths:
//! `0 ..= 1000` stands for `0.0 ..= 1.0`. A weighted score is therefore an
//! integer in millionths (`0 ..= 3_000_000`).

use vstd::prelude::*;

verus! {

/// Raw, untrusted preference fields as the transport layer hands them over.
/// Every field is optional; normalization supplies defaults and clamps
/// out-of-range values instead of rejecting them.
#[derive(Clone, Debug)]
pub struct PreferenceInput {
    pub vegan_only: Option<bool>,
    pub vegetarian_only: Option<bool>,
    pub max_calories: Option<i32>,
    /// Optional text query (e.g., "pizza").
    pub query: Option<String>,
    /// Weight for popularity in ranking, in thousandths of `0 ..= 1`.
    pub popularity_weight: Option<i64>,
    /// Weight for dietary match in ranking, in thousandths of `0 ..= 1`.
    pub dietary_weight: Option<i64>,
    /// Weight for calorie preference in ranking, in thousandths of `0 ..= 1`.
    pub calorie_weight: Option<i64>,
}

/// One scoreable item fetched from the candidate store.
/// `popularity` is in thousandths of `0 ..= 1`; the store guarantees the
/// range, and `wf` records it.
#[derive(Clone, Debug, PartialEq)]
pub struct Candidate {
    pub id: i64,
    pub hall_id: i64,
    pub name: String,
    pub calories: Option<i32>,
    pub vegan: Option<bool>,
    pub vegetarian: Option<bool>,
    pub popularity: i64,
}

impl Candidate {
    /// The store's invariant on a row: popularity lies in `[0, 1]`.
    pub open spec fn wf(self) -> bool {
        0 <= self.popularity <= 1000
    }
}

/// A scored candidate as returned to the caller. `popularity_score` is in
/// thousandths, `score` in millionths.
#[derive(Clone, Debug, PartialEq)]
pub struct MenuItem {
    pub id: i64,
    pub hall_id: i64,
    pub name: String,
    pub calories: Option<i32>,
    pub vegan: Option<bool>,
    pub vegetarian: Option<bool>,
    pub popularity_score: i64,
    pub score: i64,
}

/// Clamp a raw fixed-point weight into `[0, 1000]` (that is, `[0, 1]`).
pub open spec fn spec_clamp01(x: int) -> int {
    if x < 0 {
        0
    } else if x > 1000 {
        1000
    } else {
        x
    }
}

/// Every clamped weight lies in `[0, 1]`, whatever the raw magnitude or
/// sign supplied.
pub proof fn lemma_clamp01_bounds(x: int)
    ensures
        0 <= spec_clamp01(x) <= 1000,
        0 <= x <= 1000 ==> spec_clamp01(x) == x,
{
}

/// The requested result length, defaulted to 15 and clamped into `[1, 50]`.
pub open spec fn spec_clamp_limit(limit: Option<i32>) -> int {
    let raw = match limit {
        Some(l) => l as int,
        None => 15,
    };
    if raw < 1 {
        1
    } else if raw > 50 {
        50
    } else {
        raw
    }
}

/// A requested limit of 0 or less is clamped to 1; one above 50 to 50.
pub proof fn lemma_clamp_limit_bounds(limit: Option<i32>)
    ensures
        1 <= spec_clamp_limit(limit) <= 50,
        limit is None ==> spec_clamp_limit(limit) == 15,
{
}

/// A normalized recommendation request: defaults applied, weights clamped
/// into `[0, 1000]`, the result limit clamped into `[1, 50]`.
pub struct PreferenceRequest {
    pub hall_id: i64,
    pub vegan_only: bool,
    pub vegetarian_only: bool,
    pub max_calories: Option<i32>,
    pub text_query: String,
    pub w_pop: i64,
    pub w_diet: i64,
    pub w_cal: i64,
    pub limit: usize,
}

impl PreferenceRequest {
    /// Normalization establishes this invariant; scoring and ranking rely
    /// on it.
    pub open spec fn wf(self) -> bool {
        &&& 0 <= self.w_pop <= 1000
        &&& 0 <= self.w_diet <= 1000
        &&& 0 <= self.w_cal <= 1000
        &&& 1 <= self.limit <= 50
    }

    /// Normalize raw preference fields: absent booleans default to false,
    /// absent weights to the documented defaults (0.45, 0.35, 0.20), every
    /// weight is clamped into `[0, 1]` independently (weights are not
    /// renormalized to sum to 1), and the limit is clamped into `[1, 50]`
    /// with default 15. Out-of-range fields are never rejected.
    pub fn from_input(hall_id: i64, prefs: &PreferenceInput, limit: Option<i32>) -> (r:
        PreferenceRequest)
        ensures
            r.wf(),
            r.hall_id == hall_id,
            r.vegan_only == (prefs.vegan_only == Some(true)),
            r.vegetarian_only == (prefs.vegetarian_only == Some(true)),
            r.max_calories == prefs.max_calories,
            r.text_query@ == (match prefs.query {
                Some(q) => q@,
                None => Seq::<char>::empty(),
            }),
            r.w_pop == spec_clamp01(match prefs.popularity_weight {
                Some(w) => w as int,
                None => 450,
            }),
            r.w_diet == spec_clamp01(match prefs.dietary_weight {
                Some(w) => w as int,
                None => 350,
            }),
            r.w_cal == spec_clamp01(match prefs.calorie_weight {
                Some(w) => w as int,
                None => 200,
            }),
            r.limit == spec_clamp_limit(limit),
    {
        let vegan_only = match prefs.vegan_only {
            Some(b) => b,
            None => false,
        };
        let vegetarian_only = match prefs.vegetarian_only {
            Some(b) => b,
            None => false,
        };
        let text_query = match &prefs.query {
            Some(q) => q.clone(),
            None => String::new(),
        };
        let w_pop = clamp01(match prefs.popularity_weight {
            Some(w) => w,
            None => 450,
        });
        let w_diet = clamp01(match prefs.dietary_weight {
            Some(w) => w,
            None => 350,
        });
        let w_cal = clamp01(match prefs.calorie_weight {
            Some(w) => w,
            None => 200,
        });
        let raw_limit: i32 = match limit {
            Some(l) => l,
            None => 15,
        };
        let clamped_limit: usize = if raw_limit < 1 {
            1
        } else if raw_limit > 50 {
            50
        } else {
            raw_limit as usize
        };
        PreferenceRequest {
            hall_id,
            vegan_only,
            vegetarian_only,
            max_calories: prefs.max_calories,
            text_query,
            w_pop,
            w_diet,
            w_cal,
            limit: clamped_limit,
        }
    }
}

/// Clamp a raw fixed-point weight into `[0, 1000]`.
pub fn clamp01(x: i64) -> (r: i64)
    ensures
        r == spec_clamp01(x as int),
{
    if x < 0 {
        0
    } else if x > 1000 {
        1000
    } else {
        x
    }
}

} // verus!

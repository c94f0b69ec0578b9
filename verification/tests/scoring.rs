use hoos_hungry::schema::{Candidate, PreferenceInput, PreferenceRequest};
use hoos_hungry::scoring::{calorie_score, compute_score, dietary_match, score_candidate};

fn empty_prefs() -> PreferenceInput {
    PreferenceInput {
        vegan_only: None,
        vegetarian_only: None,
        max_calories: None,
        query: None,
        popularity_weight: None,
        dietary_weight: None,
        calorie_weight: None,
    }
}

fn candidate(id: i64, vegan: Option<bool>, popularity: i64) -> Candidate {
    Candidate {
        id,
        hall_id: 1,
        name: format!("item {}", id),
        calories: None,
        vegan,
        vegetarian: None,
        popularity,
    }
}

#[test]
fn weights_are_clamped_into_unit_range() {
    let mut prefs = empty_prefs();
    prefs.popularity_weight = Some(-500);
    prefs.dietary_weight = Some(1500);
    prefs.calorie_weight = Some(250);
    let req = PreferenceRequest::from_input(1, &prefs, None);
    assert_eq!(req.w_pop, 0);
    assert_eq!(req.w_diet, 1000);
    assert_eq!(req.w_cal, 250);
}

#[test]
fn weights_default_to_documented_split() {
    let req = PreferenceRequest::from_input(1, &empty_prefs(), None);
    assert_eq!(req.w_pop, 450);
    assert_eq!(req.w_diet, 350);
    assert_eq!(req.w_cal, 200);
}

#[test]
fn limit_is_clamped_into_one_to_fifty() {
    let prefs = empty_prefs();
    assert_eq!(PreferenceRequest::from_input(1, &prefs, Some(0)).limit, 1);
    assert_eq!(PreferenceRequest::from_input(1, &prefs, Some(-3)).limit, 1);
    assert_eq!(PreferenceRequest::from_input(1, &prefs, Some(60)).limit, 50);
    assert_eq!(PreferenceRequest::from_input(1, &prefs, Some(25)).limit, 25);
    assert_eq!(PreferenceRequest::from_input(1, &prefs, None).limit, 15);
}

#[test]
fn dietary_match_vegan_rule() {
    assert_eq!(dietary_match(true, false, Some(true), None), 1000);
    assert_eq!(dietary_match(true, false, Some(false), None), 0);
    assert_eq!(dietary_match(true, false, None, None), 0);
}

#[test]
fn dietary_match_vegetarian_rule() {
    assert_eq!(dietary_match(false, true, None, Some(true)), 1000);
    assert_eq!(dietary_match(false, true, None, Some(false)), 0);
    assert_eq!(dietary_match(false, true, None, None), 0);
}

#[test]
fn dietary_match_neutral_without_constraint() {
    assert_eq!(dietary_match(false, false, Some(true), Some(true)), 500);
    assert_eq!(dietary_match(false, false, None, None), 500);
}

#[test]
fn calorie_cap_of_zero_takes_the_unknown_branch() {
    assert_eq!(calorie_score(Some(0), Some(100)), 600);
    assert_eq!(calorie_score(Some(-5), Some(100)), 600);
    assert_eq!(calorie_score(Some(0), None), 600);
}

#[test]
fn calorie_score_formula() {
    // (1000 - 250) / 1000 = 0.75
    assert_eq!(calorie_score(Some(1000), Some(250)), 750);
    // at the cap the component is exactly 0
    assert_eq!(calorie_score(Some(800), Some(800)), 0);
    // above the cap it stays 0
    assert_eq!(calorie_score(Some(800), Some(900)), 0);
    // negative calories clamp at 1
    assert_eq!(calorie_score(Some(1000), Some(-500)), 1000);
}

#[test]
fn calorie_score_defaults() {
    assert_eq!(calorie_score(Some(1000), None), 600);
    assert_eq!(calorie_score(None, Some(100)), 500);
    assert_eq!(calorie_score(None, None), 500);
}

#[test]
fn score_is_the_closed_form_weighted_sum() {
    assert_eq!(compute_score(900, 1000, 500, 450, 350, 200), 855_000);
    assert_eq!(compute_score(0, 0, 0, 1000, 1000, 1000), 0);
    assert_eq!(compute_score(1000, 1000, 1000, 1000, 1000, 1000), 3_000_000);
}

#[test]
fn score_candidate_attaches_exact_score() {
    let mut prefs = empty_prefs();
    prefs.vegan_only = Some(true);
    let req = PreferenceRequest::from_input(1, &prefs, None);
    let m = score_candidate(candidate(1, Some(true), 900), &req);
    // 0.45 * 0.9 + 0.35 * 1.0 + 0.20 * 0.5 = 0.855
    assert_eq!(m.score, 855_000);
    assert_eq!(m.popularity_score, 900);
    assert_eq!(m.id, 1);
    assert_eq!(m.vegan, Some(true));
}

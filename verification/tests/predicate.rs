use hoos_hungry::predicate::{build_predicate, is_blank, like_pattern, BindValue, Clause};
use hoos_hungry::schema::{PreferenceInput, PreferenceRequest};

fn prefs_with(
    vegan: Option<bool>,
    vegetarian: Option<bool>,
    max_calories: Option<i32>,
    query: Option<&str>,
) -> PreferenceInput {
    PreferenceInput {
        vegan_only: vegan,
        vegetarian_only: vegetarian,
        max_calories,
        query: query.map(|q| q.to_string()),
        popularity_weight: None,
        dietary_weight: None,
        calorie_weight: None,
    }
}

#[test]
fn blankness_follows_unicode_whitespace() {
    assert!(is_blank(""));
    assert!(is_blank("   \t\r\n"));
    assert!(is_blank("\u{2003}\u{00A0}"));
    assert!(!is_blank(" pizza "));
}

#[test]
fn like_pattern_wraps_the_query() {
    assert_eq!(like_pattern("pizza"), "%pizza%");
    assert_eq!(like_pattern(""), "%%");
}

#[test]
fn hall_clause_is_always_present_and_first() {
    let req = PreferenceRequest::from_input(7, &prefs_with(None, None, None, None), None);
    let p = build_predicate(&req);
    assert_eq!(p.clauses, vec![Clause::HallId(7)]);
    assert_eq!(p.fetch_limit, 200);
    assert_eq!(p.bindings(), vec![BindValue::Int(7)]);
}

#[test]
fn every_optional_filter_composes() {
    let req = PreferenceRequest::from_input(
        7,
        &prefs_with(Some(true), Some(true), Some(800), Some("pizza")),
        None,
    );
    let p = build_predicate(&req);
    assert_eq!(
        p.clauses,
        vec![
            Clause::HallId(7),
            Clause::VeganOnly,
            Clause::VegetarianOnly,
            Clause::MaxCalories(800),
            Clause::NameLike("%pizza%".to_string()),
        ]
    );
    assert_eq!(p.fetch_limit, 200);
    assert_eq!(
        p.bindings(),
        vec![
            BindValue::Int(7),
            BindValue::Int(800),
            BindValue::Text("%pizza%".to_string()),
        ]
    );
}

#[test]
fn blank_query_activates_no_name_clause() {
    let req = PreferenceRequest::from_input(7, &prefs_with(None, None, None, Some("  \t ")), None);
    let p = build_predicate(&req);
    assert_eq!(p.clauses, vec![Clause::HallId(7)]);
}

#[test]
fn rendered_sql_numbers_placeholders_in_binding_order() {
    let req = PreferenceRequest::from_input(
        7,
        &prefs_with(Some(true), None, Some(800), Some("pizza")),
        None,
    );
    let p = build_predicate(&req);
    let (sql, binds) = p.to_sql();
    assert_eq!(
        sql,
        "SELECT id,hall_id,name,calories,vegan,vegetarian,popularity_score FROM menu_items \
         WHERE hall_id = $1 AND vegan = true AND (calories IS NULL OR calories <= $2) \
         AND name ILIKE $3 LIMIT 200"
    );
    assert_eq!(
        binds,
        vec![
            BindValue::Int(7),
            BindValue::Int(800),
            BindValue::Text("%pizza%".to_string()),
        ]
    );
}

#[test]
fn removing_a_clause_never_renumbers_anothers_binding() {
    // with the vegan clause gone, the calorie and name clauses still own
    // their own values, in the same relative order
    let req = PreferenceRequest::from_input(
        7,
        &prefs_with(None, None, Some(800), Some("pizza")),
        None,
    );
    let p = build_predicate(&req);
    let (sql, binds) = p.to_sql();
    assert_eq!(
        sql,
        "SELECT id,hall_id,name,calories,vegan,vegetarian,popularity_score FROM menu_items \
         WHERE hall_id = $1 AND (calories IS NULL OR calories <= $2) \
         AND name ILIKE $3 LIMIT 200"
    );
    assert_eq!(
        binds,
        vec![
            BindValue::Int(7),
            BindValue::Int(800),
            BindValue::Text("%pizza%".to_string()),
        ]
    );
}

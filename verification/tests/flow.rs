use hoos_hungry::rank::build_ranked;
use hoos_hungry::schema::{Candidate, MenuItem, PreferenceInput, PreferenceRequest};
use hoos_hungry::service::{Action, CacheLookup, Outcome, QueryRoot, RecommendFlow};

fn vegan_prefs() -> PreferenceInput {
    PreferenceInput {
        vegan_only: Some(true),
        vegetarian_only: None,
        max_calories: None,
        query: None,
        popularity_weight: None,
        dietary_weight: None,
        calorie_weight: None,
    }
}

fn candidate(id: i64, vegan: bool, popularity: i64) -> Candidate {
    Candidate {
        id,
        hall_id: 1,
        name: format!("item {}", id),
        calories: None,
        vegan: Some(vegan),
        vegetarian: None,
        popularity,
    }
}

fn scored(id: i64, score: i64) -> MenuItem {
    MenuItem {
        id,
        hall_id: 1,
        name: format!("item {}", id),
        calories: None,
        vegan: None,
        vegetarian: None,
        popularity_score: 500,
        score,
    }
}

#[test]
fn example_scenario_ranks_vegan_candidates_first() {
    // hall 1, vegan only, default weights, no calorie cap, limit 2;
    // A(vegan, 0.9), B(not vegan, 0.99), C(vegan, 0.5)
    let req = PreferenceRequest::from_input(1, &vegan_prefs(), Some(2));
    let rows = vec![
        candidate(1, true, 900),
        candidate(2, false, 990),
        candidate(3, true, 500),
    ];
    let out = QueryRoot.recommend(rows, &req);
    assert_eq!(out.len(), 2);
    assert_eq!(out[0].id, 1);
    assert_eq!(out[0].score, 855_000); // 0.855
    assert_eq!(out[1].id, 3);
    assert_eq!(out[1].score, 675_000); // 0.675
}

#[test]
fn output_scores_are_nonincreasing() {
    let req = PreferenceRequest::from_input(1, &vegan_prefs(), Some(50));
    let rows = vec![
        candidate(4, false, 120),
        candidate(1, true, 900),
        candidate(3, true, 500),
        candidate(2, false, 990),
        candidate(5, true, 10),
    ];
    let out = QueryRoot.recommend(rows, &req);
    assert_eq!(out.len(), 5);
    for w in out.windows(2) {
        assert!(w[0].score >= w[1].score);
    }
}

#[test]
fn equal_scores_break_ties_by_id_ascending() {
    let items = vec![scored(9, 500_000), scored(2, 500_000), scored(5, 500_000)];
    let out = build_ranked(items, 10);
    let ids: Vec<i64> = out.iter().map(|m| m.id).collect();
    assert_eq!(ids, vec![2, 5, 9]);
}

#[test]
fn ranked_list_is_truncated_to_the_limit() {
    let items = vec![scored(1, 100), scored(2, 300), scored(3, 200), scored(4, 400)];
    let out = build_ranked(items, 2);
    let ids: Vec<i64> = out.iter().map(|m| m.id).collect();
    assert_eq!(ids, vec![4, 2]);
}

#[test]
fn no_candidates_rank_to_an_empty_page() {
    let req = PreferenceRequest::from_input(1, &vegan_prefs(), Some(10));
    let out = QueryRoot.recommend(Vec::new(), &req);
    assert!(out.is_empty());
}

#[test]
fn flow_returns_cached_payload_on_hit() {
    let req = PreferenceRequest::from_input(1, &vegan_prefs(), None);
    let (flow, action) = RecommendFlow::start(req, "recommend", "{}", 30);
    match action {
        Action::GetCached { key } => assert!(key.starts_with("gql:")),
        _ => panic!("expected a cache lookup first"),
    }
    let (flow, action) = flow.on_cache(CacheLookup::Hit { payload: "cached".to_string() });
    match action {
        Action::Finish { outcome: Outcome::Cached(p) } => assert_eq!(p, "cached"),
        _ => panic!("a hit must finish with the cached payload"),
    }
    drop(flow);
}

#[test]
fn flow_treats_cache_fault_as_miss() {
    let req = PreferenceRequest::from_input(1, &vegan_prefs(), None);
    let (flow, _) = RecommendFlow::start(req, "recommend", "{}", 30);
    let (_, action) = flow.on_cache(CacheLookup::Fault);
    match action {
        Action::FetchCandidates { sql, binds: _, limit_rows } => {
            assert_eq!(limit_rows, 200);
            assert!(sql.ends_with(" LIMIT 200"));
            assert!(sql.contains("hall_id = $1"));
            assert!(sql.contains("vegan = true"));
        },
        _ => panic!("an unreachable cache must take the miss path"),
    }
}

#[test]
fn flow_computes_stores_and_finishes() {
    let req = PreferenceRequest::from_input(1, &vegan_prefs(), Some(2));
    let (flow, _) = RecommendFlow::start(req, "recommend", "{\"hall\":1}", 30);
    let (flow, _) = flow.on_cache(CacheLookup::Miss);
    let rows = vec![
        candidate(1, true, 900),
        candidate(2, false, 990),
        candidate(3, true, 500),
    ];
    let (flow, action) = flow.on_fetched(rows);
    match action {
        Action::StoreCached { key, ttl } => {
            assert!(key.starts_with("gql:"));
            assert_eq!(ttl, 30);
        },
        _ => panic!("the computed result must be offered to the cache"),
    }
    assert_eq!(flow.pending_items().len(), 2);
    // the cache write failing must not change the outcome
    let (_, action) = flow.on_stored(false);
    match action {
        Action::Finish { outcome: Outcome::Computed(items) } => {
            assert_eq!(items.len(), 2);
            assert_eq!(items[0].id, 1);
            assert_eq!(items[0].score, 855_000);
            assert_eq!(items[1].id, 3);
        },
        _ => panic!("a store fault must be absorbed"),
    }
}

#[test]
fn flow_fails_whole_request_on_store_fault() {
    let req = PreferenceRequest::from_input(1, &vegan_prefs(), None);
    let (flow, _) = RecommendFlow::start(req, "recommend", "{}", 30);
    let (flow, _) = flow.on_cache(CacheLookup::Miss);
    let (_, action) = flow.on_fetch_fault();
    assert!(matches!(action, Action::Fail));
}

#[test]
fn hall_listing_plans_the_substring_filter() {
    let plan = QueryRoot.dining_halls(&Some("cafe".to_string()));
    assert_eq!(plan.pattern, Some("%cafe%".to_string()));
    assert_eq!(plan.fetch_limit, 50);
}

#[test]
fn hall_listing_without_query_is_unfiltered() {
    let plan = QueryRoot.dining_halls(&None);
    assert_eq!(plan.pattern, None);
    assert_eq!(plan.fetch_limit, 50);
    let blank = QueryRoot.dining_halls(&Some("  \u{2003} ".to_string()));
    assert_eq!(blank.pattern, None);
}

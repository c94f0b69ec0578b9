use hoos_hungry::enrich::{clean_allergens, contains_sub, enrich, split_commas, trim_text, ProductInfo};
use hoos_hungry::ingest::{dedupe_halls, hall_record, Element, HallRecord, Tags};

fn tags(name: Option<&str>, cuisine: Option<&str>) -> Option<Tags> {
    Some(Tags {
        name: name.map(|s| s.to_string()),
        amenity: Some("restaurant".to_string()),
        cuisine: cuisine.map(|s| s.to_string()),
        opening_hours: None,
    })
}

#[test]
fn node_becomes_a_record_under_its_node_id() {
    let el: Element<(f64, f64)> = Element::Node {
        id: 42,
        pos: (38.03, -78.50),
        tags: tags(Some("Cafe X"), Some("italian")),
    };
    let h = hall_record(el).expect("a node always yields a record");
    assert_eq!(h.osm_id, "node:42");
    assert_eq!(h.name, "Cafe X");
    assert_eq!(h.pos, (38.03, -78.50));
    assert_eq!(h.cuisine, Some("italian".to_string()));
    assert_eq!(h.opening_hours, None);
}

#[test]
fn unnamed_elements_fall_back_to_their_numeric_id() {
    let el: Element<u32> = Element::Node { id: 907, pos: 0, tags: None };
    let h = hall_record(el).unwrap();
    assert_eq!(h.name, "OSM Place 907");
    let el: Element<u32> = Element::Node { id: -17, pos: 0, tags: None };
    let h = hall_record(el).unwrap();
    assert_eq!(h.osm_id, "node:-17");
    assert_eq!(h.name, "OSM Place -17");
}

#[test]
fn areas_need_a_center_to_become_records() {
    let missing: Element<u32> = Element::Way { id: 5, center: None, tags: tags(Some("Hall"), None) };
    assert!(hall_record(missing).is_none());
    let with_center: Element<u32> =
        Element::Relation { id: 5, center: Some(7), tags: tags(Some("Hall"), None) };
    let h = hall_record(with_center).unwrap();
    assert_eq!(h.osm_id, "obj:5");
    assert_eq!(h.pos, 7);
}

fn record(id: &str, name: &str) -> HallRecord<u32> {
    HallRecord {
        osm_id: id.to_string(),
        name: name.to_string(),
        pos: 0,
        cuisine: None,
        opening_hours: None,
    }
}

#[test]
fn dedupe_keeps_the_first_record_of_each_id() {
    let halls = vec![
        record("node:1", "first"),
        record("node:2", "second"),
        record("node:1", "duplicate"),
        record("obj:3", "third"),
    ];
    let out = dedupe_halls(halls);
    let names: Vec<&str> = out.iter().map(|h| h.name.as_str()).collect();
    assert_eq!(names, vec!["first", "second", "third"]);
}

#[test]
fn substring_search_matches_rust_contains() {
    assert!(contains_sub("en:vegan-status-unknown", "vegan"));
    assert!(!contains_sub("en:palm-oil-free", "vegan"));
    assert!(contains_sub("abc", ""));
    assert!(!contains_sub("ab", "abc"));
}

#[test]
fn trim_and_split_behave_like_std() {
    assert_eq!(trim_text("  milk \t"), "milk");
    assert_eq!(trim_text("\u{2003}"), "");
    assert_eq!(split_commas("a,,b"), vec!["a", "", "b"]);
    assert_eq!(split_commas(""), vec![""]);
    assert_eq!(clean_allergens(" milk , , eggs "), vec!["milk", "eggs"]);
}

#[test]
fn missing_product_yields_the_minimal_record() {
    let item = enrich("pizza", None);
    assert_eq!(item.name, "pizza");
    assert_eq!(item.brand, None);
    assert_eq!(item.calories, None);
    assert!(item.allergens.is_none());
    assert_eq!(item.vegan, None);
    assert_eq!(item.vegetarian, None);
}

#[test]
fn product_fields_are_read_off_the_answer() {
    let product = ProductInfo {
        product_name: None,
        brands: Some("Acme".to_string()),
        calories: Some(250),
        allergens: Some("milk, soy,".to_string()),
        ingredients_analysis_tags: vec![
            "en:vegetarian".to_string(),
            "en:palm-oil-free".to_string(),
        ],
    };
    let item = enrich("salad", Some(product));
    assert_eq!(item.name, "salad"); // missing name falls back to the term
    assert_eq!(item.brand, Some("Acme".to_string()));
    assert_eq!(item.calories, Some(250));
    assert_eq!(item.allergens, Some(vec!["milk".to_string(), "soy".to_string()]));
    assert_eq!(item.vegan, Some(false));
    assert_eq!(item.vegetarian, Some(true));
}

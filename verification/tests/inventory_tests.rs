use item_labels::error::LabelError;
use item_labels::fonts::{font_candidates, resolve_font};
use item_labels::inventory::{item_query, location_code, new_location_code};
use item_labels::models::ItemFilter;

const BASE: &str = "SELECT id, name, category, specifications, quantity, unit, location_id, min_quantity, notes, image_path, created_at, updated_at FROM items WHERE 1=1";

#[test]
fn listing_without_a_filter_has_no_placeholder() {
    let (query, params) = item_query(&None);
    assert_eq!(query, format!("{} ORDER BY name", BASE));
    assert!(params.is_empty());
    let empty = ItemFilter { category: None, location_id: None, search: None };
    let (query, params) = item_query(&Some(empty));
    assert_eq!(query, format!("{} ORDER BY name", BASE));
    assert!(params.is_empty());
}

#[test]
fn listing_numbers_its_placeholders_in_order() {
    let all = ItemFilter {
        category: Some("screws".to_string()),
        location_id: Some(-3),
        search: Some("M3".to_string()),
    };
    let (query, params) = item_query(&Some(all));
    assert_eq!(
        query,
        format!(
            "{} AND category = ?1 AND location_id = ?2 AND (name LIKE ?3 OR specifications LIKE ?3) ORDER BY name",
            BASE
        )
    );
    assert_eq!(params, vec!["screws".to_string(), "-3".to_string(), "%M3%".to_string()]);
}

#[test]
fn listing_skips_absent_conditions() {
    let some = ItemFilter { category: None, location_id: Some(12), search: Some("螺".to_string()) };
    let (query, params) = item_query(&Some(some));
    assert_eq!(
        query,
        format!(
            "{} AND location_id = ?1 AND (name LIKE ?2 OR specifications LIKE ?2) ORDER BY name",
            BASE
        )
    );
    assert_eq!(params, vec!["12".to_string(), "%螺%".to_string()]);
    let search = ItemFilter { category: None, location_id: None, search: Some(String::new()) };
    let (query, params) = item_query(&Some(search));
    assert_eq!(
        query,
        format!("{} AND (name LIKE ?1 OR specifications LIKE ?1) ORDER BY name", BASE)
    );
    assert_eq!(params, vec!["%%".to_string()]);
}

#[test]
fn location_code_takes_the_first_group() {
    assert_eq!(location_code("1a2b3c4d-0000-4000-8000-000000000000"), "LOC-1a2b3c4d");
    assert_eq!(location_code("nohyphen"), "LOC-nohyphen");
    assert_eq!(location_code("-lead"), "LOC-");
    assert_eq!(location_code(""), "LOC-");
}

#[test]
fn new_location_codes_have_eight_hex_digits() {
    let a = new_location_code();
    assert_eq!(a.len(), 12);
    assert!(a.starts_with("LOC-"));
    assert!(a[4..].chars().all(|c| c.is_ascii_hexdigit()));
}

#[test]
fn first_present_font_wins() {
    assert_eq!(resolve_font(&vec![false, true, true]), Ok(1));
    assert_eq!(resolve_font(&vec![true]), Ok(0));
    assert_eq!(resolve_font(&vec![false, false]), Err(LabelError::FontUnavailable));
    assert_eq!(resolve_font(&vec![]), Err(LabelError::FontUnavailable));
}

#[test]
fn font_candidates_are_ordered() {
    assert_eq!(
        font_candidates(true),
        vec![
            "C:\\Windows\\Fonts\\simhei.ttf",
            "C:\\Windows\\Fonts\\simsun.ttc",
            "C:\\Windows\\Fonts\\msyh.ttc",
            "C:\\Windows\\Fonts\\simkai.ttf",
        ]
    );
    assert_eq!(
        font_candidates(false),
        vec![
            "/usr/share/fonts/truetype/wqy/wqy-zenhei.ttc",
            "/usr/share/fonts/truetype/droid/DroidSansFallbackFull.ttf",
            "/System/Library/Fonts/PingFang.ttc",
        ]
    );
}

#[test]
fn item_is_stored_column_by_column() {
    let item = item_labels::models::ItemInput {
        name: "螺丝".to_string(),
        category: None,
        specifications: Some("M3".to_string()),
        quantity: 12,
        unit: None,
        location_id: Some(4),
        min_quantity: Some(-1),
        notes: None,
        image_path: Some("a.png".to_string()),
    };
    assert_eq!(
        item_labels::inventory::item_values(&item),
        vec![
            Some("螺丝".to_string()),
            None,
            Some("M3".to_string()),
            Some("12".to_string()),
            None,
            Some("4".to_string()),
            Some("-1".to_string()),
            None,
            Some("a.png".to_string()),
        ]
    );
}

#[test]
fn root_location_is_stored_without_a_parent() {
    let root = item_labels::models::LocationInput {
        name: "warehouse".to_string(),
        parent_id: Some(0),
        location_type: "room".to_string(),
        description: None,
    };
    assert_eq!(
        item_labels::inventory::location_values(&root, "LOC-1a2b3c4d"),
        vec![
            Some("warehouse".to_string()),
            None,
            Some("room".to_string()),
            None,
            Some("LOC-1a2b3c4d".to_string()),
        ]
    );
    let child = item_labels::models::LocationInput {
        name: "shelf".to_string(),
        parent_id: Some(7),
        location_type: "shelf".to_string(),
        description: Some("left".to_string()),
    };
    assert_eq!(
        item_labels::inventory::location_values(&child, "LOC-x"),
        vec![
            Some("shelf".to_string()),
            Some("7".to_string()),
            Some("shelf".to_string()),
            Some("left".to_string()),
            Some("LOC-x".to_string()),
        ]
    );
}

#[test]
fn history_entries_are_marked_manual() {
    assert_eq!(
        item_labels::inventory::log_values(3, -2, 8, "remove"),
        vec!["3", "-2", "8", "remove", "manual"]
    );
}

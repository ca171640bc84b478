use zenstac::item::Item;
use zenstac::properties::Properties;
use zenstac::search::{
    apply_search_pipeline, collect_candidates, explicit_scope, filter_items_by_bbox,
    filter_items_by_datetime, join_comma, limit_items, paging_defaults, parse_bbox, parse_sortby,
    sortby_to_string, SearchQuery, SortByField,
};
use zenstac::sorting::sort_items;

fn entry(id: &str, datetime: Option<&str>, bbox: Option<Vec<i64>>) -> Item {
    let it = Item::new(
        id.to_string(),
        Properties::new(datetime.map(|d| d.to_string())),
        Vec::new(),
        Vec::new(),
    );
    match bbox {
        Some(b) => it.with_bbox(b),
        None => it,
    }
}

fn ids(items: &[Item]) -> Vec<String> {
    items.iter().map(|it| it.id.clone()).collect()
}

const M: i64 = 1_000_000;

#[test]
fn bbox_parses_four_numbers() {
    assert_eq!(parse_bbox("-5,-5,5,5"), Some((-5 * M, -5 * M, 5 * M, 5 * M)));
    assert_eq!(parse_bbox(" 1.5 , 2 , 3 , 4 "), Some((1_500_000, 2 * M, 3 * M, 4 * M)));
    assert_eq!(parse_bbox("-0.000001,0,0,+0.25"), Some((-1, 0, 0, 250_000)));
}

#[test]
fn bbox_rejects_wrong_token_counts() {
    assert_eq!(parse_bbox("1,2,3"), None);
    assert_eq!(parse_bbox("1,2,3,4,5"), None);
    assert_eq!(parse_bbox("not,a,bounding,box"), None);
    assert_eq!(parse_bbox(""), None);
    assert_eq!(parse_bbox("1,2,x,4"), None);
    // Five tokens with one bad one still fail: the token count is checked
    // before bad tokens could be dropped.
    assert_eq!(parse_bbox(",1,2,3,4"), None);
    assert_eq!(parse_bbox("x,1,2,3,4"), None);
    assert_eq!(parse_bbox("1,2,3,4,"), None);
}

#[test]
fn malformed_bbox_fails_open() {
    let items = vec![
        entry("a", None, Some(vec![0, 0, M, M])),
        entry("b", None, None),
    ];
    let out = filter_items_by_bbox(items, "garbage");
    assert_eq!(ids(&out), vec!["a", "b"]);
}

#[test]
fn bbox_with_extra_tokens_fails_open_even_when_four_parse() {
    // Five tokens of which four parse: the filter must still be skipped,
    // keeping even the entry without a bounding box.
    let items = vec![
        entry("a", None, Some(vec![0, 0, M, M])),
        entry("b", None, None),
    ];
    let out = filter_items_by_bbox(items, ",1,2,3,4");
    assert_eq!(ids(&out), vec!["a", "b"]);
    let items = vec![
        entry("a", None, Some(vec![0, 0, M, M])),
        entry("b", None, None),
    ];
    let out = filter_items_by_bbox(items, "x,1,2,3,4");
    assert_eq!(ids(&out), vec!["a", "b"]);
}

#[test]
fn valid_bbox_excludes_entries_without_bbox() {
    let items = vec![
        entry("a", None, Some(vec![-10 * M, -10 * M, 10 * M, 10 * M])),
        entry("b", None, None),
    ];
    let out = filter_items_by_bbox(items, "-5,-5,5,5");
    assert_eq!(ids(&out), vec!["a"]);
}

#[test]
fn bbox_keeps_intersecting_entry_only() {
    let a = entry("A", None, Some(vec![-10 * M, -10 * M, 10 * M, 10 * M]));
    let b = entry("B", None, Some(vec![20 * M, 20 * M, 30 * M, 30 * M]));
    let out = filter_items_by_bbox(vec![a, b], "-5,-5,5,5");
    assert_eq!(ids(&out), vec!["A"]);
}

#[test]
fn datetime_open_ended_range_keeps_later_entries_in_order() {
    let items = vec![
        entry("early", Some("2021-01-01T00:00:00Z"), None),
        entry("mid", Some("2022-06-01T00:00:00Z"), None),
        entry("late", Some("2023-12-01T00:00:00Z"), None),
    ];
    let out = filter_items_by_datetime(items, "2022-01-01T00:00:00Z/..");
    assert_eq!(ids(&out), vec!["mid", "late"]);
}

#[test]
fn datetime_point_matches_exactly() {
    let items = vec![
        entry("hit", Some("2022-06-01T00:00:00Z"), None),
        entry("miss", Some("2022-06-01T00:00:01Z"), None),
    ];
    let out = filter_items_by_datetime(items, "2022-06-01T00:00:00Z");
    assert_eq!(ids(&out), vec!["hit"]);
}

#[test]
fn datetime_excludes_unreadable_and_missing_timestamps() {
    let items = vec![
        entry("ok", Some("2022-06-01T00:00:00Z"), None),
        entry("bad", Some("yesterday"), None),
        entry("none", None, None),
    ];
    let out = filter_items_by_datetime(items, "2020-01-01T00:00:00Z/..");
    assert_eq!(ids(&out), vec!["ok"]);
}

#[test]
fn datetime_fully_open_keeps_entries_without_timestamp() {
    let items = vec![
        entry("ok", Some("2022-06-01T00:00:00Z"), None),
        entry("none", None, None),
    ];
    let out = filter_items_by_datetime(items, "../..");
    assert_eq!(ids(&out), vec!["ok", "none"]);
}

#[test]
fn parse_sortby_reads_fields_and_directions() {
    let keys = parse_sortby("datetime:desc, id").unwrap();
    assert_eq!(keys.len(), 2);
    assert_eq!(keys[0], ("datetime".to_string(), "desc".to_string()));
    assert_eq!(keys[1], ("id".to_string(), "asc".to_string()));
}

#[test]
fn parse_sortby_skips_empty_fields_and_reports_none_found() {
    assert_eq!(
        parse_sortby(" , :desc ,, "),
        Err("No valid sort fields found".to_string())
    );
    let keys = parse_sortby("id:").unwrap();
    assert_eq!(keys, vec![("id".to_string(), "".to_string())]);
}

#[test]
fn sort_by_id_ascending_is_non_decreasing() {
    let items = vec![entry("c", None, None), entry("a", None, None), entry("b", None, None)];
    let keys = vec![("id".to_string(), "asc".to_string())];
    let out = sort_items(items, &keys);
    assert_eq!(ids(&out), vec!["a", "b", "c"]);
}

#[test]
fn sort_by_datetime_descending_is_non_increasing() {
    let items = vec![
        entry("a", Some("2021-01-01T00:00:00Z"), None),
        entry("b", Some("2023-01-01T00:00:00Z"), None),
        entry("c", Some("2022-01-01T00:00:00Z"), None),
    ];
    let keys = vec![("datetime".to_string(), "desc".to_string())];
    let out = sort_items(items, &keys);
    assert_eq!(ids(&out), vec!["b", "c", "a"]);
}

#[test]
fn sort_by_unknown_field_keeps_input_order() {
    let items = vec![entry("z", None, None), entry("m", None, None), entry("a", None, None)];
    let keys = vec![("population".to_string(), "asc".to_string())];
    let out = sort_items(items, &keys);
    assert_eq!(ids(&out), vec!["z", "m", "a"]);
}

#[test]
fn sort_is_stable_across_keys() {
    let items = vec![
        entry("b", Some("2022-01-01T00:00:00Z"), None),
        entry("a", Some("2022-01-01T00:00:00Z"), None),
        entry("c", Some("2021-01-01T00:00:00Z"), None),
    ];
    let keys = vec![("datetime".to_string(), "asc".to_string())];
    let out = sort_items(items, &keys);
    // Equal timestamps keep their original relative order.
    assert_eq!(ids(&out), vec!["c", "b", "a"]);
}

#[test]
fn explicit_scope_trims_and_drops_empty_tokens() {
    assert_eq!(
        explicit_scope(&Some(" one , two ,, ".to_string())),
        Some(vec!["one".to_string(), "two".to_string()])
    );
    assert_eq!(explicit_scope(&Some(" , ".to_string())), None);
    assert_eq!(explicit_scope(&None), None);
}

#[test]
fn collect_candidates_skips_failed_fetches() {
    let fetches = vec![
        Some(vec![entry("a", None, None)]),
        None,
        Some(vec![entry("b", None, None), entry("c", None, None)]),
    ];
    let out = collect_candidates(fetches);
    assert_eq!(ids(&out), vec!["a", "b", "c"]);
}

#[test]
fn limit_truncates_only_when_below_count() {
    let items = vec![entry("a", None, None), entry("b", None, None), entry("c", None, None)];
    let out = limit_items(items, Some(2));
    assert_eq!(ids(&out), vec!["a", "b"]);
    let items = vec![entry("a", None, None)];
    let out = limit_items(items, Some(5));
    assert_eq!(ids(&out), vec!["a"]);
    let items = vec![entry("a", None, None), entry("b", None, None)];
    let out = limit_items(items, Some(-1));
    assert_eq!(ids(&out), vec!["a", "b"]);
}

#[test]
fn pipeline_filters_sorts_and_limits() {
    let items = vec![
        entry("far", Some("2022-01-01T00:00:00Z"), Some(vec![20 * M, 20 * M, 30 * M, 30 * M])),
        entry("b", Some("2023-01-01T00:00:00Z"), Some(vec![0, 0, M, M])),
        entry("a", Some("2021-01-01T00:00:00Z"), Some(vec![0, 0, M, M])),
        entry("old", Some("2019-01-01T00:00:00Z"), Some(vec![0, 0, M, M])),
    ];
    let query = SearchQuery {
        limit: Some(2),
        bbox: Some("-5,-5,5,5".to_string()),
        datetime: Some("2020-01-01T00:00:00Z/..".to_string()),
        intersects: None,
        ids: None,
        collections: None,
        sortby: Some("id:asc".to_string()),
    };
    let out = apply_search_pipeline(items, &query);
    assert_eq!(ids(&out), vec!["a", "b"]);
}

#[test]
fn pipeline_with_no_stages_returns_candidates() {
    let items = vec![entry("x", None, None), entry("y", None, None)];
    let query = SearchQuery {
        limit: None,
        bbox: None,
        datetime: None,
        intersects: None,
        ids: None,
        collections: None,
        sortby: None,
    };
    let out = apply_search_pipeline(items, &query);
    assert_eq!(ids(&out), vec!["x", "y"]);
}

#[test]
fn paging_defaults_fill_missing_values() {
    assert_eq!(paging_defaults(None, None), (10, 0));
    assert_eq!(paging_defaults(Some(25), Some(5)), (25, 5));
}

#[test]
fn join_comma_and_sortby_render_query_forms() {
    assert_eq!(join_comma(&vec!["a".to_string(), "b".to_string()]), "a,b");
    assert_eq!(join_comma(&vec!["solo".to_string()]), "solo");
    assert_eq!(join_comma(&Vec::new()), "");
    let fields = vec![
        SortByField { field: "datetime".to_string(), direction: "desc".to_string() },
        SortByField { field: "id".to_string(), direction: "asc".to_string() },
    ];
    assert_eq!(sortby_to_string(&fields), "datetime:desc,id:asc");
}

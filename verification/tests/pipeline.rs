use tradehub::discovery::browse_query;
use tradehub::discovery::complete_fetch;
use tradehub::discovery::filter_by_city_query;
use tradehub::discovery::search_query;
use tradehub::discovery::DiscoveryError;
use tradehub::project::malformed_positions;
use tradehub::project::row_to_listing_item;
use tradehub::project::RawRow;
use tradehub::project::RowError;
use tradehub::query::ListingQuery;
use tradehub::sanitize::sanitize_query;
use tradehub::score::calculate_score;
use tradehub::tags::parse_tags;
use tradehub::tags::tag_summary;

fn row(id: Option<i64>, title: Option<&str>, city: Option<&str>, tags: Option<&str>) -> RawRow {
    RawRow {
        id,
        title: title.map(|s| s.to_string()),
        city: city.map(|s| s.to_string()),
        tags: tags.map(|s| s.to_string()),
    }
}

#[test]
fn score_exact_values() {
    assert_eq!(calculate_score(0), 120);
    assert_eq!(calculate_score(1), 115);
    assert_eq!(calculate_score(23), 5);
    assert_eq!(calculate_score(100), 5);
}

#[test]
fn score_never_increases_and_floors_at_five() {
    let mut prev = calculate_score(0);
    for p in 1..200usize {
        let s = calculate_score(p);
        assert!(s <= prev);
        assert!(s >= 5);
        prev = s;
    }
}

#[test]
fn parse_tags_trims_and_drops_empty_segments() {
    let tags = parse_tags(Some("a, b,,c ,".to_string()));
    assert_eq!(tags, vec!["a".to_string(), "b".to_string(), "c".to_string()]);
    assert_eq!(tag_summary(&tags), "a, b, c");
    assert!(!tags.is_empty());
}

#[test]
fn parse_tags_keeps_order_and_duplicates() {
    let tags = parse_tags(Some("z, a, z".to_string()));
    assert_eq!(tags, vec!["z".to_string(), "a".to_string(), "z".to_string()]);
}

#[test]
fn reparsing_serialized_tags_is_identity() {
    let tags = parse_tags(Some(" a, b,,c ,x y".to_string()));
    assert_eq!(
        tags,
        vec!["a".to_string(), "b".to_string(), "c".to_string(), "x y".to_string()]
    );
    let joined = tag_summary(&tags);
    assert_eq!(parse_tags(Some(joined)), tags);
    // joining with a bare comma round-trips too
    let bare = tags.join(",");
    assert_eq!(parse_tags(Some(bare)), tags);
}

#[test]
fn empty_and_absent_tags_default() {
    let empty = parse_tags(Some("".to_string()));
    assert!(empty.is_empty());
    let absent = parse_tags(None);
    assert!(absent.is_empty());
    assert_eq!(tag_summary(&empty), "暂无标签");
    assert_eq!(tag_summary(&absent), "暂无标签");
}

#[test]
fn city_default_and_passthrough() {
    let missing = row_to_listing_item(&row(Some(1), Some("t"), None, None), 0).unwrap();
    assert_eq!(missing.city, "城市未填写");
    let empty = row_to_listing_item(&row(Some(1), Some("t"), Some(""), None), 0).unwrap();
    assert_eq!(empty.city, "城市未填写");
    let padded = row_to_listing_item(&row(Some(1), Some("t"), Some(" Beijing "), None), 0).unwrap();
    assert_eq!(padded.city, " Beijing ");
    let plain = row_to_listing_item(&row(Some(1), Some("t"), Some("Beijing"), None), 0).unwrap();
    assert_eq!(plain.city, "Beijing");
}

#[test]
fn sanitizer_stability() {
    let cleaned = sanitize_query("café日本 test-ok_123|*\"x\"");
    assert_eq!(cleaned, "caf test-ok_123|*\"x\"");
}

#[test]
fn sanitizer_keeps_allowed_text_unchanged() {
    let cleaned = sanitize_query("a-b_c|d*e\"f g\t9");
    assert_eq!(cleaned, "a-b_c|d*e\"f g\t9");
}

#[test]
fn sanitizer_does_not_collapse_whitespace() {
    let cleaned = sanitize_query("a  é  b");
    assert_eq!(cleaned, "a    b");
}

#[test]
fn empty_search_short_circuits() {
    assert!(search_query(None, Some("Beijing".to_string())).is_none());
    assert!(search_query(Some("".to_string()), None).is_none());
    assert!(search_query(Some("   \t ".to_string()), Some("x".to_string())).is_none());
    // non-ASCII whitespace short-circuits too
    assert!(search_query(Some("\u{a0}\u{3000}".to_string()), None).is_none());
}

#[test]
fn search_query_trims_sanitizes_and_filters() {
    let q = search_query(Some(" rust 日本 web ".to_string()), Some("Shanghai".to_string()));
    match q {
        Some(ListingQuery::Search { text, city }) => {
            assert_eq!(text, "rust  web");
            assert_eq!(city, Some("Shanghai".to_string()));
        },
        _ => panic!("expected a search shape"),
    }
    let unfiltered = search_query(Some("rust".to_string()), Some("  ".to_string()));
    match unfiltered {
        Some(ListingQuery::Search { text, city }) => {
            assert_eq!(text, "rust");
            assert_eq!(city, None);
        },
        _ => panic!("expected a search shape"),
    }
}

#[test]
fn filter_by_city_requires_a_usable_filter() {
    assert!(filter_by_city_query(None).is_none());
    assert!(filter_by_city_query(Some("".to_string())).is_none());
    assert!(filter_by_city_query(Some(" \t".to_string())).is_none());
    match filter_by_city_query(Some("Beijing".to_string())) {
        Some(ListingQuery::BrowseByCity { city }) => assert_eq!(city, "Beijing"),
        _ => panic!("expected a city-filtered shape"),
    }
}

#[test]
fn browse_blank_city_is_unfiltered() {
    assert!(matches!(browse_query(None), ListingQuery::Browse));
    assert!(matches!(browse_query(Some("".to_string())), ListingQuery::Browse));
    assert!(matches!(browse_query(Some("  ".to_string())), ListingQuery::Browse));
    assert!(matches!(browse_query(Some("\u{a0}".to_string())), ListingQuery::Browse));
}

#[test]
fn browse_city_sql_and_binds() {
    let q = browse_query(Some("Shanghai".to_string()));
    assert!(matches!(&q, ListingQuery::BrowseByCity { city } if city == "Shanghai"));
    assert_eq!(q.binds(), vec!["Shanghai".to_string(), "Shanghai%".to_string()]);
    assert_eq!(
        q.sql(),
        "SELECT id, title, city, tags FROM listings WHERE is_active = 1 AND (city = ? OR city LIKE ?) ORDER BY created_at DESC LIMIT 20"
    );
}

#[test]
fn browse_sql_and_binds() {
    let q = browse_query(None);
    assert!(q.binds().is_empty());
    assert_eq!(
        q.sql(),
        "SELECT id, title, city, tags FROM listings WHERE is_active = 1 ORDER BY created_at DESC LIMIT 20"
    );
}

#[test]
fn search_sql_and_binds() {
    let q = search_query(Some("cats".to_string()), Some("Beijing".to_string())).unwrap();
    assert_eq!(
        q.binds(),
        vec!["cats".to_string(), "Beijing".to_string(), "Beijing%".to_string()]
    );
    assert_eq!(
        q.sql(),
        "SELECT l.id, l.title, l.city, l.tags FROM listings_fts f JOIN listings l ON l.id = f.rowid WHERE f MATCH ? AND l.is_active = 1 AND (l.city = ? OR l.city LIKE ?) ORDER BY rank LIMIT 20"
    );
    let q2 = search_query(Some("cats".to_string()), None).unwrap();
    assert_eq!(q2.binds(), vec!["cats".to_string()]);
    assert_eq!(
        q2.sql(),
        "SELECT l.id, l.title, l.city, l.tags FROM listings_fts f JOIN listings l ON l.id = f.rowid WHERE f MATCH ? AND l.is_active = 1 ORDER BY rank LIMIT 20"
    );
}

#[test]
fn malformed_rows_are_skipped_without_a_score_gap() {
    let rows = vec![
        row(Some(1), Some("A"), None, None),
        row(Some(2), None, None, None),
        row(None, Some("C"), None, None),
        row(Some(4), Some("D"), None, None),
    ];
    let dropped = malformed_positions(&rows);
    assert_eq!(dropped, vec![1, 2]);
    let items = complete_fetch(Some(rows)).unwrap();
    assert_eq!(items.len(), 2);
    assert_eq!(items[0].id, 1);
    assert_eq!(items[0].score, 120);
    assert_eq!(items[1].id, 4);
    assert_eq!(items[1].score, 115);
}

#[test]
fn malformed_row_error() {
    let r = row_to_listing_item(&row(None, Some("t"), None, None), 0);
    assert!(matches!(r, Err(RowError::MalformedRow)));
    let r2 = row_to_listing_item(&row(Some(1), None, None, None), 0);
    assert!(matches!(r2, Err(RowError::MalformedRow)));
}

#[test]
fn store_failure_is_store_unavailable() {
    let r = complete_fetch(None);
    assert!(matches!(r, Err(DiscoveryError::StoreUnavailable)));
}

#[test]
fn end_to_end_browse_by_city() {
    let q = browse_query(Some("Beijing".to_string()));
    assert!(matches!(&q, ListingQuery::BrowseByCity { city } if city == "Beijing"));
    assert_eq!(q.binds(), vec!["Beijing".to_string(), "Beijing%".to_string()]);
    // both the exact match and the prefix match come back, newest first
    let fetched = vec![
        row(Some(1), Some("A"), Some("Beijing"), Some("x,y")),
        row(Some(2), Some("B"), Some("Beijing-Haidian"), Some("")),
    ];
    let items = complete_fetch(Some(fetched)).unwrap();
    assert_eq!(items.len(), 2);
    assert_eq!(items[0].id, 1);
    assert_eq!(items[0].title, "A");
    assert_eq!(items[0].city, "Beijing");
    assert_eq!(items[0].tags, vec!["x".to_string(), "y".to_string()]);
    assert!(items[0].has_tags);
    assert_eq!(items[0].tag_summary, "x, y");
    assert_eq!(items[0].score, 120);
    assert_eq!(items[1].id, 2);
    assert_eq!(items[1].title, "B");
    assert_eq!(items[1].city, "Beijing-Haidian");
    assert!(items[1].tags.is_empty());
    assert!(!items[1].has_tags);
    assert_eq!(items[1].tag_summary, "暂无标签");
    assert_eq!(items[1].score, 115);
}

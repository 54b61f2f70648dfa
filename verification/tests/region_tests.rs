use maps_dispatcher::region::{create_download_list, Region};
use maps_dispatcher::errors::ResolveError;
use maps_dispatcher::text::{join_url, replace_str, u64_to_decimal, u64_to_decimal_pad2, url_file_name};

fn leaf(name: &str, file: &str) -> Region {
    Region::Leaf { name: name.to_string(), file: file.to_string() }
}

fn node(name: &str, path: &str, regions: Vec<Region>) -> Region {
    Region::Node { name: name.to_string(), path: path.to_string(), regions }
}

#[test]
fn single_leaf_under_one_node() {
    let regions = vec![node("europe", "europe", vec![leaf("france", "france-latest.osm.pbf")])];
    let list = create_download_list(&regions, "https://example.org/");
    assert_eq!(list.len(), 1);
    match &list[0] {
        Ok((name, url)) => {
            assert_eq!(name, "france-latest.osm.pbf");
            assert_eq!(url, "https://example.org/europe/france-latest.osm.pbf");
        }
        Err(_) => panic!("expected a resolved entry"),
    }
}

#[test]
fn sibling_and_subtree_order_is_preserved() {
    let regions = vec![
        node(
            "europe",
            "europe",
            vec![leaf("france", "france.osm.pbf"), leaf("spain", "spain.osm.pbf")],
        ),
        leaf("planet", "planet.osm.pbf"),
    ];
    let list = create_download_list(&regions, "https://example.org");
    let urls: Vec<String> = list
        .into_iter()
        .map(|e| match e {
            Ok((_, url)) => url,
            Err(_) => panic!("expected only resolved entries"),
        })
        .collect();
    assert_eq!(
        urls,
        vec![
            "https://example.org/europe/france.osm.pbf".to_string(),
            "https://example.org/europe/spain.osm.pbf".to_string(),
            "https://example.org/planet.osm.pbf".to_string(),
        ]
    );
}

#[test]
fn empty_region_list_yields_no_entries() {
    let regions: Vec<Region> = Vec::new();
    let list = create_download_list(&regions, "https://example.org/");
    assert!(list.is_empty());
}

#[test]
fn malformed_base_records_one_failure_per_entry_point() {
    // Joining onto a base without a scheme yields strings the URL parser
    // rejects: the node contributes one failure and skips its subtree, the
    // sibling leaf contributes its own failure.
    let regions = vec![
        node("europe", "europe", vec![leaf("france", "france.osm.pbf")]),
        leaf("planet", "planet.osm.pbf"),
    ];
    let list = create_download_list(&regions, "notaurl");
    assert_eq!(list.len(), 2);
    for entry in &list {
        match entry {
            Err(ResolveError::ParseUrl { url }) => assert!(url.starts_with("notaurl/")),
            _ => panic!("expected a per-entry parse failure"),
        }
    }
}

#[test]
fn deep_nesting_resolves_through_every_level() {
    let regions = vec![node(
        "europe",
        "europe",
        vec![node("france", "france", vec![leaf("alsace", "alsace.osm.pbf")])],
    )];
    let list = create_download_list(&regions, "https://example.org");
    assert_eq!(list.len(), 1);
    match &list[0] {
        Ok((name, url)) => {
            assert_eq!(name, "alsace.osm.pbf");
            assert_eq!(url, "https://example.org/europe/france/alsace.osm.pbf");
        }
        Err(_) => panic!("expected a resolved entry"),
    }
}

#[test]
fn join_trims_trailing_slashes() {
    assert_eq!(join_url("https://example.org", "a"), "https://example.org/a");
    assert_eq!(join_url("https://example.org/", "a"), "https://example.org/a");
    assert_eq!(join_url("https://example.org///", "a"), "https://example.org/a");
}

#[test]
fn join_is_associative_on_slashless_segments() {
    let through_node = join_url(&join_url("https://example.org/", "europe"), "france.osm.pbf");
    let direct = join_url("https://example.org/", "europe/france.osm.pbf");
    assert_eq!(through_node, direct);
}

#[test]
fn replace_substitutes_every_occurrence() {
    assert_eq!(replace_str("{region}-latest", "{region}", "france"), "france-latest");
    assert_eq!(replace_str("{x}/{x}", "{x}", "ab"), "ab/ab");
    assert_eq!(replace_str("no-placeholder", "{region}", "france"), "no-placeholder");
    assert_eq!(replace_str("", "{region}", "france"), "");
}

#[test]
fn decimal_rendering_matches_expected_digits() {
    assert_eq!(u64_to_decimal(0), "0");
    assert_eq!(u64_to_decimal(7), "7");
    assert_eq!(u64_to_decimal(807), "807");
    assert_eq!(u64_to_decimal(947638923004), "947638923004");
    assert_eq!(u64_to_decimal_pad2(3), "03");
    assert_eq!(u64_to_decimal_pad2(10), "10");
}

#[test]
fn file_name_is_last_url_segment() {
    assert_eq!(url_file_name("https://example.org/europe/france.osm.pbf"), "france.osm.pbf");
    assert_eq!(url_file_name("https://example.org/"), "");
    assert_eq!(url_file_name("plain"), "plain");
}

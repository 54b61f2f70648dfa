use maps_dispatcher::errors::ResolveError;
use maps_dispatcher::resolver::{parse_urls, validate_url_items, OsmProvider, PluginSchema, UrlItem};

#[test]
fn template_schema_resolves_to_one_url_per_region() {
    let schema = PluginSchema {
        base_url: "https://example.org".to_string(),
        filename_template: "{region}-latest.osm.pbf".to_string(),
        regions: vec!["france".to_string(), "spain".to_string()],
    };
    let urls = parse_urls(&schema);
    assert_eq!(
        urls,
        vec![
            "https://example.org/france-latest.osm.pbf".to_string(),
            "https://example.org/spain-latest.osm.pbf".to_string(),
        ]
    );
}

#[test]
fn template_base_url_trailing_slash_is_trimmed() {
    let schema = PluginSchema {
        base_url: "https://example.org/".to_string(),
        filename_template: "{region}-latest.osm.pbf".to_string(),
        regions: vec!["france".to_string()],
    };
    let urls = parse_urls(&schema);
    assert_eq!(urls, vec!["https://example.org/france-latest.osm.pbf".to_string()]);
}

#[test]
fn template_with_no_regions_resolves_to_nothing() {
    let schema = PluginSchema {
        base_url: "https://example.org".to_string(),
        filename_template: "{region}.osm.pbf".to_string(),
        regions: Vec::new(),
    };
    assert!(parse_urls(&schema).is_empty());
}

#[test]
fn osm_provider_derives_names_and_urls() {
    let provider = OsmProvider::new(
        vec!["france".to_string(), "spain".to_string()],
        "https://download.geofabrik.de/europe/".to_string(),
    );
    let items = provider.create_download_list().expect("valid regions must resolve");
    assert_eq!(items.len(), 2);
    assert_eq!(items[0].name, "france.osm.pbf");
    assert_eq!(items[0].url, "https://download.geofabrik.de/europe/france.osm.pbf");
    assert!(items[0].metadata.is_none());
    assert_eq!(items[1].name, "spain.osm.pbf");
    assert_eq!(items[1].url, "https://download.geofabrik.de/europe/spain.osm.pbf");
}

#[test]
fn osm_provider_fails_whole_batch_on_malformed_url() {
    let provider = OsmProvider::new(vec!["france".to_string()], "notaurl".to_string());
    match provider.create_download_list() {
        Err(ResolveError::ParseUrl { url }) => assert_eq!(url, "notaurl/france.osm.pbf"),
        _ => panic!("expected a resolution failure"),
    }
}

#[test]
fn unique_names_pass_validation() {
    let items = vec![
        UrlItem {
            name: "a.pbf".to_string(),
            url: "https://example.org/a.pbf".to_string(),
            metadata: None,
        },
        UrlItem {
            name: "b.pbf".to_string(),
            url: "https://example.org/b.pbf".to_string(),
            metadata: None,
        },
    ];
    let ds = validate_url_items(items).expect("distinct names must validate");
    assert_eq!(ds.len(), 2);
    assert_eq!(ds[0].name, "a.pbf");
    assert_eq!(ds[1].url, "https://example.org/b.pbf");
}

#[test]
fn duplicate_names_are_rejected() {
    let items = vec![
        UrlItem {
            name: "same.pbf".to_string(),
            url: "https://example.org/x.pbf".to_string(),
            metadata: None,
        },
        UrlItem {
            name: "same.pbf".to_string(),
            url: "https://example.org/y.pbf".to_string(),
            metadata: None,
        },
    ];
    match validate_url_items(items) {
        Err(ResolveError::DuplicateName { name }) => assert_eq!(name, "same.pbf"),
        _ => panic!("expected duplicate names to be rejected"),
    }
}

#[test]
fn metadata_values_are_carried_through_validation() {
    let items = vec![UrlItem {
        name: "a.pbf".to_string(),
        url: "https://example.org/a.pbf".to_string(),
        metadata: Some(serde_json::Value::String("provider-tag".to_string())),
    }];
    let ds = validate_url_items(items).expect("distinct names must validate");
    assert_eq!(ds[0].metadata, Some(serde_json::Value::String("provider-tag".to_string())));
}

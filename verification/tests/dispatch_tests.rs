use maps_dispatcher::batch::{object_key, ready_marker_key, BatchInfo};
use maps_dispatcher::config::{Config, RawConfig};
use maps_dispatcher::dispatch::{
    AdmissionQueue, Dispatcher, DispatcherConfig, DEFAULT_CONCURRENT_REQUESTS,
};
use maps_dispatcher::errors::{FetchError, ItemError};
use maps_dispatcher::region::Region;
use maps_dispatcher::resolver::DownloadItem;
use maps_dispatcher::storage::Storage;

fn dispatcher() -> Dispatcher {
    Dispatcher::new(DispatcherConfig {
        bucket_name: "geodata".to_string(),
        default_concurrent_requests: 4,
        default_chunk_size: 5 * 1024 * 1024,
    })
}

fn ten_items() -> Vec<DownloadItem> {
    (0..10)
        .map(|i| DownloadItem {
            name: format!("region-{}.osm.pbf", i),
            url: format!("https://example.org/region-{}.osm.pbf", i),
            metadata: None,
        })
        .collect()
}

#[test]
fn one_failed_item_blocks_the_marker_but_not_its_siblings() {
    // Ten items, concurrency limit four, the seventh fails its network GET.
    let d = dispatcher();
    let b = d.create_batch_info(947638923004).unwrap();
    let items = ten_items();

    // The bounded pool admits in declaration order, never more than four
    // in flight.
    let mut queue = AdmissionQueue::new(items.len(), d.concurrency_limit(Some(4)));
    let mut admitted = Vec::new();
    let mut in_flight = 0usize;
    while admitted.len() < items.len() {
        match queue.try_admit() {
            Some(idx) => {
                in_flight += 1;
                assert!(in_flight <= 4);
                admitted.push(idx);
            }
            None => {
                queue.on_item_done();
                in_flight -= 1;
            }
        }
    }
    assert_eq!(admitted, (0..10).collect::<Vec<usize>>());

    // Item 7 (index 6) fails its GET; everything else streams fine.
    let fetched: Vec<Result<Vec<u8>, FetchError>> = (0..10)
        .map(|i| if i == 6 { Err(FetchError::Request) } else { Ok(vec![i as u8; 3]) })
        .collect();

    let mut store = Storage::new();
    let (results, marked) = d.dispatch(&mut store, &b, &items, fetched);

    assert!(!marked);
    assert_eq!(results.len(), 10);
    // The failure is reported with the item's name and cause.
    assert_eq!(results[6].name, "region-6.osm.pbf");
    assert!(matches!(
        results[6].outcome,
        Err(ItemError::Fetch(FetchError::Request))
    ));
    // The other nine items completed their uploads.
    for i in 0..10 {
        let key = object_key(&b, &items[i].name);
        if i == 6 {
            assert!(!store.contains(&key));
        } else {
            assert!(store.contains(&key));
            assert_eq!(store.get(&key), Some(&vec![i as u8; 3]));
        }
    }
    // No readiness marker exists after the run.
    assert!(!store.contains(&ready_marker_key(&b)));
    assert_eq!(store.object_count(), 9);
}

#[test]
fn clean_batch_writes_the_marker_exactly_once() {
    let d = dispatcher();
    let b = d.create_batch_info(947638923004).unwrap();
    let items = ten_items();
    let fetched: Vec<Result<Vec<u8>, FetchError>> =
        (0..10).map(|i| Ok(vec![i as u8])).collect();
    let mut store = Storage::new();
    let (results, marked) = d.dispatch(&mut store, &b, &items, fetched);
    assert!(marked);
    assert!(results.iter().all(|r| r.outcome.is_ok()));
    assert!(store.contains(&ready_marker_key(&b)));
    // Ten data objects plus the one sentinel.
    assert_eq!(store.object_count(), 11);
}

#[test]
fn concurrency_limit_falls_back_to_the_default() {
    let d = dispatcher();
    assert_eq!(d.concurrency_limit(None), 4);
    assert_eq!(d.concurrency_limit(None), DEFAULT_CONCURRENT_REQUESTS);
    assert_eq!(d.concurrency_limit(Some(9)), 9);
}

#[test]
fn admission_stops_when_all_items_started() {
    let mut queue = AdmissionQueue::new(2, 4);
    assert_eq!(queue.try_admit(), Some(0));
    assert_eq!(queue.try_admit(), Some(1));
    assert_eq!(queue.try_admit(), None);
}

fn raw(
    regions: Vec<Region>,
    storage_base: &str,
    bucket: &str,
    user: &str,
    pass: &str,
    download_base: &str,
) -> RawConfig {
    RawConfig {
        regions,
        storage_base_url: storage_base.to_string(),
        storage_bucket_name: bucket.to_string(),
        storage_username: user.to_string(),
        storage_password: pass.to_string(),
        download_base_url: download_base.to_string(),
        stream_concurrent_requests: Some(2),
        stream_chunk_size: None,
    }
}

fn one_region() -> Vec<Region> {
    vec![Region::Leaf { name: "france".to_string(), file: "france.osm.pbf".to_string() }]
}

#[test]
fn valid_settings_pass_validation_unchanged() {
    let c = Config::try_from(raw(
        one_region(),
        "http://io:9000/",
        "geodata",
        "user",
        "password",
        "https://example.org/",
    ))
    .expect("valid settings must pass");
    assert_eq!(c.storage_bucket_name, "geodata");
    assert_eq!(c.stream_concurrent_requests, Some(2));
    assert_eq!(c.stream_chunk_size, None);
    assert_eq!(c.regions.len(), 1);
}

#[test]
fn each_validation_failure_names_its_field() {
    let e = Config::try_from(raw(Vec::new(), "http://io:9000/", "b", "u", "p", "https://x.org"))
        .unwrap_err();
    assert_eq!(e, "At least one region must be specified.");

    let e = Config::try_from(raw(one_region(), "notaurl", "b", "u", "p", "https://x.org"))
        .unwrap_err();
    assert_eq!(e, "Invalid storage_base_url.");

    let e = Config::try_from(raw(one_region(), "http://io:9000/", "b", "u", "p", "notaurl"))
        .unwrap_err();
    assert_eq!(e, "Invalid download_base_url.");

    let e = Config::try_from(raw(one_region(), "http://io:9000/", "", "u", "p", "https://x.org"))
        .unwrap_err();
    assert_eq!(e, "storage_bucket_name must not be empty.");

    let e = Config::try_from(raw(one_region(), "http://io:9000/", "b", "", "p", "https://x.org"))
        .unwrap_err();
    assert_eq!(e, "storage_username must not be empty.");

    let e = Config::try_from(raw(one_region(), "http://io:9000/", "b", "u", "", "https://x.org"))
        .unwrap_err();
    assert_eq!(e, "storage_password must not be empty.");
}

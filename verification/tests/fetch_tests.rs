use stream_portal::catalog::{
    check_catalog_status, fetch_olympic_streams, CatalogFetch, FetchStep, Lineup, LineupItem,
    PageBody, MAX_PAGES, PAGE_SIZE,
};
use stream_portal::clock::Instant;
use stream_portal::error::{Endpoint, PortalError, Upstream};

fn item(title: &str, id_media: i64) -> LineupItem {
    LineupItem {
        title: title.to_string(),
        key: format!("key-{}", id_media),
        description: String::new(),
        url: format!("https://gem.cbc.ca/media/x-{}", id_media),
        images: None,
        air_date: None,
        air_date_alt: None,
        item_type: "Live".to_string(),
        tier: "Free".to_string(),
        is_vod_enabled: false,
        id_media: Some(id_media),
    }
}

fn page(groupings: usize, first_id: i64) -> Vec<Lineup> {
    (0..groupings)
        .map(|g| Lineup {
            title: format!("Sport {}", g),
            items: vec![item(&format!("Event {}", first_id + g as i64), first_id + g as i64)],
        })
        .collect()
}

fn begin() -> CatalogFetch {
    CatalogFetch::begin(Instant { secs: 0, nanos: 0 })
}

#[test]
fn first_request_asks_for_page_one() {
    let fetch = begin();
    assert_eq!(fetch.page_number(), 1);
    let request = fetch.request();
    assert_eq!(
        request.url,
        "https://services.radio-canada.ca/ott/catalog/v2/gem/section/olympics?device=web&pageSize=6&pageNumber=1"
    );
    assert_eq!(request.headers, vec![("Accept".to_string(), "application/json".to_string())]);
    assert_eq!(fetch_olympic_streams().page_number(), 1);
    assert_eq!(PAGE_SIZE, 6);
    assert_eq!(MAX_PAGES, 10);
}

#[test]
fn short_page_ends_the_fetch() {
    match begin().absorb(PageBody::Parsed(page(5, 100))) {
        FetchStep::Done(Ok(streams)) => {
            assert_eq!(streams.len(), 5);
            assert_eq!(streams[0].id, "100");
            assert_eq!(streams[4].title, "Event 104");
        }
        _ => panic!("a short page must end the fetch"),
    }
    match begin().absorb(PageBody::Parsed(vec![])) {
        FetchStep::Done(Ok(streams)) => assert!(streams.is_empty()),
        _ => panic!("an empty page must end the fetch"),
    }
}

#[test]
fn full_page_asks_for_the_next_one() {
    match begin().absorb(PageBody::Parsed(page(6, 100))) {
        FetchStep::Next(next) => {
            assert_eq!(next.page_number(), 2);
            assert!(next.request().url.ends_with("pageSize=6&pageNumber=2"));
        }
        _ => panic!("a full page must go on"),
    }
}

#[test]
fn fetch_stops_after_the_page_ceiling() {
    let mut fetch = begin();
    let mut taken = 0;
    let streams = loop {
        let number = fetch.page_number() as i64;
        taken += 1;
        match fetch.absorb(PageBody::Parsed(page(6, number * 100))) {
            FetchStep::Next(next) => fetch = next,
            FetchStep::Done(result) => break result.unwrap(),
        }
    };
    assert_eq!(taken, 10);
    assert_eq!(streams.len(), 60);
    assert_eq!(streams[0].id, "100");
    assert_eq!(streams[59].id, "1005");
}

#[test]
fn duplicates_are_dropped_across_pages() {
    let first = begin().absorb(PageBody::Parsed(page(6, 100)));
    let FetchStep::Next(fetch) = first else { panic!("a full page must go on") };
    let mut second = page(3, 104);
    second[0].items[0].title = "Event 104 again".to_string();
    match fetch.absorb(PageBody::Parsed(second)) {
        FetchStep::Done(Ok(streams)) => {
            assert_eq!(streams.len(), 7);
            let ids: Vec<&str> = streams.iter().map(|s| s.id.as_str()).collect();
            assert_eq!(ids, vec!["100", "101", "102", "103", "104", "105", "106"]);
            assert_eq!(streams[4].title, "Event 104");
        }
        _ => panic!("a short page must end the fetch"),
    }
}

#[test]
fn malformed_page_aborts_without_a_partial_catalog() {
    let first = begin().absorb(PageBody::Parsed(page(6, 100)));
    let FetchStep::Next(fetch) = first else { panic!("a full page must go on") };
    match fetch.absorb(PageBody::Malformed("expected value".to_string())) {
        FetchStep::Done(Err(error)) => {
            assert_eq!(
                error,
                PortalError::UpstreamUnavailable {
                    endpoint: Endpoint::Catalog,
                    cause: Upstream::Malformed("expected value".to_string()),
                }
            );
            assert_eq!(error.message(), "Failed to parse catalog response: expected value");
        }
        _ => panic!("a malformed page must fail the fetch"),
    }
}

#[test]
fn catalog_status_outside_success_is_a_failure() {
    assert_eq!(check_catalog_status(200), Ok(()));
    assert_eq!(check_catalog_status(299), Ok(()));
    for status in [100, 199, 300, 401, 404, 500] {
        assert_eq!(
            check_catalog_status(status),
            Err(PortalError::UpstreamUnavailable {
                endpoint: Endpoint::Catalog,
                cause: Upstream::Status(status),
            })
        );
    }
    assert_eq!(check_catalog_status(404).unwrap_err().message(), "Catalog API returned status: 404");
}

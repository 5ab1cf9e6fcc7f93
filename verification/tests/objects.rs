use sulfite::listing::{page_to_object_and_prefix_lists, ListPage, ListedObject, Listing};
use sulfite::client::S3Client;
use sulfite::config::{RetryConfig, S3ClientConfig};
use sulfite::listing::ListObjectsV2PageIter;
use sulfite::object::{
    found_object_info, normalize_restore_status_from_header, normalize_restore_status_from_list,
    object_info,
    ObjectHead, RestoreStatus,
};
use sulfite::request::Request;
use sulfite::time::Timestamp;

fn head() -> ObjectHead {
    ObjectHead {
        content_length: Some(276480),
        last_modified: Some(Timestamp { secs: 1750000002, subsec_nanos: 0 }),
        storage_class: Some("DEEP_ARCHIVE".to_owned()),
        restore: None,
        e_tag: Some("\"tag\"".to_owned()),
        content_type: Some("text/plain".to_owned()),
    }
}

fn listed(key: &str) -> ListedObject {
    ListedObject {
        key: Some(key.to_owned()),
        size: Some(3),
        last_modified: Some(Timestamp { secs: 0, subsec_nanos: 0 }),
        storage_class: None,
        restore_status: None,
    }
}

fn page(keys: &[&str], is_truncated: Option<bool>, token: Option<&str>) -> ListPage {
    ListPage {
        contents: keys.iter().map(|key| listed(key)).collect(),
        common_prefixes: vec![],
        is_truncated,
        next_continuation_token: token.map(str::to_owned),
    }
}

#[test]
fn restore_status_is_normalized_from_both_sources() {
    let expiry = Timestamp { secs: 1781740800, subsec_nanos: 0 };
    let from_list = normalize_restore_status_from_list(Some(RestoreStatus {
        is_restore_in_progress: Some(false),
        restore_expiry_date: Some(expiry),
    }));
    let from_header = normalize_restore_status_from_header(Some(
        "ongoing-request=\"false\", expiry-date=\"Thu, 18 Jun 2026 00:00:00 GMT\"",
    ));
    assert_eq!(from_list, Some("EXPIRY:2026-06-18T00:00:00Z".to_owned()));
    assert_eq!(from_header, from_list);
}

#[test]
fn ongoing_restore_is_normalized_from_both_sources() {
    let from_list = normalize_restore_status_from_list(Some(RestoreStatus {
        is_restore_in_progress: Some(true),
        restore_expiry_date: None,
    }));
    let from_header = normalize_restore_status_from_header(Some("ongoing-request=\"true\""));
    assert_eq!(from_list, Some("ONGOING".to_owned()));
    assert_eq!(from_header, from_list);
}

#[test]
fn restore_status_is_absent_without_a_date() {
    assert_eq!(normalize_restore_status_from_header(None), None);
    assert_eq!(normalize_restore_status_from_header(Some("ongoing-request=\"false\"")), None);
    assert_eq!(normalize_restore_status_from_header(Some("expiry-date=\"Thu, 18")), None);
    assert_eq!(normalize_restore_status_from_header(Some("expiry-date=\"soon\"")), None);
    assert_eq!(normalize_restore_status_from_list(None), None);
    let neither = RestoreStatus { is_restore_in_progress: None, restore_expiry_date: None };
    assert_eq!(normalize_restore_status_from_list(Some(neither)), None);
}

#[test]
fn times_are_written_as_dates_where_they_can() {
    let fraction = Timestamp { secs: 1750000002, subsec_nanos: 500_000_000 };
    assert_eq!(fraction.to_text(), "2025-06-15T15:06:42.5Z");
    let far = Timestamp { secs: i64::MAX, subsec_nanos: 250_000_000 };
    assert_eq!(far.to_rfc3339(), None);
    assert_eq!(far.to_text(), "9223372036854775807.25");
    let listed_far = normalize_restore_status_from_list(Some(RestoreStatus {
        is_restore_in_progress: None,
        restore_expiry_date: Some(far),
    }));
    assert_eq!(listed_far, Some("EXPIRY:9223372036854775807.25".to_owned()));
}

#[test]
fn times_are_compared_by_nanoseconds() {
    let earlier = Timestamp { secs: -1, subsec_nanos: 999_999_999 };
    assert!(earlier.is_at_most(&Timestamp::epoch()));
    assert!(!Timestamp::epoch().is_at_most(&earlier));
    assert!(earlier.is_at_most(&earlier));
}

#[test]
fn object_metadata_comes_from_the_head() {
    let info = object_info("k", &head()).unwrap();
    assert_eq!(info.key, "k");
    assert_eq!(info.size, 276480);
    assert_eq!(info.timestamp, Timestamp { secs: 1750000002, subsec_nanos: 0 });
    assert_eq!(info.storage_class, Some("DEEP_ARCHIVE".to_owned()));
    assert_eq!(info.restore_status, None);

    let undated = ObjectHead { last_modified: None, ..head() };
    assert_eq!(object_info("k", &undated).unwrap_err().message(), "timestamp [FieldNotExist]");
    let unsized_head = ObjectHead { content_length: None, last_modified: None, ..head() };
    assert_eq!(
        object_info("k", &unsized_head).unwrap_err().message(),
        "content_length [FieldNotExist]"
    );
}

#[test]
fn logged_objects_need_a_content_type() {
    assert_eq!(found_object_info("k", &head(), true).unwrap().size, 276480);
    let untyped = ObjectHead { content_type: None, ..head() };
    assert_eq!(found_object_info("k", &untyped, false).unwrap().size, 276480);
    assert_eq!(
        found_object_info("k", &untyped, true).unwrap_err().message(),
        "content_type [FieldNotExist]"
    );
    assert_eq!(object_info("k", &untyped).unwrap().size, 276480);
    let undated = ObjectHead { last_modified: None, ..untyped };
    assert_eq!(
        found_object_info("k", &undated, true).unwrap_err().message(),
        "timestamp [FieldNotExist]"
    );
}

#[test]
fn pages_list_objects_and_prefixes() {
    let mut first = page(&["a", "b"], None, None);
    first.common_prefixes = vec![Some("dir/".to_owned())];
    let (objects, prefixes) = page_to_object_and_prefix_lists(&first).unwrap();
    assert_eq!(objects.len(), 2);
    assert_eq!(objects[1].key, "b");
    assert_eq!(prefixes.len(), 1);
    assert_eq!(prefixes[0].prefix, "dir/");
}

#[test]
fn invalid_pages_are_refused() {
    let mut keyless = page(&["a", "b"], None, None);
    keyless.contents[1].key = None;
    keyless.common_prefixes = vec![None];
    assert_eq!(
        page_to_object_and_prefix_lists(&keyless).unwrap_err().message(),
        "key [FieldNotExist]"
    );
    let mut negative = page(&["a"], None, None);
    negative.contents[0].size = Some(-1);
    assert_eq!(
        page_to_object_and_prefix_lists(&negative).unwrap_err().message(),
        "content length must not be negative: -1 [ValidationError]"
    );
    let mut undated = page(&["a"], None, None);
    undated.contents[0].last_modified = None;
    assert_eq!(
        page_to_object_and_prefix_lists(&undated).unwrap_err().message(),
        "timestamp [FieldNotExist]"
    );
    let mut nameless = page(&["a"], None, None);
    nameless.common_prefixes = vec![Some("x/".to_owned()), None];
    assert_eq!(
        page_to_object_and_prefix_lists(&nameless).unwrap_err().message(),
        "prefix [FieldNotExist]"
    );
}

fn token_asked_for(iter: &ListObjectsV2PageIter) -> Option<Option<String>> {
    match iter.next_page() {
        Some(call) => {
            assert!(call.retried);
            assert_eq!(call.context, "<list_objects_v2_paginate_pages> bucket=b prefix=p/");
            match call.request {
                Request::ListObjectsV2 { bucket, prefix, delimiter, continuation_token } => {
                    assert_eq!(bucket, "b");
                    assert_eq!(prefix, "p/");
                    assert_eq!(delimiter, Some("/".to_owned()));
                    Some(continuation_token)
                }
                _ => panic!("another request"),
            }
        }
        None => None,
    }
}

#[test]
fn iteration_follows_the_tokens_of_its_pages() {
    let client = S3Client::new(&S3ClientConfig::default(), RetryConfig::default());
    let mut iter = client.list_objects_v2_page_iter("b", "p/", Some("/"));
    assert_eq!(token_asked_for(&iter), Some(None));
    assert_eq!(token_asked_for(&iter), Some(None));
    iter.receive(&page(&["a"], Some(true), Some("t1"))).unwrap();
    assert_eq!(token_asked_for(&iter), Some(Some("t1".to_owned())));
    let mut invalid = page(&["x"], Some(true), Some("t2"));
    invalid.contents[0].key = None;
    assert!(iter.receive(&invalid).is_err());
    assert_eq!(token_asked_for(&iter), Some(Some("t2".to_owned())));
    let (objects, _) = iter.receive(&page(&["c", "d"], Some(false), Some("t3"))).unwrap();
    assert_eq!(objects.len(), 2);
    assert_eq!(token_asked_for(&iter), None);
}

#[test]
fn iteration_ends_without_a_usable_token() {
    for last in [
        page(&[], None, Some("t")),
        page(&[], Some(true), None),
        page(&[], Some(true), Some("")),
    ] {
        let mut iter = ListObjectsV2PageIter::new("b", "p/", Some("/"));
        iter.receive(&last).unwrap();
        assert_eq!(token_asked_for(&iter), None);
    }
}

#[test]
fn listings_join_their_pages() {
    let client = S3Client::new(&S3ClientConfig::default(), RetryConfig::default());
    let call = client.list_objects_v2_paginated("b", "p", None);
    assert!(call.retried);
    assert_eq!(call.context, "<list_objects_v2_paginated> bucket=b prefix=p");

    let mut listing = Listing::new();
    listing.add_page(&page(&["a", "b"], Some(true), Some("t"))).unwrap();
    let mut invalid = page(&["x"], None, None);
    invalid.contents[0].size = None;
    assert!(listing.add_page(&invalid).is_err());
    listing.add_page(&page(&["c"], None, None)).unwrap();
    let keys: Vec<&str> = listing.objects.iter().map(|object| object.key.as_str()).collect();
    assert_eq!(keys, ["a", "b", "c"]);
}

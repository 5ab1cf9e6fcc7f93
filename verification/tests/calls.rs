use sulfite::client::{bucket_info, S3Client};
use sulfite::config::{NoopProgressBar, ProgressBar, RetryConfig, S3ClientConfig};
use sulfite::object::ObjectHead;
use sulfite::request::{Body, Request};
use sulfite::time::Timestamp;

fn client() -> S3Client {
    S3Client::new(&S3ClientConfig::default(), RetryConfig::default())
}

#[test]
fn bucket_calls_are_not_retried() {
    let head = client().head_bucket("b");
    assert!(matches!(&head.request, Request::HeadBucket { bucket } if bucket == "b"));
    assert_eq!(head.context, "<head_bucket> bucket=b");
    let create = client().create_bucket("b");
    assert!(matches!(&create.request, Request::CreateBucket { bucket } if bucket == "b"));
    assert_eq!(create.context, "<create_bucket> bucket=b");
    let delete = client().delete_bucket("b");
    assert!(matches!(&delete.request, Request::DeleteBucket { bucket } if bucket == "b"));
    assert_eq!(delete.context, "<delete_bucket> bucket=b");
    assert!(!head.retried && !create.retried && !delete.retried);

    let info = bucket_info("b", Some("eu-west-1"));
    assert_eq!(info.name, "b");
    assert_eq!(info.region, Some("eu-west-1".to_owned()));
}

#[test]
fn object_calls_name_their_object() {
    let head = client().head_object("b", "k");
    assert!(matches!(
        &head.request,
        Request::HeadObject { bucket, key } if bucket == "b" && key == "k"
    ));
    assert_eq!(head.context, "<head_object> bucket=b key=k");
    assert!(head.retried);

    let delete = client().delete_object("b", "k");
    assert!(matches!(
        &delete.request,
        Request::DeleteObject { bucket, key } if bucket == "b" && key == "k"
    ));
    assert_eq!(delete.context, "<delete_object> bucket=b key=k");

    let restore = client().restore_object("b", "k", 7, "Bulk");
    assert_eq!(restore.context, "<restore_object> bucket=b key=k days=7 tier=Bulk");
    assert!(matches!(
        &restore.request,
        Request::RestoreObject { days: 7, tier, .. } if tier == "Bulk"
    ));

    let abort = client().abort_multipart_upload("b", "k", "id");
    assert_eq!(abort.context, "<abort_multipart_upload> bucket=b key=k upload_id=id");
    assert!(abort.retried);
}

#[test]
fn get_object_asks_for_a_slice() {
    let whole = client().get_object("b", "k", None).unwrap();
    assert!(matches!(&whole.request, Request::GetObject { range: None, if_match: None, .. }));
    assert_eq!(whole.context, "<get_object> bucket=b key=k");
    let slice = client().get_object("b", "k", Some((2, 5))).unwrap();
    assert!(matches!(
        &slice.request,
        Request::GetObject { range: Some(range), .. } if range == "bytes=2-4"
    ));
    assert!(client().get_object("b", "k", Some((5, 5))).is_err());
}

#[test]
fn put_and_upload_carry_their_bodies() {
    let put = client().put_object("b", "k", vec![1, 2], Some("GLACIER"));
    assert_eq!(put.context, "<put_object> bucket=b key=k");
    assert!(matches!(
        &put.request,
        Request::PutObject { body: Body::Bytes(bytes), storage_class: Some(class), .. }
            if bytes == &[1, 2] && class == "GLACIER"
    ));
    let upload = client().upload_object("b", "k", "/tmp/f", None);
    assert_eq!(upload.context, "<upload_object> bucket=b key=k");
    assert!(matches!(
        &upload.request,
        Request::PutObject { body: Body::File { path }, storage_class: None, .. }
            if path == "/tmp/f"
    ));
}

#[test]
fn copies_encode_their_source() {
    let copy = client().copy_object("src", "a b/ü~1", "dst", "k", Some("GLACIER"));
    assert!(copy.retried);
    match &copy.request {
        Request::CopyObject { bucket, key, copy_source, storage_class } => {
            assert_eq!(bucket, "dst");
            assert_eq!(key, "k");
            assert_eq!(copy_source, "src%2Fa%20b%2F%C3%BC~1");
            assert_eq!(storage_class, &Some("GLACIER".to_owned()));
        }
        _ => panic!("another request"),
    }
    assert_eq!(
        copy.context,
        "<copy_object> src_bucket=src src_key=a b/ü~1 dst_bucket=dst dst_key=k \
         dst_storage_class=Some(\"GLACIER\")"
    );
    let plain = client().copy_object("src", "a", "dst", "k", None);
    assert!(plain.context.ends_with(" dst_storage_class=None"));
}

#[test]
fn copies_between_clients_go_through_memory() {
    let copy = client().copy_object_cross_clients("src", "a", "dst", "k", Some("GLACIER"));
    let get = copy.source_call();
    assert!(get.retried);
    assert_eq!(get.context, "<get_object> bucket=src key=a");
    assert!(matches!(&get.request, Request::GetObject { range: None, if_match: None, .. }));
    let head = ObjectHead {
        content_length: Some(3),
        last_modified: Some(Timestamp { secs: 1, subsec_nanos: 0 }),
        storage_class: None,
        restore: None,
        e_tag: None,
        content_type: None,
    };
    assert_eq!(copy.check_source(&head, false).unwrap().key, "a");
    let put = copy.destination_call(&head, false, vec![7, 8, 9]).unwrap();
    assert_eq!(put.context, "<put_object> bucket=dst key=k");
    assert!(matches!(
        &put.request,
        Request::PutObject { body: Body::Bytes(bytes), storage_class: Some(class), .. }
            if bytes == &[7, 8, 9] && class == "GLACIER"
    ));
    assert_eq!(
        copy.destination_call(&head, true, vec![7, 8, 9]).unwrap_err().message(),
        "content_type [FieldNotExist]"
    );
    let undated = ObjectHead { last_modified: None, ..head };
    assert_eq!(
        copy.destination_call(&undated, false, vec![]).unwrap_err().message(),
        "timestamp [FieldNotExist]"
    );
}

#[test]
fn silent_progress_bar_can_be_driven() {
    let bar = NoopProgressBar;
    bar.set_length(3);
    bar.inc(1);
    bar.finish();
}

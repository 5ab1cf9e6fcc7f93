use sulfite::client::S3Client;
use sulfite::config::{RetryConfig, S3ClientConfig};
use sulfite::download::{Download, DownloadAction, DownloadEvent, PartDownload};
use sulfite::error::S3Error;
use sulfite::object::ObjectHead;
use sulfite::part::{completed_part, sort_parts, PartCall};
use sulfite::request::{Body, Call, CompletedPart, Request};
use sulfite::time::Timestamp;
use sulfite::upload::{
    copy_object_multipart_cross_clients, warn_differing_settings, MultipartUpload, UploadAction,
    UploadEvent,
};

const MIB: u64 = 1024 * 1024;

fn client(part_size: u64, workers: usize) -> S3Client {
    let config = S3ClientConfig {
        multipart_part_size: part_size,
        multipart_workers: workers,
        ..S3ClientConfig::default()
    };
    S3Client::new(&config, RetryConfig::default())
}

fn head(size: i64, e_tag: Option<&str>) -> ObjectHead {
    ObjectHead {
        content_length: Some(size),
        last_modified: Some(Timestamp { secs: 99, subsec_nanos: 5 }),
        storage_class: None,
        restore: None,
        e_tag: e_tag.map(str::to_owned),
        content_type: None,
    }
}

fn failure(text: &str) -> S3Error {
    S3Error::IOError(text.to_owned())
}

fn destination_call(action: Option<UploadAction>) -> Call {
    match action {
        Some(UploadAction::CallDestination(call)) => call,
        other => panic!("{:?}", other),
    }
}

fn upload_result(action: Option<UploadAction>) -> Result<(), S3Error> {
    match action {
        Some(UploadAction::Finish(result)) => result,
        other => panic!("{:?}", other),
    }
}

fn part(number: i32, e_tag: &str) -> CompletedPart {
    CompletedPart { e_tag: e_tag.to_owned(), part_number: number }
}

fn transferring(upload: &mut MultipartUpload) -> sulfite::part::PartTransfer {
    match upload.next(UploadEvent::Created(Ok(Some("id".to_owned())))) {
        Some(UploadAction::TransferParts(transfer)) => transfer,
        other => panic!("{:?}", other),
    }
}

#[test]
fn file_is_uploaded_in_parts_and_completed_in_order() {
    let (mut upload, first) = client(5 * MIB, 2).upload_object_multipart("b", "k", "/f", None);
    assert!(matches!(&first, UploadAction::MeasureFile { path } if path == "/f"));

    let create = destination_call(upload.next(UploadEvent::FileMeasured(Ok(11 * MIB))));
    assert!(matches!(&create.request, Request::CreateMultipartUpload { storage_class: None, .. }));
    assert_eq!(create.context, "<upload_object_multipart> bucket=b key=k");
    assert!(!create.retried);

    let transfer = transferring(&mut upload);
    assert_eq!(transfer.workers, 2);
    let parts = transfer.plan.parts();
    assert_eq!(parts.len(), 3);
    match transfer.first_call(parts[2]) {
        PartCall::Move(call) => {
            assert_eq!(
                call.context,
                "<upload_object_multipart> bucket=b key=k upload_part_index=2"
            );
            assert!(call.retried);
            match call.request {
                Request::UploadPart { upload_id, part_number, body, .. } => {
                    assert_eq!(upload_id, "id");
                    assert_eq!(part_number, 3);
                    assert!(matches!(
                        body,
                        Body::FileRange { path, offset, length }
                            if path == "/f" && offset == 10 * MIB && length == MIB
                    ));
                }
                _ => panic!("another request"),
            }
        }
        other => panic!("{:?}", other),
    }

    let moved = vec![part(3, "c"), part(1, "a"), part(2, "b")];
    let complete = destination_call(upload.next(UploadEvent::PartsTransferred(Ok(moved))));
    assert!(complete.retried);
    match &complete.request {
        Request::CompleteMultipartUpload { upload_id, parts, .. } => {
            assert_eq!(upload_id, "id");
            let tags: Vec<&str> = parts.iter().map(|part| part.e_tag.as_str()).collect();
            assert_eq!(tags, ["a", "b", "c"]);
        }
        _ => panic!("another request"),
    }
    assert!(upload_result(upload.next(UploadEvent::Completed(Ok(())))).is_ok());
    assert!(upload.next(UploadEvent::Completed(Ok(()))).is_none());
}

#[test]
fn empty_file_is_put_at_once() {
    let (mut upload, _) = client(MIB, 1).upload_object_multipart("b", "k", "/f", Some("GLACIER"));
    let put = destination_call(upload.next(UploadEvent::FileMeasured(Ok(0))));
    assert_eq!(put.context, "<put_object> bucket=b key=k");
    assert!(matches!(
        &put.request,
        Request::PutObject { body: Body::Bytes(bytes), storage_class: Some(class), .. }
            if bytes.is_empty() && class == "GLACIER"
    ));
    assert!(upload_result(upload.next(UploadEvent::EmptyPut(Ok(())))).is_ok());
}

#[test]
fn uploads_need_workers() {
    let message = "multipart workers must be greater than zero [ValidationError]";
    let (_, upload) = client(MIB, 0).upload_object_multipart("b", "k", "/f", None);
    assert_eq!(upload_result(Some(upload)).unwrap_err().message(), message);
    let (_, download) = client(MIB, 0).download_object_multipart("b", "k", "/f", "x");
    assert_eq!(download_result(Some(download)).unwrap_err().message(), message);
}

#[test]
fn failed_parts_abort_the_upload() {
    let (mut upload, _) = client(MIB, 1).upload_object_multipart("b", "k", "/f", None);
    destination_call(upload.next(UploadEvent::FileMeasured(Ok(1))));
    transferring(&mut upload);
    let abort =
        destination_call(upload.next(UploadEvent::PartsTransferred(Err(failure("first")))));
    assert!(matches!(
        &abort.request,
        Request::AbortMultipartUpload { upload_id, .. } if upload_id == "id"
    ));
    let result = upload_result(upload.next(UploadEvent::Aborted(Err(failure("second")))));
    assert_eq!(result.unwrap_err().message(), "first [IOError]");
}

#[test]
fn failed_completion_aborts_the_upload() {
    let (mut upload, _) = client(MIB, 1).upload_object_multipart("b", "k", "/f", None);
    destination_call(upload.next(UploadEvent::FileMeasured(Ok(1))));
    transferring(&mut upload);
    destination_call(upload.next(UploadEvent::PartsTransferred(Ok(vec![part(1, "a")]))));
    let abort = destination_call(upload.next(UploadEvent::Completed(Err(failure("first")))));
    assert!(matches!(&abort.request, Request::AbortMultipartUpload { .. }));
    let result = upload_result(upload.next(UploadEvent::Aborted(Ok(()))));
    assert_eq!(result.unwrap_err().message(), "first [IOError]");
}

#[test]
fn uploads_that_are_not_created_end_at_once() {
    let (mut upload, _) = client(MIB, 1).upload_object_multipart("b", "k", "/f", None);
    let unknown = upload_result(upload.next(UploadEvent::FileMeasured(Err(failure("gone")))));
    assert_eq!(unknown.unwrap_err().message(), "gone [IOError]");

    let (mut upload, _) = client(MIB, 1).upload_object_multipart("b", "k", "/f", None);
    let too_large = upload_result(upload.next(UploadEvent::FileMeasured(Ok(u64::MAX))));
    assert!(matches!(too_large, Err(S3Error::ValidationError(_))));

    let (mut upload, _) = client(MIB, 1).upload_object_multipart("b", "k", "/f", None);
    destination_call(upload.next(UploadEvent::FileMeasured(Ok(1))));
    assert!(upload.next(UploadEvent::Completed(Ok(()))).is_none());
    let nameless = upload_result(upload.next(UploadEvent::Created(Ok(None))));
    assert_eq!(nameless.unwrap_err().message(), "upload_id [FieldNotExist]");
}

#[test]
fn server_side_copy_names_the_source_it_found() {
    let (mut copy, first) =
        client(5 * MIB, 3).copy_object_multipart("src", "a", "dst", "k", Some("GLACIER"));
    let context = "<copy_object_multipart> src_bucket=src src_key=a dst_bucket=dst dst_key=k";
    match first {
        UploadAction::CallSource(call) => {
            assert_eq!(call.context, context);
            assert!(matches!(
                &call.request,
                Request::HeadObject { bucket, key } if bucket == "src" && key == "a"
            ));
        }
        other => panic!("{:?}", other),
    }
    assert!(copy.next(UploadEvent::FileMeasured(Ok(1))).is_none());
    let size = (6 * MIB) as i64;
    let create = destination_call(copy.next(UploadEvent::SourceFound(Ok(head(size, Some("t"))))));
    assert_eq!(create.context, context);
    let transfer = transferring(&mut copy);
    match transfer.first_call(transfer.plan.part(1)) {
        PartCall::Move(call) => {
            assert_eq!(call.context, format!("{context} copy_part_index=1"));
            match call.request {
                Request::UploadPartCopy {
                    copy_source,
                    copy_source_if_match,
                    copy_source_range,
                    part_number,
                    ..
                } => {
                    assert_eq!(copy_source, "src%2Fa");
                    assert_eq!(copy_source_if_match, "t");
                    assert_eq!(copy_source_range, "bytes=5242880-6291455");
                    assert_eq!(part_number, 2);
                }
                _ => panic!("another request"),
            }
        }
        other => panic!("{:?}", other),
    }
    let complete = destination_call(copy.next(UploadEvent::PartsTransferred(Ok(vec![]))));
    assert_eq!(complete.context, context);
}

#[test]
fn copies_need_a_valid_source() {
    let (mut copy, _) = client(MIB, 1).copy_object_multipart("src", "a", "dst", "k", None);
    let untagged = upload_result(copy.next(UploadEvent::SourceFound(Ok(head(1, None)))));
    assert_eq!(untagged.unwrap_err().message(), "etag [FieldNotExist]");
    let (mut copy, _) = client(MIB, 1).copy_object_multipart("src", "a", "dst", "k", None);
    let negative = upload_result(copy.next(UploadEvent::SourceFound(Ok(head(-1, Some("t"))))));
    assert!(matches!(negative, Err(S3Error::ValidationError(_))));
    let (mut copy, _) = client(MIB, 1).copy_object_multipart("src", "a", "dst", "k", None);
    let empty = destination_call(copy.next(UploadEvent::SourceFound(Ok(head(0, None)))));
    assert!(matches!(&empty.request, Request::PutObject { .. }));
}

#[test]
fn copy_between_clients_fetches_and_sends_parts() {
    let (mut copy, first) =
        copy_object_multipart_cross_clients(&client(5 * MIB, 4), "src", "a", "dst", "k", None);
    match first {
        UploadAction::CallSource(call) => assert_eq!(
            call.context,
            "<copy_object_multipart_cross_clients> source HEAD bucket=src key=a"
        ),
        other => panic!("{:?}", other),
    }
    let create =
        destination_call(copy.next(UploadEvent::SourceFound(Ok(head(7, Some("t"))))));
    assert_eq!(
        create.context,
        "<copy_object_multipart_cross_clients> create upload bucket=dst key=k"
    );
    let transfer = transferring(&mut copy);
    assert_eq!(transfer.workers, 4);
    let only = transfer.plan.part(0);
    match transfer.first_call(only) {
        PartCall::Fetch(call) => {
            assert_eq!(
                call.context,
                "<copy_object_multipart_cross_clients> download part src_bucket=src src_key=a \
                 part_number=1"
            );
            assert!(matches!(
                &call.request,
                Request::GetObject { range: Some(range), if_match: Some(tag), .. }
                    if range == "bytes=0-6" && tag == "t"
            ));
        }
        other => panic!("{:?}", other),
    }
    assert!(transfer.check_fetched_range(only, Some("bytes 0-6/7")).is_ok());
    assert_eq!(
        transfer.check_fetched_range(only, Some("bytes 0-5/7")).unwrap_err().message(),
        "<copy_object_multipart_cross_clients> validate part range src_bucket=src src_key=a \
         part_number=1 [UnexpectedContentRange - expected <bytes 0-6/7>, received <bytes 0-5/7>]"
    );
    assert_eq!(
        transfer.move_fetched(only, Some("bytes 0-6/7"), vec![0; 6]).unwrap_err().message(),
        "<copy_object_multipart_cross_clients> read part src_bucket=src src_key=a part_number=1 \
         [UnexpectedContentLength - expected <7>, received <6>]"
    );
    assert!(transfer.read_context(only).contains("> read part src_bucket=src"));
    let bytes = vec![1, 2, 3, 4, 5, 6, 7];
    let send = transfer.move_fetched(only, Some("bytes 0-6/7"), bytes).unwrap();
    assert_eq!(
        send.context,
        "<copy_object_multipart_cross_clients> upload part dst_bucket=dst dst_key=k part_number=1"
    );
    assert!(matches!(
        &send.request,
        Request::UploadPart { part_number: 1, body: Body::Bytes(bytes), .. } if bytes.len() == 7
    ));
    let complete = destination_call(copy.next(UploadEvent::PartsTransferred(Ok(vec![]))));
    assert_eq!(
        complete.context,
        "<copy_object_multipart_cross_clients> complete upload dst_bucket=dst dst_key=k"
    );
}

#[test]
fn differing_settings_are_warned_of() {
    assert_eq!(warn_differing_settings(&client(1, 2), &client(1, 2)), None);
    assert_eq!(
        warn_differing_settings(&client(1, 2), &client(3, 4)),
        Some(
            "Source and destination multipart settings differ: source part_size=1 workers=2, \
             destination part_size=3 workers=4. Using destination settings."
                .to_owned()
        )
    );
}

#[test]
fn moved_parts_need_a_tag() {
    let part_one = sulfite::multipart::MultipartPlan::for_download(5, 5).unwrap().part(0);
    let done = completed_part(part_one, Some("t".to_owned())).unwrap();
    assert_eq!(done.e_tag, "t");
    assert_eq!(done.part_number, 1);
    assert_eq!(completed_part(part_one, None).unwrap_err().message(), "etag [FieldNotExist]");
}

#[test]
fn sorting_parts_keeps_equal_numbers_in_order() {
    let sorted = sort_parts(vec![part(2, "x"), part(1, "a"), part(2, "y"), part(1, "b")]);
    let tags: Vec<&str> = sorted.iter().map(|part| part.e_tag.as_str()).collect();
    assert_eq!(tags, ["a", "b", "x", "y"]);
}

fn download_result(action: Option<DownloadAction>) -> Result<u64, S3Error> {
    match action {
        Some(DownloadAction::Finish(Ok(info))) => Ok(info.size),
        Some(DownloadAction::Finish(Err(error))) => Err(error),
        other => panic!("{:?}", other),
    }
}

fn assert_finalizes(action: Option<DownloadAction>) {
    match action {
        Some(DownloadAction::Finalize { path, final_path, timestamp }) => {
            assert_eq!(path, "/f.x");
            assert_eq!(final_path, "/f");
            assert_eq!(timestamp, Timestamp { secs: 99, subsec_nanos: 5 });
        }
        other => panic!("{:?}", other),
    }
}

fn assert_removes(action: Option<DownloadAction>) {
    assert!(matches!(action, Some(DownloadAction::Remove { path }) if path == "/f.x"));
}

fn receiving() -> Download {
    let (mut download, first) = client(MIB, 1).download_object("b", "k", "/f", None, "x");
    match first {
        DownloadAction::Make(call) => {
            assert_eq!(call.context, "<download_object> bucket=b key=k");
            assert!(!call.retried);
        }
        other => panic!("{:?}", other),
    }
    let action = download.next(DownloadEvent::Answered(Ok(head(10, None))));
    assert!(matches!(action, Some(DownloadAction::Receive { path }) if path == "/f.x"));
    download
}

#[test]
fn download_goes_through_a_temporary_file() {
    let mut download = receiving();
    assert_finalizes(download.next(DownloadEvent::Received(Ok(()))));
    assert_eq!(download_result(download.next(DownloadEvent::Finalized(Ok(())))).unwrap(), 10);
}

#[test]
fn failed_download_removes_the_temporary_file() {
    let mut download = receiving();
    assert_removes(download.next(DownloadEvent::Received(Err(failure("cut")))));
    let result = download_result(download.next(DownloadEvent::Removed(Err(failure("busy")))));
    assert_eq!(result.unwrap_err().message(), "cut [IOError]");

    let mut download = receiving();
    assert_finalizes(download.next(DownloadEvent::Received(Ok(()))));
    assert_removes(download.next(DownloadEvent::Finalized(Err(failure("full")))));
    let result = download_result(download.next(DownloadEvent::Removed(Ok(()))));
    assert_eq!(result.unwrap_err().message(), "full [IOError]");
}

#[test]
fn download_of_nothing_is_refused() {
    let (_, action) = client(MIB, 1).download_object("b", "k", "/f", Some((3, 3)), "x");
    assert!(matches!(download_result(Some(action)), Err(S3Error::ValidationError(_))));
    let (mut download, _) = client(MIB, 1).download_object("b", "k", "/f", Some((3, 4)), "x");
    let undated = ObjectHead { last_modified: None, ..head(1, None) };
    let result = download_result(download.next(DownloadEvent::Answered(Ok(undated))));
    assert_eq!(result.unwrap_err().message(), "timestamp [FieldNotExist]");
}

#[test]
fn multipart_download_checks_its_parts() {
    let (mut download, first) = client(20, 3).download_object_multipart("b", "k", "/f", "x");
    assert!(matches!(&first, DownloadAction::Make(call) if call.retried));
    let create = download.next(DownloadEvent::Answered(Ok(head(42, Some("t")))));
    assert!(matches!(create, Some(DownloadAction::Create { path }) if path == "/f.x"));
    let parts = match download.next(DownloadEvent::Created(Ok(()))) {
        Some(DownloadAction::ReceiveParts(parts)) => parts,
        other => panic!("{:?}", other),
    };
    assert_eq!(parts.path, "/f.x");
    assert_eq!(parts.workers, 3);
    let last = parts.plan.part(2);
    let call = parts.part_call(last);
    assert_eq!(call.context, "<download_object_multipart> bucket=b key=k download_part_index=2");
    assert!(matches!(
        &call.request,
        Request::GetObject { range: Some(range), if_match: Some(tag), .. }
            if range == "bytes=40-41" && tag == "t"
    ));
    let mut receipt = parts.receive_part(last, Some("bytes 40-41/42")).unwrap();
    assert!(parts.receive_part(last, None).is_err());
    assert_eq!(receipt.take_piece(1).unwrap(), 40);
    assert!(receipt.finish().is_err());
    assert_eq!(receipt.take_piece(1).unwrap(), 41);
    assert!(receipt.finish().is_ok());
    assert_finalizes(download.next(DownloadEvent::PartsReceived(Ok(()))));
    assert_eq!(download_result(download.next(DownloadEvent::Finalized(Ok(())))).unwrap(), 42);
}

#[test]
fn multipart_download_of_an_empty_object_makes_an_empty_file() {
    let (mut download, _) = client(20, 3).download_object_multipart("b", "k", "/f", "x");
    let create = download.next(DownloadEvent::Answered(Ok(head(0, None))));
    assert!(matches!(create, Some(DownloadAction::Create { .. })));
    assert_finalizes(download.next(DownloadEvent::Created(Ok(()))));
}

#[test]
fn multipart_download_cleans_up_what_it_made() {
    let (mut download, _) = client(20, 3).download_object_multipart("b", "k", "/f", "x");
    download.next(DownloadEvent::Answered(Ok(head(42, Some("t")))));
    let unmade = download_result(download.next(DownloadEvent::Created(Err(failure("full")))));
    assert_eq!(unmade.unwrap_err().message(), "full [IOError]");

    let (mut download, _) = client(20, 3).download_object_multipart("b", "k", "/f", "x");
    download.next(DownloadEvent::Answered(Ok(head(42, Some("t")))));
    download.next(DownloadEvent::Created(Ok(())));
    assert_removes(download.next(DownloadEvent::PartsReceived(Err(failure("cut")))));
    assert!(download.next(DownloadEvent::Created(Ok(()))).is_none());
    let cut = download_result(download.next(DownloadEvent::Removed(Ok(()))));
    assert_eq!(cut.unwrap_err().message(), "cut [IOError]");
}

#[test]
fn multipart_download_needs_a_tag_and_a_plan() {
    let (mut download, _) = client(20, 3).download_object_multipart("b", "k", "/f", "x");
    let untagged = download_result(download.next(DownloadEvent::Answered(Ok(head(42, None)))));
    assert_eq!(untagged.unwrap_err().message(), "etag [FieldNotExist]");
    let (mut download, _) = client(0, 3).download_object_multipart("b", "k", "/f", "x");
    let unplanned =
        download_result(download.next(DownloadEvent::Answered(Ok(head(42, Some("t"))))));
    assert_eq!(
        unplanned.unwrap_err().message(),
        "multipart part size must be greater than zero [ValidationError]"
    );
}

#[test]
fn upload_calls_send_the_whole_file() {
    let (mut upload, _) = client(5 * MIB, 1).upload_object_multipart("b", "k", "/f", None);
    destination_call(upload.next(UploadEvent::FileMeasured(Ok(23 * MIB + 1))));
    let transfer = transferring(&mut upload);
    let mut sent = 0;
    for part in transfer.plan.parts() {
        match transfer.first_call(part) {
            PartCall::Move(Call {
                request: Request::UploadPart { body: Body::FileRange { offset, length, .. }, .. },
                ..
            }) => {
                assert_eq!(offset, sent);
                sent += length;
            }
            other => panic!("{:?}", other),
        }
    }
    assert_eq!(sent, 23 * MIB + 1);
}

#[test]
fn copy_between_clients_moves_the_whole_object() {
    let object: Vec<u8> = (0..251u8).cycle().take(11 * MIB as usize + 3).collect();
    let size = object.len() as i64;
    let (mut copy, _) =
        copy_object_multipart_cross_clients(&client(5 * MIB, 1), "src", "a", "dst", "k", None);
    destination_call(copy.next(UploadEvent::SourceFound(Ok(head(size, Some("t"))))));
    let transfer = transferring(&mut copy);
    let mut stored: Vec<u8> = Vec::new();
    for part in transfer.plan.parts() {
        let range = match transfer.first_call(part) {
            PartCall::Fetch(Call { request: Request::GetObject { range, .. }, .. }) => {
                range.unwrap()
            }
            other => panic!("{:?}", other),
        };
        let (first, last) = range.strip_prefix("bytes=").unwrap().split_once('-').unwrap();
        let (first, last): (usize, usize) = (first.parse().unwrap(), last.parse().unwrap());
        let fetched = object[first..=last].to_vec();
        let answered = format!("bytes {first}-{last}/{size}");
        match transfer.move_fetched(part, Some(&answered), fetched).unwrap().request {
            Request::UploadPart { body: Body::Bytes(bytes), .. } => stored.extend(bytes),
            _ => panic!("another request"),
        }
    }
    assert!(stored == object);
}

fn receiving_parts(size: i64, part_size: u64) -> PartDownload {
    let (mut download, _) =
        client(part_size, 1).download_object_multipart("b", "k", "dir/file", "0a");
    download.next(DownloadEvent::Answered(Ok(head(size, Some("t")))));
    match download.next(DownloadEvent::Created(Ok(()))) {
        Some(DownloadAction::ReceiveParts(parts)) => parts,
        other => panic!("{:?}", other),
    }
}

#[test]
fn fetched_parts_with_another_range_or_length_are_not_sent() {
    let (mut copy, _) =
        copy_object_multipart_cross_clients(&client(5 * MIB, 1), "src", "a", "dst", "k", None);
    destination_call(copy.next(UploadEvent::SourceFound(Ok(head(4, Some("t"))))));
    let transfer = transferring(&mut copy);
    let part = transfer.plan.part(0);
    let range = Some("bytes 0-3/4");
    assert!(transfer.move_fetched(part, range, vec![1, 2, 3, 4]).is_ok());
    assert!(transfer.move_fetched(part, range, vec![1, 2, 3]).is_err());
    assert!(transfer.move_fetched(part, range, vec![1, 2, 3, 4, 5]).is_err());
    assert_eq!(
        transfer.move_fetched(part, None, vec![1, 2, 3, 4]).unwrap_err().message(),
        "<copy_object_multipart_cross_clients> validate part range src_bucket=src src_key=a \
         part_number=1 [UnexpectedContentRange - expected <bytes 0-3/4>, received <<missing>>]"
    );
    assert!(matches!(
        transfer.move_fetched(part, Some("bytes 0-3/5"), vec![1, 2, 3]),
        Err(S3Error::UnexpectedContentRange(..))
    ));
}

#[test]
fn received_parts_need_their_range_and_length() {
    let parts = receiving_parts(42, 20);
    let part = parts.plan.part(1);
    assert!(parts.receive_part(part, Some("bytes 20-38/42")).is_err());
    let mut receipt = parts.receive_part(part, Some("bytes 20-39/42")).unwrap();
    assert_eq!(
        receipt.finish().unwrap_err().message(),
        "<download_object_multipart> bucket=b key=k download_part_index=1 \
         [UnexpectedContentLength - expected <20>, received <0>]"
    );
    assert_eq!(receipt.take_piece(0).unwrap(), 20);
    assert_eq!(receipt.take_piece(12).unwrap(), 20);
    assert_eq!(receipt.take_piece(8).unwrap(), 32);
    assert!(receipt.finish().is_ok());
    assert_eq!(receipt.take_piece(1).unwrap(), 40);
    assert!(receipt.finish().is_err());
    assert_eq!(
        receipt.take_piece(usize::MAX).unwrap_err().message(),
        "<download_object_multipart> bucket=b key=k download_part_index=1 \
         [UnexpectedContentLength - expected <20>, received <18446744073709551615>]"
    );
    assert!(receipt.finish().is_err());
}

#[test]
fn received_parts_give_the_object_in_any_order() {
    let object: Vec<u8> = (0..103).collect();
    let parts = receiving_parts(103, 20);
    let mut file: Vec<u8> = Vec::new();
    for index in [3, 0, 5, 1, 4, 1, 2] {
        let part = parts.plan.part(index);
        let (start, end) = (part.start as usize, part.end as usize);
        let range = format!("bytes {}-{}/103", start, end - 1);
        let mut receipt = parts.receive_part(part, Some(&range)).unwrap();
        for piece in object[start..end].chunks(7) {
            let offset = receipt.take_piece(piece.len()).unwrap() as usize;
            let length = file.len().max(offset + piece.len());
            file.resize(length, 0);
            file[offset..offset + piece.len()].copy_from_slice(piece);
        }
        assert!(receipt.finish().is_ok());
    }
    assert_eq!(file, object);
}

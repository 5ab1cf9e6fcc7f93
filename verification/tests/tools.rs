use sulfite::batch::{
    is_copied, plan_copy, plan_download, plan_upload, FoundObject, LocalFile,
};
use sulfite::client::S3Client;
use sulfite::command::{
    client_config, retry_config, run_obj, shows_progress, Endpoint, GlobalOptions, ObjCommand,
};
use sulfite::config::{RetryConfig, S3ClientConfig};
use sulfite::display::{
    human_size, print_object_human, warn_prefix_no_trailing_slash, ObjectLabels,
};
use sulfite::error::{ErrorMetadata, S3Error};
use sulfite::manifest::{
    find_keys_in_csv, get_keys_from_csv, get_line_count, key_count, manifest_key, select_keys,
};
use sulfite::object::ObjectInfo;
use sulfite::operation::{CopyPath, Operation};
use sulfite::run::{run_csv, CsvArgs, Tally};
use sulfite::task::{
    job_for_key, CsvCommand, CsvCopy, LocalRead, Outcome, Task, TaskAction, TaskEvent,
};
use sulfite::time::Timestamp;
use sulfite::tool_error::ToolError;

const GIB: u64 = 1024 * 1024 * 1024;

fn float_size(size: u64) -> String {
    let size_kb = size as f64 / 1024.0;
    let size_mb = size_kb / 1024.0;
    let size_gb = size_mb / 1024.0;
    let size_tb = size_gb / 1024.0;
    if size_tb > 1.0 {
        format!("{:.2}T", size_tb)
    } else if size_gb > 1.0 {
        format!("{:.2}G", size_gb)
    } else if size_mb > 1.0 {
        format!("{:.2}M", size_mb)
    } else {
        format!("{:.2}K", size_kb)
    }
}

#[test]
fn sizes_are_shown_in_short() {
    assert_eq!(human_size(276480), "270.00K");
    assert_eq!(human_size(20480), "20.00K");
    assert_eq!(human_size(81559), "79.65K");
    assert_eq!(human_size(0), "0.00K");
    assert_eq!(human_size(128), "0.12K");
    assert_eq!(human_size(384), "0.38K");
    assert_eq!(human_size(1024 * 1024), "1024.00K");
    assert_eq!(human_size(1024 * 1024 + 1), "1.00M");
}

#[test]
fn sizes_are_rounded_as_in_double_precision() {
    for size in 0..5000u64 {
        assert_eq!(human_size(size), float_size(size));
    }
    for shift in 0..64u32 {
        for around in 0..40u64 {
            let above = (1u64 << shift).wrapping_add(around);
            let below = (1u64 << shift).wrapping_sub(around);
            assert_eq!(human_size(above), float_size(above));
            assert_eq!(human_size(below), float_size(below));
        }
    }
    let mut size = 1u64;
    for _ in 0..20000 {
        size = size.wrapping_mul(6364136223846793005).wrapping_add(1442695040888963407);
        assert_eq!(human_size(size), float_size(size));
        assert_eq!(human_size(size >> 20), float_size(size >> 20));
        assert_eq!(human_size(size >> 40), float_size(size >> 40));
    }
}

fn object(size: u64, secs: i64, class: Option<&str>) -> ObjectInfo {
    ObjectInfo {
        key: "k".to_owned(),
        size,
        timestamp: Timestamp { secs, subsec_nanos: 0 },
        storage_class: class.map(str::to_owned),
        restore_status: None,
    }
}

fn found(size: u64, secs: i64, class: Option<&str>) -> FoundObject {
    FoundObject { info: object(size, secs, class), has_local_time: true }
}

#[test]
fn object_lines_show_what_is_known() {
    let labels = ObjectLabels {
        size: "size:".to_owned(),
        timestamp: "timestamp:".to_owned(),
        storage_class: "storage_class:".to_owned(),
        restore_status: "restore_status:".to_owned(),
    };
    let mut shown = object(276480, 1750000002, Some("DEEP_ARCHIVE"));
    assert_eq!(
        print_object_human("my-object", &labels, &shown),
        "  my-object\n    size: 276480 (270.00K) timestamp: 2025-06-15T15:06:42Z storage_class: DEEP_ARCHIVE"
    );
    shown.storage_class = None;
    shown.restore_status = Some("ONGOING".to_owned());
    assert_eq!(
        print_object_human("my-object", &labels, &shown),
        "  my-object\n    size: 276480 (270.00K) timestamp: 2025-06-15T15:06:42Z storage_class:  \
         restore_status: ONGOING"
    );
}

#[test]
fn prefixes_without_slash_are_warned_of() {
    assert_eq!(warn_prefix_no_trailing_slash("", "csv"), None);
    assert_eq!(warn_prefix_no_trailing_slash("a/", "csv"), None);
    assert_eq!(
        warn_prefix_no_trailing_slash("archive-", "csv"),
        Some(
            "WARNING [csv]: Prefix does not end with '/'. Keys may not match directory-style \
             paths. (if intentional, e.g. non-path prefix like 'archive-', ignore.)"
                .to_owned()
        )
    );
}

fn texts(keys: Vec<Result<String, ToolError>>) -> Vec<String> {
    keys.into_iter()
        .map(|key| match key {
            Ok(key) => key,
            Err(error) => error.message(),
        })
        .collect()
}

#[test]
fn keys_are_read_from_a_column() {
    let manifest = b"key,size\nfirst,1\n\"sec,ond\",2\n";
    assert_eq!(texts(get_keys_from_csv(manifest, 0, true)), ["first", "sec,ond"]);
    assert_eq!(texts(get_keys_from_csv(manifest, 1, false)), ["size", "1", "2"]);
    assert_eq!(texts(find_keys_in_csv(manifest, 0, true).unwrap()), ["first", "sec,ond"]);
    assert!(find_keys_in_csv(manifest, 2, true).is_none());
    assert!(find_keys_in_csv(b"", 9, true).unwrap().is_empty());
}

#[test]
fn unreadable_records_are_reported_in_their_place() {
    let keys = texts(find_keys_in_csv(b"a\nb,c\nd\n", 0, false).unwrap());
    assert_eq!(keys.len(), 3);
    assert_eq!(keys[0], "a");
    assert!(keys[1].starts_with("reading key from CSV: CSV error: record 1"));
    assert_eq!(keys[2], "d");
}

#[test]
fn keys_are_selected_from_records() {
    let records = vec![
        Ok(vec!["a".to_owned(), "b".to_owned()]),
        Err("broken".to_owned()),
        Ok(vec!["c".to_owned(), "d".to_owned()]),
    ];
    assert_eq!(texts(select_keys(&records, 1)), ["b", "reading key from CSV: broken", "d"]);
}

#[test]
fn lines_are_counted() {
    assert_eq!(get_line_count(b""), 0);
    assert_eq!(get_line_count(b"a"), 1);
    assert_eq!(get_line_count(b"a\n"), 1);
    assert_eq!(get_line_count(b"a\n\nb"), 3);
    assert_eq!(get_line_count(b"\n\xff\n"), 2);
    assert_eq!(key_count(b"key\na\nb\n", true), 2);
    assert_eq!(key_count(b"key\na\nb\n", false), 3);
    assert_eq!(key_count(b"", true), 0);
}

#[test]
fn manifests_name_objects_between_prefix_and_suffix() {
    assert_eq!(manifest_key("p/k.txt", "p/", ".txt"), Some("k".to_owned()));
    assert_eq!(manifest_key("p/k.txt", "p/", ""), Some("k.txt".to_owned()));
    assert_eq!(manifest_key("p/k.csv", "p/", ".txt"), None);
    assert_eq!(manifest_key("q/k.txt", "p/", ".txt"), None);
    assert_eq!(manifest_key("aba", "ab", "ba"), None);
    assert_eq!(manifest_key("p/ü.txt", "p/", ".txt"), Some("ü".to_owned()));
}

fn copy_path(class: Option<&str>) -> CopyPath {
    CopyPath {
        src_bucket: "s".to_owned(),
        src_key: "a".to_owned(),
        dst_bucket: "d".to_owned(),
        dst_key: "b".to_owned(),
        dst_storage_class: class.map(str::to_owned),
    }
}

#[test]
fn operations_follow_the_size() {
    assert!(matches!(
        plan_download("b", "k", "/f", GIB - 1),
        Operation::Download { start_end_offsets: None, .. }
    ));
    assert!(matches!(plan_download("b", "k", "/f", GIB), Operation::DownloadMultipart { .. }));

    let glacier = Some("GLACIER".to_owned());
    assert!(matches!(
        plan_upload("b", "k", "/f", 16383, &glacier),
        Operation::Upload { storage_class: None, .. }
    ));
    assert!(matches!(
        plan_upload("b", "k", "/f", 16384, &glacier),
        Operation::Upload { storage_class: Some(class), .. } if class == "GLACIER"
    ));
    assert!(matches!(
        plan_upload("b", "k", "/f", GIB, &glacier),
        Operation::UploadMultipart { storage_class: Some(class), .. } if class == "GLACIER"
    ));

    assert!(matches!(
        plan_copy(copy_path(Some("GLACIER")), 16383, false),
        Operation::Copy(CopyPath { dst_storage_class: None, .. })
    ));
    assert!(matches!(
        plan_copy(copy_path(Some("GLACIER")), GIB - 1, false),
        Operation::Copy(CopyPath { dst_storage_class: Some(_), .. })
    ));
    assert!(matches!(plan_copy(copy_path(None), GIB, false), Operation::CopyMultipart(_)));
    assert!(matches!(
        plan_copy(copy_path(Some("GLACIER")), 16383, true),
        Operation::CopyCrossClients(CopyPath { dst_storage_class: None, .. })
    ));
    assert!(matches!(
        plan_copy(copy_path(None), 20 * 1024 * 1024 - 1, true),
        Operation::CopyCrossClients(_)
    ));
    assert!(matches!(
        plan_copy(copy_path(None), 20 * 1024 * 1024, true),
        Operation::CopyMultipartCrossClients(_)
    ));
}

#[test]
fn unchanged_items_are_inferred() {
    let file = LocalFile { size: 20000, modified: Timestamp { secs: 50, subsec_nanos: 0 } };
    assert!(found(20000, 50, None).matches_local_file(&file));
    assert!(found(20000, 51, None).matches_local_file(&file));
    assert!(!found(20000, 49, None).matches_local_file(&file));
    assert!(!found(20001, 50, None).matches_local_file(&file));
    let undated = FoundObject { has_local_time: false, ..found(20000, 50, None) };
    assert!(!undated.matches_local_file(&file));
    let old = LocalFile { size: 20000, modified: Timestamp { secs: -1, subsec_nanos: 0 } };
    assert!(undated.matches_local_file(&old));

    let glacier = Some("GLACIER".to_owned());
    assert!(found(20000, 50, Some("GLACIER")).matches_upload(&file, &glacier));
    assert!(!found(20000, 50, None).matches_upload(&file, &glacier));
    assert!(found(20000, 50, None).matches_upload(&file, &None));
    let tiny = LocalFile { size: 10, modified: Timestamp { secs: 50, subsec_nanos: 0 } };
    assert!(found(10, 50, None).matches_upload(&tiny, &glacier));
    assert!(!found(10, 50, Some("GLACIER")).matches_upload(&tiny, &glacier));

    assert!(is_copied(20000, &object(20000, 0, Some("GLACIER")), &glacier));
    assert!(!is_copied(20000, &object(20001, 0, Some("GLACIER")), &glacier));
    assert!(!is_copied(20000, &object(20000, 0, None), &glacier));
    assert!(is_copied(10, &object(10, 0, Some("STANDARD")), &glacier));
}

#[test]
fn found_objects_have_a_local_time() {
    assert!(FoundObject::new(object(1, 1750000002, None)).has_local_time);
    let mut odd = object(1, -5, None);
    odd.timestamp.subsec_nanos = 2_000_000_000;
    assert!(!FoundObject::new(odd).has_local_time);
}

fn start(command: &CsvCommand, key: &str, skip_existing: bool) -> (Task, TaskAction) {
    Task::start(job_for_key(command, key).unwrap(), skip_existing)
}

fn outcome(action: Option<TaskAction>) -> Outcome {
    match action {
        Some(TaskAction::Finish(Ok(outcome))) => outcome,
        other => panic!("{:?}", other),
    }
}

fn failure(action: Option<TaskAction>) -> String {
    match action {
        Some(TaskAction::Finish(Err(error))) => error.message(),
        other => panic!("{:?}", other),
    }
}

fn skipped(action: Option<TaskAction>) -> String {
    match outcome(action) {
        Outcome::Skipped(reason) => reason,
        other => panic!("{:?}", other),
    }
}

fn operation(action: Option<TaskAction>) -> Operation {
    match action {
        Some(TaskAction::Perform(operation)) => operation,
        other => panic!("{:?}", other),
    }
}

fn broken() -> S3Error {
    S3Error::TimeoutError("op".to_owned())
}

fn not_found() -> S3Error {
    let metadata = ErrorMetadata { code: None, description: String::new() };
    S3Error::AWSS3Error("op".to_owned(), "missing".to_owned(), metadata, 404)
}

fn download_command() -> CsvCommand {
    CsvCommand::Download {
        bucket: "b".to_owned(),
        prefix: "p/".to_owned(),
        suffix: ".txt".to_owned(),
        local_dir: "/out".to_owned(),
    }
}

fn upload_command(class: Option<&str>) -> CsvCommand {
    CsvCommand::Upload {
        bucket: "b".to_owned(),
        prefix: "p/".to_owned(),
        suffix: ".txt".to_owned(),
        local_dir: "/in".to_owned(),
        storage_class: class.map(str::to_owned),
    }
}

fn csv_copy(class: Option<&str>) -> CsvCopy {
    CsvCopy {
        src_bucket: "s".to_owned(),
        src_prefix: "x/".to_owned(),
        src_suffix: String::new(),
        dst_bucket: "d".to_owned(),
        dst_prefix: "y/".to_owned(),
        dst_suffix: ".bak".to_owned(),
        dst_storage_class: class.map(str::to_owned),
    }
}

fn local_file(size: u64, secs: i64) -> TaskEvent {
    TaskEvent::LocalFileRead(LocalRead::Found {
        size,
        modified: Ok(Timestamp { secs, subsec_nanos: 0 }),
    })
}

#[test]
fn head_task_shows_the_object() {
    let command = CsvCommand::Head {
        bucket: "b".to_owned(),
        prefix: "p/".to_owned(),
        suffix: ".txt".to_owned(),
    };
    let (mut task, first) = start(&command, "k", true);
    assert!(matches!(
        &first,
        TaskAction::Head { bucket, key, at_destination: false } if bucket == "b" && key == "p/k.txt"
    ));
    assert!(matches!(
        outcome(task.next(TaskEvent::Headed(Ok(found(1, 2, None))))),
        Outcome::Shown { display_key, info } if display_key == "k.txt" && info.size == 1
    ));
    let (mut task, _) = start(&command, "k", false);
    assert_eq!(
        failure(task.next(TaskEvent::Headed(Err(broken())))),
        "heading key p/k.txt: op [TimeoutError]"
    );
}

#[test]
fn download_task_overwrites_by_default() {
    let (mut task, _) = start(&download_command(), "n/k", false);
    let action = task.next(TaskEvent::Headed(Ok(found(5, 9, None))));
    assert!(matches!(action, Some(TaskAction::CreateDirectory { path }) if path == "/out/n"));
    assert!(matches!(
        operation(task.next(TaskEvent::DirectoryCreated(Ok(())))),
        Operation::Download { key, local_path, .. } if key == "p/n/k.txt" && local_path == "/out/n/k"
    ));
    assert!(matches!(outcome(task.next(TaskEvent::Performed(Ok(())))), Outcome::Performed));
    assert!(task.next(TaskEvent::Performed(Ok(()))).is_none());
}

#[test]
fn download_task_infers_what_is_there() {
    let compare = |event: TaskEvent| {
        let (mut task, _) = start(&download_command(), "k", true);
        let read = task.next(TaskEvent::Headed(Ok(found(5, 9, None))));
        assert!(matches!(read, Some(TaskAction::ReadLocalFile { path }) if path == "/out/k"));
        task.next(event)
    };
    assert_eq!(skipped(compare(local_file(5, 9))), "p/k.txt already exists locally. Skipping.");
    assert!(matches!(compare(local_file(5, 10)), Some(TaskAction::CreateDirectory { .. })));
    assert!(matches!(compare(local_file(6, 9)), Some(TaskAction::CreateDirectory { .. })));
    assert!(matches!(
        compare(TaskEvent::LocalFileRead(LocalRead::Missing("none".to_owned()))),
        Some(TaskAction::CreateDirectory { .. })
    ));
    assert_eq!(
        failure(compare(TaskEvent::LocalFileRead(LocalRead::Failed("denied".to_owned())))),
        "reading metadata for /out/k: denied"
    );
    assert_eq!(
        failure(compare(TaskEvent::LocalFileRead(LocalRead::Found {
            size: 5,
            modified: Err("no clock".to_owned()),
        }))),
        "no clock"
    );
}

#[test]
fn download_task_reports_its_failures() {
    assert!(matches!(job_for_key(&download_command(), "../k"), Err(ToolError::UnsafeKey(_))));
    let (mut task, _) = start(&download_command(), "k", false);
    task.next(TaskEvent::Headed(Ok(found(5, 9, None))));
    assert_eq!(
        failure(task.next(TaskEvent::DirectoryCreated(Err("full".to_owned())))),
        "creating directory /out: full"
    );
    let (mut task, _) = start(&download_command(), "k", false);
    task.next(TaskEvent::Headed(Ok(found(5, 9, None))));
    task.next(TaskEvent::DirectoryCreated(Ok(())));
    assert_eq!(
        failure(task.next(TaskEvent::Performed(Err(broken())))),
        "downloading object p/k.txt: op [TimeoutError]"
    );
    let rooted = CsvCommand::Download {
        bucket: "b".to_owned(),
        prefix: String::new(),
        suffix: String::new(),
        local_dir: "/".to_owned(),
    };
    let (mut task, _) = start(&rooted, ".", false);
    assert_eq!(
        failure(task.next(TaskEvent::Headed(Ok(found(5, 9, None))))),
        "path has no parent or invalid UTF-8: /."
    );
}

#[test]
fn upload_task_infers_what_is_there() {
    let compare = |class: Option<&str>, event: TaskEvent| {
        let (mut task, first) = start(&upload_command(class), "k", true);
        assert!(matches!(&first, TaskAction::ReadLocalFile { path } if path == "/in/k"));
        let headed = task.next(local_file(20000, 9));
        assert!(matches!(
            headed,
            Some(TaskAction::Head { key, at_destination: true, .. }) if key == "p/k.txt"
        ));
        task.next(event)
    };
    assert_eq!(
        skipped(compare(None, TaskEvent::Headed(Ok(found(20000, 9, None))))),
        "p/k.txt already exists on destination. Skipping."
    );
    assert!(matches!(
        operation(compare(Some("GLACIER"), TaskEvent::Headed(Ok(found(20000, 9, None))))),
        Operation::Upload { storage_class: Some(class), .. } if class == "GLACIER"
    ));
    assert!(matches!(
        operation(compare(None, TaskEvent::Headed(Ok(found(20000, 8, None))))),
        Operation::Upload { .. }
    ));
    assert!(matches!(
        operation(compare(None, TaskEvent::Headed(Err(not_found())))),
        Operation::Upload { .. }
    ));
    assert_eq!(
        failure(compare(None, TaskEvent::Headed(Err(broken())))),
        "heading key p/k.txt on destination: op [TimeoutError]"
    );
}

#[test]
fn upload_task_overwrites_by_default() {
    let (mut task, _) = start(&upload_command(Some("GLACIER")), "k", false);
    assert!(matches!(
        operation(task.next(local_file(100, 9))),
        Operation::Upload { storage_class: None, .. }
    ));
    assert_eq!(
        failure(task.next(TaskEvent::Performed(Err(broken())))),
        "uploading object p/k.txt: op [TimeoutError]"
    );
    let (mut task, _) = start(&upload_command(None), "k", false);
    assert_eq!(
        failure(task.next(TaskEvent::LocalFileRead(LocalRead::Missing("none".to_owned())))),
        "reading metadata for /in/k: none"
    );
}

#[test]
fn copy_task_infers_what_is_there() {
    let compare = |event: TaskEvent| {
        let command = CsvCommand::Copy(csv_copy(Some("GLACIER")));
        let (mut task, first) = start(&command, "k", true);
        assert!(matches!(
            &first,
            TaskAction::Head { bucket, key, at_destination: false } if bucket == "s" && key == "x/k"
        ));
        let headed = task.next(TaskEvent::Headed(Ok(found(20000, 9, None))));
        assert!(matches!(
            headed,
            Some(TaskAction::Head { bucket, key, at_destination: true })
                if bucket == "d" && key == "y/k.bak"
        ));
        task.next(event)
    };
    assert_eq!(
        skipped(compare(TaskEvent::Headed(Ok(found(20000, 0, Some("GLACIER")))))),
        "y/k.bak already exists on destination. Skipping."
    );
    assert!(matches!(
        operation(compare(TaskEvent::Headed(Ok(found(20000, 0, None))))),
        Operation::Copy(_)
    ));
    assert!(matches!(
        operation(compare(TaskEvent::Headed(Err(not_found())))),
        Operation::Copy(_)
    ));
    assert_eq!(
        failure(compare(TaskEvent::Headed(Err(broken())))),
        "heading key y/k.bak on destination: op [TimeoutError]"
    );
}

fn copy_onto_itself(class: Option<&str>) -> CsvCommand {
    let mut copy = csv_copy(class);
    copy.dst_bucket = "s".to_owned();
    copy.dst_prefix = "x/".to_owned();
    copy.dst_suffix = String::new();
    CsvCommand::Copy(copy)
}

#[test]
fn copy_of_an_object_onto_itself_is_made_by_default() {
    let (mut task, _) = start(&copy_onto_itself(Some("GLACIER")), "k", false);
    assert!(matches!(
        operation(task.next(TaskEvent::Headed(Ok(found(20000, 0, Some("GLACIER")))))),
        Operation::Copy(CopyPath { dst_storage_class: Some(class), .. }) if class == "GLACIER"
    ));
}

#[test]
fn copy_of_an_object_onto_itself_is_inferred_like_any_other() {
    let (mut task, _) = start(&copy_onto_itself(Some("GLACIER")), "k", true);
    task.next(TaskEvent::Headed(Ok(found(20000, 0, Some("GLACIER")))));
    assert_eq!(
        skipped(task.next(TaskEvent::Headed(Ok(found(20000, 0, Some("GLACIER")))))),
        "x/k already exists on destination. Skipping."
    );
    let (mut task, _) = start(&copy_onto_itself(Some("GLACIER")), "k", true);
    task.next(TaskEvent::Headed(Ok(found(10, 0, Some("GLACIER")))));
    assert!(matches!(
        operation(task.next(TaskEvent::Headed(Ok(found(10, 0, Some("GLACIER")))))),
        Operation::Copy(CopyPath { dst_storage_class: None, .. })
    ));
}

#[test]
fn copy_tasks_report_their_failures() {
    let (mut task, _) = start(&CsvCommand::Copy(csv_copy(None)), "k", false);
    assert_eq!(
        failure(task.next(TaskEvent::Headed(Err(not_found())))),
        "heading key x/k on source: op [AWSS3Error - <missing> <> <404>]"
    );
    let (mut task, _) = start(&CsvCommand::Copy(csv_copy(None)), "k", false);
    assert!(matches!(
        operation(task.next(TaskEvent::Headed(Ok(found(GIB, 0, None))))),
        Operation::CopyMultipart(_)
    ));
    assert_eq!(
        failure(task.next(TaskEvent::Performed(Err(broken())))),
        "copying object y/k.bak: op [TimeoutError]"
    );
    let (mut task, _) = start(&CsvCommand::CopyCrossClients(csv_copy(None)), "k", false);
    assert!(matches!(
        operation(task.next(TaskEvent::Headed(Ok(found(1, 0, None))))),
        Operation::CopyCrossClients(_)
    ));
    assert_eq!(
        failure(task.next(TaskEvent::Performed(Err(broken())))),
        "copying object across clients from x/k to y/k.bak: op [TimeoutError]"
    );
}

#[test]
fn simple_tasks_perform_at_once() {
    let delete = CsvCommand::Delete {
        bucket: "b".to_owned(),
        prefix: "p/".to_owned(),
        suffix: String::new(),
    };
    let (mut task, first) = start(&delete, "k", true);
    assert!(matches!(
        &first,
        TaskAction::Perform(Operation::Delete { key, .. }) if key == "p/k"
    ));
    assert_eq!(
        failure(task.next(TaskEvent::Performed(Err(broken())))),
        "deleting object p/k: op [TimeoutError]"
    );
    let restore = CsvCommand::Restore {
        bucket: "b".to_owned(),
        prefix: "p/".to_owned(),
        suffix: String::new(),
        restore_tier: "Bulk".to_owned(),
        restore_days: 3,
    };
    let (mut task, first) = start(&restore, "k", true);
    assert!(matches!(
        &first,
        TaskAction::Perform(Operation::Restore { restore_days: 3, restore_tier, .. })
            if restore_tier == "Bulk"
    ));
    assert_eq!(
        failure(task.next(TaskEvent::Performed(Err(broken())))),
        "restoring object p/k: op [TimeoutError]"
    );
}

fn client(part_size: u64, workers: usize) -> S3Client {
    let config = S3ClientConfig {
        multipart_part_size: part_size,
        multipart_workers: workers,
        ..S3ClientConfig::default()
    };
    S3Client::new(&config, RetryConfig::default())
}

fn args(workers: usize, command: CsvCommand) -> CsvArgs {
    CsvArgs {
        source_path: "manifest.csv".to_owned(),
        column_idx: 0,
        has_header: true,
        workers,
        skip_existing_with_inference: false,
        command,
    }
}

#[test]
fn batches_are_checked_before_they_run() {
    let client = client(1, 1);
    let error = run_csv(&client, None, &args(0, download_command())).unwrap_err();
    assert_eq!(error.message(), "CSV workers must be greater than zero");
    let cross = CsvCommand::CopyCrossClients(csv_copy(None));
    let error = run_csv(&client, None, &args(1, cross)).unwrap_err();
    assert_eq!(error.message(), "destination S3 client is not configured");

    let plan = run_csv(&client, None, &args(8, download_command())).unwrap();
    assert_eq!(plan.concurrency, 8);
    assert_eq!(plan.local_dir, Some("/out".to_owned()));
    assert!(plan.has_progress);
    assert!(plan.warnings.is_empty());

    let head = CsvCommand::Head {
        bucket: "b".to_owned(),
        prefix: "p".to_owned(),
        suffix: String::new(),
    };
    let plan = run_csv(&client, None, &args(8, head)).unwrap();
    assert_eq!(plan.concurrency, 1);
    assert!(!plan.has_progress);
    assert_eq!(plan.warnings.len(), 1);
}

#[test]
fn batches_between_clients_estimate_their_memory() {
    let mut copy = csv_copy(None);
    copy.src_prefix = "x".to_owned();
    copy.dst_prefix = "y".to_owned();
    let args = args(4, CsvCommand::CopyCrossClients(copy));
    let part_size = 20 * 1024 * 1024;
    let plan = run_csv(&client(1, 2), Some(&client(part_size, 3)), &args).unwrap();
    assert_eq!(plan.warnings.len(), 4);
    assert_eq!(
        plan.warnings[0],
        "Source and destination multipart settings differ: source part_size=1 bytes workers=2, \
         destination part_size=20971520 bytes workers=3. Using destination settings."
    );
    assert_eq!(
        plan.warnings[1],
        "CSV cross-client copy concurrency: batch_workers=4, multipart_workers=3, \
         multipart_part_size=20 MiB. Objects below 20 MiB are copied fully in memory, allowing up \
         to approximately 80 MiB of payload buffering; multipart copies can buffer approximately \
         240 MiB, plus SDK overhead."
    );
    assert!(plan.warnings[2].starts_with("WARNING [csv copy (source)]"));
    assert!(plan.warnings[3].starts_with("WARNING [csv copy (destination)]"));

    let huge = run_csv(&client(u64::MAX, 3), Some(&client(u64::MAX, 3)), &args).unwrap();
    assert_eq!(huge.warnings.len(), 3);
    assert!(huge.warnings[0].contains("approximately 17592186044415 MiB, plus SDK"));
}

#[test]
fn batches_fail_if_a_key_fails() {
    let mut tally = Tally::new();
    tally.record(true);
    assert!(tally.result().is_ok());
    tally.record(false);
    tally.record(false);
    tally.record(true);
    assert_eq!(tally.result().unwrap_err().message(), "2 CSV operation(s) failed");
}

fn download(local_path: Option<&str>, key: &str, offsets: (Option<usize>, Option<usize>)) -> ObjCommand {
    ObjCommand::Download {
        bucket: "b".to_owned(),
        key: key.to_owned(),
        local_path: local_path.map(str::to_owned),
        start_offset: offsets.0,
        end_offset: offsets.1,
    }
}

#[test]
fn single_downloads_choose_their_path_and_slice() {
    assert!(matches!(
        run_obj(download(None, "a/b.txt", (Some(1), Some(2)))),
        Ok(Operation::Download { local_path, start_end_offsets: Some((1, 2)), .. })
            if local_path == "b.txt"
    ));
    assert!(matches!(
        run_obj(download(Some("/f"), "a/b.txt", (Some(1), None))),
        Ok(Operation::Download { local_path, start_end_offsets: None, .. }) if local_path == "/f"
    ));
    assert_eq!(
        run_obj(download(None, "a/..", (None, None))).unwrap_err().message(),
        "key has no file name"
    );
    let multipart = ObjCommand::DownloadMultipart {
        bucket: "b".to_owned(),
        key: "/".to_owned(),
        local_path: None,
    };
    assert!(matches!(run_obj(multipart), Err(ToolError::NoFileName)));
}

#[test]
fn other_single_commands_are_taken_as_they_are() {
    let copy = run_obj(ObjCommand::CopyMultipart(copy_path(Some("GLACIER")))).unwrap();
    assert!(matches!(
        copy,
        Operation::CopyMultipart(CopyPath { dst_storage_class: Some(class), .. })
            if class == "GLACIER"
    ));
    let upload = ObjCommand::Upload {
        bucket: "b".to_owned(),
        key: "k".to_owned(),
        local_path: "/f".to_owned(),
        storage_class: None,
    };
    assert!(matches!(run_obj(upload), Ok(Operation::Upload { .. })));
}

#[test]
fn clients_of_a_command_share_their_settings() {
    let options = GlobalOptions {
        endpoint: Endpoint {
            region: Some("r".to_owned()),
            endpoint_url: None,
            profile: Some("source".to_owned()),
        },
        read_timeout: 60,
        max_retries: 3,
        retriable_client_status_codes: vec![408, 429],
        multipart_part_size: 5,
        multipart_workers: 6,
        json: true,
    };
    let destination = Endpoint {
        region: None,
        endpoint_url: Some("https://destination".to_owned()),
        profile: None,
    };
    let source_config = client_config(&options, &options.endpoint);
    assert_eq!(source_config.region, Some("r".to_owned()));
    assert_eq!(source_config.profile_name, Some("source".to_owned()));
    let destination_config = client_config(&options, &destination);
    assert_eq!(destination_config.region, None);
    assert_eq!(destination_config.endpoint_url, Some("https://destination".to_owned()));
    assert_eq!(destination_config.multipart_part_size, 5);
    assert_eq!(destination_config.multipart_workers, 6);
    assert_eq!(destination_config.read_timeout_secs, 60);
    let retries = retry_config(&options);
    assert_eq!(retries.max_retries, 3);
    assert_eq!(retries.retriable_client_status_codes, [408, 429]);
    assert!(!shows_progress(&options));
}

#[test]
fn batches_work_on_the_objects_that_a_manifest_names() {
    let name = manifest_key("p/n/k.txt", "p/", ".txt").unwrap();
    let (_, first) = start(&download_command(), &name, false);
    assert!(matches!(first, TaskAction::Head { key, .. } if key == "p/n/k.txt"));
}

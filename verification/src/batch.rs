//! Batches: one operation for each key of a manifest.

use crate::object::{ObjectInfo, ObjectInfoView};
use crate::operation::{CopyPath, CopyPathView, Operation, OperationView};
use crate::text::same_text;
use crate::time::Timestamp;
use vstd::prelude::*;

verus! {

/// From this size on, objects are moved in parts (1 GiB).
pub const MULTIPART_THRESHOLD: u64 = 1024 * 1024 * 1024;

/// Below this size, objects are stored in the default class, whatever class is asked for
/// (16 KiB): archival classes do not pay for them.
pub const STORAGE_CLASS_THRESHOLD: u64 = 16 * 1024;

/// Below this size, objects are copied between clients at once through memory (20 MiB).
pub const IN_MEMORY_COPY_THRESHOLD: u64 = 20 * 1024 * 1024;

/// The storage class of objects for which none is given.
pub const STANDARD: &'static str = "STANDARD";

/// The storage class that an upload or copy of an object asks for.
pub open spec fn sent_class(size: u64, requested: Option<Seq<char>>) -> Option<Seq<char>> {
    if size < STORAGE_CLASS_THRESHOLD {
        None
    } else {
        requested
    }
}

/// The storage class of an object, given the class that is named for it.
pub open spec fn class_or_standard(class: Option<Seq<char>>) -> Seq<char> {
    match class {
        Some(class) => class,
        None => STANDARD@,
    }
}

/// The storage class that an object has after an upload or copy.
pub open spec fn effective_class(size: u64, requested: Option<Seq<char>>) -> Seq<char> {
    class_or_standard(sent_class(size, requested))
}

/// A local file.
#[derive(Clone, Copy, Debug)]
pub struct LocalFile {
    pub size: u64,
    pub modified: Timestamp,
}

/// An object that was found, and whether its time of modification is one that local files can
/// have.
#[derive(Debug)]
pub struct FoundObject {
    pub info: ObjectInfo,
    pub has_local_time: bool,
}

/// The model of [`FoundObject`].
pub struct FoundObjectView {
    pub info: ObjectInfoView,
    pub has_local_time: bool,
}

impl View for FoundObject {
    type V = FoundObjectView;

    open spec fn view(&self) -> FoundObjectView {
        FoundObjectView { info: self.info@, has_local_time: self.has_local_time }
    }
}

impl FoundObjectView {
    /// The time of modification to compare local files with. A time that they cannot have counts
    /// as the epoch.
    pub open spec fn local_time(self) -> Timestamp {
        if self.has_local_time {
            self.info.timestamp
        } else {
            Timestamp { secs: 0, subsec_nanos: 0 }
        }
    }

    /// The object is taken to be what a local file holds: it has the same size, and the local
    /// file is not newer.
    pub open spec fn matches_local_file(self, file: LocalFile) -> bool {
        file.size == self.info.size && file.modified.nanos() <= self.local_time().nanos()
    }

    /// The object is taken to be what an upload of a local file would make: it also has the
    /// storage class that the upload would give it.
    pub open spec fn matches_upload(self, file: LocalFile, requested: Option<Seq<char>>) -> bool {
        self.matches_local_file(file) && class_or_standard(self.info.storage_class)
            == effective_class(file.size, requested)
    }
}

/// An object is taken to be what a copy of another object would make: it has the same size, and
/// the storage class that the copy would give it.
pub open spec fn matches_copy(
    source_size: u64,
    destination: ObjectInfoView,
    requested: Option<Seq<char>>,
) -> bool {
    destination.size == source_size && class_or_standard(destination.storage_class)
        == effective_class(source_size, requested)
}

/// How an object is downloaded, by its size.
pub open spec fn download_operation(
    bucket: Seq<char>,
    key: Seq<char>,
    local_path: Seq<char>,
    size: u64,
) -> OperationView {
    if size < MULTIPART_THRESHOLD {
        OperationView::Download { bucket, key, local_path, start_end_offsets: None }
    } else {
        OperationView::DownloadMultipart { bucket, key, local_path }
    }
}

/// How a file is uploaded, by its size.
pub open spec fn upload_operation(
    bucket: Seq<char>,
    key: Seq<char>,
    local_path: Seq<char>,
    size: u64,
    requested: Option<Seq<char>>,
) -> OperationView {
    let storage_class = sent_class(size, requested);
    if size < MULTIPART_THRESHOLD {
        OperationView::Upload { bucket, key, local_path, storage_class }
    } else {
        OperationView::UploadMultipart { bucket, key, local_path, storage_class }
    }
}

/// How an object is copied, by its size.
pub open spec fn copy_operation(
    path: CopyPathView,
    size: u64,
    across_clients: bool,
) -> OperationView {
    let path = CopyPathView {
        dst_storage_class: sent_class(size, path.dst_storage_class),
        ..path
    };
    if across_clients {
        if size < IN_MEMORY_COPY_THRESHOLD {
            OperationView::CopyCrossClients(path)
        } else {
            OperationView::CopyMultipartCrossClients(path)
        }
    } else {
        if size < MULTIPART_THRESHOLD {
            OperationView::Copy(path)
        } else {
            OperationView::CopyMultipart(path)
        }
    }
}

/// A class that is named for an object, or the default one.
fn named_class(class: &Option<String>) -> (named: &str)
    ensures
        named@ == class_or_standard(class.deep_view()),
{
    match class {
        Some(class) => class.as_str(),
        None => STANDARD,
    }
}

/// The storage class that an upload or copy of an object asks for.
fn class_to_send(size: u64, requested: &Option<String>) -> (class: Option<String>)
    ensures
        class.deep_view() == sent_class(size, requested.deep_view()),
{
    if size < STORAGE_CLASS_THRESHOLD {
        None
    } else {
        requested.clone()
    }
}

/// Whether an object has the storage class that an upload or copy would give it.
fn has_effective_class(class: &Option<String>, size: u64, requested: &Option<String>) -> (has: bool)
    ensures
        has == (class_or_standard(class.deep_view()) == effective_class(
            size,
            requested.deep_view(),
        )),
{
    let sent = class_to_send(size, requested);
    same_text(named_class(class), named_class(&sent))
}

impl FoundObject {
    /// An object that was found. This machine tells whether a local file can have its time.
    pub fn new(info: ObjectInfo) -> (found: Self)
        ensures
            found@.info == info@,
            found@.has_local_time ==> info.timestamp.subsec_nanos < 1_000_000_000,
    {
        let has_local_time: bool = info.timestamp.is_local_time();
        FoundObject { info, has_local_time }
    }

    /// Whether the object is taken to be what a local file holds.
    pub fn matches_local_file(&self, file: &LocalFile) -> (matched: bool)
        ensures
            matched == self@.matches_local_file(*file),
    {
        let remote = if self.has_local_time {
            self.info.timestamp
        } else {
            Timestamp::epoch()
        };
        file.size == self.info.size && file.modified.is_at_most(&remote)
    }

    /// Whether the object is taken to be what an upload of a local file would make.
    pub fn matches_upload(&self, file: &LocalFile, requested: &Option<String>) -> (matched: bool)
        ensures
            matched == self@.matches_upload(*file, requested.deep_view()),
    {
        self.matches_local_file(file) && has_effective_class(
            &self.info.storage_class,
            file.size,
            requested,
        )
    }
}

/// Whether an object is taken to be what a copy of another object would make.
pub fn is_copied(source_size: u64, destination: &ObjectInfo, requested: &Option<String>) -> (copied:
    bool)
    ensures
        copied == matches_copy(source_size, destination@, requested.deep_view()),
{
    destination.size == source_size && has_effective_class(
        &destination.storage_class,
        source_size,
        requested,
    )
}

/// How an object is downloaded, by its size.
pub fn plan_download(bucket: &str, key: &str, local_path: &str, size: u64) -> (operation: Operation)
    ensures
        operation@ == download_operation(bucket@, key@, local_path@, size),
{
    let bucket = bucket.to_owned();
    let key = key.to_owned();
    let local_path = local_path.to_owned();
    if size < MULTIPART_THRESHOLD {
        Operation::Download { bucket, key, local_path, start_end_offsets: None }
    } else {
        Operation::DownloadMultipart { bucket, key, local_path }
    }
}

/// How a file is uploaded, by its size.
pub fn plan_upload(
    bucket: &str,
    key: &str,
    local_path: &str,
    size: u64,
    requested: &Option<String>,
) -> (operation: Operation)
    ensures
        operation@ == upload_operation(bucket@, key@, local_path@, size, requested.deep_view()),
{
    let bucket = bucket.to_owned();
    let key = key.to_owned();
    let local_path = local_path.to_owned();
    let storage_class = class_to_send(size, requested);
    if size < MULTIPART_THRESHOLD {
        Operation::Upload { bucket, key, local_path, storage_class }
    } else {
        Operation::UploadMultipart { bucket, key, local_path, storage_class }
    }
}

/// How an object is copied, by its size.
pub fn plan_copy(path: CopyPath, size: u64, across_clients: bool) -> (operation: Operation)
    ensures
        operation@ == copy_operation(path@, size, across_clients),
{
    let dst_storage_class = class_to_send(size, &path.dst_storage_class);
    let path = CopyPath {
        src_bucket: path.src_bucket,
        src_key: path.src_key,
        dst_bucket: path.dst_bucket,
        dst_key: path.dst_key,
        dst_storage_class,
    };
    if across_clients {
        if size < IN_MEMORY_COPY_THRESHOLD {
            Operation::CopyCrossClients(path)
        } else {
            Operation::CopyMultipartCrossClients(path)
        }
    } else {
        if size < MULTIPART_THRESHOLD {
            Operation::Copy(path)
        } else {
            Operation::CopyMultipart(path)
        }
    }
}

/// Objects below the threshold are uploaded and copied without a storage class, so that they are
/// stored in the default one, whatever class is asked for.
pub proof fn lemma_small_objects_stay_standard(
    bucket: Seq<char>,
    key: Seq<char>,
    local_path: Seq<char>,
    path: CopyPathView,
    size: u64,
    requested: Option<Seq<char>>,
)
    requires
        size < STORAGE_CLASS_THRESHOLD,
    ensures
        effective_class(size, requested) == STANDARD@,
        upload_operation(bucket, key, local_path, size, requested) == (OperationView::Upload {
            bucket,
            key,
            local_path,
            storage_class: None,
        }),
        copy_operation(path, size, false) == OperationView::Copy(
            CopyPathView { dst_storage_class: None, ..path },
        ),
        copy_operation(path, size, true) == OperationView::CopyCrossClients(
            CopyPathView { dst_storage_class: None, ..path },
        ),
{
}

/// Objects are moved in parts exactly from the threshold on, and copied between clients at once
/// through memory exactly below the threshold for that.
pub proof fn lemma_large_objects_are_moved_in_parts(
    bucket: Seq<char>,
    key: Seq<char>,
    local_path: Seq<char>,
    path: CopyPathView,
    size: u64,
    requested: Option<Seq<char>>,
)
    ensures
        download_operation(bucket, key, local_path, size) is DownloadMultipart <==> size
            >= MULTIPART_THRESHOLD,
        upload_operation(bucket, key, local_path, size, requested) is UploadMultipart <==> size
            >= MULTIPART_THRESHOLD,
        copy_operation(path, size, false) is CopyMultipart <==> size >= MULTIPART_THRESHOLD,
        copy_operation(path, size, true) is CopyMultipartCrossClients <==> size
            >= IN_MEMORY_COPY_THRESHOLD,
{
}

/// An object of 16 KiB or more is stored in the class that was asked for, and a smaller one in none
/// in particular.
pub proof fn lemma_storage_class_is_kept_from_16_kib_on(
    size: u64,
    requested: Option<Seq<char>>,
)
    ensures
        size >= 16 * 1024 ==> sent_class(size, requested) == requested,
        size < 16 * 1024 ==> sent_class(size, requested) is None,
        effective_class(size, requested) == (if size >= 16 * 1024 && requested is Some {
            requested.unwrap()
        } else {
            "STANDARD"@
        }),
{
}

/// Whatever its size, an object is downloaded, uploaded and copied from where to where it should
/// be, as a whole, and in the storage class that is sent for it. From 1 GiB on it is moved in
/// parts, and between clients from 20 MiB on.
pub proof fn lemma_operations_move_the_object(
    bucket: Seq<char>,
    key: Seq<char>,
    local_path: Seq<char>,
    path: CopyPathView,
    size: u64,
    requested: Option<Seq<char>>,
)
    ensures
        match download_operation(bucket, key, local_path, size) {
            OperationView::Download { bucket: b, key: k, local_path: p, start_end_offsets } => {
                &&& size < 1024 * 1024 * 1024
                &&& b == bucket && k == key && p == local_path && start_end_offsets is None
            },
            OperationView::DownloadMultipart { bucket: b, key: k, local_path: p } => {
                &&& size >= 1024 * 1024 * 1024
                &&& b == bucket && k == key && p == local_path
            },
            _ => false,
        },
        match upload_operation(bucket, key, local_path, size, requested) {
            OperationView::Upload { bucket: b, key: k, local_path: p, storage_class } => {
                &&& size < 1024 * 1024 * 1024
                &&& b == bucket && k == key && p == local_path
                &&& storage_class == (if size >= 16 * 1024 {
                    requested
                } else {
                    None
                })
            },
            OperationView::UploadMultipart { bucket: b, key: k, local_path: p, storage_class } => {
                &&& size >= 1024 * 1024 * 1024
                &&& b == bucket && k == key && p == local_path && storage_class == requested
            },
            _ => false,
        },
        forall|across: bool|
            ({
                let copied = CopyPathView {
                    src_bucket: path.src_bucket,
                    src_key: path.src_key,
                    dst_bucket: path.dst_bucket,
                    dst_key: path.dst_key,
                    dst_storage_class: if size >= 16 * 1024 {
                        path.dst_storage_class
                    } else {
                        None
                    },
                };
                match #[trigger] copy_operation(path, size, across) {
                    OperationView::Copy(p) => !across && size < 1024 * 1024 * 1024 && p == copied,
                    OperationView::CopyMultipart(p) => !across && size >= 1024 * 1024 * 1024 && p
                        == copied,
                    OperationView::CopyCrossClients(p) => across && size < 20 * 1024 * 1024 && p
                        == copied,
                    OperationView::CopyMultipartCrossClients(p) => across && size >= 20 * 1024
                        * 1024 && p == copied,
                    _ => false,
                }
            }),
{
}

} // verus!

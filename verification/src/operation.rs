//! What the tool has a client do.

use vstd::prelude::*;

verus! {

/// From where to where an object is copied.
#[derive(Debug)]
pub struct CopyPath {
    pub src_bucket: String,
    pub src_key: String,
    pub dst_bucket: String,
    pub dst_key: String,
    pub dst_storage_class: Option<String>,
}

/// The model of [`CopyPath`].
pub struct CopyPathView {
    pub src_bucket: Seq<char>,
    pub src_key: Seq<char>,
    pub dst_bucket: Seq<char>,
    pub dst_key: Seq<char>,
    pub dst_storage_class: Option<Seq<char>>,
}

impl View for CopyPath {
    type V = CopyPathView;

    open spec fn view(&self) -> CopyPathView {
        CopyPathView {
            src_bucket: self.src_bucket@,
            src_key: self.src_key@,
            dst_bucket: self.dst_bucket@,
            dst_key: self.dst_key@,
            dst_storage_class: self.dst_storage_class.deep_view(),
        }
    }
}

/// An operation of a client, or of two.
#[derive(Debug)]
pub enum Operation {
    Head { bucket: String, key: String },
    Download {
        bucket: String,
        key: String,
        local_path: String,
        start_end_offsets: Option<(usize, usize)>,
    },
    DownloadMultipart { bucket: String, key: String, local_path: String },
    Upload { bucket: String, key: String, local_path: String, storage_class: Option<String> },
    UploadMultipart {
        bucket: String,
        key: String,
        local_path: String,
        storage_class: Option<String>,
    },
    Delete { bucket: String, key: String },
    Copy(CopyPath),
    CopyMultipart(CopyPath),
    CopyCrossClients(CopyPath),
    CopyMultipartCrossClients(CopyPath),
    Restore { bucket: String, key: String, restore_days: i32, restore_tier: String },
}

/// The model of [`Operation`].
pub enum OperationView {
    Head { bucket: Seq<char>, key: Seq<char> },
    Download {
        bucket: Seq<char>,
        key: Seq<char>,
        local_path: Seq<char>,
        start_end_offsets: Option<(usize, usize)>,
    },
    DownloadMultipart { bucket: Seq<char>, key: Seq<char>, local_path: Seq<char> },
    Upload {
        bucket: Seq<char>,
        key: Seq<char>,
        local_path: Seq<char>,
        storage_class: Option<Seq<char>>,
    },
    UploadMultipart {
        bucket: Seq<char>,
        key: Seq<char>,
        local_path: Seq<char>,
        storage_class: Option<Seq<char>>,
    },
    Delete { bucket: Seq<char>, key: Seq<char> },
    Copy(CopyPathView),
    CopyMultipart(CopyPathView),
    CopyCrossClients(CopyPathView),
    CopyMultipartCrossClients(CopyPathView),
    Restore { bucket: Seq<char>, key: Seq<char>, restore_days: i32, restore_tier: Seq<char> },
}

impl View for Operation {
    type V = OperationView;

    open spec fn view(&self) -> OperationView {
        match self {
            Operation::Head { bucket, key } => OperationView::Head { bucket: bucket@, key: key@ },
            Operation::Download { bucket, key, local_path, start_end_offsets } => {
                OperationView::Download {
                    bucket: bucket@,
                    key: key@,
                    local_path: local_path@,
                    start_end_offsets: *start_end_offsets,
                }
            },
            Operation::DownloadMultipart { bucket, key, local_path } => {
                OperationView::DownloadMultipart {
                    bucket: bucket@,
                    key: key@,
                    local_path: local_path@,
                }
            },
            Operation::Upload { bucket, key, local_path, storage_class } => OperationView::Upload {
                bucket: bucket@,
                key: key@,
                local_path: local_path@,
                storage_class: storage_class.deep_view(),
            },
            Operation::UploadMultipart { bucket, key, local_path, storage_class } => {
                OperationView::UploadMultipart {
                    bucket: bucket@,
                    key: key@,
                    local_path: local_path@,
                    storage_class: storage_class.deep_view(),
                }
            },
            Operation::Delete { bucket, key } => OperationView::Delete {
                bucket: bucket@,
                key: key@,
            },
            Operation::Copy(path) => OperationView::Copy(path@),
            Operation::CopyMultipart(path) => OperationView::CopyMultipart(path@),
            Operation::CopyCrossClients(path) => OperationView::CopyCrossClients(path@),
            Operation::CopyMultipartCrossClients(path) => {
                OperationView::CopyMultipartCrossClients(path@)
            },
            Operation::Restore { bucket, key, restore_days, restore_tier } => {
                OperationView::Restore {
                    bucket: bucket@,
                    key: key@,
                    restore_days: *restore_days,
                    restore_tier: restore_tier@,
                }
            },
        }
    }
}

} // verus!

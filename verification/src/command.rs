//! The commands on single objects, and the settings that they share.

use crate::config::{RetryConfig, RetryStrategy, S3ClientConfig};
use crate::local_path;
use crate::local_path::file_name;
use crate::operation::{CopyPath, Operation, OperationView};
use crate::tool_error::{ToolError, ToolErrorView};
use vstd::prelude::*;

verus! {

/// A command on one object.
#[derive(Debug)]
pub enum ObjCommand {
    Head { bucket: String, key: String },
    Download {
        bucket: String,
        key: String,
        local_path: Option<String>,
        start_offset: Option<usize>,
        end_offset: Option<usize>,
    },
    DownloadMultipart { bucket: String, key: String, local_path: Option<String> },
    Upload { bucket: String, key: String, local_path: String, storage_class: Option<String> },
    UploadMultipart {
        bucket: String,
        key: String,
        local_path: String,
        storage_class: Option<String>,
    },
    Delete { bucket: String, key: String },
    Copy(CopyPath),
    CopyMultipart(CopyPath),
    CopyMultipartCrossClients(CopyPath),
    Restore { bucket: String, key: String, restore_days: i32, restore_tier: String },
}

/// Where a download goes: to the path asked for, or else to the file name that the key ends with.
pub open spec fn download_path(local_path: Option<Seq<char>>, key: Seq<char>) -> Result<
    Seq<char>,
    ToolErrorView,
> {
    match local_path {
        Some(path) => Ok(path),
        None => match local_path::final_name(key) {
            Some(name) => Ok(name),
            None => Err(ToolErrorView::NoFileName),
        },
    }
}

impl ObjCommand {
    /// What the command has the client do.
    pub open spec fn operation(self) -> Result<OperationView, ToolErrorView> {
        match self {
            ObjCommand::Head { bucket, key } => Ok(
                OperationView::Head { bucket: bucket@, key: key@ },
            ),
            ObjCommand::Download { bucket, key, local_path, start_offset, end_offset } => {
                match download_path(local_path.deep_view(), key@) {
                    Ok(local_path) => Ok(
                        OperationView::Download {
                            bucket: bucket@,
                            key: key@,
                            local_path,
                            start_end_offsets: match (start_offset, end_offset) {
                                (Some(start), Some(end)) => Some((start, end)),
                                _ => None,
                            },
                        },
                    ),
                    Err(error) => Err(error),
                }
            },
            ObjCommand::DownloadMultipart { bucket, key, local_path } => {
                match download_path(local_path.deep_view(), key@) {
                    Ok(local_path) => Ok(
                        OperationView::DownloadMultipart { bucket: bucket@, key: key@, local_path },
                    ),
                    Err(error) => Err(error),
                }
            },
            ObjCommand::Upload { bucket, key, local_path, storage_class } => Ok(
                OperationView::Upload {
                    bucket: bucket@,
                    key: key@,
                    local_path: local_path@,
                    storage_class: storage_class.deep_view(),
                },
            ),
            ObjCommand::UploadMultipart { bucket, key, local_path, storage_class } => Ok(
                OperationView::UploadMultipart {
                    bucket: bucket@,
                    key: key@,
                    local_path: local_path@,
                    storage_class: storage_class.deep_view(),
                },
            ),
            ObjCommand::Delete { bucket, key } => Ok(
                OperationView::Delete { bucket: bucket@, key: key@ },
            ),
            ObjCommand::Copy(path) => Ok(OperationView::Copy(path@)),
            ObjCommand::CopyMultipart(path) => Ok(OperationView::CopyMultipart(path@)),
            ObjCommand::CopyMultipartCrossClients(path) => Ok(
                OperationView::CopyMultipartCrossClients(path@),
            ),
            ObjCommand::Restore { bucket, key, restore_days, restore_tier } => Ok(
                OperationView::Restore {
                    bucket: bucket@,
                    key: key@,
                    restore_days,
                    restore_tier: restore_tier@,
                },
            ),
        }
    }
}

/// The result of reading a command, as the contracts see it.
pub open spec fn operation_result(r: Result<Operation, ToolError>) -> Result<
    OperationView,
    ToolErrorView,
> {
    match r {
        Ok(operation) => Ok(operation@),
        Err(e) => Err(e@),
    }
}

/// Where a download goes.
fn choose_download_path(local_path: Option<String>, key: &str) -> (path: Result<String, ToolError>)
    ensures
        local_path::path_result(path) == download_path(local_path.deep_view(), key@),
{
    match local_path {
        Some(path) => Ok(path),
        None => match file_name(key) {
            Some(name) => Ok(name),
            None => Err(ToolError::NoFileName),
        },
    }
}

/// What a command on one object has the client do. A download that names no local path goes to
/// the file name that the key ends with, and it is an error if there is none. A slice is
/// downloaded only where both its offsets are given.
pub fn run_obj(command: ObjCommand) -> (operation: Result<Operation, ToolError>)
    ensures
        operation_result(operation) == command.operation(),
{
    match command {
        ObjCommand::Head { bucket, key } => Ok(Operation::Head { bucket, key }),
        ObjCommand::Download { bucket, key, local_path, start_offset, end_offset } => {
            let start_end_offsets: Option<(usize, usize)> = match (start_offset, end_offset) {
                (Some(start), Some(end)) => Some((start, end)),
                _ => None,
            };
            match choose_download_path(local_path, key.as_str()) {
                Ok(local_path) => Ok(
                    Operation::Download { bucket, key, local_path, start_end_offsets },
                ),
                Err(error) => Err(error),
            }
        },
        ObjCommand::DownloadMultipart { bucket, key, local_path } => {
            match choose_download_path(local_path, key.as_str()) {
                Ok(local_path) => Ok(Operation::DownloadMultipart { bucket, key, local_path }),
                Err(error) => Err(error),
            }
        },
        ObjCommand::Upload { bucket, key, local_path, storage_class } => Ok(
            Operation::Upload { bucket, key, local_path, storage_class },
        ),
        ObjCommand::UploadMultipart { bucket, key, local_path, storage_class } => Ok(
            Operation::UploadMultipart { bucket, key, local_path, storage_class },
        ),
        ObjCommand::Delete { bucket, key } => Ok(Operation::Delete { bucket, key }),
        ObjCommand::Copy(path) => Ok(Operation::Copy(path)),
        ObjCommand::CopyMultipart(path) => Ok(Operation::CopyMultipart(path)),
        ObjCommand::CopyMultipartCrossClients(path) => Ok(
            Operation::CopyMultipartCrossClients(path),
        ),
        ObjCommand::Restore { bucket, key, restore_days, restore_tier } => Ok(
            Operation::Restore { bucket, key, restore_days, restore_tier },
        ),
    }
}

/// Where a client finds the service.
#[derive(Debug)]
pub struct Endpoint {
    pub region: Option<String>,
    pub endpoint_url: Option<String>,
    pub profile: Option<String>,
}

/// The options that all commands share.
#[derive(Debug)]
pub struct GlobalOptions {
    /// Where the client finds the service; for a copy between clients, the source's client.
    pub endpoint: Endpoint,
    pub read_timeout: u64,
    pub max_retries: usize,
    pub retriable_client_status_codes: Vec<u16>,
    pub multipart_part_size: u64,
    pub multipart_workers: usize,
    pub json: bool,
}

/// The settings of a client: where it finds the service is its own, and the rest is shared.
pub fn client_config(options: &GlobalOptions, endpoint: &Endpoint) -> (config: S3ClientConfig)
    ensures
        config.region.deep_view() == endpoint.region.deep_view(),
        config.endpoint_url.deep_view() == endpoint.endpoint_url.deep_view(),
        config.profile_name.deep_view() == endpoint.profile.deep_view(),
        config.access_secret_session_tuple is None,
        config.read_timeout_secs == options.read_timeout,
        config.multipart_part_size == options.multipart_part_size,
        config.multipart_workers == options.multipart_workers,
{
    S3ClientConfig {
        region: endpoint.region.clone(),
        endpoint_url: endpoint.endpoint_url.clone(),
        profile_name: endpoint.profile.clone(),
        access_secret_session_tuple: None,
        read_timeout_secs: options.read_timeout,
        multipart_part_size: options.multipart_part_size,
        multipart_workers: options.multipart_workers,
    }
}

/// The retry settings of every client.
pub fn retry_config(options: &GlobalOptions) -> (config: RetryConfig)
    ensures
        config.max_retries == options.max_retries,
        config.retry_strategy == RetryStrategy::ExponentialBackoff,
        config.retriable_client_status_codes@ == options.retriable_client_status_codes@,
{
    let mut codes: Vec<u16> = Vec::new();
    let mut i: usize = 0;
    while i < options.retriable_client_status_codes.len()
        invariant
            i <= options.retriable_client_status_codes@.len(),
            codes@ == options.retriable_client_status_codes@.take(i as int),
        decreases options.retriable_client_status_codes@.len() - i,
    {
        codes.push(options.retriable_client_status_codes[i]);
        i = i + 1;
    }
    RetryConfig {
        max_retries: options.max_retries,
        retry_strategy: RetryStrategy::ExponentialBackoff,
        retriable_client_status_codes: codes,
    }
}

/// Whether progress is shown: not among logs for machines.
pub fn shows_progress(options: &GlobalOptions) -> (shows: bool)
    ensures
        shows == !options.json,
{
    !options.json
}

/// A command has the client do what it says, to the object, file and storage class that it names. A
/// slice is downloaded exactly if both its offsets are given.
pub proof fn lemma_command_is_done_as_it_says(command: ObjCommand)
    ensures
        match (command, command.operation()) {
            (
                ObjCommand::Head { bucket, key },
                Ok(OperationView::Head { bucket: b, key: k }),
            ) => b == bucket@ && k == key@,
            (
                ObjCommand::Download { bucket, key, local_path, start_offset, end_offset },
                Ok(OperationView::Download { bucket: b, key: k, local_path: p, start_end_offsets }),
            ) => {
                &&& b == bucket@ && k == key@
                &&& local_path matches Some(path) ==> p == path@
                &&& match start_end_offsets {
                    Some((start, end)) => start_offset == Some(start) && end_offset == Some(end),
                    None => start_offset is None || end_offset is None,
                }
            },
            (
                ObjCommand::DownloadMultipart { bucket, key, local_path },
                Ok(OperationView::DownloadMultipart { bucket: b, key: k, local_path: p }),
            ) => b == bucket@ && k == key@ && (local_path matches Some(path) ==> p == path@),
            (
                ObjCommand::Download { key, local_path, .. }
                | ObjCommand::DownloadMultipart { key, local_path, .. },
                Err(error),
            ) => local_path is None && local_path::final_name(key@) is None && error
                == ToolErrorView::NoFileName,
            (
                ObjCommand::Upload { bucket, key, local_path, storage_class },
                Ok(OperationView::Upload { bucket: b, key: k, local_path: p, storage_class: class }),
            )
            | (
                ObjCommand::UploadMultipart { bucket, key, local_path, storage_class },
                Ok(
                    OperationView::UploadMultipart {
                        bucket: b,
                        key: k,
                        local_path: p,
                        storage_class: class,
                    },
                ),
            ) => b == bucket@ && k == key@ && p == local_path@ && class
                == storage_class.deep_view(),
            (
                ObjCommand::Delete { bucket, key },
                Ok(OperationView::Delete { bucket: b, key: k }),
            ) => b == bucket@ && k == key@,
            (ObjCommand::Copy(path), Ok(OperationView::Copy(p)))
            | (ObjCommand::CopyMultipart(path), Ok(OperationView::CopyMultipart(p)))
            | (
                ObjCommand::CopyMultipartCrossClients(path),
                Ok(OperationView::CopyMultipartCrossClients(p)),
            ) => {
                &&& p.src_bucket == path.src_bucket@ && p.src_key == path.src_key@
                &&& p.dst_bucket == path.dst_bucket@ && p.dst_key == path.dst_key@
                &&& p.dst_storage_class == path.dst_storage_class.deep_view()
            },
            (
                ObjCommand::Restore { bucket, key, restore_days, restore_tier },
                Ok(
                    OperationView::Restore {
                        bucket: b,
                        key: k,
                        restore_days: days,
                        restore_tier: tier,
                    },
                ),
            ) => b == bucket@ && k == key@ && days == restore_days && tier == restore_tier@,
            _ => false,
        },
{
}

/// A download that names no local path goes to what stands behind the last slash of the key.
pub proof fn lemma_download_is_named_after_the_key(dir: Seq<char>, name: Seq<char>)
    requires
        name.len() > 0,
        !name.contains('/'),
        name != seq!['.'],
        name != seq!['.', '.'],
    ensures
        download_path(None, name) == Ok::<Seq<char>, ToolErrorView>(name),
        download_path(None, dir + seq!['/'] + name) == Ok::<Seq<char>, ToolErrorView>(name),
{
    local_path::lemma_file_name_stands_behind_the_last_slash(dir, name);
}

} // verus!

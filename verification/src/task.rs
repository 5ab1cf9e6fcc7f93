//! What a batch does for one key.

use crate::batch;
use crate::batch::{
    is_copied, plan_copy, plan_download, plan_upload, FoundObject, FoundObjectView, LocalFile,
};
use crate::error;
use crate::error::{S3Error, S3ErrorView};
use crate::local_path;
use crate::local_path::{local_path_for_key, parent_directory};
use crate::manifest;
use crate::object::{ObjectInfo, ObjectInfoView};
use crate::operation::{CopyPath, CopyPathView, Operation, OperationView};
use crate::text;
use crate::time::Timestamp;
use crate::tool_error::{ToolError, ToolErrorView};
use vstd::prelude::*;

verus! {

/// From where to where a batch copies.
#[derive(Clone, Debug)]
pub struct CsvCopy {
    pub src_bucket: String,
    pub src_prefix: String,
    pub src_suffix: String,
    pub dst_bucket: String,
    pub dst_prefix: String,
    pub dst_suffix: String,
    pub dst_storage_class: Option<String>,
}

/// The operation that a batch does for each key. An object's key is the key in the manifest
/// between a prefix and a suffix.
#[derive(Clone, Debug)]
pub enum CsvCommand {
    Head { bucket: String, prefix: String, suffix: String },
    Download { bucket: String, prefix: String, suffix: String, local_dir: String },
    Upload {
        bucket: String,
        prefix: String,
        suffix: String,
        local_dir: String,
        storage_class: Option<String>,
    },
    Delete { bucket: String, prefix: String, suffix: String },
    Copy(CsvCopy),
    CopyCrossClients(CsvCopy),
    Restore {
        bucket: String,
        prefix: String,
        suffix: String,
        restore_tier: String,
        restore_days: i32,
    },
}

/// What there is to do for one key.
#[derive(Debug)]
pub enum Job {
    /// Show an object, under a name.
    Head { bucket: String, key: String, display_key: String },
    Download { bucket: String, key: String, local_path: String },
    Upload { bucket: String, key: String, local_path: String, storage_class: Option<String> },
    Copy { path: CopyPath, across_clients: bool },
    Delete { bucket: String, key: String },
    Restore { bucket: String, key: String, restore_days: i32, restore_tier: String },
}

/// The model of [`Job`].
pub enum JobView {
    Head { bucket: Seq<char>, key: Seq<char>, display_key: Seq<char> },
    Download { bucket: Seq<char>, key: Seq<char>, local_path: Seq<char> },
    Upload {
        bucket: Seq<char>,
        key: Seq<char>,
        local_path: Seq<char>,
        storage_class: Option<Seq<char>>,
    },
    Copy { path: CopyPathView, across_clients: bool },
    Delete { bucket: Seq<char>, key: Seq<char> },
    Restore { bucket: Seq<char>, key: Seq<char>, restore_days: i32, restore_tier: Seq<char> },
}

impl View for Job {
    type V = JobView;

    open spec fn view(&self) -> JobView {
        match self {
            Job::Head { bucket, key, display_key } => JobView::Head {
                bucket: bucket@,
                key: key@,
                display_key: display_key@,
            },
            Job::Download { bucket, key, local_path } => JobView::Download {
                bucket: bucket@,
                key: key@,
                local_path: local_path@,
            },
            Job::Upload { bucket, key, local_path, storage_class } => JobView::Upload {
                bucket: bucket@,
                key: key@,
                local_path: local_path@,
                storage_class: storage_class.deep_view(),
            },
            Job::Copy { path, across_clients } => JobView::Copy {
                path: path@,
                across_clients: *across_clients,
            },
            Job::Delete { bucket, key } => JobView::Delete { bucket: bucket@, key: key@ },
            Job::Restore { bucket, key, restore_days, restore_tier } => JobView::Restore {
                bucket: bucket@,
                key: key@,
                restore_days: *restore_days,
                restore_tier: restore_tier@,
            },
        }
    }
}

/// An object's key.
pub open spec fn full_key(prefix: String, key: Seq<char>, suffix: String) -> Seq<char> {
    prefix@ + key + suffix@
}

/// From where to where the object of a key is copied.
pub open spec fn copy_path(copy: CsvCopy, key: Seq<char>) -> CopyPathView {
    CopyPathView {
        src_bucket: copy.src_bucket@,
        src_key: full_key(copy.src_prefix, key, copy.src_suffix),
        dst_bucket: copy.dst_bucket@,
        dst_key: full_key(copy.dst_prefix, key, copy.dst_suffix),
        dst_storage_class: copy.dst_storage_class.deep_view(),
    }
}

impl CsvCommand {
    /// What there is to do for one key. Local files have the key's name, without prefix and
    /// suffix, and so has an object that is shown, but for the prefix.
    pub open spec fn job(self, key: Seq<char>) -> Result<JobView, ToolErrorView> {
        match self {
            CsvCommand::Head { bucket, prefix, suffix } => Ok(
                JobView::Head {
                    bucket: bucket@,
                    key: full_key(prefix, key, suffix),
                    display_key: key + suffix@,
                },
            ),
            CsvCommand::Download { bucket, prefix, suffix, local_dir } => {
                match local_path::key_path(local_dir@, key) {
                    Ok(local_path) => Ok(
                        JobView::Download {
                            bucket: bucket@,
                            key: full_key(prefix, key, suffix),
                            local_path,
                        },
                    ),
                    Err(error) => Err(error),
                }
            },
            CsvCommand::Upload { bucket, prefix, suffix, local_dir, storage_class } => {
                match local_path::key_path(local_dir@, key) {
                    Ok(local_path) => Ok(
                        JobView::Upload {
                            bucket: bucket@,
                            key: full_key(prefix, key, suffix),
                            local_path,
                            storage_class: storage_class.deep_view(),
                        },
                    ),
                    Err(error) => Err(error),
                }
            },
            CsvCommand::Delete { bucket, prefix, suffix } => Ok(
                JobView::Delete { bucket: bucket@, key: full_key(prefix, key, suffix) },
            ),
            CsvCommand::Copy(copy) => Ok(
                JobView::Copy { path: copy_path(copy, key), across_clients: false },
            ),
            CsvCommand::CopyCrossClients(copy) => Ok(
                JobView::Copy { path: copy_path(copy, key), across_clients: true },
            ),
            CsvCommand::Restore { bucket, prefix, suffix, restore_tier, restore_days } => Ok(
                JobView::Restore {
                    bucket: bucket@,
                    key: full_key(prefix, key, suffix),
                    restore_days,
                    restore_tier: restore_tier@,
                },
            ),
        }
    }
}

/// The result of finding out what there is to do, as the contracts see it.
pub open spec fn job_result(r: Result<Job, ToolError>) -> Result<JobView, ToolErrorView> {
    match r {
        Ok(job) => Ok(job@),
        Err(e) => Err(e@),
    }
}

/// An object's key.
fn make_full_key(prefix: &String, key: &str, suffix: &String) -> (full: String)
    ensures
        full@ == full_key(*prefix, key@, *suffix),
{
    prefix.clone().concat(key).concat(suffix.as_str())
}

/// From where to where the object of a key is copied.
fn make_copy_path(copy: &CsvCopy, key: &str) -> (path: CopyPath)
    ensures
        path@ == copy_path(*copy, key@),
{
    CopyPath {
        src_bucket: copy.src_bucket.clone(),
        src_key: make_full_key(&copy.src_prefix, key, &copy.src_suffix),
        dst_bucket: copy.dst_bucket.clone(),
        dst_key: make_full_key(&copy.dst_prefix, key, &copy.dst_suffix),
        dst_storage_class: copy.dst_storage_class.clone(),
    }
}

/// What a batch has to do for one key.
pub fn job_for_key(command: &CsvCommand, key: &str) -> (job: Result<Job, ToolError>)
    ensures
        job_result(job) == command.job(key@),
{
    match command {
        CsvCommand::Head { bucket, prefix, suffix } => Ok(
            Job::Head {
                bucket: bucket.clone(),
                key: make_full_key(prefix, key, suffix),
                display_key: key.to_owned().concat(suffix.as_str()),
            },
        ),
        CsvCommand::Download { bucket, prefix, suffix, local_dir } => {
            match local_path_for_key(local_dir.as_str(), key) {
                Ok(local_path) => Ok(
                    Job::Download {
                        bucket: bucket.clone(),
                        key: make_full_key(prefix, key, suffix),
                        local_path,
                    },
                ),
                Err(error) => Err(error),
            }
        },
        CsvCommand::Upload { bucket, prefix, suffix, local_dir, storage_class } => {
            match local_path_for_key(local_dir.as_str(), key) {
                Ok(local_path) => Ok(
                    Job::Upload {
                        bucket: bucket.clone(),
                        key: make_full_key(prefix, key, suffix),
                        local_path,
                        storage_class: storage_class.clone(),
                    },
                ),
                Err(error) => Err(error),
            }
        },
        CsvCommand::Delete { bucket, prefix, suffix } => Ok(
            Job::Delete { bucket: bucket.clone(), key: make_full_key(prefix, key, suffix) },
        ),
        CsvCommand::Copy(copy) => Ok(
            Job::Copy { path: make_copy_path(copy, key), across_clients: false },
        ),
        CsvCommand::CopyCrossClients(copy) => Ok(
            Job::Copy { path: make_copy_path(copy, key), across_clients: true },
        ),
        CsvCommand::Restore { bucket, prefix, suffix, restore_tier, restore_days } => Ok(
            Job::Restore {
                bucket: bucket.clone(),
                key: make_full_key(prefix, key, suffix),
                restore_days: *restore_days,
                restore_tier: restore_tier.clone(),
            },
        ),
    }
}

/// What a look at a local file brought.
#[derive(Debug)]
pub enum LocalRead {
    /// The file is there. Its time of modification may not be known.
    Found { size: u64, modified: Result<Timestamp, String> },
    /// The file is not there.
    Missing(String),
    /// The file could not be looked at.
    Failed(String),
}

/// The model of [`LocalRead`].
pub enum LocalReadView {
    Found { size: u64, modified: Result<Timestamp, Seq<char>> },
    Missing(Seq<char>),
    Failed(Seq<char>),
}

impl View for LocalRead {
    type V = LocalReadView;

    open spec fn view(&self) -> LocalReadView {
        match self {
            LocalRead::Found { size, modified } => LocalReadView::Found {
                size: *size,
                modified: match modified {
                    Ok(time) => Ok(*time),
                    Err(e) => Err(e@),
                },
            },
            LocalRead::Missing(e) => LocalReadView::Missing(e@),
            LocalRead::Failed(e) => LocalReadView::Failed(e@),
        }
    }
}

/// What a task waits for.
#[derive(Debug)]
pub enum TaskStage {
    /// The object, at the source.
    Heading,
    /// The local file that a download would replace.
    ReadingLocal { found: FoundObject },
    /// The directory that a download of this size goes to.
    CreatingDirectory { directory: String, size: u64 },
    /// The local file that is to be uploaded.
    Measuring,
    /// The object that an upload of this file would replace.
    ComparingUpload { file: LocalFile },
    /// The object that a copy of an object of this size would replace.
    ComparingCopy { size: u64 },
    /// The operation.
    Performing,
    /// Nothing.
    Finished,
}

/// The model of [`TaskStage`].
pub enum TaskStageView {
    Heading,
    ReadingLocal { found: FoundObjectView },
    CreatingDirectory { directory: Seq<char>, size: u64 },
    Measuring,
    ComparingUpload { file: LocalFile },
    ComparingCopy { size: u64 },
    Performing,
    Finished,
}

impl View for TaskStage {
    type V = TaskStageView;

    open spec fn view(&self) -> TaskStageView {
        match self {
            TaskStage::Heading => TaskStageView::Heading,
            TaskStage::ReadingLocal { found } => TaskStageView::ReadingLocal { found: found@ },
            TaskStage::CreatingDirectory { directory, size } => TaskStageView::CreatingDirectory {
                directory: directory@,
                size: *size,
            },
            TaskStage::Measuring => TaskStageView::Measuring,
            TaskStage::ComparingUpload { file } => TaskStageView::ComparingUpload { file: *file },
            TaskStage::ComparingCopy { size } => TaskStageView::ComparingCopy { size: *size },
            TaskStage::Performing => TaskStageView::Performing,
            TaskStage::Finished => TaskStageView::Finished,
        }
    }
}

/// What has happened since the last action.
#[derive(Debug)]
pub enum TaskEvent {
    /// An object was looked up.
    Headed(Result<FoundObject, S3Error>),
    /// A local file was looked at.
    LocalFileRead(LocalRead),
    /// A directory was created, or not.
    DirectoryCreated(Result<(), String>),
    /// The operation was performed, or not.
    Performed(Result<(), S3Error>),
}

/// The model of [`TaskEvent`].
pub enum TaskEventView {
    Headed(Result<FoundObjectView, S3ErrorView>),
    LocalFileRead(LocalReadView),
    DirectoryCreated(Result<(), Seq<char>>),
    Performed(Result<(), S3ErrorView>),
}

impl View for TaskEvent {
    type V = TaskEventView;

    open spec fn view(&self) -> TaskEventView {
        match self {
            TaskEvent::Headed(r) => TaskEventView::Headed(
                match r {
                    Ok(found) => Ok(found@),
                    Err(e) => Err(e@),
                },
            ),
            TaskEvent::LocalFileRead(read) => TaskEventView::LocalFileRead(read@),
            TaskEvent::DirectoryCreated(r) => TaskEventView::DirectoryCreated(
                match r {
                    Ok(done) => Ok(*done),
                    Err(e) => Err(e@),
                },
            ),
            TaskEvent::Performed(r) => TaskEventView::Performed(error::result_view(*r)),
        }
    }
}

/// How a task ended well.
#[derive(Debug)]
pub enum Outcome {
    /// An object is to be shown, under a name.
    Shown { display_key: String, info: ObjectInfo },
    /// Nothing had to be done, for a reason that may be shown.
    Skipped(String),
    /// The operation was performed.
    Performed,
}

/// The model of [`Outcome`].
pub enum OutcomeView {
    Shown { display_key: Seq<char>, info: ObjectInfoView },
    Skipped(Seq<char>),
    Performed,
}

impl View for Outcome {
    type V = OutcomeView;

    open spec fn view(&self) -> OutcomeView {
        match self {
            Outcome::Shown { display_key, info } => OutcomeView::Shown {
                display_key: display_key@,
                info: info@,
            },
            Outcome::Skipped(reason) => OutcomeView::Skipped(reason@),
            Outcome::Performed => OutcomeView::Performed,
        }
    }
}

/// What to do next.
#[derive(Debug)]
pub enum TaskAction {
    /// Look an object up, with the source's client or with the destination's.
    Head { bucket: String, key: String, at_destination: bool },
    /// Look at a local file.
    ReadLocalFile { path: String },
    /// Create a directory, with those that it lies in.
    CreateDirectory { path: String },
    /// Perform an operation.
    Perform(Operation),
    /// The task is over.
    Finish(Result<Outcome, ToolError>),
}

/// The model of [`TaskAction`].
pub enum TaskActionView {
    Head { bucket: Seq<char>, key: Seq<char>, at_destination: bool },
    ReadLocalFile { path: Seq<char> },
    CreateDirectory { path: Seq<char> },
    Perform(OperationView),
    Finish(Result<OutcomeView, ToolErrorView>),
}

/// The result of a task, as the contracts see it.
pub open spec fn outcome_result(r: Result<Outcome, ToolError>) -> Result<
    OutcomeView,
    ToolErrorView,
> {
    match r {
        Ok(outcome) => Ok(outcome@),
        Err(e) => Err(e@),
    }
}

impl View for TaskAction {
    type V = TaskActionView;

    open spec fn view(&self) -> TaskActionView {
        match self {
            TaskAction::Head { bucket, key, at_destination } => TaskActionView::Head {
                bucket: bucket@,
                key: key@,
                at_destination: *at_destination,
            },
            TaskAction::ReadLocalFile { path } => TaskActionView::ReadLocalFile { path: path@ },
            TaskAction::CreateDirectory { path } => TaskActionView::CreateDirectory { path: path@ },
            TaskAction::Perform(operation) => TaskActionView::Perform(operation@),
            TaskAction::Finish(r) => TaskActionView::Finish(outcome_result(*r)),
        }
    }
}

/// The work on one key of a batch.
#[derive(Debug)]
pub struct Task {
    job: Job,
    /// Whether what exists at the destination and seems unchanged is left alone.
    skip_existing: bool,
    stage: TaskStage,
}

/// The model of [`Task`].
pub struct TaskView {
    pub job: JobView,
    pub skip_existing: bool,
    pub stage: TaskStageView,
}

impl View for Task {
    type V = TaskView;

    closed spec fn view(&self) -> TaskView {
        TaskView { job: self.job@, skip_existing: self.skip_existing, stage: self.stage@ }
    }
}

impl TaskView {
    /// The same task at another stage.
    pub open spec fn at(self, stage: TaskStageView) -> TaskView {
        TaskView { stage, ..self }
    }

    /// The task is over.
    pub open spec fn finished(self, result: Result<OutcomeView, ToolErrorView>) -> (
        TaskView,
        TaskActionView,
    ) {
        (self.at(TaskStageView::Finished), TaskActionView::Finish(result))
    }

    /// The task is over without anything having been done.
    pub open spec fn skipped(self, reason: Seq<char>) -> (TaskView, TaskActionView) {
        self.finished(Ok(OutcomeView::Skipped(reason)))
    }

    /// The task failed at the service.
    pub open spec fn failed(self, context: Seq<char>, error: S3ErrorView) -> (
        TaskView,
        TaskActionView,
    ) {
        self.finished(Err(ToolErrorView::Service(Some(context), error)))
    }

    /// Performs the operation.
    pub open spec fn perform(self, operation: OperationView) -> (TaskView, TaskActionView) {
        (self.at(TaskStageView::Performing), TaskActionView::Perform(operation))
    }

    /// What a failure of the operation is reported as.
    pub open spec fn perform_context(self) -> Seq<char> {
        match self.job {
            JobView::Head { key, .. } => "heading key "@ + key,
            JobView::Download { key, .. } => "downloading object "@ + key,
            JobView::Upload { key, .. } => "uploading object "@ + key,
            JobView::Copy { path, across_clients } => if across_clients {
                "copying object across clients from "@ + path.src_key + " to "@ + path.dst_key
            } else {
                "copying object "@ + path.dst_key
            },
            JobView::Delete { key, .. } => "deleting object "@ + key,
            JobView::Restore { key, .. } => "restoring object "@ + key,
        }
    }

    /// What to do first.
    pub open spec fn first(self) -> (TaskView, TaskActionView) {
        match self.job {
            JobView::Head { bucket, key, .. } | JobView::Download { bucket, key, .. } => (
                self.at(TaskStageView::Heading),
                TaskActionView::Head { bucket, key, at_destination: false },
            ),
            JobView::Upload { local_path, .. } => (
                self.at(TaskStageView::Measuring),
                TaskActionView::ReadLocalFile { path: local_path },
            ),
            JobView::Copy { path, .. } => (
                self.at(TaskStageView::Heading),
                TaskActionView::Head {
                    bucket: path.src_bucket,
                    key: path.src_key,
                    at_destination: false,
                },
            ),
            JobView::Delete { bucket, key } => self.perform(OperationView::Delete { bucket, key }),
            JobView::Restore { bucket, key, restore_days, restore_tier } => self.perform(
                OperationView::Restore { bucket, key, restore_days, restore_tier },
            ),
        }
    }

    /// What a download does once it is clear that it has to be made: it first creates the
    /// directory that the file goes to.
    pub open spec fn start_download(self, local_path: Seq<char>, size: u64) -> (
        TaskView,
        TaskActionView,
    ) {
        match local_path::parent(local_path) {
            None => self.finished(Err(ToolErrorView::NoParent(local_path))),
            Some(directory) => (
                self.at(TaskStageView::CreatingDirectory { directory, size }),
                TaskActionView::CreateDirectory { path: directory },
            ),
        }
    }

    /// What to do with what was found at the source.
    pub open spec fn headed(self, headed: Result<FoundObjectView, S3ErrorView>) -> Option<
        (TaskView, TaskActionView),
    > {
        match (self.job, headed) {
            (JobView::Head { key, .. }, Err(error)) => Some(
                self.failed("heading key "@ + key, error),
            ),
            (JobView::Head { display_key, .. }, Ok(found)) => Some(
                self.finished(Ok(OutcomeView::Shown { display_key, info: found.info })),
            ),
            (JobView::Download { key, .. }, Err(error)) => Some(
                self.failed("heading key "@ + key, error),
            ),
            (JobView::Download { local_path, .. }, Ok(found)) => Some(
                if self.skip_existing {
                    (
                        self.at(TaskStageView::ReadingLocal { found }),
                        TaskActionView::ReadLocalFile { path: local_path },
                    )
                } else {
                    self.start_download(local_path, found.info.size)
                },
            ),
            (JobView::Copy { path, .. }, Err(error)) => Some(
                self.failed("heading key "@ + path.src_key + " on source"@, error),
            ),
            (JobView::Copy { path, across_clients }, Ok(found)) => Some(
                if self.skip_existing {
                    (
                        self.at(TaskStageView::ComparingCopy { size: found.info.size }),
                        TaskActionView::Head {
                            bucket: path.dst_bucket,
                            key: path.dst_key,
                            at_destination: true,
                        },
                    )
                } else {
                    self.perform(batch::copy_operation(path, found.info.size, across_clients))
                },
            ),
            _ => None,
        }
    }

    /// What a download does about the local file that it would replace.
    pub open spec fn compared_download(
        self,
        key: Seq<char>,
        local_path: Seq<char>,
        found: FoundObjectView,
        read: LocalReadView,
    ) -> (TaskView, TaskActionView) {
        match read {
            LocalReadView::Found { size, modified: Ok(modified) } => {
                if found.matches_local_file(LocalFile { size, modified }) {
                    self.skipped(key + " already exists locally. Skipping."@)
                } else {
                    self.start_download(local_path, found.info.size)
                }
            },
            LocalReadView::Found { modified: Err(error), .. } => self.finished(
                Err(ToolErrorView::Local(None, error)),
            ),
            LocalReadView::Missing(_) => self.start_download(local_path, found.info.size),
            LocalReadView::Failed(error) => self.finished(
                Err(ToolErrorView::Local(Some("reading metadata for "@ + local_path), error)),
            ),
        }
    }

    /// What an upload does with the local file.
    pub open spec fn measured(
        self,
        bucket: Seq<char>,
        key: Seq<char>,
        local_path: Seq<char>,
        storage_class: Option<Seq<char>>,
        read: LocalReadView,
    ) -> (TaskView, TaskActionView) {
        match read {
            LocalReadView::Found { size, modified: Ok(modified) } => if self.skip_existing {
                (
                    self.at(
                        TaskStageView::ComparingUpload { file: LocalFile { size, modified } },
                    ),
                    TaskActionView::Head { bucket, key, at_destination: true },
                )
            } else {
                self.perform(
                    batch::upload_operation(bucket, key, local_path, size, storage_class),
                )
            },
            LocalReadView::Found { modified: Err(error), .. } => self.finished(
                Err(ToolErrorView::Local(None, error)),
            ),
            LocalReadView::Missing(error) | LocalReadView::Failed(error) => self.finished(
                Err(ToolErrorView::Local(Some("reading metadata for "@ + local_path), error)),
            ),
        }
    }

    /// What an upload does about the object that it would replace.
    pub open spec fn compared_upload(
        self,
        bucket: Seq<char>,
        key: Seq<char>,
        local_path: Seq<char>,
        storage_class: Option<Seq<char>>,
        file: LocalFile,
        headed: Result<FoundObjectView, S3ErrorView>,
    ) -> (TaskView, TaskActionView) {
        let upload = batch::upload_operation(bucket, key, local_path, file.size, storage_class);
        match headed {
            Ok(found) => if found.matches_upload(file, storage_class) {
                self.skipped(key + " already exists on destination. Skipping."@)
            } else {
                self.perform(upload)
            },
            Err(error) => if error.is_not_found() {
                self.perform(upload)
            } else {
                self.failed("heading key "@ + key + " on destination"@, error)
            },
        }
    }

    /// What a copy does about the object that it would replace.
    pub open spec fn compared_copy(
        self,
        path: CopyPathView,
        across_clients: bool,
        size: u64,
        headed: Result<FoundObjectView, S3ErrorView>,
    ) -> (TaskView, TaskActionView) {
        let copy = batch::copy_operation(path, size, across_clients);
        match headed {
            Ok(found) => if batch::matches_copy(size, found.info, path.dst_storage_class) {
                self.skipped(path.dst_key + " already exists on destination. Skipping."@)
            } else {
                self.perform(copy)
            },
            Err(error) => if error.is_not_found() {
                self.perform(copy)
            } else {
                self.failed("heading key "@ + path.dst_key + " on destination"@, error)
            },
        }
    }

    /// What to do next, if the event is one that the task waits for.
    pub open spec fn step(self, event: TaskEventView) -> Option<(TaskView, TaskActionView)> {
        match (self.stage, self.job, event) {
            (TaskStageView::Heading, _, TaskEventView::Headed(headed)) => self.headed(headed),
            (
                TaskStageView::ReadingLocal { found },
                JobView::Download { key, local_path, .. },
                TaskEventView::LocalFileRead(read),
            ) => Some(self.compared_download(key, local_path, found, read)),
            (
                TaskStageView::CreatingDirectory { directory, size },
                JobView::Download { bucket, key, local_path },
                TaskEventView::DirectoryCreated(created),
            ) => Some(
                match created {
                    Ok(_) => self.perform(
                        batch::download_operation(bucket, key, local_path, size),
                    ),
                    Err(error) => self.finished(
                        Err(
                            ToolErrorView::Local(Some("creating directory "@ + directory), error),
                        ),
                    ),
                },
            ),
            (
                TaskStageView::Measuring,
                JobView::Upload { bucket, key, local_path, storage_class },
                TaskEventView::LocalFileRead(read),
            ) => Some(self.measured(bucket, key, local_path, storage_class, read)),
            (
                TaskStageView::ComparingUpload { file },
                JobView::Upload { bucket, key, local_path, storage_class },
                TaskEventView::Headed(headed),
            ) => Some(
                self.compared_upload(bucket, key, local_path, storage_class, file, headed),
            ),
            (
                TaskStageView::ComparingCopy { size },
                JobView::Copy { path, across_clients },
                TaskEventView::Headed(headed),
            ) => Some(self.compared_copy(path, across_clients, size, headed)),
            (TaskStageView::Performing, _, TaskEventView::Performed(performed)) => Some(
                match performed {
                    Ok(_) => self.finished(Ok(OutcomeView::Performed)),
                    Err(error) => self.failed(self.perform_context(), error),
                },
            ),
            _ => None,
        }
    }
}

/// The result of taking in an event, as the contracts see it.
pub open spec fn step_result(task: Task, action: Option<TaskAction>) -> Option<
    (TaskView, TaskActionView),
> {
    match action {
        Some(action) => Some((task@, action@)),
        None => None,
    }
}

/// A stage and an action that go with a task, as the contracts see them.
spec fn applied(task: TaskView, step: (TaskStage, TaskAction)) -> (TaskView, TaskActionView) {
    (task.at(step.0@), step.1@)
}

/// The task is over.
fn finish(result: Result<Outcome, ToolError>) -> (step: (TaskStage, TaskAction))
    ensures
        step.0@ is Finished,
        step.1@ == TaskActionView::Finish(outcome_result(result)),
{
    (TaskStage::Finished, TaskAction::Finish(result))
}

/// The task is over without anything having been done.
fn skip(reason: String) -> (step: (TaskStage, TaskAction))
    ensures
        step.0@ is Finished,
        step.1@ == TaskActionView::Finish(Ok(OutcomeView::Skipped(reason@))),
{
    finish(Ok(Outcome::Skipped(reason)))
}

/// The task failed at the service.
fn fail(context: String, error: S3Error) -> (step: (TaskStage, TaskAction))
    ensures
        step.0@ is Finished,
        step.1@ == TaskActionView::Finish(Err(ToolErrorView::Service(Some(context@), error@))),
{
    finish(Err(ToolError::Service(Some(context), error)))
}

/// The task failed at a local file, where something is said of what was done.
fn fail_locally(context: String, error: String) -> (step: (TaskStage, TaskAction))
    ensures
        step.0@ is Finished,
        step.1@ == TaskActionView::Finish(Err(ToolErrorView::Local(Some(context@), error@))),
{
    finish(Err(ToolError::Local(Some(context), error)))
}

/// Performs the operation.
fn perform(operation: Operation) -> (step: (TaskStage, TaskAction))
    ensures
        step.0@ is Performing,
        step.1@ == TaskActionView::Perform(operation@),
{
    (TaskStage::Performing, TaskAction::Perform(operation))
}

/// What a download does once it is clear that it has to be made.
fn start_download(Ghost(task): Ghost<TaskView>, local_path: &str, size: u64) -> (step: (
    TaskStage,
    TaskAction,
))
    ensures
        applied(task, step) == task.start_download(local_path@, size),
{
    match parent_directory(local_path) {
        None => finish(Err(ToolError::NoParent(local_path.to_owned()))),
        Some(directory) => {
            let path = directory.clone();
            (
                TaskStage::CreatingDirectory { directory, size },
                TaskAction::CreateDirectory { path },
            )
        },
    }
}

/// The same path, once more.
fn clone_path(path: &CopyPath) -> (cloned: CopyPath)
    ensures
        cloned@ == path@,
{
    CopyPath {
        src_bucket: path.src_bucket.clone(),
        src_key: path.src_key.clone(),
        dst_bucket: path.dst_bucket.clone(),
        dst_key: path.dst_key.clone(),
        dst_storage_class: path.dst_storage_class.clone(),
    }
}

/// What a download does about the local file that it would replace.
fn compare_download(
    Ghost(task): Ghost<TaskView>,
    key: &str,
    local_path: &str,
    found: FoundObject,
    read: LocalRead,
) -> (step: (TaskStage, TaskAction))
    ensures
        applied(task, step) == task.compared_download(key@, local_path@, found@, read@),
{
    match read {
        LocalRead::Found { size, modified } => match modified {
            Ok(modified) => {
                let file = LocalFile { size, modified };
                if found.matches_local_file(&file) {
                    skip(key.to_owned().concat(" already exists locally. Skipping."))
                } else {
                    start_download(Ghost(task), local_path, found.info.size)
                }
            },
            Err(error) => finish(Err(ToolError::Local(None, error))),
        },
        LocalRead::Missing(_) => start_download(Ghost(task), local_path, found.info.size),
        LocalRead::Failed(error) => fail_locally(
            "reading metadata for ".to_owned().concat(local_path),
            error,
        ),
    }
}

/// What an upload does with the local file.
fn measure(
    Ghost(task): Ghost<TaskView>,
    skip_existing: bool,
    bucket: &str,
    key: &str,
    local_path: &str,
    storage_class: &Option<String>,
    read: LocalRead,
) -> (step: (TaskStage, TaskAction))
    requires
        skip_existing == task.skip_existing,
    ensures
        applied(task, step) == task.measured(
            bucket@,
            key@,
            local_path@,
            storage_class.deep_view(),
            read@,
        ),
{
    match read {
        LocalRead::Found { size, modified } => match modified {
            Ok(modified) => {
                if skip_existing {
                    (
                        TaskStage::ComparingUpload { file: LocalFile { size, modified } },
                        TaskAction::Head {
                            bucket: bucket.to_owned(),
                            key: key.to_owned(),
                            at_destination: true,
                        },
                    )
                } else {
                    perform(plan_upload(bucket, key, local_path, size, storage_class))
                }
            },
            Err(error) => finish(Err(ToolError::Local(None, error))),
        },
        LocalRead::Missing(error) => fail_locally(
            "reading metadata for ".to_owned().concat(local_path),
            error,
        ),
        LocalRead::Failed(error) => fail_locally(
            "reading metadata for ".to_owned().concat(local_path),
            error,
        ),
    }
}

/// What an upload does about the object that it would replace.
fn compare_upload(
    Ghost(task): Ghost<TaskView>,
    bucket: &str,
    key: &str,
    local_path: &str,
    storage_class: &Option<String>,
    file: LocalFile,
    headed: Result<FoundObject, S3Error>,
) -> (step: (TaskStage, TaskAction))
    ensures
        applied(task, step) == task.compared_upload(
            bucket@,
            key@,
            local_path@,
            storage_class.deep_view(),
            file,
            match headed {
                Ok(found) => Ok(found@),
                Err(e) => Err(e@),
            },
        ),
{
    let upload = plan_upload(bucket, key, local_path, file.size, storage_class);
    match headed {
        Ok(found) => {
            if found.matches_upload(&file, storage_class) {
                skip(key.to_owned().concat(" already exists on destination. Skipping."))
            } else {
                perform(upload)
            }
        },
        Err(error) => {
            if error.is_not_found() {
                perform(upload)
            } else {
                fail(
                    "heading key ".to_owned().concat(key).concat(" on destination"),
                    error,
                )
            }
        },
    }
}

/// What a copy does about the object that it would replace.
fn compare_copy(
    Ghost(task): Ghost<TaskView>,
    path: &CopyPath,
    across_clients: bool,
    size: u64,
    headed: Result<FoundObject, S3Error>,
) -> (step: (TaskStage, TaskAction))
    ensures
        applied(task, step) == task.compared_copy(
            path@,
            across_clients,
            size,
            match headed {
                Ok(found) => Ok(found@),
                Err(e) => Err(e@),
            },
        ),
{
    let copy = plan_copy(clone_path(path), size, across_clients);
    match headed {
        Ok(found) => {
            if is_copied(size, &found.info, &path.dst_storage_class) {
                skip(path.dst_key.clone().concat(" already exists on destination. Skipping."))
            } else {
                perform(copy)
            }
        },
        Err(error) => {
            if error.is_not_found() {
                perform(copy)
            } else {
                fail(
                    "heading key ".to_owned().concat(path.dst_key.as_str()).concat(
                        " on destination",
                    ),
                    error,
                )
            }
        },
    }
}

/// What a copy does with what was found at the source.
fn copy_headed(
    Ghost(task): Ghost<TaskView>,
    skip_existing: bool,
    path: &CopyPath,
    across_clients: bool,
    headed: Result<FoundObject, S3Error>,
) -> (step: (TaskStage, TaskAction))
    requires
        skip_existing == task.skip_existing,
        task.job == (JobView::Copy { path: path@, across_clients }),
    ensures
        task.headed(
            match headed {
                Ok(found) => Ok(found@),
                Err(e) => Err(e@),
            },
        ) == Some(applied(task, step)),
{
    match headed {
        Err(error) => fail(
            "heading key ".to_owned().concat(path.src_key.as_str()).concat(" on source"),
            error,
        ),
        Ok(found) => {
            if skip_existing {
                (
                    TaskStage::ComparingCopy { size: found.info.size },
                    TaskAction::Head {
                        bucket: path.dst_bucket.clone(),
                        key: path.dst_key.clone(),
                        at_destination: true,
                    },
                )
            } else {
                perform(plan_copy(clone_path(path), found.info.size, across_clients))
            }
        },
    }
}

impl Task {
    /// Starts the work on a key, and says what to do first.
    pub fn start(job: Job, skip_existing: bool) -> (started: (Task, TaskAction))
        ensures
            (started.0@, started.1@) == (TaskView {
                job: job@,
                skip_existing,
                stage: TaskStageView::Finished,
            }).first(),
    {
        let (stage, action) = match &job {
            Job::Head { bucket, key, .. } => (
                TaskStage::Heading,
                TaskAction::Head {
                    bucket: bucket.clone(),
                    key: key.clone(),
                    at_destination: false,
                },
            ),
            Job::Download { bucket, key, .. } => (
                TaskStage::Heading,
                TaskAction::Head {
                    bucket: bucket.clone(),
                    key: key.clone(),
                    at_destination: false,
                },
            ),
            Job::Upload { local_path, .. } => (
                TaskStage::Measuring,
                TaskAction::ReadLocalFile { path: local_path.clone() },
            ),
            Job::Copy { path, .. } => (
                TaskStage::Heading,
                TaskAction::Head {
                    bucket: path.src_bucket.clone(),
                    key: path.src_key.clone(),
                    at_destination: false,
                },
            ),
            Job::Delete { bucket, key } => perform(
                Operation::Delete { bucket: bucket.clone(), key: key.clone() },
            ),
            Job::Restore { bucket, key, restore_days, restore_tier } => perform(
                Operation::Restore {
                    bucket: bucket.clone(),
                    key: key.clone(),
                    restore_days: *restore_days,
                    restore_tier: restore_tier.clone(),
                },
            ),
        };
        (Task { job, skip_existing, stage }, action)
    }

    /// What a failure of the operation is reported as.
    fn describe_perform(&self) -> (context: String)
        ensures
            context@ == self@.perform_context(),
    {
        match &self.job {
            Job::Head { key, .. } => "heading key ".to_owned().concat(key.as_str()),
            Job::Download { key, .. } => "downloading object ".to_owned().concat(key.as_str()),
            Job::Upload { key, .. } => "uploading object ".to_owned().concat(key.as_str()),
            Job::Copy { path, across_clients } => {
                if *across_clients {
                    "copying object across clients from ".to_owned().concat(
                        path.src_key.as_str(),
                    ).concat(" to ").concat(path.dst_key.as_str())
                } else {
                    "copying object ".to_owned().concat(path.dst_key.as_str())
                }
            },
            Job::Delete { key, .. } => "deleting object ".to_owned().concat(key.as_str()),
            Job::Restore { key, .. } => "restoring object ".to_owned().concat(key.as_str()),
        }
    }

    /// What to do with what was found at the source.
    fn headed(&self, headed: Result<FoundObject, S3Error>) -> (step: Option<
        (TaskStage, TaskAction),
    >)
        ensures
            self@.headed(
                match headed {
                    Ok(found) => Ok(found@),
                    Err(e) => Err(e@),
                },
            ) == (match step {
                Some(step) => Some(applied(self@, step)),
                None => None,
            }),
    {
        match &self.job {
            Job::Head { key, display_key, .. } => match headed {
                Err(error) => Some(fail("heading key ".to_owned().concat(key.as_str()), error)),
                Ok(found) => Some(
                    finish(
                        Ok(Outcome::Shown { display_key: display_key.clone(), info: found.info }),
                    ),
                ),
            },
            Job::Download { key, local_path, .. } => match headed {
                Err(error) => Some(fail("heading key ".to_owned().concat(key.as_str()), error)),
                Ok(found) => {
                    if self.skip_existing {
                        let path = local_path.clone();
                        Some(
                            (
                                TaskStage::ReadingLocal { found },
                                TaskAction::ReadLocalFile { path },
                            ),
                        )
                    } else {
                        Some(start_download(Ghost(self@), local_path.as_str(), found.info.size))
                    }
                },
            },
            Job::Copy { path, across_clients } => Some(
                copy_headed(Ghost(self@), self.skip_existing, path, *across_clients, headed),
            ),
            _ => None,
        }
    }

    /// Takes in what has happened, and says what to do next. An event that the task does not wait
    /// for changes nothing, and there is nothing to do on account of it.
    pub fn next(&mut self, event: TaskEvent) -> (action: Option<TaskAction>)
        ensures
            step_result(*final(self), action) == old(self)@.step(event@),
            action is None ==> final(self)@ == old(self)@,
    {
        let ghost task = self@;
        let mut stage = TaskStage::Finished;
        std::mem::swap(&mut stage, &mut self.stage);
        let (stage, action) = match (stage, &self.job, event) {
            (TaskStage::Heading, _, TaskEvent::Headed(headed)) => match self.headed(headed) {
                Some(step) => step,
                None => {
                    self.stage = TaskStage::Heading;
                    return None;
                },
            },
            (
                TaskStage::ReadingLocal { found },
                Job::Download { key, local_path, .. },
                TaskEvent::LocalFileRead(read),
            ) => compare_download(Ghost(task), key.as_str(), local_path.as_str(), found, read),
            (
                TaskStage::CreatingDirectory { directory, size },
                Job::Download { bucket, key, local_path },
                TaskEvent::DirectoryCreated(created),
            ) => match created {
                Ok(_) => perform(
                    plan_download(bucket.as_str(), key.as_str(), local_path.as_str(), size),
                ),
                Err(error) => fail_locally(
                    "creating directory ".to_owned().concat(directory.as_str()),
                    error,
                ),
            },
            (
                TaskStage::Measuring,
                Job::Upload { bucket, key, local_path, storage_class },
                TaskEvent::LocalFileRead(read),
            ) => measure(
                Ghost(task),
                self.skip_existing,
                bucket.as_str(),
                key.as_str(),
                local_path.as_str(),
                storage_class,
                read,
            ),
            (
                TaskStage::ComparingUpload { file },
                Job::Upload { bucket, key, local_path, storage_class },
                TaskEvent::Headed(headed),
            ) => compare_upload(
                Ghost(task),
                bucket.as_str(),
                key.as_str(),
                local_path.as_str(),
                storage_class,
                file,
                headed,
            ),
            (
                TaskStage::ComparingCopy { size },
                Job::Copy { path, across_clients },
                TaskEvent::Headed(headed),
            ) => compare_copy(Ghost(task), path, *across_clients, size, headed),
            (TaskStage::Performing, _, TaskEvent::Performed(performed)) => match performed {
                Ok(_) => finish(Ok(Outcome::Performed)),
                Err(error) => fail(self.describe_perform(), error),
            },
            (stage, _, _) => {
                self.stage = stage;
                return None;
            },
        };
        self.stage = stage;
        Some(action)
    }
}

/// The action ends a task without anything having been done.
pub open spec fn skips(action: TaskActionView) -> bool {
    action matches TaskActionView::Finish(Ok(OutcomeView::Skipped(_)))
}

/// Where a task stands and what has been done for it, once events have happened after it was
/// started. `None` if some event was not one that the task waited for.
pub open spec fn history(
    started: (TaskView, TaskActionView),
    events: Seq<TaskEventView>,
) -> Option<(TaskView, Seq<TaskActionView>)>
    decreases events.len(),
{
    if events.len() == 0 {
        Some((started.0, seq![started.1]))
    } else {
        match history(started, events.drop_last()) {
            None => None,
            Some((task, actions)) => match task.step(events.last()) {
                None => None,
                Some((next, action)) => Some((next, actions.push(action))),
            },
        }
    }
}

/// The task compares, or waits to compare, with what exists at the destination.
spec fn compares(stage: TaskStageView) -> bool {
    stage is ReadingLocal || stage is ComparingUpload || stage is ComparingCopy
}

/// By default, an existing destination is overwritten: nothing is ever skipped.
pub proof fn lemma_default_is_to_overwrite(task: TaskView, events: Seq<TaskEventView>)
    requires
        !task.skip_existing,
        history(task.first(), events) is Some,
    ensures
        !skips(history(task.first(), events).unwrap().1.last()),
{
    if events.len() > 0 {
        lemma_default_is_not_to_compare(task, events.drop_last());
    }
}

/// Where nothing is to be skipped, a task never comes to compare with what exists.
proof fn lemma_default_is_not_to_compare(task: TaskView, events: Seq<TaskEventView>)
    requires
        !task.skip_existing,
        history(task.first(), events) is Some,
    ensures
        ({
            let now = history(task.first(), events).unwrap().0;
            now.job == task.job && !now.skip_existing && !compares(now.stage)
        }),
    decreases events.len(),
{
    if events.len() > 0 {
        lemma_default_is_not_to_compare(task, events.drop_last());
    }
}

/// The operation is one that a job asks for, for an object or file of some size.
pub open spec fn is_job_operation(job: JobView, operation: OperationView) -> bool {
    match job {
        JobView::Head { .. } => false,
        JobView::Download { bucket, key, local_path } => exists|size: u64|
            operation == #[trigger] batch::download_operation(bucket, key, local_path, size),
        JobView::Upload { bucket, key, local_path, storage_class } => exists|size: u64|
            operation == #[trigger] batch::upload_operation(
                bucket,
                key,
                local_path,
                size,
                storage_class,
            ),
        JobView::Copy { path, across_clients } => exists|size: u64|
            operation == #[trigger] batch::copy_operation(path, size, across_clients),
        JobView::Delete { bucket, key } => operation == (OperationView::Delete { bucket, key }),
        JobView::Restore { bucket, key, restore_days, restore_tier } => operation == (
        OperationView::Restore { bucket, key, restore_days, restore_tier }),
    }
}

/// What holds of the operations of a task, by what it waits for.
spec fn operations_are_in_order(
    start: TaskView,
    task: TaskView,
    actions: Seq<TaskActionView>,
) -> bool {
    &&& task.job == start.job
    &&& forall|i: int|
        0 <= i < actions.len() ==> (#[trigger] actions[i] matches TaskActionView::Perform(operation)
            ==> is_job_operation(start.job, operation))
    &&& forall|i: int, j: int|
        0 <= i < j < actions.len() ==> !(#[trigger] actions[i] is Perform
            && #[trigger] actions[j] is Perform)
    &&& !(task.stage is Performing || task.stage is Finished) ==> forall|i: int|
        0 <= i < actions.len() ==> !(#[trigger] actions[i] is Perform)
}

/// Every event leaves the operations of a task in order.
proof fn lemma_operations_are_in_order(task: TaskView, events: Seq<TaskEventView>)
    requires
        history(task.first(), events) is Some,
    ensures
        operations_are_in_order(
            task,
            history(task.first(), events).unwrap().0,
            history(task.first(), events).unwrap().1,
        ),
    decreases events.len(),
{
    if events.len() > 0 {
        lemma_operations_are_in_order(task, events.drop_last());
    }
}

/// For each key, at most one operation is performed, and only the one that the batch is for.
pub proof fn lemma_task_performs_its_job_once(task: TaskView, events: Seq<TaskEventView>)
    requires
        history(task.first(), events) is Some,
    ensures
        ({
            let actions = history(task.first(), events).unwrap().1;
            &&& forall|i: int|
                0 <= i < actions.len() ==> (
                #[trigger] actions[i] matches TaskActionView::Perform(operation)
                    ==> is_job_operation(task.job, operation))
            &&& forall|i: int, j: int|
                0 <= i < j < actions.len() ==> !(#[trigger] actions[i] is Perform
                    && #[trigger] actions[j] is Perform)
        }),
{
    lemma_operations_are_in_order(task, events);
}

/// A download right after an upload is a no-op: the object has the file's size, and the service
/// stored it not before the file was last modified.
pub proof fn lemma_download_after_upload_is_skipped(
    task: TaskView,
    found: FoundObjectView,
    file: LocalFile,
)
    requires
        task.job is Download,
        task.stage == (TaskStageView::ReadingLocal { found }),
        found.info.size == file.size,
        found.has_local_time,
        file.modified.nanos() <= found.info.timestamp.nanos(),
    ensures
        task.step(
            TaskEventView::LocalFileRead(
                LocalReadView::Found { size: file.size, modified: Ok(file.modified) },
            ),
        ) matches Some((_, action)) && skips(action),
{
}

/// A local file that is newer than the object is uploaded.
pub proof fn lemma_newer_local_file_is_uploaded(
    task: TaskView,
    bucket: Seq<char>,
    key: Seq<char>,
    path: Seq<char>,
    requested: Option<Seq<char>>,
    found: FoundObjectView,
    file: LocalFile,
)
    requires
        task.job == (JobView::Upload { bucket, key, local_path: path, storage_class: requested }),
        task.stage == (TaskStageView::ComparingUpload { file }),
        found.local_time().nanos() < file.modified.nanos(),
    ensures
        task.step(TaskEventView::Headed(Ok(found))) == Some(
            task.perform(batch::upload_operation(bucket, key, path, file.size, requested)),
        ),
{
}

/// A local file that is newer than the object is replaced by a download: the service is believed.
pub proof fn lemma_newer_local_file_is_replaced(
    task: TaskView,
    bucket: Seq<char>,
    key: Seq<char>,
    path: Seq<char>,
    found: FoundObjectView,
    file: LocalFile,
)
    requires
        task.job == (JobView::Download { bucket, key, local_path: path }),
        task.stage == (TaskStageView::ReadingLocal { found }),
        found.local_time().nanos() < file.modified.nanos(),
    ensures
        task.step(
            TaskEventView::LocalFileRead(
                LocalReadView::Found { size: file.size, modified: Ok(file.modified) },
            ),
        ) == Some(task.start_download(path, found.info.size)),
{
}

/// The object is what an upload or copy of this size that asks for a storage class makes: the
/// service stores it in the class that was sent, and may leave the default class unnamed.
pub open spec fn is_stored(
    info: ObjectInfoView,
    size: u64,
    requested: Option<Seq<char>>,
) -> bool {
    info.size == size && batch::class_or_standard(info.storage_class) == batch::class_or_standard(
        batch::sent_class(size, requested),
    )
}

/// An upload that was made before is skipped, also where the object is too small for the storage
/// class that was asked for.
pub proof fn lemma_repeated_upload_is_skipped(
    task: TaskView,
    found: FoundObjectView,
    file: LocalFile,
    requested: Option<Seq<char>>,
)
    requires
        task.job matches JobView::Upload { storage_class, .. } && storage_class == requested,
        task.stage == (TaskStageView::ComparingUpload { file }),
        is_stored(found.info, file.size, requested),
        found.has_local_time,
        file.modified.nanos() <= found.info.timestamp.nanos(),
    ensures
        task.step(TaskEventView::Headed(Ok(found))) matches Some((_, action)) && skips(action),
{
}

/// A copy that was made before is skipped, also where the object is too small for the storage
/// class that was asked for.
pub proof fn lemma_repeated_copy_is_skipped(
    task: TaskView,
    found: FoundObjectView,
    size: u64,
    requested: Option<Seq<char>>,
)
    requires
        task.job matches JobView::Copy { path, .. } && path.dst_storage_class == requested,
        task.stage == (TaskStageView::ComparingCopy { size }),
        is_stored(found.info, size, requested),
    ensures
        task.step(TaskEventView::Headed(Ok(found))) matches Some((_, action)) && skips(action),
{
}

/// A copy is left out exactly if unchanged items are to be skipped, the destination exists, and it
/// has the source's size and the storage class that the copy would give it. In every other case
/// in which the destination is found or is not there, the copy is made.
pub proof fn lemma_copy_is_left_out_exactly_if_unchanged(
    task: TaskView,
    path: CopyPathView,
    across_clients: bool,
    source: FoundObjectView,
    destination: Result<FoundObjectView, S3ErrorView>,
)
    requires
        task.job == (JobView::Copy { path, across_clients }),
        destination matches Err(error) ==> error.is_not_found(),
    ensures
        ({
            let copy = TaskActionView::Perform(
                batch::copy_operation(path, source.info.size, across_clients),
            );
            let unchanged = destination matches Ok(found) && batch::matches_copy(
                source.info.size,
                found.info,
                path.dst_storage_class,
            );
            let events = if task.skip_existing {
                seq![TaskEventView::Headed(Ok(source)), TaskEventView::Headed(destination)]
            } else {
                seq![TaskEventView::Headed(Ok(source))]
            };
            history(task.first(), events) matches Some((_, actions)) && (if task.skip_existing
                && unchanged {
                skips(actions.last())
            } else {
                actions.last() == copy
            })
        }),
{
    reveal_with_fuel(history, 3);
    let found = seq![TaskEventView::Headed(Ok(source))];
    let compared = found.push(TaskEventView::Headed(destination));
    assert(found.drop_last() =~= Seq::<TaskEventView>::empty());
    assert(compared.drop_last() =~= found);
    assert(compared =~= seq![
        TaskEventView::Headed(Ok(source)),
        TaskEventView::Headed(destination),
    ]);
}

/// How many events a task can still wait for.
pub open spec fn events_left(stage: TaskStageView) -> nat {
    match stage {
        TaskStageView::Heading => 4,
        TaskStageView::ReadingLocal { .. } => 3,
        TaskStageView::Measuring => 3,
        TaskStageView::CreatingDirectory { .. } => 2,
        TaskStageView::ComparingUpload { .. } => 2,
        TaskStageView::ComparingCopy { .. } => 2,
        TaskStageView::Performing => 1,
        TaskStageView::Finished => 0,
    }
}

/// A task comes to its end: each event that it waits for leaves it fewer to wait for, and it is
/// over exactly when it waits for none.
pub proof fn lemma_task_ends(task: TaskView, event: TaskEventView)
    requires
        task.step(event) is Some,
    ensures
        ({
            let (next, action) = task.step(event).unwrap();
            &&& events_left(next.stage) < events_left(task.stage)
            &&& action is Finish <==> next.stage is Finished
        }),
{
}

/// The object that a job is about; for a copy, the source.
pub open spec fn job_object(job: JobView) -> (Seq<char>, Seq<char>) {
    match job {
        JobView::Head { bucket, key, .. }
        | JobView::Download { bucket, key, .. }
        | JobView::Upload { bucket, key, .. }
        | JobView::Delete { bucket, key }
        | JobView::Restore { bucket, key, .. } => (bucket, key),
        JobView::Copy { path, .. } => (path.src_bucket, path.src_key),
    }
}

/// The bucket, prefix and suffix that a command completes the names in a manifest with; for a copy,
/// those of the source.
pub open spec fn command_source(command: CsvCommand) -> (Seq<char>, Seq<char>, Seq<char>) {
    match command {
        CsvCommand::Head { bucket, prefix, suffix }
        | CsvCommand::Download { bucket, prefix, suffix, .. }
        | CsvCommand::Upload { bucket, prefix, suffix, .. }
        | CsvCommand::Delete { bucket, prefix, suffix }
        | CsvCommand::Restore { bucket, prefix, suffix, .. } => (bucket@, prefix@, suffix@),
        CsvCommand::Copy(copy) | CsvCommand::CopyCrossClients(copy) => (
            copy.src_bucket@,
            copy.src_prefix@,
            copy.src_suffix@,
        ),
    }
}

/// The job for a name in a manifest works on exactly the object that the name was made from: the
/// one in the command's bucket whose key has the command's prefix and suffix around the name. There
/// is always such a job, but for a download or upload under a name that is no safe local path.
pub proof fn lemma_job_works_on_the_named_object(
    command: CsvCommand,
    object_key: Seq<char>,
    name: Seq<char>,
)
    requires
        ({
            let (_, prefix, suffix) = command_source(command);
            manifest::relative_key(object_key, prefix, suffix) == Some(name)
        }),
    ensures
        match command.job(name) {
            Ok(job) => job_object(job) == (command_source(command).0, object_key),
            Err(_) => match command {
                CsvCommand::Download { local_dir, .. } | CsvCommand::Upload { local_dir, .. } => {
                    local_path::key_path(local_dir@, name) is Err
                },
                _ => false,
            },
        },
{
    match command {
        CsvCommand::Head { prefix, suffix, .. }
        | CsvCommand::Download { prefix, suffix, .. }
        | CsvCommand::Upload { prefix, suffix, .. }
        | CsvCommand::Delete { prefix, suffix, .. }
        | CsvCommand::Restore { prefix, suffix, .. } => {
            manifest::lemma_manifest_names_objects(object_key, prefix, suffix, name);
        },
        CsvCommand::Copy(copy) | CsvCommand::CopyCrossClients(copy) => {
            manifest::lemma_manifest_names_objects(
                object_key,
                copy.src_prefix,
                copy.src_suffix,
                name,
            );
        },
    }
}

/// A copy puts the object that a name was made from where the destination's bucket, prefix and
/// suffix have the same name, in the storage class asked for, with one client or with two as the
/// command says.
pub proof fn lemma_copy_goes_where_the_name_says(
    copy: CsvCopy,
    object_key: Seq<char>,
    copied_key: Seq<char>,
    name: Seq<char>,
)
    requires
        manifest::relative_key(object_key, copy.src_prefix@, copy.src_suffix@) == Some(name),
        manifest::relative_key(copied_key, copy.dst_prefix@, copy.dst_suffix@) == Some(name),
    ensures
        ({
            let path = CopyPathView {
                src_bucket: copy.src_bucket@,
                src_key: object_key,
                dst_bucket: copy.dst_bucket@,
                dst_key: copied_key,
                dst_storage_class: copy.dst_storage_class.deep_view(),
            };
            &&& CsvCommand::Copy(copy).job(name) == Ok::<JobView, ToolErrorView>(
                JobView::Copy { path, across_clients: false },
            )
            &&& CsvCommand::CopyCrossClients(copy).job(name) == Ok::<JobView, ToolErrorView>(
                JobView::Copy { path, across_clients: true },
            )
        }),
{
    manifest::lemma_manifest_names_objects(object_key, copy.src_prefix, copy.src_suffix, name);
    manifest::lemma_manifest_names_objects(copied_key, copy.dst_prefix, copy.dst_suffix, name);
}

/// A job is of the kind of its command, and has all that the command asks for: the local file that
/// the name stands for, the storage class, and the days and tier of a restoration. An object is
/// shown under its key without the prefix.
pub proof fn lemma_job_has_what_the_command_asks_for(command: CsvCommand, name: Seq<char>)
    ensures
        match (command, command.job(name)) {
            (CsvCommand::Head { prefix, .. }, Ok(JobView::Head { key, display_key, .. })) => key
                == prefix@ + display_key && name.is_prefix_of(display_key),
            (
                CsvCommand::Download { local_dir, .. },
                Ok(JobView::Download { local_path, .. }),
            ) => local_path::key_path(local_dir@, name) == Ok::<Seq<char>, ToolErrorView>(
                local_path,
            ),
            (
                CsvCommand::Upload { local_dir, storage_class: asked, .. },
                Ok(JobView::Upload { local_path, storage_class, .. }),
            ) => local_path::key_path(local_dir@, name) == Ok::<Seq<char>, ToolErrorView>(
                local_path,
            ) && storage_class == asked.deep_view(),
            (CsvCommand::Delete { .. }, Ok(JobView::Delete { .. })) => true,
            (
                CsvCommand::Restore { restore_tier: tier, restore_days: days, .. },
                Ok(JobView::Restore { restore_days, restore_tier, .. }),
            ) => restore_days == days && restore_tier == tier@,
            (CsvCommand::Copy(copy), Ok(JobView::Copy { path, across_clients })) => !across_clients
                && path.dst_storage_class == copy.dst_storage_class.deep_view(),
            (
                CsvCommand::CopyCrossClients(copy),
                Ok(JobView::Copy { path, across_clients }),
            ) => across_clients && path.dst_storage_class == copy.dst_storage_class.deep_view(),
            (
                CsvCommand::Download { local_dir, .. } | CsvCommand::Upload { local_dir, .. },
                Err(error),
            ) => local_path::key_path(local_dir@, name) == Err::<Seq<char>, ToolErrorView>(error),
            _ => false,
        },
{
    if let CsvCommand::Head { prefix, suffix, .. } = command {
        assert(prefix@ + name + suffix@ =~= prefix@ + (name + suffix@));
    }
}

/// The operation does what the job is for, to the objects and files that it is for.
pub open spec fn does_job(job: JobView, operation: OperationView) -> bool {
    match (job, operation) {
        (
            JobView::Download { bucket, key, local_path },
            OperationView::Download { bucket: b, key: k, local_path: p, start_end_offsets },
        ) => b == bucket && k == key && p == local_path && start_end_offsets is None,
        (
            JobView::Download { bucket, key, local_path },
            OperationView::DownloadMultipart { bucket: b, key: k, local_path: p },
        ) => b == bucket && k == key && p == local_path,
        (
            JobView::Upload { bucket, key, local_path, .. },
            OperationView::Upload { bucket: b, key: k, local_path: p, .. },
        )
        | (
            JobView::Upload { bucket, key, local_path, .. },
            OperationView::UploadMultipart { bucket: b, key: k, local_path: p, .. },
        ) => b == bucket && k == key && p == local_path,
        (JobView::Copy { path, across_clients }, OperationView::Copy(p))
        | (JobView::Copy { path, across_clients }, OperationView::CopyMultipart(p)) => {
            &&& !across_clients
            &&& p.src_bucket == path.src_bucket && p.src_key == path.src_key
            &&& p.dst_bucket == path.dst_bucket && p.dst_key == path.dst_key
        },
        (JobView::Copy { path, across_clients }, OperationView::CopyCrossClients(p))
        | (JobView::Copy { path, across_clients }, OperationView::CopyMultipartCrossClients(p)) => {
            &&& across_clients
            &&& p.src_bucket == path.src_bucket && p.src_key == path.src_key
            &&& p.dst_bucket == path.dst_bucket && p.dst_key == path.dst_key
        },
        (JobView::Delete { bucket, key }, OperationView::Delete { bucket: b, key: k }) => b
            == bucket && k == key,
        (
            JobView::Restore { bucket, key, restore_days, restore_tier },
            OperationView::Restore { bucket: b, key: k, restore_days: days, restore_tier: tier },
        ) => b == bucket && k == key && days == restore_days && tier == restore_tier,
        _ => false,
    }
}

/// The operation moves its object in parts.
pub open spec fn is_in_parts(operation: OperationView) -> bool {
    operation is DownloadMultipart || operation is UploadMultipart || operation is CopyMultipart
        || operation is CopyMultipartCrossClients
}

/// The storage class that an operation asks for.
pub open spec fn asked_class(operation: OperationView) -> Option<Seq<char>> {
    match operation {
        OperationView::Upload { storage_class, .. }
        | OperationView::UploadMultipart { storage_class, .. } => storage_class,
        OperationView::Copy(path)
        | OperationView::CopyMultipart(path)
        | OperationView::CopyCrossClients(path)
        | OperationView::CopyMultipartCrossClients(path) => path.dst_storage_class,
        _ => None,
    }
}

/// The storage class that a job asks for.
pub open spec fn wanted_class(job: JobView) -> Option<Seq<char>> {
    match job {
        JobView::Upload { storage_class, .. } => storage_class,
        JobView::Copy { path, .. } => path.dst_storage_class,
        _ => None,
    }
}

/// The operation suits the size of the object or file: it moves it in parts from 1 GiB on, or from
/// 20 MiB on between clients, and asks for the storage class of the job from 16 KiB on.
pub open spec fn suits_size(job: JobView, operation: OperationView, size: u64) -> bool {
    &&& asked_class(operation) == (if size >= 16 * 1024 {
        wanted_class(job)
    } else {
        None
    })
    &&& is_in_parts(operation) <==> (if job matches JobView::Copy { across_clients, .. }
        && across_clients {
        size >= 20 * 1024 * 1024
    } else {
        size >= 1024 * 1024 * 1024
    })
}

/// The size that an event tells of.
pub open spec fn told_size(event: TaskEventView) -> Option<u64> {
    match event {
        TaskEventView::Headed(Ok(found)) => Some(found.info.size),
        TaskEventView::LocalFileRead(LocalReadView::Found { size, .. }) => Some(size),
        _ => None,
    }
}

/// The class that an object is in, where none has to be named for the standard one.
pub open spec fn shown_class(class: Option<Seq<char>>) -> Seq<char> {
    match class {
        Some(class) => class,
        None => "STANDARD"@,
    }
}

/// The local file is not newer than the object, where an object whose time no local file can have
/// counts as one of the epoch.
pub open spec fn is_not_newer(modified: Timestamp, found: FoundObjectView) -> bool {
    modified.nanos() <= if found.has_local_time {
        found.info.timestamp.nanos()
    } else {
        0
    }
}

/// What was found at both ends shows that the job has been done before: the sizes are the same, a
/// local file is not newer than the object, and the object at the destination is in the class that
/// it would get.
pub open spec fn is_done_before(
    job: JobView,
    first: TaskEventView,
    second: TaskEventView,
) -> bool {
    match (job, first, second) {
        (
            JobView::Download { .. },
            TaskEventView::Headed(Ok(found)),
            TaskEventView::LocalFileRead(LocalReadView::Found { size, modified: Ok(modified) }),
        ) => size == found.info.size && is_not_newer(modified, found),
        (
            JobView::Upload { storage_class, .. },
            TaskEventView::LocalFileRead(LocalReadView::Found { size, modified: Ok(modified) }),
            TaskEventView::Headed(Ok(found)),
        ) => size == found.info.size && is_not_newer(modified, found) && shown_class(
            found.info.storage_class,
        ) == shown_class(
            if size >= 16 * 1024 {
                storage_class
            } else {
                None
            },
        ),
        (
            JobView::Copy { path, .. },
            TaskEventView::Headed(Ok(source)),
            TaskEventView::Headed(Ok(found)),
        ) => source.info.size == found.info.size && shown_class(found.info.storage_class)
            == shown_class(
            if source.info.size >= 16 * 1024 {
                path.dst_storage_class
            } else {
                None
            },
        ),
        _ => false,
    }
}

/// What there is at both ends was compared, and the job has not been done before.
spec fn is_to_be_done(task: TaskView, events: Seq<TaskEventView>) -> bool {
    if task.skip_existing {
        events.len() >= 2 && !is_done_before(task.job, events[0], events[1])
    } else {
        events.len() >= 1
    }
}

/// The action belongs to the job: it looks at the objects and files of the job, and does what the
/// job is for.
pub open spec fn belongs_to_job(job: JobView, action: TaskActionView) -> bool {
    match action {
        TaskActionView::Head { bucket, key, at_destination } => match job {
            JobView::Head { .. } | JobView::Download { .. } => !at_destination && (bucket, key)
                == job_object(job),
            JobView::Upload { .. } => at_destination && (bucket, key) == job_object(job),
            JobView::Copy { path, .. } => if at_destination {
                bucket == path.dst_bucket && key == path.dst_key
            } else {
                bucket == path.src_bucket && key == path.src_key
            },
            _ => false,
        },
        TaskActionView::ReadLocalFile { path } => match job {
            JobView::Download { local_path, .. } | JobView::Upload { local_path, .. } => path
                == local_path,
            _ => false,
        },
        TaskActionView::CreateDirectory { path } => match job {
            JobView::Download { local_path, .. } => local_path::parent(local_path) == Some(path),
            _ => false,
        },
        TaskActionView::Perform(operation) => does_job(job, operation),
        TaskActionView::Finish(Ok(OutcomeView::Shown { display_key, .. })) => match job {
            JobView::Head { display_key: name, .. } => display_key == name,
            _ => false,
        },
        TaskActionView::Finish(Ok(OutcomeView::Skipped(_))) => job is Download || job is Upload
            || job is Copy,
        TaskActionView::Finish(Ok(OutcomeView::Performed)) => !(job is Head),
        TaskActionView::Finish(Err(_)) => true,
    }
}

/// The error is the one that the last event brings, or says that the local file has no directory.
pub open spec fn is_told_error(
    job: JobView,
    error: ToolErrorView,
    events: Seq<TaskEventView>,
) -> bool {
    match (events.last(), error) {
        (TaskEventView::Headed(Err(e)), ToolErrorView::Service(Some(_), reported)) => reported == e
            && (events.len() == 2 || job is Upload ==> !e.is_not_found()),
        (TaskEventView::Performed(Err(e)), ToolErrorView::Service(Some(_), reported)) => reported
            == e,
        (
            TaskEventView::LocalFileRead(LocalReadView::Found { modified: Err(e), .. }),
            ToolErrorView::Local(None, reported),
        ) => reported == e,
        (
            TaskEventView::LocalFileRead(LocalReadView::Failed(e)),
            ToolErrorView::Local(Some(_), reported),
        ) => reported == e,
        (
            TaskEventView::LocalFileRead(LocalReadView::Missing(e)),
            ToolErrorView::Local(Some(_), reported),
        ) => job is Upload && reported == e,
        (TaskEventView::DirectoryCreated(Err(e)), ToolErrorView::Local(Some(_), reported)) => {
            reported == e
        },
        (_, ToolErrorView::NoParent(path)) => job matches JobView::Download { local_path, .. }
            && path == local_path && local_path::parent(local_path) is None,
        _ => false,
    }
}

/// The action is the one to take after these events: only what has been compared and has been done
/// before is skipped, the operation suits the size that was found, and the end that is reported is
/// the one that came.
pub open spec fn follows_from(
    task: TaskView,
    action: TaskActionView,
    events: Seq<TaskEventView>,
) -> bool {
    match action {
        TaskActionView::Head { at_destination, .. } => if at_destination {
            task.skip_existing && events.len() == 1
        } else {
            events.len() == 0
        },
        TaskActionView::ReadLocalFile { .. } => if task.job is Upload {
            events.len() == 0
        } else {
            task.skip_existing && events.len() == 1
        },
        TaskActionView::CreateDirectory { .. } => if task.skip_existing {
            events.len() == 2 && !is_done_before(task.job, events[0], events[1])
        } else {
            events.len() == 1
        },
        TaskActionView::Perform(operation) => if task.job is Delete || task.job is Restore {
            events.len() == 0
        } else {
            &&& events.len() > 0
            &&& told_size(events[0]) matches Some(size) && suits_size(task.job, operation, size)
            &&& task.skip_existing ==> events.len() >= 2 && !is_done_before(
                task.job,
                events[0],
                events[1],
            )
            &&& events.last() matches TaskEventView::Headed(Err(error)) ==> error.is_not_found()
            &&& task.job is Download ==> (events.last() matches TaskEventView::DirectoryCreated(
                Ok(_),
            ))
        },
        TaskActionView::Finish(Ok(OutcomeView::Shown { info, .. })) => {
            &&& events.len() == 1
            &&& events[0] matches TaskEventView::Headed(Ok(found)) && info == found.info
        },
        TaskActionView::Finish(Ok(OutcomeView::Skipped(_))) => task.skip_existing && events.len()
            == 2 && is_done_before(task.job, events[0], events[1]),
        TaskActionView::Finish(Ok(OutcomeView::Performed)) => events.len() > 0
            && (events.last() matches TaskEventView::Performed(Ok(_))),
        TaskActionView::Finish(Err(error)) => events.len() > 0 && is_told_error(
            task.job,
            error,
            events,
        ),
    }
}

/// Where a task stands after events, by what it waits for.
spec fn stands(task: TaskView, now: TaskView, events: Seq<TaskEventView>) -> bool {
    &&& now == task.at(now.stage)
    &&& match now.stage {
        TaskStageView::Heading => events.len() == 0 && (task.job is Head || task.job is Download
            || task.job is Copy),
        TaskStageView::ReadingLocal { found } => events.len() == 1 && task.job is Download
            && task.skip_existing && events[0] == TaskEventView::Headed(Ok(found)),
        TaskStageView::CreatingDirectory { size, .. } => {
            &&& task.job is Download
            &&& is_to_be_done(task, events)
            &&& told_size(events[0]) == Some(size)
        },
        TaskStageView::Measuring => events.len() == 0 && task.job is Upload,
        TaskStageView::ComparingUpload { file } => events.len() == 1 && task.job is Upload
            && task.skip_existing && events[0] == TaskEventView::LocalFileRead(
            LocalReadView::Found { size: file.size, modified: Ok(file.modified) },
        ),
        TaskStageView::ComparingCopy { size } => events.len() == 1 && task.job is Copy
            && task.skip_existing && (events[0] matches TaskEventView::Headed(Ok(found))
            && found.info.size == size),
        TaskStageView::Performing => !(task.job is Head),
        TaskStageView::Finished => true,
    }
}

/// Every event leaves a task where it should stand, with the action that it should take.
proof fn lemma_task_stands(task: TaskView, events: Seq<TaskEventView>)
    requires
        history(task.first(), events) is Some,
    ensures
        ({
            let (now, actions) = history(task.first(), events).unwrap();
            &&& actions.len() == events.len() + 1
            &&& stands(task, now, events)
            &&& belongs_to_job(task.job, actions.last())
            &&& follows_from(task, actions.last(), events)
        }),
    decreases events.len(),
{
    if events.len() > 0 {
        let before = events.drop_last();
        lemma_task_stands(task, before);
        assert(forall|i: int| 0 <= i < before.len() ==> before[i] == events[i]);
    }
}

/// All that a task does, from its start to its end, is right: each action belongs to the job of the
/// task, and follows from what has happened before it.
pub proof fn lemma_task_does_its_job(task: TaskView, events: Seq<TaskEventView>)
    requires
        history(task.first(), events) is Some,
    ensures
        ({
            let actions = history(task.first(), events).unwrap().1;
            &&& actions.len() == events.len() + 1
            &&& forall|i: int|
                0 <= i < actions.len() ==> belongs_to_job(task.job, #[trigger] actions[i])
                    && follows_from(task, actions[i], events.take(i))
        }),
    decreases events.len(),
{
    lemma_task_stands(task, events);
    let actions = history(task.first(), events).unwrap().1;
    assert(events.take(events.len() as int) =~= events);
    if events.len() > 0 {
        let before = events.drop_last();
        lemma_task_does_its_job(task, before);
        let earlier = history(task.first(), before).unwrap().1;
        assert forall|i: int| 0 <= i < actions.len() implies belongs_to_job(
            task.job,
            #[trigger] actions[i],
        ) && follows_from(task, actions[i], events.take(i)) by {
            if i < earlier.len() {
                assert(actions[i] == earlier[i]);
                assert(events.take(i) =~= before.take(i));
            }
        }
    }
}

/// The event answers the action.
pub open spec fn answers(event: TaskEventView, action: TaskActionView) -> bool {
    match action {
        TaskActionView::Head { .. } => event is Headed,
        TaskActionView::ReadLocalFile { .. } => event is LocalFileRead,
        TaskActionView::CreateDirectory { .. } => event is DirectoryCreated,
        TaskActionView::Perform(_) => event is Performed,
        TaskActionView::Finish(_) => false,
    }
}

/// A task goes on after every answer to what it has asked for, and after no other event.
pub proof fn lemma_task_takes_every_answer(
    task: TaskView,
    events: Seq<TaskEventView>,
    event: TaskEventView,
)
    requires
        history(task.first(), events) is Some,
    ensures
        history(task.first(), events.push(event)) is Some <==> answers(
            event,
            history(task.first(), events).unwrap().1.last(),
        ),
{
    assert(events.push(event).drop_last() =~= events);
    lemma_task_stands(task, events);
    lemma_action_goes_with_stage(task, events);
}

/// What a task waits for is the answer to its last action.
proof fn lemma_action_goes_with_stage(task: TaskView, events: Seq<TaskEventView>)
    requires
        history(task.first(), events) is Some,
    ensures
        ({
            let (now, actions) = history(task.first(), events).unwrap();
            match actions.last() {
                TaskActionView::Head { .. } => now.stage is Heading || now.stage is ComparingUpload
                    || now.stage is ComparingCopy,
                TaskActionView::ReadLocalFile { .. } => now.stage is ReadingLocal
                    || now.stage is Measuring,
                TaskActionView::CreateDirectory { .. } => now.stage is CreatingDirectory,
                TaskActionView::Perform(_) => now.stage is Performing,
                TaskActionView::Finish(_) => now.stage is Finished,
            }
        }),
{
    if events.len() > 0 {
        lemma_task_stands(task, events.drop_last());
    }
}

/// The key that a job is named by; for a copy, that of the destination.
pub open spec fn job_key(job: JobView) -> Seq<char> {
    match job {
        JobView::Copy { path, .. } => path.dst_key,
        _ => job_object(job).1,
    }
}

/// What is said at the end of a task names the key that it was about: a failure at the service or of
/// a comparison, and the reason for which nothing had to be done.
pub proof fn lemma_end_of_task_names_the_key(task: TaskView, events: Seq<TaskEventView>)
    requires
        history(task.first(), events) is Some,
    ensures
        match history(task.first(), events).unwrap().1.last() {
            TaskActionView::Finish(Ok(OutcomeView::Skipped(reason))) => job_key(
                task.job,
            ).is_prefix_of(reason),
            TaskActionView::Finish(Err(ToolErrorView::Service(Some(context), _))) => {
                text::contains_text(context, job_key(task.job)) || text::contains_text(
                    context,
                    job_object(task.job).1,
                )
            },
            TaskActionView::Finish(Err(ToolErrorView::Service(None, _))) => false,
            TaskActionView::Finish(Err(ToolErrorView::Local(Some(context), _))) => {
                ||| task.job matches JobView::Download { local_path, .. } && (
                local_path.is_suffix_of(context) || (local_path::parent(
                    local_path,
                ) matches Some(directory) && directory.is_suffix_of(context)))
                ||| task.job matches JobView::Upload { local_path, .. } && local_path.is_suffix_of(
                    context,
                )
            },
            _ => true,
        },
{
    lemma_task_stands(task, events);
    if events.len() > 0 {
        let before = events.drop_last();
        lemma_task_stands(task, before);
        let earlier = history(task.first(), before).unwrap().0;
        let key = job_key(task.job);
        let source = job_object(task.job).1;
        lemma_named_in(task.perform_context(), "heading key "@, source);
        lemma_named_in(task.perform_context(), "downloading object "@, source);
        lemma_named_in(task.perform_context(), "uploading object "@, source);
        lemma_named_in(task.perform_context(), "copying object "@, key);
        lemma_named_in(task.perform_context(), "deleting object "@, source);
        lemma_named_in(task.perform_context(), "restoring object "@, source);
        lemma_named_in(
            task.perform_context(),
            "copying object across clients from "@ + source + " to "@,
            key,
        );
        lemma_named_in("heading key "@ + source, "heading key "@, source);
        text::lemma_piece_stands_in_text("heading key "@, source, " on source"@);
        text::lemma_piece_stands_in_text("heading key "@, key, " on destination"@);
        assert(forall|front: Seq<char>, back: Seq<char>|
            #![trigger front + back]
            (front + back).subrange(front.len() as int, (front + back).len() as int) =~= back);
    }
}

/// A context that is made of a text and a key behind it holds the key.
proof fn lemma_named_in(context: Seq<char>, head: Seq<char>, key: Seq<char>)
    ensures
        context == head + key ==> text::contains_text(context, key),
{
    let none = Seq::<char>::empty();
    text::lemma_piece_stands_in_text(head, key, none);
    assert(head + key + none =~= head + key);
}

} // verus!

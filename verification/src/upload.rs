//! Multipart uploads and copies, from measuring the source to completing or giving up the upload.

use crate::client;
use crate::client::S3Client;
use crate::config::{MULTIPART_MAX_PARTS, MULTIPART_MAX_PART_SIZE, MULTIPART_MIN_PART_SIZE};
use crate::error;
use crate::error::{checked_content_length, S3Error, S3ErrorView};
use crate::multipart;
use crate::multipart::{MultipartPart, MultipartPlan};
use crate::object::ObjectHead;
use crate::part;
use crate::part::{sort_parts, PartSource, PartSourceView, PartTransfer, PartTransferView};
use crate::request;
use crate::request::{
    describe_copy, describe_object, owned, Body, BodyView, Call, CallView, CompletedPart,
    CompletedPartView, Request, RequestView,
};
use crate::text;
use crate::text::append_decimal;
use vstd::prelude::*;

verus! {

/// What a multipart upload takes its bytes from.
#[derive(Debug)]
pub enum UploadSource {
    /// A local file.
    File { path: String },
    /// An object that the destination's backend copies by itself.
    SameBackend { bucket: String, key: String },
    /// An object that another client reads.
    OtherClient { bucket: String, key: String },
}

/// The model of [`UploadSource`].
pub enum UploadSourceView {
    File { path: Seq<char> },
    SameBackend { bucket: Seq<char>, key: Seq<char> },
    OtherClient { bucket: Seq<char>, key: Seq<char> },
}

impl View for UploadSource {
    type V = UploadSourceView;

    open spec fn view(&self) -> UploadSourceView {
        match self {
            UploadSource::File { path } => UploadSourceView::File { path: path@ },
            UploadSource::SameBackend { bucket, key } => UploadSourceView::SameBackend {
                bucket: bucket@,
                key: key@,
            },
            UploadSource::OtherClient { bucket, key } => UploadSourceView::OtherClient {
                bucket: bucket@,
                key: key@,
            },
        }
    }
}

/// What a multipart upload waits for.
#[derive(Debug)]
pub enum UploadStage {
    /// The size of the source.
    Measuring,
    /// The answer to putting an empty object.
    Putting,
    /// The answer to creating the upload.
    Creating { plan: MultipartPlan, e_tag: Option<String> },
    /// All parts.
    Transferring { upload_id: String },
    /// The answer to completing the upload.
    Completing { upload_id: String },
    /// The answer to giving the upload up, on account of an error.
    Aborting { error: S3Error },
    /// Nothing.
    Finished,
}

/// The model of [`UploadStage`].
pub enum UploadStageView {
    Measuring,
    Putting,
    Creating { plan: MultipartPlan, e_tag: Option<Seq<char>> },
    Transferring { upload_id: Seq<char> },
    Completing { upload_id: Seq<char> },
    Aborting { error: S3ErrorView },
    Finished,
}

impl View for UploadStage {
    type V = UploadStageView;

    open spec fn view(&self) -> UploadStageView {
        match self {
            UploadStage::Measuring => UploadStageView::Measuring,
            UploadStage::Putting => UploadStageView::Putting,
            UploadStage::Creating { plan, e_tag } => UploadStageView::Creating {
                plan: *plan,
                e_tag: e_tag.deep_view(),
            },
            UploadStage::Transferring { upload_id } => UploadStageView::Transferring {
                upload_id: upload_id@,
            },
            UploadStage::Completing { upload_id } => UploadStageView::Completing {
                upload_id: upload_id@,
            },
            UploadStage::Aborting { error } => UploadStageView::Aborting { error: error@ },
            UploadStage::Finished => UploadStageView::Finished,
        }
    }
}

/// What has happened since the last action.
#[derive(Debug)]
pub enum UploadEvent {
    /// The size of the local file, or why it is not known.
    FileMeasured(Result<u64, S3Error>),
    /// What the source says of the object.
    SourceFound(Result<ObjectHead, S3Error>),
    /// The empty object was put, or not.
    EmptyPut(Result<(), S3Error>),
    /// The upload was created, with the identifier that the response gives.
    Created(Result<Option<String>, S3Error>),
    /// All parts were moved, or one was not.
    PartsTransferred(Result<Vec<CompletedPart>, S3Error>),
    /// The upload was completed, or not.
    Completed(Result<(), S3Error>),
    /// The upload was given up, or not.
    Aborted(Result<(), S3Error>),
}

/// The model of [`UploadEvent`].
pub enum UploadEventView {
    FileMeasured(Result<u64, S3ErrorView>),
    SourceFound(Result<ObjectHead, S3ErrorView>),
    EmptyPut(Result<(), S3ErrorView>),
    Created(Result<Option<Seq<char>>, S3ErrorView>),
    PartsTransferred(Result<Seq<CompletedPartView>, S3ErrorView>),
    Completed(Result<(), S3ErrorView>),
    Aborted(Result<(), S3ErrorView>),
}

impl View for UploadEvent {
    type V = UploadEventView;

    open spec fn view(&self) -> UploadEventView {
        match self {
            UploadEvent::FileMeasured(r) => UploadEventView::FileMeasured(error::result_view(*r)),
            UploadEvent::SourceFound(r) => UploadEventView::SourceFound(error::result_view(*r)),
            UploadEvent::EmptyPut(r) => UploadEventView::EmptyPut(error::result_view(*r)),
            UploadEvent::Created(r) => UploadEventView::Created(
                match r {
                    Ok(upload_id) => Ok(upload_id.deep_view()),
                    Err(e) => Err(e@),
                },
            ),
            UploadEvent::PartsTransferred(r) => UploadEventView::PartsTransferred(
                match r {
                    Ok(parts) => Ok(parts.deep_view()),
                    Err(e) => Err(e@),
                },
            ),
            UploadEvent::Completed(r) => UploadEventView::Completed(error::result_view(*r)),
            UploadEvent::Aborted(r) => UploadEventView::Aborted(error::result_view(*r)),
        }
    }
}

/// What to do next.
#[derive(Debug)]
pub enum UploadAction {
    /// Find the size of a local file.
    MeasureFile { path: String },
    /// Make a call to the source.
    CallSource(Call),
    /// Make a call to the destination.
    CallDestination(Call),
    /// Move all parts.
    TransferParts(PartTransfer),
    /// The upload is over.
    Finish(Result<(), S3Error>),
}

/// The model of [`UploadAction`].
pub enum UploadActionView {
    MeasureFile { path: Seq<char> },
    CallSource(CallView),
    CallDestination(CallView),
    TransferParts(PartTransferView),
    Finish(Result<(), S3ErrorView>),
}

impl View for UploadAction {
    type V = UploadActionView;

    open spec fn view(&self) -> UploadActionView {
        match self {
            UploadAction::MeasureFile { path } => UploadActionView::MeasureFile { path: path@ },
            UploadAction::CallSource(call) => UploadActionView::CallSource(call@),
            UploadAction::CallDestination(call) => UploadActionView::CallDestination(call@),
            UploadAction::TransferParts(transfer) => UploadActionView::TransferParts(transfer@),
            UploadAction::Finish(r) => UploadActionView::Finish(error::result_view(*r)),
        }
    }
}

/// A multipart upload or copy.
#[derive(Debug)]
pub struct MultipartUpload {
    source: UploadSource,
    bucket: String,
    key: String,
    storage_class: Option<String>,
    part_size: u64,
    workers: usize,
    stage: UploadStage,
}

/// The model of [`MultipartUpload`].
pub struct MultipartUploadView {
    pub source: UploadSourceView,
    pub bucket: Seq<char>,
    pub key: Seq<char>,
    pub storage_class: Option<Seq<char>>,
    pub part_size: u64,
    pub workers: usize,
    pub stage: UploadStageView,
}

impl View for MultipartUpload {
    type V = MultipartUploadView;

    closed spec fn view(&self) -> MultipartUploadView {
        MultipartUploadView {
            source: self.source@,
            bucket: self.bucket@,
            key: self.key@,
            storage_class: self.storage_class.deep_view(),
            part_size: self.part_size,
            workers: self.workers,
            stage: self.stage@,
        }
    }
}

impl MultipartUploadView {
    /// The same upload at another stage.
    pub open spec fn at(self, stage: UploadStageView) -> MultipartUploadView {
        MultipartUploadView { stage, ..self }
    }

    /// The upload is over.
    pub open spec fn finished(self, result: Result<(), S3ErrorView>) -> (
        MultipartUploadView,
        UploadActionView,
    ) {
        (self.at(UploadStageView::Finished), UploadActionView::Finish(result))
    }

    /// What looking the source up is reported as if it fails.
    pub open spec fn head_context(self) -> Seq<char> {
        match self.source {
            UploadSourceView::File { .. } => Seq::empty(),
            UploadSourceView::SameBackend { bucket, key } => request::copy_context(
                "copy_object_multipart"@,
                bucket,
                key,
                self.bucket,
                self.key,
            ),
            UploadSourceView::OtherClient { bucket, key } =>
            "<copy_object_multipart_cross_clients> source HEAD bucket="@ + bucket + " key="@ + key,
        }
    }

    /// What creating the upload is reported as if it fails.
    pub open spec fn create_context(self) -> Seq<char> {
        match self.source {
            UploadSourceView::File { .. } => request::object_context(
                "upload_object_multipart"@,
                self.bucket,
                self.key,
            ),
            UploadSourceView::SameBackend { bucket, key } => request::copy_context(
                "copy_object_multipart"@,
                bucket,
                key,
                self.bucket,
                self.key,
            ),
            UploadSourceView::OtherClient { .. } =>
            "<copy_object_multipart_cross_clients> create upload bucket="@ + self.bucket + " key="@
                + self.key,
        }
    }

    /// What completing the upload is reported as if it fails.
    pub open spec fn complete_context(self) -> Seq<char> {
        match self.source {
            UploadSourceView::OtherClient { .. } =>
            "<copy_object_multipart_cross_clients> complete upload dst_bucket="@ + self.bucket
                + " dst_key="@ + self.key,
            _ => self.create_context(),
        }
    }

    /// The call that creates the upload. It cannot be told whether a lost call has created one,
    /// so it is never repeated.
    pub open spec fn create_call(self) -> CallView {
        CallView {
            request: RequestView::CreateMultipartUpload {
                bucket: self.bucket,
                key: self.key,
                storage_class: self.storage_class,
            },
            context: self.create_context(),
            retried: false,
        }
    }

    /// The call that completes the upload.
    pub open spec fn complete_call(
        self,
        upload_id: Seq<char>,
        parts: Seq<CompletedPartView>,
    ) -> CallView {
        CallView {
            request: RequestView::CompleteMultipartUpload {
                bucket: self.bucket,
                key: self.key,
                upload_id,
                parts,
            },
            context: self.complete_context(),
            retried: true,
        }
    }

    /// What to do first: the size of the source decides how the upload goes on.
    pub open spec fn first(self) -> (MultipartUploadView, UploadActionView) {
        if self.workers == 0 {
            self.finished(
                Err(S3ErrorView::ValidationError("multipart workers must be greater than zero"@)),
            )
        } else {
            (
                self.at(UploadStageView::Measuring),
                match self.source {
                    UploadSourceView::File { path } => UploadActionView::MeasureFile { path },
                    UploadSourceView::SameBackend { bucket, key }
                    | UploadSourceView::OtherClient { bucket, key } => UploadActionView::CallSource(
                        CallView {
                            request: RequestView::HeadObject { bucket, key },
                            context: self.head_context(),
                            retried: true,
                        },
                    ),
                },
            )
        }
    }

    /// What to do with a source that holds at least one byte: to create an upload, if the object
    /// can be cut into parts.
    pub open spec fn measured(self, size: u64, e_tag: Option<Seq<char>>) -> (
        MultipartUploadView,
        UploadActionView,
    ) {
        match MultipartPlan::planned_upload(size, self.part_size) {
            Err(error) => self.finished(Err(error)),
            Ok(plan) => (
                self.at(UploadStageView::Creating { plan, e_tag }),
                UploadActionView::CallDestination(self.create_call()),
            ),
        }
    }

    /// What to do with an empty source: to put an empty object at once, without a multipart
    /// upload.
    pub open spec fn put_empty(self) -> (MultipartUploadView, UploadActionView) {
        (
            self.at(UploadStageView::Putting),
            UploadActionView::CallDestination(
                client::put_object_call(
                    "put_object"@,
                    self.bucket,
                    self.key,
                    BodyView::Bytes(Seq::empty()),
                    self.storage_class,
                ),
            ),
        )
    }

    /// Where the parts come from.
    pub open spec fn part_source(self, e_tag: Option<Seq<char>>) -> PartSourceView {
        let e_tag = match e_tag {
            Some(e_tag) => e_tag,
            None => Seq::empty(),
        };
        match self.source {
            UploadSourceView::File { path } => PartSourceView::File { path },
            UploadSourceView::SameBackend { bucket, key } => PartSourceView::SameBackend {
                bucket,
                key,
                e_tag,
            },
            UploadSourceView::OtherClient { bucket, key } => PartSourceView::OtherClient {
                bucket,
                key,
                e_tag,
            },
        }
    }

    /// Gives the upload up, on account of an error.
    pub open spec fn abort(self, upload_id: Seq<char>, error: S3ErrorView) -> (
        MultipartUploadView,
        UploadActionView,
    ) {
        (
            self.at(UploadStageView::Aborting { error }),
            UploadActionView::CallDestination(
                client::abort_call(self.bucket, self.key, upload_id),
            ),
        )
    }

    /// What to do next, if the event is one that the upload waits for.
    pub open spec fn step(self, event: UploadEventView) -> Option<
        (MultipartUploadView, UploadActionView),
    > {
        match (self.stage, event) {
            (UploadStageView::Measuring, UploadEventView::FileMeasured(measured)) => {
                match (self.source, measured) {
                    (UploadSourceView::File { .. }, Err(error)) => Some(self.finished(Err(error))),
                    (UploadSourceView::File { .. }, Ok(size)) => Some(
                        if size == 0 {
                            self.put_empty()
                        } else {
                            self.measured(size, None)
                        },
                    ),
                    _ => None,
                }
            },
            (UploadStageView::Measuring, UploadEventView::SourceFound(found)) => {
                match (self.source, found) {
                    (UploadSourceView::File { .. }, _) => None,
                    (_, Err(error)) => Some(self.finished(Err(error))),
                    (_, Ok(head)) => match error::content_length(head.content_length) {
                        Err(error) => Some(self.finished(Err(error))),
                        Ok(size) => if size == 0 {
                            Some(self.put_empty())
                        } else {
                            match head.e_tag {
                                None => Some(
                                    self.finished(Err(S3ErrorView::FieldNotExist("etag"@))),
                                ),
                                Some(e_tag) => Some(self.measured(size, Some(e_tag@))),
                            }
                        },
                    },
                }
            },
            (UploadStageView::Putting, UploadEventView::EmptyPut(result)) => Some(
                self.finished(result),
            ),
            (UploadStageView::Creating { plan, e_tag }, UploadEventView::Created(created)) => Some(
                match created {
                    Err(error) => self.finished(Err(error)),
                    Ok(None) => self.finished(Err(S3ErrorView::FieldNotExist("upload_id"@))),
                    Ok(Some(upload_id)) => (
                        self.at(UploadStageView::Transferring { upload_id }),
                        UploadActionView::TransferParts(
                            PartTransferView {
                                source: self.part_source(e_tag),
                                bucket: self.bucket,
                                key: self.key,
                                upload_id,
                                plan,
                                workers: self.workers,
                            },
                        ),
                    ),
                },
            ),
            (
                UploadStageView::Transferring { upload_id },
                UploadEventView::PartsTransferred(transferred),
            ) => Some(
                match transferred {
                    Err(error) => self.abort(upload_id, error),
                    Ok(parts) => (
                        self.at(UploadStageView::Completing { upload_id }),
                        UploadActionView::CallDestination(
                            self.complete_call(upload_id, part::in_number_order(parts)),
                        ),
                    ),
                },
            ),
            (UploadStageView::Completing { upload_id }, UploadEventView::Completed(completed)) => {
                Some(
                    match completed {
                        Err(error) => self.abort(upload_id, error),
                        Ok(()) => self.finished(Ok(())),
                    },
                )
            },
            (UploadStageView::Aborting { error }, UploadEventView::Aborted(_)) => Some(
                self.finished(Err(error)),
            ),
            _ => None,
        }
    }
}

/// The result of taking in an event, as the contracts see it.
pub open spec fn step_result(upload: MultipartUpload, action: Option<UploadAction>) -> Option<
    (MultipartUploadView, UploadActionView),
> {
    match action {
        Some(action) => Some((upload@, action@)),
        None => None,
    }
}

impl MultipartUpload {
    /// Starts an upload with the settings of the destination's client, and says what to do first.
    fn start(
        client: &S3Client,
        source: UploadSource,
        bucket: &str,
        key: &str,
        storage_class: Option<&str>,
    ) -> (started: (MultipartUpload, UploadAction))
        ensures
            (started.0@, started.1@) == (MultipartUploadView {
                source: source@,
                bucket: bucket@,
                key: key@,
                storage_class: storage_class.deep_view(),
                part_size: client.multipart_part_size,
                workers: client.multipart_workers,
                stage: UploadStageView::Measuring,
            }).first(),
    {
        let mut upload = MultipartUpload {
            source,
            bucket: bucket.to_owned(),
            key: key.to_owned(),
            storage_class: owned(storage_class),
            part_size: client.multipart_part_size,
            workers: client.multipart_workers,
            stage: UploadStage::Measuring,
        };
        if upload.workers == 0 {
            upload.stage = UploadStage::Finished;
            return (
                upload,
                UploadAction::Finish(
                    Err(
                        S3Error::ValidationError(
                            "multipart workers must be greater than zero".to_owned(),
                        ),
                    ),
                ),
            );
        }
        let action = match &upload.source {
            UploadSource::File { path } => UploadAction::MeasureFile { path: path.clone() },
            UploadSource::SameBackend { bucket, key } => UploadAction::CallSource(
                Call {
                    request: Request::HeadObject { bucket: bucket.clone(), key: key.clone() },
                    context: describe_copy(
                        "copy_object_multipart",
                        bucket.as_str(),
                        key.as_str(),
                        upload.bucket.as_str(),
                        upload.key.as_str(),
                    ),
                    retried: true,
                },
            ),
            UploadSource::OtherClient { bucket, key } => UploadAction::CallSource(
                Call {
                    request: Request::HeadObject { bucket: bucket.clone(), key: key.clone() },
                    context: "<copy_object_multipart_cross_clients> source HEAD bucket=".to_owned(

                    ).concat(bucket.as_str()).concat(" key=").concat(key.as_str()),
                    retried: true,
                },
            ),
        };
        (upload, action)
    }

    /// What creating the upload is reported as if it fails.
    fn describe_create(&self) -> (context: String)
        ensures
            context@ == self@.create_context(),
    {
        match &self.source {
            UploadSource::File { .. } => describe_object(
                "upload_object_multipart",
                self.bucket.as_str(),
                self.key.as_str(),
            ),
            UploadSource::SameBackend { bucket, key } => describe_copy(
                "copy_object_multipart",
                bucket.as_str(),
                key.as_str(),
                self.bucket.as_str(),
                self.key.as_str(),
            ),
            UploadSource::OtherClient { .. } => {
                "<copy_object_multipart_cross_clients> create upload bucket=".to_owned().concat(
                    self.bucket.as_str(),
                ).concat(" key=").concat(self.key.as_str())
            },
        }
    }

    /// What completing the upload is reported as if it fails.
    fn describe_complete(&self) -> (context: String)
        ensures
            context@ == self@.complete_context(),
    {
        match &self.source {
            UploadSource::OtherClient { .. } => {
                "<copy_object_multipart_cross_clients> complete upload dst_bucket=".to_owned(

                ).concat(self.bucket.as_str()).concat(" dst_key=").concat(self.key.as_str())
            },
            _ => self.describe_create(),
        }
    }

    /// The upload is over.
    fn finish(&mut self, result: Result<(), S3Error>) -> (action: UploadAction)
        ensures
            (final(self)@, action@) == old(self)@.finished(error::result_view(result)),
    {
        self.stage = UploadStage::Finished;
        UploadAction::Finish(result)
    }

    /// Puts an empty object.
    fn put_empty(&mut self) -> (action: UploadAction)
        ensures
            (final(self)@, action@) == old(self)@.put_empty(),
    {
        self.stage = UploadStage::Putting;
        let content: Vec<u8> = Vec::new();
        assert(content@ =~= Seq::<u8>::empty());
        UploadAction::CallDestination(
            Call {
                request: Request::PutObject {
                    bucket: self.bucket.clone(),
                    key: self.key.clone(),
                    body: Body::Bytes(content),
                    storage_class: self.storage_class.clone(),
                },
                context: describe_object("put_object", self.bucket.as_str(), self.key.as_str()),
                retried: true,
            },
        )
    }

    /// Goes on with a source that holds at least one byte.
    fn measured(&mut self, size: u64, e_tag: Option<String>) -> (action: UploadAction)
        ensures
            (final(self)@, action@) == old(self)@.measured(size, e_tag.deep_view()),
    {
        match MultipartPlan::for_upload(size, self.part_size) {
            Err(error) => self.finish(Err(error)),
            Ok(plan) => {
                let call = Call {
                    request: Request::CreateMultipartUpload {
                        bucket: self.bucket.clone(),
                        key: self.key.clone(),
                        storage_class: self.storage_class.clone(),
                    },
                    context: self.describe_create(),
                    retried: false,
                };
                self.stage = UploadStage::Creating { plan, e_tag };
                UploadAction::CallDestination(call)
            },
        }
    }

    /// Gives the upload up, on account of an error.
    fn abort(&mut self, upload_id: &str, error: S3Error) -> (action: UploadAction)
        ensures
            (final(self)@, action@) == old(self)@.abort(upload_id@, error@),
    {
        self.stage = UploadStage::Aborting { error };
        UploadAction::CallDestination(
            Call {
                request: Request::AbortMultipartUpload {
                    bucket: self.bucket.clone(),
                    key: self.key.clone(),
                    upload_id: upload_id.to_owned(),
                },
                context: describe_object(
                    "abort_multipart_upload",
                    self.bucket.as_str(),
                    self.key.as_str(),
                ).concat(" upload_id=").concat(upload_id),
                retried: true,
            },
        )
    }

    /// Where the parts come from.
    fn part_source(&self, e_tag: Option<String>) -> (source: PartSource)
        ensures
            source@ == self@.part_source(e_tag.deep_view()),
    {
        let e_tag = match e_tag {
            Some(e_tag) => e_tag,
            None => String::new(),
        };
        match &self.source {
            UploadSource::File { path } => PartSource::File { path: path.clone() },
            UploadSource::SameBackend { bucket, key } => PartSource::SameBackend {
                bucket: bucket.clone(),
                key: key.clone(),
                e_tag,
            },
            UploadSource::OtherClient { bucket, key } => PartSource::OtherClient {
                bucket: bucket.clone(),
                key: key.clone(),
                e_tag,
            },
        }
    }

    /// Whether the upload reads a local file.
    fn reads_file(&self) -> (reads: bool)
        ensures
            reads == (self@.source is File),
    {
        match &self.source {
            UploadSource::File { .. } => true,
            _ => false,
        }
    }

    /// Takes in what has happened, and says what to do next. An event that the upload does not
    /// wait for changes nothing, and there is nothing to do on account of it.
    pub fn next(&mut self, event: UploadEvent) -> (action: Option<UploadAction>)
        ensures
            step_result(*final(self), action) == old(self)@.step(event@),
            action is None ==> final(self)@ == old(self)@,
    {
        let mut stage = UploadStage::Finished;
        std::mem::swap(&mut stage, &mut self.stage);
        match (stage, event) {
            (UploadStage::Measuring, UploadEvent::FileMeasured(measured)) if self.reads_file() => {
                match measured {
                    Err(error) => Some(self.finish(Err(error))),
                    Ok(size) => {
                        if size == 0 {
                            Some(self.put_empty())
                        } else {
                            Some(self.measured(size, None))
                        }
                    },
                }
            },
            (UploadStage::Measuring, UploadEvent::SourceFound(found)) if !self.reads_file() => {
                match found {
                    Err(error) => Some(self.finish(Err(error))),
                    Ok(head) => match checked_content_length(head.content_length) {
                        Err(error) => Some(self.finish(Err(error))),
                        Ok(size) => {
                            if size == 0 {
                                Some(self.put_empty())
                            } else {
                                match head.e_tag {
                                    None => Some(self.finish(Err(S3Error::FieldNotExist("etag")))),
                                    Some(e_tag) => Some(self.measured(size, Some(e_tag))),
                                }
                            }
                        },
                    },
                }
            },
            (UploadStage::Putting, UploadEvent::EmptyPut(result)) => Some(self.finish(result)),
            (UploadStage::Creating { plan, e_tag }, UploadEvent::Created(created)) => {
                match created {
                    Err(error) => Some(self.finish(Err(error))),
                    Ok(None) => Some(self.finish(Err(S3Error::FieldNotExist("upload_id")))),
                    Ok(Some(upload_id)) => {
                        let transfer = PartTransfer {
                            source: self.part_source(e_tag),
                            bucket: self.bucket.clone(),
                            key: self.key.clone(),
                            upload_id: upload_id.clone(),
                            plan,
                            workers: self.workers,
                        };
                        self.stage = UploadStage::Transferring { upload_id };
                        Some(UploadAction::TransferParts(transfer))
                    },
                }
            },
            (
                UploadStage::Transferring { upload_id },
                UploadEvent::PartsTransferred(transferred),
            ) => {
                match transferred {
                    Err(error) => Some(self.abort(upload_id.as_str(), error)),
                    Ok(parts) => {
                        let call = Call {
                            request: Request::CompleteMultipartUpload {
                                bucket: self.bucket.clone(),
                                key: self.key.clone(),
                                upload_id: upload_id.clone(),
                                parts: sort_parts(parts),
                            },
                            context: self.describe_complete(),
                            retried: true,
                        };
                        self.stage = UploadStage::Completing { upload_id };
                        Some(UploadAction::CallDestination(call))
                    },
                }
            },
            (UploadStage::Completing { upload_id }, UploadEvent::Completed(completed)) => {
                match completed {
                    Err(error) => Some(self.abort(upload_id.as_str(), error)),
                    Ok(()) => Some(self.finish(Ok(()))),
                }
            },
            (UploadStage::Aborting { error }, UploadEvent::Aborted(_)) => Some(
                self.finish(Err(error)),
            ),
            (stage, _) => {
                self.stage = stage;
                None
            },
        }
    }
}

impl S3Client {
    /// Uploads a local file in parts. An empty file is put in one request.
    pub fn upload_object_multipart(
        &self,
        bucket: &str,
        key: &str,
        local_path: &str,
        storage_class: Option<&str>,
    ) -> (started: (MultipartUpload, UploadAction))
        ensures
            (started.0@, started.1@) == (MultipartUploadView {
                source: UploadSourceView::File { path: local_path@ },
                bucket: bucket@,
                key: key@,
                storage_class: storage_class.deep_view(),
                part_size: self.multipart_part_size,
                workers: self.multipart_workers,
                stage: UploadStageView::Measuring,
            }).first(),
    {
        let source = UploadSource::File { path: local_path.to_owned() };
        MultipartUpload::start(self, source, bucket, key, storage_class)
    }

    /// Copies an object within one backend, in parts that the backend copies by itself. The
    /// object's bytes do not pass through this process.
    pub fn copy_object_multipart(
        &self,
        src_bucket: &str,
        src_key: &str,
        dst_bucket: &str,
        dst_key: &str,
        dst_storage_class: Option<&str>,
    ) -> (started: (MultipartUpload, UploadAction))
        ensures
            (started.0@, started.1@) == (MultipartUploadView {
                source: UploadSourceView::SameBackend { bucket: src_bucket@, key: src_key@ },
                bucket: dst_bucket@,
                key: dst_key@,
                storage_class: dst_storage_class.deep_view(),
                part_size: self.multipart_part_size,
                workers: self.multipart_workers,
                stage: UploadStageView::Measuring,
            }).first(),
    {
        let source = UploadSource::SameBackend {
            bucket: src_bucket.to_owned(),
            key: src_key.to_owned(),
        };
        MultipartUpload::start(self, source, dst_bucket, dst_key, dst_storage_class)
    }
}

/// What is said where the multipart settings of the two clients of a copy differ.
pub open spec fn settings_warning(src_client: S3Client, dst_client: S3Client) -> Option<Seq<char>> {
    if src_client.multipart_part_size == dst_client.multipart_part_size
        && src_client.multipart_workers == dst_client.multipart_workers {
        None
    } else {
        Some(
            "Source and destination multipart settings differ: source part_size="@ + text::decimal(
                src_client.multipart_part_size as nat,
            ) + " workers="@ + text::decimal(src_client.multipart_workers as nat)
                + ", destination part_size="@ + text::decimal(
                dst_client.multipart_part_size as nat,
            ) + " workers="@ + text::decimal(dst_client.multipart_workers as nat)
                + ". Using destination settings."@,
        )
    }
}

/// What is said where the multipart settings of the two clients of a copy differ.
pub fn warn_differing_settings(src_client: &S3Client, dst_client: &S3Client) -> (warning: Option<
    String,
>)
    ensures
        warning.deep_view() == settings_warning(*src_client, *dst_client),
{
    if src_client.multipart_part_size == dst_client.multipart_part_size
        && src_client.multipart_workers == dst_client.multipart_workers {
        return None;
    }
    let mut warning =
        "Source and destination multipart settings differ: source part_size=".to_owned();
    append_decimal(&mut warning, src_client.multipart_part_size);
    warning.append(" workers=");
    append_decimal(&mut warning, src_client.multipart_workers as u64);
    warning.append(", destination part_size=");
    append_decimal(&mut warning, dst_client.multipart_part_size);
    warning.append(" workers=");
    append_decimal(&mut warning, dst_client.multipart_workers as u64);
    warning.append(". Using destination settings.");
    Some(warning)
}

/// Copies an object between two clients, through memory.
///
/// Each worker fetches one part and sends it before it takes another one, so that about as many
/// parts are held in memory as there are workers. The part size and the number of workers are
/// those of the destination's client.
pub fn copy_object_multipart_cross_clients(
    dst_client: &S3Client,
    src_bucket: &str,
    src_key: &str,
    dst_bucket: &str,
    dst_key: &str,
    dst_storage_class: Option<&str>,
) -> (started: (MultipartUpload, UploadAction))
    ensures
        (started.0@, started.1@) == (MultipartUploadView {
            source: UploadSourceView::OtherClient { bucket: src_bucket@, key: src_key@ },
            bucket: dst_bucket@,
            key: dst_key@,
            storage_class: dst_storage_class.deep_view(),
            part_size: dst_client.multipart_part_size,
            workers: dst_client.multipart_workers,
            stage: UploadStageView::Measuring,
        }).first(),
{
    let source = UploadSource::OtherClient {
        bucket: src_bucket.to_owned(),
        key: src_key.to_owned(),
    };
    MultipartUpload::start(dst_client, source, dst_bucket, dst_key, dst_storage_class)
}

/// Where an upload stands and what has been done for it, once events have happened after it was
/// started. `None` if some event was not one that the upload waited for.
pub open spec fn history(
    started: (MultipartUploadView, UploadActionView),
    events: Seq<UploadEventView>,
) -> Option<(MultipartUploadView, Seq<UploadActionView>)>
    decreases events.len(),
{
    if events.len() == 0 {
        Some((started.0, seq![started.1]))
    } else {
        match history(started, events.drop_last()) {
            None => None,
            Some((upload, actions)) => match upload.step(events.last()) {
                None => None,
                Some((next, action)) => Some((next, actions.push(action))),
            },
        }
    }
}

/// The identifier of the upload that an event says to have been created.
pub open spec fn created_id(event: UploadEventView) -> Option<Seq<char>> {
    match event {
        UploadEventView::Created(Ok(Some(upload_id))) => Some(upload_id),
        _ => None,
    }
}

/// The action completes an upload.
pub open spec fn completes(action: UploadActionView, upload_id: Seq<char>) -> bool {
    action matches UploadActionView::CallDestination(call)
        && call.request matches RequestView::CompleteMultipartUpload { upload_id: id, .. } && id
        == upload_id
}

/// The action gives an upload up.
pub open spec fn aborts(action: UploadActionView, upload_id: Seq<char>) -> bool {
    action matches UploadActionView::CallDestination(call)
        && call.request matches RequestView::AbortMultipartUpload { upload_id: id, .. } && id
        == upload_id
}

/// The action creates an upload.
pub open spec fn creates(action: UploadActionView) -> bool {
    action matches UploadActionView::CallDestination(call)
        && call.request is CreateMultipartUpload
}

/// What holds of an upload that has been created, by what it waits for.
spec fn created_upload_is_cared_for(
    upload: MultipartUploadView,
    actions: Seq<UploadActionView>,
    events: Seq<UploadEventView>,
    upload_id: Seq<char>,
) -> bool {
    match upload.stage {
        UploadStageView::Measuring
        | UploadStageView::Putting
        | UploadStageView::Creating { .. } => false,
        UploadStageView::Transferring { upload_id: id } => id == upload_id,
        UploadStageView::Completing { upload_id: id } => id == upload_id && completes(
            actions.last(),
            upload_id,
        ),
        UploadStageView::Aborting { .. } => aborts(actions.last(), upload_id),
        UploadStageView::Finished => ends_completed(actions, events, upload_id) || ends_aborted(
            actions,
            upload_id,
        ),
    }
}

/// The upload was completed, and reported as a success.
pub open spec fn ends_completed(
    actions: Seq<UploadActionView>,
    events: Seq<UploadEventView>,
    upload_id: Seq<char>,
) -> bool {
    &&& actions.len() >= 2
    &&& completes(actions[actions.len() - 2], upload_id)
    &&& events.last() == UploadEventView::Completed(Ok(()))
    &&& actions.last() == UploadActionView::Finish(Ok(()))
}

/// The upload was given up, and reported as a failure.
pub open spec fn ends_aborted(actions: Seq<UploadActionView>, upload_id: Seq<char>) -> bool {
    &&& actions.len() >= 2
    &&& aborts(actions[actions.len() - 2], upload_id)
    &&& actions.last() matches UploadActionView::Finish(result) && result is Err
}

/// Every event leaves an upload that has been created cared for.
proof fn lemma_created_upload_is_cared_for(
    started: (MultipartUploadView, UploadActionView),
    events: Seq<UploadEventView>,
    k: int,
)
    requires
        history(started, events) is Some,
        0 <= k < events.len(),
        created_id(events[k]) is Some,
    ensures
        ({
            let (upload, actions) = history(started, events).unwrap();
            &&& actions.len() == events.len() + 1
            &&& created_upload_is_cared_for(
                upload,
                actions,
                events,
                created_id(events[k]).unwrap(),
            )
        }),
    decreases events.len(),
{
    let before = events.drop_last();
    let (upload, actions) = history(started, before).unwrap();
    lemma_one_action_for_each_event(started, before);
    if k < before.len() {
        assert(before[k] == events[k]);
        lemma_created_upload_is_cared_for(started, before, k);
        let (next, all) = history(started, events).unwrap();
        assert(all[all.len() - 2] == actions.last());
        if let UploadEventView::Completed(Ok(done)) = events.last() {
            assert(done == ());
        }
    }
}

/// An upload begins with an action, and each event brings one more.
proof fn lemma_one_action_for_each_event(
    started: (MultipartUploadView, UploadActionView),
    events: Seq<UploadEventView>,
)
    requires
        history(started, events) is Some,
    ensures
        history(started, events).unwrap().1.len() == events.len() + 1,
    decreases events.len(),
{
    if events.len() > 0 {
        lemma_one_action_for_each_event(started, events.drop_last());
    }
}

/// A multipart upload that was created is never left behind: when all is over, it was either
/// completed, which is reported as a success, or the service was asked to give it up, which is
/// reported as a failure.
pub proof fn lemma_created_upload_is_completed_or_aborted(
    started: (MultipartUploadView, UploadActionView),
    events: Seq<UploadEventView>,
    k: int,
)
    requires
        history(started, events) is Some,
        history(started, events).unwrap().0.stage is Finished,
        0 <= k < events.len(),
        created_id(events[k]) is Some,
    ensures
        ({
            let actions = history(started, events).unwrap().1;
            let upload_id = created_id(events[k]).unwrap();
            ends_completed(actions, events, upload_id) || ends_aborted(actions, upload_id)
        }),
{
    lemma_created_upload_is_cared_for(started, events, k);
}

/// The error that made an upload fail is what is reported, whatever comes of giving it up: the
/// first failure among moving the parts and completing the upload.
pub proof fn lemma_abort_does_not_hide_the_error(
    upload: MultipartUploadView,
    upload_id: Seq<char>,
    error: S3ErrorView,
    aborted: Result<(), S3ErrorView>,
)
    requires
        upload.stage == (UploadStageView::Transferring { upload_id }) || upload.stage == (
        UploadStageView::Completing { upload_id }),
    ensures
        ({
            let failed = if upload.stage is Transferring {
                UploadEventView::PartsTransferred(Err(error))
            } else {
                UploadEventView::Completed(Err(error))
            };
            &&& upload.step(failed) == Some(
                (
                    upload.at(UploadStageView::Aborting { error }),
                    UploadActionView::CallDestination(
                        client::abort_call(upload.bucket, upload.key, upload_id),
                    ),
                ),
            )
            &&& upload.at(UploadStageView::Aborting { error }).step(
                UploadEventView::Aborted(aborted),
            ) == Some(
                (
                    upload.at(UploadStageView::Finished),
                    UploadActionView::Finish(Err(error)),
                ),
            )
        }),
{
}

/// What holds of the creation of an upload, by what it waits for.
spec fn creation_is_under_control(
    upload: MultipartUploadView,
    actions: Seq<UploadActionView>,
) -> bool {
    &&& forall|i: int|
        0 <= i < actions.len() && creates(#[trigger] actions[i]) ==> (
        actions[i] matches UploadActionView::CallDestination(call) && !call.retried)
    &&& forall|i: int, j: int|
        0 <= i < j < actions.len() ==> !(creates(#[trigger] actions[i]) && creates(
            #[trigger] actions[j],
        ))
    &&& upload.stage is Measuring ==> forall|i: int|
        0 <= i < actions.len() ==> !creates(#[trigger] actions[i])
}

/// An upload is created at most once, and the call that creates it is not repeated if it fails:
/// no upload can be left behind because an answer was lost.
pub proof fn lemma_upload_is_created_at_most_once(
    upload: MultipartUploadView,
    events: Seq<UploadEventView>,
)
    requires
        history(upload.first(), events) is Some,
    ensures
        ({
            let actions = history(upload.first(), events).unwrap().1;
            &&& forall|i: int|
                0 <= i < actions.len() && creates(#[trigger] actions[i]) ==> (
                actions[i] matches UploadActionView::CallDestination(call) && !call.retried)
            &&& forall|i: int, j: int|
                0 <= i < j < actions.len() ==> !(creates(#[trigger] actions[i]) && creates(
                    #[trigger] actions[j],
                ))
        }),
{
    lemma_creation_is_under_control(upload, events);
}

/// Every event leaves the creation of an upload under control.
proof fn lemma_creation_is_under_control(upload: MultipartUploadView, events: Seq<UploadEventView>)
    requires
        history(upload.first(), events) is Some,
    ensures
        creation_is_under_control(
            history(upload.first(), events).unwrap().0,
            history(upload.first(), events).unwrap().1,
        ),
    decreases events.len(),
{
    if events.len() > 0 {
        lemma_creation_is_under_control(upload, events.drop_last());
    }
}

/// The plan that an upload follows, while it is known.
spec fn plan_is_sound(upload: MultipartUploadView, action: UploadActionView) -> bool {
    &&& upload.stage matches UploadStageView::Creating { plan, .. } ==> plan.wf()
        && plan.object_size > 0
    &&& action matches UploadActionView::TransferParts(transfer) ==> transfer.plan.wf()
        && transfer.plan.object_size > 0
}

/// The parts that an upload moves are those of a sound plan for an object that is not empty.
pub proof fn lemma_transferred_parts_are_planned(
    upload: MultipartUploadView,
    events: Seq<UploadEventView>,
)
    requires
        history(upload.first(), events) is Some,
    ensures
        history(upload.first(), events).unwrap().1.last() matches UploadActionView::TransferParts(
            transfer,
        ) ==> transfer.plan.wf() && transfer.plan.object_size > 0,
{
    lemma_plan_is_sound(upload, events);
}

/// Every event leaves the plan of an upload sound.
proof fn lemma_plan_is_sound(upload: MultipartUploadView, events: Seq<UploadEventView>)
    requires
        history(upload.first(), events) is Some,
    ensures
        plan_is_sound(
            history(upload.first(), events).unwrap().0,
            history(upload.first(), events).unwrap().1.last(),
        ),
    decreases events.len(),
{
    if events.len() > 0 {
        lemma_plan_is_sound(upload, events.drop_last());
        let before = history(upload.first(), events.drop_last()).unwrap().0;
        assert forall|size: u64, e_tag: Option<Seq<char>>| size > 0 implies plan_is_sound(
            (#[trigger] before.measured(size, e_tag)).0,
            before.measured(size, e_tag).1,
        ) by {
            multipart::lemma_plan_is_for_the_object(
                size,
                if before.part_size < MULTIPART_MIN_PART_SIZE {
                    MULTIPART_MIN_PART_SIZE
                } else if before.part_size > MULTIPART_MAX_PART_SIZE {
                    MULTIPART_MAX_PART_SIZE
                } else {
                    before.part_size
                },
                Some(MULTIPART_MAX_PARTS),
            );
        }
    }
}

/// How many events an upload can still wait for.
pub open spec fn events_left(stage: UploadStageView) -> nat {
    match stage {
        UploadStageView::Measuring => 5,
        UploadStageView::Creating { .. } => 4,
        UploadStageView::Transferring { .. } => 3,
        UploadStageView::Completing { .. } => 2,
        UploadStageView::Putting => 1,
        UploadStageView::Aborting { .. } => 1,
        UploadStageView::Finished => 0,
    }
}

/// An upload comes to its end: each event that it waits for leaves it fewer to wait for, and it
/// is over exactly when it waits for none.
pub proof fn lemma_upload_ends(upload: MultipartUploadView, event: UploadEventView)
    requires
        upload.step(event) is Some,
    ensures
        ({
            let (next, action) = upload.step(event).unwrap();
            &&& events_left(next.stage) < events_left(upload.stage)
            &&& action is Finish <==> next.stage is Finished
        }),
{
}

/// All parts of a copy are read from the object that was found at first: a part of an object that
/// has taken its place since is not read.
pub proof fn lemma_copy_reads_the_object_it_found(
    upload: MultipartUploadView,
    head: ObjectHead,
    upload_id: Seq<char>,
    part: MultipartPart,
)
    requires
        upload.stage is Measuring,
        upload.step(UploadEventView::SourceFound(Ok(head))) is Some,
        upload.step(UploadEventView::SourceFound(Ok(head))).unwrap().0.stage is Creating,
    ensures
        ({
            let found = upload.step(UploadEventView::SourceFound(Ok(head))).unwrap().0;
            &&& head.e_tag is Some
            &&& found.step(UploadEventView::Created(Ok(Some(upload_id)))) matches Some((_, action))
                && action matches UploadActionView::TransferParts(transfer) && part::reads_only(
                transfer.first_call(part),
                head.e_tag.unwrap()@,
            )
        }),
{
}

/// The action belongs to the upload that was started: it reads the source, writes to the
/// destination under the storage class asked for, and moves the parts with the workers asked for.
pub open spec fn belongs_to_upload(upload: MultipartUploadView, action: UploadActionView) -> bool {
    match action {
        UploadActionView::MeasureFile { path } => upload.source == (UploadSourceView::File { path }),
        UploadActionView::CallSource(call) => call.retried && match call.request {
            RequestView::HeadObject { bucket, key } => upload.source == (
            UploadSourceView::SameBackend { bucket, key }) || upload.source == (
            UploadSourceView::OtherClient { bucket, key }),
            _ => false,
        },
        UploadActionView::CallDestination(call) => match call.request {
            RequestView::PutObject { bucket, key, body, storage_class } => {
                &&& bucket == upload.bucket
                &&& key == upload.key
                &&& storage_class == upload.storage_class
                &&& body matches BodyView::Bytes(bytes) && bytes.len() == 0
                &&& call.retried
            },
            RequestView::CreateMultipartUpload { bucket, key, storage_class } => {
                &&& bucket == upload.bucket
                &&& key == upload.key
                &&& storage_class == upload.storage_class
                &&& !call.retried
            },
            RequestView::CompleteMultipartUpload { bucket, key, .. } => bucket == upload.bucket
                && key == upload.key && call.retried,
            RequestView::AbortMultipartUpload { bucket, key, .. } => bucket == upload.bucket && key
                == upload.key && call.retried,
            _ => false,
        },
        UploadActionView::TransferParts(transfer) => {
            &&& transfer.bucket == upload.bucket
            &&& transfer.key == upload.key
            &&& transfer.workers == upload.workers
            &&& match transfer.source {
                PartSourceView::File { path } => upload.source == (UploadSourceView::File { path }),
                PartSourceView::SameBackend { bucket, key, .. } => upload.source == (
                UploadSourceView::SameBackend { bucket, key }),
                PartSourceView::OtherClient { bucket, key, .. } => upload.source == (
                UploadSourceView::OtherClient { bucket, key }),
            }
        },
        UploadActionView::Finish(_) => true,
    }
}

/// The size that the source is said to have.
pub open spec fn told_size(event: UploadEventView) -> Option<int> {
    match event {
        UploadEventView::FileMeasured(Ok(size)) => Some(size as int),
        UploadEventView::SourceFound(Ok(head)) => match head.content_length {
            Some(length) => Some(length as int),
            None => None,
        },
        _ => None,
    }
}

/// The tag that the source is said to have.
pub open spec fn told_tag(event: UploadEventView) -> Option<Seq<char>> {
    match event {
        UploadEventView::SourceFound(Ok(head)) => match head.e_tag {
            Some(e_tag) => Some(e_tag@),
            None => None,
        },
        _ => None,
    }
}

/// The error that an event brings, other than one of giving the upload up.
pub open spec fn told_error(event: UploadEventView) -> Option<S3ErrorView> {
    match event {
        UploadEventView::FileMeasured(Err(error)) => Some(error),
        UploadEventView::SourceFound(Err(error)) => Some(error),
        UploadEventView::EmptyPut(Err(error)) => Some(error),
        UploadEventView::Created(Err(error)) => Some(error),
        UploadEventView::PartsTransferred(Err(error)) => Some(error),
        UploadEventView::Completed(Err(error)) => Some(error),
        _ => None,
    }
}

/// A size that an object in parts can have: from one byte up to 10,000 parts of 5 GiB.
pub open spec fn is_multipart_size(size: int) -> bool {
    0 < size <= 10_000 * (5 * 1024 * 1024 * 1024)
}

/// The parts have the size that the upload was started with, wherever S3 accepts it: from 5 MiB to
/// 5 GiB, and large enough for 10,000 parts to hold the object.
pub open spec fn is_planned_for(upload: MultipartUploadView, plan: MultipartPlan) -> bool {
    &&& MultipartPlan::planned_upload(plan.object_size, upload.part_size) == Ok::<
        MultipartPlan,
        S3ErrorView,
    >(plan)
    &&& 5 * 1024 * 1024 <= upload.part_size <= 5 * 1024 * 1024 * 1024 && plan.object_size
        <= upload.part_size * 10_000 ==> plan.part_size == upload.part_size
}

/// An answer that an upload cannot go on with, and the error that says so.
pub open spec fn is_refused(event: UploadEventView, error: S3ErrorView) -> bool {
    match event {
        UploadEventView::FileMeasured(Ok(size)) => size != 0 && !is_multipart_size(size as int)
            && error is ValidationError,
        UploadEventView::SourceFound(Ok(head)) => match head.content_length {
            None => error == S3ErrorView::FieldNotExist("content_length"@),
            Some(length) => if length > 0 && head.e_tag is None {
                error == S3ErrorView::FieldNotExist("etag"@)
            } else {
                length != 0 && !is_multipart_size(length as int) && error is ValidationError
            },
        },
        UploadEventView::Created(Ok(None)) => error == S3ErrorView::FieldNotExist("upload_id"@),
        _ => false,
    }
}

/// The action is the one to take after these events: it uses the size and the tag of the source
/// that was found, the identifier of the upload that was created and the parts that were moved, and
/// the end that it reports is the one that came.
pub open spec fn follows_from(
    upload: MultipartUploadView,
    action: UploadActionView,
    events: Seq<UploadEventView>,
) -> bool {
    match action {
        UploadActionView::MeasureFile { .. } | UploadActionView::CallSource(_) => events.len() == 0
            && upload.workers > 0,
        UploadActionView::CallDestination(call) => match call.request {
            RequestView::PutObject { .. } => events.len() == 1 && told_size(events[0]) == Some(0int),
            RequestView::CreateMultipartUpload { .. } => {
                &&& events.len() == 1
                &&& told_size(events[0]) matches Some(size) && is_multipart_size(size)
                &&& upload.source is File || told_tag(events[0]) is Some
            },
            RequestView::CompleteMultipartUpload { upload_id, parts, .. } => {
                &&& events.len() == 3
                &&& created_id(events[1]) == Some(upload_id)
                &&& events[2] matches UploadEventView::PartsTransferred(Ok(moved))
                    && parts.to_multiset() == moved.to_multiset()
                &&& forall|i: int, j: int|
                    0 <= i <= j < parts.len() ==> #[trigger] parts[i].part_number
                        <= #[trigger] parts[j].part_number
            },
            RequestView::AbortMultipartUpload { upload_id, .. } => {
                &&& events.len() == 3 || events.len() == 4
                &&& created_id(events[1]) == Some(upload_id)
                &&& told_error(events.last()) is Some
            },
            _ => false,
        },
        UploadActionView::TransferParts(transfer) => {
            &&& events.len() == 2
            &&& created_id(events[1]) == Some(transfer.upload_id)
            &&& told_size(events[0]) == Some(transfer.plan.object_size as int)
            &&& is_planned_for(upload, transfer.plan)
            &&& transfer.plan.wf()
            &&& 0 < transfer.plan.part_count <= 10_000
            &&& 5 * 1024 * 1024 <= transfer.plan.part_size <= 5 * 1024 * 1024 * 1024
            &&& match transfer.source {
                PartSourceView::File { .. } => true,
                PartSourceView::SameBackend { e_tag, .. }
                | PartSourceView::OtherClient { e_tag, .. } => told_tag(events[0]) == Some(e_tag),
            }
        },
        UploadActionView::Finish(Ok(_)) => events.len() > 0 && (events.last()
            == UploadEventView::EmptyPut(Ok(())) || events.last() == UploadEventView::Completed(
            Ok(()),
        )),
        UploadActionView::Finish(Err(error)) => {
            ||| events.len() == 0 && upload.workers == 0 && error is ValidationError
            ||| 1 <= events.len() <= 2 && (told_error(events.last()) == Some(error) || is_refused(
                events.last(),
                error,
            ))
            ||| events.len() >= 4 && events.last() is Aborted && told_error(
                events[events.len() - 2],
            ) == Some(error)
        },
    }
}

/// Where an upload stands after events, by what it waits for.
spec fn stands(
    upload: MultipartUploadView,
    now: MultipartUploadView,
    events: Seq<UploadEventView>,
) -> bool {
    &&& now == upload.at(now.stage)
    &&& match now.stage {
        UploadStageView::Measuring => events.len() == 0 && upload.workers > 0,
        UploadStageView::Putting => events.len() == 1 && told_size(events[0]) == Some(0int),
        UploadStageView::Creating { plan, e_tag } => {
            &&& events.len() == 1
            &&& told_size(events[0]) == Some(plan.object_size as int)
            &&& is_multipart_size(plan.object_size as int)
            &&& is_planned_for(upload, plan)
            &&& plan.wf()
            &&& 0 < plan.part_count <= 10_000
            &&& 5 * 1024 * 1024 <= plan.part_size <= 5 * 1024 * 1024 * 1024
            &&& e_tag == told_tag(events[0])
            &&& upload.source is File || e_tag is Some
        },
        UploadStageView::Transferring { upload_id } => events.len() == 2 && created_id(events[1])
            == Some(upload_id),
        UploadStageView::Completing { upload_id } => events.len() == 3 && created_id(events[1])
            == Some(upload_id),
        UploadStageView::Aborting { error } => events.len() >= 3 && told_error(events.last())
            == Some(error),
        UploadStageView::Finished => true,
    }
}

/// What an upload makes of the size of its source.
proof fn lemma_measured(upload: MultipartUploadView, size: u64, e_tag: Option<Seq<char>>)
    requires
        size > 0,
    ensures
        is_multipart_size(size as int) <==> upload.measured(size, e_tag).0.stage is Creating,
        is_multipart_size(size as int) ==> {
            &&& upload.measured(size, e_tag).0.stage matches UploadStageView::Creating {
                plan,
                e_tag: tag,
            } && tag == e_tag && plan.wf() && plan.object_size == size && is_planned_for(
                upload,
                plan,
            ) && 0 < plan.part_count
                <= 10_000 && 5 * 1024 * 1024 <= plan.part_size <= 5 * 1024 * 1024 * 1024
            &&& creates(upload.measured(size, e_tag).1)
        },
        !is_multipart_size(size as int) ==> (upload.measured(
            size,
            e_tag,
        ).1 matches UploadActionView::Finish(Err(error)) && error is ValidationError),
{
    let asked = if upload.part_size < MULTIPART_MIN_PART_SIZE {
        MULTIPART_MIN_PART_SIZE
    } else if upload.part_size > MULTIPART_MAX_PART_SIZE {
        MULTIPART_MAX_PART_SIZE
    } else {
        upload.part_size
    };
    if is_multipart_size(size as int) {
        multipart::lemma_upload_plan_is_within_limits(size, upload.part_size);
        multipart::lemma_upload_keeps_an_accepted_part_size(size, upload.part_size);
        multipart::lemma_plan_is_for_the_object(size, asked, Some(MULTIPART_MAX_PARTS));
        let plan = MultipartPlan::planned_upload(size, upload.part_size)->Ok_0;
        multipart::lemma_parts_partition_object(plan);
    }
}

/// Every event leaves an upload where it should stand, with the action that it should take.
proof fn lemma_upload_stands(upload: MultipartUploadView, events: Seq<UploadEventView>)
    requires
        history(upload.first(), events) is Some,
    ensures
        ({
            let (now, actions) = history(upload.first(), events).unwrap();
            &&& actions.len() == events.len() + 1
            &&& stands(upload, now, events)
            &&& belongs_to_upload(upload, actions.last())
            &&& follows_from(upload, actions.last(), events)
        }),
    decreases events.len(),
{
    if events.len() > 0 {
        let before = events.drop_last();
        lemma_upload_stands(upload, before);
        let (earlier, _) = history(upload.first(), before).unwrap();
        assert(forall|i: int| 0 <= i < before.len() ==> before[i] == events[i]);
        match events.last() {
            UploadEventView::FileMeasured(Ok(size)) => {
                if size > 0 {
                    lemma_measured(earlier, size, None);
                }
            },
            UploadEventView::SourceFound(Ok(head)) => {
                if let Some(length) = head.content_length {
                    if length > 0 {
                        lemma_measured(earlier, length as u64, told_tag(events.last()));
                    }
                }
            },
            UploadEventView::PartsTransferred(Ok(moved)) => {
                part::lemma_ordered_parts_are_the_same_parts(moved);
            },
            UploadEventView::EmptyPut(Ok(done)) => {
                assert(done == ());
            },
            UploadEventView::Completed(Ok(done)) => {
                assert(done == ());
            },
            _ => {},
        }
    }
}

/// All that an upload does, from its start to its end, is right: each action belongs to the source,
/// the destination and the storage class that the upload was started with, and follows from what
/// has happened before it.
pub proof fn lemma_upload_does_what_it_was_started_for(
    upload: MultipartUploadView,
    events: Seq<UploadEventView>,
)
    requires
        history(upload.first(), events) is Some,
    ensures
        ({
            let actions = history(upload.first(), events).unwrap().1;
            &&& actions.len() == events.len() + 1
            &&& forall|i: int|
                0 <= i < actions.len() ==> belongs_to_upload(upload, #[trigger] actions[i])
                    && follows_from(upload, actions[i], events.take(i))
        }),
    decreases events.len(),
{
    lemma_upload_stands(upload, events);
    let actions = history(upload.first(), events).unwrap().1;
    assert(events.take(events.len() as int) =~= events);
    if events.len() > 0 {
        let before = events.drop_last();
        lemma_upload_does_what_it_was_started_for(upload, before);
        let earlier = history(upload.first(), before).unwrap().1;
        assert forall|i: int| 0 <= i < actions.len() implies belongs_to_upload(
            upload,
            #[trigger] actions[i],
        ) && follows_from(upload, actions[i], events.take(i)) by {
            if i < earlier.len() {
                assert(actions[i] == earlier[i]);
                assert(events.take(i) =~= before.take(i));
            }
        }
    }
}

/// The answer with which an upload learns of its source: the size of a file, or what the source
/// says of an object, with its tag.
pub open spec fn finds_source(
    upload: MultipartUploadView,
    event: UploadEventView,
    size: int,
) -> bool {
    &&& told_size(event) == Some(size)
    &&& upload.source is File <==> event is FileMeasured
    &&& event is SourceFound && size > 0 ==> told_tag(event) is Some
}

/// An upload or copy of an object that S3 can hold comes to its end when nothing fails: it creates
/// an upload, moves the parts, completes the upload and reports success.
pub proof fn lemma_upload_succeeds_if_nothing_fails(
    upload: MultipartUploadView,
    found: UploadEventView,
    size: int,
    upload_id: Seq<char>,
    parts: Seq<CompletedPartView>,
)
    requires
        upload.workers > 0,
        is_multipart_size(size),
        finds_source(upload, found, size),
    ensures
        ({
            let events = seq![
                found,
                UploadEventView::Created(Ok(Some(upload_id))),
                UploadEventView::PartsTransferred(Ok(parts)),
                UploadEventView::Completed(Ok(())),
            ];
            history(upload.first(), events) matches Some((_, actions)) && actions.len() == 5
                && creates(actions[1]) && actions[2] is TransferParts && completes(
                actions[3],
                upload_id,
            ) && actions[4] == UploadActionView::Finish(Ok(()))
        }),
{
    reveal_with_fuel(history, 5);
    let one = seq![found];
    let two = one.push(UploadEventView::Created(Ok(Some(upload_id))));
    let three = two.push(UploadEventView::PartsTransferred(Ok(parts)));
    let four = three.push(UploadEventView::Completed(Ok(())));
    assert(one.drop_last() =~= Seq::<UploadEventView>::empty());
    assert(two.drop_last() =~= one);
    assert(three.drop_last() =~= two);
    assert(four.drop_last() =~= three);
    assert(four =~= seq![
        found,
        UploadEventView::Created(Ok(Some(upload_id))),
        UploadEventView::PartsTransferred(Ok(parts)),
        UploadEventView::Completed(Ok(())),
    ]);
    lemma_measured(upload.first().0, size as u64, told_tag(found));
}

/// An empty file or object is put at once, and what comes of that is what is reported.
pub proof fn lemma_empty_source_is_put_at_once(
    upload: MultipartUploadView,
    found: UploadEventView,
    put: Result<(), S3ErrorView>,
)
    requires
        upload.workers > 0,
        finds_source(upload, found, 0),
    ensures
        history(upload.first(), seq![found, UploadEventView::EmptyPut(put)]) matches Some(
            (_, actions),
        ) && actions.len() == 3 && (actions[1] matches UploadActionView::CallDestination(call)
            && call.request is PutObject) && actions[2] == UploadActionView::Finish(put),
{
    reveal_with_fuel(history, 3);
    let one = seq![found];
    let two = one.push(UploadEventView::EmptyPut(put));
    assert(one.drop_last() =~= Seq::<UploadEventView>::empty());
    assert(two.drop_last() =~= one);
    assert(two =~= seq![found, UploadEventView::EmptyPut(put)]);
}

/// A failure is never passed over: before an upload was created, it ends at once with the error,
/// and afterwards the upload that was created is given up.
pub proof fn lemma_failure_is_not_passed_over(
    upload: MultipartUploadView,
    events: Seq<UploadEventView>,
    error: S3ErrorView,
)
    requires
        history(upload.first(), events) is Some,
        events.len() > 0,
        told_error(events.last()) == Some(error),
    ensures
        ({
            let action = history(upload.first(), events).unwrap().1.last();
            if events.len() <= 2 {
                action == UploadActionView::Finish(Err(error))
            } else {
                created_id(events[1]) matches Some(upload_id) && aborts(action, upload_id)
            }
        }),
{
    lemma_upload_stands(upload, events);
    lemma_upload_stands(upload, events.drop_last());
    assert(events.len() > 2 ==> events.drop_last()[1] == events[1]);
}

/// Nothing is said of the settings of two clients exactly if they are the same.
pub proof fn lemma_same_settings_are_not_warned_of(src_client: S3Client, dst_client: S3Client)
    ensures
        settings_warning(src_client, dst_client) is None <==> (src_client.multipart_part_size
            == dst_client.multipart_part_size && src_client.multipart_workers
            == dst_client.multipart_workers),
{
}

/// The event answers the action.
pub open spec fn answers(event: UploadEventView, action: UploadActionView) -> bool {
    match action {
        UploadActionView::MeasureFile { .. } => event is FileMeasured,
        UploadActionView::CallSource(_) => event is SourceFound,
        UploadActionView::CallDestination(call) => match call.request {
            RequestView::PutObject { .. } => event is EmptyPut,
            RequestView::CreateMultipartUpload { .. } => event is Created,
            RequestView::CompleteMultipartUpload { .. } => event is Completed,
            RequestView::AbortMultipartUpload { .. } => event is Aborted,
            _ => false,
        },
        UploadActionView::TransferParts(_) => event is PartsTransferred,
        UploadActionView::Finish(_) => false,
    }
}

/// An upload goes on after every answer to what it has asked for, and after no other event.
pub proof fn lemma_upload_takes_every_answer(
    upload: MultipartUploadView,
    events: Seq<UploadEventView>,
    event: UploadEventView,
)
    requires
        history(upload.first(), events) is Some,
    ensures
        history(upload.first(), events.push(event)) is Some <==> answers(
            event,
            history(upload.first(), events).unwrap().1.last(),
        ),
{
    assert(events.push(event).drop_last() =~= events);
    lemma_upload_stands(upload, events);
    if events.len() > 0 {
        lemma_upload_stands(upload, events.drop_last());
    }
}

/// What a call of an upload is reported as if it fails names the object that the call is about: the
/// source, or the destination.
pub proof fn lemma_upload_failures_name_their_object(upload: MultipartUploadView)
    ensures
        match upload.source {
            UploadSourceView::File { .. } => true,
            UploadSourceView::SameBackend { bucket, key }
            | UploadSourceView::OtherClient { bucket, key } => text::contains_text(
                upload.head_context(),
                bucket,
            ) && text::contains_text(upload.head_context(), key),
        },
        text::contains_text(upload.create_context(), upload.bucket),
        text::contains_text(upload.create_context(), upload.key),
        text::contains_text(upload.complete_context(), upload.bucket),
        text::contains_text(upload.complete_context(), upload.key),
{
    let none = Seq::<char>::empty();
    match upload.source {
        UploadSourceView::File { .. } => {
            let head = "<"@ + "upload_object_multipart"@ + "> bucket="@;
            lemma_names_in_context(
                upload.create_context(),
                head,
                upload.bucket,
                " key="@,
                upload.key,
                none,
            );
        },
        UploadSourceView::SameBackend { bucket, key } => {
            let head = "<"@ + "copy_object_multipart"@ + "> src_bucket="@;
            let tail = " dst_bucket="@ + upload.bucket + " dst_key="@ + upload.key;
            assert(upload.create_context() =~= head + bucket + " src_key="@ + key + tail);
            lemma_names_in_context(
                upload.create_context(),
                head,
                bucket,
                " src_key="@,
                key,
                tail,
            );
            lemma_names_in_context(
                upload.create_context(),
                head + bucket + " src_key="@ + key + " dst_bucket="@,
                upload.bucket,
                " dst_key="@,
                upload.key,
                none,
            );
        },
        UploadSourceView::OtherClient { bucket, key } => {
            lemma_names_in_context(
                upload.head_context(),
                "<copy_object_multipart_cross_clients> source HEAD bucket="@,
                bucket,
                " key="@,
                key,
                none,
            );
            lemma_names_in_context(
                upload.create_context(),
                "<copy_object_multipart_cross_clients> create upload bucket="@,
                upload.bucket,
                " key="@,
                upload.key,
                none,
            );
            lemma_names_in_context(
                upload.complete_context(),
                "<copy_object_multipart_cross_clients> complete upload dst_bucket="@,
                upload.bucket,
                " dst_key="@,
                upload.key,
                none,
            );
        },
    }
}

/// A context that is made of two names with texts around them holds both.
proof fn lemma_names_in_context(
    context: Seq<char>,
    head: Seq<char>,
    first: Seq<char>,
    between: Seq<char>,
    second: Seq<char>,
    tail: Seq<char>,
)
    requires
        context == head + first + between + second + tail || (tail.len() == 0 && context == head
            + first + between + second),
    ensures
        text::contains_text(context, first),
        text::contains_text(context, second),
{
    let rest = between + second + tail;
    assert(context =~= head + first + rest);
    text::lemma_piece_stands_in_text(head, first, rest);
    assert(context =~= head + first + between + second + tail);
    text::lemma_piece_stands_in_text(head + first + between, second, tail);
}

} // verus!

//! Downloads to local files. A download goes to a temporary file, which takes the place of the
//! wanted file once it is complete.

use crate::client;
use crate::client::S3Client;
use crate::error;
use crate::error::{S3Error, S3ErrorView};
use crate::multipart;
use crate::multipart::{
    byte_range, count_received, requested_range, validate_content_range, validate_received,
    MultipartPart, MultipartPlan,
};
use crate::object;
use crate::object::{object_info, ObjectHead, ObjectInfo, ObjectInfoView};
use crate::request;
use crate::request::{describe_object, Call, CallView, Request, RequestView};
use crate::text;
use crate::text::append_signed_decimal;
use crate::time::Timestamp;
use vstd::prelude::*;

verus! {

/// The parts of an object, to be written into a file.
#[derive(Debug)]
pub struct PartDownload {
    pub bucket: String,
    pub key: String,
    pub e_tag: String,
    /// The file, which exists.
    pub path: String,
    pub plan: MultipartPlan,
    /// How many parts are downloaded at the same time.
    pub workers: usize,
}

/// The model of [`PartDownload`].
pub struct PartDownloadView {
    pub bucket: Seq<char>,
    pub key: Seq<char>,
    pub e_tag: Seq<char>,
    pub path: Seq<char>,
    pub plan: MultipartPlan,
    pub workers: usize,
}

impl View for PartDownload {
    type V = PartDownloadView;

    open spec fn view(&self) -> PartDownloadView {
        PartDownloadView {
            bucket: self.bucket@,
            key: self.key@,
            e_tag: self.e_tag@,
            path: self.path@,
            plan: self.plan,
            workers: self.workers,
        }
    }
}

impl DeepView for PartDownload {
    type V = PartDownloadView;

    open spec fn deep_view(&self) -> PartDownloadView {
        self@
    }
}

impl PartDownloadView {
    /// What the download of a part is reported as if it fails.
    pub open spec fn part_context(self, part: MultipartPart) -> Seq<char> {
        request::object_context("download_object_multipart"@, self.bucket, self.key)
            + " download_part_index="@ + text::signed_decimal(part.number - 1)
    }

    /// The call that gets a part. It succeeds only as long as the object is the one that was
    /// found at first.
    pub open spec fn part_call(self, part: MultipartPart) -> CallView {
        CallView {
            request: RequestView::GetObject {
                bucket: self.bucket,
                key: self.key,
                range: Some(multipart::range_text(part.start as int, part.end as int)),
                if_match: Some(self.e_tag),
            },
            context: self.part_context(part),
            retried: true,
        }
    }

    /// The receipt for a part, by the range that the answer declares, or why there is none.
    pub open spec fn receipt(self, part: MultipartPart, content_range: Option<Seq<char>>) -> Result<
        PartReceiptView,
        S3ErrorView,
    > {
        match multipart::checked_content_range(
            content_range,
            part,
            self.plan.object_size,
            self.part_context(part),
        ) {
            Ok(_) => Ok(PartReceiptView { part, context: self.part_context(part), received: 0 }),
            Err(error) => Err(error),
        }
    }

    /// Whether a part is received, by the range that the answer declares and the pieces in which
    /// its body comes in.
    pub open spec fn received(
        self,
        part: MultipartPart,
        content_range: Option<Seq<char>>,
        pieces: Seq<Seq<u8>>,
    ) -> Result<(), S3ErrorView> {
        match self.receipt(part, content_range) {
            Ok(receipt) => match receipt.after(pieces) {
                Ok(receipt) => receipt.finished(),
                Err(error) => Err(error),
            },
            Err(error) => Err(error),
        }
    }

    /// A file once a part has come in.
    pub open spec fn file_with(
        self,
        file: Seq<u8>,
        part: MultipartPart,
        content_range: Option<Seq<char>>,
        pieces: Seq<Seq<u8>>,
    ) -> Seq<u8> {
        match self.receipt(part, content_range) {
            Ok(receipt) => receipt.written(file, pieces),
            Err(_) => file,
        }
    }

    /// An empty file once answers to the calls for parts have come in.
    pub open spec fn file_after(self, answers: Seq<PartAnswerView>) -> Seq<u8>
        decreases answers.len(),
    {
        if answers.len() == 0 {
            Seq::empty()
        } else {
            let answer = answers.last();
            self.file_with(
                self.file_after(answers.drop_last()),
                self.plan.parts_spec()[answer.index],
                answer.content_range,
                answer.pieces,
            )
        }
    }
}

/// The answer to the call for the part of a plan at an index: the range that it declares, and the
/// pieces in which its body comes in.
pub struct PartAnswerView {
    pub index: int,
    pub content_range: Option<Seq<char>>,
    pub pieces: Seq<Seq<u8>>,
}

impl PartDownload {
    /// What the download of a part is reported as if it fails.
    pub fn part_context(&self, part: MultipartPart) -> (context: String)
        requires
            part.wf(),
        ensures
            context@ == self@.part_context(part),
    {
        let mut context = describe_object(
            "download_object_multipart",
            self.bucket.as_str(),
            self.key.as_str(),
        ).concat(" download_part_index=");
        append_signed_decimal(&mut context, part.number as i64 - 1);
        context
    }

    /// The call that gets a part. Its bytes go into the file from the part's start on.
    pub fn part_call(&self, part: MultipartPart) -> (call: Call)
        requires
            part.wf(),
        ensures
            call@ == self@.part_call(part),
    {
        Call {
            request: Request::GetObject {
                bucket: self.bucket.clone(),
                key: self.key.clone(),
                range: Some(byte_range(part.start, part.end)),
                if_match: Some(self.e_tag.clone()),
            },
            context: self.part_context(part),
            retried: true,
        }
    }

    /// Begins to receive a part. It is an error if the answer does not declare the range of the
    /// part; then its body is not read.
    pub fn receive_part(&self, part: MultipartPart, content_range: Option<&str>) -> (receipt:
        Result<PartReceipt, S3Error>)
        requires
            part.wf(),
        ensures
            receipt_result(receipt) == self@.receipt(part, content_range.deep_view()),
            receipt matches Ok(receipt) ==> receipt.wf(),
    {
        let context = self.part_context(part);
        match validate_content_range(
            content_range,
            part,
            self.plan.object_size,
            context.as_str(),
        ) {
            Ok(_) => Ok(PartReceipt { part, context, received: 0 }),
            Err(error) => Err(error),
        }
    }
}

/// A part whose answer declares its range, while the body of the answer comes in piece by piece.
#[derive(Debug)]
pub struct PartReceipt {
    part: MultipartPart,
    context: String,
    received: u64,
}

/// The model of [`PartReceipt`].
pub struct PartReceiptView {
    pub part: MultipartPart,
    /// What the download of the part is reported as if it fails.
    pub context: Seq<char>,
    /// How many bytes have come in.
    pub received: u64,
}

impl View for PartReceipt {
    type V = PartReceiptView;

    closed spec fn view(&self) -> PartReceiptView {
        PartReceiptView { part: self.part, context: self.context@, received: self.received }
    }
}

/// The result of beginning to receive a part, as the contracts see it.
pub open spec fn receipt_result(r: Result<PartReceipt, S3Error>) -> Result<
    PartReceiptView,
    S3ErrorView,
> {
    match r {
        Ok(receipt) => Ok(receipt@),
        Err(error) => Err(error@),
    }
}

impl PartReceiptView {
    /// Where the next piece goes in the file.
    pub open spec fn offset(self) -> int {
        self.part.start + self.received
    }

    /// The error for an answer that has another number of bytes than the part.
    pub open spec fn unexpected_length(self, length: u64) -> S3ErrorView {
        S3ErrorView::UnexpectedContentLength(
            self.context,
            (self.part.end - self.part.start) as u64,
            length,
        )
    }

    /// The receipt once another piece has come in.
    pub open spec fn took(self, piece_length: nat) -> Result<PartReceiptView, S3ErrorView> {
        if self.received + piece_length <= u64::MAX {
            Ok(PartReceiptView { received: (self.received + piece_length) as u64, ..self })
        } else {
            Err(self.unexpected_length(u64::MAX))
        }
    }

    /// Whether the part has been received, once the body of the answer has come to its end.
    pub open spec fn finished(self) -> Result<(), S3ErrorView> {
        if self.received == self.part.end - self.part.start {
            Ok(())
        } else {
            Err(self.unexpected_length(self.received))
        }
    }

    /// The receipt once pieces have come in, one after another.
    pub open spec fn after(self, pieces: Seq<Seq<u8>>) -> Result<PartReceiptView, S3ErrorView>
        decreases pieces.len(),
    {
        if pieces.len() == 0 {
            Ok(self)
        } else {
            match self.after(pieces.drop_last()) {
                Ok(receipt) => receipt.took(pieces.last().len()),
                Err(error) => Err(error),
            }
        }
    }

    /// A file once pieces have come in, each of which was written to it where the receipt said.
    pub open spec fn written(self, file: Seq<u8>, pieces: Seq<Seq<u8>>) -> Seq<u8>
        decreases pieces.len(),
    {
        if pieces.len() == 0 {
            file
        } else {
            let before = self.written(file, pieces.drop_last());
            match self.after(pieces.drop_last()) {
                Ok(receipt) => multipart::written_at(before, receipt.offset(), pieces.last()),
                Err(_) => before,
            }
        }
    }
}

impl PartReceipt {
    /// The part is one that can be asked for.
    pub open spec fn wf(self) -> bool {
        self@.part.wf()
    }

    /// Takes the next piece of the body in, and gives the offset in the file at which it is to be
    /// written.
    pub fn take_piece(&mut self, piece_length: usize) -> (offset: Result<u128, S3Error>)
        requires
            old(self).wf(),
        ensures
            final(self).wf(),
            match old(self)@.took(piece_length as nat) {
                Ok(next) => final(self)@ == next && (offset matches Ok(offset) && offset == old(
                    self,
                )@.offset()),
                Err(e) => final(self)@ == old(self)@ && (offset matches Err(error) && error@ == e),
            },
    {
        match count_received(self.received, piece_length, self.part, self.context.as_str()) {
            Ok(received) => {
                let offset: u128 = self.part.start as u128 + self.received as u128;
                self.received = received;
                Ok(offset)
            },
            Err(error) => Err(error),
        }
    }

    /// Checks, at the end of the body, that as many bytes came in as the part holds.
    pub fn finish(&self) -> (finished: Result<(), S3Error>)
        requires
            self.wf(),
        ensures
            error::result_view(finished) == self@.finished(),
    {
        validate_received(self.received, self.part, self.context.as_str())
    }
}

/// What a download waits for.
#[derive(Debug)]
pub enum DownloadStage {
    /// The answer to getting the object.
    Getting,
    /// The answer to looking the object up.
    Heading,
    /// The object's bytes, in the temporary file.
    Receiving { info: ObjectInfo },
    /// The temporary file, still empty. `parts` are to go into it; without them, it stays empty.
    Creating { info: ObjectInfo, parts: Option<PartDownload> },
    /// All parts, in the temporary file.
    ReceivingParts { info: ObjectInfo },
    /// The wanted file.
    Finalizing { info: ObjectInfo },
    /// The removal of the temporary file, on account of an error.
    Removing { error: S3Error },
    /// Nothing.
    Finished,
}

/// The model of [`DownloadStage`].
pub enum DownloadStageView {
    Getting,
    Heading,
    Receiving { info: ObjectInfoView },
    Creating { info: ObjectInfoView, parts: Option<PartDownloadView> },
    ReceivingParts { info: ObjectInfoView },
    Finalizing { info: ObjectInfoView },
    Removing { error: S3ErrorView },
    Finished,
}

impl View for DownloadStage {
    type V = DownloadStageView;

    open spec fn view(&self) -> DownloadStageView {
        match self {
            DownloadStage::Getting => DownloadStageView::Getting,
            DownloadStage::Heading => DownloadStageView::Heading,
            DownloadStage::Receiving { info } => DownloadStageView::Receiving { info: info@ },
            DownloadStage::Creating { info, parts } => DownloadStageView::Creating {
                info: info@,
                parts: parts.deep_view(),
            },
            DownloadStage::ReceivingParts { info } => DownloadStageView::ReceivingParts {
                info: info@,
            },
            DownloadStage::Finalizing { info } => DownloadStageView::Finalizing { info: info@ },
            DownloadStage::Removing { error } => DownloadStageView::Removing { error: error@ },
            DownloadStage::Finished => DownloadStageView::Finished,
        }
    }
}

/// What has happened since the last action.
#[derive(Debug)]
pub enum DownloadEvent {
    /// The answer to getting the object or looking it up.
    Answered(Result<ObjectHead, S3Error>),
    /// The object's bytes were written to the temporary file, or not.
    Received(Result<(), S3Error>),
    /// The temporary file was created, or not.
    Created(Result<(), S3Error>),
    /// All parts were written to the temporary file, or one was not.
    PartsReceived(Result<(), S3Error>),
    /// The temporary file has taken the place of the wanted one, or not.
    Finalized(Result<(), S3Error>),
    /// The temporary file was removed, or not.
    Removed(Result<(), S3Error>),
}

/// The model of [`DownloadEvent`].
pub enum DownloadEventView {
    Answered(Result<ObjectHead, S3ErrorView>),
    Received(Result<(), S3ErrorView>),
    Created(Result<(), S3ErrorView>),
    PartsReceived(Result<(), S3ErrorView>),
    Finalized(Result<(), S3ErrorView>),
    Removed(Result<(), S3ErrorView>),
}

impl View for DownloadEvent {
    type V = DownloadEventView;

    open spec fn view(&self) -> DownloadEventView {
        match self {
            DownloadEvent::Answered(r) => DownloadEventView::Answered(error::result_view(*r)),
            DownloadEvent::Received(r) => DownloadEventView::Received(error::result_view(*r)),
            DownloadEvent::Created(r) => DownloadEventView::Created(error::result_view(*r)),
            DownloadEvent::PartsReceived(r) => DownloadEventView::PartsReceived(
                error::result_view(*r),
            ),
            DownloadEvent::Finalized(r) => DownloadEventView::Finalized(error::result_view(*r)),
            DownloadEvent::Removed(r) => DownloadEventView::Removed(error::result_view(*r)),
        }
    }
}

/// What to do next.
#[derive(Debug)]
pub enum DownloadAction {
    /// Make a call.
    Make(Call),
    /// Create a file and write the body of the answer to it.
    Receive { path: String },
    /// Create an empty file.
    Create { path: String },
    /// Write all parts to the file that was created.
    ReceiveParts(PartDownload),
    /// Give a file its time of modification and its name.
    Finalize { path: String, final_path: String, timestamp: Timestamp },
    /// Remove a file.
    Remove { path: String },
    /// The download is over.
    Finish(Result<ObjectInfo, S3Error>),
}

/// The model of [`DownloadAction`].
pub enum DownloadActionView {
    Make(CallView),
    Receive { path: Seq<char> },
    Create { path: Seq<char> },
    ReceiveParts(PartDownloadView),
    Finalize { path: Seq<char>, final_path: Seq<char>, timestamp: Timestamp },
    Remove { path: Seq<char> },
    Finish(Result<ObjectInfoView, S3ErrorView>),
}

impl View for DownloadAction {
    type V = DownloadActionView;

    open spec fn view(&self) -> DownloadActionView {
        match self {
            DownloadAction::Make(call) => DownloadActionView::Make(call@),
            DownloadAction::Receive { path } => DownloadActionView::Receive { path: path@ },
            DownloadAction::Create { path } => DownloadActionView::Create { path: path@ },
            DownloadAction::ReceiveParts(parts) => DownloadActionView::ReceiveParts(parts@),
            DownloadAction::Finalize { path, final_path, timestamp } => {
                DownloadActionView::Finalize {
                    path: path@,
                    final_path: final_path@,
                    timestamp: *timestamp,
                }
            },
            DownloadAction::Remove { path } => DownloadActionView::Remove { path: path@ },
            DownloadAction::Finish(r) => DownloadActionView::Finish(object::object_result(*r)),
        }
    }
}

/// A download to a local file, in one request or in parts.
#[derive(Debug)]
pub struct Download {
    bucket: String,
    key: String,
    local_path: String,
    temporary_path: String,
    part_size: u64,
    workers: usize,
    stage: DownloadStage,
}

/// The model of [`Download`].
pub struct DownloadView {
    pub bucket: Seq<char>,
    pub key: Seq<char>,
    pub local_path: Seq<char>,
    pub temporary_path: Seq<char>,
    pub part_size: u64,
    pub workers: usize,
    pub stage: DownloadStageView,
}

impl View for Download {
    type V = DownloadView;

    closed spec fn view(&self) -> DownloadView {
        DownloadView {
            bucket: self.bucket@,
            key: self.key@,
            local_path: self.local_path@,
            temporary_path: self.temporary_path@,
            part_size: self.part_size,
            workers: self.workers,
            stage: self.stage@,
        }
    }
}

/// The file that a download goes to before it is complete.
pub open spec fn temporary_path(local_path: Seq<char>, suffix: Seq<char>) -> Seq<char> {
    local_path + "."@ + suffix
}

impl DownloadView {
    /// The same download at another stage.
    pub open spec fn at(self, stage: DownloadStageView) -> DownloadView {
        DownloadView { stage, ..self }
    }

    /// The download is over.
    pub open spec fn finished(self, result: Result<ObjectInfoView, S3ErrorView>) -> (
        DownloadView,
        DownloadActionView,
    ) {
        (self.at(DownloadStageView::Finished), DownloadActionView::Finish(result))
    }

    /// What a download in one request does first: it gets the object, or the slice asked for.
    pub open spec fn first_single(self, start_end_offsets: Option<(usize, usize)>) -> (
        DownloadView,
        DownloadActionView,
    ) {
        match multipart::slice_range(start_end_offsets) {
            Err(error) => self.finished(Err(error)),
            Ok(range) => (
                self.at(DownloadStageView::Getting),
                DownloadActionView::Make(
                    client::get_object_call(
                        "download_object"@,
                        self.bucket,
                        self.key,
                        range,
                        false,
                    ),
                ),
            ),
        }
    }

    /// What a download in parts does first: it looks the object up.
    pub open spec fn first_multipart(self) -> (DownloadView, DownloadActionView) {
        if self.workers == 0 {
            self.finished(
                Err(S3ErrorView::ValidationError("multipart workers must be greater than zero"@)),
            )
        } else {
            (
                self.at(DownloadStageView::Heading),
                DownloadActionView::Make(
                    CallView {
                        request: RequestView::HeadObject { bucket: self.bucket, key: self.key },
                        context: request::object_context(
                            "download_object_multipart"@,
                            self.bucket,
                            self.key,
                        ),
                        retried: true,
                    },
                ),
            )
        }
    }

    /// What a download in parts does with an object that was found: it creates the temporary
    /// file. An empty object has no parts.
    pub open spec fn found(self, info: ObjectInfoView, e_tag: Option<Seq<char>>) -> (
        DownloadView,
        DownloadActionView,
    ) {
        if info.size == 0 {
            (
                self.at(DownloadStageView::Creating { info, parts: None }),
                DownloadActionView::Create { path: self.temporary_path },
            )
        } else {
            match e_tag {
                None => self.finished(Err(S3ErrorView::FieldNotExist("etag"@))),
                Some(e_tag) => match MultipartPlan::planned(info.size, self.part_size, None) {
                    Err(error) => self.finished(Err(error)),
                    Ok(plan) => (
                        self.at(
                            DownloadStageView::Creating {
                                info,
                                parts: Some(
                                    PartDownloadView {
                                        bucket: self.bucket,
                                        key: self.key,
                                        e_tag,
                                        path: self.temporary_path,
                                        plan,
                                        workers: self.workers,
                                    },
                                ),
                            },
                        ),
                        DownloadActionView::Create { path: self.temporary_path },
                    ),
                },
            }
        }
    }

    /// Puts the temporary file, which is complete, in the place of the wanted one.
    pub open spec fn finalize(self, info: ObjectInfoView) -> (DownloadView, DownloadActionView) {
        (
            self.at(DownloadStageView::Finalizing { info }),
            DownloadActionView::Finalize {
                path: self.temporary_path,
                final_path: self.local_path,
                timestamp: info.timestamp,
            },
        )
    }

    /// Removes the temporary file, on account of an error.
    pub open spec fn remove(self, error: S3ErrorView) -> (DownloadView, DownloadActionView) {
        (
            self.at(DownloadStageView::Removing { error }),
            DownloadActionView::Remove { path: self.temporary_path },
        )
    }

    /// What to do next, if the event is one that the download waits for.
    pub open spec fn step(self, event: DownloadEventView) -> Option<
        (DownloadView, DownloadActionView),
    > {
        match (self.stage, event) {
            (DownloadStageView::Getting, DownloadEventView::Answered(answer)) => Some(
                match answer {
                    Err(error) => self.finished(Err(error)),
                    Ok(head) => match object::described_object(self.key, head) {
                        Err(error) => self.finished(Err(error)),
                        Ok(info) => (
                            self.at(DownloadStageView::Receiving { info }),
                            DownloadActionView::Receive { path: self.temporary_path },
                        ),
                    },
                },
            ),
            (DownloadStageView::Heading, DownloadEventView::Answered(answer)) => Some(
                match answer {
                    Err(error) => self.finished(Err(error)),
                    Ok(head) => match object::described_object(self.key, head) {
                        Err(error) => self.finished(Err(error)),
                        Ok(info) => self.found(info, head.e_tag.deep_view()),
                    },
                },
            ),
            (DownloadStageView::Receiving { info }, DownloadEventView::Received(received)) => Some(
                match received {
                    Err(error) => self.remove(error),
                    Ok(_) => self.finalize(info),
                },
            ),
            (DownloadStageView::Creating { info, parts }, DownloadEventView::Created(created)) => {
                Some(
                    match created {
                        Err(error) => self.finished(Err(error)),
                        Ok(_) => match parts {
                            None => self.finalize(info),
                            Some(parts) => (
                                self.at(DownloadStageView::ReceivingParts { info }),
                                DownloadActionView::ReceiveParts(parts),
                            ),
                        },
                    },
                )
            },
            (
                DownloadStageView::ReceivingParts { info },
                DownloadEventView::PartsReceived(received),
            ) => Some(
                match received {
                    Err(error) => self.remove(error),
                    Ok(_) => self.finalize(info),
                },
            ),
            (DownloadStageView::Finalizing { info }, DownloadEventView::Finalized(finalized)) => {
                Some(
                    match finalized {
                        Err(error) => self.remove(error),
                        Ok(_) => self.finished(Ok(info)),
                    },
                )
            },
            (DownloadStageView::Removing { error }, DownloadEventView::Removed(_)) => Some(
                self.finished(Err(error)),
            ),
            _ => None,
        }
    }
}

/// The result of taking in an event, as the contracts see it.
pub open spec fn step_result(download: Download, action: Option<DownloadAction>) -> Option<
    (DownloadView, DownloadActionView),
> {
    match action {
        Some(action) => Some((download@, action@)),
        None => None,
    }
}

impl Download {
    /// A download that has not begun. `suffix` tells its temporary file from those of others.
    fn of(client: &S3Client, bucket: &str, key: &str, local_path: &str, suffix: &str) -> (download:
        Download)
        ensures
            download@ == (DownloadView {
                bucket: bucket@,
                key: key@,
                local_path: local_path@,
                temporary_path: temporary_path(local_path@, suffix@),
                part_size: client.multipart_part_size,
                workers: client.multipart_workers,
                stage: DownloadStageView::Finished,
            }),
    {
        Download {
            bucket: bucket.to_owned(),
            key: key.to_owned(),
            local_path: local_path.to_owned(),
            temporary_path: local_path.to_owned().concat(".").concat(suffix),
            part_size: client.multipart_part_size,
            workers: client.multipart_workers,
            stage: DownloadStage::Finished,
        }
    }

    /// The download is over.
    fn finish(&mut self, result: Result<ObjectInfo, S3Error>) -> (action: DownloadAction)
        ensures
            (final(self)@, action@) == old(self)@.finished(object::object_result(result)),
    {
        self.stage = DownloadStage::Finished;
        DownloadAction::Finish(result)
    }

    /// Goes on with an object that was found.
    fn found(&mut self, info: ObjectInfo, e_tag: Option<String>) -> (action: DownloadAction)
        ensures
            (final(self)@, action@) == old(self)@.found(info@, e_tag.deep_view()),
    {
        if info.size == 0 {
            self.stage = DownloadStage::Creating { info, parts: None };
            return DownloadAction::Create { path: self.temporary_path.clone() };
        }
        match e_tag {
            None => self.finish(Err(S3Error::FieldNotExist("etag"))),
            Some(e_tag) => match MultipartPlan::for_download(info.size, self.part_size) {
                Err(error) => self.finish(Err(error)),
                Ok(plan) => {
                    let parts = PartDownload {
                        bucket: self.bucket.clone(),
                        key: self.key.clone(),
                        e_tag,
                        path: self.temporary_path.clone(),
                        plan,
                        workers: self.workers,
                    };
                    self.stage = DownloadStage::Creating { info, parts: Some(parts) };
                    DownloadAction::Create { path: self.temporary_path.clone() }
                },
            },
        }
    }

    /// Puts the temporary file in the place of the wanted one.
    fn finalize(&mut self, info: ObjectInfo) -> (action: DownloadAction)
        ensures
            (final(self)@, action@) == old(self)@.finalize(info@),
    {
        let timestamp = info.timestamp;
        self.stage = DownloadStage::Finalizing { info };
        DownloadAction::Finalize {
            path: self.temporary_path.clone(),
            final_path: self.local_path.clone(),
            timestamp,
        }
    }

    /// Removes the temporary file, on account of an error.
    fn remove(&mut self, error: S3Error) -> (action: DownloadAction)
        ensures
            (final(self)@, action@) == old(self)@.remove(error@),
    {
        self.stage = DownloadStage::Removing { error };
        DownloadAction::Remove { path: self.temporary_path.clone() }
    }

    /// Takes in what has happened, and says what to do next. An event that the download does not
    /// wait for changes nothing, and there is nothing to do on account of it.
    pub fn next(&mut self, event: DownloadEvent) -> (action: Option<DownloadAction>)
        ensures
            step_result(*final(self), action) == old(self)@.step(event@),
            action is None ==> final(self)@ == old(self)@,
    {
        let mut stage = DownloadStage::Finished;
        std::mem::swap(&mut stage, &mut self.stage);
        match (stage, event) {
            (DownloadStage::Getting, DownloadEvent::Answered(answer)) => match answer {
                Err(error) => Some(self.finish(Err(error))),
                Ok(head) => match object_info(self.key.as_str(), &head) {
                    Err(error) => Some(self.finish(Err(error))),
                    Ok(info) => {
                        self.stage = DownloadStage::Receiving { info };
                        Some(DownloadAction::Receive { path: self.temporary_path.clone() })
                    },
                },
            },
            (DownloadStage::Heading, DownloadEvent::Answered(answer)) => match answer {
                Err(error) => Some(self.finish(Err(error))),
                Ok(head) => match object_info(self.key.as_str(), &head) {
                    Err(error) => Some(self.finish(Err(error))),
                    Ok(info) => Some(self.found(info, head.e_tag)),
                },
            },
            (DownloadStage::Receiving { info }, DownloadEvent::Received(received)) => {
                match received {
                    Err(error) => Some(self.remove(error)),
                    Ok(_) => Some(self.finalize(info)),
                }
            },
            (DownloadStage::Creating { info, parts }, DownloadEvent::Created(created)) => {
                match created {
                    Err(error) => Some(self.finish(Err(error))),
                    Ok(_) => match parts {
                        None => Some(self.finalize(info)),
                        Some(parts) => {
                            self.stage = DownloadStage::ReceivingParts { info };
                            Some(DownloadAction::ReceiveParts(parts))
                        },
                    },
                }
            },
            (DownloadStage::ReceivingParts { info }, DownloadEvent::PartsReceived(received)) => {
                match received {
                    Err(error) => Some(self.remove(error)),
                    Ok(_) => Some(self.finalize(info)),
                }
            },
            (DownloadStage::Finalizing { info }, DownloadEvent::Finalized(finalized)) => {
                match finalized {
                    Err(error) => Some(self.remove(error)),
                    Ok(_) => Some(self.finish(Ok(info))),
                }
            },
            (DownloadStage::Removing { error }, DownloadEvent::Removed(_)) => Some(
                self.finish(Err(error)),
            ),
            (stage, _) => {
                self.stage = stage;
                None
            },
        }
    }
}

impl S3Client {
    /// One attempt to download an object, or a slice of it, in one request. The attempt as a
    /// whole is repeated, with another suffix, while it fails with an error that may go away by
    /// itself. It is an error if the slice holds no byte.
    pub fn download_object(
        &self,
        bucket: &str,
        key: &str,
        local_path: &str,
        start_end_offsets: Option<(usize, usize)>,
        suffix: &str,
    ) -> (started: (Download, DownloadAction))
        ensures
            (started.0@, started.1@) == (DownloadView {
                bucket: bucket@,
                key: key@,
                local_path: local_path@,
                temporary_path: temporary_path(local_path@, suffix@),
                part_size: self.multipart_part_size,
                workers: self.multipart_workers,
                stage: DownloadStageView::Finished,
            }).first_single(start_end_offsets),
    {
        let mut download = Download::of(self, bucket, key, local_path, suffix);
        match requested_range(start_end_offsets) {
            Err(error) => (download, DownloadAction::Finish(Err(error))),
            Ok(range) => {
                download.stage = DownloadStage::Getting;
                (
                    download,
                    DownloadAction::Make(
                        Call {
                            request: Request::GetObject {
                                bucket: bucket.to_owned(),
                                key: key.to_owned(),
                                range,
                                if_match: None,
                            },
                            context: describe_object("download_object", bucket, key),
                            retried: false,
                        },
                    ),
                )
            },
        }
    }

    /// Downloads an object in parts.
    pub fn download_object_multipart(
        &self,
        bucket: &str,
        key: &str,
        local_path: &str,
        suffix: &str,
    ) -> (started: (Download, DownloadAction))
        ensures
            (started.0@, started.1@) == (DownloadView {
                bucket: bucket@,
                key: key@,
                local_path: local_path@,
                temporary_path: temporary_path(local_path@, suffix@),
                part_size: self.multipart_part_size,
                workers: self.multipart_workers,
                stage: DownloadStageView::Finished,
            }).first_multipart(),
    {
        let mut download = Download::of(self, bucket, key, local_path, suffix);
        if download.workers == 0 {
            return (
                download,
                DownloadAction::Finish(
                    Err(
                        S3Error::ValidationError(
                            "multipart workers must be greater than zero".to_owned(),
                        ),
                    ),
                ),
            );
        }
        download.stage = DownloadStage::Heading;
        (
            download,
            DownloadAction::Make(
                Call {
                    request: Request::HeadObject { bucket: bucket.to_owned(), key: key.to_owned() },
                    context: describe_object("download_object_multipart", bucket, key),
                    retried: true,
                },
            ),
        )
    }
}

/// Where a download stands and what has been done for it, once events have happened after it was
/// started. `None` if some event was not one that the download waited for.
pub open spec fn history(
    started: (DownloadView, DownloadActionView),
    events: Seq<DownloadEventView>,
) -> Option<(DownloadView, Seq<DownloadActionView>)>
    decreases events.len(),
{
    if events.len() == 0 {
        Some((started.0, seq![started.1]))
    } else {
        match history(started, events.drop_last()) {
            None => None,
            Some((download, actions)) => match download.step(events.last()) {
                None => None,
                Some((next, action)) => Some((next, actions.push(action))),
            },
        }
    }
}

/// How downloads start.
pub open spec fn is_start(started: (DownloadView, DownloadActionView)) -> bool {
    exists|download: DownloadView, start_end_offsets: Option<(usize, usize)>|
        started == #[trigger] download.first_single(start_end_offsets) || started
            == download.first_multipart()
}

/// The object that was found is empty.
pub open spec fn finds_empty_object(event: DownloadEventView) -> bool {
    match event {
        DownloadEventView::Answered(Ok(head)) => error::content_length(head.content_length) == Ok::<
            u64,
            S3ErrorView,
        >(0),
        _ => false,
    }
}

/// The last event says that all bytes of the object are in the temporary file. Those of an empty
/// object are there once the file is.
pub open spec fn has_all_bytes(events: Seq<DownloadEventView>) -> bool {
    &&& events.len() > 0
    &&& match events.last() {
        DownloadEventView::Received(Ok(_)) => true,
        DownloadEventView::PartsReceived(Ok(_)) => true,
        DownloadEventView::Created(Ok(_)) => events.len() > 1 && finds_empty_object(
            events[events.len() - 2],
        ),
        _ => false,
    }
}

/// The action leaves the wanted file alone, and touches no file but the temporary one.
pub open spec fn leaves_wanted_file(download: DownloadView, action: DownloadActionView) -> bool {
    match action {
        DownloadActionView::Make(_) | DownloadActionView::Finish(_) => true,
        DownloadActionView::Receive { path }
        | DownloadActionView::Create { path }
        | DownloadActionView::Remove { path } => path == download.temporary_path,
        DownloadActionView::ReceiveParts(parts) => parts.path == download.temporary_path,
        DownloadActionView::Finalize { .. } => false,
    }
}

/// The action puts the temporary file in the place of the wanted one.
pub open spec fn replaces_wanted_file(download: DownloadView, action: DownloadActionView) -> bool {
    match action {
        DownloadActionView::Finalize { path, final_path, .. } => path == download.temporary_path
            && final_path == download.local_path,
        _ => false,
    }
}

/// The action taken after some events leaves the wanted file alone, or replaces it by a file that
/// holds the whole object.
pub open spec fn keeps_wanted_file_whole(
    download: DownloadView,
    action: DownloadActionView,
    events: Seq<DownloadEventView>,
) -> bool {
    leaves_wanted_file(download, action) || (replaces_wanted_file(download, action)
        && has_all_bytes(events))
}

/// What holds of a download, by what it waits for.
spec fn file_is_in_order(
    start: DownloadView,
    download: DownloadView,
    actions: Seq<DownloadActionView>,
    events: Seq<DownloadEventView>,
) -> bool {
    &&& actions.len() == events.len() + 1
    &&& download.local_path == start.local_path
    &&& download.temporary_path == start.temporary_path
    &&& match download.stage {
        DownloadStageView::Creating { parts: Some(parts), .. } => parts.path
            == download.temporary_path,
        DownloadStageView::Creating { parts: None, .. } => events.len() > 0 && finds_empty_object(
            events.last(),
        ),
        _ => true,
    }
    &&& forall|i: int|
        0 <= i < actions.len() ==> keeps_wanted_file_whole(
            start,
            #[trigger] actions[i],
            events.take(i),
        )
}

/// Every event leaves the files of a download in order.
proof fn lemma_file_is_in_order(
    started: (DownloadView, DownloadActionView),
    events: Seq<DownloadEventView>,
)
    requires
        is_start(started),
        history(started, events) is Some,
    ensures
        file_is_in_order(
            started.0,
            history(started, events).unwrap().0,
            history(started, events).unwrap().1,
            events,
        ),
    decreases events.len(),
{
    if events.len() > 0 {
        let before = events.drop_last();
        lemma_file_is_in_order(started, before);
        let (download, earlier) = history(started, before).unwrap();
        let (next, actions) = history(started, events).unwrap();
        assert forall|i: int| 0 <= i < actions.len() implies keeps_wanted_file_whole(
            started.0,
            #[trigger] actions[i],
            events.take(i),
        ) by {
            if i < earlier.len() {
                assert(actions[i] == earlier[i]);
                assert(events.take(i) =~= before.take(i));
            } else {
                assert(events.take(i) =~= events);
                if before.len() > 0 {
                    assert(before.last() == events[events.len() - 2]);
                }
            }
        }
    }
}

/// The wanted file is never seen half done. All that a download does before it has all bytes of
/// the object concerns the temporary file; only when they are there, the temporary file takes the
/// place of the wanted one.
pub proof fn lemma_wanted_file_is_never_partial(
    started: (DownloadView, DownloadActionView),
    events: Seq<DownloadEventView>,
)
    requires
        is_start(started),
        history(started, events) is Some,
    ensures
        ({
            let actions = history(started, events).unwrap().1;
            &&& actions.len() == events.len() + 1
            &&& forall|i: int|
                0 <= i < actions.len() ==> keeps_wanted_file_whole(
                    started.0,
                    #[trigger] actions[i],
                    events.take(i),
                )
        }),
{
    lemma_file_is_in_order(started, events);
}

/// The temporary file of a download is not the wanted file.
pub proof fn lemma_temporary_file_is_another_file(local_path: Seq<char>, suffix: Seq<char>)
    ensures
        temporary_path(local_path, suffix) != local_path,
{
    reveal_strlit(".");
    assert(temporary_path(local_path, suffix).len() > local_path.len());
}

/// The `i`-th action of a download has made the temporary file, or may have made it.
pub open spec fn makes_temporary_file(
    actions: Seq<DownloadActionView>,
    events: Seq<DownloadEventView>,
    i: int,
) -> bool {
    &&& 0 <= i < events.len()
    &&& actions[i] is Receive || (actions[i] is Create
        && events[i] matches DownloadEventView::Created(Ok(_)))
}

/// What becomes of the temporary file, by what a download waits for.
spec fn temporary_file_is_cared_for(
    start: DownloadView,
    download: DownloadView,
    actions: Seq<DownloadActionView>,
    events: Seq<DownloadEventView>,
) -> bool {
    match download.stage {
        DownloadStageView::Getting | DownloadStageView::Heading => forall|i: int|
            !makes_temporary_file(actions, events, i),
        DownloadStageView::Creating { .. } => actions.last() is Create && forall|i: int|
            !makes_temporary_file(actions, events, i),
        DownloadStageView::Receiving { .. } => actions.last() is Receive && forall|i: int|
            !makes_temporary_file(actions, events, i),
        DownloadStageView::ReceivingParts { .. } | DownloadStageView::Finalizing { .. } => true,
        DownloadStageView::Removing { .. } => actions.last() == (DownloadActionView::Remove {
            path: start.temporary_path,
        }),
        DownloadStageView::Finished => ends_finalized(actions, events) || ends_removed(
            start,
            actions,
        ) || (ends_failed(actions) && forall|i: int| !makes_temporary_file(actions, events, i)),
    }
}

/// The download ended with the wanted file, and is reported as a success.
pub open spec fn ends_finalized(
    actions: Seq<DownloadActionView>,
    events: Seq<DownloadEventView>,
) -> bool {
    &&& events.len() > 0
    &&& events.last() matches DownloadEventView::Finalized(Ok(_))
    &&& actions.last() matches DownloadActionView::Finish(Ok(_))
}

/// The download is reported as a failure.
pub open spec fn ends_failed(actions: Seq<DownloadActionView>) -> bool {
    actions.last() matches DownloadActionView::Finish(Err(_))
}

/// The download ended with the removal of the temporary file, and is reported as a failure.
pub open spec fn ends_removed(start: DownloadView, actions: Seq<DownloadActionView>) -> bool {
    &&& ends_failed(actions)
    &&& actions.len() >= 2
    &&& actions[actions.len() - 2] == (DownloadActionView::Remove { path: start.temporary_path })
}

/// Every event leaves the temporary file cared for.
proof fn lemma_temporary_file_is_cared_for(
    started: (DownloadView, DownloadActionView),
    events: Seq<DownloadEventView>,
)
    requires
        is_start(started),
        history(started, events) is Some,
    ensures
        temporary_file_is_cared_for(
            started.0,
            history(started, events).unwrap().0,
            history(started, events).unwrap().1,
            events,
        ),
    decreases events.len(),
{
    if events.len() > 0 {
        let before = events.drop_last();
        lemma_temporary_file_is_cared_for(started, before);
        lemma_file_is_in_order(started, before);
        let (download, earlier) = history(started, before).unwrap();
        let (next, actions) = history(started, events).unwrap();
        assert forall|i: int| #[trigger]
            makes_temporary_file(actions, events, i) implies makes_temporary_file(
            earlier,
            before,
            i,
        ) || i == before.len() by {
            if i < before.len() {
                assert(actions[i] == earlier[i]);
                assert(events[i] == before[i]);
            }
        }
        assert(actions[before.len() as int] == earlier.last());
        assert(actions[actions.len() - 2] == earlier.last());
    }
}

/// A download that fails leaves no temporary file: either none was made, or the last thing done
/// was to remove it. A download succeeds only when the temporary file has taken the place of the
/// wanted one.
pub proof fn lemma_failed_download_removes_temporary_file(
    started: (DownloadView, DownloadActionView),
    events: Seq<DownloadEventView>,
)
    requires
        is_start(started),
        history(started, events) is Some,
        history(started, events).unwrap().0.stage is Finished,
    ensures
        ({
            let actions = history(started, events).unwrap().1;
            ||| ends_finalized(actions, events)
            ||| ends_removed(started.0, actions)
            ||| ends_failed(actions) && forall|i: int| !makes_temporary_file(actions, events, i)
        }),
{
    lemma_temporary_file_is_cared_for(started, events);
}

/// The parts that a download asks for are those of a sound plan for an object that is not empty.
pub proof fn lemma_received_parts_are_planned(
    started: (DownloadView, DownloadActionView),
    events: Seq<DownloadEventView>,
)
    requires
        is_start(started),
        history(started, events) is Some,
    ensures
        history(started, events).unwrap().1.last() matches DownloadActionView::ReceiveParts(parts)
            ==> parts.plan.wf() && parts.plan.object_size > 0,
{
    lemma_plan_is_sound(started, events);
}

/// The plan that a download follows, while it is known.
spec fn plan_is_sound(download: DownloadView, action: DownloadActionView) -> bool {
    &&& download.stage matches DownloadStageView::Creating { info, parts: Some(parts) }
        ==> parts.plan.wf() && parts.plan.object_size > 0
    &&& action matches DownloadActionView::ReceiveParts(parts) ==> parts.plan.wf()
        && parts.plan.object_size > 0
}

/// Every event leaves the plan of a download sound.
proof fn lemma_plan_is_sound(
    started: (DownloadView, DownloadActionView),
    events: Seq<DownloadEventView>,
)
    requires
        is_start(started),
        history(started, events) is Some,
    ensures
        plan_is_sound(
            history(started, events).unwrap().0,
            history(started, events).unwrap().1.last(),
        ),
    decreases events.len(),
{
    if events.len() > 0 {
        lemma_plan_is_sound(started, events.drop_last());
        let before = history(started, events.drop_last()).unwrap().0;
        assert forall|info: ObjectInfoView, e_tag: Option<Seq<char>>| plan_is_sound(
            (#[trigger] before.found(info, e_tag)).0,
            before.found(info, e_tag).1,
        ) by {
            multipart::lemma_plan_is_for_the_object(info.size, before.part_size, None);
        }
    }
}

/// How many events a download can still wait for.
pub open spec fn events_left(stage: DownloadStageView) -> nat {
    match stage {
        DownloadStageView::Heading => 5,
        DownloadStageView::Getting => 4,
        DownloadStageView::Creating { .. } => 4,
        DownloadStageView::Receiving { .. } => 3,
        DownloadStageView::ReceivingParts { .. } => 3,
        DownloadStageView::Finalizing { .. } => 2,
        DownloadStageView::Removing { .. } => 1,
        DownloadStageView::Finished => 0,
    }
}

/// A download comes to its end: each event that it waits for leaves it fewer to wait for, and it
/// is over exactly when it waits for none.
pub proof fn lemma_download_ends(download: DownloadView, event: DownloadEventView)
    requires
        download.step(event) is Some,
    ensures
        ({
            let (next, action) = download.step(event).unwrap();
            &&& events_left(next.stage) < events_left(download.stage)
            &&& action is Finish <==> next.stage is Finished
        }),
{
}

/// All parts of a download are read from the object that was found at first: a part of an object
/// that has taken its place since is not read.
pub proof fn lemma_download_reads_the_object_it_found(
    download: DownloadView,
    head: ObjectHead,
    part: MultipartPart,
)
    requires
        download.stage is Heading,
        download.step(DownloadEventView::Answered(Ok(head))) matches Some((found, _))
            && found.stage matches DownloadStageView::Creating { parts, .. } && parts is Some,
    ensures
        ({
            let found = download.step(DownloadEventView::Answered(Ok(head))).unwrap().0;
            &&& head.e_tag is Some
            &&& found.step(DownloadEventView::Created(Ok(()))) matches Some((_, action))
                && action matches DownloadActionView::ReceiveParts(parts)
                && parts.part_call(part).request matches RequestView::GetObject {
                if_match,
                range,
                ..
            } && if_match == Some(head.e_tag.unwrap()@) && range == Some(
                multipart::range_text(part.start as int, part.end as int),
            )
        }),
{
}

/// The call for a part gets the bytes of the part, all of them and no others.
pub proof fn lemma_calls_get_the_bytes_of_their_parts(
    download: PartDownloadView,
    object: Seq<u8>,
    part: MultipartPart,
)
    requires
        part.wf(),
    ensures
        download.part_call(part).request matches RequestView::GetObject { range: Some(range), .. }
            && multipart::ranged_bytes(object, range) == multipart::part_bytes(object, part),
{
    multipart::lemma_range_names_its_bytes(object, part.start as int, part.end as int);
}

/// A receipt counts the bytes of the pieces that have come in, as long as their number can be
/// written down, and has them written one after another.
proof fn lemma_receipt_counts_bytes(receipt: PartReceiptView, file: Seq<u8>, pieces: Seq<Seq<u8>>)
    ensures
        receipt.after(pieces) is Ok <==> receipt.received + multipart::joined_pieces(pieces).len()
            <= u64::MAX,
        receipt.after(pieces) matches Ok(later) ==> {
            &&& later.part == receipt.part
            &&& later.context == receipt.context
            &&& later.received == receipt.received + multipart::joined_pieces(pieces).len()
            &&& receipt.written(file, pieces) == multipart::written_at(
                file,
                receipt.offset(),
                multipart::joined_pieces(pieces),
            )
        },
    decreases pieces.len(),
{
    if pieces.len() > 0 {
        let before = pieces.drop_last();
        lemma_receipt_counts_bytes(receipt, file, before);
        multipart::lemma_pieces_are_written_as_one(
            file,
            receipt.offset(),
            multipart::joined_pieces(before),
            pieces.last(),
        );
    }
}

/// A part is received exactly if the answer declares the range of the part and holds as many bytes
/// as the part, in whatever pieces they come in. Then these bytes, one after another, are in the
/// file from the start of the part on. A part whose answer declares another range, or holds more
/// or fewer bytes, does not count as received.
pub proof fn lemma_only_the_part_is_received(
    download: PartDownloadView,
    part: MultipartPart,
    content_range: Option<Seq<char>>,
    pieces: Seq<Seq<u8>>,
    file: Seq<u8>,
)
    requires
        part.wf(),
    ensures
        download.received(part, content_range, pieces) is Ok <==> content_range == Some(
            multipart::content_range_text(part, download.plan.object_size),
        ) && multipart::joined_pieces(pieces).len() == part.end - part.start,
        download.received(part, content_range, pieces) is Ok ==> download.file_with(
            file,
            part,
            content_range,
            pieces,
        ) == multipart::written_at(file, part.start as int, multipart::joined_pieces(pieces)),
{
    let context = download.part_context(part);
    multipart::lemma_range_has_to_be_declared(
        content_range,
        part,
        download.plan.object_size,
        context,
    );
    lemma_receipt_counts_bytes(PartReceiptView { part, context, received: 0 }, file, pieces);
}

/// An answer counts as received, and its body is what the call for the part asks for.
pub open spec fn is_received_whole(
    download: PartDownloadView,
    object: Seq<u8>,
    answer: PartAnswerView,
) -> bool {
    let part = download.plan.parts_spec()[answer.index];
    &&& 0 <= answer.index < download.plan.part_count
    &&& download.received(part, answer.content_range, answer.pieces) is Ok
    &&& download.part_call(part).request matches RequestView::GetObject { range: Some(range), .. }
        && multipart::joined_pieces(answer.pieces) == multipart::ranged_bytes(object, range)
}

/// The indices of the parts that were answered.
pub open spec fn answered(answers: Seq<PartAnswerView>) -> Seq<int> {
    answers.map_values(|answer: PartAnswerView| answer.index)
}

/// Answers that are received leave the file as the parts that they hold do.
proof fn lemma_answers_are_written_as_parts(
    download: PartDownloadView,
    object: Seq<u8>,
    answers: Seq<PartAnswerView>,
)
    requires
        download.plan.wf(),
        object.len() == download.plan.object_size,
        forall|i: int|
            0 <= i < answers.len() ==> is_received_whole(download, object, #[trigger] answers[i]),
    ensures
        download.file_after(answers) == multipart::file_after_parts(
            download.plan,
            object,
            answered(answers),
        ),
    decreases answers.len(),
{
    if answers.len() > 0 {
        let before = answers.drop_last();
        let answer = answers.last();
        assert(is_received_whole(download, object, answers[answers.len() - 1]));
        assert forall|i: int| 0 <= i < before.len() implies is_received_whole(
            download,
            object,
            #[trigger] before[i],
        ) by {
            assert(is_received_whole(download, object, answers[i]));
        }
        lemma_answers_are_written_as_parts(download, object, before);
        assert(answered(answers).drop_last() =~= answered(before));
        multipart::lemma_parts_partition_object(download.plan);
        let part = download.plan.parts_spec()[answer.index];
        lemma_only_the_part_is_received(
            download,
            part,
            answer.content_range,
            answer.pieces,
            download.file_after(before),
        );
        lemma_calls_get_the_bytes_of_their_parts(download, object, part);
    }
}

/// Once every part of a plan has been received, the file holds the object: in whatever order the
/// answers come in, in whatever pieces, and also if a part is received more than once.
pub proof fn lemma_received_parts_give_the_object(
    download: PartDownloadView,
    object: Seq<u8>,
    answers: Seq<PartAnswerView>,
)
    requires
        download.plan.wf(),
        object.len() == download.plan.object_size,
        forall|i: int|
            0 <= i < answers.len() ==> is_received_whole(download, object, #[trigger] answers[i]),
        forall|i: int| 0 <= i < download.plan.part_count ==> #[trigger] answered(answers).contains(i),
    ensures
        download.file_after(answers) == object,
{
    lemma_answers_are_written_as_parts(download, object, answers);
    assert forall|k: int| 0 <= k < answered(answers).len() implies 0 <= #[trigger] answered(
        answers,
    )[k] < download.plan.part_count by {
        assert(is_received_whole(download, object, answers[k]));
    }
    multipart::lemma_parts_in_any_order_give_object(download.plan, object, answered(answers));
}

/// How a download begins: in parts, or in one request, for a slice of the object or all of it.
pub open spec fn begun(
    download: DownloadView,
    in_parts: bool,
    start_end_offsets: Option<(usize, usize)>,
) -> (DownloadView, DownloadActionView) {
    if in_parts {
        download.first_multipart()
    } else {
        download.first_single(start_end_offsets)
    }
}

/// A download in one request asks for exactly what is wanted: the bytes of the slice, or the whole
/// object where no slice is given. It is not begun if the slice holds no byte.
pub proof fn lemma_download_asks_for_the_slice(
    download: DownloadView,
    start_end_offsets: Option<(usize, usize)>,
    object: Seq<u8>,
)
    ensures
        match (start_end_offsets, download.first_single(start_end_offsets).1) {
            (None, DownloadActionView::Make(call)) => !call.retried && call.request == (
            RequestView::GetObject {
                bucket: download.bucket,
                key: download.key,
                range: None,
                if_match: None,
            }),
            (Some((start, end)), DownloadActionView::Make(call)) => {
                &&& start < end
                &&& !call.retried
                &&& call.request matches RequestView::GetObject {
                    bucket,
                    key,
                    range: Some(range),
                    if_match,
                } && bucket == download.bucket && key == download.key && if_match is None
                    && multipart::ranged_bytes(object, range) == object.subrange(
                    start as int,
                    end as int,
                )
            },
            (Some((start, end)), DownloadActionView::Finish(Err(error))) => end <= start
                && error is ValidationError,
            _ => false,
        },
{
    multipart::lemma_slice_range_names_the_slice(start_end_offsets, object);
}

/// The action belongs to the download that was begun: it reads the object, writes the temporary
/// file, and puts that in the place of the wanted one.
pub open spec fn belongs_to_download(download: DownloadView, action: DownloadActionView) -> bool {
    match action {
        DownloadActionView::Make(call) => match call.request {
            RequestView::GetObject { bucket, key, .. } | RequestView::HeadObject { bucket, key } => {
                bucket == download.bucket && key == download.key
            },
            _ => false,
        },
        DownloadActionView::Receive { path }
        | DownloadActionView::Create { path }
        | DownloadActionView::Remove { path } => path == download.temporary_path,
        DownloadActionView::ReceiveParts(parts) => {
            &&& parts.bucket == download.bucket
            &&& parts.key == download.key
            &&& parts.path == download.temporary_path
            &&& parts.workers == download.workers
        },
        DownloadActionView::Finalize { path, final_path, .. } => path == download.temporary_path
            && final_path == download.local_path,
        DownloadActionView::Finish(_) => true,
    }
}

/// What the first answer says of the object.
pub open spec fn answered_head(events: Seq<DownloadEventView>) -> Option<ObjectHead> {
    if events.len() > 0 {
        match events[0] {
            DownloadEventView::Answered(Ok(head)) => Some(head),
            _ => None,
        }
    } else {
        None
    }
}

/// The error that an event brings, other than one of removing the temporary file.
pub open spec fn told_error(event: DownloadEventView) -> Option<S3ErrorView> {
    match event {
        DownloadEventView::Answered(Err(error)) => Some(error),
        DownloadEventView::Received(Err(error)) => Some(error),
        DownloadEventView::Created(Err(error)) => Some(error),
        DownloadEventView::PartsReceived(Err(error)) => Some(error),
        DownloadEventView::Finalized(Err(error)) => Some(error),
        _ => None,
    }
}

/// An object that cannot be downloaded, by what the answer says of it.
pub open spec fn is_refused(download: DownloadView, in_parts: bool, head: ObjectHead) -> bool {
    ||| !object::is_complete(head)
    ||| in_parts && head.content_length != Some(0i64) && (head.e_tag is None || download.part_size
        == 0 || head.content_length.unwrap() > download.part_size * i32::MAX)
}

/// What is wrong with an object that cannot be downloaded: what its description lacks, its tag, or
/// the size of its parts.
pub open spec fn is_refusal(error: S3ErrorView, head: ObjectHead) -> bool {
    match head.content_length {
        None => error == S3ErrorView::FieldNotExist("content_length"@),
        Some(length) => if length < 0 {
            error is ValidationError
        } else if head.last_modified is None {
            error == S3ErrorView::FieldNotExist("timestamp"@)
        } else if head.e_tag is None {
            error == S3ErrorView::FieldNotExist("etag"@)
        } else {
            error is ValidationError
        },
    }
}

/// The action is the one to take after these events: the parts are those of the object that was
/// found, the file gets the object's time of modification, what is reported is what was found, and
/// an error is the one that came.
pub open spec fn follows_from(
    download: DownloadView,
    in_parts: bool,
    action: DownloadActionView,
    events: Seq<DownloadEventView>,
) -> bool {
    match action {
        DownloadActionView::Make(call) => events.len() == 0 && (in_parts <==> call.request
            is HeadObject),
        DownloadActionView::Receive { .. } => events.len() == 1 && !in_parts && answered_head(
            events,
        ) is Some,
        DownloadActionView::Create { .. } => events.len() == 1 && in_parts && answered_head(
            events,
        ) is Some,
        DownloadActionView::ReceiveParts(parts) => {
            &&& events.len() == 2
            &&& in_parts
            &&& events[1] matches DownloadEventView::Created(Ok(_))
            &&& answered_head(events) matches Some(head) && head.content_length == Some(
                parts.plan.object_size as i64,
            ) && parts.plan.object_size <= i64::MAX && head.e_tag.deep_view() == Some(parts.e_tag)
            &&& parts.plan.wf()
            &&& parts.plan.part_size == download.part_size
        },
        DownloadActionView::Finalize { timestamp, .. } => {
            &&& has_all_bytes(events)
            &&& answered_head(events) matches Some(head) && head.last_modified == Some(timestamp)
        },
        DownloadActionView::Remove { .. } => events.len() >= 2 && told_error(events.last()) is Some,
        DownloadActionView::Finish(Ok(info)) => {
            &&& events.len() >= 3
            &&& events.last() matches DownloadEventView::Finalized(Ok(_))
            &&& answered_head(events) matches Some(head) && object::is_metadata_of(
                info,
                download.key,
                head,
            )
        },
        DownloadActionView::Finish(Err(error)) => {
            ||| events.len() == 0 && error is ValidationError
            ||| 1 <= events.len() <= 2 && told_error(events.last()) == Some(error)
            ||| events.len() == 1 && (answered_head(events) matches Some(head) && is_refused(
                download,
                in_parts,
                head,
            ) && is_refusal(error, head))
            ||| events.len() >= 3 && events.last() is Removed && told_error(
                events[events.len() - 2],
            ) == Some(error)
        },
    }
}

/// Where a download stands after events, by what it waits for.
spec fn stands(
    download: DownloadView,
    in_parts: bool,
    now: DownloadView,
    events: Seq<DownloadEventView>,
) -> bool {
    &&& now == download.at(now.stage)
    &&& match now.stage {
        DownloadStageView::Getting => events.len() == 0 && !in_parts,
        DownloadStageView::Heading => events.len() == 0 && in_parts,
        DownloadStageView::Receiving { info } => {
            &&& events.len() == 1
            &&& !in_parts
            &&& answered_head(events) matches Some(head) && object::is_metadata_of(
                info,
                download.key,
                head,
            )
        },
        DownloadStageView::Creating { info, parts } => {
            &&& events.len() == 1
            &&& in_parts
            &&& answered_head(events) matches Some(head) && object::is_metadata_of(
                info,
                download.key,
                head,
            ) && match parts {
                None => info.size == 0,
                Some(parts) => {
                    &&& info.size > 0
                    &&& belongs_to_download(download, DownloadActionView::ReceiveParts(parts))
                    &&& parts.plan.object_size == info.size
                    &&& parts.plan.wf()
                    &&& parts.plan.part_size == download.part_size
                    &&& head.e_tag matches Some(e_tag) && parts.e_tag == e_tag@
                },
            }
        },
        DownloadStageView::ReceivingParts { info } | DownloadStageView::Finalizing { info } => {
            &&& events.len() >= 2
            &&& answered_head(events) matches Some(head) && object::is_metadata_of(
                info,
                download.key,
                head,
            )
        },
        DownloadStageView::Removing { error } => events.len() >= 2 && told_error(events.last())
            == Some(error),
        DownloadStageView::Finished => true,
    }
}

/// What a download in parts makes of an object that was found.
proof fn lemma_found(download: DownloadView, info: ObjectInfoView, e_tag: Option<Seq<char>>)
    requires
        info.size > 0,
    ensures
        match download.found(info, e_tag).0.stage {
            DownloadStageView::Creating { parts: Some(parts), .. } => {
                &&& parts.plan.wf()
                &&& parts.plan.object_size == info.size
                &&& parts.plan.part_size == download.part_size
                &&& e_tag == Some(parts.e_tag)
                &&& download.part_size > 0
                &&& info.size <= download.part_size * i32::MAX
            },
            _ => e_tag is None || download.part_size == 0 || info.size > download.part_size
                * i32::MAX,
        },
{
    multipart::lemma_plan_is_for_the_object(info.size, download.part_size, None);
    if download.part_size > 0 {
        multipart::lemma_parts_are_as_large_as_asked_for(info.size, download.part_size, None);
    }
}

/// Every event leaves a download where it should stand, with the action that it should take.
proof fn lemma_download_stands(
    download: DownloadView,
    in_parts: bool,
    start_end_offsets: Option<(usize, usize)>,
    events: Seq<DownloadEventView>,
)
    requires
        history(begun(download, in_parts, start_end_offsets), events) is Some,
    ensures
        ({
            let (now, actions) = history(
                begun(download, in_parts, start_end_offsets),
                events,
            ).unwrap();
            &&& actions.len() == events.len() + 1
            &&& stands(download, in_parts, now, events)
            &&& belongs_to_download(download, actions.last())
            &&& follows_from(download, in_parts, actions.last(), events)
        }),
    decreases events.len(),
{
    if events.len() > 0 {
        let before = events.drop_last();
        lemma_download_stands(download, in_parts, start_end_offsets, before);
        let (earlier, _) = history(begun(download, in_parts, start_end_offsets), before).unwrap();
        assert(forall|i: int| 0 <= i < before.len() ==> before[i] == events[i]);
        if let DownloadEventView::Answered(Ok(head)) = events.last() {
            object::lemma_metadata_is_what_the_response_says(download.key, head);
            if let Ok(info) = object::described_object(download.key, head) {
                if info.size > 0 {
                    lemma_found(earlier, info, head.e_tag.deep_view());
                }
            }
        }
    }
}

/// All that a download does, from its beginning to its end, is right: each action belongs to the
/// object and the file that the download was begun for, and follows from what has happened before
/// it.
pub proof fn lemma_download_does_what_it_was_begun_for(
    download: DownloadView,
    in_parts: bool,
    start_end_offsets: Option<(usize, usize)>,
    events: Seq<DownloadEventView>,
)
    requires
        history(begun(download, in_parts, start_end_offsets), events) is Some,
    ensures
        ({
            let actions = history(
                begun(download, in_parts, start_end_offsets),
                events,
            ).unwrap().1;
            &&& actions.len() == events.len() + 1
            &&& forall|i: int|
                0 <= i < actions.len() ==> belongs_to_download(download, #[trigger] actions[i])
                    && follows_from(download, in_parts, actions[i], events.take(i))
        }),
    decreases events.len(),
{
    lemma_download_stands(download, in_parts, start_end_offsets, events);
    let started = begun(download, in_parts, start_end_offsets);
    let actions = history(started, events).unwrap().1;
    assert(events.take(events.len() as int) =~= events);
    if events.len() > 0 {
        let before = events.drop_last();
        lemma_download_does_what_it_was_begun_for(download, in_parts, start_end_offsets, before);
        let earlier = history(started, before).unwrap().1;
        assert forall|i: int| 0 <= i < actions.len() implies belongs_to_download(
            download,
            #[trigger] actions[i],
        ) && follows_from(download, in_parts, actions[i], events.take(i)) by {
            if i < earlier.len() {
                assert(actions[i] == earlier[i]);
                assert(events.take(i) =~= before.take(i));
            }
        }
    }
}

/// The action ends a download with the metadata of the object that a response describes.
pub open spec fn reports(action: DownloadActionView, key: Seq<char>, head: ObjectHead) -> bool {
    action matches DownloadActionView::Finish(Ok(info)) && object::is_metadata_of(info, key, head)
}

/// A download in one request in which nothing fails comes to its end, and reports the object that was
/// found.
pub proof fn lemma_download_succeeds_if_nothing_fails(
    download: DownloadView,
    start_end_offsets: Option<(usize, usize)>,
    head: ObjectHead,
)
    requires
        start_end_offsets matches Some((start, end)) ==> start < end,
        object::is_complete(head),
    ensures
        ({
            let events = seq![
                DownloadEventView::Answered(Ok(head)),
                DownloadEventView::Received(Ok(())),
                DownloadEventView::Finalized(Ok(())),
            ];
            history(download.first_single(start_end_offsets), events) matches Some((_, actions))
                && actions.len() == 4 && actions[1] is Receive && actions[2] is Finalize && reports(
                actions[3],
                download.key,
                head,
            )
        }),
{
    reveal_with_fuel(history, 4);
    let one = seq![DownloadEventView::Answered(Ok(head))];
    let two = one.push(DownloadEventView::Received(Ok(())));
    let three = two.push(DownloadEventView::Finalized(Ok(())));
    assert(one.drop_last() =~= Seq::<DownloadEventView>::empty());
    assert(two.drop_last() =~= one);
    assert(three.drop_last() =~= two);
    assert(three =~= seq![
        DownloadEventView::Answered(Ok(head)),
        DownloadEventView::Received(Ok(())),
        DownloadEventView::Finalized(Ok(())),
    ]);
    object::lemma_metadata_is_what_the_response_says(download.key, head);
}

/// A download in parts in which nothing fails comes to its end, and reports the object that was found.
/// An empty object has no parts to receive.
pub proof fn lemma_download_in_parts_succeeds_if_nothing_fails(
    download: DownloadView,
    head: ObjectHead,
)
    requires
        download.workers > 0,
        !is_refused(download, true, head),
    ensures
        ({
            let found = seq![
                DownloadEventView::Answered(Ok(head)),
                DownloadEventView::Created(Ok(())),
            ];
            let events = if head.content_length == Some(0i64) {
                found
            } else {
                found.push(DownloadEventView::PartsReceived(Ok(())))
            }.push(DownloadEventView::Finalized(Ok(())));
            history(download.first_multipart(), events) matches Some((_, actions))
                && actions.len() == events.len() + 1 && actions[1] is Create && (head.content_length
                != Some(0i64) ==> actions[2] is ReceiveParts) && actions[actions.len()
                - 2] is Finalize && reports(actions.last(), download.key, head)
        }),
{
    reveal_with_fuel(history, 5);
    let one = seq![DownloadEventView::Answered(Ok(head))];
    let two = one.push(DownloadEventView::Created(Ok(())));
    let three = two.push(DownloadEventView::PartsReceived(Ok(())));
    let four = three.push(DownloadEventView::Finalized(Ok(())));
    let empty = two.push(DownloadEventView::Finalized(Ok(())));
    assert(one.drop_last() =~= Seq::<DownloadEventView>::empty());
    assert(two.drop_last() =~= one);
    assert(three.drop_last() =~= two);
    assert(four.drop_last() =~= three);
    assert(empty.drop_last() =~= two);
    assert(two =~= seq![
        DownloadEventView::Answered(Ok(head)),
        DownloadEventView::Created(Ok(())),
    ]);
    object::lemma_metadata_is_what_the_response_says(download.key, head);
    let info = object::described_object(download.key, head)->Ok_0;
    if info.size > 0 {
        lemma_found(download.first_multipart().0, info, head.e_tag.deep_view());
    }
}

/// A failure is never passed over: a download whose temporary file may be there removes it, and any
/// other ends at once with the error.
pub proof fn lemma_failure_is_not_passed_over(
    download: DownloadView,
    in_parts: bool,
    start_end_offsets: Option<(usize, usize)>,
    events: Seq<DownloadEventView>,
    error: S3ErrorView,
)
    requires
        history(begun(download, in_parts, start_end_offsets), events) is Some,
        events.len() > 0,
        told_error(events.last()) == Some(error),
    ensures
        ({
            let action = history(
                begun(download, in_parts, start_end_offsets),
                events,
            ).unwrap().1.last();
            if events.last() is Answered || events.last() is Created {
                action == DownloadActionView::Finish(Err(error))
            } else {
                action == (DownloadActionView::Remove { path: download.temporary_path })
            }
        }),
{
    lemma_download_stands(download, in_parts, start_end_offsets, events.drop_last());
}

/// The call for a part names the object and the tag that it had when it was found.
pub proof fn lemma_part_calls_name_the_object(
    download: PartDownloadView,
    part: MultipartPart,
    object: Seq<u8>,
)
    requires
        part.wf(),
    ensures
        download.part_call(part).retried,
        download.part_call(part).request matches RequestView::GetObject {
            bucket,
            key,
            range: Some(range),
            if_match,
        } && bucket == download.bucket && key == download.key && if_match == Some(download.e_tag)
            && multipart::ranged_bytes(object, range) == object.subrange(
            part.start as int,
            part.end as int,
        ),
{
    multipart::lemma_range_names_its_bytes(object, part.start as int, part.end as int);
}

/// The temporary file of a download lies beside the wanted file, and two downloads with different
/// suffixes have different ones.
pub proof fn lemma_temporary_files_are_told_apart(
    local_path: Seq<char>,
    suffix: Seq<char>,
    other_suffix: Seq<char>,
)
    ensures
        local_path.is_prefix_of(temporary_path(local_path, suffix)),
        suffix.is_suffix_of(temporary_path(local_path, suffix)),
        temporary_path(local_path, suffix) == temporary_path(local_path, other_suffix) ==> suffix
            == other_suffix,
{
    reveal_strlit(".");
    let path = temporary_path(local_path, suffix);
    assert(path.take(local_path.len() as int) =~= local_path);
    assert(path.skip(local_path.len() + 1 as int) =~= suffix);
    assert(temporary_path(local_path, other_suffix).skip(local_path.len() + 1 as int)
        =~= other_suffix);
}

/// The event answers the action.
pub open spec fn answers(event: DownloadEventView, action: DownloadActionView) -> bool {
    match action {
        DownloadActionView::Make(_) => event is Answered,
        DownloadActionView::Receive { .. } => event is Received,
        DownloadActionView::Create { .. } => event is Created,
        DownloadActionView::ReceiveParts(_) => event is PartsReceived,
        DownloadActionView::Finalize { .. } => event is Finalized,
        DownloadActionView::Remove { .. } => event is Removed,
        DownloadActionView::Finish(_) => false,
    }
}

/// A download goes on after every answer to what it has asked for, and after no other event.
pub proof fn lemma_download_takes_every_answer(
    download: DownloadView,
    in_parts: bool,
    start_end_offsets: Option<(usize, usize)>,
    events: Seq<DownloadEventView>,
    event: DownloadEventView,
)
    requires
        history(begun(download, in_parts, start_end_offsets), events) is Some,
    ensures
        history(begun(download, in_parts, start_end_offsets), events.push(event)) is Some
            <==> answers(
            event,
            history(begun(download, in_parts, start_end_offsets), events).unwrap().1.last(),
        ),
{
    assert(events.push(event).drop_last() =~= events);
    lemma_download_stands(download, in_parts, start_end_offsets, events);
    if events.len() > 0 {
        lemma_download_stands(download, in_parts, start_end_offsets, events.drop_last());
    }
}

/// A download in parts without workers is not begun; any other looks the object up first.
pub proof fn lemma_download_in_parts_needs_workers(download: DownloadView)
    ensures
        match download.first_multipart().1 {
            DownloadActionView::Make(call) => download.workers > 0 && call.retried && call.request
                == (RequestView::HeadObject { bucket: download.bucket, key: download.key }),
            DownloadActionView::Finish(Err(error)) => download.workers == 0
                && error is ValidationError,
            _ => false,
        },
{
}

/// A part that does not hold as many bytes as it should is reported with what was done, the number
/// of bytes that it should hold, and the number that came in.
pub proof fn lemma_wrong_lengths_are_reported(receipt: PartReceiptView, piece_length: nat)
    requires
        receipt.part.wf(),
    ensures
        match receipt.finished() {
            Ok(_) => receipt.part.start + receipt.received == receipt.part.end,
            Err(S3ErrorView::UnexpectedContentLength(said, expected, received)) => {
                &&& said == receipt.context
                &&& receipt.part.start + expected == receipt.part.end
                &&& received == receipt.received
                &&& expected != received
            },
            Err(_) => false,
        },
        match receipt.took(piece_length) {
            Ok(next) => next.part == receipt.part && next.context == receipt.context
                && next.received == receipt.received + piece_length,
            Err(S3ErrorView::UnexpectedContentLength(said, expected, _)) => {
                &&& said == receipt.context
                &&& receipt.part.start + expected == receipt.part.end
                &&& receipt.received + piece_length > u64::MAX
            },
            Err(_) => false,
        },
{
}

/// A download of a part reports its failures under the object and the place of the part.
pub proof fn lemma_part_context_names_the_object(download: PartDownloadView, part: MultipartPart)
    ensures
        download.part_call(part).context == download.part_context(part),
        text::contains_text(download.part_context(part), "key="@ + download.key),
        text::contains_text(download.part_context(part), "bucket="@ + download.bucket),
        text::signed_decimal(part.number - 1).is_suffix_of(download.part_context(part)),
{
    let operation = "download_object_multipart"@;
    let context = request::object_context(operation, download.bucket, download.key);
    let marker = " download_part_index="@;
    let place = text::signed_decimal(part.number - 1);
    request::lemma_contexts_name_what_failed(
        operation,
        download.bucket,
        download.key,
        download.bucket,
        download.key,
    );
    text::lemma_end_stands_in_text(context, "key="@ + download.key);
    text::lemma_longer_text_holds_it(context, "key="@ + download.key, marker);
    text::lemma_longer_text_holds_it(context + marker, "key="@ + download.key, place);
    text::lemma_longer_text_holds_it(context, "bucket="@ + download.bucket, marker);
    text::lemma_longer_text_holds_it(context + marker, "bucket="@ + download.bucket, place);
    let whole = download.part_context(part);
    assert(whole.subrange(whole.len() - place.len(), whole.len() as int) =~= place);
}

} // verus!

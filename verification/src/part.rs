//! Moving the parts of a multipart upload, and putting them in order.

use crate::client;
use crate::error;
use crate::error::{S3Error, S3ErrorView};
use crate::multipart;
use crate::multipart::{
    byte_range, validate_content_range, validate_received, MultipartPart, MultipartPlan,
};
use crate::request;
use crate::request::{
    copy_source, describe_copy, describe_object, Body, BodyView, Call, CallView, CompletedPart,
    CompletedPartView, Request, RequestView,
};
use crate::text;
use crate::text::append_signed_decimal;
use vstd::prelude::*;

verus! {

/// Where the parts of a multipart upload come from.
#[derive(Debug)]
pub enum PartSource {
    /// A local file.
    File { path: String },
    /// An object that the destination's backend copies by itself.
    SameBackend { bucket: String, key: String, e_tag: String },
    /// An object that another client reads.
    OtherClient { bucket: String, key: String, e_tag: String },
}

/// The model of [`PartSource`].
pub enum PartSourceView {
    File { path: Seq<char> },
    SameBackend { bucket: Seq<char>, key: Seq<char>, e_tag: Seq<char> },
    OtherClient { bucket: Seq<char>, key: Seq<char>, e_tag: Seq<char> },
}

impl View for PartSource {
    type V = PartSourceView;

    open spec fn view(&self) -> PartSourceView {
        match self {
            PartSource::File { path } => PartSourceView::File { path: path@ },
            PartSource::SameBackend { bucket, key, e_tag } => PartSourceView::SameBackend {
                bucket: bucket@,
                key: key@,
                e_tag: e_tag@,
            },
            PartSource::OtherClient { bucket, key, e_tag } => PartSourceView::OtherClient {
                bucket: bucket@,
                key: key@,
                e_tag: e_tag@,
            },
        }
    }
}

/// The parts of a multipart upload that has been created, still to be moved.
#[derive(Debug)]
pub struct PartTransfer {
    pub source: PartSource,
    pub bucket: String,
    pub key: String,
    pub upload_id: String,
    pub plan: MultipartPlan,
    /// How many parts are moved at the same time.
    pub workers: usize,
}

/// The model of [`PartTransfer`].
pub struct PartTransferView {
    pub source: PartSourceView,
    pub bucket: Seq<char>,
    pub key: Seq<char>,
    pub upload_id: Seq<char>,
    pub plan: MultipartPlan,
    pub workers: usize,
}

impl View for PartTransfer {
    type V = PartTransferView;

    open spec fn view(&self) -> PartTransferView {
        PartTransferView {
            source: self.source@,
            bucket: self.bucket@,
            key: self.key@,
            upload_id: self.upload_id@,
            plan: self.plan,
            workers: self.workers,
        }
    }
}

/// What a part takes first.
#[derive(Debug)]
pub enum PartCall {
    /// A call to the destination, with which the part is moved.
    Move(Call),
    /// A call to the source, which brings the part's bytes. They then go to the destination with
    /// [`PartTransfer::move_fetched`].
    Fetch(Call),
}

/// The model of [`PartCall`].
pub enum PartCallView {
    Move(CallView),
    Fetch(CallView),
}

impl View for PartCall {
    type V = PartCallView;

    open spec fn view(&self) -> PartCallView {
        match self {
            PartCall::Move(call) => PartCallView::Move(call@),
            PartCall::Fetch(call) => PartCallView::Fetch(call@),
        }
    }
}

/// The context of a step of a copy between clients that reads a part from the source.
pub open spec fn fetch_context(
    step: Seq<char>,
    bucket: Seq<char>,
    key: Seq<char>,
    part_number: i32,
) -> Seq<char> {
    "<copy_object_multipart_cross_clients> "@ + step + " src_bucket="@ + bucket + " src_key="@ + key
        + " part_number="@ + text::signed_decimal(part_number as int)
}

/// The context of a step of a copy between clients that reads a part from the source.
fn describe_fetch(step: &str, bucket: &str, key: &str, part_number: i32) -> (context: String)
    ensures
        context@ == fetch_context(step@, bucket@, key@, part_number),
{
    let mut context = "<copy_object_multipart_cross_clients> ".to_owned();
    context.append(step);
    context.append(" src_bucket=");
    context.append(bucket);
    context.append(" src_key=");
    context.append(key);
    context.append(" part_number=");
    append_signed_decimal(&mut context, part_number as i64);
    context
}

impl PartTransferView {
    /// What the call that moves a part to the destination is reported as if it fails.
    pub open spec fn move_context(self, part: MultipartPart) -> Seq<char> {
        match self.source {
            PartSourceView::File { .. } => request::object_context(
                "upload_object_multipart"@,
                self.bucket,
                self.key,
            ) + " upload_part_index="@ + text::signed_decimal(part.number - 1),
            PartSourceView::SameBackend { bucket, key, .. } => request::copy_context(
                "copy_object_multipart"@,
                bucket,
                key,
                self.bucket,
                self.key,
            ) + " copy_part_index="@ + text::signed_decimal(part.number - 1),
            PartSourceView::OtherClient { .. } =>
            "<copy_object_multipart_cross_clients> upload part dst_bucket="@ + self.bucket
                + " dst_key="@ + self.key + " part_number="@ + text::signed_decimal(
                part.number as int,
            ),
        }
    }

    /// The call that sends a part's bytes to the destination.
    pub open spec fn upload_call(self, part: MultipartPart, body: BodyView) -> CallView {
        CallView {
            request: RequestView::UploadPart {
                bucket: self.bucket,
                key: self.key,
                upload_id: self.upload_id,
                part_number: part.number,
                body,
            },
            context: self.move_context(part),
            retried: true,
        }
    }

    /// What a part takes first: a file's part is sent, a part of an object on the same backend is
    /// copied there, and one of an object that another client reads is fetched. An object is only
    /// read as long as it is the one that was found at first.
    pub open spec fn first_call(self, part: MultipartPart) -> PartCallView {
        match self.source {
            PartSourceView::File { path } => PartCallView::Move(
                self.upload_call(
                    part,
                    BodyView::FileRange {
                        path,
                        offset: part.start,
                        length: (part.end - part.start) as u64,
                    },
                ),
            ),
            PartSourceView::SameBackend { bucket, key, e_tag } => PartCallView::Move(
                CallView {
                    request: RequestView::UploadPartCopy {
                        bucket: self.bucket,
                        key: self.key,
                        upload_id: self.upload_id,
                        part_number: part.number,
                        copy_source: request::copy_source_text(bucket, key),
                        copy_source_if_match: e_tag,
                        copy_source_range: multipart::range_text(
                            part.start as int,
                            part.end as int,
                        ),
                    },
                    context: self.move_context(part),
                    retried: true,
                },
            ),
            PartSourceView::OtherClient { bucket, key, e_tag } => PartCallView::Fetch(
                CallView {
                    request: RequestView::GetObject {
                        bucket,
                        key,
                        range: Some(multipart::range_text(part.start as int, part.end as int)),
                        if_match: Some(e_tag),
                    },
                    context: fetch_context("download part"@, bucket, key, part.number),
                    retried: true,
                },
            ),
        }
    }

    /// The bucket and key of the object that parts are fetched from. Where parts are not fetched,
    /// it is the destination.
    pub open spec fn fetched_from(self) -> (Seq<char>, Seq<char>) {
        match self.source {
            PartSourceView::OtherClient { bucket, key, .. } => (bucket, key),
            _ => (self.bucket, self.key),
        }
    }

    /// What a step of fetching a part is reported as if it fails.
    pub open spec fn fetch_step(self, step: Seq<char>, part: MultipartPart) -> Seq<char> {
        fetch_context(step, self.fetched_from().0, self.fetched_from().1, part.number)
    }

    /// The call that sends a fetched part to the destination, by the range that the source's
    /// answer declares and the bytes that it holds. There is none unless both are those of the
    /// part.
    pub open spec fn moved(
        self,
        part: MultipartPart,
        content_range: Option<Seq<char>>,
        bytes: Seq<u8>,
    ) -> Result<CallView, S3ErrorView> {
        match multipart::checked_content_range(
            content_range,
            part,
            self.plan.object_size,
            self.fetch_step("validate part range"@, part),
        ) {
            Err(error) => Err(error),
            Ok(_) => if bytes.len() == part.end - part.start {
                Ok(self.upload_call(part, BodyView::Bytes(bytes)))
            } else {
                Err(
                    S3ErrorView::UnexpectedContentLength(
                        self.fetch_step("read part"@, part),
                        (part.end - part.start) as u64,
                        bytes.len() as u64,
                    ),
                )
            },
        }
    }
}

impl PartTransfer {
    /// What the call that moves a part to the destination is reported as if it fails.
    fn describe_move(&self, part: MultipartPart) -> (context: String)
        requires
            part.wf(),
        ensures
            context@ == self@.move_context(part),
    {
        match &self.source {
            PartSource::File { .. } => {
                let mut context = describe_object(
                    "upload_object_multipart",
                    self.bucket.as_str(),
                    self.key.as_str(),
                ).concat(" upload_part_index=");
                append_signed_decimal(&mut context, part.number as i64 - 1);
                context
            },
            PartSource::SameBackend { bucket, key, .. } => {
                let mut context = describe_copy(
                    "copy_object_multipart",
                    bucket.as_str(),
                    key.as_str(),
                    self.bucket.as_str(),
                    self.key.as_str(),
                ).concat(" copy_part_index=");
                append_signed_decimal(&mut context, part.number as i64 - 1);
                context
            },
            PartSource::OtherClient { .. } => {
                let mut context =
                    "<copy_object_multipart_cross_clients> upload part dst_bucket=".to_owned();
                context.append(self.bucket.as_str());
                context.append(" dst_key=");
                context.append(self.key.as_str());
                context.append(" part_number=");
                append_signed_decimal(&mut context, part.number as i64);
                context
            },
        }
    }

    /// What a part takes first.
    pub fn first_call(&self, part: MultipartPart) -> (call: PartCall)
        requires
            part.wf(),
        ensures
            call@ == self@.first_call(part),
    {
        match &self.source {
            PartSource::File { path } => PartCall::Move(
                Call {
                    request: Request::UploadPart {
                        bucket: self.bucket.clone(),
                        key: self.key.clone(),
                        upload_id: self.upload_id.clone(),
                        part_number: part.number,
                        body: Body::FileRange {
                            path: path.clone(),
                            offset: part.start,
                            length: part.length(),
                        },
                    },
                    context: self.describe_move(part),
                    retried: true,
                },
            ),
            PartSource::SameBackend { bucket, key, e_tag } => PartCall::Move(
                Call {
                    request: Request::UploadPartCopy {
                        bucket: self.bucket.clone(),
                        key: self.key.clone(),
                        upload_id: self.upload_id.clone(),
                        part_number: part.number,
                        copy_source: copy_source(bucket.as_str(), key.as_str()),
                        copy_source_if_match: e_tag.clone(),
                        copy_source_range: byte_range(part.start, part.end),
                    },
                    context: self.describe_move(part),
                    retried: true,
                },
            ),
            PartSource::OtherClient { bucket, key, e_tag } => PartCall::Fetch(
                Call {
                    request: Request::GetObject {
                        bucket: bucket.clone(),
                        key: key.clone(),
                        range: Some(byte_range(part.start, part.end)),
                        if_match: Some(e_tag.clone()),
                    },
                    context: describe_fetch(
                        "download part",
                        bucket.as_str(),
                        key.as_str(),
                        part.number,
                    ),
                    retried: true,
                },
            ),
        }
    }

    /// The bucket and key of the object that parts are fetched from. Where parts are not fetched,
    /// it is the destination.
    fn fetched_from(&self) -> (from: (&str, &str))
        ensures
            (from.0@, from.1@) == self@.fetched_from(),
    {
        match &self.source {
            PartSource::OtherClient { bucket, key, .. } => (bucket.as_str(), key.as_str()),
            _ => (self.bucket.as_str(), self.key.as_str()),
        }
    }

    /// Checks that the source answers with the range of the part. The answer need not be read
    /// further if it does not.
    pub fn check_fetched_range(&self, part: MultipartPart, content_range: Option<&str>) -> (checked:
        Result<(), S3Error>)
        requires
            part.wf(),
        ensures
            error::result_view(checked) == multipart::checked_content_range(
                content_range.deep_view(),
                part,
                self@.plan.object_size,
                self@.fetch_step("validate part range"@, part),
            ),
    {
        let (bucket, key) = self.fetched_from();
        let context = describe_fetch("validate part range", bucket, key, part.number);
        validate_content_range(content_range, part, self.plan.object_size, context.as_str())
    }

    /// What a failure to read the source's answer is reported as.
    pub fn read_context(&self, part: MultipartPart) -> (context: String)
        ensures
            context@ == self@.fetch_step("read part"@, part),
    {
        let (bucket, key) = self.fetched_from();
        describe_fetch("read part", bucket, key, part.number)
    }

    /// The call that sends a fetched part to the destination. There is none unless the range that
    /// the source's answer declares and the number of its bytes are those of the part.
    pub fn move_fetched(
        &self,
        part: MultipartPart,
        content_range: Option<&str>,
        bytes: Vec<u8>,
    ) -> (call: Result<Call, S3Error>)
        requires
            part.wf(),
        ensures
            client::call_result(call) == self@.moved(part, content_range.deep_view(), bytes@),
    {
        match self.check_fetched_range(part, content_range) {
            Ok(_) => {},
            Err(error) => {
                return Err(error);
            },
        }
        let context = self.read_context(part);
        match validate_received(bytes.len() as u64, part, context.as_str()) {
            Ok(_) => Ok(
                Call {
                    request: Request::UploadPart {
                        bucket: self.bucket.clone(),
                        key: self.key.clone(),
                        upload_id: self.upload_id.clone(),
                        part_number: part.number,
                        body: Body::Bytes(bytes),
                    },
                    context: self.describe_move(part),
                    retried: true,
                },
            ),
            Err(error) => Err(error),
        }
    }
}

/// A part that has been moved, with the tag that the destination gave it. It is an error if it
/// gave none.
pub fn completed_part(part: MultipartPart, e_tag: Option<String>) -> (completed: Result<
    CompletedPart,
    S3Error,
>)
    ensures
        match completed {
            Ok(completed) => e_tag.deep_view() == Some(completed@.e_tag) && completed@.part_number
                == part.number,
            Err(error) => e_tag is None && error@ == S3ErrorView::FieldNotExist("etag"@),
        },
{
    match e_tag {
        Some(e_tag) => Ok(CompletedPart { e_tag, part_number: part.number }),
        None => Err(S3Error::FieldNotExist("etag")),
    }
}

/// The part numbers do not fall.
pub open spec fn is_in_number_order(parts: Seq<CompletedPartView>) -> bool {
    forall|i: int, j: int|
        0 <= i <= j < parts.len() ==> #[trigger] parts[i].part_number
            <= #[trigger] parts[j].part_number
}

/// Where a part goes among parts in number order: behind those whose number is not larger.
pub open spec fn place(parts: Seq<CompletedPartView>, part: CompletedPartView) -> int
    decreases parts.len(),
{
    if parts.len() == 0 || parts.last().part_number <= part.part_number {
        parts.len() as int
    } else {
        place(parts.drop_last(), part)
    }
}

/// Parts in the order of their numbers; parts with the same number keep their order.
pub open spec fn in_number_order(parts: Seq<CompletedPartView>) -> Seq<CompletedPartView>
    decreases parts.len(),
{
    if parts.len() == 0 {
        parts
    } else {
        let before = in_number_order(parts.drop_last());
        before.insert(place(before, parts.last()), parts.last())
    }
}

/// A part's place lies among the parts, and the parts at its two sides are in order with it.
proof fn lemma_place(parts: Seq<CompletedPartView>, part: CompletedPartView)
    requires
        is_in_number_order(parts),
    ensures
        0 <= place(parts, part) <= parts.len(),
        forall|i: int|
            0 <= i < place(parts, part) ==> #[trigger] parts[i].part_number <= part.part_number,
        forall|i: int|
            place(parts, part) <= i < parts.len() ==> #[trigger] parts[i].part_number
                > part.part_number,
    decreases parts.len(),
{
    if parts.len() == 0 {
    } else if parts.last().part_number <= part.part_number {
        assert forall|i: int| 0 <= i < parts.len() implies #[trigger] parts[i].part_number
            <= part.part_number by {
            assert(parts[i].part_number <= parts[parts.len() - 1].part_number);
        }
    } else {
        let before = parts.drop_last();
        assert(is_in_number_order(before)) by {
            assert forall|i: int, j: int| 0 <= i <= j < before.len() implies #[trigger] before[i].part_number
                <= #[trigger] before[j].part_number by {
                assert(parts[i].part_number <= parts[j].part_number);
            }
        }
        lemma_place(before, part);
        assert forall|i: int| 0 <= i < place(parts, part) implies #[trigger] parts[i].part_number
            <= part.part_number by {
            assert(before[i].part_number <= part.part_number);
        }
        assert forall|i: int| place(parts, part) <= i < parts.len() implies #[trigger] parts[i].part_number
            > part.part_number by {
            if i < before.len() {
                assert(before[i].part_number > part.part_number);
            }
        }
    }
}

/// Putting parts in order gives the same parts, in the order of their numbers.
pub proof fn lemma_ordered_parts_are_the_same_parts(parts: Seq<CompletedPartView>)
    ensures
        is_in_number_order(in_number_order(parts)),
        in_number_order(parts).to_multiset() == parts.to_multiset(),
    decreases parts.len(),
{
    broadcast use vstd::seq_lib::group_to_multiset_ensures;

    if parts.len() > 0 {
        let earlier = parts.drop_last();
        let part = parts.last();
        lemma_ordered_parts_are_the_same_parts(earlier);
        let before = in_number_order(earlier);
        lemma_place(before, part);
        let at = place(before, part);
        let ordered = before.insert(at, part);
        assert forall|i: int, j: int| 0 <= i <= j < ordered.len() implies #[trigger] ordered[i].part_number
            <= #[trigger] ordered[j].part_number by {
            let a = if i < at { i } else { i - 1 };
            let b = if j < at { j } else { j - 1 };
            if i != at && j != at {
                assert(before[a].part_number <= before[b].part_number);
            }
        }
        assert(parts =~= earlier.push(part));
    }
}

/// No two parts have the same number.
pub open spec fn have_distinct_numbers(parts: Seq<CompletedPartView>) -> bool {
    forall|i: int, j: int|
        0 <= i < j < parts.len() ==> #[trigger] parts[i].part_number
            != #[trigger] parts[j].part_number
}

/// Putting parts with distinct numbers in order leaves their numbers distinct.
proof fn lemma_ordered_parts_stay_distinct(parts: Seq<CompletedPartView>)
    requires
        have_distinct_numbers(parts),
    ensures
        have_distinct_numbers(in_number_order(parts)),
    decreases parts.len(),
{
    if parts.len() > 0 {
        let earlier = parts.drop_last();
        let part = parts.last();
        assert(have_distinct_numbers(earlier)) by {
            assert forall|i: int, j: int| 0 <= i < j < earlier.len() implies #[trigger] earlier[i].part_number
                != #[trigger] earlier[j].part_number by {
                assert(parts[i].part_number != parts[j].part_number);
            }
        }
        lemma_ordered_parts_stay_distinct(earlier);
        lemma_ordered_parts_are_the_same_parts(earlier);
        let before = in_number_order(earlier);
        lemma_place(before, part);
        let at = place(before, part);
        let ordered = before.insert(at, part);
        assert forall|i: int| 0 <= i < before.len() implies #[trigger] before[i].part_number
            != part.part_number by {
            lemma_ordered_part_was_there(earlier, i);
            let k = choose|k: int| 0 <= k < earlier.len() && earlier[k] == before[i];
            assert(parts[k].part_number != parts[parts.len() - 1].part_number);
        }
        assert forall|i: int, j: int| 0 <= i < j < ordered.len() implies #[trigger] ordered[i].part_number
            != #[trigger] ordered[j].part_number by {
            let a = if i < at { i } else { i - 1 };
            let b = if j < at { j } else { j - 1 };
            if i == at {
                assert(before[b].part_number != part.part_number);
            } else if j == at {
                assert(before[a].part_number != part.part_number);
            } else {
                assert(before[a].part_number != before[b].part_number);
            }
        }
    }
}

/// Each part in order is one of the parts.
proof fn lemma_ordered_part_was_there(parts: Seq<CompletedPartView>, i: int)
    requires
        0 <= i < in_number_order(parts).len(),
    ensures
        in_number_order(parts).len() == parts.len(),
        parts.contains(in_number_order(parts)[i]),
{
    broadcast use vstd::seq_lib::group_to_multiset_ensures;

    lemma_ordered_parts_are_the_same_parts(parts);
    let ordered = in_number_order(parts);
    assert(ordered.len() == ordered.to_multiset().len());
    assert(ordered.contains(ordered[i]));
    assert(ordered.to_multiset().contains(ordered[i]));
    assert(parts.to_multiset().contains(ordered[i]));
}

/// Ascending numbers from 1 on leave no gap if there are as many of them as the largest one.
proof fn lemma_ascending_numbers_count_up(parts: Seq<CompletedPartView>, i: int)
    requires
        is_in_number_order(parts),
        have_distinct_numbers(parts),
        forall|k: int| 0 <= k < parts.len() ==> 1 <= #[trigger] parts[k].part_number <= parts.len(),
        0 <= i < parts.len(),
    ensures
        parts[i].part_number == i + 1,
{
    lemma_number_is_at_least(parts, i);
    lemma_number_is_at_most(parts, i);
}

/// The lower half of `lemma_ascending_numbers_count_up`.
proof fn lemma_number_is_at_least(parts: Seq<CompletedPartView>, i: int)
    requires
        is_in_number_order(parts),
        have_distinct_numbers(parts),
        forall|k: int| 0 <= k < parts.len() ==> 1 <= #[trigger] parts[k].part_number <= parts.len(),
        0 <= i < parts.len(),
    ensures
        parts[i].part_number >= i + 1,
    decreases i,
{
    if i > 0 {
        lemma_number_is_at_least(parts, i - 1);
        assert(parts[i - 1].part_number <= parts[i].part_number);
        assert(parts[i - 1].part_number != parts[i].part_number);
    }
}

/// The upper half of `lemma_ascending_numbers_count_up`.
proof fn lemma_number_is_at_most(parts: Seq<CompletedPartView>, i: int)
    requires
        is_in_number_order(parts),
        have_distinct_numbers(parts),
        forall|k: int| 0 <= k < parts.len() ==> 1 <= #[trigger] parts[k].part_number <= parts.len(),
        0 <= i < parts.len(),
    ensures
        parts[i].part_number <= i + 1,
    decreases parts.len() - i,
{
    if i + 1 < parts.len() {
        lemma_number_is_at_most(parts, i + 1);
        assert(parts[i].part_number <= parts[i + 1].part_number);
        assert(parts[i].part_number != parts[i + 1].part_number);
    }
}

/// In whatever order the parts of a plan are moved, an upload is completed with exactly these
/// parts, numbered 1, 2, 3 and so on.
pub proof fn lemma_upload_is_completed_in_plan_order(
    plan: MultipartPlan,
    parts: Seq<CompletedPartView>,
)
    requires
        parts.len() == plan.part_count,
        have_distinct_numbers(parts),
        forall|i: int|
            0 <= i < parts.len() ==> 1 <= #[trigger] parts[i].part_number <= plan.part_count,
    ensures
        in_number_order(parts).len() == plan.part_count,
        forall|i: int|
            0 <= i < plan.part_count ==> (#[trigger] in_number_order(parts)[i]).part_number == i + 1
                && parts.contains(in_number_order(parts)[i]),
{
    broadcast use vstd::seq_lib::group_to_multiset_ensures;

    lemma_ordered_parts_are_the_same_parts(parts);
    lemma_ordered_parts_stay_distinct(parts);
    let ordered = in_number_order(parts);
    assert(ordered.len() == ordered.to_multiset().len());
    assert(parts.len() == parts.to_multiset().len());
    assert forall|k: int| 0 <= k < ordered.len() implies 1 <= #[trigger] ordered[k].part_number
        <= ordered.len() by {
        lemma_ordered_part_was_there(parts, k);
        let was = choose|was: int| 0 <= was < parts.len() && parts[was] == ordered[k];
        assert(1 <= parts[was].part_number <= plan.part_count);
    }
    assert forall|i: int| 0 <= i < plan.part_count implies (
    #[trigger] in_number_order(parts)[i]).part_number == i + 1 && parts.contains(
        in_number_order(parts)[i],
    ) by {
        lemma_ascending_numbers_count_up(ordered, i);
        lemma_ordered_part_was_there(parts, i);
    }
}

/// Puts parts in the order of their numbers.
pub fn sort_parts(parts: Vec<CompletedPart>) -> (sorted: Vec<CompletedPart>)
    ensures
        sorted.deep_view() == in_number_order(parts.deep_view()),
{
    let ghost all = parts.deep_view();
    let mut sorted: Vec<CompletedPart> = Vec::new();
    assert(sorted.deep_view() =~= in_number_order(all.take(0)));
    for part in it: parts
        invariant
            it.seq() == parts@,
            all == parts.deep_view(),
            sorted.deep_view() == in_number_order(all.take(it.index())),
    {
        let ghost before = sorted.deep_view();
        let mut at: usize = sorted.len();
        assert(before.take(at as int) =~= before);
        while at > 0 && sorted[at - 1].part_number > part.part_number
            invariant
                at <= sorted@.len(),
                before == sorted.deep_view(),
                place(before, part@) == place(before.take(at as int), part@),
            decreases at,
        {
            assert(before.take(at as int).drop_last() =~= before.take(at as int - 1));
            at = at - 1;
        }
        assert(place(before, part@) == at);
        sorted.insert(at, part);
        assert(sorted.deep_view() =~= before.insert(at as int, part@));
        assert(all.take(it.index() + 1).drop_last() =~= all.take(it.index()));
    }
    assert(all.take(all.len() as int) =~= all);
    sorted
}

impl PartTransferView {
    /// The bytes that are stored for a part, given the file or object that is the source: those
    /// that a call sends from a file, those that the backend copies, or those that are fetched
    /// and, the source having answered with the range of the part, then sent.
    pub open spec fn stored_bytes(self, part: MultipartPart, source: Seq<u8>) -> Seq<u8> {
        match self.first_call(part) {
            PartCallView::Move(call) => match call.request {
                RequestView::UploadPart {
                    body: BodyView::FileRange { offset, length, .. },
                    ..
                } => source.subrange(offset as int, offset + length),
                RequestView::UploadPartCopy { copy_source_range, .. } => multipart::ranged_bytes(
                    source,
                    copy_source_range,
                ),
                _ => Seq::empty(),
            },
            PartCallView::Fetch(call) => match call.request {
                RequestView::GetObject { range: Some(range), .. } => {
                    let fetched = multipart::ranged_bytes(source, range);
                    let declared = multipart::content_range_text(part, self.plan.object_size);
                    match self.moved(part, Some(declared), fetched) {
                        Ok(call) => match call.request {
                            RequestView::UploadPart { body: BodyView::Bytes(sent), .. } => sent,
                            _ => Seq::empty(),
                        },
                        Err(_) => Seq::empty(),
                    }
                },
                _ => Seq::empty(),
            },
        }
    }

    /// What is put together from the bytes that are stored for the first `n` parts, one after
    /// another.
    pub open spec fn assembled(self, source: Seq<u8>, n: int) -> Seq<u8>
        decreases n,
    {
        if n <= 0 {
            Seq::empty()
        } else {
            self.assembled(source, n - 1) + self.stored_bytes(
                self.plan.parts_spec()[n - 1],
                source,
            )
        }
    }
}

/// What is stored for the parts is what the parts hold.
proof fn lemma_assembled_parts_are_joined(transfer: PartTransferView, source: Seq<u8>, n: int)
    requires
        transfer.plan.wf(),
        source.len() == transfer.plan.object_size,
        0 <= n <= transfer.plan.part_count,
    ensures
        transfer.assembled(source, n) == multipart::joined_parts(transfer.plan, source, n),
    decreases n,
{
    if n > 0 {
        lemma_assembled_parts_are_joined(transfer, source, n - 1);
        multipart::lemma_parts_partition_object(transfer.plan);
        let part = transfer.plan.parts_spec()[n - 1];
        assert(part.start < part.end <= transfer.plan.object_size);
        multipart::lemma_range_names_its_bytes(source, part.start as int, part.end as int);
    }
}

/// The calls move the whole source, whether it is a file, an object on the same backend, or an
/// object that another client reads: the bytes that they have stored, one after another in the
/// order of the part numbers, are the source.
pub proof fn lemma_calls_move_the_whole_source(transfer: PartTransferView, source: Seq<u8>)
    requires
        transfer.plan.wf(),
        source.len() == transfer.plan.object_size,
    ensures
        transfer.assembled(source, transfer.plan.part_count as int) == multipart::joined_parts(
            transfer.plan,
            source,
            transfer.plan.part_count as int,
        ),
        transfer.assembled(source, transfer.plan.part_count as int) == source,
{
    lemma_assembled_parts_are_joined(transfer, source, transfer.plan.part_count as int);
    multipart::lemma_joined_parts_give_object(transfer.plan, source);
}

/// A part is sent to the destination exactly if the source has answered with the range of the part
/// and with as many bytes as it holds, and then it is these bytes that are sent, under the part's
/// number. An answer with another range, or with more or fewer bytes, is never sent.
pub proof fn lemma_only_the_part_is_sent(
    transfer: PartTransferView,
    part: MultipartPart,
    content_range: Option<Seq<char>>,
    bytes: Seq<u8>,
)
    ensures
        transfer.moved(part, content_range, bytes) is Ok <==> content_range == Some(
            multipart::content_range_text(part, transfer.plan.object_size),
        ) && bytes.len() == part.end - part.start,
        transfer.moved(part, content_range, bytes) matches Ok(call) ==> call.request == (
        RequestView::UploadPart {
            bucket: transfer.bucket,
            key: transfer.key,
            upload_id: transfer.upload_id,
            part_number: part.number,
            body: BodyView::Bytes(bytes),
        }),
{
    multipart::lemma_range_has_to_be_declared(
        content_range,
        part,
        transfer.plan.object_size,
        transfer.fetch_step("validate part range"@, part),
    );
}

/// The object that a call reads from is the one with this tag, or the call fails.
pub open spec fn reads_only(call: PartCallView, e_tag: Seq<char>) -> bool {
    match call {
        PartCallView::Move(call) => match call.request {
            RequestView::UploadPartCopy { copy_source_if_match, .. } => copy_source_if_match
                == e_tag,
            _ => false,
        },
        PartCallView::Fetch(call) => match call.request {
            RequestView::GetObject { if_match, .. } => if_match == Some(e_tag),
            _ => false,
        },
    }
}

/// A copy within one backend sends no bytes of the object: every part is moved by a call that has
/// the backend copy it.
pub proof fn lemma_server_side_copy_sends_no_bytes(transfer: PartTransferView, part: MultipartPart)
    requires
        transfer.source is SameBackend,
    ensures
        transfer.first_call(part) matches PartCallView::Move(call)
            && call.request is UploadPartCopy,
{
}

/// A call to the destination names the upload that the transfer belongs to, and the part by its
/// number.
pub open spec fn moves_to_destination(
    transfer: PartTransferView,
    part: MultipartPart,
    call: CallView,
) -> bool {
    call.retried && match call.request {
        RequestView::UploadPart { bucket, key, upload_id, part_number, .. }
        | RequestView::UploadPartCopy { bucket, key, upload_id, part_number, .. } => {
            &&& bucket == transfer.bucket
            &&& key == transfer.key
            &&& upload_id == transfer.upload_id
            &&& part_number == part.number
        },
        _ => false,
    }
}

/// Every part goes from the source to the upload at the destination. A call that moves it names the
/// bucket, key and identifier of the upload and the number of the part; a call that reads an object
/// names the bucket, key and tag of the source; and what is read is the part, all of it and nothing
/// else.
pub proof fn lemma_calls_go_from_source_to_destination(
    transfer: PartTransferView,
    part: MultipartPart,
    object: Seq<u8>,
)
    requires
        part.wf(),
    ensures
        match (transfer.source, transfer.first_call(part)) {
            (PartSourceView::File { path }, PartCallView::Move(call)) => {
                &&& moves_to_destination(transfer, part, call)
                &&& call.request matches RequestView::UploadPart {
                    body: BodyView::FileRange { path: read, offset, length },
                    ..
                } && read == path && offset == part.start && offset + length == part.end
            },
            (PartSourceView::SameBackend { bucket, key, e_tag }, PartCallView::Move(call)) => {
                &&& moves_to_destination(transfer, part, call)
                &&& call.request matches RequestView::UploadPartCopy {
                    copy_source,
                    copy_source_if_match,
                    copy_source_range,
                    ..
                } && request::names_object(copy_source, bucket, key) && copy_source_if_match
                    == e_tag && multipart::ranged_bytes(object, copy_source_range)
                    == object.subrange(part.start as int, part.end as int)
            },
            (PartSourceView::OtherClient { bucket, key, e_tag }, PartCallView::Fetch(call)) => {
                &&& call.retried
                &&& call.request matches RequestView::GetObject {
                    bucket: read_bucket,
                    key: read_key,
                    range: Some(range),
                    if_match,
                } && read_bucket == bucket && read_key == key && if_match == Some(e_tag)
                    && multipart::ranged_bytes(object, range) == object.subrange(
                    part.start as int,
                    part.end as int,
                )
            },
            _ => false,
        },
{
    multipart::lemma_range_names_its_bytes(object, part.start as int, part.end as int);
    if let PartSourceView::SameBackend { bucket, key, .. } = transfer.source {
        request::lemma_copy_source_names_the_object(bucket, key);
    }
}

/// What was fetched goes to the upload that the transfer belongs to, as the part that was asked
/// for.
pub proof fn lemma_fetched_part_goes_to_destination(
    transfer: PartTransferView,
    part: MultipartPart,
    content_range: Option<Seq<char>>,
    bytes: Seq<u8>,
)
    ensures
        transfer.moved(part, content_range, bytes) matches Ok(call) ==> moves_to_destination(
            transfer,
            part,
            call,
        ) && (call.request matches RequestView::UploadPart { body, .. } && body
            == BodyView::Bytes(bytes)),
{
}

/// A fetched part that is not sent is reported with the range or the number of bytes that it should
/// have, and those that came.
pub proof fn lemma_parts_that_are_not_sent_are_reported(
    transfer: PartTransferView,
    part: MultipartPart,
    content_range: Option<Seq<char>>,
    bytes: Seq<u8>,
)
    requires
        part.wf(),
        bytes.len() <= u64::MAX,
    ensures
        transfer.moved(part, content_range, bytes) matches Err(error) ==> match error {
            S3ErrorView::UnexpectedContentRange(_, expected, received) => {
                &&& content_range != Some(expected)
                &&& content_range matches Some(range) ==> received == range
            },
            S3ErrorView::UnexpectedContentLength(_, expected, received) => {
                &&& part.start + expected == part.end
                &&& received == bytes.len()
                &&& expected != received
            },
            _ => false,
        },
{
    multipart::lemma_range_has_to_be_declared(
        content_range,
        part,
        transfer.plan.object_size,
        transfer.fetch_step("validate part range"@, part),
    );
}

/// A step of fetching a part is reported under the source and the number of the part, and the call
/// that moves a part under the destination.
pub proof fn lemma_part_failures_name_their_object(transfer: PartTransferView, part: MultipartPart)
    ensures
        transfer.source matches PartSourceView::OtherClient { bucket, key, .. } ==> {
            forall|step: Seq<char>|
                {
                    let context = #[trigger] transfer.fetch_step(step, part);
                    &&& text::contains_text(context, bucket)
                    &&& text::contains_text(context, key)
                    &&& text::signed_decimal(part.number as int).is_suffix_of(context)
                }
        },
        text::contains_text(transfer.move_context(part), transfer.bucket),
        text::contains_text(transfer.move_context(part), transfer.key),
{
    if let PartSourceView::OtherClient { bucket, key, .. } = transfer.source {
        assert forall|step: Seq<char>|
            {
                let context = #[trigger] transfer.fetch_step(step, part);
                &&& text::contains_text(context, bucket)
                &&& text::contains_text(context, key)
                &&& text::signed_decimal(part.number as int).is_suffix_of(context)
            } by {
            let head = "<copy_object_multipart_cross_clients> "@ + step + " src_bucket="@;
            let number = text::signed_decimal(part.number as int);
            lemma_two_names_stand_in_text(
                head,
                bucket,
                " src_key="@,
                key,
                " part_number="@ + number,
            );
            let context = transfer.fetch_step(step, part);
            assert(context =~= head + bucket + " src_key="@ + key + (" part_number="@ + number));
            assert(context.subrange(context.len() - number.len(), context.len() as int) =~= number);
        }
    }
    let index = text::signed_decimal(part.number - 1);
    let context = transfer.move_context(part);
    match transfer.source {
        PartSourceView::File { .. } => {
            let head = "<"@ + "upload_object_multipart"@ + "> bucket="@;
            let tail = " upload_part_index="@ + index;
            lemma_two_names_stand_in_text(head, transfer.bucket, " key="@, transfer.key, tail);
            assert(context =~= head + transfer.bucket + " key="@ + transfer.key + tail);
        },
        PartSourceView::SameBackend { bucket, key, .. } => {
            let head = "<"@ + "copy_object_multipart"@ + "> src_bucket="@ + bucket + " src_key="@
                + key + " dst_bucket="@;
            let tail = " copy_part_index="@ + index;
            lemma_two_names_stand_in_text(head, transfer.bucket, " dst_key="@, transfer.key, tail);
            assert(context =~= head + transfer.bucket + " dst_key="@ + transfer.key + tail);
        },
        PartSourceView::OtherClient { .. } => {
            let head = "<copy_object_multipart_cross_clients> upload part dst_bucket="@;
            let tail = " part_number="@ + text::signed_decimal(part.number as int);
            lemma_two_names_stand_in_text(head, transfer.bucket, " dst_key="@, transfer.key, tail);
            assert(context =~= head + transfer.bucket + " dst_key="@ + transfer.key + tail);
        },
    }
}

/// Two names with texts around them stand in the whole.
proof fn lemma_two_names_stand_in_text(
    head: Seq<char>,
    first: Seq<char>,
    between: Seq<char>,
    second: Seq<char>,
    tail: Seq<char>,
)
    ensures
        text::contains_text(head + first + between + second + tail, first),
        text::contains_text(head + first + between + second + tail, second),
{
    let rest = between + second + tail;
    text::lemma_piece_stands_in_text(head, first, rest);
    assert(head + first + between + second + tail =~= head + first + rest);
    text::lemma_piece_stands_in_text(head + first + between, second, tail);
}

} // verus!

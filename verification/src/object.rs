//! What is known of buckets and objects.

use crate::error;
use crate::error::{checked_content_length, S3Error, S3ErrorView};
use crate::text;
use crate::text::{chars_of, find};
use crate::time;
use crate::time::Timestamp;
use vstd::prelude::*;

verus! {

/// A bucket.
#[derive(Clone, Debug)]
pub struct BucketInfo {
    pub name: String,
    pub region: Option<String>,
}

/// Metadata of an object.
#[derive(Clone, Debug)]
pub struct ObjectInfo {
    pub key: String,
    pub size: u64,
    /// Last-modified time.
    pub timestamp: Timestamp,
    pub storage_class: Option<String>,
    /// Normalized restore status:
    /// - `None` — no restore status (object not restored and not being restored),
    /// - `Some("ONGOING")` — a restore is currently in progress,
    /// - `Some("EXPIRY:<ts>")` — a temporary restored copy is available until `<ts>` (RFC 3339
    ///   UTC).
    pub restore_status: Option<String>,
}

/// The model of [`ObjectInfo`].
pub struct ObjectInfoView {
    pub key: Seq<char>,
    pub size: u64,
    pub timestamp: Timestamp,
    pub storage_class: Option<Seq<char>>,
    pub restore_status: Option<Seq<char>>,
}

impl View for ObjectInfo {
    type V = ObjectInfoView;

    open spec fn view(&self) -> ObjectInfoView {
        ObjectInfoView {
            key: self.key@,
            size: self.size,
            timestamp: self.timestamp,
            storage_class: self.storage_class.deep_view(),
            restore_status: self.restore_status.deep_view(),
        }
    }
}

impl DeepView for ObjectInfo {
    type V = ObjectInfoView;

    open spec fn deep_view(&self) -> ObjectInfoView {
        self@
    }
}

/// A common prefix of keys, up to a delimiter ("directory").
#[derive(Clone, Debug)]
pub struct CommonPrefixInfo {
    pub prefix: String,
}

impl DeepView for CommonPrefixInfo {
    type V = Seq<char>;

    open spec fn deep_view(&self) -> Seq<char> {
        self.prefix@
    }
}

/// What a response to a HEAD or GET request says of an object.
#[derive(Clone, Debug)]
pub struct ObjectHead {
    pub content_length: Option<i64>,
    pub last_modified: Option<Timestamp>,
    pub storage_class: Option<String>,
    /// The `x-amz-restore` header.
    pub restore: Option<String>,
    pub e_tag: Option<String>,
    pub content_type: Option<String>,
}

/// What a listing says of the restoration of an object.
#[derive(Clone, Copy, Debug)]
pub struct RestoreStatus {
    pub is_restore_in_progress: Option<bool>,
    pub restore_expiry_date: Option<Timestamp>,
}

/// The result of reading an object's metadata, as the contracts see it.
pub open spec fn object_result(r: Result<ObjectInfo, S3Error>) -> Result<
    ObjectInfoView,
    S3ErrorView,
> {
    match r {
        Ok(info) => Ok(info@),
        Err(e) => Err(e@),
    }
}

/// The normalized restore status of an object, from what a listing says of it. An expiry date
/// that RFC 3339 does not cover is given as it is shown.
pub open spec fn listed_restore_status(status: Option<RestoreStatus>) -> Option<Seq<char>> {
    match status {
        None => None,
        Some(status) => if status.is_restore_in_progress == Some(true) {
            Some("ONGOING"@)
        } else {
            match status.restore_expiry_date {
                Some(expiry) => Some("EXPIRY:"@ + expiry.shown()),
                None => None,
            }
        },
    }
}

/// The date between the quotes after `expiry-date=` in an `x-amz-restore` header.
pub open spec fn expiry_date_in_header(header: Seq<char>) -> Option<Seq<char>> {
    match text::find_text(header, "expiry-date=\""@) {
        None => None,
        Some(at) => {
            let rest = header.skip(at + "expiry-date=\""@.len());
            match text::find_text(rest, "\""@) {
                None => None,
                Some(end) => Some(rest.take(end)),
            }
        },
    }
}

/// The normalized restore status of an object, from the `x-amz-restore` header.
pub open spec fn header_restore_status(header: Option<Seq<char>>) -> Option<Seq<char>> {
    match header {
        None => None,
        Some(header) => if text::contains_text(header, "ongoing-request=\"true\""@) {
            Some("ONGOING"@)
        } else {
            match expiry_date_in_header(header) {
                None => None,
                Some(date) => match time::http_date(date) {
                    None => None,
                    Some((secs, subsec_nanos)) => match time::rfc3339(secs, subsec_nanos) {
                        None => None,
                        Some(written) => Some("EXPIRY:"@ + written),
                    },
                },
            }
        },
    }
}

/// The normalized restore status of an object, from what a listing says of it.
pub fn normalize_restore_status_from_list(status: Option<RestoreStatus>) -> (normalized: Option<
    String,
>)
    ensures
        normalized.deep_view() == listed_restore_status(status),
{
    match status {
        None => None,
        Some(status) => {
            let in_progress: bool = match status.is_restore_in_progress {
                Some(in_progress) => in_progress,
                None => false,
            };
            if in_progress {
                Some("ONGOING".to_owned())
            } else {
                match status.restore_expiry_date {
                    Some(expiry) => {
                        let shown = match expiry.to_rfc3339() {
                            Some(written) => written,
                            None => expiry.to_text(),
                        };
                        Some("EXPIRY:".to_owned().concat(shown.as_str()))
                    },
                    None => None,
                }
            }
        },
    }
}

/// The normalized restore status of an object, from the `x-amz-restore` header of a HEAD or GET
/// response. The header looks like `ongoing-request="true"` or
/// `ongoing-request="false", expiry-date="Thu, 18 Jun 2026 00:00:00 GMT"`.
pub fn normalize_restore_status_from_header(restore: Option<&str>) -> (normalized: Option<String>)
    ensures
        normalized.deep_view() == header_restore_status(
            match restore {
                Some(header) => Some(header@),
                None => None,
            },
        ),
{
    let header = match restore {
        Some(header) => header,
        None => {
            return None;
        },
    };
    let chars = chars_of(header);
    let length: usize = chars.len();
    let ongoing = chars_of("ongoing-request=\"true\"");
    if find(&chars, &ongoing).is_some() {
        return Some("ONGOING".to_owned());
    }
    let marker = chars_of("expiry-date=\"");
    let start: usize = match find(&chars, &marker) {
        Some(at) => at + marker.len(),
        None => {
            return None;
        },
    };
    let rest = header.substring_char(start, length);
    assert(rest@ == header@.skip(start as int));
    let quote = chars_of("\"");
    let end: usize = match find(&chars_of(rest), &quote) {
        Some(end) => end,
        None => {
            return None;
        },
    };
    let date = rest.substring_char(0, end);
    assert(date@ == rest@.take(end as int));
    match Timestamp::from_http_date(date) {
        Some(expiry) => match expiry.to_rfc3339() {
            Some(written) => Some("EXPIRY:".to_owned().concat(written.as_str())),
            None => None,
        },
        None => None,
    }
}

/// The metadata of an object, from a HEAD or GET response.
pub open spec fn described_object(key: Seq<char>, head: ObjectHead) -> Result<
    ObjectInfoView,
    S3ErrorView,
> {
    match error::content_length(head.content_length) {
        Err(e) => Err(e),
        Ok(size) => match head.last_modified {
            None => Err(S3ErrorView::FieldNotExist("timestamp"@)),
            Some(timestamp) => Ok(
                ObjectInfoView {
                    key,
                    size,
                    timestamp,
                    storage_class: head.storage_class.deep_view(),
                    restore_status: header_restore_status(head.restore.deep_view()),
                },
            ),
        },
    }
}

/// The metadata of an object, from a HEAD or GET response. It is an error if the response does
/// not declare a valid size, or no time of modification.
pub fn object_info(key: &str, head: &ObjectHead) -> (info: Result<ObjectInfo, S3Error>)
    ensures
        object_result(info) == described_object(key@, *head),
{
    let size: u64 = match checked_content_length(head.content_length) {
        Ok(size) => size,
        Err(e) => {
            return Err(e);
        },
    };
    let timestamp = match head.last_modified {
        Some(timestamp) => timestamp,
        None => {
            return Err(S3Error::FieldNotExist("timestamp"));
        },
    };
    let restore: Option<&str> = match &head.restore {
        Some(restore) => Some(restore.as_str()),
        None => None,
    };
    Ok(
        ObjectInfo {
            key: key.to_owned(),
            size,
            timestamp,
            storage_class: head.storage_class.clone(),
            restore_status: normalize_restore_status_from_header(restore),
        },
    )
}

/// The metadata of an object that was looked up or got into memory. Where the details of objects
/// are logged, the response has to name a content type, which is the last of them.
pub open spec fn found_object(key: Seq<char>, head: ObjectHead, logs_details: bool) -> Result<
    ObjectInfoView,
    S3ErrorView,
> {
    match described_object(key, head) {
        Err(e) => Err(e),
        Ok(info) => if logs_details && head.content_type is None {
            Err(S3ErrorView::FieldNotExist("content_type"@))
        } else {
            Ok(info)
        },
    }
}

/// The metadata of an object that was looked up or got into memory, from the response. Beside what
/// [`object_info`] refuses, it is an error if the response names no content type while
/// `logs_details` says that the details of objects are logged. Whether they are, is up to the
/// logger: they are logged at its debug level.
pub fn found_object_info(key: &str, head: &ObjectHead, logs_details: bool) -> (info: Result<
    ObjectInfo,
    S3Error,
>)
    ensures
        object_result(info) == found_object(key@, *head, logs_details),
{
    match object_info(key, head) {
        Ok(info) => if logs_details && head.content_type.is_none() {
            Err(S3Error::FieldNotExist("content_type"))
        } else {
            Ok(info)
        },
        Err(e) => Err(e),
    }
}

/// The `x-amz-restore` header of an object that was restored until a date.
pub open spec fn restored_until_header(date: Seq<char>) -> Seq<char> {
    "ongoing-request=\"false\", expiry-date=\""@ + date + "\""@
}

/// What `restored_until_header` begins with.
proof fn lemma_restored_until_header(date: Seq<char>)
    requires
        !date.contains('"'),
    ensures
        !text::contains_text(restored_until_header(date), "ongoing-request=\"true\""@),
        expiry_date_in_header(restored_until_header(date)) == Some(date),
{
    let header = restored_until_header(date);
    let lead = "ongoing-request=\"false\", expiry-date=\""@;
    let ongoing = "ongoing-request=\"true\""@;
    let marker = "expiry-date=\""@;
    reveal_strlit("ongoing-request=\"false\", expiry-date=\"");
    reveal_strlit("ongoing-request=\"true\"");
    reveal_strlit("expiry-date=\"");
    reveal_strlit("\"");
    assert(lead.len() == 38 && ongoing.len() == 22 && marker.len() == 13);
    assert(forall|i: int| 0 <= i < 38 ==> #[trigger] header[i] == lead[i]);
    assert(forall|i: int| 0 <= i < date.len() ==> #[trigger] date[i] != '"');
    assert(forall|i: int| 38 <= i < 38 + date.len() ==> #[trigger] header[i] == date[i - 38]);

    assert forall|at: int| !text::occurs_at(header, ongoing, at) by {
        if text::occurs_at(header, ongoing, at) {
            let piece = header.subrange(at, at + 22);
            assert(piece[0] == header[at]);
            assert(piece[16] == header[at + 16]);
            assert(piece[17] == header[at + 17]);
            assert(piece[21] == header[at + 21]);
            assert(ongoing[0] == 'o' && ongoing[16] == '"' && ongoing[17] == 't' && ongoing[21]
                == '"');
            if at + 16 < 38 {
                assert(lead[at + 16] == '"');
                assert(at + 16 == 16 || at + 16 == 22 || at + 16 == 37);
            } else {
                assert(header[at + 16] == date[at + 16 - 38]);
            }
        }
    }

    assert(text::first_occurrence(header, marker, 25)) by {
        assert(header.subrange(25, 38) =~= marker);
        assert forall|earlier: int| earlier < 25 implies !text::occurs_at(
            header,
            marker,
            earlier,
        ) by {
            if text::occurs_at(header, marker, earlier) {
                let piece = header.subrange(earlier, earlier + 13);
                assert(piece[0] == header[earlier]);
                assert(piece[1] == header[earlier + 1]);
                assert(marker[0] == 'e' && marker[1] == 'x');
                assert(lead[earlier] == 'e' && lead[earlier + 1] == 'x');
            }
        }
    }
    text::lemma_find_text_is_first(header, marker, 25);

    let rest = header.skip(38);
    assert(rest =~= date + "\""@);
    let end = date.len() as int;
    assert(text::first_occurrence(rest, "\""@, end)) by {
        assert(rest.subrange(end, end + 1) =~= "\""@);
        assert forall|earlier: int| earlier < end implies !text::occurs_at(
            rest,
            "\""@,
            earlier,
        ) by {
            if text::occurs_at(rest, "\""@, earlier) {
                assert(rest.subrange(earlier, earlier + 1)[0] == rest[earlier]);
                assert(rest[earlier] == date[earlier]);
            }
        }
    }
    text::lemma_find_text_is_first(rest, "\""@, end);
    assert(rest.take(end) =~= date);
}

/// The restore status of an object is normalized to the same text whether it comes from a
/// listing or from a HEAD or GET response: for an object that is available until a date that
/// RFC 3339 covers, the header that names the date and the listing that gives it agree.
pub proof fn lemma_restore_status_is_the_same_from_both(
    date: Seq<char>,
    expiry: Timestamp,
    in_progress: Option<bool>,
)
    requires
        !date.contains('"'),
        time::http_date(date) == Some((expiry.secs, expiry.subsec_nanos)),
        time::rfc3339(expiry.secs, expiry.subsec_nanos) is Some,
        in_progress != Some(true),
    ensures
        header_restore_status(Some(restored_until_header(date))) == listed_restore_status(
            Some(
                RestoreStatus {
                    is_restore_in_progress: in_progress,
                    restore_expiry_date: Some(expiry),
                },
            ),
        ),
        header_restore_status(Some(restored_until_header(date))) == Some(
            "EXPIRY:"@ + time::rfc3339(expiry.secs, expiry.subsec_nanos).unwrap(),
        ),
{
    lemma_restored_until_header(date);
}

/// A listing and an `x-amz-restore` header say the same of the restoration of an object: neither
/// says anything, both say that it is under way, or both say that it is not, and give the same
/// expiry date or none. RFC 3339 has to cover the date.
pub open spec fn say_the_same(status: Option<RestoreStatus>, header: Option<Seq<char>>) -> bool {
    match (status, header) {
        (None, None) => true,
        (Some(status), Some(header)) => {
            let in_progress = status.is_restore_in_progress == Some(true);
            &&& in_progress == text::contains_text(header, "ongoing-request=\"true\""@)
            &&& !in_progress ==> match (status.restore_expiry_date, expiry_date_in_header(header)) {
                (None, None) => true,
                (Some(expiry), Some(date)) => time::http_date(date) == Some(
                    (expiry.secs, expiry.subsec_nanos),
                ) && time::rfc3339(expiry.secs, expiry.subsec_nanos) is Some,
                _ => false,
            }
        },
        _ => false,
    }
}

/// The restore status of an object is the same from a listing and from a header that say the same
/// of it: none, `ONGOING`, or `EXPIRY:` and the date in RFC 3339. A restoration under way is
/// `ONGOING` whatever date is given.
pub proof fn lemma_restore_status_depends_on_what_is_said(
    status: Option<RestoreStatus>,
    header: Option<Seq<char>>,
)
    requires
        say_the_same(status, header),
    ensures
        listed_restore_status(status) == header_restore_status(header),
        listed_restore_status(status) == (match status {
            None => None,
            Some(status) => if status.is_restore_in_progress == Some(true) {
                Some("ONGOING"@)
            } else {
                match status.restore_expiry_date {
                    None => None,
                    Some(expiry) => Some(
                        "EXPIRY:"@ + time::rfc3339(expiry.secs, expiry.subsec_nanos).unwrap(),
                    ),
                }
            },
        }),
{
}

/// The metadata says of an object what the response says: its size, its time of modification, its
/// storage class and its restoration.
pub open spec fn is_metadata_of(info: ObjectInfoView, key: Seq<char>, head: ObjectHead) -> bool {
    &&& info.key == key
    &&& head.content_length matches Some(length) && info.size == length
    &&& head.last_modified == Some(info.timestamp)
    &&& info.storage_class == head.storage_class.deep_view()
    &&& info.restore_status == header_restore_status(head.restore.deep_view())
}

/// The response has what it takes to describe an object: a size that is not negative, and a time of
/// modification.
pub open spec fn is_complete(head: ObjectHead) -> bool {
    &&& head.content_length matches Some(length) && length >= 0
    &&& head.last_modified is Some
}

/// The metadata of an object is what the response says. There is none exactly if the response
/// leaves out the size or the time of modification, or declares a negative size, and the error says
/// which.
pub proof fn lemma_metadata_is_what_the_response_says(key: Seq<char>, head: ObjectHead)
    ensures
        match described_object(key, head) {
            Ok(info) => is_complete(head) && is_metadata_of(info, key, head),
            Err(error) => !is_complete(head) && match head.content_length {
                None => error == S3ErrorView::FieldNotExist("content_length"@),
                Some(length) => if length < 0 {
                    error is ValidationError
                } else {
                    error == S3ErrorView::FieldNotExist("timestamp"@)
                },
            },
        },
{
}

/// An object that is looked up or got into memory is described as the response says, too. Where its
/// details are logged, a response without a content type is refused.
pub proof fn lemma_found_object_is_what_the_response_says(
    key: Seq<char>,
    head: ObjectHead,
    logs_details: bool,
)
    ensures
        match found_object(key, head, logs_details) {
            Ok(info) => is_complete(head) && is_metadata_of(info, key, head) && (logs_details
                ==> head.content_type is Some),
            Err(error) => !is_complete(head) || (logs_details && head.content_type is None && error
                == S3ErrorView::FieldNotExist("content_type"@)),
        },
{
}

/// A restoration under way is shown as such, and one that is over by its expiry date, if it has
/// one: the status of an object begins with what it says.
pub proof fn lemma_restore_status_says_what_is_listed(status: RestoreStatus)
    ensures
        listed_restore_status(None) is None,
        status.is_restore_in_progress == Some(true) ==> listed_restore_status(Some(status)) == Some(
            "ONGOING"@,
        ),
        status.is_restore_in_progress != Some(true) ==> match status.restore_expiry_date {
            None => listed_restore_status(Some(status)) is None,
            Some(expiry) => listed_restore_status(Some(status)) == Some(
                "EXPIRY:"@ + expiry.shown(),
            ),
        },
{
}

/// The expiry date in a header is what stands between the quotes behind the first `expiry-date=`,
/// whatever stands around it.
pub proof fn lemma_expiry_date_stands_between_quotes(
    before: Seq<char>,
    date: Seq<char>,
    after: Seq<char>,
)
    requires
        !date.contains('"'),
        text::first_occurrence(
            before + "expiry-date=\""@ + date + "\""@ + after,
            "expiry-date=\""@,
            before.len() as int,
        ),
    ensures
        expiry_date_in_header(before + "expiry-date=\""@ + date + "\""@ + after) == Some(date),
{
    let marker = "expiry-date=\""@;
    let quote = "\""@;
    reveal_strlit("\"");
    let header = before + marker + date + quote + after;
    let start = before.len() + marker.len() as int;
    let rest = header.skip(start);
    text::lemma_find_text_is_first(header, marker, before.len() as int);
    assert(rest =~= date + quote + after);
    let end = date.len() as int;
    assert(rest.subrange(end, end + 1) =~= quote);
    assert forall|earlier: int| earlier < end implies !text::occurs_at(rest, quote, earlier) by {
        if text::occurs_at(rest, quote, earlier) {
            assert(rest.subrange(earlier, earlier + 1)[0] == rest[earlier]);
            assert(date[earlier] == '"');
            assert(date.contains('"'));
        }
    }
    text::lemma_find_text_is_first(rest, quote, end);
    assert(rest.take(end) =~= date);
}

/// A header whose expiry date cannot be read, or that RFC 3339 cannot write, gives no restore
/// status, and any other date is written in RFC 3339.
pub proof fn lemma_only_readable_dates_give_a_status(header: Seq<char>, date: Seq<char>)
    requires
        !text::contains_text(header, "ongoing-request=\"true\""@),
        expiry_date_in_header(header) == Some(date),
    ensures
        header_restore_status(None) is None,
        match time::http_date(date) {
            None => header_restore_status(Some(header)) is None,
            Some((secs, subsec_nanos)) => match time::rfc3339(secs, subsec_nanos) {
                None => header_restore_status(Some(header)) is None,
                Some(written) => header_restore_status(Some(header)) == Some(
                    seq!['E', 'X', 'P', 'I', 'R', 'Y', ':'] + written,
                ),
            },
        },
{
    reveal_strlit("EXPIRY:");
    assert("EXPIRY:"@ =~= seq!['E', 'X', 'P', 'I', 'R', 'Y', ':']);
}

} // verus!

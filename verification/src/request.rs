//! Requests to the service, as plain values.

use crate::text;
use vstd::prelude::*;

verus! {

/// Where the bytes that a request sends come from.
#[derive(Clone, Debug)]
pub enum Body {
    /// Bytes held in memory.
    Bytes(Vec<u8>),
    /// A whole local file.
    File { path: String },
    /// `length` bytes of a local file, from `offset` on.
    FileRange { path: String, offset: u64, length: u64 },
}

/// The model of [`Body`].
pub enum BodyView {
    Bytes(Seq<u8>),
    File { path: Seq<char> },
    FileRange { path: Seq<char>, offset: u64, length: u64 },
}

impl View for Body {
    type V = BodyView;

    open spec fn view(&self) -> BodyView {
        match self {
            Body::Bytes(bytes) => BodyView::Bytes(bytes@),
            Body::File { path } => BodyView::File { path: path@ },
            Body::FileRange { path, offset, length } => BodyView::FileRange {
                path: path@,
                offset: *offset,
                length: *length,
            },
        }
    }
}

/// A part of a multipart upload that the service has stored.
#[derive(Debug)]
pub struct CompletedPart {
    pub e_tag: String,
    pub part_number: i32,
}

/// The model of [`CompletedPart`].
pub struct CompletedPartView {
    pub e_tag: Seq<char>,
    pub part_number: i32,
}

impl View for CompletedPart {
    type V = CompletedPartView;

    open spec fn view(&self) -> CompletedPartView {
        CompletedPartView { e_tag: self.e_tag@, part_number: self.part_number }
    }
}

impl DeepView for CompletedPart {
    type V = CompletedPartView;

    open spec fn deep_view(&self) -> CompletedPartView {
        self@
    }
}

/// A request to the service.
#[derive(Debug)]
pub enum Request {
    HeadBucket { bucket: String },
    CreateBucket { bucket: String },
    DeleteBucket { bucket: String },
    ListObjectsV2 {
        bucket: String,
        prefix: String,
        delimiter: Option<String>,
        continuation_token: Option<String>,
    },
    HeadObject { bucket: String, key: String },
    GetObject { bucket: String, key: String, range: Option<String>, if_match: Option<String> },
    PutObject { bucket: String, key: String, body: Body, storage_class: Option<String> },
    CopyObject {
        bucket: String,
        key: String,
        copy_source: String,
        storage_class: Option<String>,
    },
    DeleteObject { bucket: String, key: String },
    RestoreObject { bucket: String, key: String, days: i32, tier: String },
    CreateMultipartUpload { bucket: String, key: String, storage_class: Option<String> },
    UploadPart { bucket: String, key: String, upload_id: String, part_number: i32, body: Body },
    UploadPartCopy {
        bucket: String,
        key: String,
        upload_id: String,
        part_number: i32,
        copy_source: String,
        copy_source_if_match: String,
        copy_source_range: String,
    },
    CompleteMultipartUpload {
        bucket: String,
        key: String,
        upload_id: String,
        parts: Vec<CompletedPart>,
    },
    AbortMultipartUpload { bucket: String, key: String, upload_id: String },
}

/// The model of [`Request`].
pub enum RequestView {
    HeadBucket { bucket: Seq<char> },
    CreateBucket { bucket: Seq<char> },
    DeleteBucket { bucket: Seq<char> },
    ListObjectsV2 {
        bucket: Seq<char>,
        prefix: Seq<char>,
        delimiter: Option<Seq<char>>,
        continuation_token: Option<Seq<char>>,
    },
    HeadObject { bucket: Seq<char>, key: Seq<char> },
    GetObject {
        bucket: Seq<char>,
        key: Seq<char>,
        range: Option<Seq<char>>,
        if_match: Option<Seq<char>>,
    },
    PutObject {
        bucket: Seq<char>,
        key: Seq<char>,
        body: BodyView,
        storage_class: Option<Seq<char>>,
    },
    CopyObject {
        bucket: Seq<char>,
        key: Seq<char>,
        copy_source: Seq<char>,
        storage_class: Option<Seq<char>>,
    },
    DeleteObject { bucket: Seq<char>, key: Seq<char> },
    RestoreObject { bucket: Seq<char>, key: Seq<char>, days: i32, tier: Seq<char> },
    CreateMultipartUpload {
        bucket: Seq<char>,
        key: Seq<char>,
        storage_class: Option<Seq<char>>,
    },
    UploadPart {
        bucket: Seq<char>,
        key: Seq<char>,
        upload_id: Seq<char>,
        part_number: i32,
        body: BodyView,
    },
    UploadPartCopy {
        bucket: Seq<char>,
        key: Seq<char>,
        upload_id: Seq<char>,
        part_number: i32,
        copy_source: Seq<char>,
        copy_source_if_match: Seq<char>,
        copy_source_range: Seq<char>,
    },
    CompleteMultipartUpload {
        bucket: Seq<char>,
        key: Seq<char>,
        upload_id: Seq<char>,
        parts: Seq<CompletedPartView>,
    },
    AbortMultipartUpload { bucket: Seq<char>, key: Seq<char>, upload_id: Seq<char> },
}

impl View for Request {
    type V = RequestView;

    open spec fn view(&self) -> RequestView {
        match self {
            Request::HeadBucket { bucket } => RequestView::HeadBucket { bucket: bucket@ },
            Request::CreateBucket { bucket } => RequestView::CreateBucket { bucket: bucket@ },
            Request::DeleteBucket { bucket } => RequestView::DeleteBucket { bucket: bucket@ },
            Request::ListObjectsV2 { bucket, prefix, delimiter, continuation_token } => {
                RequestView::ListObjectsV2 {
                    bucket: bucket@,
                    prefix: prefix@,
                    delimiter: delimiter.deep_view(),
                    continuation_token: continuation_token.deep_view(),
                }
            },
            Request::HeadObject { bucket, key } => RequestView::HeadObject {
                bucket: bucket@,
                key: key@,
            },
            Request::GetObject { bucket, key, range, if_match } => RequestView::GetObject {
                bucket: bucket@,
                key: key@,
                range: range.deep_view(),
                if_match: if_match.deep_view(),
            },
            Request::PutObject { bucket, key, body, storage_class } => RequestView::PutObject {
                bucket: bucket@,
                key: key@,
                body: body@,
                storage_class: storage_class.deep_view(),
            },
            Request::CopyObject { bucket, key, copy_source, storage_class } => {
                RequestView::CopyObject {
                    bucket: bucket@,
                    key: key@,
                    copy_source: copy_source@,
                    storage_class: storage_class.deep_view(),
                }
            },
            Request::DeleteObject { bucket, key } => RequestView::DeleteObject {
                bucket: bucket@,
                key: key@,
            },
            Request::RestoreObject { bucket, key, days, tier } => RequestView::RestoreObject {
                bucket: bucket@,
                key: key@,
                days: *days,
                tier: tier@,
            },
            Request::CreateMultipartUpload { bucket, key, storage_class } => {
                RequestView::CreateMultipartUpload {
                    bucket: bucket@,
                    key: key@,
                    storage_class: storage_class.deep_view(),
                }
            },
            Request::UploadPart { bucket, key, upload_id, part_number, body } => {
                RequestView::UploadPart {
                    bucket: bucket@,
                    key: key@,
                    upload_id: upload_id@,
                    part_number: *part_number,
                    body: body@,
                }
            },
            Request::UploadPartCopy {
                bucket,
                key,
                upload_id,
                part_number,
                copy_source,
                copy_source_if_match,
                copy_source_range,
            } => RequestView::UploadPartCopy {
                bucket: bucket@,
                key: key@,
                upload_id: upload_id@,
                part_number: *part_number,
                copy_source: copy_source@,
                copy_source_if_match: copy_source_if_match@,
                copy_source_range: copy_source_range@,
            },
            Request::CompleteMultipartUpload { bucket, key, upload_id, parts } => {
                RequestView::CompleteMultipartUpload {
                    bucket: bucket@,
                    key: key@,
                    upload_id: upload_id@,
                    parts: parts.deep_view(),
                }
            },
            Request::AbortMultipartUpload { bucket, key, upload_id } => {
                RequestView::AbortMultipartUpload {
                    bucket: bucket@,
                    key: key@,
                    upload_id: upload_id@,
                }
            },
        }
    }
}

/// A request, with what is said of it if it fails and whether it is worth repeating.
#[derive(Debug)]
pub struct Call {
    pub request: Request,
    /// Says which operation failed, in the error that a failure is reported as.
    pub context: String,
    /// Whether the request, with the reading of its response, is repeated as the retry settings
    /// say while it fails with an error that may go away by itself.
    pub retried: bool,
}

/// The model of [`Call`].
pub struct CallView {
    pub request: RequestView,
    pub context: Seq<char>,
    pub retried: bool,
}

impl View for Call {
    type V = CallView;

    open spec fn view(&self) -> CallView {
        CallView { request: self.request@, context: self.context@, retried: self.retried }
    }
}

/// An optional text, owned.
pub fn owned(text: Option<&str>) -> (owned: Option<String>)
    ensures
        owned.deep_view() == text.deep_view(),
{
    match text {
        Some(text) => Some(text.to_owned()),
        None => None,
    }
}

/// A byte that a URL holds as it is: a letter, a digit, `-`, `_`, `.` or `~`.
pub open spec fn is_unreserved(byte: u8) -> bool {
    ||| 0x30 <= byte <= 0x39
    ||| 0x41 <= byte <= 0x5a
    ||| 0x61 <= byte <= 0x7a
    ||| byte == 0x2d
    ||| byte == 0x5f
    ||| byte == 0x2e
    ||| byte == 0x7e
}

/// The hexadecimal digit of `d`, in upper case.
pub open spec fn hex_digit(d: int) -> char
    recommends
        0 <= d < 16,
{
    if d < 10 {
        (48 + d) as char
    } else {
        (55 + d) as char
    }
}

/// Bytes as a URL holds them: each that is not held as it is becomes `%` and two hexadecimal
/// digits.
pub open spec fn percent_encoded(bytes: Seq<u8>) -> Seq<char>
    decreases bytes.len(),
{
    if bytes.len() == 0 {
        Seq::empty()
    } else {
        let byte = bytes.last();
        percent_encoded(bytes.drop_last()) + (if is_unreserved(byte) {
            seq![byte as char]
        } else {
            seq!['%', hex_digit(byte as int / 16), hex_digit(byte as int % 16)]
        })
    }
}

/// Calls `urlencoding::encode`, which percent-encodes every byte of the text in UTF-8, except
/// letters, digits, `-`, `_`, `.` and `~`.
#[verifier::external_body]
fn url_encode(text: &str) -> (encoded: String)
    ensures
        encoded@ == percent_encoded(vstd::utf8::encode_utf8(text@)),
{
    urlencoding::encode(text).into_owned()
}

/// How a copy names its source.
pub open spec fn copy_source_text(bucket: Seq<char>, key: Seq<char>) -> Seq<char> {
    percent_encoded(vstd::utf8::encode_utf8(bucket + "/"@ + key))
}

/// How a copy names its source.
pub fn copy_source(bucket: &str, key: &str) -> (source: String)
    ensures
        source@ == copy_source_text(bucket@, key@),
{
    let path = bucket.to_owned().concat("/").concat(key);
    url_encode(path.as_str())
}

/// What `format!("{:?}", ..)` of std writes for an optional text.
pub uninterp spec fn debug_option(text: Option<Seq<char>>) -> Seq<char>;

/// Calls `format!` of std with `{:?}` on an optional text. The result is a function of the text.
#[verifier::external_body]
fn debug_text(text: Option<&str>) -> (shown: String)
    ensures
        shown@ == debug_option(text.deep_view()),
{
    format!("{:?}", text)
}

/// An optional text as it stands in an error's context.
pub fn show_option(text: Option<&str>) -> (shown: String)
    ensures
        shown@ == debug_option(text.deep_view()),
{
    debug_text(text)
}

/// `<operation> bucket=<bucket>`.
pub open spec fn bucket_context(operation: Seq<char>, bucket: Seq<char>) -> Seq<char> {
    "<"@ + operation + "> bucket="@ + bucket
}

/// `<operation> bucket=<bucket> key=<key>`.
pub open spec fn object_context(
    operation: Seq<char>,
    bucket: Seq<char>,
    key: Seq<char>,
) -> Seq<char> {
    bucket_context(operation, bucket) + " key="@ + key
}

/// `<operation> bucket=<bucket> prefix=<prefix>`.
pub open spec fn prefix_context(
    operation: Seq<char>,
    bucket: Seq<char>,
    prefix: Seq<char>,
) -> Seq<char> {
    bucket_context(operation, bucket) + " prefix="@ + prefix
}

/// `<operation> src_bucket=.. src_key=.. dst_bucket=.. dst_key=..`.
pub open spec fn copy_context(
    operation: Seq<char>,
    src_bucket: Seq<char>,
    src_key: Seq<char>,
    dst_bucket: Seq<char>,
    dst_key: Seq<char>,
) -> Seq<char> {
    "<"@ + operation + "> src_bucket="@ + src_bucket + " src_key="@ + src_key + " dst_bucket="@
        + dst_bucket + " dst_key="@ + dst_key
}

/// `<operation> bucket=<bucket>`.
pub fn describe_bucket(operation: &str, bucket: &str) -> (context: String)
    ensures
        context@ == bucket_context(operation@, bucket@),
{
    "<".to_owned().concat(operation).concat("> bucket=").concat(bucket)
}

/// `<operation> bucket=<bucket> key=<key>`.
pub fn describe_object(operation: &str, bucket: &str, key: &str) -> (context: String)
    ensures
        context@ == object_context(operation@, bucket@, key@),
{
    describe_bucket(operation, bucket).concat(" key=").concat(key)
}

/// `<operation> bucket=<bucket> prefix=<prefix>`.
pub fn describe_prefix(operation: &str, bucket: &str, prefix: &str) -> (context: String)
    ensures
        context@ == prefix_context(operation@, bucket@, prefix@),
{
    describe_bucket(operation, bucket).concat(" prefix=").concat(prefix)
}

/// `<operation> src_bucket=.. src_key=.. dst_bucket=.. dst_key=..`.
pub fn describe_copy(
    operation: &str,
    src_bucket: &str,
    src_key: &str,
    dst_bucket: &str,
    dst_key: &str,
) -> (context: String)
    ensures
        context@ == copy_context(operation@, src_bucket@, src_key@, dst_bucket@, dst_key@),
{
    "<".to_owned().concat(operation).concat("> src_bucket=").concat(src_bucket).concat(
        " src_key=",
    ).concat(src_key).concat(" dst_bucket=").concat(dst_bucket).concat(" dst_key=").concat(dst_key)
}

/// The value of a hexadecimal digit in upper case.
pub open spec fn hex_value(digit: char) -> int {
    if '0' <= digit <= '9' {
        digit as int - 48
    } else {
        digit as int - 55
    }
}

/// The bytes that a percent-encoded text stands for: `%` and two hexadecimal digits stand for the
/// byte with that value, and any other character for itself.
pub open spec fn percent_decoded(text: Seq<char>) -> Seq<u8>
    decreases text.len(),
{
    let n = text.len() as int;
    if n == 0 {
        Seq::empty()
    } else if n >= 3 && text[n - 3] == '%' {
        percent_decoded(text.take(n - 3)).push(
            (hex_value(text[n - 2]) * 16 + hex_value(text[n - 1])) as u8,
        )
    } else {
        percent_decoded(text.take(n - 1)).push(text[n - 1] as u8)
    }
}

/// A hexadecimal digit has its value, and is not `%`.
proof fn lemma_hex_digit(d: int)
    requires
        0 <= d < 16,
    ensures
        hex_value(hex_digit(d)) == d,
        hex_digit(d) != '%',
{
}

/// Decoding a percent-encoded text gives the bytes back that were encoded.
pub proof fn lemma_percent_encoding_is_undone(bytes: Seq<u8>)
    ensures
        percent_decoded(percent_encoded(bytes)) == bytes,
        percent_encoded(bytes).len() > 0 ==> percent_encoded(bytes).last() != '%',
        percent_encoded(bytes).len() > 1 ==> percent_encoded(bytes)[percent_encoded(bytes).len()
            - 2] != '%',
    decreases bytes.len(),
{
    if bytes.len() > 0 {
        let byte = bytes.last();
        let before = percent_encoded(bytes.drop_last());
        let text = percent_encoded(bytes);
        let n = text.len() as int;
        lemma_percent_encoding_is_undone(bytes.drop_last());
        assert(bytes.drop_last().push(byte) =~= bytes);
        if is_unreserved(byte) {
            assert(text[n - 1] == byte as char);
            assert(text.take(n - 1) =~= before);
            assert(n >= 3 ==> text[n - 3] == before[before.len() - 2]);
            assert(n >= 2 ==> text[n - 2] == before[before.len() - 1]);
        } else {
            let high = byte as int / 16;
            let low = byte as int % 16;
            lemma_hex_digit(high);
            lemma_hex_digit(low);
            assert(text[n - 3] == '%');
            assert(text[n - 2] == hex_digit(high));
            assert(text[n - 1] == hex_digit(low));
            assert(text.take(n - 3) =~= before);
        }
    } else {
        assert(percent_decoded(percent_encoded(bytes)) =~= bytes);
    }
}

/// A copy source names an object: decoded, it is the bucket, a slash and the key, in UTF-8.
pub open spec fn names_object(copy_source: Seq<char>, bucket: Seq<char>, key: Seq<char>) -> bool {
    percent_decoded(copy_source) == vstd::utf8::encode_utf8(bucket + seq!['/'] + key)
}

/// A copy names its source by the bucket, a slash and the key, percent-encoded.
pub proof fn lemma_copy_source_names_the_object(bucket: Seq<char>, key: Seq<char>)
    ensures
        names_object(copy_source_text(bucket, key), bucket, key),
{
    reveal_strlit("/");
    assert("/"@ =~= seq!['/']);
    lemma_percent_encoding_is_undone(vstd::utf8::encode_utf8(bucket + "/"@ + key));
}

/// Two objects that copies name in the same way are the same, as buckets hold no slash.
pub proof fn lemma_copy_source_is_unique(
    bucket: Seq<char>,
    key: Seq<char>,
    other_bucket: Seq<char>,
    other_key: Seq<char>,
)
    requires
        !bucket.contains('/'),
        !other_bucket.contains('/'),
        copy_source_text(bucket, key) == copy_source_text(other_bucket, other_key),
    ensures
        bucket == other_bucket,
        key == other_key,
{
    lemma_copy_source_names_the_object(bucket, key);
    lemma_copy_source_names_the_object(other_bucket, other_key);
    let path = bucket + seq!['/'] + key;
    let other_path = other_bucket + seq!['/'] + other_key;
    vstd::utf8::encode_utf8_decode_utf8(path);
    vstd::utf8::encode_utf8_decode_utf8(other_path);
    assert(path == other_path);
    assert(path[bucket.len() as int] == '/');
    assert(other_path[other_bucket.len() as int] == '/');
    if bucket.len() < other_bucket.len() {
        assert(other_bucket[bucket.len() as int] == '/');
    }
    if other_bucket.len() < bucket.len() {
        assert(bucket[other_bucket.len() as int] == '/');
    }
    assert(path.take(bucket.len() as int) =~= bucket);
    assert(path.take(bucket.len() as int) =~= other_bucket);
    assert(path.skip(bucket.len() as int + 1) =~= key);
    assert(path.skip(bucket.len() as int + 1) =~= other_key);
}

/// What a failure is reported as names the operation, between angle brackets at the front, and the
/// bucket, the key or prefix, and for a copy both objects.
pub proof fn lemma_contexts_name_what_failed(
    operation: Seq<char>,
    bucket: Seq<char>,
    key: Seq<char>,
    dst_bucket: Seq<char>,
    dst_key: Seq<char>,
)
    ensures
        ("<"@ + operation + ">"@).is_prefix_of(bucket_context(operation, bucket)),
        ("bucket="@ + bucket).is_suffix_of(bucket_context(operation, bucket)),
        ("<"@ + operation + ">"@).is_prefix_of(object_context(operation, bucket, key)),
        text::contains_text(object_context(operation, bucket, key), "bucket="@ + bucket),
        ("key="@ + key).is_suffix_of(object_context(operation, bucket, key)),
        ("<"@ + operation + ">"@).is_prefix_of(prefix_context(operation, bucket, key)),
        text::contains_text(prefix_context(operation, bucket, key), "bucket="@ + bucket),
        ("prefix="@ + key).is_suffix_of(prefix_context(operation, bucket, key)),
        ("<"@ + operation + ">"@).is_prefix_of(
            copy_context(operation, bucket, key, dst_bucket, dst_key),
        ),
        text::contains_text(
            copy_context(operation, bucket, key, dst_bucket, dst_key),
            "src_bucket="@ + bucket,
        ),
        text::contains_text(
            copy_context(operation, bucket, key, dst_bucket, dst_key),
            "src_key="@ + key,
        ),
        text::contains_text(
            copy_context(operation, bucket, key, dst_bucket, dst_key),
            "dst_bucket="@ + dst_bucket,
        ),
        ("dst_key="@ + dst_key).is_suffix_of(
            copy_context(operation, bucket, key, dst_bucket, dst_key),
        ),
{
    reveal_strlit("<");
    reveal_strlit(">");
    reveal_strlit("> bucket=");
    reveal_strlit("bucket=");
    reveal_strlit(" key=");
    reveal_strlit("key=");
    reveal_strlit(" prefix=");
    reveal_strlit("prefix=");
    reveal_strlit("> src_bucket=");
    reveal_strlit("src_bucket=");
    reveal_strlit(" src_key=");
    reveal_strlit("src_key=");
    reveal_strlit(" dst_bucket=");
    reveal_strlit("dst_bucket=");
    reveal_strlit(" dst_key=");
    reveal_strlit("dst_key=");
    let named = "<"@ + operation + ">"@;
    let n = named.len() as int;
    let in_bucket = bucket_context(operation, bucket);
    let head = named + seq![' '];
    assert(in_bucket =~= head + ("bucket="@ + bucket));
    assert(in_bucket.subrange(n + 1, in_bucket.len() as int) =~= "bucket="@ + bucket);
    let on_key = object_context(operation, bucket, key);
    text::lemma_piece_stands_in_text(head, "bucket="@ + bucket, " key="@ + key);
    assert(on_key =~= head + ("bucket="@ + bucket) + (" key="@ + key));
    assert(on_key.subrange(in_bucket.len() + 1 as int, on_key.len() as int) =~= "key="@ + key);
    let on_prefix = prefix_context(operation, bucket, key);
    text::lemma_piece_stands_in_text(head, "bucket="@ + bucket, " prefix="@ + key);
    assert(on_prefix =~= head + ("bucket="@ + bucket) + (" prefix="@ + key));
    assert(on_prefix.subrange(in_bucket.len() + 1 as int, on_prefix.len() as int) =~= "prefix="@
        + key);
    let copy = copy_context(operation, bucket, key, dst_bucket, dst_key);
    let a = "src_bucket="@ + bucket;
    let b = "src_key="@ + key;
    let c = "dst_bucket="@ + dst_bucket;
    let d = "dst_key="@ + dst_key;
    let gap = seq![' '];
    let after_a = gap + b + gap + c + gap + d;
    text::lemma_piece_stands_in_text(head, a, after_a);
    assert(copy =~= head + a + after_a);
    let before_b = head + a + gap;
    let after_b = gap + c + gap + d;
    text::lemma_piece_stands_in_text(before_b, b, after_b);
    assert(copy =~= before_b + b + after_b);
    let before_c = before_b + b + gap;
    text::lemma_piece_stands_in_text(before_c, c, gap + d);
    assert(copy =~= before_c + c + (gap + d));
    let before_d = before_c + c + gap;
    assert(copy =~= before_d + d);
    assert(copy.subrange(before_d.len() as int, copy.len() as int) =~= d);
}

/// A percent-encoded text holds letters, digits, `-`, `_`, `.`, `~` and the codes of all other
/// bytes, and nothing else.
pub proof fn lemma_encoded_text_is_plain(bytes: Seq<u8>)
    ensures
        forall|i: int|
            0 <= i < percent_encoded(bytes).len() ==> {
                let c = #[trigger] percent_encoded(bytes)[i];
                'a' <= c <= 'z' || 'A' <= c <= 'Z' || '0' <= c <= '9' || c == '-' || c == '_' || c
                    == '.' || c == '~' || c == '%'
            },
    decreases bytes.len(),
{
    if bytes.len() > 0 {
        let before = percent_encoded(bytes.drop_last());
        let text = percent_encoded(bytes);
        lemma_encoded_text_is_plain(bytes.drop_last());
        assert(forall|i: int| 0 <= i < before.len() ==> #[trigger] text[i] == before[i]);
        assert forall|i: int| before.len() <= i < text.len() implies {
            let c = #[trigger] text[i];
            'a' <= c <= 'z' || 'A' <= c <= 'Z' || '0' <= c <= '9' || c == '-' || c == '_' || c
                == '.' || c == '~' || c == '%'
        } by {
            let byte = bytes.last();
            if is_unreserved(byte) {
                assert(text[i] == byte as char);
            } else {
                let high = byte as int / 16;
                let low = byte as int % 16;
                assert(text[i] == '%' || text[i] == hex_digit(high) || text[i] == hex_digit(low));
            }
        }
    }
}

/// Letters, digits, `-`, `_`, `.` and `~` are held as they are: a text of nothing else is not
/// changed by percent-encoding.
pub proof fn lemma_plain_text_is_not_changed(bytes: Seq<u8>)
    requires
        forall|i: int|
            0 <= i < bytes.len() ==> {
                let c = #[trigger] bytes[i] as char;
                'a' <= c <= 'z' || 'A' <= c <= 'Z' || '0' <= c <= '9' || c == '-' || c == '_' || c
                    == '.' || c == '~'
            },
    ensures
        percent_encoded(bytes).len() == bytes.len(),
        forall|i: int|
            0 <= i < bytes.len() ==> #[trigger] percent_encoded(bytes)[i] == bytes[i] as char,
    decreases bytes.len(),
{
    if bytes.len() > 0 {
        let before = bytes.drop_last();
        assert forall|i: int| 0 <= i < before.len() implies {
            let c = #[trigger] before[i] as char;
            'a' <= c <= 'z' || 'A' <= c <= 'Z' || '0' <= c <= '9' || c == '-' || c == '_' || c
                == '.' || c == '~'
        } by {
            assert(before[i] == bytes[i]);
        }
        lemma_plain_text_is_not_changed(before);
        assert(bytes.last() == bytes[bytes.len() - 1]);
        assert(is_unreserved(bytes.last()));
        assert(forall|i: int| 0 <= i < before.len() ==> before[i] == bytes[i]);
    }
}

} // verus!

//! Errors of S3 operations, and which of them are worth another attempt.

use crate::text::{append_decimal, append_signed_decimal, is_text};
use crate::text;
use vstd::prelude::*;

verus! {

/// What the service said about a failed request, besides the status code.
#[derive(Clone, Debug)]
pub struct ErrorMetadata {
    /// The service's error code, such as `NoSuchKey`.
    pub code: Option<String>,
    /// The metadata as it is shown to people.
    pub description: String,
}

/// The model of [`ErrorMetadata`].
pub struct ErrorMetadataView {
    pub code: Option<Seq<char>>,
    pub description: Seq<char>,
}

impl View for ErrorMetadata {
    type V = ErrorMetadataView;

    open spec fn view(&self) -> ErrorMetadataView {
        ErrorMetadataView { code: self.code.deep_view(), description: self.description@ }
    }
}

/// How a request to the service failed, as the transport reports it.
#[derive(Clone, Debug)]
pub enum SdkFailure {
    /// The request could not be built.
    ConstructionFailure,
    /// The request took too long.
    TimeoutError,
    /// The request could not be sent.
    DispatchFailure,
    /// A response came that could not be understood.
    ResponseError,
    /// The service answered with an error.
    ServiceError { error: String, metadata: ErrorMetadata, status_code: u16 },
    /// Anything else.
    Other { error: String },
}

/// The model of [`SdkFailure`].
pub enum SdkFailureView {
    ConstructionFailure,
    TimeoutError,
    DispatchFailure,
    ResponseError,
    ServiceError { error: Seq<char>, metadata: ErrorMetadataView, status_code: u16 },
    Other { error: Seq<char> },
}

impl View for SdkFailure {
    type V = SdkFailureView;

    open spec fn view(&self) -> SdkFailureView {
        match self {
            SdkFailure::ConstructionFailure => SdkFailureView::ConstructionFailure,
            SdkFailure::TimeoutError => SdkFailureView::TimeoutError,
            SdkFailure::DispatchFailure => SdkFailureView::DispatchFailure,
            SdkFailure::ResponseError => SdkFailureView::ResponseError,
            SdkFailure::ServiceError { error, metadata, status_code } => {
                SdkFailureView::ServiceError {
                    error: error@,
                    metadata: metadata@,
                    status_code: *status_code,
                }
            },
            SdkFailure::Other { error } => SdkFailureView::Other { error: error@ },
        }
    }
}

/// An error of an S3 operation. The first text of most variants says which operation failed.
#[derive(Debug)]
pub enum S3Error {
    ConstructionFailure(String),
    TimeoutError(String),
    DispatchFailure(String),
    ResponseError(String),
    RetriableClientError(String, String, ErrorMetadata, u16),
    RetriableServerError(String, String, ErrorMetadata, u16),
    AWSS3Error(String, String, ErrorMetadata, u16),
    OtherSDKError(String, String),
    ByteStreamDownloadError(String, String),
    /// A local upload-body construction or file-read error. It is not retried, because another
    /// attempt cannot repair a missing, unreadable, or changed local source file.
    ByteStreamUploadError(String, String),
    UnexpectedContentLength(String, u64, u64),
    UnexpectedContentRange(String, String, String),
    ValidationError(String),
    IOError(String),
    FieldNotExist(&'static str),
    RuntimeError(String),
}

/// The model of [`S3Error`].
pub enum S3ErrorView {
    ConstructionFailure(Seq<char>),
    TimeoutError(Seq<char>),
    DispatchFailure(Seq<char>),
    ResponseError(Seq<char>),
    RetriableClientError(Seq<char>, Seq<char>, ErrorMetadataView, u16),
    RetriableServerError(Seq<char>, Seq<char>, ErrorMetadataView, u16),
    AWSS3Error(Seq<char>, Seq<char>, ErrorMetadataView, u16),
    OtherSDKError(Seq<char>, Seq<char>),
    ByteStreamDownloadError(Seq<char>, Seq<char>),
    ByteStreamUploadError(Seq<char>, Seq<char>),
    UnexpectedContentLength(Seq<char>, u64, u64),
    UnexpectedContentRange(Seq<char>, Seq<char>, Seq<char>),
    ValidationError(Seq<char>),
    IOError(Seq<char>),
    FieldNotExist(Seq<char>),
    RuntimeError(Seq<char>),
}

impl View for S3Error {
    type V = S3ErrorView;

    open spec fn view(&self) -> S3ErrorView {
        match self {
            S3Error::ConstructionFailure(c) => S3ErrorView::ConstructionFailure(c@),
            S3Error::TimeoutError(c) => S3ErrorView::TimeoutError(c@),
            S3Error::DispatchFailure(c) => S3ErrorView::DispatchFailure(c@),
            S3Error::ResponseError(c) => S3ErrorView::ResponseError(c@),
            S3Error::RetriableClientError(c, e, m, s) => S3ErrorView::RetriableClientError(
                c@,
                e@,
                m@,
                *s,
            ),
            S3Error::RetriableServerError(c, e, m, s) => S3ErrorView::RetriableServerError(
                c@,
                e@,
                m@,
                *s,
            ),
            S3Error::AWSS3Error(c, e, m, s) => S3ErrorView::AWSS3Error(c@, e@, m@, *s),
            S3Error::OtherSDKError(c, e) => S3ErrorView::OtherSDKError(c@, e@),
            S3Error::ByteStreamDownloadError(c, e) => S3ErrorView::ByteStreamDownloadError(c@, e@),
            S3Error::ByteStreamUploadError(c, e) => S3ErrorView::ByteStreamUploadError(c@, e@),
            S3Error::UnexpectedContentLength(c, x, r) => S3ErrorView::UnexpectedContentLength(
                c@,
                *x,
                *r,
            ),
            S3Error::UnexpectedContentRange(c, x, r) => S3ErrorView::UnexpectedContentRange(
                c@,
                x@,
                r@,
            ),
            S3Error::ValidationError(c) => S3ErrorView::ValidationError(c@),
            S3Error::IOError(c) => S3ErrorView::IOError(c@),
            S3Error::FieldNotExist(f) => S3ErrorView::FieldNotExist(f@),
            S3Error::RuntimeError(c) => S3ErrorView::RuntimeError(c@),
        }
    }
}

/// The result of an S3 operation, as the contracts see it.
pub open spec fn result_view<T>(r: Result<T, S3Error>) -> Result<T, S3ErrorView> {
    match r {
        Ok(t) => Ok(t),
        Err(e) => Err(e@),
    }
}

/// `<a> <b> <c>]`, the tail of the messages that carry a service error.
pub open spec fn service_error_text(
    head: Seq<char>,
    error: Seq<char>,
    metadata: ErrorMetadataView,
    status_code: u16,
) -> Seq<char> {
    head + error + "> <"@ + metadata.description + "> <"@ + text::decimal(status_code as nat) + ">]"@
}

impl S3ErrorView {
    /// The message shown for the error.
    pub open spec fn message(self) -> Seq<char> {
        match self {
            S3ErrorView::ConstructionFailure(c) => c + " [ConstructionFailure]"@,
            S3ErrorView::TimeoutError(c) => c + " [TimeoutError]"@,
            S3ErrorView::DispatchFailure(c) => c + " [DispatchFailure]"@,
            S3ErrorView::ResponseError(c) => c + " [ResponseError]"@,
            S3ErrorView::RetriableClientError(c, e, m, s) => service_error_text(
                c + " [RetriableClientError - <"@,
                e,
                m,
                s,
            ),
            S3ErrorView::RetriableServerError(c, e, m, s) => service_error_text(
                c + " [RetriableServerError - <"@,
                e,
                m,
                s,
            ),
            S3ErrorView::AWSS3Error(c, e, m, s) => service_error_text(
                c + " [AWSS3Error - <"@,
                e,
                m,
                s,
            ),
            S3ErrorView::OtherSDKError(c, e) => c + " [OtherSDKError - <"@ + e + ">]"@,
            S3ErrorView::ByteStreamDownloadError(c, e) => c + " [ByteStreamDownloadError - <"@ + e
                + ">]"@,
            S3ErrorView::ByteStreamUploadError(c, e) => c + " [ByteStreamUploadError - <"@ + e
                + ">]"@,
            S3ErrorView::UnexpectedContentLength(c, x, r) => c
                + " [UnexpectedContentLength - expected <"@ + text::decimal(x as nat)
                + ">, received <"@ + text::decimal(r as nat) + ">]"@,
            S3ErrorView::UnexpectedContentRange(c, x, r) => c
                + " [UnexpectedContentRange - expected <"@ + x + ">, received <"@ + r + ">]"@,
            S3ErrorView::ValidationError(c) => c + " [ValidationError]"@,
            S3ErrorView::IOError(c) => c + " [IOError]"@,
            S3ErrorView::FieldNotExist(f) => f + " [FieldNotExist]"@,
            S3ErrorView::RuntimeError(c) => c + " [RuntimeError]"@,
        }
    }

    /// The error may go away by itself, so that the operation is worth another attempt: a
    /// timeout, a request that was not delivered, an answer that was not understood or is not
    /// the one asked for, a download that broke off, or a service error that was found retriable.
    pub open spec fn is_transient(self) -> bool {
        ||| self is TimeoutError
        ||| self is DispatchFailure
        ||| self is ResponseError
        ||| self is RetriableClientError
        ||| self is RetriableServerError
        ||| self is ByteStreamDownloadError
        ||| self is UnexpectedContentLength
        ||| self is UnexpectedContentRange
    }

    /// The service answered that the object is not there.
    pub open spec fn is_not_found(self) -> bool {
        self matches S3ErrorView::AWSS3Error(_, _, _, status) && status == 404
    }
}

/// Appends the tail of a message that carries a service error.
fn append_service_error(
    text: &mut String,
    error: &String,
    metadata: &ErrorMetadata,
    status_code: u16,
)
    ensures
        final(text)@ == service_error_text(old(text)@, error@, metadata@, status_code),
{
    text.append(error.as_str());
    text.append("> <");
    text.append(metadata.description.as_str());
    text.append("> <");
    append_decimal(text, status_code as u64);
    text.append(">]");
}

impl S3Error {
    /// The message shown for the error.
    pub fn message(&self) -> (text: String)
        ensures
            text@ == self@.message(),
    {
        match self {
            S3Error::ConstructionFailure(c) => c.clone().concat(" [ConstructionFailure]"),
            S3Error::TimeoutError(c) => c.clone().concat(" [TimeoutError]"),
            S3Error::DispatchFailure(c) => c.clone().concat(" [DispatchFailure]"),
            S3Error::ResponseError(c) => c.clone().concat(" [ResponseError]"),
            S3Error::RetriableClientError(c, e, m, s) => {
                let mut text = c.clone().concat(" [RetriableClientError - <");
                append_service_error(&mut text, e, m, *s);
                text
            },
            S3Error::RetriableServerError(c, e, m, s) => {
                let mut text = c.clone().concat(" [RetriableServerError - <");
                append_service_error(&mut text, e, m, *s);
                text
            },
            S3Error::AWSS3Error(c, e, m, s) => {
                let mut text = c.clone().concat(" [AWSS3Error - <");
                append_service_error(&mut text, e, m, *s);
                text
            },
            S3Error::OtherSDKError(c, e) => {
                c.clone().concat(" [OtherSDKError - <").concat(e.as_str()).concat(">]")
            },
            S3Error::ByteStreamDownloadError(c, e) => {
                c.clone().concat(" [ByteStreamDownloadError - <").concat(e.as_str()).concat(">]")
            },
            S3Error::ByteStreamUploadError(c, e) => {
                c.clone().concat(" [ByteStreamUploadError - <").concat(e.as_str()).concat(">]")
            },
            S3Error::UnexpectedContentLength(c, expected, received) => {
                let mut text = c.clone().concat(" [UnexpectedContentLength - expected <");
                append_decimal(&mut text, *expected);
                text.append(">, received <");
                append_decimal(&mut text, *received);
                text.append(">]");
                text
            },
            S3Error::UnexpectedContentRange(c, expected, received) => {
                c.clone().concat(" [UnexpectedContentRange - expected <").concat(
                    expected.as_str(),
                ).concat(">, received <").concat(received.as_str()).concat(">]")
            },
            S3Error::ValidationError(c) => c.clone().concat(" [ValidationError]"),
            S3Error::IOError(c) => c.clone().concat(" [IOError]"),
            S3Error::FieldNotExist(f) => (*f).to_owned().concat(" [FieldNotExist]"),
            S3Error::RuntimeError(c) => c.clone().concat(" [RuntimeError]"),
        }
    }

    /// Whether the service answered that the object is not there. Such an answer is not
    /// retriable under the default settings, so it comes as an [`S3Error::AWSS3Error`].
    pub fn is_not_found(&self) -> (not_found: bool)
        ensures
            not_found == self@.is_not_found(),
    {
        match self {
            S3Error::AWSS3Error(_, _, _, status_code) => *status_code == 404,
            _ => false,
        }
    }
}

/// A service error that is worth another attempt on account of what the client asked or how
/// often: its status code is configured as retriable, or the service asks to slow down.
pub open spec fn is_retriable_client_error(
    codes: Seq<u16>,
    metadata: ErrorMetadataView,
    status_code: u16,
) -> bool {
    codes.contains(status_code) || metadata.code == Some("SlowDown"@)
}

/// The error that a failed request is reported as.
pub open spec fn classified(
    context: Seq<char>,
    codes: Seq<u16>,
    failure: SdkFailureView,
) -> S3ErrorView {
    match failure {
        SdkFailureView::ConstructionFailure => S3ErrorView::ConstructionFailure(context),
        SdkFailureView::TimeoutError => S3ErrorView::TimeoutError(context),
        SdkFailureView::DispatchFailure => S3ErrorView::DispatchFailure(context),
        SdkFailureView::ResponseError => S3ErrorView::ResponseError(context),
        SdkFailureView::ServiceError { error, metadata, status_code } => {
            if is_retriable_client_error(codes, metadata, status_code) {
                S3ErrorView::RetriableClientError(context, error, metadata, status_code)
            } else if status_code >= 500 {
                S3ErrorView::RetriableServerError(context, error, metadata, status_code)
            } else {
                S3ErrorView::AWSS3Error(context, error, metadata, status_code)
            }
        },
        SdkFailureView::Other { error } => S3ErrorView::OtherSDKError(context, error),
    }
}

/// Whether a status code is among the configured ones.
fn contains_code(codes: &[u16], code: u16) -> (found: bool)
    ensures
        found == codes@.contains(code),
{
    let mut i: usize = 0;
    while i < codes.len()
        invariant
            i <= codes@.len(),
            forall|k: int| 0 <= k < i ==> codes@[k] != code,
        decreases codes@.len() - i,
    {
        if codes[i] == code {
            return true;
        }
        i = i + 1;
    }
    false
}

/// Reports a failed request as an [`S3Error`], given the status codes that are configured as
/// retriable.
pub fn map_sdk_error(
    context: String,
    retriable_client_status_codes: &[u16],
    failure: SdkFailure,
) -> (error: S3Error)
    ensures
        error@ == classified(context@, retriable_client_status_codes@, failure@),
{
    match failure {
        SdkFailure::ConstructionFailure => S3Error::ConstructionFailure(context),
        SdkFailure::TimeoutError => S3Error::TimeoutError(context),
        SdkFailure::DispatchFailure => S3Error::DispatchFailure(context),
        SdkFailure::ResponseError => S3Error::ResponseError(context),
        SdkFailure::ServiceError { error, metadata, status_code } => {
            if contains_code(retriable_client_status_codes, status_code) || is_text(
                &metadata.code,
                "SlowDown",
            ) {
                S3Error::RetriableClientError(context, error, metadata, status_code)
            } else if status_code >= 500 {
                S3Error::RetriableServerError(context, error, metadata, status_code)
            } else {
                S3Error::AWSS3Error(context, error, metadata, status_code)
            }
        },
        SdkFailure::Other { error } => S3Error::OtherSDKError(context, error),
    }
}

/// Reports an error met while reading a downloaded body.
pub fn map_bytestream_download_error(context: String, error: String) -> (mapped: S3Error)
    ensures
        mapped@ == S3ErrorView::ByteStreamDownloadError(context@, error@),
{
    S3Error::ByteStreamDownloadError(context, error)
}

/// Reports an error met while preparing the body of an upload.
pub fn map_bytestream_upload_error(context: String, error: String) -> (mapped: S3Error)
    ensures
        mapped@ == S3ErrorView::ByteStreamUploadError(context@, error@),
{
    S3Error::ByteStreamUploadError(context, error)
}

/// Whether an operation that failed with this error is worth another attempt.
pub fn should_retry(error: &S3Error) -> (retry: bool)
    ensures
        retry == error@.is_transient(),
{
    match error {
        S3Error::TimeoutError(_)
        | S3Error::DispatchFailure(_)
        | S3Error::ResponseError(_)
        | S3Error::RetriableClientError(_, _, _, _)
        | S3Error::RetriableServerError(_, _, _, _)
        | S3Error::ByteStreamDownloadError(_, _)
        | S3Error::UnexpectedContentLength(_, _, _)
        | S3Error::UnexpectedContentRange(_, _, _) => true,
        _ => false,
    }
}

/// The size that a response declares, checked.
pub open spec fn content_length(declared: Option<i64>) -> Result<u64, S3ErrorView> {
    match declared {
        None => Err(S3ErrorView::FieldNotExist("content_length"@)),
        Some(length) => if length < 0 {
            Err(
                S3ErrorView::ValidationError(
                    "content length must not be negative: "@ + text::signed_decimal(
                        length as int,
                    ),
                ),
            )
        } else {
            Ok(length as u64)
        },
    }
}

/// The size that a response declares. It is an error if it declares none, or a negative one.
pub fn checked_content_length(declared: Option<i64>) -> (size: Result<u64, S3Error>)
    ensures
        result_view(size) == content_length(declared),
{
    match declared {
        None => Err(S3Error::FieldNotExist("content_length")),
        Some(length) => {
            if length < 0 {
                let mut text = "content length must not be negative: ".to_owned();
                append_signed_decimal(&mut text, length);
                Err(S3Error::ValidationError(text))
            } else {
                Ok(length as u64)
            }
        },
    }
}

/// A service error is worth another attempt exactly if its status code is configured as
/// retriable, its code is `SlowDown`, or it is a server error.
pub proof fn lemma_retried_service_errors(
    context: Seq<char>,
    codes: Seq<u16>,
    error: Seq<char>,
    metadata: ErrorMetadataView,
    status_code: u16,
)
    ensures
        classified(
            context,
            codes,
            SdkFailureView::ServiceError { error, metadata, status_code },
        ).is_transient() <==> (codes.contains(status_code) || metadata.code == Some("SlowDown"@)
            || status_code >= 500),
{
}

/// Of the failures that never reached an answer of the service, those to time out, to be
/// delivered or to be understood are worth another attempt, and the others are not.
pub proof fn lemma_retried_transport_failures(
    context: Seq<char>,
    codes: Seq<u16>,
    failure: SdkFailureView,
)
    requires
        !(failure is ServiceError),
    ensures
        classified(context, codes, failure).is_transient() <==> (failure is TimeoutError
            || failure is DispatchFailure || failure is ResponseError),
{
}

/// An answer that the object is not there is not worth another attempt, and is told apart from
/// every other failure, unless its status code is configured as retriable or the service asks to
/// slow down.
pub proof fn lemma_not_found_is_final(
    context: Seq<char>,
    codes: Seq<u16>,
    error: Seq<char>,
    metadata: ErrorMetadataView,
)
    requires
        !is_retriable_client_error(codes, metadata, 404),
    ensures
        ({
            let reported = classified(
                context,
                codes,
                SdkFailureView::ServiceError { error, metadata, status_code: 404 },
            );
            reported.is_not_found() && !reported.is_transient()
        }),
{
}

/// An error of the body of an upload is never worth another attempt.
pub proof fn lemma_upload_body_errors_are_final(context: Seq<char>, error: Seq<char>)
    ensures
        !S3ErrorView::ByteStreamUploadError(context, error).is_transient(),
{
}

/// A size is accepted exactly if it is declared and not negative, and then as it is declared.
pub proof fn lemma_declared_size_is_taken_as_it_is(declared: Option<i64>)
    ensures
        match (declared, content_length(declared)) {
            (Some(length), Ok(size)) => size == length && length >= 0,
            (Some(length), Err(error)) => length < 0 && error is ValidationError,
            (None, Err(error)) => error == S3ErrorView::FieldNotExist("content_length"@),
            _ => false,
        },
{
}

/// A failed request is reported with what was done and with all that the service said, under the
/// kind of its failure.
pub proof fn lemma_report_keeps_what_is_known(
    context: Seq<char>,
    codes: Seq<u16>,
    failure: SdkFailureView,
)
    ensures
        match (failure, classified(context, codes, failure)) {
            (SdkFailureView::ConstructionFailure, S3ErrorView::ConstructionFailure(said)) => said
                == context,
            (SdkFailureView::TimeoutError, S3ErrorView::TimeoutError(said)) => said == context,
            (SdkFailureView::DispatchFailure, S3ErrorView::DispatchFailure(said)) => said
                == context,
            (SdkFailureView::ResponseError, S3ErrorView::ResponseError(said)) => said == context,
            (SdkFailureView::Other { error }, S3ErrorView::OtherSDKError(said, told)) => said
                == context && told == error,
            (
                SdkFailureView::ServiceError { error, metadata, status_code },
                S3ErrorView::RetriableClientError(said, told, meta, status)
                | S3ErrorView::RetriableServerError(said, told, meta, status)
                | S3ErrorView::AWSS3Error(said, told, meta, status),
            ) => said == context && told == error && meta == metadata && status == status_code,
            _ => false,
        },
        failure matches SdkFailureView::ServiceError { metadata, status_code, .. } ==> {
            let asked_to_wait = codes.contains(status_code) || metadata.code == Some("SlowDown"@);
            let reported = classified(context, codes, failure);
            &&& reported is RetriableClientError <==> asked_to_wait
            &&& reported is RetriableServerError <==> !asked_to_wait && status_code >= 500
            &&& reported is AWSS3Error <==> !asked_to_wait && status_code < 500
        },
{
}

/// Of the errors that do not come from a failed request, exactly those of a download that broke off
/// or brought something else than what was asked for are worth another attempt.
pub proof fn lemma_broken_downloads_are_retried(
    context: Seq<char>,
    said: Seq<char>,
    expected: u64,
    received: u64,
)
    ensures
        S3ErrorView::ByteStreamDownloadError(context, said).is_transient(),
        S3ErrorView::UnexpectedContentLength(context, expected, received).is_transient(),
        S3ErrorView::UnexpectedContentRange(context, said, said).is_transient(),
        !S3ErrorView::ByteStreamUploadError(context, said).is_transient(),
        !S3ErrorView::ValidationError(said).is_transient(),
        !S3ErrorView::IOError(said).is_transient(),
        !S3ErrorView::FieldNotExist(said).is_transient(),
        !S3ErrorView::RuntimeError(said).is_transient(),
{
}

/// An object is taken not to be there exactly on a final answer of the service with the status
/// code 404.
pub proof fn lemma_only_404_means_not_found(error: S3ErrorView)
    ensures
        error.is_not_found() <==> (error matches S3ErrorView::AWSS3Error(_, _, _, status) && status
            == 404),
        error.is_not_found() ==> !error.is_transient(),
{
}

/// What was done when the error came, or what is missing: the first text of an error.
pub open spec fn subject(error: S3ErrorView) -> Seq<char> {
    match error {
        S3ErrorView::ConstructionFailure(c)
        | S3ErrorView::TimeoutError(c)
        | S3ErrorView::DispatchFailure(c)
        | S3ErrorView::ResponseError(c)
        | S3ErrorView::RetriableClientError(c, _, _, _)
        | S3ErrorView::RetriableServerError(c, _, _, _)
        | S3ErrorView::AWSS3Error(c, _, _, _)
        | S3ErrorView::OtherSDKError(c, _)
        | S3ErrorView::ByteStreamDownloadError(c, _)
        | S3ErrorView::ByteStreamUploadError(c, _)
        | S3ErrorView::UnexpectedContentLength(c, _, _)
        | S3ErrorView::UnexpectedContentRange(c, _, _)
        | S3ErrorView::ValidationError(c)
        | S3ErrorView::IOError(c)
        | S3ErrorView::FieldNotExist(c)
        | S3ErrorView::RuntimeError(c) => c,
    }
}

/// The message of an error begins with what was done when it came, followed by a space and the kind
/// of the error in brackets.
pub proof fn lemma_message_begins_with_its_subject(error: S3ErrorView)
    ensures
        ({
            let message = error.message();
            let said = subject(error);
            &&& said.is_prefix_of(message)
            &&& message.len() > said.len() + 2
            &&& message[said.len() as int] == ' '
            &&& message[said.len() as int + 1] == '['
            &&& message.last() == ']'
        }),
{
    reveal_strlit(" [ConstructionFailure]");
    reveal_strlit(" [TimeoutError]");
    reveal_strlit(" [DispatchFailure]");
    reveal_strlit(" [ResponseError]");
    reveal_strlit(" [RetriableClientError - <");
    reveal_strlit(" [RetriableServerError - <");
    reveal_strlit(" [AWSS3Error - <");
    reveal_strlit(" [OtherSDKError - <");
    reveal_strlit(" [ByteStreamDownloadError - <");
    reveal_strlit(" [ByteStreamUploadError - <");
    reveal_strlit(" [UnexpectedContentLength - expected <");
    reveal_strlit(" [UnexpectedContentRange - expected <");
    reveal_strlit(" [ValidationError]");
    reveal_strlit(" [IOError]");
    reveal_strlit(" [FieldNotExist]");
    reveal_strlit(" [RuntimeError]");
    reveal_strlit(">, received <");
    reveal_strlit("> <");
    reveal_strlit(">]");
}

/// The message of an error of the service holds what the service said: the error, its details and
/// the status code.
pub proof fn lemma_message_holds_what_the_service_said(
    context: Seq<char>,
    error: Seq<char>,
    metadata: ErrorMetadataView,
    status_code: u16,
)
    ensures
        forall|reported: S3ErrorView|
            #![trigger reported.message()]
            reported == S3ErrorView::RetriableClientError(context, error, metadata, status_code)
                || reported == S3ErrorView::RetriableServerError(
                context,
                error,
                metadata,
                status_code,
            ) || reported == S3ErrorView::AWSS3Error(context, error, metadata, status_code)
                ==> text::contains_text(reported.message(), error) && text::contains_text(
                reported.message(),
                metadata.description,
            ) && text::contains_text(reported.message(), text::decimal(status_code as nat)),
{
    assert forall|reported: S3ErrorView|
        #![trigger reported.message()]
        reported == S3ErrorView::RetriableClientError(context, error, metadata, status_code)
            || reported == S3ErrorView::RetriableServerError(context, error, metadata, status_code)
            || reported == S3ErrorView::AWSS3Error(
            context,
            error,
            metadata,
            status_code,
        ) implies text::contains_text(reported.message(), error) && text::contains_text(
        reported.message(),
        metadata.description,
    ) && text::contains_text(reported.message(), text::decimal(status_code as nat)) by {
        let head = if reported is RetriableClientError {
            context + " [RetriableClientError - <"@
        } else if reported is RetriableServerError {
            context + " [RetriableServerError - <"@
        } else {
            context + " [AWSS3Error - <"@
        };
        let status = text::decimal(status_code as nat);
        let message = service_error_text(head, error, metadata, status_code);
        assert(reported.message() == message);
        let tail = "> <"@ + metadata.description + "> <"@ + status + ">]"@;
        text::lemma_piece_stands_in_text(head, error, tail);
        assert(message =~= head + error + tail);
        let front = head + error + "> <"@;
        let rest = "> <"@ + status + ">]"@;
        text::lemma_piece_stands_in_text(front, metadata.description, rest);
        assert(message =~= front + metadata.description + rest);
        let before = head + error + "> <"@ + metadata.description + "> <"@;
        text::lemma_piece_stands_in_text(before, status, ">]"@);
        assert(message =~= before + status + ">]"@);
    }
}

/// The message of an error holds its details: what was said, and what was expected and received, in
/// this order.
pub proof fn lemma_message_holds_the_details(
    context: Seq<char>,
    said: Seq<char>,
    other: Seq<char>,
    expected: u64,
    received: u64,
)
    ensures
        (said + ">]"@).is_suffix_of(S3ErrorView::OtherSDKError(context, said).message()),
        (said + ">]"@).is_suffix_of(S3ErrorView::ByteStreamDownloadError(context, said).message()),
        (said + ">]"@).is_suffix_of(S3ErrorView::ByteStreamUploadError(context, said).message()),
        ("expected <"@ + text::decimal(expected as nat) + ">, received <"@ + text::decimal(
            received as nat,
        ) + ">]"@).is_suffix_of(
            S3ErrorView::UnexpectedContentLength(context, expected, received).message(),
        ),
        ("expected <"@ + said + ">, received <"@ + other + ">]"@).is_suffix_of(
            S3ErrorView::UnexpectedContentRange(context, said, other).message(),
        ),
{
    reveal_strlit("expected <");
    reveal_strlit(" [UnexpectedContentLength - expected <");
    reveal_strlit(" [UnexpectedContentRange - expected <");
    let sdk = S3ErrorView::OtherSDKError(context, said).message();
    let down = S3ErrorView::ByteStreamDownloadError(context, said).message();
    let up = S3ErrorView::ByteStreamUploadError(context, said).message();
    let end = said + ">]"@;
    assert(sdk.subrange(sdk.len() - end.len(), sdk.len() as int) =~= end);
    assert(down.subrange(down.len() - end.len(), down.len() as int) =~= end);
    assert(up.subrange(up.len() - end.len(), up.len() as int) =~= end);
    lemma_expected_and_received(
        context,
        " [UnexpectedContentLength - expected <"@,
        text::decimal(expected as nat),
        text::decimal(received as nat),
    );
    lemma_expected_and_received(
        context,
        " [UnexpectedContentRange - expected <"@,
        said,
        other,
    );
}

/// A message ends with what was expected and received.
proof fn lemma_expected_and_received(
    context: Seq<char>,
    kind: Seq<char>,
    expected: Seq<char>,
    received: Seq<char>,
)
    requires
        "expected <"@.is_suffix_of(kind),
    ensures
        ("expected <"@ + expected + ">, received <"@ + received + ">]"@).is_suffix_of(
            context + kind + expected + ">, received <"@ + received + ">]"@,
        ),
{
    let head = "expected <"@;
    let front = kind.take(kind.len() - head.len());
    assert(kind =~= front + head);
    let end = head + expected + ">, received <"@ + received + ">]"@;
    let whole = context + kind + expected + ">, received <"@ + received + ">]"@;
    assert(whole =~= context + front + end);
    assert(whole.subrange(whole.len() - end.len(), whole.len() as int) =~= end);
}

} // verus!

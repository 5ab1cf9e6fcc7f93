//! Errors of the command-line tool.

use crate::error::{S3Error, S3ErrorView};
use crate::text;
use crate::text::append_decimal;
use vstd::prelude::*;

verus! {

/// Why a command, or what it does for one key, failed.
#[derive(Debug)]
pub enum ToolError {
    /// A manifest holds an empty key.
    EmptyKey,
    /// A key does not name a file under a local directory.
    UnsafeKey(String),
    /// A local path lies in no directory.
    NoParent(String),
    /// A key does not end with a file name.
    NoFileName,
    /// A batch has no workers.
    NoWorkers,
    /// A copy between clients has no destination.
    NoDestination,
    /// Some operations of a batch failed.
    Failures(usize),
    /// A manifest could not be read.
    Manifest(String),
    /// An operation on local files failed. The first text says which one, if anything is said.
    Local(Option<String>, String),
    /// An operation on the service failed. The text says which one, if anything is said.
    Service(Option<String>, S3Error),
}

/// The model of [`ToolError`].
pub enum ToolErrorView {
    EmptyKey,
    UnsafeKey(Seq<char>),
    NoParent(Seq<char>),
    NoFileName,
    NoWorkers,
    NoDestination,
    Failures(usize),
    Manifest(Seq<char>),
    Local(Option<Seq<char>>, Seq<char>),
    Service(Option<Seq<char>>, S3ErrorView),
}

impl View for ToolError {
    type V = ToolErrorView;

    open spec fn view(&self) -> ToolErrorView {
        match self {
            ToolError::EmptyKey => ToolErrorView::EmptyKey,
            ToolError::UnsafeKey(key) => ToolErrorView::UnsafeKey(key@),
            ToolError::NoParent(path) => ToolErrorView::NoParent(path@),
            ToolError::NoFileName => ToolErrorView::NoFileName,
            ToolError::NoWorkers => ToolErrorView::NoWorkers,
            ToolError::NoDestination => ToolErrorView::NoDestination,
            ToolError::Failures(count) => ToolErrorView::Failures(*count),
            ToolError::Manifest(error) => ToolErrorView::Manifest(error@),
            ToolError::Local(context, error) => ToolErrorView::Local(context.deep_view(), error@),
            ToolError::Service(context, error) => ToolErrorView::Service(
                context.deep_view(),
                error@,
            ),
        }
    }
}

/// The result of a step of a command, as the contracts see it.
pub open spec fn tool_result<T>(r: Result<T, ToolError>) -> Result<T, ToolErrorView> {
    match r {
        Ok(t) => Ok(t),
        Err(e) => Err(e@),
    }
}

/// An error, with what was done when it came, if anything is said of that.
pub open spec fn with_context(context: Option<Seq<char>>, error: Seq<char>) -> Seq<char> {
    match context {
        Some(context) => context + ": "@ + error,
        None => error,
    }
}

/// An error, with what was done when it came, if anything is said of that.
fn describe_failure(context: &Option<String>, error: &str) -> (text: String)
    ensures
        text@ == with_context(context.deep_view(), error@),
{
    match context {
        Some(context) => context.clone().concat(": ").concat(error),
        None => error.to_owned(),
    }
}

impl ToolErrorView {
    /// The message shown for the error.
    pub open spec fn message(self) -> Seq<char> {
        match self {
            ToolErrorView::EmptyKey => "CSV key must not be empty"@,
            ToolErrorView::UnsafeKey(key) => "CSV key is not a safe relative local path: "@ + key,
            ToolErrorView::NoParent(path) => "path has no parent or invalid UTF-8: "@ + path,
            ToolErrorView::NoFileName => "key has no file name"@,
            ToolErrorView::NoWorkers => "CSV workers must be greater than zero"@,
            ToolErrorView::NoDestination => "destination S3 client is not configured"@,
            ToolErrorView::Failures(count) => text::decimal(count as nat)
                + " CSV operation(s) failed"@,
            ToolErrorView::Manifest(error) => "reading key from CSV: "@ + error,
            ToolErrorView::Local(context, error) => with_context(context, error),
            ToolErrorView::Service(context, error) => with_context(context, error.message()),
        }
    }
}

impl ToolError {
    /// The message shown for the error.
    pub fn message(&self) -> (text: String)
        ensures
            text@ == self@.message(),
    {
        match self {
            ToolError::EmptyKey => "CSV key must not be empty".to_owned(),
            ToolError::UnsafeKey(key) => {
                "CSV key is not a safe relative local path: ".to_owned().concat(key.as_str())
            },
            ToolError::NoParent(path) => {
                "path has no parent or invalid UTF-8: ".to_owned().concat(path.as_str())
            },
            ToolError::NoFileName => "key has no file name".to_owned(),
            ToolError::NoWorkers => "CSV workers must be greater than zero".to_owned(),
            ToolError::NoDestination => "destination S3 client is not configured".to_owned(),
            ToolError::Failures(count) => {
                let mut text = String::new();
                append_decimal(&mut text, *count as u64);
                text.append(" CSV operation(s) failed");
                assert(text@ =~= text::decimal(*count as nat) + " CSV operation(s) failed"@);
                text
            },
            ToolError::Manifest(error) => {
                "reading key from CSV: ".to_owned().concat(error.as_str())
            },
            ToolError::Local(context, error) => describe_failure(context, error.as_str()),
            ToolError::Service(context, error) => {
                let message = error.message();
                describe_failure(context, message.as_str())
            },
        }
    }
}

/// The message of an error ends with what went wrong: the key, the path, the error or what the
/// service reported. What was done when it came stands before it.
pub proof fn lemma_message_says_what_went_wrong(
    text: Seq<char>,
    context: Seq<char>,
    error: S3ErrorView,
    count: usize,
)
    ensures
        text.is_suffix_of(ToolErrorView::UnsafeKey(text).message()),
        text.is_suffix_of(ToolErrorView::NoParent(text).message()),
        text.is_suffix_of(ToolErrorView::Manifest(text).message()),
        ToolErrorView::Local(None, text).message() == text,
        text.is_suffix_of(ToolErrorView::Local(Some(context), text).message()),
        context.is_prefix_of(ToolErrorView::Local(Some(context), text).message()),
        ToolErrorView::Service(None, error).message() == error.message(),
        error.message().is_suffix_of(ToolErrorView::Service(Some(context), error).message()),
        context.is_prefix_of(ToolErrorView::Service(Some(context), error).message()),
        text::decimal(count as nat).is_prefix_of(ToolErrorView::Failures(count).message()),
{
    assert(forall|front: Seq<char>, back: Seq<char>|
        #![trigger front + back]
        (front + back).subrange(front.len() as int, (front + back).len() as int) =~= back);
}

} // verus!

//! The operations of an S3 client.
//!
//! An operation that is a single exchange with the service comes as the [`Call`] to make. One that
//! takes several comes as a state machine that says what to do next.

use crate::config::{
    RetryConfig, S3ClientConfig, DEFAULT_MULTIPART_PART_SIZE, DEFAULT_MULTIPART_WORKERS,
    FALLBACK_REGION,
};
use crate::error;
use crate::error::{ErrorMetadataView, S3Error, S3ErrorView, SdkFailure, SdkFailureView};
use crate::listing::{ListObjectsV2PageIter, ListObjectsV2PageIterView};
use crate::multipart;
use crate::multipart::requested_range;
use crate::object::{BucketInfo, ObjectHead, ObjectInfo};
use crate::object;
use crate::request;
use crate::request::{
    copy_source, describe_bucket, describe_copy, describe_object, describe_prefix, owned,
    show_option, Body, BodyView, Call, CallView, Request, RequestView,
};
use crate::text;
use crate::text::append_signed_decimal;
use vstd::prelude::*;

verus! {

/// A client of the service: how it repeats failed operations and cuts large objects into parts.
#[derive(Debug)]
pub struct S3Client {
    pub retry_config: RetryConfig,
    pub multipart_part_size: u64,
    pub multipart_workers: usize,
}

/// What is said where both this client and the transport retry.
pub const DOUBLE_RETRIES_WARNING: &'static str =
    "High-level retries are enabled but low-level retries are also enabled.";

/// The region to use, given the one that the environment resolves to.
pub fn region_or_fallback(resolved: Option<&str>) -> (region: String)
    ensures
        region@ == (match resolved {
            Some(region) => region@,
            None => FALLBACK_REGION@,
        }),
{
    match resolved {
        Some(region) => region.to_owned(),
        None => FALLBACK_REGION.to_owned(),
    }
}

/// The bucket that a successful [`S3Client::head_bucket`] found.
pub fn bucket_info(bucket: &str, region: Option<&str>) -> (info: BucketInfo)
    ensures
        info.name@ == bucket@,
        info.region.deep_view() == region.deep_view(),
{
    BucketInfo { name: bucket.to_owned(), region: owned(region) }
}

/// A call that gets an object, or the bytes of it that a range names.
pub open spec fn get_object_call(
    operation: Seq<char>,
    bucket: Seq<char>,
    key: Seq<char>,
    range: Option<Seq<char>>,
    retried: bool,
) -> CallView {
    CallView {
        request: RequestView::GetObject { bucket, key, range, if_match: None },
        context: request::object_context(operation, bucket, key),
        retried,
    }
}

/// A call that looks an object up.
pub open spec fn head_object_call(bucket: Seq<char>, key: Seq<char>) -> CallView {
    CallView {
        request: RequestView::HeadObject { bucket, key },
        context: request::object_context("head_object"@, bucket, key),
        retried: true,
    }
}

/// A call that puts an object.
pub open spec fn put_object_call(
    operation: Seq<char>,
    bucket: Seq<char>,
    key: Seq<char>,
    body: BodyView,
    storage_class: Option<Seq<char>>,
) -> CallView {
    CallView {
        request: RequestView::PutObject { bucket, key, body, storage_class },
        context: request::object_context(operation, bucket, key),
        retried: true,
    }
}

/// The result of preparing a call, as the contracts see it.
pub open spec fn call_result(r: Result<Call, S3Error>) -> Result<CallView, S3ErrorView> {
    match r {
        Ok(call) => Ok(call@),
        Err(e) => Err(e@),
    }
}

impl S3Client {
    /// A client with the given settings.
    pub fn new(config: &S3ClientConfig, retry_config: RetryConfig) -> (client: Self)
        ensures
            client == (S3Client {
                retry_config,
                multipart_part_size: config.multipart_part_size,
                multipart_workers: config.multipart_workers,
            }),
    {
        S3Client {
            retry_config,
            multipart_part_size: config.multipart_part_size,
            multipart_workers: config.multipart_workers,
        }
    }

    /// Whether the transport must not retry by itself: this client does.
    pub fn disables_sdk_retries(&self) -> (disables: bool)
        ensures
            disables == (self.retry_config.max_retries > 0),
    {
        self.retry_config.max_retries > 0
    }

    /// A client on top of an existing transport, with a warning where both would retry.
    pub fn new_with_aws_s3_client(
        sdk_retries_configured: bool,
        retry_config: RetryConfig,
        multipart_part_size: Option<u64>,
        multipart_workers: Option<usize>,
    ) -> (made: (Self, Option<&'static str>))
        ensures
            made.0 == (S3Client {
                retry_config,
                multipart_part_size: match multipart_part_size {
                    Some(size) => size,
                    None => DEFAULT_MULTIPART_PART_SIZE,
                },
                multipart_workers: match multipart_workers {
                    Some(workers) => workers,
                    None => DEFAULT_MULTIPART_WORKERS,
                },
            }),
            made.1 == (if retry_config.max_retries > 0 && sdk_retries_configured {
                Some(DOUBLE_RETRIES_WARNING)
            } else {
                None
            }),
    {
        let warning: Option<&'static str> = if retry_config.max_retries > 0
            && sdk_retries_configured {
            Some(DOUBLE_RETRIES_WARNING)
        } else {
            None
        };
        let multipart_part_size: u64 = match multipart_part_size {
            Some(size) => size,
            None => DEFAULT_MULTIPART_PART_SIZE,
        };
        let multipart_workers: usize = match multipart_workers {
            Some(workers) => workers,
            None => DEFAULT_MULTIPART_WORKERS,
        };
        (S3Client { retry_config, multipart_part_size, multipart_workers }, warning)
    }

    /// The part size for multipart transfers, in bytes.
    pub fn multipart_part_size(&self) -> (size: u64)
        ensures
            size == self.multipart_part_size,
    {
        self.multipart_part_size
    }

    /// The number of parallel workers of a multipart transfer.
    pub fn multipart_workers(&self) -> (workers: usize)
        ensures
            workers == self.multipart_workers,
    {
        self.multipart_workers
    }

    /// Reports a failed request as an [`S3Error`], with this client's retriable status codes.
    pub fn map_sdk_error(&self, context: String, failure: SdkFailure) -> (error: S3Error)
        ensures
            error@ == error::classified(
                context@,
                self.retry_config.retriable_client_status_codes@,
                failure@,
            ),
    {
        error::map_sdk_error(
            context,
            self.retry_config.retriable_client_status_codes.as_slice(),
            failure,
        )
    }

    /// Reports an error met while reading a downloaded body.
    pub fn map_bytestream_download_error(&self, context: String, error: String) -> (mapped: S3Error)
        ensures
            mapped@ == S3ErrorView::ByteStreamDownloadError(context@, error@),
    {
        error::map_bytestream_download_error(context, error)
    }

    /// Looks a bucket up.
    pub fn head_bucket(&self, bucket: &str) -> (call: Call)
        ensures
            call@ == (CallView {
                request: RequestView::HeadBucket { bucket: bucket@ },
                context: request::bucket_context("head_bucket"@, bucket@),
                retried: false,
            }),
    {
        Call {
            request: Request::HeadBucket { bucket: bucket.to_owned() },
            context: describe_bucket("head_bucket", bucket),
            retried: false,
        }
    }

    /// Creates a bucket.
    pub fn create_bucket(&self, bucket: &str) -> (call: Call)
        ensures
            call@ == (CallView {
                request: RequestView::CreateBucket { bucket: bucket@ },
                context: request::bucket_context("create_bucket"@, bucket@),
                retried: false,
            }),
    {
        Call {
            request: Request::CreateBucket { bucket: bucket.to_owned() },
            context: describe_bucket("create_bucket", bucket),
            retried: false,
        }
    }

    /// Deletes a bucket.
    pub fn delete_bucket(&self, bucket: &str) -> (call: Call)
        ensures
            call@ == (CallView {
                request: RequestView::DeleteBucket { bucket: bucket@ },
                context: request::bucket_context("delete_bucket"@, bucket@),
                retried: false,
            }),
    {
        Call {
            request: Request::DeleteBucket { bucket: bucket.to_owned() },
            context: describe_bucket("delete_bucket", bucket),
            retried: false,
        }
    }

    /// Lists all objects under a prefix. The call asks for the first page; the pages that follow
    /// it belong to the same operation and are repeated with it. What the pages list is gathered
    /// in a [`crate::listing::Listing`].
    pub fn list_objects_v2_paginated(
        &self,
        bucket: &str,
        prefix: &str,
        delimiter: Option<&str>,
    ) -> (call: Call)
        ensures
            call@ == (CallView {
                request: RequestView::ListObjectsV2 {
                    bucket: bucket@,
                    prefix: prefix@,
                    delimiter: delimiter.deep_view(),
                    continuation_token: None,
                },
                context: request::prefix_context(
                    "list_objects_v2_paginated"@,
                    bucket@,
                    prefix@,
                ),
                retried: true,
            }),
    {
        Call {
            request: Request::ListObjectsV2 {
                bucket: bucket.to_owned(),
                prefix: prefix.to_owned(),
                delimiter: owned(delimiter),
                continuation_token: None,
            },
            context: describe_prefix("list_objects_v2_paginated", bucket, prefix),
            retried: true,
        }
    }

    /// Lists the objects under a prefix one page at a time. Each page is repeated by itself.
    pub fn list_objects_v2_page_iter(
        &self,
        bucket: &str,
        prefix: &str,
        delimiter: Option<&str>,
    ) -> (iter: ListObjectsV2PageIter)
        ensures
            iter@ == (ListObjectsV2PageIterView {
                bucket: bucket@,
                prefix: prefix@,
                delimiter: delimiter.deep_view(),
                continuation_token: None,
            }),
    {
        ListObjectsV2PageIter::new(bucket, prefix, delimiter)
    }

    /// Looks an object up. The response is read by [`crate::object::found_object_info`].
    pub fn head_object(&self, bucket: &str, key: &str) -> (call: Call)
        ensures
            call@ == head_object_call(bucket@, key@),
    {
        Call {
            request: Request::HeadObject { bucket: bucket.to_owned(), key: key.to_owned() },
            context: describe_object("head_object", bucket, key),
            retried: true,
        }
    }

    /// Gets an object into memory, or the slice of it between two offsets. The head of the
    /// response is read by [`crate::object::found_object_info`]. It is an error if the slice holds
    /// no byte.
    pub fn get_object(
        &self,
        bucket: &str,
        key: &str,
        start_end_offsets: Option<(usize, usize)>,
    ) -> (call: Result<Call, S3Error>)
        ensures
            call_result(call) == (match multipart::slice_range(start_end_offsets) {
                Ok(range) => Ok(get_object_call("get_object"@, bucket@, key@, range, true)),
                Err(error) => Err(error),
            }),
    {
        match requested_range(start_end_offsets) {
            Ok(range) => Ok(
                Call {
                    request: Request::GetObject {
                        bucket: bucket.to_owned(),
                        key: key.to_owned(),
                        range,
                        if_match: None,
                    },
                    context: describe_object("get_object", bucket, key),
                    retried: true,
                },
            ),
            Err(error) => Err(error),
        }
    }

    /// Puts an object from memory.
    pub fn put_object(
        &self,
        bucket: &str,
        key: &str,
        content: Vec<u8>,
        storage_class: Option<&str>,
    ) -> (call: Call)
        ensures
            call@ == put_object_call(
                "put_object"@,
                bucket@,
                key@,
                BodyView::Bytes(content@),
                storage_class.deep_view(),
            ),
    {
        Call {
            request: Request::PutObject {
                bucket: bucket.to_owned(),
                key: key.to_owned(),
                body: Body::Bytes(content),
                storage_class: owned(storage_class),
            },
            context: describe_object("put_object", bucket, key),
            retried: true,
        }
    }

    /// Puts an object from a local file, in one request.
    pub fn upload_object(
        &self,
        bucket: &str,
        key: &str,
        local_path: &str,
        storage_class: Option<&str>,
    ) -> (call: Call)
        ensures
            call@ == put_object_call(
                "upload_object"@,
                bucket@,
                key@,
                BodyView::File { path: local_path@ },
                storage_class.deep_view(),
            ),
    {
        Call {
            request: Request::PutObject {
                bucket: bucket.to_owned(),
                key: key.to_owned(),
                body: Body::File { path: local_path.to_owned() },
                storage_class: owned(storage_class),
            },
            context: describe_object("upload_object", bucket, key),
            retried: true,
        }
    }

    /// Copies an object within one backend, in one request.
    pub fn copy_object(
        &self,
        src_bucket: &str,
        src_key: &str,
        dst_bucket: &str,
        dst_key: &str,
        dst_storage_class: Option<&str>,
    ) -> (call: Call)
        ensures
            call@ == (CallView {
                request: RequestView::CopyObject {
                    bucket: dst_bucket@,
                    key: dst_key@,
                    copy_source: request::copy_source_text(src_bucket@, src_key@),
                    storage_class: dst_storage_class.deep_view(),
                },
                context: request::copy_context(
                    "copy_object"@,
                    src_bucket@,
                    src_key@,
                    dst_bucket@,
                    dst_key@,
                ) + " dst_storage_class="@ + request::debug_option(dst_storage_class.deep_view()),
                retried: true,
            }),
    {
        let shown_class = show_option(dst_storage_class);
        let context = describe_copy("copy_object", src_bucket, src_key, dst_bucket, dst_key).concat(
            " dst_storage_class=",
        ).concat(shown_class.as_str());
        Call {
            request: Request::CopyObject {
                bucket: dst_bucket.to_owned(),
                key: dst_key.to_owned(),
                copy_source: copy_source(src_bucket, src_key),
                storage_class: owned(dst_storage_class),
            },
            context,
            retried: true,
        }
    }

    /// Copies an object from this client to another one through memory.
    pub fn copy_object_cross_clients(
        &self,
        src_bucket: &str,
        src_key: &str,
        dst_bucket: &str,
        dst_key: &str,
        dst_storage_class: Option<&str>,
    ) -> (copy: MemoryCopy)
        ensures
            copy@ == (MemoryCopyView {
                src_bucket: src_bucket@,
                src_key: src_key@,
                dst_bucket: dst_bucket@,
                dst_key: dst_key@,
                dst_storage_class: dst_storage_class.deep_view(),
            }),
    {
        MemoryCopy {
            src_bucket: src_bucket.to_owned(),
            src_key: src_key.to_owned(),
            dst_bucket: dst_bucket.to_owned(),
            dst_key: dst_key.to_owned(),
            dst_storage_class: owned(dst_storage_class),
        }
    }

    /// Gives a multipart upload up.
    pub fn abort_multipart_upload(&self, bucket: &str, key: &str, upload_id: &str) -> (call: Call)
        ensures
            call@ == abort_call(bucket@, key@, upload_id@),
    {
        Call {
            request: Request::AbortMultipartUpload {
                bucket: bucket.to_owned(),
                key: key.to_owned(),
                upload_id: upload_id.to_owned(),
            },
            context: describe_object("abort_multipart_upload", bucket, key).concat(
                " upload_id=",
            ).concat(upload_id),
            retried: true,
        }
    }

    /// Deletes an object.
    pub fn delete_object(&self, bucket: &str, key: &str) -> (call: Call)
        ensures
            call@ == (CallView {
                request: RequestView::DeleteObject { bucket: bucket@, key: key@ },
                context: request::object_context("delete_object"@, bucket@, key@),
                retried: true,
            }),
    {
        Call {
            request: Request::DeleteObject { bucket: bucket.to_owned(), key: key.to_owned() },
            context: describe_object("delete_object", bucket, key),
            retried: true,
        }
    }

    /// Restores an object from archival storage for some days.
    pub fn restore_object(&self, bucket: &str, key: &str, days: i32, tier: &str) -> (call: Call)
        ensures
            call@ == (CallView {
                request: RequestView::RestoreObject {
                    bucket: bucket@,
                    key: key@,
                    days,
                    tier: tier@,
                },
                context: request::object_context("restore_object"@, bucket@, key@) + " days="@
                    + text::signed_decimal(days as int) + " tier="@ + tier@,
                retried: true,
            }),
    {
        let mut context = describe_object("restore_object", bucket, key).concat(" days=");
        append_signed_decimal(&mut context, days as i64);
        context.append(" tier=");
        context.append(tier);
        Call {
            request: Request::RestoreObject {
                bucket: bucket.to_owned(),
                key: key.to_owned(),
                days,
                tier: tier.to_owned(),
            },
            context,
            retried: true,
        }
    }
}

/// A copy between two clients through memory: a call to the source, then one to the destination.
#[derive(Debug)]
pub struct MemoryCopy {
    src_bucket: String,
    src_key: String,
    dst_bucket: String,
    dst_key: String,
    dst_storage_class: Option<String>,
}

/// The model of [`MemoryCopy`].
pub struct MemoryCopyView {
    pub src_bucket: Seq<char>,
    pub src_key: Seq<char>,
    pub dst_bucket: Seq<char>,
    pub dst_key: Seq<char>,
    pub dst_storage_class: Option<Seq<char>>,
}

impl View for MemoryCopy {
    type V = MemoryCopyView;

    closed spec fn view(&self) -> MemoryCopyView {
        MemoryCopyView {
            src_bucket: self.src_bucket@,
            src_key: self.src_key@,
            dst_bucket: self.dst_bucket@,
            dst_key: self.dst_key@,
            dst_storage_class: self.dst_storage_class.deep_view(),
        }
    }
}

impl MemoryCopy {
    /// The call to the source: it gets the whole object.
    pub fn source_call(&self) -> (call: Call)
        ensures
            call@ == get_object_call(
                "get_object"@,
                self@.src_bucket,
                self@.src_key,
                None,
                true,
            ),
    {
        Call {
            request: Request::GetObject {
                bucket: self.src_bucket.clone(),
                key: self.src_key.clone(),
                range: None,
                if_match: None,
            },
            context: describe_object("get_object", self.src_bucket.as_str(), self.src_key.as_str()),
            retried: true,
        }
    }

    /// What the source says of the object, before its content is read. `logs_details` says whether
    /// the details of objects are logged.
    pub fn check_source(&self, head: &ObjectHead, logs_details: bool) -> (info: Result<
        ObjectInfo,
        S3Error,
    >)
        ensures
            object::object_result(info) == object::found_object(
                self@.src_key,
                *head,
                logs_details,
            ),
    {
        object::found_object_info(self.src_key.as_str(), head, logs_details)
    }

    /// The call to the destination, once the source has answered: it puts what the source gave.
    /// There is none if [`MemoryCopy::check_source`] refuses what the source said of the object.
    pub fn destination_call(
        &self,
        head: &ObjectHead,
        logs_details: bool,
        content: Vec<u8>,
    ) -> (call: Result<Call, S3Error>)
        ensures
            call_result(call) == (match object::found_object(
                self@.src_key,
                *head,
                logs_details,
            ) {
                Ok(_) => Ok(
                    put_object_call(
                        "put_object"@,
                        self@.dst_bucket,
                        self@.dst_key,
                        BodyView::Bytes(content@),
                        self@.dst_storage_class,
                    ),
                ),
                Err(error) => Err(error),
            }),
    {
        match self.check_source(head, logs_details) {
            Ok(_) => Ok(
                Call {
                    request: Request::PutObject {
                        bucket: self.dst_bucket.clone(),
                        key: self.dst_key.clone(),
                        body: Body::Bytes(content),
                        storage_class: self.dst_storage_class.clone(),
                    },
                    context: describe_object(
                        "put_object",
                        self.dst_bucket.as_str(),
                        self.dst_key.as_str(),
                    ),
                    retried: true,
                },
            ),
            Err(error) => Err(error),
        }
    }
}

/// The call that gives a multipart upload up.
pub open spec fn abort_call(
    bucket: Seq<char>,
    key: Seq<char>,
    upload_id: Seq<char>,
) -> CallView {
    CallView {
        request: RequestView::AbortMultipartUpload { bucket, key, upload_id },
        context: request::object_context("abort_multipart_upload"@, bucket, key) + " upload_id="@
            + upload_id,
        retried: true,
    }
}

/// An object that the service says not to be there, such as one that was deleted, is reported by
/// [`S3Client::head_object`] with the status code 404, and the request is not worth another
/// attempt, unless 404 is configured as retriable or the service asks to slow down.
pub proof fn lemma_missing_object_is_reported_at_once(
    client: S3Client,
    bucket: Seq<char>,
    key: Seq<char>,
    error: Seq<char>,
    metadata: ErrorMetadataView,
)
    requires
        !client.retry_config.retriable_client_status_codes@.contains(404),
        metadata.code != Some("SlowDown"@),
    ensures
        ({
            let context = head_object_call(bucket, key).context;
            let reported = error::classified(
                context,
                client.retry_config.retriable_client_status_codes@,
                SdkFailureView::ServiceError { error, metadata, status_code: 404 },
            );
            &&& reported == S3ErrorView::AWSS3Error(context, error, metadata, 404)
            &&& reported.is_not_found()
            &&& !reported.is_transient()
        }),
{
}

/// A call on an object names that object. It gets all of it or the bytes of a range, whoever has
/// stored it; puts the bytes that it was given, in the storage class that it was given; or gives up
/// the upload that it was given.
pub proof fn lemma_calls_name_their_object(
    operation: Seq<char>,
    bucket: Seq<char>,
    key: Seq<char>,
    range: Option<Seq<char>>,
    retried: bool,
    body: BodyView,
    storage_class: Option<Seq<char>>,
    upload_id: Seq<char>,
)
    ensures
        get_object_call(operation, bucket, key, range, retried).retried == retried,
        reports_object(
            get_object_call(operation, bucket, key, range, retried).context,
            operation,
            bucket,
            key,
        ),
        get_object_call(
            operation,
            bucket,
            key,
            range,
            retried,
        ).request matches RequestView::GetObject { bucket: b, key: k, range: r, if_match } && b
            == bucket && k == key && r == range && if_match is None,
        head_object_call(bucket, key).retried,
        reports_object(head_object_call(bucket, key).context, "head_object"@, bucket, key),
        head_object_call(bucket, key).request matches RequestView::HeadObject { bucket: b, key: k }
            && b == bucket && k == key,
        put_object_call(operation, bucket, key, body, storage_class).retried,
        reports_object(
            put_object_call(operation, bucket, key, body, storage_class).context,
            operation,
            bucket,
            key,
        ),
        put_object_call(
            operation,
            bucket,
            key,
            body,
            storage_class,
        ).request matches RequestView::PutObject { bucket: b, key: k, body: sent, storage_class: class }
            && b == bucket && k == key && sent == body && class == storage_class,
        abort_call(bucket, key, upload_id).retried,
        abort_call(bucket, key, upload_id).request matches RequestView::AbortMultipartUpload {
            bucket: b,
            key: k,
            upload_id: id,
        } && b == bucket && k == key && id == upload_id,
        upload_id.is_suffix_of(abort_call(bucket, key, upload_id).context),
{
    request::lemma_contexts_name_what_failed(operation, bucket, key, bucket, key);
    request::lemma_contexts_name_what_failed("head_object"@, bucket, key, bucket, key);
    let context = abort_call(bucket, key, upload_id).context;
    assert(context.subrange(context.len() - upload_id.len(), context.len() as int) =~= upload_id);
}

/// What a failure is reported as names the operation, the bucket and the key.
pub open spec fn reports_object(
    context: Seq<char>,
    operation: Seq<char>,
    bucket: Seq<char>,
    key: Seq<char>,
) -> bool {
    &&& ("<"@ + operation + ">"@).is_prefix_of(context)
    &&& text::contains_text(context, "bucket="@ + bucket)
    &&& ("key="@ + key).is_suffix_of(context)
}

/// Getting a slice of an object asks for exactly the bytes of the slice, and getting an object
/// without offsets asks for all of it.
pub proof fn lemma_get_asks_for_the_slice(
    operation: Seq<char>,
    bucket: Seq<char>,
    key: Seq<char>,
    start: usize,
    end: usize,
    object: Seq<u8>,
)
    requires
        start < end,
    ensures
        multipart::slice_range(Some((start, end))) matches Ok(range) && (get_object_call(
            operation,
            bucket,
            key,
            range,
            true,
        ).request matches RequestView::GetObject { range: Some(asked), .. }
            && multipart::ranged_bytes(object, asked) == object.subrange(
            start as int,
            end as int,
        )),
        multipart::slice_range(None) matches Ok(range) && (get_object_call(
            operation,
            bucket,
            key,
            range,
            true,
        ).request matches RequestView::GetObject { range: None, .. }),
{
    multipart::lemma_slice_range_names_the_slice(Some((start, end)), object);
}

} // verus!

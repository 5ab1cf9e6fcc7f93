use sulfite::client::{region_or_fallback, S3Client};
use sulfite::config::{
    default_retriable_client_status_codes, RetryConfig, RetryStrategy, S3ClientConfig,
    DEFAULT_MULTIPART_PART_SIZE, DEFAULT_RETRIABLE_CLIENT_STATUS_CODES_STR,
};
use sulfite::error::{
    checked_content_length, map_bytestream_upload_error, map_sdk_error, should_retry,
    ErrorMetadata, S3Error, SdkFailure,
};

fn service_error(code: Option<&str>, status_code: u16) -> SdkFailure {
    SdkFailure::ServiceError {
        error: "failed".to_owned(),
        metadata: ErrorMetadata {
            code: code.map(str::to_owned),
            description: "details".to_owned(),
        },
        status_code,
    }
}

#[test]
fn service_errors_are_classified_by_status_and_code() {
    let codes = [408, 429];
    let timeout = map_sdk_error("op".to_owned(), &codes, service_error(None, 408));
    assert_eq!(timeout.message(), "op [RetriableClientError - <failed> <details> <408>]");
    assert!(should_retry(&timeout));
    let slow_down = map_sdk_error("op".to_owned(), &codes, service_error(Some("SlowDown"), 503));
    assert!(matches!(slow_down, S3Error::RetriableClientError(_, _, _, 503)));
    assert!(should_retry(&slow_down));
    let server = map_sdk_error("op".to_owned(), &codes, service_error(None, 500));
    assert_eq!(server.message(), "op [RetriableServerError - <failed> <details> <500>]");
    assert!(should_retry(&server));
    let missing = map_sdk_error("op".to_owned(), &codes, service_error(Some("NoSuchKey"), 404));
    assert_eq!(missing.message(), "op [AWSS3Error - <failed> <details> <404>]");
    assert!(!should_retry(&missing));
    assert!(missing.is_not_found());
    assert!(!server.is_not_found());
}

#[test]
fn transport_failures_are_classified() {
    let codes: [u16; 0] = [];
    let cases = [
        (SdkFailure::ConstructionFailure, "op [ConstructionFailure]", false),
        (SdkFailure::TimeoutError, "op [TimeoutError]", true),
        (SdkFailure::DispatchFailure, "op [DispatchFailure]", true),
        (SdkFailure::ResponseError, "op [ResponseError]", true),
        (
            SdkFailure::Other { error: "odd".to_owned() },
            "op [OtherSDKError - <odd>]",
            false,
        ),
    ];
    for (failure, message, retried) in cases {
        let error = map_sdk_error("op".to_owned(), &codes, failure);
        assert_eq!(error.message(), message);
        assert_eq!(should_retry(&error), retried);
    }
}

#[test]
fn body_errors_are_retried_only_for_downloads() {
    let upload = map_bytestream_upload_error("op".to_owned(), "gone".to_owned());
    assert_eq!(upload.message(), "op [ByteStreamUploadError - <gone>]");
    assert!(!should_retry(&upload));
    let client = S3Client::new(&S3ClientConfig::default(), RetryConfig::default());
    let download = client.map_bytestream_download_error("op".to_owned(), "cut".to_owned());
    assert_eq!(download.message(), "op [ByteStreamDownloadError - <cut>]");
    assert!(should_retry(&download));
}

#[test]
fn remaining_errors_have_messages() {
    assert_eq!(S3Error::IOError("disk".to_owned()).message(), "disk [IOError]");
    assert_eq!(S3Error::RuntimeError("task".to_owned()).message(), "task [RuntimeError]");
    assert_eq!(S3Error::FieldNotExist("etag").message(), "etag [FieldNotExist]");
    assert!(!should_retry(&S3Error::IOError("disk".to_owned())));
}

#[test]
fn content_length_errors_say_what_is_wrong() {
    assert_eq!(
        checked_content_length(Some(-7)).unwrap_err().message(),
        "content length must not be negative: -7 [ValidationError]"
    );
    assert_eq!(
        checked_content_length(Some(i64::MIN)).unwrap_err().message(),
        "content length must not be negative: -9223372036854775808 [ValidationError]"
    );
    assert_eq!(
        checked_content_length(None).unwrap_err().message(),
        "content_length [FieldNotExist]"
    );
}

#[test]
fn default_codes_match_their_text() {
    let texts: Vec<String> =
        default_retriable_client_status_codes().iter().map(u16::to_string).collect();
    assert_eq!(texts.join(","), DEFAULT_RETRIABLE_CLIENT_STATUS_CODES_STR);
}

#[test]
fn clients_take_their_settings() {
    let retrying = RetryConfig {
        max_retries: 3,
        retry_strategy: RetryStrategy::default(),
        retriable_client_status_codes: vec![418],
    };
    let config = S3ClientConfig {
        multipart_part_size: 7,
        multipart_workers: 2,
        ..S3ClientConfig::default()
    };
    let client = S3Client::new(&config, retrying);
    assert_eq!(client.multipart_part_size(), 7);
    assert_eq!(client.multipart_workers(), 2);
    assert!(client.disables_sdk_retries());
    assert!(should_retry(&client.map_sdk_error("op".to_owned(), service_error(None, 418))));
    assert!(!should_retry(&client.map_sdk_error("op".to_owned(), service_error(None, 408))));

    let (plain, warning) =
        S3Client::new_with_aws_s3_client(true, RetryConfig::default(), None, Some(5));
    assert_eq!(plain.multipart_part_size(), DEFAULT_MULTIPART_PART_SIZE);
    assert_eq!(plain.multipart_workers(), 5);
    assert!(!plain.disables_sdk_retries());
    assert_eq!(warning, None);
    let doubled = RetryConfig { max_retries: 1, ..RetryConfig::default() };
    let (_, warning) = S3Client::new_with_aws_s3_client(true, doubled, Some(1), None);
    assert_eq!(
        warning,
        Some("High-level retries are enabled but low-level retries are also enabled.")
    );
}

#[test]
fn regions_fall_back() {
    assert_eq!(region_or_fallback(Some("eu-north-1")), "eu-north-1");
    assert_eq!(region_or_fallback(None), "us-east-1");
}

#[test]
fn missing_objects_are_reported_at_once() {
    let client = S3Client::new(&S3ClientConfig::default(), RetryConfig::default());
    let call = client.head_object("b", "k");
    let error = client.map_sdk_error(call.context, service_error(Some("NotFound"), 404));
    assert_eq!(
        error.message(),
        "<head_object> bucket=b key=k [AWSS3Error - <failed> <details> <404>]"
    );
    assert!(error.is_not_found());
    assert!(!should_retry(&error));
}

use media_subtitle_worker::loader_s3::{
    after_create, after_head, body_context, download_context, env_value, listed_keys,
    listing_context, should_create_bucket, upload_context, BucketStep, Config, ConfigError,
};
use media_subtitle_worker::settings::{
    consumer_restart_delay, pyannote_enabled, setting_or, subtitle_bucket, subtitle_max_retries,
    subtitle_worker_id, worker_id_or, DEFAULT_PYTHON_BIN, DEFAULT_SCRIPT_PATH,
    DEFAULT_TRANSCRIBER,
};

fn some(s: &str) -> Option<String> {
    Some(s.to_string())
}

#[test]
fn keys_are_required_and_the_rest_has_defaults() {
    let config = Config::from_env(None, Some(" id "), Some("secret\n"), Some("  ")).unwrap();
    assert_eq!(config.region, "ru-1");
    assert_eq!(config.access_key_id, "id");
    assert_eq!(config.secret_access_key, "secret");
    assert_eq!(config.endpoint_url, "https://s3.twcstorage.ru");
    let config =
        Config::from_env(Some("eu"), Some("id"), Some("secret"), Some("http://minio")).unwrap();
    assert_eq!(config.region, "eu");
    assert_eq!(config.endpoint_url, "http://minio");
}

#[test]
fn the_first_missing_key_is_named() {
    let error = Config::from_env(None, Some(" "), None, None).unwrap_err();
    assert!(matches!(error, ConfigError::MissingAccessKeyId));
    assert_eq!(error.message(), "S3_ACCESS_KEY_ID is required");
    let error = Config::from_env(None, Some("id"), Some(""), None).unwrap_err();
    assert!(matches!(error, ConfigError::MissingSecretAccessKey));
    assert_eq!(error.message(), "S3_SECRET_ACCESS_KEY is required");
}

#[test]
fn values_are_trimmed() {
    assert_eq!(env_value(None), None);
    assert_eq!(env_value(Some("")), None);
    assert_eq!(env_value(Some(" \t")), None);
    assert_eq!(env_value(Some(" a b ")), some("a b"));
    assert_eq!(env_value(Some("a b")), env_value(Some(" a b ")));
}

#[test]
fn buckets_are_created_on_request() {
    for (value, expected) in [
        (None, false),
        (Some("true"), true),
        (Some("TRUE"), true),
        (Some("1"), true),
        (Some("yes"), false),
        (Some(" true"), false),
        (Some("0"), false),
    ] {
        assert_eq!(should_create_bucket(value), expected);
    }
    assert!(matches!(after_head("b", true, false), BucketStep::Ready));
    assert!(matches!(after_head("b", true, true), BucketStep::Ready));
    assert!(matches!(after_head("b", false, true), BucketStep::Create));
    match after_head("b", false, false) {
        BucketStep::Fail(context) => assert_eq!(
            context,
            "bucket 'b' is not available; check S3_BUCKET and credentials, or set S3_CREATE_BUCKET=true for local S3-compatible storage"
        ),
        other => panic!("{other:?}"),
    }
}

#[test]
fn owned_buckets_are_as_good_as_new() {
    assert!(matches!(after_create("b", true, None), BucketStep::Ready));
    assert!(matches!(
        after_create("b", false, Some("BucketAlreadyOwnedByYou")),
        BucketStep::Ready
    ));
    for code in [None, Some("BucketAlreadyExists")] {
        match after_create("b", false, code) {
            BucketStep::Fail(context) => assert_eq!(context, "create_bucket failed for b"),
            other => panic!("{other:?}"),
        }
    }
}

#[test]
fn objects_without_keys_are_left_out() {
    assert_eq!(listed_keys(vec![some("b"), None, some("a"), None]), ["b", "a"]);
    assert_eq!(listed_keys(Vec::new()), Vec::<String>::new());
}

#[test]
fn storage_failures_name_their_objects() {
    assert_eq!(download_context("b", "k"), "error downloading object 'k' from bucket 'b'");
    assert_eq!(body_context("k"), "error reading object body 'k'");
    assert_eq!(
        listing_context("b", "p/"),
        "error listing objects in bucket 'b' with prefix 'p/'"
    );
    assert_eq!(upload_context("b", "k"), "error uploading 'k' to bucket 'b'");
}

#[test]
fn restarts_wait_five_seconds_by_default() {
    assert_eq!(consumer_restart_delay(None), 5);
    assert_eq!(consumer_restart_delay(Some("0")), 5);
    assert_eq!(consumer_restart_delay(Some("x")), 5);
    assert_eq!(consumer_restart_delay(Some("-1")), 5);
    assert_eq!(consumer_restart_delay(Some("7")), 7);
    assert_eq!(consumer_restart_delay(Some("18446744073709551615")), u64::MAX);
    assert_eq!(consumer_restart_delay(Some("18446744073709551616")), 5);
}

#[test]
fn workers_have_names() {
    assert_eq!(subtitle_worker_id(some("w"), some("h")), "w");
    assert_eq!(subtitle_worker_id(some(" "), some("h")), "h");
    assert_eq!(subtitle_worker_id(None, some(" h ")), " h ");
    assert_eq!(worker_id_or(None, some(""), "f".to_string()), "f");
    let random = subtitle_worker_id(None, some("\t"));
    assert_eq!(random.len(), 36);
    assert_ne!(random, subtitle_worker_id(None, None));
}

#[test]
fn worker_settings_have_defaults() {
    assert_eq!(subtitle_bucket(some("s"), some("b")), "s");
    assert_eq!(subtitle_bucket(None, some("b")), "b");
    assert_eq!(subtitle_bucket(None, None), "4c5face5-544c-4bc2-a2e0-57a24d243af3");
    assert_eq!(subtitle_bucket(some(""), some("b")), "");
    assert_eq!(subtitle_max_retries(None), Some(3));
    assert_eq!(subtitle_max_retries(Some("10")), Some(10));
    assert_eq!(subtitle_max_retries(Some("0")), Some(0));
    assert_eq!(subtitle_max_retries(Some("ten")), None);
    assert_eq!(subtitle_max_retries(Some("-1")), None);
    assert!(pyannote_enabled(Some("True")));
    assert!(!pyannote_enabled(Some("1")));
    assert!(!pyannote_enabled(None));
    assert_eq!(setting_or(None, DEFAULT_TRANSCRIBER), "mock");
    assert_eq!(setting_or(None, DEFAULT_PYTHON_BIN), "python3");
    assert_eq!(setting_or(None, DEFAULT_SCRIPT_PATH), "pyannote/diarize.py");
    assert_eq!(setting_or(some("whisper-rs"), DEFAULT_TRANSCRIBER), "whisper-rs");
}

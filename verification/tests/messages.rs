use media_subtitle_worker::client_config::{consumer_settings, producer_settings};
use media_subtitle_worker::consumer::{accept_request, decode_payload, GROUP_ID, TOPIC};
use media_subtitle_worker::file_id::FileId;
use media_subtitle_worker::kafka::{
    backend_subtitle_ready_event, combine_send_results, public_s3_object_url, send_failure,
    subtitle_error_message, subtitle_error_message_at, subtitle_ready_messages,
    subtitle_ready_messages_at, worker_subtitle_ready_message, worker_subtitle_ready_message_at,
    SubtitleRequestedEvent,
};
use media_subtitle_worker::pipeline::subtitle_object_key;

const ID: &str = "11111111-1111-1111-1111-111111111111";

fn request(file_id: &str) -> SubtitleRequestedEvent {
    SubtitleRequestedEvent {
        file_id: file_id.to_string(),
        source_bucket: "bucket".to_string(),
        source_object_key: "media/x/source.wav".to_string(),
        language: Some("ru".to_string()),
        num_speakers: Some(2),
        requested_at: "2026-04-07T12:01:31Z".to_string(),
    }
}

#[test]
fn backend_subtitle_ready_event_uses_public_urls_in_nested_content() {
    let event = backend_subtitle_ready_event(
        "11111111-1111-4111-8111-111111111111",
        "subtitle-bucket",
        "media/id/subtitles.vtt",
        "media/id/subtitles.srt",
        "2026-05-31T00:00:00Z".into(),
    );

    assert_eq!(event.podcast_id, "11111111-1111-4111-8111-111111111111");
    assert_eq!(
        event.content.vtt_object_key,
        "https://s3.twcstorage.ru/subtitle-bucket/media/id/subtitles.vtt"
    );
    assert_eq!(
        event.content.srt_object_key,
        "https://s3.twcstorage.ru/subtitle-bucket/media/id/subtitles.srt"
    );
    assert_eq!(event.ready_at, "2026-05-31T00:00:00Z");
}

#[test]
fn public_urls_have_single_slashes() {
    assert_eq!(
        public_s3_object_url("//bucket/", "/media/a.vtt"),
        "https://s3.twcstorage.ru/bucket/media/a.vtt"
    );
    assert_eq!(public_s3_object_url("b", "k/"), "https://s3.twcstorage.ru/b/k/");
    assert_eq!(public_s3_object_url("", ""), "https://s3.twcstorage.ru//");
    assert_eq!(public_s3_object_url("b", "k"), public_s3_object_url("///b//", "////k"));
}

#[test]
fn success_is_announced_on_two_topics() {
    let id = FileId::parse(ID).unwrap();
    let m = subtitle_ready_messages_at(
        id,
        "bucket",
        "media/x/subtitles.vtt",
        "media/x/subtitles.srt",
        "ru",
        42,
        "2026-04-07T12:05:00Z".to_string(),
    );
    assert_eq!(m.public.topic, "media.subtitle.ready");
    assert_eq!(m.public.key, ID);
    assert_eq!(m.public.event.file_id, ID);
    assert_eq!(m.public.event.bucket, "bucket");
    assert_eq!(m.public.event.vtt_object_key, "media/x/subtitles.vtt");
    assert_eq!(m.public.event.srt_object_key, "media/x/subtitles.srt");
    assert_eq!(m.public.event.language, "ru");
    assert_eq!(m.public.event.segments, 42);
    assert_eq!(m.public.event.ready_at, "2026-04-07T12:05:00Z");
    assert_eq!(m.backend.topic, "media.subtitle");
    assert_eq!(m.backend.key, ID);
    assert_eq!(m.backend.event.podcast_id, ID);
    assert_eq!(
        m.backend.event.content.vtt_object_key,
        "https://s3.twcstorage.ru/bucket/media/x/subtitles.vtt"
    );
    assert_eq!(
        m.backend.event.content.srt_object_key,
        "https://s3.twcstorage.ru/bucket/media/x/subtitles.srt"
    );
    assert_eq!(m.backend.event.ready_at, "2026-04-07T12:05:00Z");
}

fn looks_like_utc(s: &str) -> bool {
    let parsed = chrono::DateTime::parse_from_rfc3339(s).unwrap();
    let b = s.as_bytes();
    let digits = |from: usize, to: usize| b[from..to].iter().all(|c| c.is_ascii_digit());
    let fraction = &s[19..s.len() - 6];
    s.ends_with("+00:00")
        && parsed.timestamp() > 1_700_000_000
        && digits(0, 4)
        && b[4] == b'-'
        && digits(5, 7)
        && b[7] == b'-'
        && digits(8, 10)
        && b[10] == b'T'
        && digits(11, 13)
        && b[13] == b':'
        && digits(14, 16)
        && b[16] == b':'
        && digits(17, 19)
        && matches!(fraction.len(), 0 | 4 | 7 | 10)
        && (fraction.is_empty() || (b[19] == b'.' && digits(20, s.len() - 6)))
}

#[test]
fn messages_carry_the_time_in_utc() {
    let id = FileId::parse(ID).unwrap();
    let ready = subtitle_ready_messages(id, "b", "v", "s", "ru", 1);
    assert!(looks_like_utc(&ready.public.event.ready_at));
    assert_eq!(ready.public.event.ready_at, ready.backend.event.ready_at);
    let error = subtitle_error_message(id, "transcription", "text");
    assert!(looks_like_utc(&error.event.timestamp));
    let linkage = worker_subtitle_ready_message(id, "/h", "/v", "/s", "ru");
    assert!(looks_like_utc(&linkage.event.subtitle_ready_at));
}

#[test]
fn errors_are_reported_on_their_topic() {
    let id = FileId::parse(ID).unwrap();
    let m = subtitle_error_message_at(id, "transcription", "transcribe audio failed", "t".to_string());
    assert_eq!(m.topic, "media.subtitle.error");
    assert_eq!(m.key, ID);
    assert_eq!(m.event.file_id, ID);
    assert_eq!(m.event.stage, "transcription");
    assert_eq!(m.event.error_message, "transcribe audio failed");
    assert_eq!(m.event.timestamp, "t");
}

#[test]
fn playlists_are_linked_on_the_worker_topic() {
    let id = FileId::parse(ID).unwrap();
    let m = worker_subtitle_ready_message_at(id, "/h", "/v", "/s", "en", "t".to_string());
    assert_eq!(m.topic, "media.worker.events");
    assert_eq!(m.key, ID);
    assert_eq!(m.event.file_id, ID);
    assert_eq!(m.event.hls_path, "/h");
    assert_eq!(m.event.subtitle_vtt_path, "/v");
    assert_eq!(m.event.subtitle_srt_path, "/s");
    assert_eq!(m.event.language, "en");
    assert_eq!(m.event.subtitle_ready_at, "t");
}

#[test]
fn the_public_error_comes_first() {
    assert_eq!(combine_send_results::<u8>(Ok(()), Ok(())), Ok(()));
    assert_eq!(combine_send_results(Err(1), Err(2)), Err(1));
    assert_eq!(combine_send_results(Err(1), Ok(())), Err(1));
    assert_eq!(combine_send_results(Ok(()), Err(2)), Err(2));
    assert_eq!(send_failure("broker down"), "Kafka send failed: broker down");
}

#[test]
fn requests_are_read_from_their_topic() {
    assert_eq!(TOPIC, "media.subtitle.request");
    assert_eq!(GROUP_ID, "media-subtitle-worker-service");
}

#[test]
fn payloads_are_utf_8() {
    assert!(decode_payload(None).is_none());
    assert_eq!(decode_payload(Some(b"")).unwrap().unwrap(), "");
    assert_eq!(decode_payload(Some("Привет".as_bytes())).unwrap().unwrap(), "Привет");
    assert!(decode_payload(Some(&[0xff, 0xfe])).unwrap().is_err());
    assert!(decode_payload(Some(&[0xed, 0xa0, 0x80])).unwrap().is_err());
}

#[test]
fn requests_need_an_identifier() {
    let job = accept_request(request(ID), "subtitles").unwrap();
    assert_eq!(job.file_id.text(), ID);
    assert_eq!(job.event.source_object_key, "media/x/source.wav");
    assert_eq!(job.event.num_speakers, Some(2));
    assert_eq!(job.subtitle_bucket, "subtitles");
    assert!(accept_request(request("no uuid"), "subtitles").is_err());
}

#[test]
fn clients_have_their_settings() {
    let consumer: Vec<(String, String)> =
        consumer_settings("kafka:9092", GROUP_ID).into_iter().map(|s| (s.name, s.value)).collect();
    assert_eq!(consumer.len(), 8);
    assert_eq!(consumer[0], ("bootstrap.servers".to_string(), "kafka:9092".to_string()));
    assert_eq!(consumer[1], ("group.id".to_string(), GROUP_ID.to_string()));
    assert_eq!(consumer[3], ("auto.offset.reset".to_string(), "latest".to_string()));
    let producer: Vec<(String, String)> =
        producer_settings("kafka:9092").into_iter().map(|s| (s.name, s.value)).collect();
    assert_eq!(producer.len(), 7);
    assert_eq!(producer[1], ("message.timeout.ms".to_string(), "5000".to_string()));
    assert_eq!(producer[6], ("socket.keepalive.enable".to_string(), "true".to_string()));
}

#[test]
fn subtitles_have_public_addresses() {
    let id = FileId::parse(ID).unwrap();
    assert_eq!(
        public_s3_object_url(
            "4c5face5-544c-4bc2-a2e0-57a24d243af3",
            &subtitle_object_key(id, "subtitles.vtt")
        ),
        "https://s3.twcstorage.ru/4c5face5-544c-4bc2-a2e0-57a24d243af3/media/11111111-1111-1111-1111-111111111111/subtitles.vtt"
    );
}

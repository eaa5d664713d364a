use media_subtitle_worker::subtitle::{
    format_timestamp_srt, format_timestamp_vtt, to_srt, to_webvtt,
};
use media_subtitle_worker::transcriber::{Transcript, TranscriptSegment};

fn segment(start_ms: u64, end_ms: u64, text: &str, speaker: Option<&str>) -> TranscriptSegment {
    TranscriptSegment {
        start_ms,
        end_ms,
        text: text.to_string(),
        speaker: speaker.map(|s| s.to_string()),
    }
}

fn transcript(segments: Vec<TranscriptSegment>) -> Transcript {
    Transcript { language: "ru".to_string(), segments }
}

#[test]
fn renders_vtt_and_srt() {
    let transcript = Transcript {
        language: "ru".to_string(),
        segments: vec![TranscriptSegment {
            start_ms: 1000,
            end_ms: 2200,
            text: "Привет".to_string(),
            speaker: Some("SPEAKER_00".to_string()),
        }],
    };

    let vtt = to_webvtt(&transcript);
    let srt = to_srt(&transcript);

    assert!(vtt.contains("WEBVTT"));
    assert!(vtt.contains("00:00:01.000 --> 00:00:02.200"));
    assert!(vtt.contains("SPEAKER_00: Привет"));

    assert!(srt.contains("1"));
    assert!(srt.contains("00:00:01,000 --> 00:00:02,200"));
    assert!(srt.contains("SPEAKER_00: Привет"));
}

#[test]
fn renders_mixed_segments_with_and_without_speakers() {
    let transcript = Transcript {
        language: "ru".to_string(),
        segments: vec![
            TranscriptSegment {
                start_ms: 0,
                end_ms: 1500,
                text: "Реплика первого".to_string(),
                speaker: Some("SPEAKER_00".to_string()),
            },
            TranscriptSegment {
                start_ms: 1500,
                end_ms: 3000,
                text: "Реплика без роли".to_string(),
                speaker: None,
            },
            TranscriptSegment {
                start_ms: 3000,
                end_ms: 4500,
                text: "Реплика второго".to_string(),
                speaker: Some("SPEAKER_01".to_string()),
            },
        ],
    };

    let vtt = to_webvtt(&transcript);
    let srt = to_srt(&transcript);

    assert!(vtt.contains("SPEAKER_00: Реплика первого"));
    assert!(vtt.contains("\nРеплика без роли\n"));
    assert!(vtt.contains("SPEAKER_01: Реплика второго"));

    assert!(srt.contains("SPEAKER_00: Реплика первого"));
    assert!(srt.contains("\nРеплика без роли\n"));
    assert!(srt.contains("SPEAKER_01: Реплика второго"));
}

#[test]
fn whole_files_are_rendered_exactly() {
    let t = transcript(vec![
        segment(0, 2500, "  one \n", Some("A")),
        segment(2500, 3_600_000, "two", None),
    ]);
    assert_eq!(
        to_webvtt(&t),
        "WEBVTT\n\n00:00:00.000 --> 00:00:02.500\nA:   one\n\n00:00:02.500 --> 01:00:00.000\ntwo\n\n"
    );
    assert_eq!(
        to_srt(&t),
        "1\n00:00:00,000 --> 00:00:02,500\nA:   one\n\n2\n00:00:02,500 --> 01:00:00,000\ntwo\n\n"
    );
}

#[test]
fn empty_transcripts_have_no_cues() {
    let t = transcript(Vec::new());
    assert_eq!(to_webvtt(&t), "WEBVTT\n\n");
    assert_eq!(to_srt(&t), "");
}

#[test]
fn timestamps_have_fixed_parts() {
    assert_eq!(format_timestamp_vtt(0), "00:00:00.000");
    assert_eq!(format_timestamp_vtt(3_661_007), "01:01:01.007");
    assert_eq!(format_timestamp_srt(3_661_007), "01:01:01,007");
    assert_eq!(format_timestamp_vtt(359_999_999), "99:59:59.999");
    assert_eq!(format_timestamp_vtt(360_000_000), "100:00:00.000");
    assert_eq!(format_timestamp_vtt(u64::MAX), "5124095576030:25:51.615");
}

#[test]
fn srt_times_are_vtt_times_with_a_comma() {
    for ms in [0, 1, 999, 1000, 59_999, 60_000, 3_599_999, 3_600_000, u64::MAX] {
        assert_eq!(format_timestamp_srt(ms), format_timestamp_vtt(ms).replace('.', ","));
    }
}

#[test]
fn timestamps_read_back() {
    for ms in [0u64, 1, 999, 1000, 59_999, 3_599_999, 3_600_000, 360_000_001, u64::MAX] {
        let text = format_timestamp_vtt(ms);
        let (clock, millis) = text.split_once('.').unwrap();
        let parts: Vec<u64> = clock.split(':').map(|p| p.parse().unwrap()).collect();
        let seconds = parts[0] * 3600 + parts[1] * 60 + parts[2];
        assert_eq!(seconds * 1000 + millis.parse::<u64>().unwrap(), ms);
    }
}

#[test]
fn more_segments_only_append() {
    let one = transcript(vec![segment(0, 10, "a", None)]);
    let two = transcript(vec![segment(0, 10, "a", None), segment(10, 20, "b", None)]);
    assert!(to_webvtt(&two).starts_with(&to_webvtt(&one)));
    assert!(to_srt(&two).starts_with(&to_srt(&one)));
    assert!(to_srt(&two).contains("\n2\n"));
}

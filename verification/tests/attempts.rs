use media_subtitle_worker::failure::describe_failure;
use media_subtitle_worker::file_id::FileId;
use media_subtitle_worker::kafka::SubtitleRequestedEvent;
use media_subtitle_worker::pipeline::{
    start, step, PipelineAction, PipelineOutcome, PipelineStage, SubtitleJob, SubtitleResult,
};
use media_subtitle_worker::retry::{
    backoff_seconds, start_run, step_run, subtitle_linkage, RunAction, RunOutcome, RunStage,
};
use media_subtitle_worker::transcript::{Transcript, TranscriptSegment};

const ID: &str = "11111111-1111-1111-1111-111111111111";

fn job(source_object_key: &str) -> SubtitleJob {
    SubtitleJob {
        file_id: FileId::parse(ID).unwrap(),
        event: SubtitleRequestedEvent {
            file_id: ID.to_string(),
            source_bucket: "media".to_string(),
            source_object_key: source_object_key.to_string(),
            language: Some("ru".to_string()),
            num_speakers: Some(2),
            requested_at: "now".to_string(),
        },
        subtitle_bucket: "subtitles".to_string(),
    }
}

fn spoken() -> Transcript {
    Transcript {
        language: "en".to_string(),
        segments: vec![TranscriptSegment {
            start_ms: 0,
            end_ms: 1000,
            text: "hi".to_string(),
            speaker: None,
        }],
    }
}

/// What an action is, in a line.
fn line(action: &PipelineAction) -> String {
    match action {
        PipelineAction::EnsureBucket { bucket } => format!("ensure {bucket}"),
        PipelineAction::GetObject { bucket, object_key } => format!("get {bucket} {object_key}"),
        PipelineAction::ListObjects { bucket, prefix } => format!("list {bucket} {prefix}"),
        PipelineAction::WriteTemp { file_name, bytes } => format!("write {file_name} {bytes:?}"),
        PipelineAction::Transcribe { file_name, language, num_speakers } => {
            format!("transcribe {file_name} {language:?} {num_speakers:?}")
        }
        PipelineAction::Upload { bucket, object_key, bytes } => {
            format!("upload {bucket} {object_key} {}", String::from_utf8(bytes.clone()).unwrap())
        }
        PipelineAction::RemoveTemp { file_name } => format!("remove {file_name}"),
        PipelineAction::Finish(r) => format!(
            "finish {} {} {} {} {}",
            r.bucket, r.vtt_object_key, r.srt_object_key, r.language, r.segments
        ),
        PipelineAction::Fail(message) => format!("fail {message}"),
    }
}

/// Runs an attempt against a storage that answers with `content`, and fails at action `failing`.
fn run(job: &SubtitleJob, listed: &[&str], failing: Option<usize>) -> Vec<String> {
    let (mut stage, mut action) = start(job);
    let mut lines = Vec::new();
    loop {
        lines.push(line(&action));
        let outcome = if failing == Some(lines.len() - 1) {
            PipelineOutcome::Failed("cause".to_string())
        } else {
            match &action {
                PipelineAction::GetObject { object_key, .. } => {
                    PipelineOutcome::Bytes(vec![*object_key.as_bytes().last().unwrap(), 0])
                }
                PipelineAction::ListObjects { .. } => {
                    PipelineOutcome::Keys(listed.iter().map(|k| k.to_string()).collect())
                }
                PipelineAction::Transcribe { .. } => PipelineOutcome::Transcribed(spoken()),
                PipelineAction::Finish(_) | PipelineAction::Fail(_) => return lines,
                _ => PipelineOutcome::Done,
            }
        };
        assert!(stage.awaits(&outcome));
        (stage, action) = step(job, stage, outcome);
    }
}

#[test]
fn plain_audio_takes_one_download() {
    let temp = format!("subtitle_input_{ID}.wav");
    assert_eq!(
        run(&job("media/x/source.wav"), &[], None),
        vec![
            "ensure subtitles".to_string(),
            "get media media/x/source.wav".to_string(),
            format!("write {temp} [118, 0]"),
            format!("transcribe {temp} Some(\"ru\") Some(2)"),
            format!(
                "upload subtitles media/{ID}/subtitles.vtt WEBVTT\n\n00:00:00.000 --> 00:00:01.000\nhi\n\n"
            ),
            format!(
                "upload subtitles media/{ID}/subtitles.srt 1\n00:00:00,000 --> 00:00:01,000\nhi\n\n"
            ),
            format!("remove {temp}"),
            format!(
                "finish subtitles media/{ID}/subtitles.vtt media/{ID}/subtitles.srt en 1"
            ),
        ]
    );
}

#[test]
fn fragmented_audio_is_put_together() {
    let lines = run(
        &job("m/64k/seg_1.m4s"),
        &["m/64k/seg_3.m4s", "m/64k/init.mp4", "m/64k/seg_1.m4s", "m/64k/seg_2.m4s"],
        None,
    );
    assert_eq!(
        &lines[1..7],
        &[
            "get media m/64k/seg_1.m4s".to_string(),
            "get media m/64k/init.mp4".to_string(),
            "list media m/64k/".to_string(),
            "get media m/64k/seg_2.m4s".to_string(),
            "get media m/64k/seg_3.m4s".to_string(),
            format!("write subtitle_input_{ID}.mp4 [52, 0, 115, 0, 115, 0, 115, 0]"),
        ]
    );
    assert_eq!(lines.len(), 12);
}

#[test]
fn a_lone_segment_is_not_downloaded_twice() {
    let lines = run(&job("m/seg.m4s"), &[], None);
    assert_eq!(
        lines[4],
        format!("write subtitle_input_{ID}.mp4 [52, 0, 115, 0]")
    );
}

#[test]
fn every_failure_but_the_last_ends_the_attempt() {
    let plain = job("a/s.wav");
    let expected = [
        "fail ensure subtitle bucket: cause",
        "fail download source object media/a/s.wav: cause",
        "fail cause",
        "fail transcribe audio: cause",
        "fail upload vtt: cause",
        "fail upload srt: cause",
    ];
    for (i, message) in expected.iter().enumerate() {
        assert_eq!(run(&plain, &[], Some(i)).last().unwrap(), message);
    }
    assert!(run(&plain, &[], Some(6)).last().unwrap().starts_with("finish "));

    let pieces = job("a/1.m4s");
    let expected = [
        "fail download init segment media/a/init.mp4: cause",
        "fail list variant segments in media/a/: cause",
        "fail download media segment media/a/2.m4s: cause",
    ];
    for (i, message) in expected.iter().enumerate() {
        assert_eq!(run(&pieces, &["a/1.m4s", "a/2.m4s"], Some(i + 2)).last().unwrap(), message);
    }
}

#[test]
fn stages_know_what_they_wait_for() {
    let (stage, _) = start(&job("a.wav"));
    assert!(stage.awaits(&PipelineOutcome::Done));
    assert!(stage.awaits(&PipelineOutcome::Failed(String::new())));
    assert!(!stage.awaits(&PipelineOutcome::Bytes(Vec::new())));
    assert!(!PipelineStage::Over.awaits(&PipelineOutcome::Done));
    assert!(PipelineStage::Source.awaits(&PipelineOutcome::Bytes(Vec::new())));
    assert!(!PipelineStage::Source.awaits(&PipelineOutcome::Keys(Vec::new())));
}

fn result() -> SubtitleResult {
    SubtitleResult {
        bucket: "b".to_string(),
        vtt_object_key: format!("media/{ID}/subtitles.vtt"),
        srt_object_key: format!("media/{ID}/subtitles.srt"),
        language: "ru".to_string(),
        segments: 7,
    }
}

/// Runs all attempts of a request, of which number `success` succeeds.
fn run_all(max_retries: u32, success: Option<u32>) -> Vec<String> {
    let id = FileId::parse(ID).unwrap();
    let (mut stage, mut action) = start_run(max_retries);
    let mut lines = Vec::new();
    loop {
        let (text, outcome) = match &action {
            RunAction::Attempt { attempt } => (
                format!("attempt {attempt}"),
                if success == Some(*attempt) {
                    RunOutcome::Succeeded(result())
                } else {
                    RunOutcome::Failed(format!("error {attempt}"))
                },
            ),
            RunAction::PublishReady { result } => {
                (format!("ready {} {}", result.bucket, result.segments), RunOutcome::Done)
            }
            RunAction::PublishLinkage { linkage } => (
                format!(
                    "link {} {} {} {}",
                    linkage.hls_path,
                    linkage.subtitle_vtt_path,
                    linkage.subtitle_srt_path,
                    linkage.language
                ),
                RunOutcome::Done,
            ),
            RunAction::Sleep { seconds } => (format!("sleep {seconds}"), RunOutcome::Done),
            RunAction::PublishError { stage, message } => {
                (format!("error [{stage}] [{message}]"), RunOutcome::Done)
            }
            RunAction::Stop => return lines,
        };
        lines.push(text);
        assert!(stage.awaits(max_retries, &outcome));
        (stage, action) = step_run(id, max_retries, stage, outcome);
    }
}

#[test]
fn the_first_success_is_published() {
    let link = format!(
        "link /media/{ID}/master.m3u8 /media/{ID}/subtitles.vtt /media/{ID}/subtitles.srt ru"
    );
    assert_eq!(run_all(3, Some(1)), vec!["attempt 1", "ready b 7", &link]);
    assert_eq!(
        run_all(3, Some(3)),
        vec!["attempt 1", "sleep 2", "attempt 2", "sleep 4", "attempt 3", "ready b 7", &link]
    );
}

#[test]
fn the_last_failure_is_published() {
    assert_eq!(
        run_all(3, None),
        vec![
            "attempt 1",
            "sleep 2",
            "attempt 2",
            "sleep 4",
            "attempt 3",
            "error [transcription] [error 3]",
        ]
    );
    assert_eq!(run_all(1, None), vec!["attempt 1", "error [transcription] [error 1]"]);
}

#[test]
fn no_attempt_is_an_error_without_text() {
    assert_eq!(run_all(0, None), vec!["error [transcription] []"]);
}

#[test]
fn waits_double_up_to_the_width_of_a_word() {
    assert_eq!(backoff_seconds(0), 1);
    assert_eq!(backoff_seconds(1), 2);
    assert_eq!(backoff_seconds(10), 1024);
    assert_eq!(backoff_seconds(63), 1 << 63);
    let failed = RunOutcome::Failed(String::new());
    assert!(RunStage::Attempting { attempt: 63 }.awaits(100, &failed));
    assert!(!RunStage::Attempting { attempt: 64 }.awaits(100, &failed));
    assert!(RunStage::Attempting { attempt: 100 }.awaits(100, &failed));
    assert!(!RunStage::Over.awaits(100, &failed));
    assert!(!RunStage::Waiting { attempt: 1 }.awaits(100, &failed));
}

#[test]
fn subtitles_are_linked_below_the_root() {
    let linkage = subtitle_linkage(FileId::parse(ID).unwrap(), &result());
    assert_eq!(linkage.hls_path, format!("/media/{ID}/master.m3u8"));
    assert_eq!(linkage.subtitle_vtt_path, format!("/media/{ID}/subtitles.vtt"));
    assert_eq!(linkage.subtitle_srt_path, format!("/media/{ID}/subtitles.srt"));
    assert_eq!(linkage.language, "ru");
}

#[test]
fn causes_follow_their_context() {
    assert_eq!(describe_failure("upload vtt", "timed out"), "upload vtt: timed out");
}

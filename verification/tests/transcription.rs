use std::io::Cursor;

use media_subtitle_worker::file_id::FileId;
use media_subtitle_worker::speakers::{assign_speakers, DiarizationSegment};
use media_subtitle_worker::transcriber::{
    build_transcriber, MockTranscriber, Transcript, TranscriptSegment, TranscriberBackend,
    WhisperRsTranscriber,
};
use media_subtitle_worker::wav::{
    blame, open_failure, read_wav, require_samples, sample_failure, scaled_audio, wav_encoding, WavAudio,
    WavEncoding, WavFormat,
};
use media_subtitle_worker::whisper::{
    collect_segments, env_i32, ffmpeg_args, greedy_best_of, language_of_transcript,
    language_to_expect, model_failure, new_turns_file_name, new_wav_file_name, program_failure,
    pyannote_args, start_whisper, step_whisper, thread_count, turns_file_name_for, use_audio,
    wav_file_name_for, WhisperAction, WhisperJob, WhisperOutcome, WhisperSegment, WhisperStage,
    WhisperStep,
};

fn segment(start_ms: u64, end_ms: u64, speaker: Option<&str>) -> TranscriptSegment {
    TranscriptSegment {
        start_ms,
        end_ms,
        text: "text".to_string(),
        speaker: speaker.map(|s| s.to_string()),
    }
}

fn turn(speaker: &str, start_ms: u64, end_ms: u64) -> DiarizationSegment {
    DiarizationSegment { speaker: speaker.to_string(), start_ms, end_ms }
}

fn speaker_of(mut segments: Vec<TranscriptSegment>, turns: &[DiarizationSegment]) -> Option<String> {
    assign_speakers(&mut segments, turns);
    segments[0].speaker.clone()
}

#[test]
fn the_longest_overlap_decides_the_speaker() {
    let turns = [turn("A", 0, 400), turn("B", 400, 1500), turn("C", 1500, 9000)];
    assert_eq!(speaker_of(vec![segment(0, 1000, None)], &turns).as_deref(), Some("B"));
    assert_eq!(speaker_of(vec![segment(1400, 1600, None)], &turns).as_deref(), Some("B"));
    assert_eq!(speaker_of(vec![segment(1401, 1600, None)], &turns).as_deref(), Some("C"));
}

#[test]
fn without_overlap_the_speaker_stays() {
    let turns = [turn("A", 0, 100), turn("B", 300, 200)];
    assert_eq!(speaker_of(vec![segment(100, 200, None)], &turns), None);
    assert_eq!(speaker_of(vec![segment(100, 400, Some("X"))], &turns).as_deref(), Some("X"));
    assert_eq!(speaker_of(vec![segment(50, 40, Some("X"))], &turns).as_deref(), Some("X"));
    assert_eq!(speaker_of(vec![segment(0, u64::MAX, Some("X"))], &[]).as_deref(), Some("X"));
}

#[test]
fn assigning_speakers_keeps_times_and_text_and_repeats() {
    let turns = [turn("A", 0, 10), turn("A", 20, 40), turn("B", 12, 30)];
    let mut segments = vec![segment(0, 11, Some("old")), segment(11, 30, None)];
    assign_speakers(&mut segments, &turns);
    let once: Vec<Option<String>> = segments.iter().map(|s| s.speaker.clone()).collect();
    assert_eq!(once, vec![Some("A".to_string()), Some("B".to_string())]);
    assert_eq!((segments[0].start_ms, segments[0].end_ms), (0, 11));
    assert_eq!(segments[1].text, "text");
    assign_speakers(&mut segments, &turns);
    let twice: Vec<Option<String>> = segments.iter().map(|s| s.speaker.clone()).collect();
    assert_eq!(once, twice);
}

#[test]
fn made_up_transcripts_are_fixed() {
    let t = MockTranscriber.transcribe(Some("en"));
    assert_eq!(t.language, "en");
    assert_eq!(t.segments.len(), 2);
    assert_eq!((t.segments[0].start_ms, t.segments[0].end_ms), (0, 2500));
    assert_eq!(t.segments[0].text, "Это тестовый сегмент субтитров.");
    assert_eq!((t.segments[1].start_ms, t.segments[1].end_ms), (2500, 5000));
    assert_eq!(t.segments[1].text, "Замените MockTranscriber на whisper-rs backend.");
    assert!(t.segments[1].speaker.is_none());
    assert_eq!(MockTranscriber.transcribe(None).language, "ru");
}

fn build(backend: &str, model: Option<&str>, exists: bool) -> Result<TranscriberBackend, String> {
    build_transcriber(
        backend,
        model.map(|s| s.to_string()),
        exists,
        true,
        "python3".to_string(),
        "diarize.py".to_string(),
        Some("token".to_string()),
    )
}

#[test]
fn transcribers_are_chosen_by_name() {
    assert!(matches!(build("mock", None, false), Ok(TranscriberBackend::Mock(_))));
    match build("whisper-rs", Some("/models/m.bin"), true) {
        Ok(TranscriberBackend::WhisperRs(t)) => {
            assert_eq!(t.model_path, "/models/m.bin");
            assert!(t.pyannote_enabled);
            assert_eq!(t.pyannote_python_bin, "python3");
            assert_eq!(t.pyannote_script_path, "diarize.py");
            assert_eq!(t.pyannote_hf_token.as_deref(), Some("token"));
        }
        other => panic!("{other:?}"),
    }
    assert_eq!(
        build("other", None, true).unwrap_err(),
        "Unsupported TRANSCRIBER_BACKEND: other"
    );
    assert_eq!(build("", None, true).unwrap_err(), "Unsupported TRANSCRIBER_BACKEND: ");
}

#[test]
fn models_must_be_there() {
    assert_eq!(
        build("whisper-rs", None, true).unwrap_err(),
        "WHISPER_MODEL_PATH is required for TRANSCRIBER_BACKEND=whisper-rs"
    );
    assert_eq!(
        WhisperRsTranscriber::new(
            Some("/m".to_string()),
            false,
            false,
            String::new(),
            String::new(),
            None
        )
        .unwrap_err(),
        "Whisper model file not found at '/m'. Mount model into /models and set WHISPER_MODEL_PATH accordingly."
    );
}

fn wav(channels: u16, bits: u16, format: hound::SampleFormat, samples: &[i32]) -> Vec<u8> {
    let spec = hound::WavSpec {
        channels,
        sample_rate: 16000,
        bits_per_sample: bits,
        sample_format: format,
    };
    let mut buffer = Cursor::new(Vec::new());
    let mut writer = hound::WavWriter::new(&mut buffer, spec).unwrap();
    for sample in samples {
        match format {
            hound::SampleFormat::Int => writer.write_sample(*sample).unwrap(),
            hound::SampleFormat::Float => writer.write_sample(*sample as f32).unwrap(),
        }
    }
    writer.finalize().unwrap();
    buffer.into_inner()
}

#[test]
fn integer_wavs_are_read_with_their_amplitude() {
    let samples = [0, 1, -1, 32767, -32768];
    match read_wav("a.wav", &wav(1, 16, hound::SampleFormat::Int, &samples), None) {
        Ok(WavAudio::Scaled { samples: read, amplitude }) => {
            assert_eq!(read, samples);
            assert_eq!(amplitude, 32767);
        }
        other => panic!("{other:?}"),
    }
    for (bits, largest) in [(24, 8_388_607i64), (32, 2_147_483_647)] {
        match read_wav("a.wav", &wav(1, bits, hound::SampleFormat::Int, &[5, -6, 70000]), None) {
            Ok(WavAudio::Scaled { samples: read, amplitude }) => {
                assert_eq!(read, [5, -6, 70000]);
                assert_eq!(amplitude, largest);
            }
            other => panic!("{other:?}"),
        }
    }
}

#[test]
fn float_wavs_are_left_to_the_caller() {
    let bytes = wav(1, 32, hound::SampleFormat::Float, &[1]);
    assert!(matches!(read_wav("a.wav", &bytes, None), Ok(WavAudio::Float)));
}

#[test]
fn unreadable_wavs_are_refused() {
    assert_eq!(
        read_wav("/tmp/a.wav", b"nonsense", None).unwrap_err(),
        "failed to open wav /tmp/a.wav: Ill-formed WAVE file: no RIFF tag found"
    );
    assert_eq!(
        read_wav("a", b"RIFF", None).unwrap_err(),
        "failed to open wav a: Failed to read enough bytes."
    );
    assert_eq!(
        read_wav("a", &wav(2, 16, hound::SampleFormat::Int, &[1, 2]), None).unwrap_err(),
        "expected mono wav, got 2 channels"
    );
    assert_eq!(
        read_wav("a", &wav(1, 8, hound::SampleFormat::Int, &[1]), None).unwrap_err(),
        "unsupported wav format: Int 8 bits"
    );
    assert_eq!(
        read_wav("a", &wav(1, 16, hound::SampleFormat::Int, &[]), None).unwrap_err(),
        "wav has no samples"
    );
    let mut cut = wav(1, 16, hound::SampleFormat::Int, &[1, 2, 3]);
    cut.pop();
    assert_eq!(
        read_wav("a", &cut, None).unwrap_err(),
        "wav sample error: Failed to read enough bytes."
    );
}

#[test]
fn encodings_follow_the_format() {
    let of = |channels, float, bits_per_sample| {
        wav_encoding(WavFormat { channels, float, bits_per_sample })
    };
    assert!(matches!(of(1, true, 32), Ok(WavEncoding::Float)));
    assert!(matches!(of(1, false, 16), Ok(WavEncoding::Short { amplitude: 32767 })));
    assert!(matches!(of(1, false, 28), Ok(WavEncoding::Long { amplitude: 134_217_727 })));
    for bits in 24..=32u16 {
        match of(1, false, bits) {
            Ok(WavEncoding::Long { amplitude }) => assert_eq!(amplitude, (1i64 << (bits - 1)) - 1),
            other => panic!("{other:?}"),
        }
    }
    assert_eq!(of(1, true, 16).unwrap_err(), "unsupported wav format: Float 16 bits");
    assert_eq!(of(1, false, 23).unwrap_err(), "unsupported wav format: Int 23 bits");
    assert_eq!(of(1, false, 33).unwrap_err(), "unsupported wav format: Int 33 bits");
    assert_eq!(of(0, false, 16).unwrap_err(), "expected mono wav, got 0 channels");
    assert_eq!(of(65535, true, 32).unwrap_err(), "expected mono wav, got 65535 channels");
}

#[test]
fn samples_must_be_there() {
    assert!(require_samples(1).is_ok());
    assert_eq!(require_samples(0).unwrap_err(), "wav has no samples");
    assert_eq!(sample_failure("x"), "wav sample error: x");
    assert_eq!(open_failure("p", "x"), "failed to open wav p: x");
    assert!(matches!(
        scaled_audio(Ok(vec![3]), 7),
        Ok(WavAudio::Scaled { samples, amplitude: 7 }) if samples == [3]
    ));
    assert_eq!(scaled_audio(Ok(Vec::new()), 7).unwrap_err(), "wav has no samples");
    assert_eq!(scaled_audio(Err("x".to_string()), 7).unwrap_err(), "wav sample error: x");
}

fn heard(start: i64, end: i64, text: &str) -> WhisperSegment {
    WhisperSegment { start, end, text: text.to_string() }
}

#[test]
fn heard_segments_become_milliseconds() {
    let segments = collect_segments(&vec![
        heard(-5, 150, "  one "),
        heard(150, 160, " \n"),
        heard(160, 1_844_674_407_370_955_161, "two"),
    ]);
    assert_eq!(segments.len(), 2);
    assert_eq!((segments[0].start_ms, segments[0].end_ms), (0, 1500));
    assert_eq!(segments[0].text, "one");
    assert_eq!((segments[1].start_ms, segments[1].end_ms), (1600, 18_446_744_073_709_551_610));
    assert_eq!(segments[1].text, "two");
    assert!(segments[1].speaker.is_none());
    assert!(heard(0, 1_844_674_407_370_955_161, "").fits());
    assert!(!heard(0, 1_844_674_407_370_955_162, "").fits());
}

#[test]
fn languages_are_expected_or_found_out() {
    assert_eq!(language_to_expect(Some("ru")).as_deref(), Some("ru"));
    assert_eq!(language_to_expect(Some(" ru ")).as_deref(), Some(" ru "));
    assert_eq!(language_to_expect(Some("auto")), None);
    assert_eq!(language_to_expect(Some(" ")), None);
    assert_eq!(language_to_expect(None), None);
    assert_eq!(language_of_transcript(Some("ru"), Some("en".to_string())), "ru");
    assert_eq!(language_of_transcript(Some("auto"), Some("en".to_string())), "en");
    assert_eq!(language_of_transcript(None, None), "unknown");
}

#[test]
fn numbers_of_the_model_have_defaults() {
    assert_eq!(env_i32(Some("12"), 3), 12);
    assert_eq!(env_i32(Some("-12"), 3), -12);
    assert_eq!(env_i32(Some("x"), 3), 3);
    assert_eq!(env_i32(None, 3), 3);
    assert_eq!(greedy_best_of(None), 8);
    assert_eq!(greedy_best_of(Some("0")), 1);
    assert_eq!(greedy_best_of(Some("5")), 5);
    assert_eq!(thread_count(None), 4);
    assert_eq!(thread_count(Some("-3")), 1);
    assert_eq!(thread_count(Some("16")), 16);
}

#[test]
fn programs_get_their_arguments() {
    assert_eq!(
        ffmpeg_args("in.mp4", "out.wav"),
        ["-i", "in.mp4", "-vn", "-ac", "1", "-ar", "16000", "-f", "wav", "-y", "out.wav"]
    );
    assert_eq!(
        pyannote_args("d.py", "a.wav", "t.json", None, None),
        ["d.py", "--input", "a.wav", "--output", "t.json"]
    );
    assert_eq!(
        pyannote_args("d.py", "a.wav", "t.json", Some("tok"), Some(12)),
        [
            "d.py", "--input", "a.wav", "--output", "t.json", "--hf-token", "tok",
            "--num-speakers", "12"
        ]
    );
}

#[test]
fn files_are_named_after_identifiers() {
    let id = FileId { value: 7 };
    assert_eq!(
        wav_file_name_for(id),
        "subtitle_whisper_00000000-0000-0000-0000-000000000007.wav"
    );
    assert_eq!(turns_file_name_for(id), "pyannote_00000000-0000-0000-0000-000000000007.json");
    let name = new_wav_file_name();
    assert!(name.starts_with("subtitle_whisper_") && name.ends_with(".wav"));
    assert_ne!(name, new_wav_file_name());
    let name = new_turns_file_name();
    assert!(name.starts_with("pyannote_") && name.ends_with(".json"));
}

#[test]
fn failures_say_what_the_program_said() {
    assert_eq!(
        program_failure("ffmpeg decode failed", " no such file \n", "exit status: 1"),
        "ffmpeg decode failed: no such file"
    );
    assert_eq!(
        program_failure("ffmpeg decode failed", " \n", "exit status: 1"),
        "ffmpeg decode failed: exit code exit status: 1"
    );
    assert_eq!(model_failure(WhisperStep::Context, "x"), "whisper context init failed: x");
    assert_eq!(model_failure(WhisperStep::State, "x"), "whisper state init failed: x");
    assert_eq!(model_failure(WhisperStep::Full, "x"), "whisper full() failed: x");
    assert_eq!(model_failure(WhisperStep::Segment, "x"), "segment decode failed: x");
}

fn job(pyannote_enabled: bool) -> WhisperJob {
    WhisperJob {
        model_path: "m.bin".to_string(),
        input_path: "in.mp4".to_string(),
        wav_path: "w.wav".to_string(),
        turns_path: "t.json".to_string(),
        language: Some("auto".to_string()),
        num_speakers: Some(2),
        best_of: 8,
        threads: 4,
        pyannote_enabled,
        pyannote_python_bin: "python3".to_string(),
        pyannote_script_path: "d.py".to_string(),
        pyannote_hf_token: None,
    }
}

fn shown(transcript: &Transcript) -> String {
    let mut out = transcript.language.clone();
    for s in &transcript.segments {
        out.push_str(&format!(" {}-{} {} {:?}", s.start_ms, s.end_ms, s.text, s.speaker));
    }
    out
}

fn line(action: &WhisperAction) -> String {
    match action {
        WhisperAction::Decode { program, args } => format!("decode {program} {}", args.join(" ")),
        WhisperAction::FindWav { path } => format!("find {path}"),
        WhisperAction::ReadWav { path } => format!("read {path}"),
        WhisperAction::ReadFloats => "floats".to_string(),
        WhisperAction::Listen { audio, model_path, language, best_of, threads } => {
            format!("listen {audio:?} {model_path} {language:?} {best_of} {threads}")
        }
        WhisperAction::Diarize { program, args } => format!("diarize {program} {}", args.join(" ")),
        WhisperAction::ReadTurns { path } => format!("turns {path}"),
        WhisperAction::ParseTurns { text } => format!("parse {text}"),
        WhisperAction::RemoveTurns { path } => format!("remove {path}"),
        WhisperAction::RemoveWav { path } => format!("remove {path}"),
        WhisperAction::Finish(transcript) => format!("finish {}", shown(transcript)),
        WhisperAction::Fail(message) => format!("fail {message}"),
    }
}

/// Runs a transcription of the file `bytes`; action `failing` fails.
fn run(job: &WhisperJob, bytes: &[u8], failing: Option<usize>) -> Vec<String> {
    let (mut stage, mut action) = start_whisper(job);
    let mut lines = Vec::new();
    loop {
        lines.push(line(&action));
        let fails = failing == Some(lines.len() - 1);
        let outcome = match &action {
            WhisperAction::Finish(_) | WhisperAction::Fail(_) => return lines,
            WhisperAction::FindWav { .. } => WhisperOutcome::Found(!fails),
            WhisperAction::Listen { .. } if fails => WhisperOutcome::Unheard {
                at: WhisperStep::Full,
                cause: "cause".to_string(),
            },
            WhisperAction::ReadFloats if fails => WhisperOutcome::Unread {
                ran_out: false,
                message: "cause".to_string(),
            },
            _ if fails => WhisperOutcome::Failed("cause".to_string()),
            WhisperAction::Decode { .. } | WhisperAction::Diarize { .. } => WhisperOutcome::Ran {
                success: true,
                status: "exit status: 0".to_string(),
                stderr: "noise".to_string(),
            },
            WhisperAction::ReadWav { .. } => WhisperOutcome::Bytes(bytes.to_vec()),
            WhisperAction::ReadFloats => WhisperOutcome::Floats(1),
            WhisperAction::Listen { .. } => WhisperOutcome::Heard {
                segments: vec![heard(0, 100, " hello "), heard(100, 200, " ")],
                detected: Some("en".to_string()),
            },
            WhisperAction::ReadTurns { .. } => WhisperOutcome::Text("{}".to_string()),
            WhisperAction::ParseTurns { .. } => {
                WhisperOutcome::Turns(vec![turn("A", 0, 300), turn("B", 300, 1000)])
            }
            WhisperAction::RemoveTurns { .. } | WhisperAction::RemoveWav { .. } => {
                WhisperOutcome::Done
            }
        };
        assert!(stage.awaits(&outcome));
        (stage, action) = step_whisper(job, stage, outcome);
    }
}

#[test]
fn transcriptions_without_speakers() {
    let bytes = wav(1, 16, hound::SampleFormat::Int, &[1, 2]);
    assert_eq!(
        run(&job(false), &bytes, None),
        [
            "decode ffmpeg -i in.mp4 -vn -ac 1 -ar 16000 -f wav -y w.wav",
            "find w.wav",
            "read w.wav",
            "listen Scaled { samples: [1, 2], amplitude: 32767 } m.bin None 8 4",
            "remove w.wav",
            "finish en 0-1000 hello None",
        ]
    );
}

#[test]
fn transcriptions_with_speakers() {
    let bytes = wav(1, 32, hound::SampleFormat::Float, &[1]);
    assert_eq!(
        run(&job(true), &bytes, None)[3..],
        [
            "floats",
            "listen Float m.bin None 8 4",
            "diarize python3 d.py --input w.wav --output t.json --num-speakers 2",
            "turns t.json",
            "parse {}",
            "remove t.json",
            "remove w.wav",
            "finish en 0-1000 hello Some(\"B\")",
        ]
    );
}

#[test]
fn failed_actions_end_the_transcription() {
    let bytes = wav(1, 32, hound::SampleFormat::Float, &[1]);
    let expected = [
        "fail failed to run ffmpeg for whisper: cause",
        "fail ffmpeg did not produce wav output",
        "fail failed to open wav w.wav: cause",
        "fail wav sample error: cause",
        "fail whisper full() failed: cause",
        "fail failed to run pyannote script: cause",
        "fail failed to read pyannote output json: cause",
        "fail failed to parse pyannote output json: cause",
        "finish en 0-1000 hello Some(\"B\")",
        "finish en 0-1000 hello Some(\"B\")",
    ];
    for (i, message) in expected.iter().enumerate() {
        assert_eq!(run(&job(true), &bytes, Some(i)).last().unwrap(), message);
    }
    assert_eq!(
        run(&job(true), b"x", None).last().unwrap(),
        "fail failed to open wav w.wav: Failed to read enough bytes."
    );
}

#[test]
fn programs_that_fail_end_the_transcription() {
    let ran = |stderr: &str| WhisperOutcome::Ran {
        success: false,
        status: "exit status: 2".to_string(),
        stderr: stderr.to_string(),
    };
    let (_, action) = step_whisper(&job(true), WhisperStage::Decoding, ran("bad input"));
    assert_eq!(line(&action), "fail ffmpeg decode failed: bad input");
    let transcript = Transcript { language: String::new(), segments: Vec::new() };
    let (_, action) = step_whisper(&job(true), WhisperStage::Diarizing { transcript }, ran(""));
    assert_eq!(line(&action), "fail pyannote diarization failed: exit code exit status: 2");
    let floats = WhisperStage::ReadingFloats { broken: None };
    let (_, action) =
        step_whisper(&job(true), floats, WhisperOutcome::Floats(0));
    assert_eq!(line(&action), "fail wav has no samples");
    let (_, action) = use_audio(&job(true), Err("no".to_string()), None);
    assert_eq!(line(&action), "fail no");
}

#[test]
fn late_times_are_not_awaited() {
    let late = WhisperOutcome::Heard {
        segments: vec![heard(0, 1, ""), heard(0, i64::MAX, "")],
        detected: None,
    };
    assert!(!WhisperStage::Listening.awaits(&late));
    assert!(!WhisperStage::Listening.awaits(&WhisperOutcome::Done));
    assert!(!WhisperStage::Over.awaits(&WhisperOutcome::Done));
}

#[test]
fn a_reading_that_breaks_off_is_blamed_where_bytes_are_missing() {
    let whole = wav(1, 16, hound::SampleFormat::Int, &[1, 2, 3]);
    let broken = Some("disk error");
    assert_eq!(
        read_wav("a", &whole[..20], broken).unwrap_err(),
        "failed to open wav a: disk error"
    );
    assert_eq!(
        read_wav("a", &whole[..whole.len() - 1], broken).unwrap_err(),
        "wav sample error: disk error"
    );
    assert_eq!(
        read_wav("a", b"nonsense", broken).unwrap_err(),
        "failed to open wav a: Ill-formed WAVE file: no RIFF tag found"
    );
    assert!(matches!(
        read_wav("a", &whole, broken),
        Ok(WavAudio::Scaled { samples, .. }) if samples == [1, 2, 3]
    ));
    let long = wav(1, 24, hound::SampleFormat::Int, &[1, 2]);
    assert_eq!(
        read_wav("a", &long[..long.len() - 1], broken).unwrap_err(),
        "wav sample error: disk error"
    );
    assert_eq!(blame(true, "m".to_string(), Some("c")), "c");
    assert_eq!(blame(false, "m".to_string(), Some("c")), "m");
    assert_eq!(blame(true, "m".to_string(), None), "m");
}

#[test]
fn transcriptions_tell_what_broke_the_reading_off() {
    let whole = wav(1, 16, hound::SampleFormat::Int, &[1, 2]);
    let cut = |n: usize| WhisperOutcome::Broken {
        bytes: whole[..n].to_vec(),
        cause: "disk error".to_string(),
    };
    assert!(WhisperStage::Reading.awaits(&cut(0)));
    let (_, action) = step_whisper(&job(false), WhisperStage::Reading, cut(0));
    assert_eq!(line(&action), "fail failed to open wav w.wav: disk error");
    let (_, action) = step_whisper(&job(false), WhisperStage::Reading, cut(whole.len() - 2));
    assert_eq!(line(&action), "fail wav sample error: disk error");
    let (_, action) = step_whisper(&job(false), WhisperStage::Reading, cut(whole.len()));
    assert!(line(&action).starts_with("listen "));

    let floats = wav(1, 32, hound::SampleFormat::Float, &[1, 2]);
    let broken = WhisperOutcome::Broken {
        bytes: floats[..floats.len() - 1].to_vec(),
        cause: "disk error".to_string(),
    };
    let (stage, action) = step_whisper(&job(false), WhisperStage::Reading, broken);
    assert_eq!(line(&action), "floats");
    let unread = WhisperOutcome::Unread { ran_out: true, message: "short".to_string() };
    assert!(stage.awaits(&unread));
    let (_, action) = step_whisper(&job(false), stage, unread);
    assert_eq!(line(&action), "fail wav sample error: disk error");
}

//! One transcription by a Whisper model, as a machine: the input is decoded by ffmpeg, the model
//! hears it, pyannote says who speaks where that is enabled, and the parts become a transcript.

use vstd::prelude::*;
use crate::failure;
use crate::file_id;
use crate::file_id::FileId;
use crate::number;
use crate::ordering;
use crate::speakers;
use crate::speakers::DiarizationSegment;
use crate::text;
use crate::transcript;
use crate::transcript::Transcript;
use crate::transcript::TranscriptSegment;
use crate::wav;
use crate::wav::WavAudio;

verus! {

/// The program that decodes audio.
pub const FFMPEG: &'static str = "ffmpeg";

/// A segment as the model heard it, with its times in hundredths of a second.
#[derive(Debug, Clone)]
pub struct WhisperSegment {
    pub start: i64,
    pub end: i64,
    pub text: String,
}

/// A segment as heard, with its text as a sequence of characters.
#[verifier::ext_equal]
pub struct HeardView {
    pub start: i64,
    pub end: i64,
    pub text: Seq<char>,
}

impl View for WhisperSegment {
    type V = HeardView;

    open spec fn view(&self) -> HeardView {
        HeardView { start: self.start, end: self.end, text: self.text@ }
    }
}

/// The segments as heard, each by its view.
pub open spec fn heard_of(s: Seq<WhisperSegment>) -> Seq<HeardView> {
    Seq::new(s.len(), |i: int| s[i]@)
}

/// The latest time that fits into 64 bits as milliseconds.
pub const LATEST_TIME: i64 = 1_844_674_407_370_955_161;

/// Whether the times of a segment fit into 64 bits as milliseconds.
pub open spec fn times_fit(segment: HeardView) -> bool {
    segment.start <= LATEST_TIME && segment.end <= LATEST_TIME
}

/// Whether the times of all segments fit into 64 bits as milliseconds.
pub open spec fn all_times_fit(segments: Seq<HeardView>) -> bool {
    forall|i: int| 0 <= i < segments.len() ==> times_fit(#[trigger] segments[i])
}

impl WhisperSegment {
    /// Whether the times of the segment fit into 64 bits as milliseconds.
    pub fn fits(&self) -> (r: bool)
        ensures
            r == times_fit(self@),
    {
        self.start <= LATEST_TIME && self.end <= LATEST_TIME
    }
}

/// A time in milliseconds; one before the beginning counts as the beginning.
pub open spec fn milliseconds(time: i64) -> int {
    if time < 0 {
        0
    } else {
        time * 10
    }
}

/// Whether there is anything in a segment but white space.
pub open spec fn says_something(segment: HeardView) -> bool {
    text::trimmed(segment.text).len() > 0
}

/// The segment of a transcript for one that was heard.
pub open spec fn segment_of(segment: HeardView) -> transcript::SegmentView {
    transcript::SegmentView {
        start_ms: milliseconds(segment.start) as u64,
        end_ms: milliseconds(segment.end) as u64,
        text: text::trimmed(segment.text),
        speaker: None,
    }
}

/// The segments of a transcript for those that were heard, without those that say nothing.
pub open spec fn segments_heard(heard: Seq<HeardView>) -> Seq<transcript::SegmentView> {
    heard.filter(|segment: HeardView| says_something(segment)).map_values(
        |segment: HeardView| segment_of(segment),
    )
}

/// A time in milliseconds.
fn time_ms(time: i64) -> (r: u64)
    requires
        time <= LATEST_TIME,
    ensures
        r == milliseconds(time),
{
    if time < 0 {
        0
    } else {
        (time as u64) * 10
    }
}

/// The segments of a transcript for those that were heard, without those that say nothing.
pub fn collect_segments(heard: &Vec<WhisperSegment>) -> (r: Vec<TranscriptSegment>)
    requires
        all_times_fit(heard_of(heard@)),
    ensures
        transcript::segments_of(r@) == segments_heard(heard_of(heard@)),
{
    let ghost all = heard_of(heard@);
    let ghost wanted = |segment: HeardView| says_something(segment);
    let ghost shape = |segment: HeardView| segment_of(segment);
    let mut segments: Vec<TranscriptSegment> = Vec::new();
    let mut i: usize = 0;
    assert(transcript::segments_of(segments@) == all.take(0).filter(wanted).map_values(shape)) by {
        reveal(Seq::filter);
    }
    while i < heard.len()
        invariant
            i <= heard.len(),
            all == heard_of(heard@),
            wanted == (|segment: HeardView| says_something(segment)),
            shape == (|segment: HeardView| segment_of(segment)),
            all_times_fit(all),
            transcript::segments_of(segments@) == all.take(i as int).filter(wanted).map_values(
                shape,
            ),
        decreases heard.len() - i,
    {
        let ghost before = transcript::segments_of(segments@);
        let segment: &WhisperSegment = &heard[i];
        assert(times_fit(all[i as int]));
        let said: String = text::trim(segment.text.as_str());
        if said.as_str().unicode_len() > 0 {
            segments.push(
                TranscriptSegment {
                    start_ms: time_ms(segment.start),
                    end_ms: time_ms(segment.end),
                    text: said,
                    speaker: None,
                },
            );
            assert(transcript::segments_of(segments@) == before.push(segment_of(segment@)));
        }
        i = i + 1;
        proof {
            let kept = all.take(i - 1).filter(wanted);
            assert(all.take(i as int) == all.take(i - 1).push(all[i - 1]));
            all.take(i - 1).lemma_filter_push(all[i - 1], wanted);
            assert(kept.push(all[i - 1]).map_values(shape) =~= kept.map_values(shape).push(
                shape(all[i - 1]),
            ));
        }
    }
    assert(all.take(i as int) == all);
    segments
}

/// The language that the model is told to expect: the one asked for, unless that is blank or says
/// to find out.
pub open spec fn expected_language(language: Option<Seq<char>>) -> Option<Seq<char>> {
    match language {
        Some(l) => if text::trimmed(l).len() > 0 && l != "auto"@ {
            Some(l)
        } else {
            None
        },
        None => None,
    }
}

/// The language that the model is told to expect.
pub fn language_to_expect(language: Option<&str>) -> (r: Option<String>)
    ensures
        transcript::text_of(r) == expected_language(transcript::chars_of(language)),
{
    match language {
        Some(l) => {
            let trimmed: String = text::trim(l);
            if trimmed.as_str().unicode_len() > 0 && !text::same_text(l, "auto") {
                Some(l.to_string())
            } else {
                None
            }
        },
        None => None,
    }
}

/// The language of a transcript: the one that was expected, else the one that was found out.
pub open spec fn final_language(
    language: Option<Seq<char>>,
    detected: Option<Seq<char>>,
) -> Seq<char> {
    match (expected_language(language), detected) {
        (Some(l), _) => l,
        (None, Some(d)) => d,
        (None, None) => "unknown"@,
    }
}

/// The language of a transcript.
pub fn language_of_transcript(language: Option<&str>, detected: Option<String>) -> (r: String)
    ensures
        r@ == final_language(transcript::chars_of(language), transcript::text_of(detected)),
{
    match language_to_expect(language) {
        Some(l) => l,
        None => match detected {
            Some(d) => d,
            None => "unknown".to_string(),
        },
    }
}

/// The integer that a setting holds, or the default where it is not set or holds none.
pub open spec fn integer_setting(value: Option<Seq<char>>, default: i32) -> int {
    match value {
        Some(s) => match number::within(
            number::signed_number(s),
            i32::MIN as int,
            i32::MAX as int,
        ) {
            Some(n) => n,
            None => default as int,
        },
        None => default as int,
    }
}

/// The integer that a setting holds, or the default where it is not set or holds none.
pub fn env_i32(value: Option<&str>, default: i32) -> (r: i32)
    ensures
        r == integer_setting(transcript::chars_of(value), default),
{
    match value {
        Some(s) => match number::parse_i32(s) {
            Some(n) => n,
            None => default,
        },
        None => default,
    }
}

/// A number, but at least one.
pub open spec fn at_least_one(n: int) -> int {
    if n < 1 {
        1
    } else {
        n
    }
}

/// How many candidates the model weighs: what the setting says, or 8, and at least one.
pub fn greedy_best_of(value: Option<&str>) -> (r: i32)
    ensures
        r == at_least_one(integer_setting(transcript::chars_of(value), 8)),
{
    let n: i32 = env_i32(value, 8);
    if n < 1 {
        1
    } else {
        n
    }
}

/// On how many threads the model runs: what the setting says, or 4, and at least one.
pub fn thread_count(value: Option<&str>) -> (r: i32)
    ensures
        r == at_least_one(integer_setting(transcript::chars_of(value), 4)),
{
    let n: i32 = env_i32(value, 4);
    if n < 1 {
        1
    } else {
        n
    }
}

/// The name of a file for decoded audio.
pub open spec fn wav_name(id: FileId) -> Seq<char> {
    "subtitle_whisper_"@ + file_id::uuid_text(id.value) + ".wav"@
}

/// The name of a file for what pyannote writes.
pub open spec fn turns_name(id: FileId) -> Seq<char> {
    "pyannote_"@ + file_id::uuid_text(id.value) + ".json"@
}

/// The name of the file for decoded audio under an identifier.
pub fn wav_file_name_for(id: FileId) -> (r: String)
    ensures
        r@ == wav_name(id),
{
    let mut out: String = "subtitle_whisper_".to_string();
    out.append(id.text().as_str());
    out.append(".wav");
    out
}

/// The name of the file for what pyannote writes under an identifier.
pub fn turns_file_name_for(id: FileId) -> (r: String)
    ensures
        r@ == turns_name(id),
{
    let mut out: String = "pyannote_".to_string();
    out.append(id.text().as_str());
    out.append(".json");
    out
}

/// The name of a new file for decoded audio.
pub fn new_wav_file_name() -> (r: String)
    ensures
        exists|id: FileId| file_id::is_version_4(id.value) && r@ == #[trigger] wav_name(id),
{
    let id: FileId = FileId::random();
    wav_file_name_for(id)
}

/// The name of a new file for what pyannote writes.
pub fn new_turns_file_name() -> (r: String)
    ensures
        exists|id: FileId| file_id::is_version_4(id.value) && r@ == #[trigger] turns_name(id),
{
    let id: FileId = FileId::random();
    turns_file_name_for(id)
}

/// The arguments with which ffmpeg decodes a file to one channel at 16 kHz.
pub open spec fn decoding_args(input: Seq<char>, output: Seq<char>) -> Seq<Seq<char>> {
    seq![
        "-i"@,
        input,
        "-vn"@,
        "-ac"@,
        "1"@,
        "-ar"@,
        "16000"@,
        "-f"@,
        "wav"@,
        "-y"@,
        output,
    ]
}

/// The arguments with which ffmpeg decodes a file to one channel at 16 kHz.
pub fn ffmpeg_args(input: &str, output: &str) -> (r: Vec<String>)
    ensures
        ordering::texts_of(r@) == decoding_args(input@, output@),
{
    let mut args: Vec<String> = Vec::new();
    args.push("-i".to_string());
    args.push(input.to_string());
    args.push("-vn".to_string());
    args.push("-ac".to_string());
    args.push("1".to_string());
    args.push("-ar".to_string());
    args.push("16000".to_string());
    args.push("-f".to_string());
    args.push("wav".to_string());
    args.push("-y".to_string());
    args.push(output.to_string());
    args
}

/// The arguments of the script that finds the turns of the speakers: the script, the input and
/// the output, then the token and the number of speakers where they are known.
pub open spec fn diarization_args(
    script: Seq<char>,
    input: Seq<char>,
    output: Seq<char>,
    hf_token: Option<Seq<char>>,
    num_speakers: Option<u32>,
) -> Seq<Seq<char>> {
    seq![script, "--input"@, input, "--output"@, output] + (match hf_token {
        Some(token) => seq!["--hf-token"@, token],
        None => Seq::empty(),
    }) + (match num_speakers {
        Some(n) => seq!["--num-speakers"@, number::decimal(n as nat)],
        None => Seq::empty(),
    })
}

/// The arguments of the script that finds the turns of the speakers.
pub fn pyannote_args(
    script: &str,
    input: &str,
    output: &str,
    hf_token: Option<&str>,
    num_speakers: Option<u32>,
) -> (r: Vec<String>)
    ensures
        ordering::texts_of(r@) == diarization_args(
            script@,
            input@,
            output@,
            transcript::chars_of(hf_token),
            num_speakers,
        ),
{
    let mut args: Vec<String> = Vec::new();
    args.push(script.to_string());
    args.push("--input".to_string());
    args.push(input.to_string());
    args.push("--output".to_string());
    args.push(output.to_string());
    if let Some(token) = hf_token {
        args.push("--hf-token".to_string());
        args.push(token.to_string());
    }
    if let Some(n) = num_speakers {
        args.push("--num-speakers".to_string());
        args.push(number::decimal_text(n as u64).as_str().to_string());
    }
    args
}

/// What a program that failed said, or how it ended where it said nothing.
pub open spec fn failure_detail(stderr: Seq<char>, status: Seq<char>) -> Seq<char> {
    let said = text::trimmed(stderr);
    if said.len() == 0 {
        "exit code "@ + status
    } else {
        said
    }
}

/// The text for a program that failed.
pub fn program_failure(context: &str, stderr: &str, status: &str) -> (r: String)
    ensures
        r@ == failure::with_cause(context@, failure_detail(stderr@, status@)),
{
    let said: String = text::trim(stderr);
    if said.as_str().unicode_len() == 0 {
        let mut detail: String = "exit code ".to_string();
        detail.append(status);
        failure::describe_failure(context, detail.as_str())
    } else {
        failure::describe_failure(context, said.as_str())
    }
}

/// What the model was asked to do when it failed.
#[derive(Debug, Clone, Copy)]
pub enum WhisperStep {
    Context,
    State,
    Full,
    Segment,
}

/// What failed where the model did.
pub open spec fn model_context(at: WhisperStep) -> Seq<char> {
    match at {
        WhisperStep::Context => "whisper context init failed"@,
        WhisperStep::State => "whisper state init failed"@,
        WhisperStep::Full => "whisper full() failed"@,
        WhisperStep::Segment => "segment decode failed"@,
    }
}

/// The text for a model that failed.
pub fn model_failure(at: WhisperStep, cause: &str) -> (r: String)
    ensures
        r@ == failure::with_cause(model_context(at), cause@),
{
    match at {
        WhisperStep::Context => failure::describe_failure("whisper context init failed", cause),
        WhisperStep::State => failure::describe_failure("whisper state init failed", cause),
        WhisperStep::Full => failure::describe_failure("whisper full() failed", cause),
        WhisperStep::Segment => failure::describe_failure("segment decode failed", cause),
    }
}

/// What is to be transcribed and how.
#[derive(Debug, Clone)]
pub struct WhisperJob {
    pub model_path: String,
    pub input_path: String,
    pub wav_path: String,
    pub turns_path: String,
    pub language: Option<String>,
    pub num_speakers: Option<u32>,
    pub best_of: i32,
    pub threads: i32,
    pub pyannote_enabled: bool,
    pub pyannote_python_bin: String,
    pub pyannote_script_path: String,
    pub pyannote_hf_token: Option<String>,
}

/// An action that the transcription waits for.
pub enum WhisperAction {
    Decode { program: String, args: Vec<String> },
    FindWav { path: String },
    ReadWav { path: String },
    ReadFloats,
    Listen {
        audio: WavAudio,
        model_path: String,
        language: Option<String>,
        best_of: i32,
        threads: i32,
    },
    Diarize { program: String, args: Vec<String> },
    ReadTurns { path: String },
    ParseTurns { text: String },
    RemoveTurns { path: String },
    RemoveWav { path: String },
    Finish(Transcript),
    Fail(String),
}

/// What became of an action.
pub enum WhisperOutcome {
    Ran { success: bool, status: String, stderr: String },
    Found(bool),
    Bytes(Vec<u8>),
    Broken { bytes: Vec<u8>, cause: String },
    Floats(usize),
    Unread { ran_out: bool, message: String },
    Heard { segments: Vec<WhisperSegment>, detected: Option<String> },
    Unheard { at: WhisperStep, cause: String },
    Text(String),
    Turns(Vec<DiarizationSegment>),
    Done,
    Failed(String),
}

/// How far a transcription has come.
pub enum WhisperStage {
    Decoding,
    Finding,
    Reading,
    ReadingFloats { broken: Option<String> },
    Listening,
    Diarizing { transcript: Transcript },
    ReadingTurns { transcript: Transcript },
    ParsingTurns { transcript: Transcript },
    RemovingTurns { transcript: Transcript },
    RemovingWav { transcript: Transcript },
    Over,
}

#[verifier::ext_equal]
pub struct WhisperJobView {
    pub model_path: Seq<char>,
    pub input_path: Seq<char>,
    pub wav_path: Seq<char>,
    pub turns_path: Seq<char>,
    pub language: Option<Seq<char>>,
    pub num_speakers: Option<u32>,
    pub best_of: i32,
    pub threads: i32,
    pub pyannote_enabled: bool,
    pub pyannote_python_bin: Seq<char>,
    pub pyannote_script_path: Seq<char>,
    pub pyannote_hf_token: Option<Seq<char>>,
}

#[verifier::ext_equal]
pub enum WhisperActionView {
    Decode { program: Seq<char>, args: Seq<Seq<char>> },
    FindWav { path: Seq<char> },
    ReadWav { path: Seq<char> },
    ReadFloats,
    Listen {
        audio: wav::AudioView,
        model_path: Seq<char>,
        language: Option<Seq<char>>,
        best_of: i32,
        threads: i32,
    },
    Diarize { program: Seq<char>, args: Seq<Seq<char>> },
    ReadTurns { path: Seq<char> },
    ParseTurns { text: Seq<char> },
    RemoveTurns { path: Seq<char> },
    RemoveWav { path: Seq<char> },
    Finish(transcript::TranscriptView),
    Fail(Seq<char>),
}

#[verifier::ext_equal]
pub enum WhisperOutcomeView {
    Ran { success: bool, status: Seq<char>, stderr: Seq<char> },
    Found(bool),
    Bytes(Seq<u8>),
    Broken { bytes: Seq<u8>, cause: Seq<char> },
    Floats(usize),
    Unread { ran_out: bool, message: Seq<char> },
    Heard { segments: Seq<HeardView>, detected: Option<Seq<char>> },
    Unheard { at: WhisperStep, cause: Seq<char> },
    Text(Seq<char>),
    Turns(Seq<speakers::TurnView>),
    Done,
    Failed(Seq<char>),
}

#[verifier::ext_equal]
pub enum WhisperStageView {
    Decoding,
    Finding,
    Reading,
    ReadingFloats { broken: Option<Seq<char>> },
    Listening,
    Diarizing { transcript: transcript::TranscriptView },
    ReadingTurns { transcript: transcript::TranscriptView },
    ParsingTurns { transcript: transcript::TranscriptView },
    RemovingTurns { transcript: transcript::TranscriptView },
    RemovingWav { transcript: transcript::TranscriptView },
    Over,
}

impl View for WhisperJob {
    type V = WhisperJobView;

    open spec fn view(&self) -> WhisperJobView {
        WhisperJobView {
            model_path: self.model_path@,
            input_path: self.input_path@,
            wav_path: self.wav_path@,
            turns_path: self.turns_path@,
            language: transcript::text_of(self.language),
            num_speakers: self.num_speakers,
            best_of: self.best_of,
            threads: self.threads,
            pyannote_enabled: self.pyannote_enabled,
            pyannote_python_bin: self.pyannote_python_bin@,
            pyannote_script_path: self.pyannote_script_path@,
            pyannote_hf_token: transcript::text_of(self.pyannote_hf_token),
        }
    }
}

impl View for WhisperAction {
    type V = WhisperActionView;

    open spec fn view(&self) -> WhisperActionView {
        match self {
            WhisperAction::Decode { program, args } => WhisperActionView::Decode {
                program: program@,
                args: ordering::texts_of(args@),
            },
            WhisperAction::FindWav { path } => WhisperActionView::FindWav { path: path@ },
            WhisperAction::ReadWav { path } => WhisperActionView::ReadWav { path: path@ },
            WhisperAction::ReadFloats => WhisperActionView::ReadFloats,
            WhisperAction::Listen { audio, model_path, language, best_of, threads } => {
                WhisperActionView::Listen {
                    audio: audio@,
                    model_path: model_path@,
                    language: transcript::text_of(*language),
                    best_of: *best_of,
                    threads: *threads,
                }
            },
            WhisperAction::Diarize { program, args } => WhisperActionView::Diarize {
                program: program@,
                args: ordering::texts_of(args@),
            },
            WhisperAction::ReadTurns { path } => WhisperActionView::ReadTurns { path: path@ },
            WhisperAction::ParseTurns { text } => WhisperActionView::ParseTurns { text: text@ },
            WhisperAction::RemoveTurns { path } => WhisperActionView::RemoveTurns { path: path@ },
            WhisperAction::RemoveWav { path } => WhisperActionView::RemoveWav { path: path@ },
            WhisperAction::Finish(transcript) => WhisperActionView::Finish(transcript@),
            WhisperAction::Fail(message) => WhisperActionView::Fail(message@),
        }
    }
}

impl View for WhisperOutcome {
    type V = WhisperOutcomeView;

    open spec fn view(&self) -> WhisperOutcomeView {
        match self {
            WhisperOutcome::Ran { success, status, stderr } => WhisperOutcomeView::Ran {
                success: *success,
                status: status@,
                stderr: stderr@,
            },
            WhisperOutcome::Found(found) => WhisperOutcomeView::Found(*found),
            WhisperOutcome::Bytes(bytes) => WhisperOutcomeView::Bytes(bytes@),
            WhisperOutcome::Broken { bytes, cause } => WhisperOutcomeView::Broken {
                bytes: bytes@,
                cause: cause@,
            },
            WhisperOutcome::Floats(count) => WhisperOutcomeView::Floats(*count),
            WhisperOutcome::Unread { ran_out, message } => WhisperOutcomeView::Unread {
                ran_out: *ran_out,
                message: message@,
            },
            WhisperOutcome::Heard { segments, detected } => WhisperOutcomeView::Heard {
                segments: heard_of(segments@),
                detected: transcript::text_of(*detected),
            },
            WhisperOutcome::Unheard { at, cause } => WhisperOutcomeView::Unheard {
                at: *at,
                cause: cause@,
            },
            WhisperOutcome::Text(text) => WhisperOutcomeView::Text(text@),
            WhisperOutcome::Turns(turns) => WhisperOutcomeView::Turns(
                speakers::turns_of(turns@),
            ),
            WhisperOutcome::Done => WhisperOutcomeView::Done,
            WhisperOutcome::Failed(cause) => WhisperOutcomeView::Failed(cause@),
        }
    }
}

impl View for WhisperStage {
    type V = WhisperStageView;

    open spec fn view(&self) -> WhisperStageView {
        match self {
            WhisperStage::Decoding => WhisperStageView::Decoding,
            WhisperStage::Finding => WhisperStageView::Finding,
            WhisperStage::Reading => WhisperStageView::Reading,
            WhisperStage::ReadingFloats { broken } => WhisperStageView::ReadingFloats {
                broken: transcript::text_of(*broken),
            },
            WhisperStage::Listening => WhisperStageView::Listening,
            WhisperStage::Diarizing { transcript } => WhisperStageView::Diarizing {
                transcript: transcript@,
            },
            WhisperStage::ReadingTurns { transcript } => WhisperStageView::ReadingTurns {
                transcript: transcript@,
            },
            WhisperStage::ParsingTurns { transcript } => WhisperStageView::ParsingTurns {
                transcript: transcript@,
            },
            WhisperStage::RemovingTurns { transcript } => WhisperStageView::RemovingTurns {
                transcript: transcript@,
            },
            WhisperStage::RemovingWav { transcript } => WhisperStageView::RemovingWav {
                transcript: transcript@,
            },
            WhisperStage::Over => WhisperStageView::Over,
        }
    }
}

/// Whether an outcome is one that the stage waits for.
pub open spec fn whisper_accepts(stage: WhisperStageView, outcome: WhisperOutcomeView) -> bool {
    match stage {
        WhisperStageView::Decoding
        | WhisperStageView::Diarizing { .. } => outcome is Ran || outcome is Failed,
        WhisperStageView::Finding => outcome is Found,
        WhisperStageView::Reading => outcome is Bytes || outcome is Broken || outcome is Failed,
        WhisperStageView::ReadingFloats { .. } => outcome is Floats || outcome is Unread,
        WhisperStageView::Listening => match outcome {
            WhisperOutcomeView::Unheard { .. } => true,
            WhisperOutcomeView::Heard { segments, .. } => all_times_fit(segments),
            _ => false,
        },
        WhisperStageView::ReadingTurns { .. } => outcome is Text || outcome is Failed,
        WhisperStageView::ParsingTurns { .. } => outcome is Turns || outcome is Failed,
        WhisperStageView::RemovingTurns { .. }
        | WhisperStageView::RemovingWav { .. } => outcome is Done || outcome is Failed,
        WhisperStageView::Over => false,
    }
}

/// How a transcription ends that fails.
pub open spec fn failed(message: Seq<char>) -> (WhisperStageView, WhisperActionView) {
    (WhisperStageView::Over, WhisperActionView::Fail(message))
}

/// What the model is given to hear.
pub open spec fn listen(job: WhisperJobView, audio: wav::AudioView) -> (
    WhisperStageView,
    WhisperActionView,
) {
    (
        WhisperStageView::Listening,
        WhisperActionView::Listen {
            audio,
            model_path: job.model_path,
            language: expected_language(job.language),
            best_of: job.best_of,
            threads: job.threads,
        },
    )
}

/// What follows once the decoded audio is there, or as much of it as could be read before the
/// reading broke off.
pub open spec fn after_audio(
    job: WhisperJobView,
    audio: Result<wav::AudioView, Seq<char>>,
    broken: Option<Seq<char>>,
) -> (WhisperStageView, WhisperActionView) {
    match audio {
        Err(message) => failed(message),
        Ok(wav::AudioView::Float) => (
            WhisperStageView::ReadingFloats { broken },
            WhisperActionView::ReadFloats,
        ),
        Ok(audio) => listen(job, audio),
    }
}

/// What follows once the transcript is complete: the decoded audio is removed.
pub open spec fn remove_wav(job: WhisperJobView, transcript: transcript::TranscriptView) -> (
    WhisperStageView,
    WhisperActionView,
) {
    (
        WhisperStageView::RemovingWav { transcript },
        WhisperActionView::RemoveWav { path: job.wav_path },
    )
}

/// What follows once the model has heard the audio: the speakers are found where that is enabled.
pub open spec fn after_listening(
    job: WhisperJobView,
    heard: Seq<HeardView>,
    detected: Option<Seq<char>>,
) -> (WhisperStageView, WhisperActionView) {
    let transcript = transcript::TranscriptView {
        language: final_language(job.language, detected),
        segments: segments_heard(heard),
    };
    if job.pyannote_enabled {
        (
            WhisperStageView::Diarizing { transcript },
            WhisperActionView::Diarize {
                program: job.pyannote_python_bin,
                args: diarization_args(
                    job.pyannote_script_path,
                    job.wav_path,
                    job.turns_path,
                    job.pyannote_hf_token,
                    job.num_speakers,
                ),
            },
        )
    } else {
        remove_wav(job, transcript)
    }
}

/// What follows once the file with the decoded audio has been read, or as much of it as could be.
pub open spec fn after_reading(
    job: WhisperJobView,
    bytes: Seq<u8>,
    broken: Option<Seq<char>>,
) -> (WhisperStageView, WhisperActionView) {
    after_audio(
        job,
        wav::audio_of(
            job.wav_path,
            wav::wav_header(bytes),
            wav::short_samples(bytes),
            wav::long_samples(bytes),
            broken,
        ),
        broken,
    )
}

/// How a transcription begins.
pub open spec fn whisper_first(job: WhisperJobView) -> (WhisperStageView, WhisperActionView) {
    (
        WhisperStageView::Decoding,
        WhisperActionView::Decode {
            program: FFMPEG@,
            args: decoding_args(job.input_path, job.wav_path),
        },
    )
}

/// How a transcription goes on.
pub open spec fn whisper_next(
    job: WhisperJobView,
    stage: WhisperStageView,
    outcome: WhisperOutcomeView,
) -> (WhisperStageView, WhisperActionView) {
    match (stage, outcome) {
        (WhisperStageView::Decoding, WhisperOutcomeView::Failed(cause)) => failed(
            failure::with_cause("failed to run ffmpeg for whisper"@, cause),
        ),
        (WhisperStageView::Decoding, WhisperOutcomeView::Ran { success, status, stderr }) => {
            if success {
                (WhisperStageView::Finding, WhisperActionView::FindWav { path: job.wav_path })
            } else {
                failed(
                    failure::with_cause("ffmpeg decode failed"@, failure_detail(stderr, status)),
                )
            }
        },
        (WhisperStageView::Finding, WhisperOutcomeView::Found(found)) => if found {
            (WhisperStageView::Reading, WhisperActionView::ReadWav { path: job.wav_path })
        } else {
            failed("ffmpeg did not produce wav output"@)
        },
        (WhisperStageView::Reading, WhisperOutcomeView::Failed(cause)) => failed(
            wav::open_message(job.wav_path, cause),
        ),
        (WhisperStageView::Reading, WhisperOutcomeView::Bytes(bytes)) => after_reading(
            job,
            bytes,
            None,
        ),
        (WhisperStageView::Reading, WhisperOutcomeView::Broken { bytes, cause }) => after_reading(
            job,
            bytes,
            Some(cause),
        ),
        (
            WhisperStageView::ReadingFloats { broken },
            WhisperOutcomeView::Unread { ran_out, message },
        ) => failed(
            failure::with_cause("wav sample error"@, wav::blamed((ran_out, message), broken)),
        ),
        (WhisperStageView::ReadingFloats { .. }, WhisperOutcomeView::Floats(count)) => {
            if count == 0 {
                failed("wav has no samples"@)
            } else {
                listen(job, wav::AudioView::Float)
            }
        },
        (WhisperStageView::Listening, WhisperOutcomeView::Unheard { at, cause }) => failed(
            failure::with_cause(model_context(at), cause),
        ),
        (WhisperStageView::Listening, WhisperOutcomeView::Heard { segments, detected }) => {
            after_listening(job, segments, detected)
        },
        (WhisperStageView::Diarizing { .. }, WhisperOutcomeView::Failed(cause)) => failed(
            failure::with_cause("failed to run pyannote script"@, cause),
        ),
        (
            WhisperStageView::Diarizing { transcript },
            WhisperOutcomeView::Ran { success, status, stderr },
        ) => if success {
            (
                WhisperStageView::ReadingTurns { transcript },
                WhisperActionView::ReadTurns { path: job.turns_path },
            )
        } else {
            failed(
                failure::with_cause("pyannote diarization failed"@, failure_detail(stderr, status)),
            )
        },
        (WhisperStageView::ReadingTurns { .. }, WhisperOutcomeView::Failed(cause)) => failed(
            failure::with_cause("failed to read pyannote output json"@, cause),
        ),
        (WhisperStageView::ReadingTurns { transcript }, WhisperOutcomeView::Text(text)) => (
            WhisperStageView::ParsingTurns { transcript },
            WhisperActionView::ParseTurns { text },
        ),
        (WhisperStageView::ParsingTurns { .. }, WhisperOutcomeView::Failed(cause)) => failed(
            failure::with_cause("failed to parse pyannote output json"@, cause),
        ),
        (WhisperStageView::ParsingTurns { transcript }, WhisperOutcomeView::Turns(turns)) => (
            WhisperStageView::RemovingTurns {
                transcript: transcript::TranscriptView {
                    language: transcript.language,
                    segments: speakers::with_speakers(transcript.segments, turns),
                },
            },
            WhisperActionView::RemoveTurns { path: job.turns_path },
        ),
        (WhisperStageView::RemovingTurns { transcript }, _) => remove_wav(job, transcript),
        (WhisperStageView::RemovingWav { transcript }, _) => (
            WhisperStageView::Over,
            WhisperActionView::Finish(transcript),
        ),
        _ => failed(Seq::empty()),
    }
}

/// Whether the times of all segments fit into 64 bits as milliseconds.
fn all_fit(segments: &Vec<WhisperSegment>) -> (r: bool)
    ensures
        r == all_times_fit(heard_of(segments@)),
{
    let mut i: usize = 0;
    while i < segments.len()
        invariant
            i <= segments.len(),
            forall|k: int| 0 <= k < i ==> times_fit(#[trigger] heard_of(segments@)[k]),
        decreases segments.len() - i,
    {
        if !segments[i].fits() {
            assert(!times_fit(heard_of(segments@)[i as int]));
            return false;
        }
        i = i + 1;
    }
    true
}

impl WhisperStage {
    /// Whether `outcome` is one that the stage waits for.
    pub fn awaits(&self, outcome: &WhisperOutcome) -> (r: bool)
        ensures
            r == whisper_accepts(self@, outcome@),
    {
        match self {
            WhisperStage::Decoding | WhisperStage::Diarizing { .. } => matches!(
                outcome,
                WhisperOutcome::Ran { .. } | WhisperOutcome::Failed(_)
            ),
            WhisperStage::Finding => matches!(outcome, WhisperOutcome::Found(_)),
            WhisperStage::Reading => matches!(
                outcome,
                WhisperOutcome::Bytes(_)
                | WhisperOutcome::Broken { .. }
                | WhisperOutcome::Failed(_)
            ),
            WhisperStage::ReadingFloats { .. } => matches!(
                outcome,
                WhisperOutcome::Floats(_) | WhisperOutcome::Unread { .. }
            ),
            WhisperStage::Listening => match outcome {
                WhisperOutcome::Unheard { .. } => true,
                WhisperOutcome::Heard { segments, .. } => all_fit(segments),
                _ => false,
            },
            WhisperStage::ReadingTurns { .. } => matches!(
                outcome,
                WhisperOutcome::Text(_) | WhisperOutcome::Failed(_)
            ),
            WhisperStage::ParsingTurns { .. } => matches!(
                outcome,
                WhisperOutcome::Turns(_) | WhisperOutcome::Failed(_)
            ),
            WhisperStage::RemovingTurns { .. } | WhisperStage::RemovingWav { .. } => matches!(
                outcome,
                WhisperOutcome::Done | WhisperOutcome::Failed(_)
            ),
            WhisperStage::Over => false,
        }
    }
}

/// Ends a transcription that failed.
fn fail(message: String) -> (r: (WhisperStage, WhisperAction))
    ensures
        (r.0@, r.1@) == failed(message@),
{
    (WhisperStage::Over, WhisperAction::Fail(message))
}

/// A borrowed string that may be absent.
fn borrowed(s: &Option<String>) -> (r: Option<&str>)
    ensures
        transcript::chars_of(r) == transcript::text_of(*s),
{
    match s {
        Some(t) => Some(t.as_str()),
        None => None,
    }
}

/// Lets the model hear the audio.
fn start_listening(job: &WhisperJob, audio: WavAudio) -> (r: (WhisperStage, WhisperAction))
    ensures
        (r.0@, r.1@) == listen(job@, audio@),
{
    (
        WhisperStage::Listening,
        WhisperAction::Listen {
            audio,
            model_path: job.model_path.clone(),
            language: language_to_expect(borrowed(&job.language)),
            best_of: job.best_of,
            threads: job.threads,
        },
    )
}

/// Goes on with the decoded audio, or ends where it cannot be read; `broken` says what broke the
/// reading of the file off, if anything did.
pub fn use_audio(
    job: &WhisperJob,
    audio: Result<WavAudio, String>,
    broken: Option<String>,
) -> (r: (WhisperStage, WhisperAction))
    ensures
        (r.0@, r.1@) == after_audio(
            job@,
            wav::audio_result(audio),
            transcript::text_of(broken),
        ),
{
    match audio {
        Err(message) => fail(message),
        Ok(WavAudio::Float) => (
            WhisperStage::ReadingFloats { broken },
            WhisperAction::ReadFloats,
        ),
        Ok(audio) => start_listening(job, audio),
    }
}

/// Goes on with as much of the file with the decoded audio as could be read.
fn use_file(job: &WhisperJob, bytes: &Vec<u8>, broken: Option<String>) -> (r: (
    WhisperStage,
    WhisperAction,
))
    ensures
        (r.0@, r.1@) == after_reading(job@, bytes@, transcript::text_of(broken)),
{
    let audio: Result<WavAudio, String> = wav::read_wav(
        job.wav_path.as_str(),
        bytes.as_slice(),
        borrowed(&broken),
    );
    use_audio(job, audio, broken)
}

/// Removes the decoded audio.
fn clean_up(job: &WhisperJob, transcript: Transcript) -> (r: (WhisperStage, WhisperAction))
    ensures
        (r.0@, r.1@) == remove_wav(job@, transcript@),
{
    (
        WhisperStage::RemovingWav { transcript },
        WhisperAction::RemoveWav { path: job.wav_path.clone() },
    )
}

/// Makes a transcript of what the model heard, and finds the speakers where that is enabled.
fn use_heard(job: &WhisperJob, segments: &Vec<WhisperSegment>, detected: Option<String>) -> (r: (
    WhisperStage,
    WhisperAction,
))
    requires
        all_times_fit(heard_of(segments@)),
    ensures
        (r.0@, r.1@) == after_listening(
            job@,
            heard_of(segments@),
            transcript::text_of(detected),
        ),
{
    let transcript: Transcript = Transcript {
        language: language_of_transcript(borrowed(&job.language), detected),
        segments: collect_segments(segments),
    };
    if job.pyannote_enabled {
        let args: Vec<String> = pyannote_args(
            job.pyannote_script_path.as_str(),
            job.wav_path.as_str(),
            job.turns_path.as_str(),
            borrowed(&job.pyannote_hf_token),
            job.num_speakers,
        );
        (
            WhisperStage::Diarizing { transcript },
            WhisperAction::Diarize { program: job.pyannote_python_bin.clone(), args },
        )
    } else {
        clean_up(job, transcript)
    }
}

/// Begins a transcription.
pub fn start_whisper(job: &WhisperJob) -> (r: (WhisperStage, WhisperAction))
    ensures
        (r.0@, r.1@) == whisper_first(job@),
{
    (
        WhisperStage::Decoding,
        WhisperAction::Decode {
            program: FFMPEG.to_string(),
            args: ffmpeg_args(job.input_path.as_str(), job.wav_path.as_str()),
        },
    )
}

/// Goes on with a transcription, given what became of its last action.
pub fn step_whisper(job: &WhisperJob, stage: WhisperStage, outcome: WhisperOutcome) -> (r: (
    WhisperStage,
    WhisperAction,
))
    requires
        whisper_accepts(stage@, outcome@),
    ensures
        (r.0@, r.1@) == whisper_next(job@, stage@, outcome@),
{
    match (stage, outcome) {
        (WhisperStage::Decoding, WhisperOutcome::Failed(cause)) => fail(
            failure::describe_failure("failed to run ffmpeg for whisper", cause.as_str()),
        ),
        (WhisperStage::Decoding, WhisperOutcome::Ran { success, status, stderr }) => if success {
            (WhisperStage::Finding, WhisperAction::FindWav { path: job.wav_path.clone() })
        } else {
            fail(program_failure("ffmpeg decode failed", stderr.as_str(), status.as_str()))
        },
        (WhisperStage::Finding, WhisperOutcome::Found(found)) => if found {
            (WhisperStage::Reading, WhisperAction::ReadWav { path: job.wav_path.clone() })
        } else {
            fail("ffmpeg did not produce wav output".to_string())
        },
        (WhisperStage::Reading, WhisperOutcome::Failed(cause)) => fail(
            wav::open_failure(job.wav_path.as_str(), cause.as_str()),
        ),
        (WhisperStage::Reading, WhisperOutcome::Bytes(bytes)) => use_file(job, &bytes, None),
        (WhisperStage::Reading, WhisperOutcome::Broken { bytes, cause }) => use_file(
            job,
            &bytes,
            Some(cause),
        ),
        (
            WhisperStage::ReadingFloats { broken },
            WhisperOutcome::Unread { ran_out, message },
        ) => fail(
            wav::sample_failure(wav::blame(ran_out, message, borrowed(&broken)).as_str()),
        ),
        (WhisperStage::ReadingFloats { .. }, WhisperOutcome::Floats(count)) => {
            match wav::require_samples(count) {
                Ok(()) => start_listening(job, WavAudio::Float),
                Err(message) => fail(message),
            }
        },
        (WhisperStage::Listening, WhisperOutcome::Unheard { at, cause }) => fail(
            model_failure(at, cause.as_str()),
        ),
        (WhisperStage::Listening, WhisperOutcome::Heard { segments, detected }) => {
            use_heard(job, &segments, detected)
        },
        (WhisperStage::Diarizing { .. }, WhisperOutcome::Failed(cause)) => fail(
            failure::describe_failure("failed to run pyannote script", cause.as_str()),
        ),
        (
            WhisperStage::Diarizing { transcript },
            WhisperOutcome::Ran { success, status, stderr },
        ) => if success {
            (
                WhisperStage::ReadingTurns { transcript },
                WhisperAction::ReadTurns { path: job.turns_path.clone() },
            )
        } else {
            fail(program_failure("pyannote diarization failed", stderr.as_str(), status.as_str()))
        },
        (WhisperStage::ReadingTurns { .. }, WhisperOutcome::Failed(cause)) => fail(
            failure::describe_failure("failed to read pyannote output json", cause.as_str()),
        ),
        (WhisperStage::ReadingTurns { transcript }, WhisperOutcome::Text(text)) => (
            WhisperStage::ParsingTurns { transcript },
            WhisperAction::ParseTurns { text },
        ),
        (WhisperStage::ParsingTurns { .. }, WhisperOutcome::Failed(cause)) => fail(
            failure::describe_failure("failed to parse pyannote output json", cause.as_str()),
        ),
        (WhisperStage::ParsingTurns { transcript }, WhisperOutcome::Turns(turns)) => {
            let mut segments: Vec<TranscriptSegment> = transcript.segments;
            speakers::assign_speakers(segments.as_mut_slice(), turns.as_slice());
            (
                WhisperStage::RemovingTurns {
                    transcript: Transcript { language: transcript.language, segments },
                },
                WhisperAction::RemoveTurns { path: job.turns_path.clone() },
            )
        },
        (WhisperStage::RemovingTurns { transcript }, _) => clean_up(job, transcript),
        (WhisperStage::RemovingWav { transcript }, _) => (
            WhisperStage::Over,
            WhisperAction::Finish(transcript),
        ),
        _ => fail(String::new()),
    }
}

/// The order of the stages.
pub open spec fn whisper_phase(stage: WhisperStageView) -> int {
    match stage {
        WhisperStageView::Decoding => 0,
        WhisperStageView::Finding => 1,
        WhisperStageView::Reading => 2,
        WhisperStageView::ReadingFloats { .. } => 3,
        WhisperStageView::Listening => 4,
        WhisperStageView::Diarizing { .. } => 5,
        WhisperStageView::ReadingTurns { .. } => 6,
        WhisperStageView::ParsingTurns { .. } => 7,
        WhisperStageView::RemovingTurns { .. } => 8,
        WhisperStageView::RemovingWav { .. } => 9,
        WhisperStageView::Over => 10,
    }
}

/// Each step leads to a later stage, so that every transcription ends, and it is over exactly when
/// the action is the last one.
pub proof fn law_transcription_ends(
    job: WhisperJobView,
    stage: WhisperStageView,
    outcome: WhisperOutcomeView,
)
    requires
        whisper_accepts(stage, outcome),
    ensures
        whisper_phase(stage) < whisper_phase(whisper_next(job, stage, outcome).0),
        whisper_next(job, stage, outcome).0 is Over <==> (whisper_next(
            job,
            stage,
            outcome,
        ).1 is Finish || whisper_next(job, stage, outcome).1 is Fail),
{
}

/// The cause of an action that failed.
pub open spec fn cause_of(stage: WhisperStageView, outcome: WhisperOutcomeView) -> Option<
    Seq<char>,
> {
    match (stage, outcome) {
        (_, WhisperOutcomeView::Failed(cause)) => Some(cause),
        (_, WhisperOutcomeView::Unheard { cause, .. }) => Some(cause),
        (
            WhisperStageView::ReadingFloats { broken },
            WhisperOutcomeView::Unread { ran_out, message },
        ) => Some(wav::blamed((ran_out, message), broken)),
        _ => None,
    }
}

/// An action that fails ends the transcription with a message that ends with the cause; only a
/// file that cannot be removed does no harm.
pub proof fn law_failed_action_ends_the_transcription(
    job: WhisperJobView,
    stage: WhisperStageView,
    outcome: WhisperOutcomeView,
)
    requires
        whisper_accepts(stage, outcome),
        cause_of(stage, outcome) is Some,
    ensures
        !(stage is RemovingTurns) && !(stage is RemovingWav) ==> {
            &&& whisper_next(job, stage, outcome).1 matches WhisperActionView::Fail(message)
            &&& cause_of(stage, outcome)->0.is_suffix_of(message)
        },
        stage is RemovingTurns || stage is RemovingWav ==> whisper_next(job, stage, outcome)
            == whisper_next(job, stage, WhisperOutcomeView::Done),
{
}

/// What the model hears becomes the transcript: without pyannote as it is, with it each segment
/// gets the speaker whose turn overlaps it longest. The language asked for is the language of the
/// transcript.
pub proof fn law_heard_segments_become_the_transcript(
    job: WhisperJobView,
    heard: Seq<HeardView>,
    detected: Option<Seq<char>>,
    status: Seq<char>,
    stderr: Seq<char>,
    json: Seq<char>,
    turns: Seq<speakers::TurnView>,
)
    ensures
        ({
            let s1 = whisper_next(
                job,
                WhisperStageView::Listening,
                WhisperOutcomeView::Heard { segments: heard, detected },
            ).0;
            let ran = WhisperOutcomeView::Ran { success: true, status, stderr };
            let s2 = whisper_next(job, s1, ran).0;
            let s3 = whisper_next(job, s2, WhisperOutcomeView::Text(json)).0;
            let s4 = whisper_next(job, s3, WhisperOutcomeView::Turns(turns)).0;
            let s5 = whisper_next(job, s4, WhisperOutcomeView::Done).0;
            let last = if job.pyannote_enabled {
                s5
            } else {
                s1
            };
            whisper_next(job, last, WhisperOutcomeView::Done).1 == WhisperActionView::Finish(
                transcript::TranscriptView {
                    language: final_language(job.language, detected),
                    segments: if job.pyannote_enabled {
                        speakers::with_speakers(segments_heard(heard), turns)
                    } else {
                        segments_heard(heard)
                    },
                },
            )
        }),
{
}

/// No segment of a transcript is blank or has white space at its ends.
pub proof fn law_segments_say_something(heard: Seq<HeardView>, i: int)
    requires
        0 <= i < segments_heard(heard).len(),
    ensures
        segments_heard(heard)[i].text.len() > 0,
        text::trimmed(segments_heard(heard)[i].text) == segments_heard(heard)[i].text,
        segments_heard(heard)[i].speaker is None,
{
    let wanted = |segment: HeardView| says_something(segment);
    let kept = heard.filter(wanted);
    heard.lemma_filter_pred(wanted, i);
    text::law_trimming_is_idempotent(kept[i].text);
}

/// The language that the model is told to expect is that of the transcript, whatever it found out.
pub proof fn law_expected_language_is_kept(
    language: Option<Seq<char>>,
    detected: Option<Seq<char>>,
)
    requires
        expected_language(language) is Some,
    ensures
        Some(final_language(language, detected)) == language,
{
}

/// What was heard is turned into segments one by one: what follows changes nothing of what came
/// before, and nothing is dropped or added between.
pub proof fn law_segments_are_heard_one_by_one(a: Seq<HeardView>, b: Seq<HeardView>)
    ensures
        segments_heard(a + b) == segments_heard(a) + segments_heard(b),
{
    let wanted = |segment: HeardView| says_something(segment);
    Seq::filter_distributes_over_add(a, b, wanted);
    assert(segments_heard(a + b) =~= segments_heard(a) + segments_heard(b));
}

/// A segment that holds anything but white space becomes one segment of the transcript, with its
/// times in milliseconds, none before the beginning, with its trimmed text and without a speaker;
/// a blank one becomes none.
pub proof fn law_one_heard_segment(segment: HeardView)
    requires
        segment.start <= 1_844_674_407_370_955_161,
        segment.end <= 1_844_674_407_370_955_161,
    ensures
        (exists|k: int|
            0 <= k < segment.text.len() && !text::is_white_space(#[trigger] segment.text[k]))
            ==> {
            let heard = segments_heard(seq![segment]);
            &&& heard.len() == 1
            &&& heard[0].start_ms == if segment.start < 0 {
                0
            } else {
                segment.start * 10
            }
            &&& heard[0].end_ms == if segment.end < 0 {
                0
            } else {
                segment.end * 10
            }
            &&& heard[0].text == text::trimmed(segment.text)
            &&& heard[0].speaker is None
        },
        (forall|k: int|
            0 <= k < segment.text.len() ==> text::is_white_space(#[trigger] segment.text[k]))
            ==> segments_heard(seq![segment]).len() == 0,
{
    let wanted = |segment: HeardView| says_something(segment);
    let none = Seq::<HeardView>::empty();
    text::law_only_blank_texts_trim_to_nothing(segment.text);
    none.lemma_filter_push(segment, wanted);
    assert(none.push(segment) =~= seq![segment]);
    assert(none.filter(wanted) =~= none) by {
        reveal(Seq::filter);
    }
}

/// The model is told the language asked for, as it was written, unless that is blank or `auto`.
pub proof fn law_language_is_expected_as_asked(language: Seq<char>)
    ensures
        expected_language(None) is None,
        expected_language(Some("auto"@)) is None,
        (forall|k: int|
            0 <= k < language.len() ==> text::is_white_space(#[trigger] language[k]))
            ==> expected_language(Some(language)) is None,
        (exists|k: int|
            0 <= k < language.len() && !text::is_white_space(#[trigger] language[k])) && language
            != "auto"@ ==> expected_language(Some(language)) == Some(language),
{
    text::law_only_blank_texts_trim_to_nothing(language);
}

/// Where no language is expected, that of the transcript is the one that was found out, or
/// `unknown`.
pub proof fn law_language_found_out_is_used(
    language: Option<Seq<char>>,
    detected: Option<Seq<char>>,
)
    requires
        expected_language(language) is None,
    ensures
        final_language(language, detected) == match detected {
            Some(found) => found,
            None => "unknown"@,
        },
{
}

/// Whenever a step asks the model to listen, it is asked to expect the language of the request
/// where that is neither blank nor `auto`, and else none, and the model, the number of candidates
/// and the number of threads are those of the job.
pub proof fn law_model_is_asked_as_requested(
    job: WhisperJobView,
    stage: WhisperStageView,
    outcome: WhisperOutcomeView,
)
    requires
        whisper_accepts(stage, outcome),
    ensures
        whisper_next(job, stage, outcome).1 matches WhisperActionView::Listen {
            model_path,
            language,
            best_of,
            threads,
            ..
        } ==> {
            &&& stage is Reading || stage is ReadingFloats
            &&& model_path == job.model_path
            &&& best_of == job.best_of
            &&& threads == job.threads
            &&& job.language is None ==> language is None
            &&& job.language matches Some(asked) ==> {
                &&& asked == "auto"@ ==> language is None
                &&& (forall|k: int|
                    0 <= k < asked.len() ==> text::is_white_space(#[trigger] asked[k]))
                    ==> language is None
                &&& (exists|k: int|
                    0 <= k < asked.len() && !text::is_white_space(#[trigger] asked[k])) && asked
                    != "auto"@ ==> language == Some(asked)
            }
        },
{
    if let Some(asked) = job.language {
        law_language_is_expected_as_asked(asked);
    }
}

/// Where the decoded file holds samples that are accepted, the model is asked to listen to exactly
/// those.
pub proof fn law_model_hears_the_samples(job: WhisperJobView, bytes: Seq<u8>, count: usize)
    ensures
        wav::wav_header(bytes) == Ok::<(u16, bool, u16), (bool, Seq<char>)>((1u16, false, 16u16))
            ==> (wav::short_samples(bytes) matches Ok(samples) ==> samples.len() > 0 ==> {
            &&& whisper_next(
                job,
                WhisperStageView::Reading,
                WhisperOutcomeView::Bytes(bytes),
            ).1 matches WhisperActionView::Listen {
                audio: wav::AudioView::Scaled { samples: heard, amplitude },
                ..
            }
            &&& heard.len() == samples.len()
            &&& forall|i: int| 0 <= i < samples.len() ==> #[trigger] heard[i] == samples[i]
            &&& amplitude == 32767
        }),
        wav::wav_header(bytes) == Ok::<(u16, bool, u16), (bool, Seq<char>)>((1u16, true, 32u16))
            ==> {
            let (stage, action) = whisper_next(
                job,
                WhisperStageView::Reading,
                WhisperOutcomeView::Bytes(bytes),
            );
            &&& action is ReadFloats
            &&& count > 0 ==> {
                &&& whisper_next(job, stage, WhisperOutcomeView::Floats(count)).1 matches
                    WhisperActionView::Listen { audio, .. }
                &&& audio is Float
            }
        },
{
    wav::law_samples_are_handed_on(
        job.wav_path,
        16,
        wav::short_samples(bytes),
        wav::long_samples(bytes),
        None,
    );
}

/// The input is decoded by ffmpeg to one channel at 16 kHz into the file that is then looked for
/// and read.
pub proof fn law_input_is_decoded_first(
    job: WhisperJobView,
    status: Seq<char>,
    stderr: Seq<char>,
)
    ensures
        ({
            let (s0, a0) = whisper_first(job);
            let ran = WhisperOutcomeView::Ran { success: true, status, stderr };
            let (s1, a1) = whisper_next(job, s0, ran);
            let (s2, a2) = whisper_next(job, s1, WhisperOutcomeView::Found(true));
            &&& a0 matches WhisperActionView::Decode { program, args }
            &&& program == "ffmpeg"@
            &&& args.len() == 11
            &&& args[0] == "-i"@ && args[1] == job.input_path
            &&& args[2] == "-vn"@
            &&& args[3] == "-ac"@ && args[4] == "1"@
            &&& args[5] == "-ar"@ && args[6] == "16000"@
            &&& args[7] == "-f"@ && args[8] == "wav"@
            &&& args[9] == "-y"@ && args[10] == job.wav_path
            &&& a1 == WhisperActionView::FindWav { path: job.wav_path }
            &&& a2 == WhisperActionView::ReadWav { path: job.wav_path }
            &&& s2 is Reading
        }),
{
}

/// Where pyannote is enabled, its script is run on the decoded audio, with the token and the number
/// of speakers where they are known, the turns are read from the file that it writes, both files are
/// removed, and each segment gets its speaker; where it is not, only the decoded audio is removed.
pub proof fn law_speakers_are_found_where_enabled(
    job: WhisperJobView,
    heard: Seq<HeardView>,
    detected: Option<Seq<char>>,
    status: Seq<char>,
    stderr: Seq<char>,
    json: Seq<char>,
    turns: Seq<speakers::TurnView>,
)
    ensures
        ({
            let (s1, a1) = whisper_next(
                job,
                WhisperStageView::Listening,
                WhisperOutcomeView::Heard { segments: heard, detected },
            );
            let ran = WhisperOutcomeView::Ran { success: true, status, stderr };
            let (s2, a2) = whisper_next(job, s1, ran);
            let (s3, a3) = whisper_next(job, s2, WhisperOutcomeView::Text(json));
            let (s4, a4) = whisper_next(job, s3, WhisperOutcomeView::Turns(turns));
            let (s5, a5) = whisper_next(job, s4, WhisperOutcomeView::Done);
            &&& !job.pyannote_enabled ==> {
                &&& a1 == WhisperActionView::RemoveWav { path: job.wav_path }
                &&& whisper_next(job, s1, WhisperOutcomeView::Done).1 matches
                    WhisperActionView::Finish(transcript)
                &&& transcript.language == final_language(job.language, detected)
                &&& transcript.segments == segments_heard(heard)
            }
            &&& job.pyannote_enabled ==> {
                &&& a1 matches WhisperActionView::Diarize { program, args }
                &&& program == job.pyannote_python_bin
                &&& args.len() >= 5
                &&& args[0] == job.pyannote_script_path
                &&& args[1] == "--input"@ && args[2] == job.wav_path
                &&& args[3] == "--output"@ && args[4] == job.turns_path
                &&& a2 == WhisperActionView::ReadTurns { path: job.turns_path }
                &&& a3 == WhisperActionView::ParseTurns { text: json }
                &&& a4 == WhisperActionView::RemoveTurns { path: job.turns_path }
                &&& a5 == WhisperActionView::RemoveWav { path: job.wav_path }
                &&& whisper_next(job, s5, WhisperOutcomeView::Done).1 matches
                    WhisperActionView::Finish(transcript)
                &&& transcript.language == final_language(job.language, detected)
                &&& transcript.segments == speakers::with_speakers(segments_heard(heard), turns)
            }
        }),
{
}

/// Behind the script, the input and the output stand the token where there is one, and the number
/// of speakers where it is known, and nothing else.
pub proof fn law_hints_follow_the_files(
    script: Seq<char>,
    input: Seq<char>,
    output: Seq<char>,
    token: Seq<char>,
    n: u32,
)
    ensures
        diarization_args(script, input, output, None, None) == seq![
            script,
            "--input"@,
            input,
            "--output"@,
            output,
        ],
        diarization_args(script, input, output, Some(token), None) == seq![
            script,
            "--input"@,
            input,
            "--output"@,
            output,
            "--hf-token"@,
            token,
        ],
        diarization_args(script, input, output, None, Some(n)) == seq![
            script,
            "--input"@,
            input,
            "--output"@,
            output,
            "--num-speakers"@,
            number::decimal(n as nat),
        ],
        diarization_args(script, input, output, Some(token), Some(n)) == seq![
            script,
            "--input"@,
            input,
            "--output"@,
            output,
            "--hf-token"@,
            token,
            "--num-speakers"@,
            number::decimal(n as nat),
        ],
{
}

/// The message of a transcription that fails says what failed and the cause. A program that fails
/// is quoted, or its exit code is given where it says nothing.
pub proof fn law_failed_transcription_says_what_failed(
    job: WhisperJobView,
    stage: WhisperStageView,
    cause: Seq<char>,
    status: Seq<char>,
)
    ensures
        ({
            let failed = WhisperOutcomeView::Failed(cause);
            let ran = WhisperOutcomeView::Ran { success: false, status, stderr: cause };
            let said = if text::trimmed(cause).len() > 0 {
                text::trimmed(cause)
            } else {
                "exit code "@ + status
            };
            &&& stage is Decoding ==> whisper_next(job, stage, failed).1
                == WhisperActionView::Fail("failed to run ffmpeg for whisper"@ + ": "@ + cause)
            &&& stage is Decoding ==> whisper_next(job, stage, ran).1 == WhisperActionView::Fail(
                "ffmpeg decode failed"@ + ": "@ + said,
            )
            &&& stage is Finding ==> whisper_next(
                job,
                stage,
                WhisperOutcomeView::Found(false),
            ).1 == WhisperActionView::Fail("ffmpeg did not produce wav output"@)
            &&& stage is Reading ==> whisper_next(job, stage, failed).1
                == WhisperActionView::Fail("failed to open wav "@ + job.wav_path + ": "@ + cause)
            &&& stage is ReadingFloats ==> whisper_next(
                job,
                stage,
                WhisperOutcomeView::Floats(0),
            ).1 == WhisperActionView::Fail("wav has no samples"@)
            &&& stage is Diarizing ==> whisper_next(job, stage, failed).1
                == WhisperActionView::Fail("failed to run pyannote script"@ + ": "@ + cause)
            &&& stage is Diarizing ==> whisper_next(job, stage, ran).1 == WhisperActionView::Fail(
                "pyannote diarization failed"@ + ": "@ + said,
            )
            &&& stage is ReadingTurns ==> whisper_next(job, stage, failed).1
                == WhisperActionView::Fail("failed to read pyannote output json"@ + ": "@ + cause)
            &&& stage is ParsingTurns ==> whisper_next(job, stage, failed).1
                == WhisperActionView::Fail("failed to parse pyannote output json"@ + ": "@ + cause)
            &&& stage is Listening ==> {
                &&& whisper_next(
                    job,
                    stage,
                    WhisperOutcomeView::Unheard { at: WhisperStep::Context, cause },
                ).1 == WhisperActionView::Fail("whisper context init failed"@ + ": "@ + cause)
                &&& whisper_next(
                    job,
                    stage,
                    WhisperOutcomeView::Unheard { at: WhisperStep::State, cause },
                ).1 == WhisperActionView::Fail("whisper state init failed"@ + ": "@ + cause)
                &&& whisper_next(
                    job,
                    stage,
                    WhisperOutcomeView::Unheard { at: WhisperStep::Full, cause },
                ).1 == WhisperActionView::Fail("whisper full() failed"@ + ": "@ + cause)
                &&& whisper_next(
                    job,
                    stage,
                    WhisperOutcomeView::Unheard { at: WhisperStep::Segment, cause },
                ).1 == WhisperActionView::Fail("segment decode failed"@ + ": "@ + cause)
            }
        }),
{
}

/// A setting that holds an integer of 32 bits is that integer, and any other is the default.
pub proof fn law_integer_settings(value: Seq<char>, default: i32)
    ensures
        integer_setting(None, default) == default,
        number::signed_number(value) is None ==> integer_setting(Some(value), default) == default,
        number::signed_number(value) matches Some(n) ==> integer_setting(Some(value), default)
            == if -0x8000_0000 <= n <= 0x7fff_ffff {
            n
        } else {
            default as int
        },
{
}

/// At least one is a number that is at least one, and no other than the given one where that is.
pub proof fn law_at_least_one(n: int)
    ensures
        at_least_one(n) >= 1,
        n >= 1 ==> at_least_one(n) == n,
        n < 1 ==> at_least_one(n) == 1,
{
}

/// Files under different identifiers have different names.
pub proof fn law_file_names_are_distinct(a: FileId, b: FileId)
    requires
        a.value != b.value,
    ensures
        wav_name(a) != wav_name(b),
        turns_name(a) != turns_name(b),
        ".wav"@.is_suffix_of(wav_name(a)),
        ".json"@.is_suffix_of(turns_name(a)),
{
    file_id::law_different_ids_have_different_texts(a, b);
    let (s, t) = (file_id::uuid_text(a.value), file_id::uuid_text(b.value));
    let wav = "subtitle_whisper_"@;
    let turns = "pyannote_"@;
    assert(wav_name(a).subrange(wav.len() as int, wav.len() as int + 36) =~= s);
    assert(wav_name(b).subrange(wav.len() as int, wav.len() as int + 36) =~= t);
    assert(turns_name(a).subrange(turns.len() as int, turns.len() as int + 36) =~= s);
    assert(turns_name(b).subrange(turns.len() as int, turns.len() as int + 36) =~= t);
}

/// A stage goes on with whatever its action can end with, except times that do not fit into 64 bits
/// as milliseconds.
pub proof fn law_transcription_awaits_every_answer(
    stage: WhisperStageView,
    outcome: WhisperOutcomeView,
)
    ensures
        (stage is Decoding || stage is Diarizing) && (outcome is Ran || outcome is Failed)
            ==> whisper_accepts(stage, outcome),
        stage is Finding && outcome is Found ==> whisper_accepts(stage, outcome),
        stage is Reading && (outcome is Bytes || outcome is Broken || outcome is Failed)
            ==> whisper_accepts(stage, outcome),
        stage is ReadingFloats && (outcome is Floats || outcome is Unread) ==> whisper_accepts(
            stage,
            outcome,
        ),
        stage is Listening && outcome is Unheard ==> whisper_accepts(stage, outcome),
        stage is Listening ==> (outcome matches WhisperOutcomeView::Heard { segments, .. } ==> (
        forall|i: int|
            0 <= i < segments.len() ==> (#[trigger] segments[i]).start * 10 <= u64::MAX
                && segments[i].end * 10 <= u64::MAX) ==> whisper_accepts(stage, outcome)),
        stage is ReadingTurns && (outcome is Text || outcome is Failed) ==> whisper_accepts(
            stage,
            outcome,
        ),
        stage is ParsingTurns && (outcome is Turns || outcome is Failed) ==> whisper_accepts(
            stage,
            outcome,
        ),
        (stage is RemovingTurns || stage is RemovingWav) && (outcome is Done || outcome is Failed)
            ==> whisper_accepts(stage, outcome),
{
}

/// The view of what was heard leaves nothing out.
pub proof fn law_view_shows_every_heard_segment(heard: Seq<WhisperSegment>, i: int)
    requires
        0 <= i < heard.len(),
    ensures
        heard_of(heard).len() == heard.len(),
        heard_of(heard)[i].start == heard[i].start,
        heard_of(heard)[i].end == heard[i].end,
        heard_of(heard)[i].text == heard[i].text@,
{
}

/// The view of a job leaves nothing out.
pub proof fn law_view_shows_the_job(job: WhisperJob)
    ensures
        job@.model_path == job.model_path@,
        job@.input_path == job.input_path@,
        job@.wav_path == job.wav_path@,
        job@.turns_path == job.turns_path@,
        job.language is None ==> job@.language is None,
        job.language matches Some(language) ==> job@.language == Some(language@),
        job@.num_speakers == job.num_speakers,
        job@.best_of == job.best_of,
        job@.threads == job.threads,
        job@.pyannote_enabled == job.pyannote_enabled,
        job@.pyannote_python_bin == job.pyannote_python_bin@,
        job@.pyannote_script_path == job.pyannote_script_path@,
        job.pyannote_hf_token is None ==> job@.pyannote_hf_token is None,
        job.pyannote_hf_token matches Some(token) ==> job@.pyannote_hf_token == Some(token@),
{
}

/// The view of an action leaves nothing out.
pub proof fn law_view_shows_the_action(action: WhisperAction)
    ensures
        action matches WhisperAction::Decode { program, args } ==> action@
            == (WhisperActionView::Decode { program: program@, args: ordering::texts_of(args@) }),
        action matches WhisperAction::FindWav { path } ==> action@ == (WhisperActionView::FindWav {
            path: path@,
        }),
        action matches WhisperAction::ReadWav { path } ==> action@ == (WhisperActionView::ReadWav {
            path: path@,
        }),
        action matches WhisperAction::Listen { audio, model_path, language, best_of, threads }
            ==> action@ == (WhisperActionView::Listen {
            audio: audio@,
            model_path: model_path@,
            language: transcript::text_of(language),
            best_of,
            threads,
        }),
        action matches WhisperAction::Diarize { program, args } ==> action@
            == (WhisperActionView::Diarize { program: program@, args: ordering::texts_of(args@) }),
        action matches WhisperAction::ReadTurns { path } ==> action@
            == (WhisperActionView::ReadTurns { path: path@ }),
        action matches WhisperAction::ParseTurns { text } ==> action@
            == (WhisperActionView::ParseTurns { text: text@ }),
        action matches WhisperAction::RemoveTurns { path } ==> action@
            == (WhisperActionView::RemoveTurns { path: path@ }),
        action matches WhisperAction::RemoveWav { path } ==> action@
            == (WhisperActionView::RemoveWav { path: path@ }),
        action matches WhisperAction::Finish(t) ==> action@ == WhisperActionView::Finish(t@),
        action matches WhisperAction::Fail(m) ==> action@ == WhisperActionView::Fail(m@),
{
}

/// The view of an outcome leaves nothing out.
pub proof fn law_view_shows_the_outcome(outcome: WhisperOutcome)
    ensures
        outcome matches WhisperOutcome::Ran { success, status, stderr } ==> outcome@
            == (WhisperOutcomeView::Ran { success, status: status@, stderr: stderr@ }),
        outcome matches WhisperOutcome::Found(found) ==> outcome@ == WhisperOutcomeView::Found(
            found,
        ),
        outcome matches WhisperOutcome::Bytes(b) ==> outcome@ == WhisperOutcomeView::Bytes(b@),
        outcome matches WhisperOutcome::Broken { bytes, cause } ==> outcome@
            == (WhisperOutcomeView::Broken { bytes: bytes@, cause: cause@ }),
        outcome matches WhisperOutcome::Floats(count) ==> outcome@ == WhisperOutcomeView::Floats(
            count,
        ),
        outcome matches WhisperOutcome::Unread { ran_out, message } ==> outcome@
            == (WhisperOutcomeView::Unread { ran_out, message: message@ }),
        outcome matches WhisperOutcome::Heard { segments, detected } ==> outcome@
            == (WhisperOutcomeView::Heard {
            segments: heard_of(segments@),
            detected: transcript::text_of(detected),
        }),
        outcome matches WhisperOutcome::Unheard { at, cause } ==> outcome@
            == (WhisperOutcomeView::Unheard { at, cause: cause@ }),
        outcome matches WhisperOutcome::Text(t) ==> outcome@ == WhisperOutcomeView::Text(t@),
        outcome matches WhisperOutcome::Turns(turns) ==> outcome@ == WhisperOutcomeView::Turns(
            speakers::turns_of(turns@),
        ),
        outcome matches WhisperOutcome::Failed(m) ==> outcome@ == WhisperOutcomeView::Failed(m@),
{
}

} // verus!

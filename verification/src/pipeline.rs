//! One attempt to make the subtitles of a file, as a machine: each step takes what became of the
//! last action and says the next one.
//!
//! The source object is downloaded and written to a temporary file, transcribed, and the
//! subtitles are uploaded in both formats. Where the source is a segment of fragmented media,
//! the file is put together from the initialisation segment and all segments beside it.

use vstd::prelude::*;
use crate::failure;
use crate::file_id;
use crate::file_id::FileId;
use crate::kafka;
use crate::kafka::SubtitleRequestedEvent;
use crate::object_path;
use crate::ordering;
use crate::subtitle;
use crate::text;
use crate::transcript;
use crate::transcript::Transcript;

verus! {

/// What a successful attempt leaves behind.
pub struct SubtitleResult {
    pub bucket: String,
    pub vtt_object_key: String,
    pub srt_object_key: String,
    pub language: String,
    pub segments: usize,
}

/// What an attempt is about.
pub struct SubtitleJob {
    pub file_id: FileId,
    pub event: SubtitleRequestedEvent,
    pub subtitle_bucket: String,
}

/// An action that the attempt waits for.
pub enum PipelineAction {
    EnsureBucket { bucket: String },
    GetObject { bucket: String, object_key: String },
    ListObjects { bucket: String, prefix: String },
    WriteTemp { file_name: String, bytes: Vec<u8> },
    Transcribe { file_name: String, language: Option<String>, num_speakers: Option<u32> },
    Upload { bucket: String, object_key: String, bytes: Vec<u8> },
    RemoveTemp { file_name: String },
    Finish(SubtitleResult),
    Fail(String),
}

/// What became of an action.
pub enum PipelineOutcome {
    Done,
    Bytes(Vec<u8>),
    Keys(Vec<String>),
    Transcribed(Transcript),
    Failed(String),
}

/// How far an attempt has come: what it waits for, and what it holds until then.
pub enum PipelineStage {
    Bucket,
    Source,
    Init { source: Vec<u8>, init_key: String, prefix: String },
    Listing { source: Vec<u8>, init: Vec<u8>, prefix: String },
    Segments { source: Vec<u8>, init: Vec<u8>, keys: Vec<String>, blobs: Vec<Vec<u8>> },
    Temp { file_name: String },
    Transcription { file_name: String },
    Vtt { file_name: String, srt: Vec<u8>, result: SubtitleResult },
    Srt { file_name: String, result: SubtitleResult },
    Cleanup { result: SubtitleResult },
    Over,
}

#[verifier::ext_equal]
pub struct ResultView {
    pub bucket: Seq<char>,
    pub vtt_object_key: Seq<char>,
    pub srt_object_key: Seq<char>,
    pub language: Seq<char>,
    pub segments: usize,
}

#[verifier::ext_equal]
pub struct JobView {
    pub file_id: FileId,
    pub event: kafka::RequestView,
    pub subtitle_bucket: Seq<char>,
}

#[verifier::ext_equal]
pub enum ActionView {
    EnsureBucket { bucket: Seq<char> },
    GetObject { bucket: Seq<char>, object_key: Seq<char> },
    ListObjects { bucket: Seq<char>, prefix: Seq<char> },
    WriteTemp { file_name: Seq<char>, bytes: Seq<u8> },
    Transcribe {
        file_name: Seq<char>,
        language: Option<Seq<char>>,
        num_speakers: Option<u32>,
    },
    Upload { bucket: Seq<char>, object_key: Seq<char>, bytes: Seq<u8> },
    RemoveTemp { file_name: Seq<char> },
    Finish(ResultView),
    Fail(Seq<char>),
}

#[verifier::ext_equal]
pub enum OutcomeView {
    Done,
    Bytes(Seq<u8>),
    Keys(Seq<Seq<char>>),
    Transcribed(transcript::TranscriptView),
    Failed(Seq<char>),
}

#[verifier::ext_equal]
pub enum StageView {
    Bucket,
    Source,
    Init { source: Seq<u8>, init_key: Seq<char>, prefix: Seq<char> },
    Listing { source: Seq<u8>, init: Seq<u8>, prefix: Seq<char> },
    Segments { source: Seq<u8>, init: Seq<u8>, keys: Seq<Seq<char>>, blobs: Seq<Seq<u8>> },
    Temp { file_name: Seq<char> },
    Transcription { file_name: Seq<char> },
    Vtt { file_name: Seq<char>, srt: Seq<u8>, result: ResultView },
    Srt { file_name: Seq<char>, result: ResultView },
    Cleanup { result: ResultView },
    Over,
}

/// The blobs, each by its bytes.
pub open spec fn blobs_of(s: Seq<Vec<u8>>) -> Seq<Seq<u8>> {
    Seq::new(s.len(), |i: int| s[i]@)
}

impl View for SubtitleResult {
    type V = ResultView;

    open spec fn view(&self) -> ResultView {
        ResultView {
            bucket: self.bucket@,
            vtt_object_key: self.vtt_object_key@,
            srt_object_key: self.srt_object_key@,
            language: self.language@,
            segments: self.segments,
        }
    }
}

impl View for SubtitleJob {
    type V = JobView;

    open spec fn view(&self) -> JobView {
        JobView {
            file_id: self.file_id,
            event: self.event@,
            subtitle_bucket: self.subtitle_bucket@,
        }
    }
}

impl View for PipelineAction {
    type V = ActionView;

    open spec fn view(&self) -> ActionView {
        match self {
            PipelineAction::EnsureBucket { bucket } => ActionView::EnsureBucket {
                bucket: bucket@,
            },
            PipelineAction::GetObject { bucket, object_key } => ActionView::GetObject {
                bucket: bucket@,
                object_key: object_key@,
            },
            PipelineAction::ListObjects { bucket, prefix } => ActionView::ListObjects {
                bucket: bucket@,
                prefix: prefix@,
            },
            PipelineAction::WriteTemp { file_name, bytes } => ActionView::WriteTemp {
                file_name: file_name@,
                bytes: bytes@,
            },
            PipelineAction::Transcribe { file_name, language, num_speakers } => {
                ActionView::Transcribe {
                    file_name: file_name@,
                    language: transcript::text_of(*language),
                    num_speakers: *num_speakers,
                }
            },
            PipelineAction::Upload { bucket, object_key, bytes } => ActionView::Upload {
                bucket: bucket@,
                object_key: object_key@,
                bytes: bytes@,
            },
            PipelineAction::RemoveTemp { file_name } => ActionView::RemoveTemp {
                file_name: file_name@,
            },
            PipelineAction::Finish(result) => ActionView::Finish(result@),
            PipelineAction::Fail(message) => ActionView::Fail(message@),
        }
    }
}

impl View for PipelineOutcome {
    type V = OutcomeView;

    open spec fn view(&self) -> OutcomeView {
        match self {
            PipelineOutcome::Done => OutcomeView::Done,
            PipelineOutcome::Bytes(bytes) => OutcomeView::Bytes(bytes@),
            PipelineOutcome::Keys(keys) => OutcomeView::Keys(ordering::texts_of(keys@)),
            PipelineOutcome::Transcribed(transcript) => OutcomeView::Transcribed(transcript@),
            PipelineOutcome::Failed(cause) => OutcomeView::Failed(cause@),
        }
    }
}

impl View for PipelineStage {
    type V = StageView;

    open spec fn view(&self) -> StageView {
        match self {
            PipelineStage::Bucket => StageView::Bucket,
            PipelineStage::Source => StageView::Source,
            PipelineStage::Init { source, init_key, prefix } => StageView::Init {
                source: source@,
                init_key: init_key@,
                prefix: prefix@,
            },
            PipelineStage::Listing { source, init, prefix } => StageView::Listing {
                source: source@,
                init: init@,
                prefix: prefix@,
            },
            PipelineStage::Segments { source, init, keys, blobs } => StageView::Segments {
                source: source@,
                init: init@,
                keys: ordering::texts_of(keys@),
                blobs: blobs_of(blobs@),
            },
            PipelineStage::Temp { file_name } => StageView::Temp { file_name: file_name@ },
            PipelineStage::Transcription { file_name } => StageView::Transcription {
                file_name: file_name@,
            },
            PipelineStage::Vtt { file_name, srt, result } => StageView::Vtt {
                file_name: file_name@,
                srt: srt@,
                result: result@,
            },
            PipelineStage::Srt { file_name, result } => StageView::Srt {
                file_name: file_name@,
                result: result@,
            },
            PipelineStage::Cleanup { result } => StageView::Cleanup { result: result@ },
            PipelineStage::Over => StageView::Over,
        }
    }
}

/// The key of the initialisation segment beside a media segment.
pub open spec fn init_object_key(source_object_key: Seq<char>) -> Option<Seq<char>> {
    match object_path::directory(source_object_key) {
        Some(directory) => Some(object_path::joined(directory, "init.mp4"@)),
        None => None,
    }
}

/// The prefix that the keys of a media segment and of the segments beside it share.
pub open spec fn variant_prefix(source_object_key: Seq<char>) -> Option<Seq<char>> {
    match object_path::directory(source_object_key) {
        Some(directory) => Some(directory + "/"@),
        None => None,
    }
}

/// The key of the initialisation segment beside a media segment.
pub fn infer_init_object_key(source_object_key: &str) -> (r: Option<String>)
    ensures
        transcript::text_of(r) == init_object_key(source_object_key@),
{
    match object_path::directory_of(source_object_key) {
        Some(directory) => Some(object_path::join(directory.as_str(), "init.mp4")),
        None => None,
    }
}

/// The prefix that the keys of a media segment and of the segments beside it share.
pub fn infer_variant_prefix(source_object_key: &str) -> (r: Option<String>)
    ensures
        transcript::text_of(r) == variant_prefix(source_object_key@),
{
    match object_path::directory_of(source_object_key) {
        Some(directory) => {
            let mut prefix: String = directory;
            prefix.append("/");
            Some(prefix)
        },
        None => None,
    }
}

/// Whether a listed object is a media segment.
pub open spec fn is_segment(key: Seq<char>) -> bool {
    ".m4s"@.is_suffix_of(key) && !"init.mp4"@.is_suffix_of(key)
}

/// The segments to put together: those listed, in ascending order of their keys, or the source
/// alone where none is listed.
pub open spec fn segments_to_fetch(
    listed: Seq<Seq<char>>,
    source_object_key: Seq<char>,
) -> Seq<Seq<char>> {
    let found = listed.filter(|key: Seq<char>| is_segment(key));
    if found.len() == 0 {
        seq![source_object_key]
    } else {
        found.sort_by(ordering::text_order())
    }
}

/// The keys of the segments to put together, in the order in which they follow each other.
pub fn segment_keys(listed: &Vec<String>, source_object_key: &str) -> (r: Vec<String>)
    ensures
        ordering::texts_of(r@) == segments_to_fetch(
            ordering::texts_of(listed@),
            source_object_key@,
        ),
        r.len() > 0,
{
    let ghost all = ordering::texts_of(listed@);
    let ghost wanted = |key: Seq<char>| is_segment(key);
    let mut found: Vec<String> = Vec::new();
    let mut i: usize = 0;
    assert(all.take(0).filter(wanted) == ordering::texts_of(found@)) by {
        reveal(Seq::filter);
    }
    while i < listed.len()
        invariant
            i <= listed.len(),
            all == ordering::texts_of(listed@),
            wanted == (|key: Seq<char>| is_segment(key)),
            ordering::texts_of(found@) == all.take(i as int).filter(wanted),
        decreases listed.len() - i,
    {
        let ghost before = ordering::texts_of(found@);
        let key: &String = &listed[i];
        if text::ends_with(key.as_str(), ".m4s") && !text::ends_with(key.as_str(), "init.mp4") {
            found.push(key.clone());
            assert(ordering::texts_of(found@) == before.push(key@));
        }
        i = i + 1;
        proof {
            assert(all.take(i as int) == all.take(i - 1).push(all[i - 1]));
            all.take(i - 1).lemma_filter_push(all[i - 1], wanted);
        }
    }
    assert(all.take(i as int) == all);
    if found.len() == 0 {
        let mut only: Vec<String> = Vec::new();
        only.push(source_object_key.to_string());
        assert(ordering::texts_of(only@) == seq![source_object_key@]);
        only
    } else {
        proof {
            ordering::law_text_order_is_total();
            let texts = ordering::texts_of(found@);
            texts.lemma_sort_by_ensures(ordering::text_order());
            texts.to_multiset_ensures();
            texts.sort_by(ordering::text_order()).to_multiset_ensures();
        }
        let sorted: Vec<String> = ordering::sort_texts(&found);
        assert(ordering::texts_of(sorted@).len() == sorted.len());
        sorted
    }
}

/// The initialisation segment and the media segments, one behind the other.
pub open spec fn fragmented_audio(init: Seq<u8>, blobs: Seq<Seq<u8>>) -> Seq<u8> {
    init + blobs.flatten()
}

/// The initialisation segment and the media segments, one behind the other.
pub fn merge_fragments(init: Vec<u8>, blobs: &Vec<Vec<u8>>) -> (r: Vec<u8>)
    ensures
        r@ == fragmented_audio(init@, blobs_of(blobs@)),
{
    let mut merged: Vec<u8> = init;
    let ghost all = blobs_of(blobs@);
    let mut i: usize = 0;
    assert(all.take(0).flatten() == Seq::<u8>::empty());
    while i < blobs.len()
        invariant
            i <= blobs.len(),
            all == blobs_of(blobs@),
            merged@ == init@ + all.take(i as int).flatten(),
        decreases blobs.len() - i,
    {
        let ghost before = merged@;
        merged.extend_from_slice(blobs[i].as_slice());
        i = i + 1;
        proof {
            let blob = all[i - 1];
            assert(merged@ =~= before + blob);
            assert(all.take(i as int) == all.take(i - 1).push(blob));
            all.take(i - 1).lemma_flatten_push(blob);
            assert(merged@ =~= init@ + all.take(i as int).flatten());
        }
    }
    assert(all.take(i as int) == all);
    merged
}

/// The name of the temporary file of an attempt.
pub open spec fn temp_name(id: FileId, extension: Seq<char>) -> Seq<char> {
    "subtitle_input_"@ + file_id::uuid_text(id.value) + "."@ + extension
}

/// The name of the temporary file for an audio object of one piece: it keeps the extension of
/// the object, or has `bin` where there is none.
pub open spec fn plain_temp_name(id: FileId, source_object_key: Seq<char>) -> Seq<char> {
    temp_name(
        id,
        match object_path::extension(source_object_key) {
            Some(extension) => extension,
            None => "bin"@,
        },
    )
}

/// The name of the temporary file of an attempt.
fn temp_file_name(id: FileId, extension: &str) -> (r: String)
    ensures
        r@ == temp_name(id, extension@),
{
    let mut out: String = "subtitle_input_".to_string();
    out.append(id.text().as_str());
    out.append(".");
    out.append(extension);
    out
}

/// The name of the temporary file for an audio object of one piece.
pub fn temp_audio_name(id: FileId, source_object_key: &str) -> (r: String)
    ensures
        r@ == plain_temp_name(id, source_object_key@),
{
    match object_path::extension_of(source_object_key) {
        Some(extension) => temp_file_name(id, extension.as_str()),
        None => temp_file_name(id, "bin"),
    }
}

/// The name of the temporary file for fragmented audio.
pub fn temp_fragmented_audio_name(id: FileId) -> (r: String)
    ensures
        r@ == temp_name(id, "mp4"@),
{
    temp_file_name(id, "mp4")
}

/// The key under which a file of the subtitles of `id` is stored.
pub open spec fn subtitle_key(id: FileId, name: Seq<char>) -> Seq<char> {
    "media/"@ + file_id::uuid_text(id.value) + "/"@ + name
}

/// The key under which a file of the subtitles of `id` is stored.
pub fn subtitle_object_key(id: FileId, name: &str) -> (r: String)
    ensures
        r@ == subtitle_key(id, name@),
{
    let mut out: String = "media/".to_string();
    out.append(id.text().as_str());
    out.append("/");
    out.append(name);
    out
}

/// What failed on which object, or on which prefix, of which bucket.
pub open spec fn about_object(
    context: Seq<char>,
    bucket: Seq<char>,
    object: Seq<char>,
) -> Seq<char> {
    context + bucket + "/"@ + object
}

/// What failed on which object, and why.
fn describe_object_failure(context: &str, bucket: &str, object: &str, cause: &str) -> (r: String)
    ensures
        r@ == failure::with_cause(about_object(context@, bucket@, object@), cause@),
{
    let mut out: String = context.to_string();
    out.append(bucket);
    out.append("/");
    out.append(object);
    failure::describe_failure(out.as_str(), cause)
}

/// What failed on the source object.
fn describe_key_failure(context: &str, key: &str) -> (r: String)
    ensures
        r@ == context@ + key@,
{
    let mut out: String = context.to_string();
    out.append(key);
    out
}

/// The message of an attempt that fails at a stage.
pub open spec fn failure_message(job: JobView, stage: StageView, cause: Seq<char>) -> Seq<char> {
    let bucket = job.event.source_bucket;
    match stage {
        StageView::Bucket => failure::with_cause("ensure subtitle bucket"@, cause),
        StageView::Source => failure::with_cause(
            about_object("download source object "@, bucket, job.event.source_object_key),
            cause,
        ),
        StageView::Init { init_key, .. } => failure::with_cause(
            about_object("download init segment "@, bucket, init_key),
            cause,
        ),
        StageView::Listing { prefix, .. } => failure::with_cause(
            about_object("list variant segments in "@, bucket, prefix),
            cause,
        ),
        StageView::Segments { keys, blobs, .. } => failure::with_cause(
            about_object("download media segment "@, bucket, keys[blobs.len() as int]),
            cause,
        ),
        StageView::Transcription { .. } => failure::with_cause("transcribe audio"@, cause),
        StageView::Vtt { .. } => failure::with_cause("upload vtt"@, cause),
        StageView::Srt { .. } => failure::with_cause("upload srt"@, cause),
        StageView::Temp { .. } | StageView::Cleanup { .. } | StageView::Over => cause,
    }
}

/// Whether an outcome is one that the stage waits for.
pub open spec fn accepts(stage: StageView, outcome: OutcomeView) -> bool {
    match stage {
        StageView::Bucket
        | StageView::Temp { .. }
        | StageView::Vtt { .. }
        | StageView::Srt { .. }
        | StageView::Cleanup { .. } => outcome is Done || outcome is Failed,
        StageView::Source | StageView::Init { .. } => outcome is Bytes || outcome is Failed,
        StageView::Listing { .. } => outcome is Keys || outcome is Failed,
        StageView::Segments { keys, blobs, .. } => blobs.len() < keys.len() && (outcome is Bytes
            || outcome is Failed),
        StageView::Transcription { .. } => outcome is Transcribed || outcome is Failed,
        StageView::Over => false,
    }
}

/// The blobs, and behind them the source as often as the keys that follow name it.
pub open spec fn with_source(
    keys: Seq<Seq<char>>,
    blobs: Seq<Seq<u8>>,
    source_object_key: Seq<char>,
    source: Seq<u8>,
) -> Seq<Seq<u8>>
    decreases keys.len() - blobs.len(),
{
    if blobs.len() < keys.len() && keys[blobs.len() as int] == source_object_key {
        with_source(keys, blobs.push(source), source_object_key, source)
    } else {
        blobs
    }
}

/// What follows once the segments up to `blobs` are there: the download of the next one that is
/// not the source, or the temporary file where none is left.
pub open spec fn next_segment(
    job: JobView,
    source: Seq<u8>,
    init: Seq<u8>,
    keys: Seq<Seq<char>>,
    blobs: Seq<Seq<u8>>,
) -> (StageView, ActionView) {
    let have = with_source(keys, blobs, job.event.source_object_key, source);
    if have.len() < keys.len() {
        (
            StageView::Segments { source, init, keys, blobs: have },
            ActionView::GetObject {
                bucket: job.event.source_bucket,
                object_key: keys[have.len() as int],
            },
        )
    } else {
        let file_name = temp_name(job.file_id, "mp4"@);
        (
            StageView::Temp { file_name },
            ActionView::WriteTemp { file_name, bytes: fragmented_audio(init, have) },
        )
    }
}

/// What follows once the source object is there: the initialisation segment beside it where it
/// is a media segment, else the temporary file.
pub open spec fn after_source(job: JobView, source: Seq<u8>) -> (StageView, ActionView) {
    let key = job.event.source_object_key;
    if ".m4s"@.is_suffix_of(key) {
        match (init_object_key(key), variant_prefix(key)) {
            (None, _) => (
                StageView::Over,
                ActionView::Fail("failed to infer init segment key for source object "@ + key),
            ),
            (_, None) => (
                StageView::Over,
                ActionView::Fail("failed to infer variant prefix for source object "@ + key),
            ),
            (Some(init_key), Some(prefix)) => (
                StageView::Init { source, init_key, prefix },
                ActionView::GetObject { bucket: job.event.source_bucket, object_key: init_key },
            ),
        }
    } else {
        let file_name = plain_temp_name(job.file_id, key);
        (StageView::Temp { file_name }, ActionView::WriteTemp { file_name, bytes: source })
    }
}

/// The result of an attempt whose transcript is `transcript`.
pub open spec fn result_of(job: JobView, transcript: transcript::TranscriptView) -> ResultView {
    ResultView {
        bucket: job.subtitle_bucket,
        vtt_object_key: subtitle_key(job.file_id, "subtitles.vtt"@),
        srt_object_key: subtitle_key(job.file_id, "subtitles.srt"@),
        language: transcript.language,
        segments: transcript.segments.len() as usize,
    }
}

/// What follows once the transcript is there: the upload of the WebVTT file.
pub open spec fn after_transcription(
    job: JobView,
    file_name: Seq<char>,
    transcript: transcript::TranscriptView,
) -> (StageView, ActionView) {
    let result = result_of(job, transcript);
    (
        StageView::Vtt {
            file_name,
            srt: vstd::utf8::encode_utf8(subtitle::srt(transcript.segments)),
            result,
        },
        ActionView::Upload {
            bucket: job.subtitle_bucket,
            object_key: result.vtt_object_key,
            bytes: vstd::utf8::encode_utf8(subtitle::webvtt(transcript.segments)),
        },
    )
}

/// How an attempt begins.
pub open spec fn first_step(job: JobView) -> (StageView, ActionView) {
    (StageView::Bucket, ActionView::EnsureBucket { bucket: job.subtitle_bucket })
}

/// How an attempt goes on.
pub open spec fn next_step(job: JobView, stage: StageView, outcome: OutcomeView) -> (
    StageView,
    ActionView,
) {
    match (stage, outcome) {
        (StageView::Cleanup { result }, _) => (StageView::Over, ActionView::Finish(result)),
        (_, OutcomeView::Failed(cause)) => (
            StageView::Over,
            ActionView::Fail(failure_message(job, stage, cause)),
        ),
        (StageView::Bucket, _) => (
            StageView::Source,
            ActionView::GetObject {
                bucket: job.event.source_bucket,
                object_key: job.event.source_object_key,
            },
        ),
        (StageView::Source, OutcomeView::Bytes(source)) => after_source(job, source),
        (StageView::Init { source, prefix, .. }, OutcomeView::Bytes(init)) => (
            StageView::Listing { source, init, prefix },
            ActionView::ListObjects { bucket: job.event.source_bucket, prefix },
        ),
        (StageView::Listing { source, init, .. }, OutcomeView::Keys(listed)) => next_segment(
            job,
            source,
            init,
            segments_to_fetch(listed, job.event.source_object_key),
            Seq::empty(),
        ),
        (StageView::Segments { source, init, keys, blobs }, OutcomeView::Bytes(blob)) => {
            next_segment(job, source, init, keys, blobs.push(blob))
        },
        (StageView::Temp { file_name }, _) => (
            StageView::Transcription { file_name },
            ActionView::Transcribe {
                file_name,
                language: job.event.language,
                num_speakers: job.event.num_speakers,
            },
        ),
        (StageView::Transcription { file_name }, OutcomeView::Transcribed(transcript)) => {
            after_transcription(job, file_name, transcript)
        },
        (StageView::Vtt { file_name, srt, result }, _) => (
            StageView::Srt { file_name, result },
            ActionView::Upload {
                bucket: job.subtitle_bucket,
                object_key: result.srt_object_key,
                bytes: srt,
            },
        ),
        (StageView::Srt { file_name, result }, _) => (
            StageView::Cleanup { result },
            ActionView::RemoveTemp { file_name },
        ),
        _ => (StageView::Over, ActionView::Fail(Seq::empty())),
    }
}

impl PipelineStage {
    /// Whether `outcome` is one that the stage waits for.
    pub fn awaits(&self, outcome: &PipelineOutcome) -> (r: bool)
        ensures
            r == accepts(self@, outcome@),
    {
        match self {
            PipelineStage::Bucket
            | PipelineStage::Temp { .. }
            | PipelineStage::Vtt { .. }
            | PipelineStage::Srt { .. }
            | PipelineStage::Cleanup { .. } => matches!(
                outcome,
                PipelineOutcome::Done | PipelineOutcome::Failed(_)
            ),
            PipelineStage::Source | PipelineStage::Init { .. } => matches!(
                outcome,
                PipelineOutcome::Bytes(_) | PipelineOutcome::Failed(_)
            ),
            PipelineStage::Listing { .. } => matches!(
                outcome,
                PipelineOutcome::Keys(_) | PipelineOutcome::Failed(_)
            ),
            PipelineStage::Segments { keys, blobs, .. } => blobs.len() < keys.len() && matches!(
                outcome,
                PipelineOutcome::Bytes(_) | PipelineOutcome::Failed(_)
            ),
            PipelineStage::Transcription { .. } => matches!(
                outcome,
                PipelineOutcome::Transcribed(_) | PipelineOutcome::Failed(_)
            ),
            PipelineStage::Over => false,
        }
    }
}

/// A copy of a string that may be absent.
fn copy_text(s: &Option<String>) -> (r: Option<String>)
    ensures
        transcript::text_of(r) == transcript::text_of(*s),
{
    match s {
        Some(t) => Some(t.clone()),
        None => None,
    }
}

/// The next segment to download, or the temporary file where all are there.
fn fetch_segments(
    job: &SubtitleJob,
    source: Vec<u8>,
    init: Vec<u8>,
    keys: Vec<String>,
    blobs: Vec<Vec<u8>>,
) -> (r: (PipelineStage, PipelineAction))
    ensures
        (r.0@, r.1@) == next_segment(
            job@,
            source@,
            init@,
            ordering::texts_of(keys@),
            blobs_of(blobs@),
        ),
{
    let mut have: Vec<Vec<u8>> = blobs;
    let ghost names = ordering::texts_of(keys@);
    let ghost source_key = job.event.source_object_key@;
    let ghost target = with_source(names, blobs_of(blobs@), source_key, source@);
    while have.len() < keys.len() && text::same_text(
        keys[have.len()].as_str(),
        job.event.source_object_key.as_str(),
    )
        invariant
            names == ordering::texts_of(keys@),
            source_key == job.event.source_object_key@,
            target == with_source(names, blobs_of(have@), source_key, source@),
        decreases keys.len() - have.len(),
    {
        let ghost before = blobs_of(have@);
        have.push(vstd::slice::slice_to_vec(source.as_slice()));
        assert(blobs_of(have@) == before.push(source@));
    }
    assert(target == blobs_of(have@));
    if have.len() < keys.len() {
        let bucket: String = job.event.source_bucket.clone();
        let object_key: String = keys[have.len()].clone();
        (
            PipelineStage::Segments { source, init, keys, blobs: have },
            PipelineAction::GetObject { bucket, object_key },
        )
    } else {
        let file_name: String = temp_fragmented_audio_name(job.file_id);
        let bytes: Vec<u8> = merge_fragments(init, &have);
        (
            PipelineStage::Temp { file_name: file_name.clone() },
            PipelineAction::WriteTemp { file_name, bytes },
        )
    }
}

/// What to do with the source object.
fn use_source(job: &SubtitleJob, source: Vec<u8>) -> (r: (PipelineStage, PipelineAction))
    ensures
        (r.0@, r.1@) == after_source(job@, source@),
{
    let key: &str = job.event.source_object_key.as_str();
    if text::ends_with(key, ".m4s") {
        let init_key: String = match infer_init_object_key(key) {
            Some(init_key) => init_key,
            None => {
                return (
                    PipelineStage::Over,
                    PipelineAction::Fail(
                        describe_key_failure(
                            "failed to infer init segment key for source object ",
                            key,
                        ),
                    ),
                );
            },
        };
        let prefix: String = match infer_variant_prefix(key) {
            Some(prefix) => prefix,
            None => {
                return (
                    PipelineStage::Over,
                    PipelineAction::Fail(
                        describe_key_failure(
                            "failed to infer variant prefix for source object ",
                            key,
                        ),
                    ),
                );
            },
        };
        (
            PipelineStage::Init { source, init_key: init_key.clone(), prefix },
            PipelineAction::GetObject {
                bucket: job.event.source_bucket.clone(),
                object_key: init_key,
            },
        )
    } else {
        let file_name: String = temp_audio_name(job.file_id, key);
        (
            PipelineStage::Temp { file_name: file_name.clone() },
            PipelineAction::WriteTemp { file_name, bytes: source },
        )
    }
}

/// The upload of the WebVTT file of a transcript.
fn use_transcript(job: &SubtitleJob, file_name: String, transcript: Transcript) -> (r: (
    PipelineStage,
    PipelineAction,
))
    ensures
        (r.0@, r.1@) == after_transcription(job@, file_name@, transcript@),
{
    let vtt: String = subtitle::to_webvtt(&transcript);
    let srt: String = subtitle::to_srt(&transcript);
    let vtt_object_key: String = subtitle_object_key(job.file_id, "subtitles.vtt");
    let srt_object_key: String = subtitle_object_key(job.file_id, "subtitles.srt");
    let result: SubtitleResult = SubtitleResult {
        bucket: job.subtitle_bucket.clone(),
        vtt_object_key: vtt_object_key.clone(),
        srt_object_key,
        language: transcript.language,
        segments: transcript.segments.len(),
    };
    (
        PipelineStage::Vtt { file_name, srt: srt.as_str().as_bytes_vec(), result },
        PipelineAction::Upload {
            bucket: job.subtitle_bucket.clone(),
            object_key: vtt_object_key,
            bytes: vtt.as_str().as_bytes_vec(),
        },
    )
}

/// The message of an attempt that fails at a stage.
fn describe(job: &SubtitleJob, stage: &PipelineStage, cause: String) -> (r: String)
    requires
        accepts(stage@, OutcomeView::Failed(cause@)),
    ensures
        r@ == failure_message(job@, stage@, cause@),
{
    let bucket: &str = job.event.source_bucket.as_str();
    match stage {
        PipelineStage::Bucket => failure::describe_failure("ensure subtitle bucket", cause.as_str()),
        PipelineStage::Source => describe_object_failure(
            "download source object ",
            bucket,
            job.event.source_object_key.as_str(),
            cause.as_str(),
        ),
        PipelineStage::Init { init_key, .. } => describe_object_failure(
            "download init segment ",
            bucket,
            init_key.as_str(),
            cause.as_str(),
        ),
        PipelineStage::Listing { prefix, .. } => describe_object_failure(
            "list variant segments in ",
            bucket,
            prefix.as_str(),
            cause.as_str(),
        ),
        PipelineStage::Segments { keys, blobs, .. } => describe_object_failure(
            "download media segment ",
            bucket,
            keys[blobs.len()].as_str(),
            cause.as_str(),
        ),
        PipelineStage::Transcription { .. } => failure::describe_failure(
            "transcribe audio",
            cause.as_str(),
        ),
        PipelineStage::Vtt { .. } => failure::describe_failure("upload vtt", cause.as_str()),
        PipelineStage::Srt { .. } => failure::describe_failure("upload srt", cause.as_str()),
        PipelineStage::Temp { .. } | PipelineStage::Cleanup { .. } | PipelineStage::Over => cause,
    }
}

/// Begins an attempt.
pub fn start(job: &SubtitleJob) -> (r: (PipelineStage, PipelineAction))
    ensures
        (r.0@, r.1@) == first_step(job@),
{
    (
        PipelineStage::Bucket,
        PipelineAction::EnsureBucket { bucket: job.subtitle_bucket.clone() },
    )
}

/// Goes on with an attempt, given what became of its last action.
pub fn step(job: &SubtitleJob, stage: PipelineStage, outcome: PipelineOutcome) -> (r: (
    PipelineStage,
    PipelineAction,
))
    requires
        accepts(stage@, outcome@),
    ensures
        (r.0@, r.1@) == next_step(job@, stage@, outcome@),
{
    if let PipelineStage::Cleanup { result } = stage {
        return (PipelineStage::Over, PipelineAction::Finish(result));
    }
    if let PipelineOutcome::Failed(cause) = outcome {
        let message: String = describe(job, &stage, cause);
        return (PipelineStage::Over, PipelineAction::Fail(message));
    }
    match (stage, outcome) {
        (PipelineStage::Bucket, _) => (
            PipelineStage::Source,
            PipelineAction::GetObject {
                bucket: job.event.source_bucket.clone(),
                object_key: job.event.source_object_key.clone(),
            },
        ),
        (PipelineStage::Source, PipelineOutcome::Bytes(source)) => use_source(job, source),
        (PipelineStage::Init { source, prefix, .. }, PipelineOutcome::Bytes(init)) => (
            PipelineStage::Listing { source, init, prefix: prefix.clone() },
            PipelineAction::ListObjects { bucket: job.event.source_bucket.clone(), prefix },
        ),
        (PipelineStage::Listing { source, init, .. }, PipelineOutcome::Keys(listed)) => {
            let keys: Vec<String> = segment_keys(&listed, job.event.source_object_key.as_str());
            let none: Vec<Vec<u8>> = Vec::new();
            assert(blobs_of(none@) == Seq::<Seq<u8>>::empty());
            fetch_segments(job, source, init, keys, none)
        },
        (
            PipelineStage::Segments { source, init, keys, blobs },
            PipelineOutcome::Bytes(blob),
        ) => {
            let mut have: Vec<Vec<u8>> = blobs;
            let ghost before = blobs_of(have@);
            let ghost added = blob@;
            have.push(blob);
            assert(blobs_of(have@) == before.push(added));
            fetch_segments(job, source, init, keys, have)
        },
        (PipelineStage::Temp { file_name }, _) => (
            PipelineStage::Transcription { file_name: file_name.clone() },
            PipelineAction::Transcribe {
                file_name,
                language: copy_text(&job.event.language),
                num_speakers: job.event.num_speakers,
            },
        ),
        (
            PipelineStage::Transcription { file_name },
            PipelineOutcome::Transcribed(transcript),
        ) => use_transcript(job, file_name, transcript),
        (PipelineStage::Vtt { file_name, srt, result }, _) => {
            let object_key: String = result.srt_object_key.clone();
            (
                PipelineStage::Srt { file_name, result },
                PipelineAction::Upload {
                    bucket: job.subtitle_bucket.clone(),
                    object_key,
                    bytes: srt,
                },
            )
        },
        (PipelineStage::Srt { file_name, result }, _) => (
            PipelineStage::Cleanup { result },
            PipelineAction::RemoveTemp { file_name },
        ),
        _ => (PipelineStage::Over, PipelineAction::Fail(String::new())),
    }
}

/// The order of the stages.
pub open spec fn phase(stage: StageView) -> int {
    match stage {
        StageView::Bucket => 0,
        StageView::Source => 1,
        StageView::Init { .. } => 2,
        StageView::Listing { .. } => 3,
        StageView::Segments { .. } => 4,
        StageView::Temp { .. } => 5,
        StageView::Transcription { .. } => 6,
        StageView::Vtt { .. } => 7,
        StageView::Srt { .. } => 8,
        StageView::Cleanup { .. } => 9,
        StageView::Over => 10,
    }
}

/// The source fills places behind the blobs and leaves the blobs as they are; a place is left
/// only for a segment other than the source.
pub proof fn lemma_with_source(
    keys: Seq<Seq<char>>,
    blobs: Seq<Seq<u8>>,
    source_object_key: Seq<char>,
    source: Seq<u8>,
)
    requires
        blobs.len() <= keys.len(),
    ensures
        blobs.len() <= with_source(keys, blobs, source_object_key, source).len() <= keys.len(),
        blobs.is_prefix_of(with_source(keys, blobs, source_object_key, source)),
        forall|i: int|
            #![trigger keys[i]]
            #![trigger with_source(keys, blobs, source_object_key, source)[i]]
            blobs.len() <= i < with_source(keys, blobs, source_object_key, source).len() ==> keys[i]
                == source_object_key && with_source(keys, blobs, source_object_key, source)[i]
                == source,
    decreases keys.len() - blobs.len(),
{
    if blobs.len() < keys.len() && keys[blobs.len() as int] == source_object_key {
        let more = blobs.push(source);
        lemma_with_source(keys, more, source_object_key, source);
        let all = with_source(keys, blobs, source_object_key, source);
        assert(all == with_source(keys, more, source_object_key, source));
        assert forall|i: int| 0 <= i < more.len() implies more[i] == #[trigger] all[i] by {
            assert(more[i] == all.take(more.len() as int)[i]);
        }
        assert(blobs =~= all.take(blobs.len() as int)) by {
            assert forall|i: int| 0 <= i < blobs.len() implies blobs[i] == all[i] by {
                assert(blobs[i] == more[i]);
            }
        }
        assert forall|i: int|
            #![trigger keys[i]]
            #![trigger all[i]]
            blobs.len() <= i < all.len() implies keys[i] == source_object_key && all[i]
            == source by {
            if i == blobs.len() {
                assert(more[i] == all[i]);
            }
        }
    }
}

/// An attempt never goes back: each step leads to a later stage, or to the download of a later
/// segment. So every attempt ends.
pub proof fn law_every_step_advances(job: JobView, stage: StageView, outcome: OutcomeView)
    requires
        accepts(stage, outcome),
    ensures
        phase(stage) < phase(next_step(job, stage, outcome).0) || {
            &&& stage matches StageView::Segments { keys, blobs, .. }
            &&& next_step(job, stage, outcome).0 matches StageView::Segments {
                keys: next_keys,
                blobs: next_blobs,
                ..
            }
            &&& next_keys == keys
            &&& blobs.len() < next_blobs.len() < keys.len()
        },
{
    if let StageView::Segments { source, keys, blobs, .. } = stage {
        if let OutcomeView::Bytes(blob) = outcome {
            lemma_with_source(keys, blobs.push(blob), job.event.source_object_key, source);
        }
    }
}

/// Each step leads to a stage that can go on, unless the attempt is over, and it is over exactly
/// when the action is the last one.
pub proof fn law_attempt_is_over_when_it_says_so(
    job: JobView,
    stage: StageView,
    outcome: OutcomeView,
)
    requires
        accepts(stage, outcome),
    ensures
        next_step(job, stage, outcome).0 is Over <==> (next_step(job, stage, outcome).1 is Finish
            || next_step(job, stage, outcome).1 is Fail),
        !(next_step(job, stage, outcome).0 is Over) ==> accepts(
            next_step(job, stage, outcome).0,
            OutcomeView::Failed(Seq::empty()),
        ),
{
}

/// An action that fails ends the attempt with a message that ends with the cause; only a
/// temporary file that cannot be removed does no harm.
pub proof fn law_failure_ends_the_attempt(job: JobView, stage: StageView, cause: Seq<char>)
    requires
        accepts(stage, OutcomeView::Failed(cause)),
    ensures
        stage matches StageView::Cleanup { result } ==> next_step(
            job,
            stage,
            OutcomeView::Failed(cause),
        ).1 == ActionView::Finish(result),
        !(stage is Cleanup) ==> {
            &&& next_step(job, stage, OutcomeView::Failed(cause)).0 is Over
            &&& next_step(job, stage, OutcomeView::Failed(cause)).1 matches ActionView::Fail(m)
            &&& cause.is_suffix_of(m)
        },
{
}

/// From the temporary file on: the file is transcribed in the language and with the number of
/// speakers of the request, the WebVTT file is uploaded, then the SRT file, both rendered from
/// the transcript, then the temporary file is removed, and the result names what was uploaded.
pub proof fn law_transcript_is_uploaded_in_both_formats(
    job: JobView,
    file_name: Seq<char>,
    transcript: transcript::TranscriptView,
    removal: OutcomeView,
)
    requires
        removal is Done || removal is Failed,
    ensures
        ({
            let (s1, a1) = next_step(job, StageView::Temp { file_name }, OutcomeView::Done);
            let (s2, a2) = next_step(job, s1, OutcomeView::Transcribed(transcript));
            let (s3, a3) = next_step(job, s2, OutcomeView::Done);
            let (s4, a4) = next_step(job, s3, OutcomeView::Done);
            let (s5, a5) = next_step(job, s4, removal);
            &&& a1 == ActionView::Transcribe {
                file_name,
                language: job.event.language,
                num_speakers: job.event.num_speakers,
            }
            &&& a2 == ActionView::Upload {
                bucket: job.subtitle_bucket,
                object_key: subtitle_key(job.file_id, "subtitles.vtt"@),
                bytes: vstd::utf8::encode_utf8(subtitle::webvtt(transcript.segments)),
            }
            &&& a3 == ActionView::Upload {
                bucket: job.subtitle_bucket,
                object_key: subtitle_key(job.file_id, "subtitles.srt"@),
                bytes: vstd::utf8::encode_utf8(subtitle::srt(transcript.segments)),
            }
            &&& a4 == ActionView::RemoveTemp { file_name }
            &&& a5 == ActionView::Finish(result_of(job, transcript))
            &&& s5 is Over
        }),
{
}

/// What a stage holds of the objects that it has downloaded, given what the storage holds.
pub open spec fn holds_downloads(
    job: JobView,
    stage: StageView,
    content: spec_fn(Seq<char>) -> Seq<u8>,
) -> bool {
    let source_key = job.event.source_object_key;
    match stage {
        StageView::Init { source, init_key, .. } => {
            &&& source == content(source_key)
            &&& init_object_key(source_key) == Some(init_key)
        },
        StageView::Listing { source, init, .. } => {
            &&& source == content(source_key)
            &&& init_object_key(source_key) matches Some(init_key)
            &&& init == content(init_key)
        },
        StageView::Segments { source, init, keys, blobs } => {
            &&& source == content(source_key)
            &&& init_object_key(source_key) matches Some(init_key)
            &&& init == content(init_key)
            &&& blobs.len() <= keys.len()
            &&& forall|i: int| 0 <= i < blobs.len() ==> #[trigger] blobs[i] == content(keys[i])
        },
        _ => true,
    }
}

/// Whether the bytes of an outcome are those that the storage holds under the key that the stage
/// has asked for.
pub open spec fn is_download(
    job: JobView,
    stage: StageView,
    outcome: OutcomeView,
    content: spec_fn(Seq<char>) -> Seq<u8>,
) -> bool {
    match (stage, outcome) {
        (StageView::Source, OutcomeView::Bytes(bytes)) => bytes == content(
            job.event.source_object_key,
        ),
        (StageView::Init { init_key, .. }, OutcomeView::Bytes(bytes)) => bytes == content(init_key),
        (StageView::Segments { keys, blobs, .. }, OutcomeView::Bytes(bytes)) => bytes == content(
            keys[blobs.len() as int],
        ),
        _ => true,
    }
}

/// The objects that the temporary file is made of: the source where it is no segment; else the
/// initialisation segment and the segments, in order.
pub open spec fn audio_objects(
    job: JobView,
    stage: StageView,
    outcome: OutcomeView,
) -> Seq<Seq<char>> {
    let source_key = job.event.source_object_key;
    match (stage, outcome) {
        (StageView::Source, _) => seq![source_key],
        (StageView::Listing { .. }, OutcomeView::Keys(listed)) => seq![
            init_object_key(source_key)->0,
        ] + segments_to_fetch(listed, source_key),
        (StageView::Segments { keys, .. }, _) => seq![init_object_key(source_key)->0] + keys,
        _ => Seq::empty(),
    }
}

/// Segments whose blobs are what the storage holds make up the audio file.
proof fn lemma_fragments(
    init_key: Seq<char>,
    keys: Seq<Seq<char>>,
    blobs: Seq<Seq<u8>>,
    content: spec_fn(Seq<char>) -> Seq<u8>,
)
    requires
        blobs.len() == keys.len(),
        forall|i: int| 0 <= i < blobs.len() ==> #[trigger] blobs[i] == content(keys[i]),
    ensures
        fragmented_audio(content(init_key), blobs) == (seq![init_key] + keys).map_values(
            content,
        ).flatten(),
{
    let all = (seq![init_key] + keys).map_values(content);
    assert(all.drop_first() =~= blobs);
    assert(all.first() == content(init_key));
}

/// The next segment keeps what the storage holds.
proof fn lemma_next_segment(
    job: JobView,
    source: Seq<u8>,
    init: Seq<u8>,
    keys: Seq<Seq<char>>,
    blobs: Seq<Seq<u8>>,
    content: spec_fn(Seq<char>) -> Seq<u8>,
)
    requires
        holds_downloads(job, StageView::Segments { source, init, keys, blobs }, content),
    ensures
        holds_downloads(job, next_segment(job, source, init, keys, blobs).0, content),
        next_segment(job, source, init, keys, blobs).1 matches ActionView::WriteTemp { bytes, .. }
            ==> bytes == (seq![init_object_key(job.event.source_object_key)->0] + keys).map_values(
            content,
        ).flatten(),
{
    let source_key = job.event.source_object_key;
    let have = with_source(keys, blobs, source_key, source);
    lemma_with_source(keys, blobs, source_key, source);
    assert forall|i: int| 0 <= i < have.len() implies #[trigger] have[i] == content(keys[i]) by {
        if i < blobs.len() {
            assert(have[i] == blobs[i]);
        }
    }
    if have.len() >= keys.len() {
        lemma_fragments(init_object_key(source_key)->0, keys, have, content);
    }
}

/// Where each download gives what the storage holds under its key, the temporary file holds the
/// source object where that is no media segment, and else the initialisation segment followed
/// by every segment in order, each in full and none twice but where its key is listed twice.
pub proof fn law_temporary_file_holds_the_audio(
    job: JobView,
    stage: StageView,
    outcome: OutcomeView,
    content: spec_fn(Seq<char>) -> Seq<u8>,
)
    requires
        accepts(stage, outcome),
        holds_downloads(job, stage, content),
        is_download(job, stage, outcome, content),
    ensures
        holds_downloads(job, next_step(job, stage, outcome).0, content),
        next_step(job, stage, outcome).1 matches ActionView::WriteTemp { bytes, .. } ==> bytes
            == audio_objects(job, stage, outcome).map_values(content).flatten(),
{
    match (stage, outcome) {
        (StageView::Source, OutcomeView::Bytes(source)) => {
            let one = seq![job.event.source_object_key].map_values(content);
            assert(one =~= seq![source]);
            one.lemma_flatten_one_element();
        },
        (StageView::Listing { source, init, .. }, OutcomeView::Keys(listed)) => {
            let keys = segments_to_fetch(listed, job.event.source_object_key);
            lemma_next_segment(job, source, init, keys, Seq::empty(), content);
        },
        (StageView::Segments { source, init, keys, blobs }, OutcomeView::Bytes(blob)) => {
            lemma_next_segment(job, source, init, keys, blobs.push(blob), content);
        },
        _ => {},
    }
}

/// The segments to put together are in ascending order of their keys; where any is listed they
/// are those listed, each as often as it is listed.
pub proof fn law_segments_are_in_order(listed: Seq<Seq<char>>, source_object_key: Seq<char>)
    ensures
        segments_to_fetch(listed, source_object_key).len() > 0,
        vstd::relations::sorted_by(
            segments_to_fetch(listed, source_object_key),
            ordering::text_order(),
        ),
        listed.filter(|key: Seq<char>| is_segment(key)).len() > 0 ==> segments_to_fetch(
            listed,
            source_object_key,
        ).to_multiset() == listed.filter(|key: Seq<char>| is_segment(key)).to_multiset(),
{
    let found = listed.filter(|key: Seq<char>| is_segment(key));
    ordering::law_text_order_is_total();
    found.lemma_sort_by_ensures(ordering::text_order());
    found.to_multiset_ensures();
    found.sort_by(ordering::text_order()).to_multiset_ensures();
}

/// The keys beside a media segment can always be inferred: an attempt never fails for want of
/// them.
pub proof fn law_segment_has_neighbours(source_object_key: Seq<char>)
    requires
        ".m4s"@.is_suffix_of(source_object_key),
    ensures
        init_object_key(source_object_key) is Some,
        variant_prefix(source_object_key) is Some,
{
    reveal_strlit(".m4s");
    assert(source_object_key.last() == ".m4s"@.last());
    object_path::law_named_path_has_directory(source_object_key);
}

/// For a segment in a directory, the initialisation segment is `init.mp4` in that directory, and
/// the prefix is the directory with a slash behind it, so that the keys of both objects begin
/// with it.
pub proof fn law_neighbours_share_the_directory(dir: Seq<char>, name: Seq<char>)
    requires
        dir.len() > 0,
        dir.last() != '/',
        dir.len() > 1 ==> !(dir.last() == '.' && dir[dir.len() - 2] == '/'),
        !object_path::is_void(name),
        forall|i: int| 0 <= i < name.len() ==> #[trigger] name[i] != '/',
    ensures
        init_object_key(dir + "/"@ + name) == Some(dir + "/"@ + "init.mp4"@),
        variant_prefix(dir + "/"@ + name) == Some(dir + "/"@),
        (dir + "/"@).is_prefix_of(dir + "/"@ + name),
        (dir + "/"@).is_prefix_of(dir + "/"@ + "init.mp4"@),
{
    reveal_strlit("/");
    assert("/"@ =~= seq!['/']);
    object_path::law_directory_of_joined(dir, name);
}

/// Two texts between the same texts differ where they differ themselves.
proof fn lemma_between(a: Seq<char>, b: Seq<char>, front: Seq<char>, back: Seq<char>)
    requires
        a.len() == b.len(),
        front + a + back == front + b + back,
    ensures
        a == b,
{
    assert((front + a + back).subrange(front.len() as int, (front.len() + a.len()) as int) =~= a);
    assert((front + b + back).subrange(front.len() as int, (front.len() + b.len()) as int) =~= b);
}

/// The subtitles of different files are stored under different keys.
pub proof fn law_subtitle_keys_are_distinct(a: FileId, b: FileId, name: Seq<char>)
    requires
        a.value != b.value,
    ensures
        subtitle_key(a, name) != subtitle_key(b, name),
        subtitle_key(a, "subtitles.vtt"@) != subtitle_key(a, "subtitles.srt"@),
{
    file_id::law_different_ids_have_different_texts(a, b);
    let front = "media/"@;
    let (s, t) = (file_id::uuid_text(a.value), file_id::uuid_text(b.value));
    if subtitle_key(a, name) == subtitle_key(b, name) {
        text::lemma_concat(front + s, "/"@, name);
        text::lemma_concat(front + t, "/"@, name);
        lemma_between(s, t, front, "/"@ + name);
    }
    reveal_strlit("subtitles.vtt");
    reveal_strlit("subtitles.srt");
    let (v, w) = (subtitle_key(a, "subtitles.vtt"@), subtitle_key(a, "subtitles.srt"@));
    assert(v[v.len() - 2] == 't' && w[w.len() - 2] == 'r');
}

/// The public address of the subtitles of a result is that of the bucket with the key behind it,
/// for a bucket without slashes at its ends.
pub proof fn law_subtitles_have_public_addresses(
    job: JobView,
    transcript: transcript::TranscriptView,
)
    requires
        job.subtitle_bucket.len() > 0 ==> job.subtitle_bucket[0] != '/'
            && job.subtitle_bucket.last() != '/',
    ensures
        ({
            let result = result_of(job, transcript);
            let base = kafka::PUBLIC_S3_BASE_URL@ + "/"@ + job.subtitle_bucket + "/"@;
            &&& kafka::public_url(result.bucket, result.vtt_object_key) == base + subtitle_key(
                job.file_id,
                "subtitles.vtt"@,
            )
            &&& kafka::public_url(result.bucket, result.srt_object_key) == base + subtitle_key(
                job.file_id,
                "subtitles.srt"@,
            )
        }),
{
    let result = result_of(job, transcript);
    reveal_strlit("media/");
    assert(result.vtt_object_key[0] == 'm' && result.srt_object_key[0] == 'm');
    kafka::law_public_url_of_plain_names(result.bucket, result.vtt_object_key);
    kafka::law_public_url_of_plain_names(result.bucket, result.srt_object_key);
}

/// A filter keeps each element that satisfies it as often as it was there, and no other.
proof fn lemma_filter_count(s: Seq<Seq<char>>, p: spec_fn(Seq<char>) -> bool, key: Seq<char>)
    ensures
        s.filter(p).to_multiset().count(key) == if p(key) {
            s.to_multiset().count(key)
        } else {
            0
        },
    decreases s.len(),
{
    if s.len() == 0 {
        assert(s.filter(p) == s) by {
            reveal(Seq::filter);
        }
        s.to_multiset_ensures();
        assert(!s.contains(key));
        assert(s.to_multiset().count(key) == 0);
    } else {
        let front = s.drop_last();
        lemma_filter_count(front, p, key);
        assert(s == front.push(s.last()));
        front.lemma_filter_push(s.last(), p);
        front.to_multiset_ensures();
        front.filter(p).to_multiset_ensures();
    }
}

/// Every listed key that ends with `.m4s` is fetched exactly as often as it is listed, the first
/// one included, and nothing is fetched that is not listed with that ending, except the source
/// where no listed key has it.
pub proof fn law_every_listed_segment_is_fetched(
    listed: Seq<Seq<char>>,
    source_object_key: Seq<char>,
    key: Seq<char>,
)
    ensures
        ".m4s"@.is_suffix_of(key) && listed.contains(key) ==> segments_to_fetch(
            listed,
            source_object_key,
        ).to_multiset().count(key) == listed.to_multiset().count(key),
        segments_to_fetch(listed, source_object_key).contains(key) ==> {
            ||| ".m4s"@.is_suffix_of(key) && listed.contains(key)
            ||| key == source_object_key && forall|i: int|
                0 <= i < listed.len() ==> !".m4s"@.is_suffix_of(#[trigger] listed[i])
        },
        (forall|i: int| 0 <= i < listed.len() ==> !".m4s"@.is_suffix_of(#[trigger] listed[i]))
            ==> segments_to_fetch(listed, source_object_key) == seq![source_object_key],
{
    reveal_strlit(".m4s");
    reveal_strlit("init.mp4");
    let p = |key: Seq<char>| is_segment(key);
    let found = listed.filter(p);
    assert forall|k: Seq<char>| #[trigger] p(k) == ".m4s"@.is_suffix_of(k) by {
        if ".m4s"@.is_suffix_of(k) && "init.mp4"@.is_suffix_of(k) {
            assert(k.last() == ".m4s"@.last());
            assert(k.last() == "init.mp4"@.last());
        }
    }
    lemma_filter_count(listed, p, key);
    listed.to_multiset_ensures();
    found.to_multiset_ensures();
    law_segments_are_in_order(listed, source_object_key);
    segments_to_fetch(listed, source_object_key).to_multiset_ensures();
    if forall|i: int| 0 <= i < listed.len() ==> !".m4s"@.is_suffix_of(#[trigger] listed[i]) {
        if found.len() > 0 {
            let k = found[0];
            lemma_filter_count(listed, p, k);
            assert(found.contains(k));
            assert(listed.contains(k));
        }
    } else {
        let i = choose|i: int|
            0 <= i < listed.len() && ".m4s"@.is_suffix_of(#[trigger] listed[i]);
        lemma_filter_count(listed, p, listed[i]);
        assert(listed.contains(listed[i]));
        assert(found.contains(listed[i]));
    }
}

/// An attempt that finishes reports what it has uploaded: as many segments as the transcript has,
/// the language of the transcript, the bucket of the subtitles and the two keys.
pub proof fn law_result_reports_the_transcript(
    job: JobView,
    file_name: Seq<char>,
    transcript: transcript::TranscriptView,
    removal: OutcomeView,
)
    requires
        transcript.segments.len() <= usize::MAX,
        removal is Done || removal is Failed,
    ensures
        ({
            let s1 = next_step(
                job,
                StageView::Transcription { file_name },
                OutcomeView::Transcribed(transcript),
            ).0;
            let s2 = next_step(job, s1, OutcomeView::Done).0;
            let s3 = next_step(job, s2, OutcomeView::Done).0;
            let id = file_id::uuid_text(job.file_id.value);
            &&& next_step(job, s3, removal).1 matches ActionView::Finish(result)
            &&& result.segments == transcript.segments.len()
            &&& result.language == transcript.language
            &&& result.bucket == job.subtitle_bucket
            &&& result.vtt_object_key == "media/"@ + id + "/subtitles.vtt"@
            &&& result.srt_object_key == "media/"@ + id + "/subtitles.srt"@
        }),
{
    reveal_strlit("/");
    reveal_strlit("subtitles.vtt");
    reveal_strlit("subtitles.srt");
    reveal_strlit("/subtitles.vtt");
    reveal_strlit("/subtitles.srt");
    let id = file_id::uuid_text(job.file_id.value);
    assert("/"@ + "subtitles.vtt"@ =~= "/subtitles.vtt"@);
    assert("/"@ + "subtitles.srt"@ =~= "/subtitles.srt"@);
    text::lemma_concat("media/"@ + id, "/"@, "subtitles.vtt"@);
    text::lemma_concat("media/"@ + id, "/"@, "subtitles.srt"@);
}

/// The message of an attempt that fails says what failed, on which object where there is one, and
/// the cause; one that fails at the temporary file says the cause alone.
pub proof fn law_failure_says_what_failed(job: JobView, stage: StageView, cause: Seq<char>)
    requires
        accepts(stage, OutcomeView::Failed(cause)),
        !(stage is Cleanup),
    ensures
        ({
            let from = job.event.source_bucket + "/"@;
            next_step(job, stage, OutcomeView::Failed(cause)).1 == ActionView::Fail(
                match stage {
                    StageView::Bucket => "ensure subtitle bucket"@ + ": "@ + cause,
                    StageView::Source => "download source object "@ + from
                        + job.event.source_object_key + ": "@ + cause,
                    StageView::Init { init_key, .. } => "download init segment "@ + from + init_key
                        + ": "@ + cause,
                    StageView::Listing { prefix, .. } => "list variant segments in "@ + from
                        + prefix + ": "@ + cause,
                    StageView::Segments { keys, blobs, .. } => "download media segment "@ + from
                        + keys[blobs.len() as int] + ": "@ + cause,
                    StageView::Transcription { .. } => "transcribe audio"@ + ": "@ + cause,
                    StageView::Vtt { .. } => "upload vtt"@ + ": "@ + cause,
                    StageView::Srt { .. } => "upload srt"@ + ": "@ + cause,
                    _ => cause,
                },
            )
        }),
{
    let bucket = job.event.source_bucket;
    text::lemma_concat("download source object "@, bucket, "/"@);
    text::lemma_concat("download init segment "@, bucket, "/"@);
    text::lemma_concat("list variant segments in "@, bucket, "/"@);
    text::lemma_concat("download media segment "@, bucket, "/"@);
}

/// A key without a slash: the initialisation segment is `init.mp4`, and the prefix a slash.
pub proof fn law_neighbours_of_a_bare_name(name: Seq<char>)
    requires
        !object_path::is_void(name),
        forall|i: int| 0 <= i < name.len() ==> #[trigger] name[i] != '/',
    ensures
        init_object_key(name) == Some("init.mp4"@),
        variant_prefix(name) == Some("/"@),
{
    object_path::law_directory_of_bare_name(name);
    assert(Seq::<char>::empty() + "init.mp4"@ =~= "init.mp4"@);
    assert(Seq::<char>::empty() + "/"@ =~= "/"@);
}

/// A stage goes on with whatever its action can end with: any bytes of a download, any listing, any
/// transcript, and any failure.
pub proof fn law_stages_await_every_answer(
    stage: StageView,
    bytes: Seq<u8>,
    listed: Seq<Seq<char>>,
    transcript: transcript::TranscriptView,
    cause: Seq<char>,
)
    ensures
        stage is Bucket || stage is Temp || stage is Vtt || stage is Srt || stage is Cleanup
            ==> accepts(stage, OutcomeView::Done) && accepts(stage, OutcomeView::Failed(cause)),
        stage is Source || stage is Init ==> accepts(stage, OutcomeView::Bytes(bytes)) && accepts(
            stage,
            OutcomeView::Failed(cause),
        ),
        stage is Listing ==> accepts(stage, OutcomeView::Keys(listed)) && accepts(
            stage,
            OutcomeView::Failed(cause),
        ),
        stage matches StageView::Segments { keys, blobs, .. } ==> blobs.len() < keys.len()
            ==> accepts(stage, OutcomeView::Bytes(bytes)) && accepts(
            stage,
            OutcomeView::Failed(cause),
        ),
        stage is Transcription ==> accepts(stage, OutcomeView::Transcribed(transcript)) && accepts(
            stage,
            OutcomeView::Failed(cause),
        ),
{
}

/// The view of a result, of a job and of an action leaves nothing out.
pub proof fn law_views_show_everything(
    result: SubtitleResult,
    job: SubtitleJob,
    action: PipelineAction,
    outcome: PipelineOutcome,
)
    ensures
        result@.bucket == result.bucket@,
        result@.vtt_object_key == result.vtt_object_key@,
        result@.srt_object_key == result.srt_object_key@,
        result@.language == result.language@,
        result@.segments == result.segments,
        job@.file_id == job.file_id,
        job@.event == job.event@,
        job@.subtitle_bucket == job.subtitle_bucket@,
        action matches PipelineAction::WriteTemp { file_name, bytes } ==> action@
            == (ActionView::WriteTemp { file_name: file_name@, bytes: bytes@ }),
        action matches PipelineAction::GetObject { bucket, object_key } ==> action@
            == (ActionView::GetObject { bucket: bucket@, object_key: object_key@ }),
        action matches PipelineAction::ListObjects { bucket, prefix } ==> action@
            == (ActionView::ListObjects { bucket: bucket@, prefix: prefix@ }),
        action matches PipelineAction::EnsureBucket { bucket } ==> action@
            == (ActionView::EnsureBucket { bucket: bucket@ }),
        action matches PipelineAction::Upload { bucket, object_key, bytes } ==> action@
            == (ActionView::Upload { bucket: bucket@, object_key: object_key@, bytes: bytes@ }),
        action matches PipelineAction::RemoveTemp { file_name } ==> action@
            == (ActionView::RemoveTemp { file_name: file_name@ }),
        action matches PipelineAction::Finish(r) ==> action@ == ActionView::Finish(r@),
        action matches PipelineAction::Fail(m) ==> action@ == ActionView::Fail(m@),
        action matches PipelineAction::Transcribe { file_name, language, num_speakers } ==> {
            &&& action@ matches ActionView::Transcribe {
                file_name: f,
                language: l,
                num_speakers: n,
            }
            &&& f == file_name@
            &&& n == num_speakers
            &&& language is None ==> l is None
            &&& language matches Some(text) ==> l == Some(text@)
        },
        outcome matches PipelineOutcome::Bytes(b) ==> outcome@ == OutcomeView::Bytes(b@),
        outcome matches PipelineOutcome::Transcribed(t) ==> outcome@ == OutcomeView::Transcribed(
            t@,
        ),
        outcome matches PipelineOutcome::Failed(m) ==> outcome@ == OutcomeView::Failed(m@),
        outcome matches PipelineOutcome::Keys(keys) ==> {
            &&& outcome@ matches OutcomeView::Keys(shown)
            &&& shown.len() == keys.len()
            &&& forall|i: int| 0 <= i < keys.len() ==> #[trigger] shown[i] == keys[i]@
        },
{
}

/// Fragments are put one behind the other: the file begins with the initialisation segment, and
/// each further fragment is appended whole.
pub proof fn law_each_fragment_is_appended(init: Seq<u8>, blobs: Seq<Vec<u8>>, blob: Vec<u8>)
    ensures
        fragmented_audio(init, blobs_of(Seq::empty())) == init,
        fragmented_audio(init, blobs_of(blobs.push(blob))) == fragmented_audio(
            init,
            blobs_of(blobs),
        ) + blob@,
{
    let front = blobs_of(blobs);
    assert(blobs_of(blobs.push(blob)) =~= front.push(blob@));
    front.lemma_flatten_push(blob@);
    assert(init + (front.flatten() + blob@) =~= (init + front.flatten()) + blob@);
    assert(blobs_of(Seq::empty()) =~= Seq::<Seq<u8>>::empty());
    assert(init + Seq::<u8>::empty() =~= init);
}

} // verus!

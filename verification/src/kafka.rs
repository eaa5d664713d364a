//! The messages of the worker: their topics, their keys and what they hold.

use vstd::prelude::*;
use crate::clock;
use crate::failure;
use crate::file_id;
use crate::file_id::FileId;
use crate::text;
use crate::transcript;

verus! {

/// Topic of the result for the backend.
pub const TOPIC_SUBTITLE: &'static str = "media.subtitle";

/// Address under which the public can read objects of the storage.
pub const PUBLIC_S3_BASE_URL: &'static str = "https://s3.twcstorage.ru";

/// Topic of the public result.
pub const TOPIC_SUBTITLE_READY: &'static str = "media.subtitle.ready";

/// Topic of public errors.
pub const TOPIC_SUBTITLE_ERROR: &'static str = "media.subtitle.error";

/// Topic that links HLS playlists to their subtitles.
pub const TOPIC_MEDIA_WORKER_EVENTS: &'static str = "media.worker.events";

/// For how many seconds a message may wait to be sent.
pub const SEND_TIMEOUT_SECONDS: u64 = 30;

/// For how many seconds the messages that wait may take to be sent.
pub const FLUSH_TIMEOUT_SECONDS: u64 = 10;

/// The public address of an object: base, bucket and key, with one slash between them whatever
/// slashes surround the bucket or lead the key.
pub open spec fn public_url(bucket: Seq<char>, object_key: Seq<char>) -> Seq<char> {
    PUBLIC_S3_BASE_URL@ + "/"@ + text::strip_end(
        text::strip_start(bucket, text::slash()),
        text::slash(),
    ) + "/"@ + text::strip_start(object_key, text::slash())
}

/// The public address of an object of the storage.
pub fn public_s3_object_url(bucket: &str, object_key: &str) -> (r: String)
    ensures
        r@ == public_url(bucket@, object_key@),
{
    let mut out: String = PUBLIC_S3_BASE_URL.to_string();
    out.append("/");
    out.append(text::trim_slashes(bucket).as_str());
    out.append("/");
    out.append(text::trim_start_slashes(object_key).as_str());
    out
}

/// A request to make subtitles for an object of the storage.
#[derive(Debug, Clone)]
pub struct SubtitleRequestedEvent {
    pub file_id: String,
    pub source_bucket: String,
    pub source_object_key: String,
    pub language: Option<String>,
    pub num_speakers: Option<u32>,
    pub requested_at: String,
}

/// The public result.
#[derive(Debug, Clone)]
pub struct SubtitleReadyEvent {
    pub file_id: String,
    pub bucket: String,
    pub vtt_object_key: String,
    pub srt_object_key: String,
    pub language: String,
    pub segments: usize,
    pub ready_at: String,
}

/// The public addresses of the two subtitle files.
#[derive(Debug, Clone)]
pub struct BackendSubtitleContent {
    pub vtt_object_key: String,
    pub srt_object_key: String,
}

/// The result for the backend.
#[derive(Debug, Clone)]
pub struct BackendSubtitleReadyEvent {
    pub podcast_id: String,
    pub content: BackendSubtitleContent,
    pub ready_at: String,
}

/// A public error.
#[derive(Debug, Clone)]
pub struct SubtitleErrorEvent {
    pub file_id: String,
    pub stage: String,
    pub error_message: String,
    pub timestamp: String,
}

/// The link from an HLS playlist to its subtitles.
#[derive(Debug, Clone)]
pub struct MediaWorkerSubtitleReadyEvent {
    pub file_id: String,
    pub hls_path: String,
    pub subtitle_vtt_path: String,
    pub subtitle_srt_path: String,
    pub language: String,
    pub subtitle_ready_at: String,
}

/// A message on its way: the topic, the key and the value.
#[derive(Debug, Clone)]
pub struct Outgoing<T> {
    pub topic: String,
    pub key: String,
    pub event: T,
}

/// The two messages of a success, in the order in which they are sent.
#[derive(Debug, Clone)]
pub struct ReadyMessages {
    pub public: Outgoing<SubtitleReadyEvent>,
    pub backend: Outgoing<BackendSubtitleReadyEvent>,
}

/// What a request holds, with its strings as sequences of characters.
#[verifier::ext_equal]
pub struct RequestView {
    pub file_id: Seq<char>,
    pub source_bucket: Seq<char>,
    pub source_object_key: Seq<char>,
    pub language: Option<Seq<char>>,
    pub num_speakers: Option<u32>,
    pub requested_at: Seq<char>,
}

impl View for SubtitleRequestedEvent {
    type V = RequestView;

    open spec fn view(&self) -> RequestView {
        RequestView {
            file_id: self.file_id@,
            source_bucket: self.source_bucket@,
            source_object_key: self.source_object_key@,
            language: transcript::text_of(self.language),
            num_speakers: self.num_speakers,
            requested_at: self.requested_at@,
        }
    }
}

/// The result for the backend: the file under the name of podcast, and the public addresses of
/// its subtitles.
pub fn backend_subtitle_ready_event(
    podcast_id: &str,
    bucket: &str,
    vtt_object_key: &str,
    srt_object_key: &str,
    ready_at: String,
) -> (r: BackendSubtitleReadyEvent)
    ensures
        r.podcast_id@ == podcast_id@,
        r.content.vtt_object_key@ == public_url(bucket@, vtt_object_key@),
        r.content.srt_object_key@ == public_url(bucket@, srt_object_key@),
        r.ready_at == ready_at,
{
    BackendSubtitleReadyEvent {
        podcast_id: podcast_id.to_string(),
        content: BackendSubtitleContent {
            vtt_object_key: public_s3_object_url(bucket, vtt_object_key),
            srt_object_key: public_s3_object_url(bucket, srt_object_key),
        },
        ready_at,
    }
}

impl ReadyMessages {
    /// What the two messages of a success say: both go out under the identifier of the file
    /// and both carry the same time; the public one names the objects by bucket and key, the
    /// one for the backend by their public addresses.
    pub open spec fn announce(
        self,
        file_id: FileId,
        bucket: Seq<char>,
        vtt_object_key: Seq<char>,
        srt_object_key: Seq<char>,
        language: Seq<char>,
        segments: usize,
        ready_at: Seq<char>,
    ) -> bool {
        let id = file_id::uuid_text(file_id.value);
        &&& self.public.topic@ == TOPIC_SUBTITLE_READY@
        &&& self.public.key@ == id
        &&& self.public.event.file_id@ == id
        &&& self.public.event.bucket@ == bucket
        &&& self.public.event.vtt_object_key@ == vtt_object_key
        &&& self.public.event.srt_object_key@ == srt_object_key
        &&& self.public.event.language@ == language
        &&& self.public.event.segments == segments
        &&& self.public.event.ready_at@ == ready_at
        &&& self.backend.topic@ == TOPIC_SUBTITLE@
        &&& self.backend.key@ == id
        &&& self.backend.event.podcast_id@ == id
        &&& self.backend.event.content.vtt_object_key@ == public_url(bucket, vtt_object_key)
        &&& self.backend.event.content.srt_object_key@ == public_url(bucket, srt_object_key)
        &&& self.backend.event.ready_at@ == ready_at
    }
}

/// The messages that announce the subtitles of a file as ready at the given time.
pub fn subtitle_ready_messages_at(
    file_id: FileId,
    bucket: &str,
    vtt_object_key: &str,
    srt_object_key: &str,
    language: &str,
    segments: usize,
    ready_at: String,
) -> (r: ReadyMessages)
    ensures
        r.announce(
            file_id,
            bucket@,
            vtt_object_key@,
            srt_object_key@,
            language@,
            segments,
            ready_at@,
        ),
{
    let id: String = file_id.text();
    let backend_event: BackendSubtitleReadyEvent = backend_subtitle_ready_event(
        id.as_str(),
        bucket,
        vtt_object_key,
        srt_object_key,
        ready_at.clone(),
    );
    ReadyMessages {
        public: Outgoing {
            topic: TOPIC_SUBTITLE_READY.to_string(),
            key: id.clone(),
            event: SubtitleReadyEvent {
                file_id: id.clone(),
                bucket: bucket.to_string(),
                vtt_object_key: vtt_object_key.to_string(),
                srt_object_key: srt_object_key.to_string(),
                language: language.to_string(),
                segments,
                ready_at,
            },
        },
        backend: Outgoing { topic: TOPIC_SUBTITLE.to_string(), key: id, event: backend_event },
    }
}

/// The messages that announce the subtitles of a file as ready now.
pub fn subtitle_ready_messages(
    file_id: FileId,
    bucket: &str,
    vtt_object_key: &str,
    srt_object_key: &str,
    language: &str,
    segments: usize,
) -> (r: ReadyMessages)
    ensures
        clock::is_utc_timestamp(r.public.event.ready_at@),
        r.announce(
            file_id,
            bucket@,
            vtt_object_key@,
            srt_object_key@,
            language@,
            segments,
            r.public.event.ready_at@,
        ),
{
    subtitle_ready_messages_at(
        file_id,
        bucket,
        vtt_object_key,
        srt_object_key,
        language,
        segments,
        clock::now_rfc3339(),
    )
}

/// What a message about an error says.
pub open spec fn reports_error(
    message: Outgoing<SubtitleErrorEvent>,
    file_id: FileId,
    stage: Seq<char>,
    error_message: Seq<char>,
    timestamp: Seq<char>,
) -> bool {
    let id = file_id::uuid_text(file_id.value);
    &&& message.topic@ == TOPIC_SUBTITLE_ERROR@
    &&& message.key@ == id
    &&& message.event.file_id@ == id
    &&& message.event.stage@ == stage
    &&& message.event.error_message@ == error_message
    &&& message.event.timestamp@ == timestamp
}

/// The message about an error at the given time.
pub fn subtitle_error_message_at(
    file_id: FileId,
    stage: &str,
    error_message: &str,
    timestamp: String,
) -> (r: Outgoing<SubtitleErrorEvent>)
    ensures
        reports_error(r, file_id, stage@, error_message@, timestamp@),
{
    let id: String = file_id.text();
    Outgoing {
        topic: TOPIC_SUBTITLE_ERROR.to_string(),
        key: id.clone(),
        event: SubtitleErrorEvent {
            file_id: id,
            stage: stage.to_string(),
            error_message: error_message.to_string(),
            timestamp,
        },
    }
}

/// The message about an error now.
pub fn subtitle_error_message(file_id: FileId, stage: &str, error_message: &str) -> (r: Outgoing<
    SubtitleErrorEvent,
>)
    ensures
        clock::is_utc_timestamp(r.event.timestamp@),
        reports_error(r, file_id, stage@, error_message@, r.event.timestamp@),
{
    subtitle_error_message_at(file_id, stage, error_message, clock::now_rfc3339())
}

/// What a message that links a playlist to its subtitles says.
pub open spec fn links_subtitles(
    message: Outgoing<MediaWorkerSubtitleReadyEvent>,
    file_id: FileId,
    hls_path: Seq<char>,
    subtitle_vtt_path: Seq<char>,
    subtitle_srt_path: Seq<char>,
    language: Seq<char>,
    ready_at: Seq<char>,
) -> bool {
    let id = file_id::uuid_text(file_id.value);
    &&& message.topic@ == TOPIC_MEDIA_WORKER_EVENTS@
    &&& message.key@ == id
    &&& message.event.file_id@ == id
    &&& message.event.hls_path@ == hls_path
    &&& message.event.subtitle_vtt_path@ == subtitle_vtt_path
    &&& message.event.subtitle_srt_path@ == subtitle_srt_path
    &&& message.event.language@ == language
    &&& message.event.subtitle_ready_at@ == ready_at
}

/// The message that links a playlist to its subtitles at the given time.
pub fn worker_subtitle_ready_message_at(
    file_id: FileId,
    hls_path: &str,
    subtitle_vtt_path: &str,
    subtitle_srt_path: &str,
    language: &str,
    ready_at: String,
) -> (r: Outgoing<MediaWorkerSubtitleReadyEvent>)
    ensures
        links_subtitles(
            r,
            file_id,
            hls_path@,
            subtitle_vtt_path@,
            subtitle_srt_path@,
            language@,
            ready_at@,
        ),
{
    let id: String = file_id.text();
    Outgoing {
        topic: TOPIC_MEDIA_WORKER_EVENTS.to_string(),
        key: id.clone(),
        event: MediaWorkerSubtitleReadyEvent {
            file_id: id,
            hls_path: hls_path.to_string(),
            subtitle_vtt_path: subtitle_vtt_path.to_string(),
            subtitle_srt_path: subtitle_srt_path.to_string(),
            language: language.to_string(),
            subtitle_ready_at: ready_at,
        },
    }
}

/// The message that links a playlist to its subtitles now.
pub fn worker_subtitle_ready_message(
    file_id: FileId,
    hls_path: &str,
    subtitle_vtt_path: &str,
    subtitle_srt_path: &str,
    language: &str,
) -> (r: Outgoing<MediaWorkerSubtitleReadyEvent>)
    ensures
        clock::is_utc_timestamp(r.event.subtitle_ready_at@),
        links_subtitles(
            r,
            file_id,
            hls_path@,
            subtitle_vtt_path@,
            subtitle_srt_path@,
            language@,
            r.event.subtitle_ready_at@,
        ),
{
    worker_subtitle_ready_message_at(
        file_id,
        hls_path,
        subtitle_vtt_path,
        subtitle_srt_path,
        language,
        clock::now_rfc3339(),
    )
}

/// The result of sending the two messages of a success, both of which were tried: the error of
/// the public one where it failed, else whatever became of the one for the backend.
pub fn combine_send_results<E>(public: Result<(), E>, backend: Result<(), E>) -> (r: Result<
    (),
    E,
>)
    ensures
        public is Err ==> r == public,
        public is Ok ==> r == backend,
{
    match public {
        Err(error) => Err(error),
        Ok(()) => backend,
    }
}

/// The text of a failed delivery.
pub fn send_failure(cause: &str) -> (r: String)
    ensures
        r@ == failure::with_cause("Kafka send failed"@, cause@),
{
    failure::describe_failure("Kafka send failed", cause)
}

/// A slash behind a text changes nothing of what stripping the slashes at both ends leaves.
proof fn lemma_slash_behind(s: Seq<char>)
    ensures
        text::strip_end(text::strip_start(s.push('/'), text::slash()), text::slash())
            == text::strip_end(text::strip_start(s, text::slash()), text::slash()),
    decreases s.len(),
{
    let p = text::slash();
    let t = s.push('/');
    if s.len() == 0 {
        assert(t.drop_first() == Seq::<char>::empty());
        reveal_with_fuel(text::strip_start, 2);
    } else if p(s[0]) {
        assert(t.drop_first() == s.drop_first().push('/'));
        lemma_slash_behind(s.drop_first());
    } else {
        assert(t[0] == s[0]);
        assert(t.drop_last() == s);
    }
}

/// So many slashes.
pub open spec fn slashes(n: nat) -> Seq<char> {
    Seq::new(n, |i: int| '/')
}

/// Slashes before a text change nothing of what stripping the slashes at its start leaves.
proof fn lemma_slashes_before(s: Seq<char>, n: nat)
    ensures
        text::strip_start(slashes(n) + s, text::slash()) == text::strip_start(s, text::slash()),
    decreases n,
{
    let t = slashes(n) + s;
    if n == 0 {
        assert(t == s);
    } else {
        assert(t.drop_first() == slashes((n - 1) as nat) + s);
        lemma_slashes_before(s, (n - 1) as nat);
    }
}

/// Slashes behind a text change nothing of what stripping the slashes at both ends leaves.
proof fn lemma_slashes_behind(s: Seq<char>, n: nat)
    ensures
        text::strip_end(text::strip_start(s + slashes(n), text::slash()), text::slash())
            == text::strip_end(text::strip_start(s, text::slash()), text::slash()),
    decreases n,
{
    if n == 0 {
        assert(s + slashes(n) == s);
    } else {
        assert(s + slashes(n) == (s + slashes((n - 1) as nat)).push('/'));
        lemma_slash_behind(s + slashes((n - 1) as nat));
        lemma_slashes_behind(s, (n - 1) as nat);
    }
}

/// Slashes around the bucket and before the key, however many, do not change a public address.
pub proof fn law_public_url_ignores_outer_slashes(
    bucket: Seq<char>,
    object_key: Seq<char>,
    before: nat,
    behind: nat,
    leading: nat,
)
    ensures
        public_url(slashes(before) + bucket + slashes(behind), slashes(leading) + object_key)
            == public_url(bucket, object_key),
{
    lemma_slashes_behind(slashes(before) + bucket, behind);
    lemma_slashes_before(bucket, before);
    lemma_slashes_before(object_key, leading);
}

/// Where neither has outer slashes, the public address is base, bucket and key between single
/// slashes.
pub proof fn law_public_url_of_plain_names(bucket: Seq<char>, object_key: Seq<char>)
    requires
        bucket.len() > 0 ==> bucket[0] != '/' && bucket.last() != '/',
        object_key.len() > 0 ==> object_key[0] != '/',
    ensures
        public_url(bucket, object_key) == PUBLIC_S3_BASE_URL@ + "/"@ + bucket + "/"@ + object_key,
{
}

/// What the two messages of a success say, each in its own words: both go out under the identifier
/// of the file, each to its topic, and carry the same time; the public one names bucket, keys,
/// language and number of segments, the one for the backend the public addresses.
pub proof fn law_ready_messages_say_what_was_made(
    messages: ReadyMessages,
    file_id: FileId,
    bucket: Seq<char>,
    vtt_object_key: Seq<char>,
    srt_object_key: Seq<char>,
    language: Seq<char>,
    segments: usize,
    ready_at: Seq<char>,
)
    requires
        messages.announce(
            file_id,
            bucket,
            vtt_object_key,
            srt_object_key,
            language,
            segments,
            ready_at,
        ),
    ensures
        messages.public.topic@ == "media.subtitle.ready"@,
        messages.public.key@ == file_id::uuid_text(file_id.value),
        messages.public.event.file_id@ == messages.public.key@,
        messages.public.event.bucket@ == bucket,
        messages.public.event.vtt_object_key@ == vtt_object_key,
        messages.public.event.srt_object_key@ == srt_object_key,
        messages.public.event.language@ == language,
        messages.public.event.segments == segments,
        messages.public.event.ready_at@ == ready_at,
        messages.backend.topic@ == "media.subtitle"@,
        messages.backend.key@ == messages.public.key@,
        messages.backend.event.podcast_id@ == messages.public.event.file_id@,
        messages.backend.event.content.vtt_object_key@ == public_url(bucket, vtt_object_key),
        messages.backend.event.content.srt_object_key@ == public_url(bucket, srt_object_key),
        messages.backend.event.ready_at@ == messages.public.event.ready_at@,
{
}

/// What a message about an error says: it goes to the topic of errors under the identifier of the
/// file, with the stage, the text and the time.
pub proof fn law_error_message_says_what_failed(
    message: Outgoing<SubtitleErrorEvent>,
    file_id: FileId,
    stage: Seq<char>,
    error_message: Seq<char>,
    timestamp: Seq<char>,
)
    requires
        reports_error(message, file_id, stage, error_message, timestamp),
    ensures
        message.topic@ == "media.subtitle.error"@,
        message.key@ == file_id::uuid_text(file_id.value),
        message.event.file_id@ == message.key@,
        message.event.stage@ == stage,
        message.event.error_message@ == error_message,
        message.event.timestamp@ == timestamp,
{
}

/// What a message that links a playlist says: it goes to the topic of the workers under the
/// identifier of the file, with the three paths, the language and the time.
pub proof fn law_linking_message_names_the_paths(
    message: Outgoing<MediaWorkerSubtitleReadyEvent>,
    file_id: FileId,
    hls_path: Seq<char>,
    subtitle_vtt_path: Seq<char>,
    subtitle_srt_path: Seq<char>,
    language: Seq<char>,
    ready_at: Seq<char>,
)
    requires
        links_subtitles(
            message,
            file_id,
            hls_path,
            subtitle_vtt_path,
            subtitle_srt_path,
            language,
            ready_at,
        ),
    ensures
        message.topic@ == "media.worker.events"@,
        message.key@ == file_id::uuid_text(file_id.value),
        message.event.file_id@ == message.key@,
        message.event.hls_path@ == hls_path,
        message.event.subtitle_vtt_path@ == subtitle_vtt_path,
        message.event.subtitle_srt_path@ == subtitle_srt_path,
        message.event.language@ == language,
        message.event.subtitle_ready_at@ == ready_at,
{
}

/// The view of a request leaves nothing out.
pub proof fn law_view_shows_the_request(event: SubtitleRequestedEvent)
    ensures
        event@.file_id == event.file_id@,
        event@.source_bucket == event.source_bucket@,
        event@.source_object_key == event.source_object_key@,
        event.language is None ==> event@.language is None,
        event.language matches Some(language) ==> event@.language == Some(language@),
        event@.num_speakers == event.num_speakers,
        event@.requested_at == event.requested_at@,
{
}

} // verus!

//! What a whole attempt does, from its first action to its last, against a storage and a
//! transcriber that answer.

use vstd::prelude::*;
use crate::file_id;
use crate::object_path;
use crate::pipeline;
use crate::subtitle;
use crate::transcript;

verus! {

/// What the outside answers: the content of each object of a bucket, the keys under each prefix of
/// a bucket, and the transcript of the audio.
pub struct Outside {
    pub content: spec_fn(Seq<char>, Seq<char>) -> Seq<u8>,
    pub listing: spec_fn(Seq<char>, Seq<char>) -> Seq<Seq<char>>,
    pub transcript: transcript::TranscriptView,
}

/// What becomes of an action.
pub open spec fn answer(action: pipeline::ActionView, outside: Outside) -> pipeline::OutcomeView {
    match action {
        pipeline::ActionView::GetObject { bucket, object_key } => pipeline::OutcomeView::Bytes(
            (outside.content)(bucket, object_key),
        ),
        pipeline::ActionView::ListObjects { bucket, prefix } => pipeline::OutcomeView::Keys(
            (outside.listing)(bucket, prefix),
        ),
        pipeline::ActionView::Transcribe { .. } => pipeline::OutcomeView::Transcribed(
            outside.transcript,
        ),
        _ => pipeline::OutcomeView::Done,
    }
}

/// How many downloads a stage has left.
pub open spec fn downloads_left(stage: pipeline::StageView) -> int {
    match stage {
        pipeline::StageView::Segments { keys, blobs, .. } => keys.len() - blobs.len(),
        _ => 0,
    }
}

/// All actions from a stage on, that stage's own action first.
pub open spec fn actions_from(
    job: pipeline::JobView,
    stage: pipeline::StageView,
    action: pipeline::ActionView,
    outside: Outside,
) -> Seq<pipeline::ActionView>
    decreases 10 - pipeline::phase(stage), downloads_left(stage),
{
    if stage is Over {
        seq![action]
    } else {
        let (next, then) = pipeline::next_step(job, stage, answer(action, outside));
        if pipeline::phase(stage) < pipeline::phase(next) <= 10 || (pipeline::phase(stage)
            == pipeline::phase(next) && 0 <= downloads_left(next) < downloads_left(stage)) {
            seq![action] + actions_from(job, next, then, outside)
        } else {
            seq![action]
        }
    }
}

/// All actions of an attempt.
pub open spec fn attempt(job: pipeline::JobView, outside: Outside) -> Seq<pipeline::ActionView> {
    let (stage, action) = pipeline::first_step(job);
    actions_from(job, stage, action, outside)
}

/// The key of a file of the subtitles, written out.
proof fn lemma_keys(job: pipeline::JobView)
    ensures
        ({
            let id = file_id::uuid_text(job.file_id.value);
            &&& pipeline::subtitle_key(job.file_id, "subtitles.vtt"@) == "media/"@ + id
                + "/subtitles.vtt"@
            &&& pipeline::subtitle_key(job.file_id, "subtitles.srt"@) == "media/"@ + id
                + "/subtitles.srt"@
            &&& pipeline::temp_name(job.file_id, "mp4"@) == "subtitle_input_"@ + id + ".mp4"@
        }),
{
    reveal_strlit("/");
    reveal_strlit(".");
    reveal_strlit("mp4");
    reveal_strlit(".mp4");
    reveal_strlit("subtitles.vtt");
    reveal_strlit("subtitles.srt");
    reveal_strlit("/subtitles.vtt");
    reveal_strlit("/subtitles.srt");
    let id = file_id::uuid_text(job.file_id.value);
    assert("/"@ + "subtitles.vtt"@ =~= "/subtitles.vtt"@);
    assert("/"@ + "subtitles.srt"@ =~= "/subtitles.srt"@);
    assert("."@ + "mp4"@ =~= ".mp4"@);
    crate::text::lemma_concat("media/"@ + id, "/"@, "subtitles.vtt"@);
    crate::text::lemma_concat("media/"@ + id, "/"@, "subtitles.srt"@);
    crate::text::lemma_concat("subtitle_input_"@ + id, "."@, "mp4"@);
}

/// The last six actions of an attempt that succeeds.
spec fn closing(
    job: pipeline::JobView,
    file_name: Seq<char>,
    audio: Seq<u8>,
    transcript: transcript::TranscriptView,
) -> Seq<pipeline::ActionView> {
    let id = file_id::uuid_text(job.file_id.value);
    let vtt_object_key = "media/"@ + id + "/subtitles.vtt"@;
    let srt_object_key = "media/"@ + id + "/subtitles.srt"@;
    seq![
        pipeline::ActionView::WriteTemp { file_name, bytes: audio },
        pipeline::ActionView::Transcribe {
            file_name,
            language: job.event.language,
            num_speakers: job.event.num_speakers,
        },
        pipeline::ActionView::Upload {
            bucket: job.subtitle_bucket,
            object_key: vtt_object_key,
            bytes: vstd::utf8::encode_utf8(subtitle::webvtt(transcript.segments)),
        },
        pipeline::ActionView::Upload {
            bucket: job.subtitle_bucket,
            object_key: srt_object_key,
            bytes: vstd::utf8::encode_utf8(subtitle::srt(transcript.segments)),
        },
        pipeline::ActionView::RemoveTemp { file_name },
        pipeline::ActionView::Finish(
            pipeline::ResultView {
                bucket: job.subtitle_bucket,
                vtt_object_key,
                srt_object_key,
                language: transcript.language,
                segments: transcript.segments.len() as usize,
            },
        ),
    ]
}

/// From the temporary file on an attempt does what closes it.
proof fn lemma_closing(
    job: pipeline::JobView,
    file_name: Seq<char>,
    audio: Seq<u8>,
    outside: Outside,
)
    ensures
        actions_from(
            job,
            pipeline::StageView::Temp { file_name },
            pipeline::ActionView::WriteTemp { file_name, bytes: audio },
            outside,
        ) == closing(job, file_name, audio, outside.transcript),
{
    lemma_keys(job);
    let all = closing(job, file_name, audio, outside.transcript);
    let t = outside.transcript;
    let s0 = pipeline::StageView::Temp { file_name };
    let (s1, a1) = pipeline::next_step(job, s0, pipeline::OutcomeView::Done);
    let (s2, a2) = pipeline::next_step(job, s1, pipeline::OutcomeView::Transcribed(t));
    let (s3, a3) = pipeline::next_step(job, s2, pipeline::OutcomeView::Done);
    let (s4, a4) = pipeline::next_step(job, s3, pipeline::OutcomeView::Done);
    let (s5, a5) = pipeline::next_step(job, s4, pipeline::OutcomeView::Done);
    assert(actions_from(job, s5, a5, outside) == seq![a5]);
    assert(actions_from(job, s4, a4, outside) == seq![a4] + actions_from(job, s5, a5, outside));
    assert(actions_from(job, s3, a3, outside) == seq![a3] + actions_from(job, s4, a4, outside));
    assert(actions_from(job, s2, a2, outside) == seq![a2] + actions_from(job, s3, a3, outside));
    assert(actions_from(job, s1, a1, outside) == seq![a1] + actions_from(job, s2, a2, outside));
    assert(a1 == all[1]);
    assert(a2 == all[2]);
    assert(a3 == all[3]);
    assert(a4 == all[4]);
    assert(a5 == all[5]);
    assert(actions_from(job, s0, all[0], outside) =~= all);
}

/// An attempt on audio of one piece makes sure of the bucket, downloads the source, writes it as it
/// is, has it transcribed with the language and the number of speakers of the request, uploads both
/// files rendered from the transcript, removes the temporary file and reports the two keys, the
/// language and the number of segments.
pub proof fn law_attempt_on_one_piece(job: pipeline::JobView, outside: Outside)
    requires
        !".m4s"@.is_suffix_of(job.event.source_object_key),
    ensures
        ({
            let bucket = job.event.source_bucket;
            let key = job.event.source_object_key;
            let id = file_id::uuid_text(job.file_id.value);
            let file_name = "subtitle_input_"@ + id + "."@ + match object_path::extension(key) {
                Some(extension) => extension,
                None => "bin"@,
            };
            let vtt_object_key = "media/"@ + id + "/subtitles.vtt"@;
            let srt_object_key = "media/"@ + id + "/subtitles.srt"@;
            let audio = (outside.content)(bucket, key);
            attempt(job, outside) == seq![
                pipeline::ActionView::EnsureBucket { bucket: job.subtitle_bucket },
                pipeline::ActionView::GetObject { bucket, object_key: key },
                pipeline::ActionView::WriteTemp { file_name, bytes: audio },
                pipeline::ActionView::Transcribe {
                    file_name,
                    language: job.event.language,
                    num_speakers: job.event.num_speakers,
                },
                pipeline::ActionView::Upload {
                    bucket: job.subtitle_bucket,
                    object_key: vtt_object_key,
                    bytes: vstd::utf8::encode_utf8(subtitle::webvtt(outside.transcript.segments)),
                },
                pipeline::ActionView::Upload {
                    bucket: job.subtitle_bucket,
                    object_key: srt_object_key,
                    bytes: vstd::utf8::encode_utf8(subtitle::srt(outside.transcript.segments)),
                },
                pipeline::ActionView::RemoveTemp { file_name },
                pipeline::ActionView::Finish(
                    pipeline::ResultView {
                        bucket: job.subtitle_bucket,
                        vtt_object_key,
                        srt_object_key,
                        language: outside.transcript.language,
                        segments: outside.transcript.segments.len() as usize,
                    },
                ),
            ]
        }),
{
    let bucket = job.event.source_bucket;
    let key = job.event.source_object_key;
    let audio = (outside.content)(bucket, key);
    let (s0, a0) = pipeline::first_step(job);
    let (s1, a1) = pipeline::next_step(job, s0, pipeline::OutcomeView::Done);
    let (s2, a2) = pipeline::next_step(job, s1, pipeline::OutcomeView::Bytes(audio));
    let file_name = pipeline::plain_temp_name(job.file_id, key);
    lemma_closing(job, file_name, audio, outside);
    let rest = actions_from(job, s2, a2, outside);
    assert(actions_from(job, s1, a1, outside) == seq![a1] + rest);
    assert(attempt(job, outside) == seq![a0] + (seq![a1] + rest));
    let all = closing(job, file_name, audio, outside.transcript);
    assert(rest == all);
    assert(seq![a0] + (seq![a1] + rest) =~= seq![
        a0,
        a1,
        all[0],
        all[1],
        all[2],
        all[3],
        all[4],
        all[5],
    ]);
}

/// The downloads of the segments other than the source, in order.
spec fn downloads(
    job: pipeline::JobView,
    keys: Seq<Seq<char>>,
) -> Seq<pipeline::ActionView> {
    keys.filter(|key: Seq<char>| key != job.event.source_object_key).map_values(
        |key: Seq<char>|
            pipeline::ActionView::GetObject { bucket: job.event.source_bucket, object_key: key },
    )
}

/// A further key before others adds its download, unless it is the source.
proof fn lemma_downloads(job: pipeline::JobView, key: Seq<char>, keys: Seq<Seq<char>>)
    ensures
        downloads(job, seq![key] + keys) == if key == job.event.source_object_key {
            downloads(job, keys)
        } else {
            seq![
                pipeline::ActionView::GetObject {
                    bucket: job.event.source_bucket,
                    object_key: key,
                },
            ] + downloads(job, keys)
        },
{
    keys.lemma_filter_prepend(key, |key: Seq<char>| key != job.event.source_object_key);
    let all = downloads(job, seq![key] + keys);
    if key == job.event.source_object_key {
        assert(all =~= downloads(job, keys));
    } else {
        assert(all =~= seq![
            pipeline::ActionView::GetObject { bucket: job.event.source_bucket, object_key: key },
        ] + downloads(job, keys));
    }
}

/// The segments are downloaded in order and put together.
proof fn lemma_segments(
    job: pipeline::JobView,
    init: Seq<u8>,
    keys: Seq<Seq<char>>,
    blobs: Seq<Seq<u8>>,
    outside: Outside,
)
    requires
        blobs.len() <= keys.len(),
        forall|i: int|
            0 <= i < blobs.len() ==> #[trigger] blobs[i] == (outside.content)(
                job.event.source_bucket,
                keys[i],
            ),
    ensures
        ({
            let source = (outside.content)(job.event.source_bucket, job.event.source_object_key);
            let (stage, action) = pipeline::next_segment(job, source, init, keys, blobs);
            let audio = init + keys.map_values(
                |key: Seq<char>| (outside.content)(job.event.source_bucket, key),
            ).flatten();
            actions_from(job, stage, action, outside) == downloads(
                job,
                keys.skip(blobs.len() as int),
            ) + closing(
                job,
                pipeline::temp_name(job.file_id, "mp4"@),
                audio,
                outside.transcript,
            )
        }),
    decreases keys.len() - blobs.len(),
{
    let bucket = job.event.source_bucket;
    let source_key = job.event.source_object_key;
    let source = (outside.content)(bucket, source_key);
    let contents = keys.map_values(|key: Seq<char>| (outside.content)(bucket, key));
    let file_name = pipeline::temp_name(job.file_id, "mp4"@);
    let n = blobs.len() as int;
    if n == keys.len() {
        assert(blobs =~= contents);
        lemma_closing(job, file_name, init + contents.flatten(), outside);
        assert(keys.skip(n) =~= Seq::<Seq<char>>::empty());
        assert(downloads(job, keys.skip(n)) =~= Seq::empty()) by {
            reveal(Seq::filter);
        }
        assert(Seq::<pipeline::ActionView>::empty() + closing(
            job,
            file_name,
            init + contents.flatten(),
            outside.transcript,
        ) =~= closing(job, file_name, init + contents.flatten(), outside.transcript));
    } else {
        let blob = (outside.content)(bucket, keys[n]);
        let more = blobs.push(blob);
        lemma_segments(job, init, keys, more, outside);
        assert(keys.skip(n) =~= seq![keys[n]] + keys.skip(n + 1));
        lemma_downloads(job, keys[n], keys.skip(n + 1));
        if keys[n] != source_key {
            let (stage, action) = pipeline::next_segment(job, source, init, keys, blobs);
            let (next, then) = pipeline::next_segment(job, source, init, keys, more);
            assert(pipeline::next_step(job, stage, answer(action, outside)) == (next, then));
            pipeline::lemma_with_source(keys, more, source_key, source);
            let rest = actions_from(job, next, then, outside);
            assert(actions_from(job, stage, action, outside) == seq![action] + rest);
            let tail = closing(job, file_name, init + contents.flatten(), outside.transcript);
            assert(seq![action] + (downloads(job, keys.skip(n + 1)) + tail) =~= (seq![action]
                + downloads(job, keys.skip(n + 1))) + tail);
        }
    }
}

/// An attempt on a media segment downloads the source, the initialisation segment beside it and
/// every segment that the listing of their directory asks for but the source itself, writes the
/// initialisation segment followed by all those segments in order, the source in its place, and
/// then does as an attempt on audio of one piece.
pub proof fn law_attempt_on_fragments(job: pipeline::JobView, outside: Outside)
    requires
        ".m4s"@.is_suffix_of(job.event.source_object_key),
    ensures
        ({
            let bucket = job.event.source_bucket;
            let key = job.event.source_object_key;
            let init_key = pipeline::init_object_key(key)->0;
            let prefix = pipeline::variant_prefix(key)->0;
            let keys = pipeline::segments_to_fetch((outside.listing)(bucket, prefix), key);
            let audio = (outside.content)(bucket, init_key) + keys.map_values(
                |key: Seq<char>| (outside.content)(bucket, key),
            ).flatten();
            let id = file_id::uuid_text(job.file_id.value);
            let file_name = "subtitle_input_"@ + id + ".mp4"@;
            let vtt_object_key = "media/"@ + id + "/subtitles.vtt"@;
            let srt_object_key = "media/"@ + id + "/subtitles.srt"@;
            attempt(job, outside) == seq![
                pipeline::ActionView::EnsureBucket { bucket: job.subtitle_bucket },
                pipeline::ActionView::GetObject { bucket, object_key: key },
                pipeline::ActionView::GetObject { bucket, object_key: init_key },
                pipeline::ActionView::ListObjects { bucket, prefix },
            ] + keys.filter(|k: Seq<char>| k != key).map_values(
                |k: Seq<char>| pipeline::ActionView::GetObject { bucket, object_key: k },
            ) + seq![
                pipeline::ActionView::WriteTemp { file_name, bytes: audio },
                pipeline::ActionView::Transcribe {
                    file_name,
                    language: job.event.language,
                    num_speakers: job.event.num_speakers,
                },
                pipeline::ActionView::Upload {
                    bucket: job.subtitle_bucket,
                    object_key: vtt_object_key,
                    bytes: vstd::utf8::encode_utf8(subtitle::webvtt(outside.transcript.segments)),
                },
                pipeline::ActionView::Upload {
                    bucket: job.subtitle_bucket,
                    object_key: srt_object_key,
                    bytes: vstd::utf8::encode_utf8(subtitle::srt(outside.transcript.segments)),
                },
                pipeline::ActionView::RemoveTemp { file_name },
                pipeline::ActionView::Finish(
                    pipeline::ResultView {
                        bucket: job.subtitle_bucket,
                        vtt_object_key,
                        srt_object_key,
                        language: outside.transcript.language,
                        segments: outside.transcript.segments.len() as usize,
                    },
                ),
            ]
        }),
{
    let bucket = job.event.source_bucket;
    let key = job.event.source_object_key;
    pipeline::law_segment_has_neighbours(key);
    let init_key = pipeline::init_object_key(key)->0;
    let prefix = pipeline::variant_prefix(key)->0;
    let listed = (outside.listing)(bucket, prefix);
    let keys = pipeline::segments_to_fetch(listed, key);
    let source = (outside.content)(bucket, key);
    let init = (outside.content)(bucket, init_key);
    let (s0, a0) = pipeline::first_step(job);
    let (s1, a1) = pipeline::next_step(job, s0, pipeline::OutcomeView::Done);
    let (s2, a2) = pipeline::next_step(job, s1, pipeline::OutcomeView::Bytes(source));
    let (s3, a3) = pipeline::next_step(job, s2, pipeline::OutcomeView::Bytes(init));
    let (s4, a4) = pipeline::next_step(job, s3, pipeline::OutcomeView::Keys(listed));
    lemma_keys(job);
    lemma_segments(job, init, keys, Seq::empty(), outside);
    assert(keys.skip(0) == keys);
    let rest = actions_from(job, s4, a4, outside);
    assert(actions_from(job, s3, a3, outside) == seq![a3] + rest);
    assert(actions_from(job, s2, a2, outside) == seq![a2] + (seq![a3] + rest));
    assert(actions_from(job, s1, a1, outside) == seq![a1] + (seq![a2] + (seq![a3] + rest)));
    assert(attempt(job, outside) == seq![a0] + (seq![a1] + (seq![a2] + (seq![a3] + rest))));
    let file_name = pipeline::temp_name(job.file_id, "mp4"@);
    let audio = init + keys.map_values(
        |key: Seq<char>| (outside.content)(bucket, key),
    ).flatten();
    let tail = closing(job, file_name, audio, outside.transcript);
    assert(rest == downloads(job, keys) + tail);
    assert(tail =~= seq![tail[0], tail[1], tail[2], tail[3], tail[4], tail[5]]);
    assert(seq![a0] + (seq![a1] + (seq![a2] + (seq![a3] + rest))) =~= seq![a0, a1, a2, a3]
        + downloads(job, keys) + tail);
}

} // verus!

//! What a transcription yields: timed segments of text, each perhaps with its speaker.

use vstd::prelude::*;

verus! {

#[derive(Debug, Clone)]
pub struct TranscriptSegment {
    pub start_ms: u64,
    pub end_ms: u64,
    pub text: String,
    pub speaker: Option<String>,
}

#[derive(Debug, Clone)]
pub struct Transcript {
    pub language: String,
    pub segments: Vec<TranscriptSegment>,
}

/// A segment, with its strings as sequences of characters.
#[verifier::ext_equal]
pub struct SegmentView {
    pub start_ms: u64,
    pub end_ms: u64,
    pub text: Seq<char>,
    pub speaker: Option<Seq<char>>,
}

/// A transcript, with its strings as sequences of characters.
#[verifier::ext_equal]
pub struct TranscriptView {
    pub language: Seq<char>,
    pub segments: Seq<SegmentView>,
}

/// The characters of a string that may be absent.
pub open spec fn text_of(s: Option<String>) -> Option<Seq<char>> {
    match s {
        Some(t) => Some(t@),
        None => None,
    }
}

/// The characters of a borrowed string that may be absent.
pub open spec fn chars_of(s: Option<&str>) -> Option<Seq<char>> {
    match s {
        Some(t) => Some(t@),
        None => None,
    }
}

/// The segments of a transcript, each by its view.
pub open spec fn segments_of(s: Seq<TranscriptSegment>) -> Seq<SegmentView> {
    Seq::new(s.len(), |i: int| s[i]@)
}

impl View for TranscriptSegment {
    type V = SegmentView;

    open spec fn view(&self) -> SegmentView {
        SegmentView {
            start_ms: self.start_ms,
            end_ms: self.end_ms,
            text: self.text@,
            speaker: text_of(self.speaker),
        }
    }
}

impl View for Transcript {
    type V = TranscriptView;

    open spec fn view(&self) -> TranscriptView {
        TranscriptView { language: self.language@, segments: segments_of(self.segments@) }
    }
}

/// The view of a transcript leaves nothing out: every segment is there, in order, with its times,
/// its text and its speaker.
pub proof fn law_view_shows_every_segment(transcript: Transcript, i: int)
    requires
        0 <= i < transcript.segments.len(),
    ensures
        transcript@.language == transcript.language@,
        transcript@.segments.len() == transcript.segments.len(),
        transcript@.segments[i].start_ms == transcript.segments[i].start_ms,
        transcript@.segments[i].end_ms == transcript.segments[i].end_ms,
        transcript@.segments[i].text == transcript.segments[i].text@,
        transcript.segments[i].speaker is None ==> transcript@.segments[i].speaker is None,
        transcript.segments[i].speaker matches Some(speaker) ==> transcript@.segments[i].speaker
            == Some(speaker@),
{
}

/// A string that may be absent is seen with all its characters where it is there, and as absent
/// where it is not.
pub proof fn law_optional_texts_are_seen_whole(owned: String, borrowed: &str)
    ensures
        text_of(Some(owned)) == Some(owned@),
        text_of(None) is None,
        chars_of(Some(borrowed)) == Some(borrowed@),
        chars_of(None) is None,
{
}

} // verus!

//! Rendering of a transcript as WebVTT and as SubRip (SRT) subtitles.

use vstd::prelude::*;
use crate::number;
use crate::text;
use crate::transcript;
use crate::transcript::{Transcript, TranscriptSegment};

verus! {

/// `HH:MM:SS`, then `separator`, then three digits of milliseconds. The hours take two digits
/// or more.
pub open spec fn timestamp(ms: nat, separator: Seq<char>) -> Seq<char> {
    number::padded(ms / 3600000, 2) + ":"@ + number::padded(ms / 60000 % 60, 2)
        + ":"@ + number::padded(ms / 1000 % 60, 2) + separator + number::padded(
        ms % 1000,
        3,
    )
}

/// The line of text of a cue: the speaker, where known, and what was said.
pub open spec fn cue_text(segment: transcript::SegmentView) -> Seq<char> {
    text::trimmed(
        match segment.speaker {
            Some(speaker) => speaker + ": "@ + segment.text,
            None => segment.text,
        },
    )
}

/// The times and the text of a cue, and the blank line that ends it.
pub open spec fn cue(segment: transcript::SegmentView, separator: Seq<char>) -> Seq<char> {
    timestamp(segment.start_ms as nat, separator) + " --> "@ + timestamp(
        segment.end_ms as nat,
        separator,
    ) + "\n"@ + cue_text(segment) + "\n\n"@
}

/// The WebVTT cues of the segments, in order.
pub open spec fn webvtt_cues(segments: Seq<transcript::SegmentView>) -> Seq<char>
    decreases segments.len(),
{
    if segments.len() == 0 {
        Seq::empty()
    } else {
        webvtt_cues(segments.drop_last()) + cue(segments.last(), "."@)
    }
}

/// A WebVTT file: the header and the cues.
pub open spec fn webvtt(segments: Seq<transcript::SegmentView>) -> Seq<char> {
    "WEBVTT\n\n"@ + webvtt_cues(segments)
}

/// An SRT file: the cues in order, each under its number, counted from one.
pub open spec fn srt(segments: Seq<transcript::SegmentView>) -> Seq<char>
    decreases segments.len(),
{
    if segments.len() == 0 {
        Seq::empty()
    } else {
        srt(segments.drop_last()) + number::decimal(segments.len()) + "\n"@ + cue(
            segments.last(),
            ","@,
        )
    }
}

/// `ms` milliseconds as `HH:MM:SS`, `separator` and three digits.
fn format_timestamp(ms: u64, separator: &str) -> (r: String)
    ensures
        r@ == timestamp(ms as nat, separator@),
{
    let total_seconds: u64 = ms / 1000;
    let millis: u64 = ms % 1000;
    let hours: u64 = total_seconds / 3600;
    let minutes: u64 = (total_seconds % 3600) / 60;
    let seconds: u64 = total_seconds % 60;
    assert(hours == ms / 3600000 && minutes == ms / 60000 % 60) by (nonlinear_arith)
        requires
            total_seconds == ms / 1000,
            hours == total_seconds / 3600,
            minutes == (total_seconds % 3600) / 60,
    ;
    let mut out: String = number::padded_text(hours, 2);
    out.append(":");
    out.append(number::padded_text(minutes, 2).as_str());
    out.append(":");
    out.append(number::padded_text(seconds, 2).as_str());
    out.append(separator);
    out.append(number::padded_text(millis, 3).as_str());
    out
}

/// The WebVTT form of a time: `HH:MM:SS.mmm`.
pub fn format_timestamp_vtt(ms: u64) -> (r: String)
    ensures
        r@ == timestamp(ms as nat, "."@),
{
    format_timestamp(ms, ".")
}

/// The SRT form of a time: `HH:MM:SS,mmm`.
pub fn format_timestamp_srt(ms: u64) -> (r: String)
    ensures
        r@ == timestamp(ms as nat, ","@),
{
    format_timestamp(ms, ",")
}

/// Appends the two times of a cue, its text and the blank line after it.
fn append_cue(output: &mut String, start: &str, end: &str, segment: &TranscriptSegment)
    ensures
        final(output)@ == old(output)@ + (start@ + " --> "@ + end@ + "\n"@ + cue_text(segment@)
            + "\n\n"@),
{
    let line: String = match &segment.speaker {
        Some(speaker) => {
            let mut spoken: String = speaker.clone();
            spoken.append(": ");
            spoken.append(segment.text.as_str());
            spoken
        },
        None => segment.text.clone(),
    };
    output.append(start);
    output.append(" --> ");
    output.append(end);
    output.append("\n");
    output.append(text::trim(line.as_str()).as_str());
    output.append("\n\n");
    assert(output@ == old(output)@ + (start@ + " --> "@ + end@ + "\n"@ + cue_text(segment@)
        + "\n\n"@));
}

/// The transcript as a WebVTT file.
pub fn to_webvtt(transcript: &Transcript) -> (r: String)
    ensures
        r@ == webvtt(transcript@.segments),
{
    let mut output: String = "WEBVTT\n\n".to_string();
    let ghost all = transcript@.segments;
    let mut index: usize = 0;
    while index < transcript.segments.len()
        invariant
            index <= transcript.segments.len(),
            all == transcript@.segments,
            output@ == webvtt(all.take(index as int)),
        decreases transcript.segments.len() - index,
    {
        let segment: &TranscriptSegment = &transcript.segments[index];
        let start: String = format_timestamp_vtt(segment.start_ms);
        let end: String = format_timestamp_vtt(segment.end_ms);
        append_cue(&mut output, start.as_str(), end.as_str(), segment);
        index = index + 1;
        assert(all.take(index as int).drop_last() == all.take(index - 1));
        assert(output@ == webvtt(all.take(index as int)));
    }
    assert(all.take(index as int) == all);
    output
}

/// The transcript as an SRT file.
pub fn to_srt(transcript: &Transcript) -> (r: String)
    ensures
        r@ == srt(transcript@.segments),
{
    let mut output: String = String::new();
    let ghost all = transcript@.segments;
    let mut index: usize = 0;
    while index < transcript.segments.len()
        invariant
            index <= transcript.segments.len(),
            all == transcript@.segments,
            output@ == srt(all.take(index as int)),
        decreases transcript.segments.len() - index,
    {
        let segment: &TranscriptSegment = &transcript.segments[index];
        output.append(number::decimal_text((index + 1) as u64).as_str());
        output.append("\n");
        let start: String = format_timestamp_srt(segment.start_ms);
        let end: String = format_timestamp_srt(segment.end_ms);
        append_cue(&mut output, start.as_str(), end.as_str(), segment);
        index = index + 1;
        assert(all.take(index as int).drop_last() == all.take(index - 1));
        assert(output@ == srt(all.take(index as int)));
    }
    assert(all.take(index as int) == all);
    output
}

/// The time that a rendered timestamp says, in milliseconds: what stands before the last ten
/// characters are the hours, and the three fields after them have fixed places.
pub open spec fn timestamp_millis(s: Seq<char>) -> int {
    let n = s.len() as int;
    number::value(s.take(n - 10)) * 3600000 + number::value(s.subrange(n - 9, n - 7)) * 60000
        + number::value(s.subrange(n - 6, n - 4)) * 1000 + number::value(s.subrange(n - 3, n))
}

/// A rendered timestamp says the time it was made from, to the millisecond.
pub proof fn law_timestamp_reads_back(ms: nat, separator: Seq<char>)
    requires
        separator.len() == 1,
    ensures
        timestamp_millis(timestamp(ms, separator)) == ms,
        timestamp(ms, separator).len() >= 12,
{
    let hours = number::padded(ms / 3600000, 2);
    let minutes = number::padded(ms / 60000 % 60, 2);
    let seconds = number::padded(ms / 1000 % 60, 2);
    let millis = number::padded(ms % 1000, 3);
    assert(vstd::arithmetic::power::pow(10, 2) == 100 && vstd::arithmetic::power::pow(10, 3)
        == 1000) by {
        reveal_with_fuel(vstd::arithmetic::power::pow, 4);
    }
    number::lemma_padded(ms / 3600000, 2);
    number::lemma_padded(ms / 60000 % 60, 2);
    number::lemma_padded(ms / 1000 % 60, 2);
    number::lemma_padded(ms % 1000, 3);
    reveal_strlit(":");
    let s = timestamp(ms, separator);
    let n = s.len() as int;
    assert(s.take(n - 10) == hours);
    assert(s.subrange(n - 9, n - 7) == minutes);
    assert(s.subrange(n - 6, n - 4) == seconds);
    assert(s.subrange(n - 3, n) == millis);
    assert(ms == (ms / 3600000) * 3600000 + (ms / 60000 % 60) * 60000 + (ms / 1000 % 60) * 1000
        + ms % 1000) by (nonlinear_arith);
}

/// Two different times never render alike.
pub proof fn law_different_times_render_differently(a: nat, b: nat, separator: Seq<char>)
    requires
        separator.len() == 1,
        a != b,
    ensures
        timestamp(a, separator) != timestamp(b, separator),
{
    law_timestamp_reads_back(a, separator);
    law_timestamp_reads_back(b, separator);
}

/// The SRT form of a time is the WebVTT form with a comma in place of the point.
pub proof fn law_srt_time_is_vtt_time_with_comma(ms: nat)
    ensures
        timestamp(ms, ","@) == timestamp(ms, "."@).update(timestamp(ms, "."@).len() - 4, ','),
{
    reveal_strlit(",");
    reveal_strlit(".");
    assert(vstd::arithmetic::power::pow(10, 3) == 1000) by {
        reveal_with_fuel(vstd::arithmetic::power::pow, 4);
    }
    number::lemma_padded(ms % 1000, 3);
    assert(timestamp(ms, ","@) =~= timestamp(ms, "."@).update(
        timestamp(ms, "."@).len() - 4,
        ',',
    ));
}

/// The cues of a transcript that continues another follow the cues of that one.
pub proof fn law_webvtt_continues(
    a: Seq<transcript::SegmentView>,
    b: Seq<transcript::SegmentView>,
)
    ensures
        webvtt(a + b) == webvtt(a) + webvtt_cues(b),
    decreases b.len(),
{
    if b.len() == 0 {
        assert(a + b == a);
    } else {
        law_webvtt_continues(a, b.drop_last());
        assert((a + b).drop_last() == a + b.drop_last());
        assert((a + b).last() == b.last());
        let last = cue(b.last(), "."@);
        text::lemma_concat("WEBVTT\n\n"@, webvtt_cues(a + b.drop_last()), last);
        text::lemma_concat(webvtt(a), webvtt_cues(b.drop_last()), last);
    }
}

/// The SRT file of a transcript that continues another begins with the SRT file of that one:
/// a later segment changes no earlier cue and no earlier number.
pub proof fn law_srt_continues(a: Seq<transcript::SegmentView>, b: Seq<transcript::SegmentView>)
    ensures
        srt(a).is_prefix_of(srt(a + b)),
    decreases b.len(),
{
    if b.len() == 0 {
        assert(a + b == a);
    } else {
        law_srt_continues(a, b.drop_last());
        assert((a + b).drop_last() == a + b.drop_last());
    }
}

/// The first segment is numbered one and each later one by one more: the SRT file up to the
/// segment at `i` ends with the cue of that segment under the number `i + 1`.
pub proof fn law_srt_numbers_from_one(segments: Seq<transcript::SegmentView>, i: int)
    requires
        0 <= i < segments.len(),
    ensures
        srt(segments.take(i + 1)) == srt(segments.take(i)) + number::decimal((i + 1) as nat)
            + "\n"@ + cue(segments[i], ","@),
{
    assert(segments.take(i + 1).drop_last() == segments.take(i));
}

/// The text of a cue neither begins nor ends with white space.
pub proof fn law_cue_text_has_no_outer_space(segment: transcript::SegmentView)
    ensures
        text::trimmed(cue_text(segment)) == cue_text(segment),
{
    text::law_trimming_is_idempotent(
        match segment.speaker {
            Some(speaker) => speaker + ": "@ + segment.text,
            None => segment.text,
        },
    );
}

/// A timestamp is made of digits, with colons behind the hours and behind the minutes and the
/// separator behind the seconds; minutes and seconds stay below sixty, and the hours take no digit
/// more than they need beyond two.
pub proof fn law_timestamp_has_fixed_parts(ms: nat, separator: Seq<char>)
    requires
        separator.len() == 1,
    ensures
        ({
            let s = timestamp(ms, separator);
            let n = s.len() as int;
            &&& n >= 12
            &&& s[n - 10] == ':'
            &&& s[n - 7] == ':'
            &&& s[n - 4] == separator[0]
            &&& forall|i: int|
                0 <= i < n && i != n - 10 && i != n - 7 && i != n - 4 ==> '0' <= #[trigger] s[i]
                    <= '9'
            &&& number::value(s.subrange(n - 9, n - 7)) < 60
            &&& number::value(s.subrange(n - 6, n - 4)) < 60
            &&& n > 12 ==> s[0] != '0'
        }),
{
    let hours = number::padded(ms / 3600000, 2);
    let minutes = number::padded(ms / 60000 % 60, 2);
    let seconds = number::padded(ms / 1000 % 60, 2);
    let millis = number::padded(ms % 1000, 3);
    assert(vstd::arithmetic::power::pow(10, 2) == 100 && vstd::arithmetic::power::pow(10, 3)
        == 1000) by {
        reveal_with_fuel(vstd::arithmetic::power::pow, 4);
    }
    number::lemma_padded(ms / 3600000, 2);
    number::lemma_padded(ms / 60000 % 60, 2);
    number::lemma_padded(ms / 1000 % 60, 2);
    number::lemma_padded(ms % 1000, 3);
    number::law_decimal_is_the_shortest(ms / 3600000);
    reveal_strlit(":");
    let s = timestamp(ms, separator);
    let n = s.len() as int;
    let h = hours.len() as int;
    assert(n == h + 10);
    assert(s.subrange(n - 9, n - 7) == minutes);
    assert(s.subrange(n - 6, n - 4) == seconds);
    assert forall|i: int|
        0 <= i < n && i != n - 10 && i != n - 7 && i != n - 4 implies '0' <= #[trigger] s[i]
        <= '9' by {
        if i < h {
            assert(s[i] == hours[i]);
            assert(number::is_digit(hours[i]));
        } else if i < h + 3 {
            assert(s[i] == minutes[i - h - 1]);
            assert(number::is_digit(minutes[i - h - 1]));
        } else if i < h + 6 {
            assert(s[i] == seconds[i - h - 4]);
            assert(number::is_digit(seconds[i - h - 4]));
        } else {
            assert(s[i] == millis[i - h - 7]);
            assert(number::is_digit(millis[i - h - 7]));
        }
    }
    if n > 12 {
        assert(hours == number::decimal(ms / 3600000));
        assert(s[0] == hours[0]);
    }
}

/// Nothing of what was said is missing from a cue: its text is the speaker, a colon and a space
/// where there is a speaker, and the whole text of the segment, without the white space at the
/// ends of that line.
pub proof fn law_cue_loses_only_outer_space(segment: transcript::SegmentView, line: Seq<char>)
    requires
        segment.speaker matches Some(speaker) ==> line == speaker + ": "@ + segment.text,
        segment.speaker is None ==> line == segment.text,
    ensures
        exists|i: int, j: int|
            {
                &&& 0 <= i <= j <= line.len()
                &&& cue_text(segment) == #[trigger] line.subrange(i, j)
                &&& forall|k: int| 0 <= k < i ==> text::is_white_space(#[trigger] line[k])
                &&& forall|k: int|
                    j <= k < line.len() ==> text::is_white_space(#[trigger] line[k])
            },
{
    text::law_trimming_takes_only_outer_space(line);
}

/// A text without white space at its ends stands in its cue as it is, behind its speaker where it
/// has one.
pub proof fn law_cue_says_the_whole_text(segment: transcript::SegmentView)
    requires
        segment.text.len() > 0,
        !text::is_white_space(segment.text[0]),
        !text::is_white_space(segment.text.last()),
        segment.speaker matches Some(speaker) ==> speaker.len() > 0 ==> !text::is_white_space(
            speaker[0],
        ),
    ensures
        segment.speaker is None ==> cue_text(segment) == segment.text,
        segment.speaker matches Some(speaker) ==> cue_text(segment) == speaker + ": "@
            + segment.text,
{
    reveal_strlit(": ");
    let line = match segment.speaker {
        Some(speaker) => speaker + ": "@ + segment.text,
        None => segment.text,
    };
    assert(line.last() == segment.text.last());
    if let Some(speaker) = segment.speaker {
        assert(line[0] == if speaker.len() > 0 {
            speaker[0]
        } else {
            ':'
        });
    }
    text::law_text_without_outer_space_stays(line);
}

/// A WebVTT file begins with its header, and each further segment adds one block: its times with
/// a point, its line and a blank line.
pub proof fn law_webvtt_adds_one_block_for_each_segment(
    before: Seq<transcript::SegmentView>,
    segment: transcript::SegmentView,
)
    ensures
        webvtt(Seq::empty()) == "WEBVTT\n\n"@,
        webvtt(before.push(segment)) == webvtt(before) + (timestamp(segment.start_ms as nat, "."@)
            + " --> "@ + timestamp(segment.end_ms as nat, "."@) + "\n"@ + text::trimmed(
            match segment.speaker {
                Some(speaker) => speaker + ": "@ + segment.text,
                None => segment.text,
            },
        ) + "\n\n"@),
{
    assert(webvtt(Seq::empty()) =~= "WEBVTT\n\n"@);
    assert(before.push(segment).drop_last() == before);
    text::lemma_concat("WEBVTT\n\n"@, webvtt_cues(before), cue(segment, "."@));
}

/// An SRT file begins with nothing, and each further segment adds one block: its number, counted
/// from one, its times with a comma, its line and a blank line.
pub proof fn law_srt_adds_one_block_for_each_segment(
    before: Seq<transcript::SegmentView>,
    segment: transcript::SegmentView,
)
    ensures
        srt(Seq::empty()) == Seq::<char>::empty(),
        srt(before.push(segment)) == srt(before) + (number::decimal(before.len() + 1) + "\n"@
            + timestamp(segment.start_ms as nat, ","@) + " --> "@ + timestamp(
            segment.end_ms as nat,
            ","@,
        ) + "\n"@ + text::trimmed(
            match segment.speaker {
                Some(speaker) => speaker + ": "@ + segment.text,
                None => segment.text,
            },
        ) + "\n\n"@),
{
    assert(before.push(segment).drop_last() == before);
    let block = cue(segment, ","@);
    let number = number::decimal(before.len() + 1);
    assert(srt(before.push(segment)) =~= srt(before) + (number + "\n"@ + block));
    assert(number + "\n"@ + block =~= number + "\n"@ + timestamp(segment.start_ms as nat, ","@)
        + " --> "@ + timestamp(segment.end_ms as nat, ","@) + "\n"@ + cue_text(segment)
        + "\n\n"@);
}

} // verus!

//! Who speaks in which segment: each segment gets the speaker whose turn overlaps it longest.

use vstd::prelude::*;
use crate::transcript;
use crate::transcript::TranscriptSegment;

verus! {

/// A turn of a speaker.
#[derive(Debug, Clone)]
pub struct DiarizationSegment {
    pub speaker: String,
    pub start_ms: u64,
    pub end_ms: u64,
}

/// A turn, with its speaker as a sequence of characters.
#[verifier::ext_equal]
pub struct TurnView {
    pub speaker: Seq<char>,
    pub start_ms: u64,
    pub end_ms: u64,
}

impl View for DiarizationSegment {
    type V = TurnView;

    open spec fn view(&self) -> TurnView {
        TurnView { speaker: self.speaker@, start_ms: self.start_ms, end_ms: self.end_ms }
    }
}

/// The turns, each by its view.
pub open spec fn turns_of(s: Seq<DiarizationSegment>) -> Seq<TurnView> {
    Seq::new(s.len(), |i: int| s[i]@)
}

/// For how many milliseconds a segment and a turn overlap.
pub open spec fn overlap(segment: transcript::SegmentView, turn: TurnView) -> int {
    let start = if segment.start_ms >= turn.start_ms {
        segment.start_ms
    } else {
        turn.start_ms
    };
    let end = if segment.end_ms <= turn.end_ms {
        segment.end_ms
    } else {
        turn.end_ms
    };
    if start < end {
        end - start
    } else {
        0
    }
}

/// Whether turn `i` is the first of those that overlap a segment longest.
pub open spec fn is_longest(
    segment: transcript::SegmentView,
    turns: Seq<TurnView>,
    i: int,
) -> bool {
    &&& 0 <= i < turns.len()
    &&& overlap(segment, turns[i]) > 0
    &&& forall|j: int|
        0 <= j < turns.len() ==> #[trigger] overlap(segment, turns[j]) <= overlap(
            segment,
            turns[i],
        )
    &&& forall|j: int|
        0 <= j < i ==> #[trigger] overlap(segment, turns[j]) < overlap(segment, turns[i])
}

/// A segment with the speaker whose turn overlaps it longest, or as it is where none does.
pub open spec fn with_speaker(
    segment: transcript::SegmentView,
    turns: Seq<TurnView>,
) -> transcript::SegmentView {
    if exists|i: int| is_longest(segment, turns, i) {
        let i = choose|i: int| is_longest(segment, turns, i);
        transcript::SegmentView { speaker: Some(turns[i].speaker), ..segment }
    } else {
        segment
    }
}

/// All segments, each with its speaker.
pub open spec fn with_speakers(
    segments: Seq<transcript::SegmentView>,
    turns: Seq<TurnView>,
) -> Seq<transcript::SegmentView> {
    segments.map_values(|segment: transcript::SegmentView| with_speaker(segment, turns))
}

/// For how many milliseconds a segment and a turn overlap.
fn overlap_ms(segment: &TranscriptSegment, turn: &DiarizationSegment) -> (r: u64)
    ensures
        r == overlap(segment@, turn@),
{
    let start: u64 = if segment.start_ms >= turn.start_ms {
        segment.start_ms
    } else {
        turn.start_ms
    };
    let end: u64 = if segment.end_ms <= turn.end_ms {
        segment.end_ms
    } else {
        turn.end_ms
    };
    end.saturating_sub(start)
}

/// The first of the turns that overlap a segment longest, if any does.
fn longest_turn(segment: &TranscriptSegment, turns: &[DiarizationSegment]) -> (r: Option<usize>)
    ensures
        r matches Some(i) ==> is_longest(segment@, turns_of(turns@), i as int),
        r is None ==> forall|i: int|
            0 <= i < turns.len() ==> #[trigger] overlap(segment@, turns_of(turns@)[i]) == 0,
{
    let ghost all = turns_of(turns@);
    let mut best: Option<usize> = None;
    let mut best_overlap: u64 = 0;
    let mut i: usize = 0;
    while i < turns.len()
        invariant
            i <= turns.len(),
            all == turns_of(turns@),
            best is None <==> best_overlap == 0,
            best matches Some(b) ==> b < i && best_overlap == overlap(segment@, all[b as int])
                && forall|j: int|
                0 <= j < b ==> #[trigger] overlap(segment@, all[j]) < best_overlap,
            forall|j: int| 0 <= j < i ==> #[trigger] overlap(segment@, all[j]) <= best_overlap,
        decreases turns.len() - i,
    {
        let overlap: u64 = overlap_ms(segment, &turns[i]);
        if overlap > best_overlap {
            best_overlap = overlap;
            best = Some(i);
        }
        i = i + 1;
    }
    best
}

/// There is at most one such turn.
proof fn lemma_longest_is_unique(
    segment: transcript::SegmentView,
    turns: Seq<TurnView>,
    i: int,
    j: int,
)
    requires
        is_longest(segment, turns, i),
        is_longest(segment, turns, j),
    ensures
        i == j,
{
}

/// Gives each segment the speaker whose turn overlaps it longest, the first of them where
/// several do; a segment that no turn overlaps stays as it is.
pub fn assign_speakers(
    asr_segments: &mut [TranscriptSegment],
    diarization_segments: &[DiarizationSegment],
)
    ensures
        transcript::segments_of(final(asr_segments)@) == with_speakers(
            transcript::segments_of(old(asr_segments)@),
            turns_of(diarization_segments@),
        ),
{
    let ghost before = transcript::segments_of(asr_segments@);
    let ghost turns = turns_of(diarization_segments@);
    let mut k: usize = 0;
    while k < asr_segments.len()
        invariant
            k <= asr_segments.len() == before.len(),
            turns == turns_of(diarization_segments@),
            forall|m: int|
                0 <= m < k ==> #[trigger] asr_segments@[m]@ == with_speaker(before[m], turns),
            forall|m: int| k <= m < before.len() ==> #[trigger] asr_segments@[m]@ == before[m],
        decreases asr_segments.len() - k,
    {
        match longest_turn(&asr_segments[k], diarization_segments) {
            Some(i) => {
                proof {
                    let chosen = choose|i: int| is_longest(before[k as int], turns, i);
                    lemma_longest_is_unique(before[k as int], turns, i as int, chosen);
                }
                asr_segments[k].speaker = Some(diarization_segments[i].speaker.clone());
            },
            None => {},
        }
        k = k + 1;
    }
}

/// A segment has a longest turn exactly when some turn overlaps it.
pub proof fn law_overlap_gives_a_speaker(segment: transcript::SegmentView, turns: Seq<TurnView>)
    ensures
        (exists|i: int| is_longest(segment, turns, i)) <==> (exists|i: int|
            0 <= i < turns.len() && #[trigger] overlap(segment, turns[i]) > 0),
    decreases turns.len(),
{
    if turns.len() > 0 {
        let front = turns.drop_last();
        let last = turns.len() - 1;
        law_overlap_gives_a_speaker(segment, front);
        assert forall|j: int| 0 <= j < last implies #[trigger] turns[j] == front[j] by {}
        if exists|i: int| is_longest(segment, front, i) {
            let i = choose|i: int| is_longest(segment, front, i);
            assert forall|j: int| 0 <= j < last implies #[trigger] overlap(segment, turns[j])
                <= overlap(segment, turns[i]) by {
                assert(overlap(segment, front[j]) <= overlap(segment, front[i]));
            }
            if overlap(segment, turns[last]) > overlap(segment, turns[i]) {
                assert(is_longest(segment, turns, last));
            } else {
                assert forall|j: int| 0 <= j < i implies #[trigger] overlap(segment, turns[j])
                    < overlap(segment, turns[i]) by {
                    assert(overlap(segment, front[j]) < overlap(segment, front[i]));
                }
                assert(is_longest(segment, turns, i));
            }
        } else {
            assert forall|j: int| 0 <= j < last implies #[trigger] overlap(segment, turns[j])
                <= 0 by {
                assert(overlap(segment, front[j]) <= 0);
            }
            if overlap(segment, turns[last]) > 0 {
                assert(is_longest(segment, turns, last));
            }
        }
    }
}

/// Times and text of a segment stay as they are; its speaker is one of those who have a turn,
/// or the one that it had.
pub proof fn law_only_the_speaker_changes(segment: transcript::SegmentView, turns: Seq<TurnView>)
    ensures
        with_speaker(segment, turns).start_ms == segment.start_ms,
        with_speaker(segment, turns).end_ms == segment.end_ms,
        with_speaker(segment, turns).text == segment.text,
        with_speaker(segment, turns).speaker == segment.speaker || exists|i: int|
            0 <= i < turns.len() && with_speaker(segment, turns).speaker == Some(
                (#[trigger] turns[i]).speaker,
            ),
{
    if exists|i: int| is_longest(segment, turns, i) {
        let i = choose|i: int| is_longest(segment, turns, i);
        assert(with_speaker(segment, turns).speaker == Some(turns[i].speaker));
    }
}

/// Assigning the speakers of the same turns again changes nothing.
pub proof fn law_assigning_again_changes_nothing(
    segments: Seq<transcript::SegmentView>,
    turns: Seq<TurnView>,
)
    ensures
        with_speakers(with_speakers(segments, turns), turns) == with_speakers(segments, turns),
{
    let once = with_speakers(segments, turns);
    assert forall|k: int| 0 <= k < once.len() implies with_speaker(once[k], turns)
        == #[trigger] once[k] by {
        let segment = segments[k];
        assert forall|i: int| is_longest(once[k], turns, i) == is_longest(segment, turns, i) by {
            assert forall|j: int| overlap(once[k], #[trigger] turns[j]) == overlap(
                segment,
                turns[j],
            ) by {}
        }
        if exists|i: int| is_longest(segment, turns, i) {
            let i = choose|i: int| is_longest(segment, turns, i);
            assert(is_longest(once[k], turns, i));
            let again = choose|i: int| is_longest(once[k], turns, i);
            lemma_longest_is_unique(once[k], turns, i, again);
        } else {
            assert forall|i: int| !is_longest(once[k], turns, i) by {
                assert(!is_longest(segment, turns, i));
            }
        }
    }
    assert(with_speakers(once, turns) =~= once);
}

/// Without turns every segment stays as it is.
pub proof fn law_no_turns_change_nothing(segments: Seq<transcript::SegmentView>)
    ensures
        with_speakers(segments, Seq::empty()) == segments,
{
    assert(with_speakers(segments, Seq::empty()) =~= segments);
}

/// The overlap of a segment and a turn is the number of milliseconds that belong to both.
pub proof fn law_overlap_counts_shared_milliseconds(
    segment: transcript::SegmentView,
    turn: TurnView,
)
    ensures
        ({
            let shared = Set::new(
                |t: int|
                    segment.start_ms <= t < segment.end_ms && turn.start_ms <= t < turn.end_ms,
            );
            shared.finite() && overlap(segment, turn) == shared.len()
        }),
{
    let shared = Set::new(
        |t: int| segment.start_ms <= t < segment.end_ms && turn.start_ms <= t < turn.end_ms,
    );
    let start: int = if segment.start_ms >= turn.start_ms {
        segment.start_ms as int
    } else {
        turn.start_ms as int
    };
    let end: int = if segment.end_ms <= turn.end_ms {
        segment.end_ms as int
    } else {
        turn.end_ms as int
    };
    if start < end {
        vstd::set_lib::lemma_int_range(start, end);
        assert(shared =~= vstd::set_lib::set_int_range(start, end));
    } else {
        assert(shared =~= Set::empty());
    }
}

/// A segment inside a turn overlaps it for its whole length, and a turn inside a segment for its
/// own; where one ends before the other begins there is no overlap.
pub proof fn law_overlap_of_what_lies_inside(segment: transcript::SegmentView, turn: TurnView)
    ensures
        turn.start_ms <= segment.start_ms <= segment.end_ms <= turn.end_ms ==> overlap(
            segment,
            turn,
        ) == segment.end_ms - segment.start_ms,
        segment.start_ms <= turn.start_ms <= turn.end_ms <= segment.end_ms ==> overlap(
            segment,
            turn,
        ) == turn.end_ms - turn.start_ms,
        segment.end_ms <= turn.start_ms || turn.end_ms <= segment.start_ms ==> overlap(
            segment,
            turn,
        ) == 0,
{
}

/// With one turn alone, a segment that takes any time and lies inside the turn gets its speaker.
pub proof fn law_segment_inside_a_turn_gets_its_speaker(
    segment: transcript::SegmentView,
    turn: TurnView,
)
    requires
        turn.start_ms <= segment.start_ms < segment.end_ms <= turn.end_ms,
    ensures
        with_speakers(seq![segment], seq![turn])[0].speaker == Some(turn.speaker),
{
    let turns = seq![turn];
    assert(turns[0] == turn);
    assert(is_longest(segment, turns, 0));
    let chosen = choose|i: int| is_longest(segment, turns, i);
    lemma_longest_is_unique(segment, turns, 0, chosen);
}

/// Every segment stays in its place. One that no turn shares a millisecond with stays as it is; any
/// other gets the speaker of the turn that it shares the most milliseconds with, the first of them
/// where several share as many, and keeps its times and its text.
pub proof fn law_longest_turn_gives_the_speaker(
    segments: Seq<transcript::SegmentView>,
    turns: Seq<TurnView>,
    k: int,
)
    requires
        0 <= k < segments.len(),
    ensures
        with_speakers(segments, turns).len() == segments.len(),
        (forall|j: int| 0 <= j < turns.len() ==> #[trigger] overlap(segments[k], turns[j]) == 0)
            ==> with_speakers(segments, turns)[k] == segments[k],
        forall|i: int|
            #![trigger turns[i]]
            {
                &&& 0 <= i < turns.len()
                &&& overlap(segments[k], turns[i]) > 0
                &&& forall|j: int|
                    0 <= j < i ==> #[trigger] overlap(segments[k], turns[j]) < overlap(
                        segments[k],
                        turns[i],
                    )
                &&& forall|j: int|
                    i < j < turns.len() ==> #[trigger] overlap(segments[k], turns[j]) <= overlap(
                        segments[k],
                        turns[i],
                    )
            } ==> {
                &&& with_speakers(segments, turns)[k].speaker == Some(turns[i].speaker)
                &&& with_speakers(segments, turns)[k].start_ms == segments[k].start_ms
                &&& with_speakers(segments, turns)[k].end_ms == segments[k].end_ms
                &&& with_speakers(segments, turns)[k].text == segments[k].text
            },
{
    let segment = segments[k];
    assert(with_speakers(segments, turns)[k] == with_speaker(segment, turns));
    if forall|j: int| 0 <= j < turns.len() ==> #[trigger] overlap(segment, turns[j]) == 0 {
        assert forall|i: int| !is_longest(segment, turns, i) by {
            if 0 <= i < turns.len() {
                assert(overlap(segment, turns[i]) == 0);
            }
        }
    }
    assert forall|i: int|
        #![trigger turns[i]]
        {
            &&& 0 <= i < turns.len()
            &&& overlap(segment, turns[i]) > 0
            &&& forall|j: int|
                0 <= j < i ==> #[trigger] overlap(segment, turns[j]) < overlap(segment, turns[i])
            &&& forall|j: int|
                i < j < turns.len() ==> #[trigger] overlap(segment, turns[j]) <= overlap(
                    segment,
                    turns[i],
                )
        } implies with_speaker(segment, turns) == (transcript::SegmentView {
        speaker: Some(turns[i].speaker),
        ..segment
    }) by {
        assert forall|j: int| 0 <= j < turns.len() implies #[trigger] overlap(segment, turns[j])
            <= overlap(segment, turns[i]) by {}
        assert(is_longest(segment, turns, i));
        let chosen = choose|i: int| is_longest(segment, turns, i);
        lemma_longest_is_unique(segment, turns, i, chosen);
    }
}

/// The view of the turns leaves nothing out.
pub proof fn law_view_shows_every_turn(turns: Seq<DiarizationSegment>, i: int)
    requires
        0 <= i < turns.len(),
    ensures
        turns_of(turns).len() == turns.len(),
        turns_of(turns)[i].speaker == turns[i].speaker@,
        turns_of(turns)[i].start_ms == turns[i].start_ms,
        turns_of(turns)[i].end_ms == turns[i].end_ms,
{
}

} // verus!

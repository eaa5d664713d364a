//! All attempts for one request, as a machine: an attempt that fails is repeated after a wait
//! that doubles each time, until one succeeds and is published or the last has failed and its
//! error is published.

use vstd::arithmetic::power::pow;
use vstd::prelude::*;
use crate::file_id;
use crate::file_id::FileId;
use crate::pipeline;
use crate::pipeline::SubtitleResult;

verus! {

/// The stage that a published error names.
pub const ERROR_STAGE: &'static str = "transcription";

/// The paths that link a playlist to its subtitles.
pub struct SubtitleLinkage {
    pub hls_path: String,
    pub subtitle_vtt_path: String,
    pub subtitle_srt_path: String,
    pub language: String,
}

/// What to do next for a request.
pub enum RunAction {
    Attempt { attempt: u32 },
    PublishReady { result: SubtitleResult },
    PublishLinkage { linkage: SubtitleLinkage },
    Sleep { seconds: u64 },
    PublishError { stage: String, message: String },
    Stop,
}

/// What became of it. Whether a message could be published makes no difference.
pub enum RunOutcome {
    Succeeded(SubtitleResult),
    Failed(String),
    Done,
}

/// What a request waits for.
pub enum RunStage {
    Attempting { attempt: u32 },
    Waiting { attempt: u32 },
    Announcing { result: SubtitleResult },
    Linking,
    Reporting,
    Over,
}

#[verifier::ext_equal]
pub struct LinkageView {
    pub hls_path: Seq<char>,
    pub subtitle_vtt_path: Seq<char>,
    pub subtitle_srt_path: Seq<char>,
    pub language: Seq<char>,
}

#[verifier::ext_equal]
pub enum RunActionView {
    Attempt { attempt: int },
    PublishReady { result: pipeline::ResultView },
    PublishLinkage { linkage: LinkageView },
    Sleep { seconds: int },
    PublishError { stage: Seq<char>, message: Seq<char> },
    Stop,
}

#[verifier::ext_equal]
pub enum RunOutcomeView {
    Succeeded(pipeline::ResultView),
    Failed(Seq<char>),
    Done,
}

#[verifier::ext_equal]
pub enum RunStageView {
    Attempting { attempt: int },
    Waiting { attempt: int },
    Announcing { result: pipeline::ResultView },
    Linking,
    Reporting,
    Over,
}

impl View for SubtitleLinkage {
    type V = LinkageView;

    open spec fn view(&self) -> LinkageView {
        LinkageView {
            hls_path: self.hls_path@,
            subtitle_vtt_path: self.subtitle_vtt_path@,
            subtitle_srt_path: self.subtitle_srt_path@,
            language: self.language@,
        }
    }
}

impl View for RunAction {
    type V = RunActionView;

    open spec fn view(&self) -> RunActionView {
        match self {
            RunAction::Attempt { attempt } => RunActionView::Attempt { attempt: *attempt as int },
            RunAction::PublishReady { result } => RunActionView::PublishReady { result: result@ },
            RunAction::PublishLinkage { linkage } => RunActionView::PublishLinkage {
                linkage: linkage@,
            },
            RunAction::Sleep { seconds } => RunActionView::Sleep { seconds: *seconds as int },
            RunAction::PublishError { stage, message } => RunActionView::PublishError {
                stage: stage@,
                message: message@,
            },
            RunAction::Stop => RunActionView::Stop,
        }
    }
}

impl View for RunOutcome {
    type V = RunOutcomeView;

    open spec fn view(&self) -> RunOutcomeView {
        match self {
            RunOutcome::Succeeded(result) => RunOutcomeView::Succeeded(result@),
            RunOutcome::Failed(message) => RunOutcomeView::Failed(message@),
            RunOutcome::Done => RunOutcomeView::Done,
        }
    }
}

impl View for RunStage {
    type V = RunStageView;

    open spec fn view(&self) -> RunStageView {
        match self {
            RunStage::Attempting { attempt } => RunStageView::Attempting {
                attempt: *attempt as int,
            },
            RunStage::Waiting { attempt } => RunStageView::Waiting { attempt: *attempt as int },
            RunStage::Announcing { result } => RunStageView::Announcing { result: result@ },
            RunStage::Linking => RunStageView::Linking,
            RunStage::Reporting => RunStageView::Reporting,
            RunStage::Over => RunStageView::Over,
        }
    }
}

/// The seconds to wait after attempt `attempt` has failed.
pub open spec fn backoff(attempt: int) -> int {
    pow(2, attempt as nat)
}

/// The seconds to wait after attempt `attempt` has failed.
pub fn backoff_seconds(attempt: u32) -> (r: u64)
    requires
        attempt < 64,
    ensures
        r == backoff(attempt as int),
{
    let mut seconds: u64 = 1;
    let mut i: u32 = 0;
    proof {
        vstd::arithmetic::power::lemma_pow0(2);
    }
    while i < attempt
        invariant
            i <= attempt < 64,
            seconds == pow(2, i as nat),
        decreases attempt - i,
    {
        proof {
            vstd::arithmetic::power2::lemma_pow2(63);
            vstd::arithmetic::power2::lemma2_to64_rest();
            vstd::arithmetic::power::lemma_pow_increases(2, (i + 1) as nat, 63);
            reveal(pow);
        }
        seconds = seconds * 2;
        i = i + 1;
    }
    seconds
}

/// The link from the playlist of a file to the subtitles of a result.
pub open spec fn linkage_of(file_id: FileId, result: pipeline::ResultView) -> LinkageView {
    LinkageView {
        hls_path: "/media/"@ + file_id::uuid_text(file_id.value) + "/master.m3u8"@,
        subtitle_vtt_path: "/"@ + result.vtt_object_key,
        subtitle_srt_path: "/"@ + result.srt_object_key,
        language: result.language,
    }
}

/// The link from the playlist of a file to the subtitles of a result.
pub fn subtitle_linkage(file_id: FileId, result: &SubtitleResult) -> (r: SubtitleLinkage)
    ensures
        r@ == linkage_of(file_id, result@),
{
    let mut hls_path: String = "/media/".to_string();
    hls_path.append(file_id.text().as_str());
    hls_path.append("/master.m3u8");
    let mut subtitle_vtt_path: String = "/".to_string();
    subtitle_vtt_path.append(result.vtt_object_key.as_str());
    let mut subtitle_srt_path: String = "/".to_string();
    subtitle_srt_path.append(result.srt_object_key.as_str());
    SubtitleLinkage {
        hls_path,
        subtitle_vtt_path,
        subtitle_srt_path,
        language: result.language.clone(),
    }
}

/// Whether an outcome is one that the stage waits for. The wait after an attempt that is not the
/// last must fit into 64 bits.
pub open spec fn run_accepts(
    max_retries: u32,
    stage: RunStageView,
    outcome: RunOutcomeView,
) -> bool {
    match stage {
        RunStageView::Attempting { attempt } => attempt <= max_retries && match outcome {
            RunOutcomeView::Succeeded(_) => true,
            RunOutcomeView::Failed(_) => attempt == max_retries || attempt < 64,
            RunOutcomeView::Done => false,
        },
        RunStageView::Waiting { attempt } => attempt < max_retries && outcome is Done,
        RunStageView::Announcing { .. }
        | RunStageView::Linking
        | RunStageView::Reporting => outcome is Done,
        RunStageView::Over => false,
    }
}

/// How the attempts for a request begin. Where none is allowed, an empty error is published.
pub open spec fn run_first(max_retries: u32) -> (RunStageView, RunActionView) {
    if max_retries == 0 {
        (
            RunStageView::Reporting,
            RunActionView::PublishError { stage: ERROR_STAGE@, message: Seq::empty() },
        )
    } else {
        (RunStageView::Attempting { attempt: 1 }, RunActionView::Attempt { attempt: 1 })
    }
}

/// How the attempts for a request go on.
pub open spec fn run_next(
    file_id: FileId,
    max_retries: u32,
    stage: RunStageView,
    outcome: RunOutcomeView,
) -> (RunStageView, RunActionView) {
    match (stage, outcome) {
        (RunStageView::Attempting { .. }, RunOutcomeView::Succeeded(result)) => (
            RunStageView::Announcing { result },
            RunActionView::PublishReady { result },
        ),
        (RunStageView::Attempting { attempt }, RunOutcomeView::Failed(message)) => {
            if attempt < max_retries {
                (
                    RunStageView::Waiting { attempt },
                    RunActionView::Sleep { seconds: backoff(attempt) },
                )
            } else {
                (
                    RunStageView::Reporting,
                    RunActionView::PublishError { stage: ERROR_STAGE@, message },
                )
            }
        },
        (RunStageView::Waiting { attempt }, _) => (
            RunStageView::Attempting { attempt: attempt + 1 },
            RunActionView::Attempt { attempt: attempt + 1 },
        ),
        (RunStageView::Announcing { result }, _) => (
            RunStageView::Linking,
            RunActionView::PublishLinkage { linkage: linkage_of(file_id, result) },
        ),
        _ => (RunStageView::Over, RunActionView::Stop),
    }
}

impl RunStage {
    /// Whether `outcome` is one that the stage waits for.
    pub fn awaits(&self, max_retries: u32, outcome: &RunOutcome) -> (r: bool)
        ensures
            r == run_accepts(max_retries, self@, outcome@),
    {
        match self {
            RunStage::Attempting { attempt } => *attempt <= max_retries && match outcome {
                RunOutcome::Succeeded(_) => true,
                RunOutcome::Failed(_) => *attempt == max_retries || *attempt < 64,
                RunOutcome::Done => false,
            },
            RunStage::Waiting { attempt } => *attempt < max_retries && matches!(
                outcome,
                RunOutcome::Done
            ),
            RunStage::Announcing { .. } | RunStage::Linking | RunStage::Reporting => matches!(
                outcome,
                RunOutcome::Done
            ),
            RunStage::Over => false,
        }
    }
}

/// Begins the attempts for a request.
pub fn start_run(max_retries: u32) -> (r: (RunStage, RunAction))
    ensures
        (r.0@, r.1@) == run_first(max_retries),
{
    if max_retries == 0 {
        let message: String = String::new();
        (RunStage::Reporting, RunAction::PublishError { stage: ERROR_STAGE.to_string(), message })
    } else {
        (RunStage::Attempting { attempt: 1 }, RunAction::Attempt { attempt: 1 })
    }
}

/// A copy of a result.
fn copy_result(result: &SubtitleResult) -> (r: SubtitleResult)
    ensures
        r@ == result@,
{
    SubtitleResult {
        bucket: result.bucket.clone(),
        vtt_object_key: result.vtt_object_key.clone(),
        srt_object_key: result.srt_object_key.clone(),
        language: result.language.clone(),
        segments: result.segments,
    }
}

/// Goes on with the attempts for a request, given what became of the last action.
pub fn step_run(file_id: FileId, max_retries: u32, stage: RunStage, outcome: RunOutcome) -> (r: (
    RunStage,
    RunAction,
))
    requires
        run_accepts(max_retries, stage@, outcome@),
    ensures
        (r.0@, r.1@) == run_next(file_id, max_retries, stage@, outcome@),
{
    match (stage, outcome) {
        (RunStage::Attempting { .. }, RunOutcome::Succeeded(result)) => {
            let announced: SubtitleResult = copy_result(&result);
            (RunStage::Announcing { result }, RunAction::PublishReady { result: announced })
        },
        (RunStage::Attempting { attempt }, RunOutcome::Failed(message)) => {
            if attempt < max_retries {
                (RunStage::Waiting { attempt }, RunAction::Sleep { seconds: backoff_seconds(attempt) })
            } else {
                (
                    RunStage::Reporting,
                    RunAction::PublishError { stage: ERROR_STAGE.to_string(), message },
                )
            }
        },
        (RunStage::Waiting { attempt }, _) => (
            RunStage::Attempting { attempt: attempt + 1 },
            RunAction::Attempt { attempt: attempt + 1 },
        ),
        (RunStage::Announcing { result }, _) => (
            RunStage::Linking,
            RunAction::PublishLinkage { linkage: subtitle_linkage(file_id, &result) },
        ),
        _ => (RunStage::Over, RunAction::Stop),
    }
}

/// A measure that every step makes smaller.
pub open spec fn left(max_retries: u32, stage: RunStageView) -> int {
    match stage {
        RunStageView::Attempting { attempt } => 2 * (max_retries - attempt) + 4,
        RunStageView::Waiting { attempt } => 2 * (max_retries - attempt) + 3,
        RunStageView::Announcing { .. } => 2,
        RunStageView::Linking | RunStageView::Reporting => 1,
        RunStageView::Over => 0,
    }
}

/// The actions that follow a stage, where attempt `n` ends with `results(n)`.
pub open spec fn actions_from(
    file_id: FileId,
    max_retries: u32,
    stage: RunStageView,
    results: spec_fn(int) -> RunOutcomeView,
) -> Seq<RunActionView>
    decreases left(max_retries, stage),
{
    let outcome = match stage {
        RunStageView::Attempting { attempt } => results(attempt),
        _ => RunOutcomeView::Done,
    };
    let (next, action) = run_next(file_id, max_retries, stage, outcome);
    if 0 <= left(max_retries, next) < left(max_retries, stage) {
        seq![action] + actions_from(file_id, max_retries, next, results)
    } else {
        Seq::empty()
    }
}

/// All actions for a request whose attempt `n` ends with `results(n)`.
pub open spec fn all_actions(
    file_id: FileId,
    max_retries: u32,
    results: spec_fn(int) -> RunOutcomeView,
) -> Seq<RunActionView> {
    let (stage, action) = run_first(max_retries);
    seq![action] + actions_from(file_id, max_retries, stage, results)
}

/// The waits and attempts that lead from attempt `first` to attempt `last`.
pub open spec fn retries(first: int, last: int) -> Seq<RunActionView>
    decreases last - first,
{
    if first < last {
        seq![
            RunActionView::Sleep { seconds: backoff(first) },
            RunActionView::Attempt { attempt: first + 1 },
        ] + retries(first + 1, last)
    } else {
        Seq::empty()
    }
}

/// Failed attempts lead, by their waits, to the attempt behind them.
proof fn lemma_failures(
    file_id: FileId,
    max_retries: u32,
    first: int,
    last: int,
    results: spec_fn(int) -> RunOutcomeView,
)
    requires
        1 <= first <= last <= max_retries,
        forall|n: int| first <= n < last ==> #[trigger] results(n) is Failed,
    ensures
        actions_from(file_id, max_retries, RunStageView::Attempting { attempt: first }, results)
            == retries(first, last) + actions_from(
            file_id,
            max_retries,
            RunStageView::Attempting { attempt: last },
            results,
        ),
    decreases last - first,
{
    if first < last {
        assert(results(first) is Failed);
        lemma_failures(file_id, max_retries, first + 1, last, results);
        reveal_with_fuel(actions_from, 3);
        let rest = actions_from(
            file_id,
            max_retries,
            RunStageView::Attempting { attempt: first + 1 },
            results,
        );
        let sleep = RunActionView::Sleep { seconds: backoff(first) };
        let again = RunActionView::Attempt { attempt: first + 1 };
        assert(actions_from(
            file_id,
            max_retries,
            RunStageView::Attempting { attempt: first },
            results,
        ) =~= seq![sleep] + (seq![again] + rest));
        assert(seq![sleep] + (seq![again] + rest) =~= seq![sleep, again] + rest);
    } else {
        assert(retries(first, last) =~= Seq::empty());
    }
}

/// The first attempt that succeeds is published, once, with the link to the playlist behind it;
/// no attempt and no error follows. Before it stand the failed attempts, and after the `n`-th
/// of them a wait of two to the power of `n` seconds.
pub proof fn law_first_success_is_published(
    file_id: FileId,
    max_retries: u32,
    attempt: int,
    results: spec_fn(int) -> RunOutcomeView,
)
    requires
        1 <= attempt <= max_retries,
        results(attempt) is Succeeded,
        forall|n: int| 1 <= n < attempt ==> #[trigger] results(n) is Failed,
    ensures
        all_actions(file_id, max_retries, results) == seq![RunActionView::Attempt { attempt: 1 }]
            + retries(1, attempt) + seq![
            RunActionView::PublishReady { result: results(attempt)->Succeeded_0 },
            RunActionView::PublishLinkage {
                linkage: linkage_of(file_id, results(attempt)->Succeeded_0),
            },
            RunActionView::Stop,
        ],
{
    lemma_failures(file_id, max_retries, 1, attempt, results);
    reveal_with_fuel(actions_from, 4);
}

/// Where every attempt fails, exactly as many are made as are allowed, and the error of the last
/// one is published and nothing else.
pub proof fn law_last_failure_is_published(
    file_id: FileId,
    max_retries: u32,
    results: spec_fn(int) -> RunOutcomeView,
)
    requires
        max_retries >= 1,
        forall|n: int| 1 <= n <= max_retries ==> #[trigger] results(n) is Failed,
    ensures
        all_actions(file_id, max_retries, results) == seq![RunActionView::Attempt { attempt: 1 }]
            + retries(1, max_retries as int) + seq![
            RunActionView::PublishError {
                stage: ERROR_STAGE@,
                message: results(max_retries as int)->Failed_0,
            },
            RunActionView::Stop,
        ],
{
    assert(results(max_retries as int) is Failed);
    lemma_failures(file_id, max_retries, 1, max_retries as int, results);
    reveal_with_fuel(actions_from, 3);
}

/// Where no attempt is allowed, none is made, and an empty error is published.
pub proof fn law_no_attempt_is_an_error(file_id: FileId, results: spec_fn(int) -> RunOutcomeView)
    ensures
        all_actions(file_id, 0, results) == seq![
            RunActionView::PublishError { stage: ERROR_STAGE@, message: Seq::empty() },
            RunActionView::Stop,
        ],
{
    reveal_with_fuel(actions_from, 3);
}

/// The subtitle files that a result links are those under its keys, each below the root.
pub proof fn law_linkage_points_at_the_subtitles(
    job: pipeline::JobView,
    transcript: crate::transcript::TranscriptView,
)
    ensures
        linkage_of(job.file_id, pipeline::result_of(job, transcript)).subtitle_vtt_path == "/"@
            + pipeline::subtitle_key(job.file_id, "subtitles.vtt"@),
        linkage_of(job.file_id, pipeline::result_of(job, transcript)).subtitle_srt_path == "/"@
            + pipeline::subtitle_key(job.file_id, "subtitles.srt"@),
        linkage_of(job.file_id, pipeline::result_of(job, transcript)).hls_path == "/"@
            + pipeline::subtitle_key(job.file_id, "master.m3u8"@),
{
    reveal_strlit("/media/");
    reveal_strlit("media/");
    reveal_strlit("/");
    reveal_strlit("/master.m3u8");
    reveal_strlit("master.m3u8");
}

/// The wait after the first attempt is two seconds, and each wait is twice the one before.
pub proof fn law_waits_double(attempt: int)
    requires
        attempt >= 1,
    ensures
        backoff(1) == 2,
        backoff(attempt + 1) == 2 * backoff(attempt),
{
    reveal_with_fuel(pow, 2);
    assert((attempt + 1) as nat - 1 == attempt as nat);
}

/// Between the first attempt and a later one, waits and attempts alternate: the wait of each failed
/// attempt, then the next attempt.
pub proof fn law_waits_and_attempts_alternate(first: int, last: int, i: int)
    requires
        first <= last,
        0 <= i < last - first,
    ensures
        retries(first, last).len() == 2 * (last - first),
        retries(first, last)[2 * i] == (RunActionView::Sleep { seconds: backoff(first + i) }),
        retries(first, last)[2 * i + 1] == (RunActionView::Attempt { attempt: first + i + 1 }),
    decreases last - first,
{
    let rest = retries(first + 1, last);
    if first + 1 < last {
        law_waits_and_attempts_alternate(
            first + 1,
            last,
            if i > 0 {
                i - 1
            } else {
                0
            },
        );
    } else {
        assert(rest.len() == 0);
    }
    if i > 0 {
        assert(retries(first, last)[2 * i] == rest[2 * (i - 1)]);
        assert(retries(first, last)[2 * i + 1] == rest[2 * (i - 1) + 1]);
    }
}

/// What is linked: the playlist of the file, the two subtitle files of the result below the root,
/// and the language of the result.
pub proof fn law_linkage_names_what_was_made(file_id: FileId, result: pipeline::ResultView)
    ensures
        linkage_of(file_id, result).hls_path == "/media/"@ + file_id::uuid_text(file_id.value)
            + "/master.m3u8"@,
        linkage_of(file_id, result).subtitle_vtt_path == "/"@ + result.vtt_object_key,
        linkage_of(file_id, result).subtitle_srt_path == "/"@ + result.srt_object_key,
        linkage_of(file_id, result).language == result.language,
{
}

/// A failure that is not the last leads to a wait and no message, the last to an error with its
/// text; a success is published with all that it reports, whatever attempt it is.
pub proof fn law_outcome_of_one_attempt(
    file_id: FileId,
    max_retries: u32,
    attempt: int,
    result: pipeline::ResultView,
    message: Seq<char>,
)
    requires
        1 <= attempt <= max_retries,
    ensures
        ({
            let stage = RunStageView::Attempting { attempt };
            let (next, action) = run_next(
                file_id,
                max_retries,
                stage,
                RunOutcomeView::Failed(message),
            );
            &&& attempt < max_retries ==> action == (RunActionView::Sleep {
                seconds: backoff(attempt),
            })
            &&& attempt < max_retries ==> run_next(
                file_id,
                max_retries,
                next,
                RunOutcomeView::Done,
            ).1 == (RunActionView::Attempt { attempt: attempt + 1 })
            &&& attempt == max_retries ==> action == (RunActionView::PublishError {
                stage: "transcription"@,
                message,
            })
            &&& run_next(
                file_id,
                max_retries,
                stage,
                RunOutcomeView::Succeeded(result),
            ).1 == (RunActionView::PublishReady { result })
        }),
{
}

/// A stage goes on with whatever its action can end with, except a failure whose wait does not fit
/// into 64 bits.
pub proof fn law_runs_await_every_answer(
    max_retries: u32,
    attempt: int,
    result: pipeline::ResultView,
    message: Seq<char>,
)
    requires
        1 <= attempt <= max_retries,
    ensures
        ({
            let stage = RunStageView::Attempting { attempt };
            let done = RunOutcomeView::Done;
            &&& run_accepts(max_retries, stage, RunOutcomeView::Succeeded(result))
            &&& attempt < 64 || attempt == max_retries ==> run_accepts(
                max_retries,
                stage,
                RunOutcomeView::Failed(message),
            )
            &&& attempt < max_retries ==> run_accepts(
                max_retries,
                RunStageView::Waiting { attempt },
                done,
            )
            &&& run_accepts(max_retries, RunStageView::Announcing { result }, done)
            &&& run_accepts(max_retries, RunStageView::Linking, done)
            &&& run_accepts(max_retries, RunStageView::Reporting, done)
        }),
{
}

/// The view of an action and of an outcome leaves nothing out.
pub proof fn law_views_show_the_run(action: RunAction, outcome: RunOutcome)
    ensures
        action matches RunAction::Attempt { attempt } ==> action@ == (RunActionView::Attempt {
            attempt: attempt as int,
        }),
        action matches RunAction::PublishReady { result } ==> action@
            == (RunActionView::PublishReady { result: result@ }),
        action matches RunAction::PublishLinkage { linkage } ==> {
            &&& action@ matches RunActionView::PublishLinkage { linkage: shown }
            &&& shown.hls_path == linkage.hls_path@
            &&& shown.subtitle_vtt_path == linkage.subtitle_vtt_path@
            &&& shown.subtitle_srt_path == linkage.subtitle_srt_path@
            &&& shown.language == linkage.language@
        },
        action matches RunAction::Sleep { seconds } ==> action@ == (RunActionView::Sleep {
            seconds: seconds as int,
        }),
        action matches RunAction::PublishError { stage, message } ==> action@
            == (RunActionView::PublishError { stage: stage@, message: message@ }),
        outcome matches RunOutcome::Succeeded(r) ==> outcome@ == RunOutcomeView::Succeeded(r@),
        outcome matches RunOutcome::Failed(m) ==> outcome@ == RunOutcomeView::Failed(m@),
{
}

} // verus!

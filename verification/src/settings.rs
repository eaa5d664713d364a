//! Settings of the worker from variables of its environment.

use vstd::prelude::*;
use crate::file_id;
use crate::file_id::FileId;
use crate::number;
use crate::text;
use crate::transcript;

verus! {

/// Bucket of the subtitles, where none is set.
pub const DEFAULT_BUCKET: &'static str = "4c5face5-544c-4bc2-a2e0-57a24d243af3";

/// Transcriber, where none is set.
pub const DEFAULT_TRANSCRIBER: &'static str = "mock";

/// Program that runs pyannote, where none is set.
pub const DEFAULT_PYTHON_BIN: &'static str = "python3";

/// Script that runs pyannote, where none is set.
pub const DEFAULT_SCRIPT_PATH: &'static str = "pyannote/diarize.py";

/// Attempts for each request, where no number is set.
pub const DEFAULT_MAX_RETRIES: u32 = 3;

/// Seconds before a consumer that stopped is started again, where no number is set.
pub const DEFAULT_RESTART_DELAY: u64 = 5;

/// The value of a variable, or a default where it is not set.
pub open spec fn value_or(value: Option<Seq<char>>, default: Seq<char>) -> Seq<char> {
    match value {
        Some(v) => v,
        None => default,
    }
}

/// The value of a variable, or a default where it is not set.
pub fn setting_or(value: Option<String>, default: &str) -> (r: String)
    ensures
        r@ == value_or(transcript::text_of(value), default@),
{
    match value {
        Some(v) => v,
        None => default.to_string(),
    }
}

/// The bucket of the subtitles, from `SUBTITLE_BUCKET`, else from `S3_BUCKET`, else the default.
pub fn subtitle_bucket(chosen: Option<String>, s3_bucket: Option<String>) -> (r: String)
    ensures
        r@ == value_or(
            transcript::text_of(chosen),
            value_or(transcript::text_of(s3_bucket), DEFAULT_BUCKET@),
        ),
{
    match chosen {
        Some(v) => v,
        None => setting_or(s3_bucket, DEFAULT_BUCKET),
    }
}

/// The number of attempts for each request, from `SUBTITLE_MAX_RETRIES`. Where it is set it must be
/// a number of 32 bits.
pub fn subtitle_max_retries(value: Option<&str>) -> (r: Option<u32>)
    ensures
        value is None ==> r == Some(DEFAULT_MAX_RETRIES),
        value matches Some(v) ==> {
            &&& r is Some <==> number::within(
                number::unsigned_number(v@),
                0,
                u32::MAX as int,
            ) is Some
            &&& r matches Some(n) ==> number::unsigned_number(v@) == Some(n as int)
        },
{
    match value {
        Some(v) => number::parse_u32(v),
        None => Some(DEFAULT_MAX_RETRIES),
    }
}

/// Whether `PYANNOTE_ENABLED` says so: it does with `true` in letters of any case.
pub fn pyannote_enabled(value: Option<&str>) -> (r: bool)
    ensures
        r == match transcript::chars_of(value) {
            Some(v) => text::same_ignoring_case(v, "true"@),
            None => false,
        },
{
    match value {
        Some(v) => text::equals_ignoring_case(v, "true"),
        None => false,
    }
}

/// The seconds before a consumer that stopped is started again.
pub open spec fn restart_delay(value: Option<Seq<char>>) -> int {
    match value {
        Some(v) => match number::within(number::unsigned_number(v), 1, u64::MAX as int) {
            Some(n) => n,
            None => DEFAULT_RESTART_DELAY as int,
        },
        None => DEFAULT_RESTART_DELAY as int,
    }
}

/// The seconds before a consumer that stopped is started again: what
/// `KAFKA_CONSUMER_RESTART_DELAY_SECONDS` says where it is a positive number, else the default.
pub fn consumer_restart_delay(value: Option<&str>) -> (r: u64)
    ensures
        r == restart_delay(transcript::chars_of(value)),
{
    match value {
        Some(v) => match number::parse_u64(v) {
            Some(n) => if n > 0 {
                n
            } else {
                DEFAULT_RESTART_DELAY
            },
            None => DEFAULT_RESTART_DELAY,
        },
        None => DEFAULT_RESTART_DELAY,
    }
}

/// The value of a variable that is set and holds anything but white space.
pub open spec fn unless_blank(value: Option<Seq<char>>) -> Option<Seq<char>> {
    match value {
        Some(v) => if text::trimmed(v).len() > 0 {
            Some(v)
        } else {
            None
        },
        None => None,
    }
}

/// The first of the two values that is not blank.
pub open spec fn chosen_name(
    worker_id: Option<Seq<char>>,
    hostname: Option<Seq<char>>,
) -> Option<Seq<char>> {
    match unless_blank(worker_id) {
        Some(v) => Some(v),
        None => unless_blank(hostname),
    }
}

/// The name by which a worker is known: the first of the two values that is not blank, else the
/// fallback.
pub open spec fn worker_name(
    worker_id: Option<Seq<char>>,
    hostname: Option<Seq<char>>,
    fallback: Seq<char>,
) -> Seq<char> {
    value_or(chosen_name(worker_id, hostname), fallback)
}

/// The value of a variable that is set and holds anything but white space.
fn if_not_blank(value: Option<String>) -> (r: Option<String>)
    ensures
        transcript::text_of(r) == unless_blank(transcript::text_of(value)),
{
    match value {
        Some(v) => {
            let trimmed: String = text::trim(v.as_str());
            if trimmed.as_str().unicode_len() > 0 {
                Some(v)
            } else {
                None
            }
        },
        None => None,
    }
}

/// The first of the two values that is not blank.
fn choose_name(worker_id: Option<String>, hostname: Option<String>) -> (r: Option<String>)
    ensures
        transcript::text_of(r) == chosen_name(
            transcript::text_of(worker_id),
            transcript::text_of(hostname),
        ),
{
    match if_not_blank(worker_id) {
        Some(v) => Some(v),
        None => if_not_blank(hostname),
    }
}

/// The name by which a worker is known, given what it falls back on.
pub fn worker_id_or(worker_id: Option<String>, hostname: Option<String>, fallback: String) -> (r:
    String)
    ensures
        r@ == worker_name(
            transcript::text_of(worker_id),
            transcript::text_of(hostname),
            fallback@,
        ),
{
    match choose_name(worker_id, hostname) {
        Some(v) => v,
        None => fallback,
    }
}

/// The name by which a worker is known, from `SUBTITLE_WORKER_ID`, else from `HOSTNAME`. Only where
/// both are blank is a random UUID drawn.
pub fn subtitle_worker_id(worker_id: Option<String>, hostname: Option<String>) -> (r: String)
    ensures
        match chosen_name(transcript::text_of(worker_id), transcript::text_of(hostname)) {
            Some(name) => r@ == name,
            None => exists|id: FileId|
                file_id::is_version_4(id.value) && r@ == #[trigger] file_id::uuid_text(id.value),
        },
{
    match choose_name(worker_id, hostname) {
        Some(v) => v,
        None => {
            let id: FileId = FileId::random();
            id.text()
        },
    }
}

/// The consumer is never started again without a pause.
pub proof fn law_restart_always_waits(value: Option<Seq<char>>)
    ensures
        1 <= restart_delay(value) <= u64::MAX,
{
}

/// A worker is never known by a blank name, unless that is what it falls back on.
pub proof fn law_worker_name_is_not_blank(
    worker_id: Option<Seq<char>>,
    hostname: Option<Seq<char>>,
    fallback: Seq<char>,
)
    requires
        text::trimmed(fallback).len() > 0,
    ensures
        text::trimmed(worker_name(worker_id, hostname, fallback)).len() > 0,
{
}

/// A positive number of 64 bits is the delay, and anything else leaves five seconds.
pub proof fn law_delay_is_the_number_set(value: Seq<char>)
    ensures
        restart_delay(None) == 5,
        number::unsigned_number(value) is None ==> restart_delay(Some(value)) == 5,
        number::unsigned_number(value) matches Some(n) ==> restart_delay(Some(value)) == if 1 <= n
            <= 0xffff_ffff_ffff_ffff {
            n
        } else {
            5
        },
{
}

/// The worker id counts unless it is blank, then the host name unless that is blank, each as it is
/// written.
pub proof fn law_first_name_that_is_not_blank(worker_id: Seq<char>, hostname: Seq<char>)
    ensures
        (exists|k: int|
            0 <= k < worker_id.len() && !text::is_white_space(#[trigger] worker_id[k]))
            ==> chosen_name(Some(worker_id), Some(hostname)) == Some(worker_id) && chosen_name(
            Some(worker_id),
            None,
        ) == Some(worker_id),
        (exists|k: int|
            0 <= k < hostname.len() && !text::is_white_space(#[trigger] hostname[k])) ==> {
            &&& chosen_name(None, Some(hostname)) == Some(hostname)
            &&& (forall|k: int|
                0 <= k < worker_id.len() ==> text::is_white_space(#[trigger] worker_id[k]))
                ==> chosen_name(Some(worker_id), Some(hostname)) == Some(hostname)
        },
        (forall|k: int| 0 <= k < worker_id.len() ==> text::is_white_space(#[trigger] worker_id[k]))
            && (forall|k: int|
            0 <= k < hostname.len() ==> text::is_white_space(#[trigger] hostname[k]))
            ==> chosen_name(Some(worker_id), Some(hostname)) is None && chosen_name(
            Some(worker_id),
            None,
        ) is None && chosen_name(None, Some(hostname)) is None,
        chosen_name(None, None) is None,
{
    text::law_only_blank_texts_trim_to_nothing(worker_id);
    text::law_only_blank_texts_trim_to_nothing(hostname);
}

/// A variable that is set counts, whatever it holds, and else the default does.
pub proof fn law_set_variables_count(value: Seq<char>, default: Seq<char>)
    ensures
        value_or(Some(value), default) == value,
        value_or(None, default) == default,
{
}

} // verus!

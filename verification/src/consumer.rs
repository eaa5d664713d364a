//! What the consumer makes of the messages that it receives.

use vstd::prelude::*;
use crate::file_id;
use crate::file_id::FileId;
use crate::kafka::SubtitleRequestedEvent;
use crate::pipeline::SubtitleJob;

verus! {

/// Topic of the requests.
pub const TOPIC: &'static str = "media.subtitle.request";

/// The group in which the workers share the requests.
pub const GROUP_ID: &'static str = "media-subtitle-worker-service";

/// The error of decoding bytes as UTF-8.
#[verifier::external_type_specification]
#[verifier::external_body]
pub struct ExUtf8Error(core::str::Utf8Error);

/// `from_bytes` of `rdkafka::message::FromBytes` for `str`, which is `str::from_utf8`. It succeeds
/// exactly on bytes that are UTF-8, and the text is the one that they encode.
#[verifier::external_body]
fn text_from_bytes(bytes: &[u8]) -> (r: Result<String, core::str::Utf8Error>)
    ensures
        r is Ok <==> vstd::utf8::valid_utf8(bytes@),
        r matches Ok(text) ==> text@ == vstd::utf8::decode_utf8(bytes@),
{
    let text: Result<&str, core::str::Utf8Error> = rdkafka::message::FromBytes::from_bytes(bytes);
    text.map(|text| text.to_string())
}

/// The text of the payload of a message, where there is a payload and it is UTF-8.
pub fn decode_payload(payload: Option<&[u8]>) -> (r: Option<Result<String, core::str::Utf8Error>>)
    ensures
        r is None <==> payload is None,
        payload matches Some(bytes) ==> {
            &&& (r matches Some(Ok(_))) <==> vstd::utf8::valid_utf8(bytes@)
            &&& r matches Some(Ok(text)) ==> text@ == vstd::utf8::decode_utf8(bytes@)
        },
{
    match payload {
        Some(bytes) => Some(text_from_bytes(bytes)),
        None => None,
    }
}

/// The job of a request. A request whose identifier is no UUID is refused.
pub fn accept_request(event: SubtitleRequestedEvent, subtitle_bucket: &str) -> (r: Result<
    SubtitleJob,
    uuid::Error,
>)
    ensures
        r is Ok <==> file_id::uuid_number(event.file_id@) is Some,
        r matches Ok(job) ==> {
            &&& file_id::uuid_number(event.file_id@) == Some(job.file_id.value as int)
            &&& job.event == event
            &&& job.subtitle_bucket@ == subtitle_bucket@
        },
{
    match FileId::parse(event.file_id.as_str()) {
        Ok(file_id) => Ok(
            SubtitleJob { file_id, event, subtitle_bucket: subtitle_bucket.to_string() },
        ),
        Err(error) => Err(error),
    }
}

/// A payload that encodes a text is read as that text.
pub proof fn law_encoded_payload_is_read_back(text: Seq<char>)
    ensures
        vstd::utf8::valid_utf8(vstd::utf8::encode_utf8(text)),
        vstd::utf8::decode_utf8(vstd::utf8::encode_utf8(text)) == text,
{
    vstd::utf8::encode_utf8_valid_utf8(text);
    vstd::utf8::encode_utf8_decode_utf8(text);
}

} // verus!

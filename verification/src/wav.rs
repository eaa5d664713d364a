//! Decoded audio: which WAV files can be transcribed, and how their samples are scaled.

use vstd::arithmetic::power2::pow2;
use vstd::prelude::*;
use crate::failure;
use crate::number;
use crate::transcript;

verus! {

/// What the header of a WAV file says of its samples.
#[derive(Debug, Clone, Copy)]
pub struct WavFormat {
    pub channels: u16,
    pub float: bool,
    pub bits_per_sample: u16,
}

/// How the samples of a file are stored, and the largest amplitude of integers.
#[derive(Debug, Clone, Copy)]
pub enum WavEncoding {
    Float,
    Short { amplitude: i64 },
    Long { amplitude: i64 },
}

/// The samples of a file: floating-point numbers that are still to be read, or integers of the
/// given largest amplitude.
#[derive(Debug, Clone)]
pub enum WavAudio {
    Float,
    Scaled { samples: Vec<i32>, amplitude: i64 },
}

#[verifier::ext_equal]
pub enum AudioView {
    Float,
    Scaled { samples: Seq<i32>, amplitude: i64 },
}

impl View for WavAudio {
    type V = AudioView;

    open spec fn view(&self) -> AudioView {
        match self {
            WavAudio::Float => AudioView::Float,
            WavAudio::Scaled { samples, amplitude } => AudioView::Scaled {
                samples: samples@,
                amplitude: *amplitude,
            },
        }
    }
}

/// An audio, or the text of what failed.
pub open spec fn audio_result(r: Result<WavAudio, String>) -> Result<AudioView, Seq<char>> {
    match r {
        Ok(audio) => Ok(audio@),
        Err(message) => Err(message@),
    }
}

/// An encoding, or the text of what failed.
pub open spec fn encoding_result(r: Result<WavEncoding, String>) -> Result<
    WavEncoding,
    Seq<char>,
> {
    match r {
        Ok(encoding) => Ok(encoding),
        Err(message) => Err(message@),
    }
}

/// The largest amplitude of a signed integer of so many bits.
pub open spec fn largest_amplitude(bits: int) -> int {
    pow2((bits - 1) as nat) - 1
}

/// How the samples of a format are stored. Only one channel is accepted, and of the stored forms
/// floating-point numbers of 32 bits and integers of 16 bits or of 24 to 32 bits.
pub open spec fn encoding_of(format: WavFormat) -> Result<WavEncoding, Seq<char>> {
    let bits = format.bits_per_sample;
    if format.channels != 1 {
        Err("expected mono wav, got "@ + number::decimal(format.channels as nat) + " channels"@)
    } else if format.float && bits == 32 {
        Ok(WavEncoding::Float)
    } else if !format.float && bits == 16 {
        Ok(WavEncoding::Short { amplitude: i16::MAX as i64 })
    } else if !format.float && 24 <= bits <= 32 {
        Ok(WavEncoding::Long { amplitude: largest_amplitude(bits as int) as i64 })
    } else {
        Err(
            "unsupported wav format: "@ + (if format.float {
                "Float"@
            } else {
                "Int"@
            }) + " "@ + number::decimal(bits as nat) + " bits"@,
        )
    }
}

/// The largest amplitude of a signed integer of so many bits.
fn amplitude_of(bits: u16) -> (r: i64)
    requires
        1 <= bits <= 32,
    ensures
        r == largest_amplitude(bits as int),
        0 <= r,
{
    let mut power: i64 = 1;
    let mut i: u16 = 1;
    proof {
        vstd::arithmetic::power2::lemma2_to64();
    }
    while i < bits
        invariant
            1 <= i <= bits <= 32,
            power == pow2((i - 1) as nat),
            power <= 0x8000_0000,
            i < 32 ==> power <= 0x4000_0000,
        decreases bits - i,
    {
        proof {
            vstd::arithmetic::power2::lemma_pow2_unfold(i as nat);
            vstd::arithmetic::power2::lemma2_to64();
            if i + 1 < 32 {
                vstd::arithmetic::power2::lemma_pow2_strictly_increases(i as nat, 31);
                if i < 30 {
                    vstd::arithmetic::power2::lemma_pow2_strictly_increases(i as nat, 30);
                }
            }
        }
        power = power * 2;
        i = i + 1;
    }
    proof {
        vstd::arithmetic::power2::lemma_pow2_pos((bits - 1) as nat);
    }
    power - 1
}

/// How the samples of a format are stored.
pub fn wav_encoding(format: WavFormat) -> (r: Result<WavEncoding, String>)
    ensures
        encoding_result(r) == encoding_of(format),
{
    let bits: u16 = format.bits_per_sample;
    if format.channels != 1 {
        let mut message: String = "expected mono wav, got ".to_string();
        message.append(number::decimal_text(format.channels as u64).as_str());
        message.append(" channels");
        Err(message)
    } else if format.float && bits == 32 {
        Ok(WavEncoding::Float)
    } else if !format.float && bits == 16 {
        Ok(WavEncoding::Short { amplitude: i16::MAX as i64 })
    } else if !format.float && 24 <= bits && bits <= 32 {
        Ok(WavEncoding::Long { amplitude: amplitude_of(bits) })
    } else {
        let mut message: String = "unsupported wav format: ".to_string();
        message.append(
            if format.float {
                "Float"
            } else {
                "Int"
            },
        );
        message.append(" ");
        message.append(number::decimal_text(bits as u64).as_str());
        message.append(" bits");
        Err(message)
    }
}

/// What the header of a WAV file in memory says: the number of channels, whether the samples are
/// floating-point numbers, and the bits of a sample; or what is wrong with it: whether the bytes ran
/// out, and a text.
pub uninterp spec fn wav_header(bytes: Seq<u8>) -> Result<(u16, bool, u16), (bool, Seq<char>)>;

/// The samples of a WAV file in memory as integers of 16 bits, or the first thing wrong with
/// them: whether the bytes ran out, and a text.
pub uninterp spec fn short_samples(bytes: Seq<u8>) -> Result<Seq<i16>, (bool, Seq<char>)>;

/// The samples of a WAV file in memory as integers of 32 bits, or the first thing wrong with
/// them: whether the bytes ran out, and a text.
pub uninterp spec fn long_samples(bytes: Seq<u8>) -> Result<Seq<i32>, (bool, Seq<char>)>;

/// `hound::WavReader::new` on the bytes, and what `spec` then returns: channels, sample format
/// and bits per sample. An error is told by whether it is `hound::Error::IoError`, which on bytes
/// in memory means that they ran out, and by its text. The result depends on the bytes alone.
#[verifier::external_body]
fn read_header(bytes: &[u8]) -> (r: Result<(u16, bool, u16), (bool, String)>)
    ensures
        match r {
            Ok(header) => wav_header(bytes@) == Ok::<(u16, bool, u16), (bool, Seq<char>)>(header),
            Err(fault) => wav_header(bytes@) == Err::<(u16, bool, u16), (bool, Seq<char>)>(
                (fault.0, fault.1@),
            ),
        },
{
    match hound::WavReader::new(bytes) {
        Ok(reader) => {
            let spec = reader.spec();
            let float = match spec.sample_format {
                hound::SampleFormat::Float => true,
                hound::SampleFormat::Int => false,
            };
            Ok((spec.channels, float, spec.bits_per_sample))
        },
        Err(error) => Err((matches!(error, hound::Error::IoError(_)), error.to_string())),
    }
}

/// The cause of a fault. Where the bytes ran out because reading the file had broken off, the cause
/// is what broke it off.
pub open spec fn blamed(fault: (bool, Seq<char>), broken: Option<Seq<char>>) -> Seq<char> {
    match broken {
        Some(cause) => if fault.0 {
            cause
        } else {
            fault.1
        },
        None => fault.1,
    }
}

/// The cause of a fault, given whether the bytes ran out and what broke the reading off, if
/// anything did.
pub fn blame(ran_out: bool, message: String, broken: Option<&str>) -> (r: String)
    ensures
        r@ == blamed((ran_out, message@), transcript::chars_of(broken)),
{
    match broken {
        Some(cause) => if ran_out {
            cause.to_string()
        } else {
            message
        },
        None => message,
    }
}

/// `hound::WavReader::new` on the bytes, and the samples that `samples::<i16>` yields up to
/// the first error. An error is told by whether it is `hound::Error::IoError`, which on bytes in
/// memory means that they ran out, and by its text. The result depends on the bytes alone.
#[verifier::external_body]
fn read_short_samples(bytes: &[u8]) -> (r: Result<Vec<i16>, (bool, String)>)
    ensures
        match r {
            Ok(samples) => short_samples(bytes@) == Ok::<Seq<i16>, (bool, Seq<char>)>(samples@),
            Err(fault) => short_samples(bytes@) == Err::<Seq<i16>, (bool, Seq<char>)>(
                (fault.0, fault.1@),
            ),
        },
{
    let samples = match hound::WavReader::new(bytes) {
        Ok(mut reader) => reader.samples::<i16>().collect::<Result<Vec<i16>, hound::Error>>(),
        Err(error) => Err(error),
    };
    match samples {
        Ok(samples) => Ok(samples),
        Err(error) => Err((matches!(error, hound::Error::IoError(_)), error.to_string())),
    }
}

/// `hound::WavReader::new` on the bytes, and the samples that `samples::<i32>` yields up to
/// the first error. An error is told by whether it is `hound::Error::IoError`, which on bytes in
/// memory means that they ran out, and by its text. The result depends on the bytes alone.
#[verifier::external_body]
fn read_long_samples(bytes: &[u8]) -> (r: Result<Vec<i32>, (bool, String)>)
    ensures
        match r {
            Ok(samples) => long_samples(bytes@) == Ok::<Seq<i32>, (bool, Seq<char>)>(samples@),
            Err(fault) => long_samples(bytes@) == Err::<Seq<i32>, (bool, Seq<char>)>(
                (fault.0, fault.1@),
            ),
        },
{
    let samples = match hound::WavReader::new(bytes) {
        Ok(mut reader) => reader.samples::<i32>().collect::<Result<Vec<i32>, hound::Error>>(),
        Err(error) => Err(error),
    };
    match samples {
        Ok(samples) => Ok(samples),
        Err(error) => Err((matches!(error, hound::Error::IoError(_)), error.to_string())),
    }
}

/// The same numbers, in 32 bits.
pub open spec fn widened(samples: Seq<i16>) -> Seq<i32> {
    samples.map_values(|sample: i16| sample as i32)
}

/// The same numbers, in 32 bits.
fn widen(samples: &Vec<i16>) -> (r: Vec<i32>)
    ensures
        r@ == widened(samples@),
{
    let mut wide: Vec<i32> = Vec::new();
    let mut i: usize = 0;
    while i < samples.len()
        invariant
            i <= samples.len(),
            wide@ == widened(samples@.take(i as int)),
        decreases samples.len() - i,
    {
        wide.push(samples[i] as i32);
        i = i + 1;
        assert(wide@ =~= widened(samples@.take(i as int)));
    }
    assert(samples@.take(i as int) == samples@);
    wide
}

/// The text for a file that cannot be opened as WAV.
pub open spec fn open_message(path: Seq<char>, cause: Seq<char>) -> Seq<char> {
    failure::with_cause("failed to open wav "@ + path, cause)
}

/// The text for a file that cannot be opened as WAV.
pub fn open_failure(path: &str, cause: &str) -> (r: String)
    ensures
        r@ == open_message(path@, cause@),
{
    let mut context: String = "failed to open wav ".to_string();
    context.append(path);
    failure::describe_failure(context.as_str(), cause)
}

/// The text for a sample that cannot be read.
pub fn sample_failure(cause: &str) -> (r: String)
    ensures
        r@ == failure::with_cause("wav sample error"@, cause@),
{
    failure::describe_failure("wav sample error", cause)
}

/// Refuses a file without samples.
pub fn require_samples(count: usize) -> (r: Result<(), String>)
    ensures
        r is Ok <==> count > 0,
        r matches Err(message) ==> message@ == "wav has no samples"@,
{
    if count == 0 {
        Err("wav has no samples".to_string())
    } else {
        Ok(())
    }
}

/// What the samples of a file amount to: an error where one could not be read or where there is
/// none.
pub open spec fn scaled(
    samples: Result<Seq<i32>, Seq<char>>,
    amplitude: i64,
) -> Result<AudioView, Seq<char>> {
    match samples {
        Ok(samples) => if samples.len() == 0 {
            Err("wav has no samples"@)
        } else {
            Ok(AudioView::Scaled { samples, amplitude })
        },
        Err(cause) => Err(failure::with_cause("wav sample error"@, cause)),
    }
}

/// What the samples of a file amount to.
pub fn scaled_audio(samples: Result<Vec<i32>, String>, amplitude: i64) -> (r: Result<
    WavAudio,
    String,
>)
    ensures
        audio_result(r) == scaled(
            match samples {
                Ok(v) => Ok::<Seq<i32>, Seq<char>>(v@),
                Err(cause) => Err::<Seq<i32>, Seq<char>>(cause@),
            },
            amplitude,
        ),
{
    match samples {
        Ok(samples) => match require_samples(samples.len()) {
            Ok(()) => Ok(WavAudio::Scaled { samples, amplitude }),
            Err(message) => Err(message),
        },
        Err(cause) => Err(sample_failure(cause.as_str())),
    }
}

/// The audio of a WAV file of which these bytes could be read, given its header and its samples as
/// integers of 16 and of 32 bits, of which those that the encoding asks for count, and what broke
/// the reading off.
pub open spec fn audio_of(
    path: Seq<char>,
    header: Result<(u16, bool, u16), (bool, Seq<char>)>,
    short: Result<Seq<i16>, (bool, Seq<char>)>,
    long: Result<Seq<i32>, (bool, Seq<char>)>,
    broken: Option<Seq<char>>,
) -> Result<AudioView, Seq<char>> {
    match header {
        Err(fault) => Err(open_message(path, blamed(fault, broken))),
        Ok((channels, float, bits_per_sample)) => match encoding_of(
            WavFormat { channels, float, bits_per_sample },
        ) {
            Err(message) => Err(message),
            Ok(WavEncoding::Float) => Ok(AudioView::Float),
            Ok(WavEncoding::Short { amplitude }) => scaled(
                match short {
                    Ok(samples) => Ok(widened(samples)),
                    Err(fault) => Err(blamed(fault, broken)),
                },
                amplitude,
            ),
            Ok(WavEncoding::Long { amplitude }) => scaled(
                match long {
                    Ok(samples) => Ok(samples),
                    Err(fault) => Err(blamed(fault, broken)),
                },
                amplitude,
            ),
        },
    }
}

/// Reads the WAV file at `path` from the bytes of it that could be read; `broken` says what broke
/// the reading off, if anything did. Where the samples are floating-point numbers, they are left to
/// the caller.
pub fn read_wav(path: &str, bytes: &[u8], broken: Option<&str>) -> (r: Result<WavAudio, String>)
    ensures
        audio_result(r) == audio_of(
            path@,
            wav_header(bytes@),
            short_samples(bytes@),
            long_samples(bytes@),
            transcript::chars_of(broken),
        ),
{
    let (channels, float, bits_per_sample) = match read_header(bytes) {
        Ok(header) => header,
        Err((ran_out, message)) => {
            return Err(open_failure(path, blame(ran_out, message, broken).as_str()));
        },
    };
    match wav_encoding(WavFormat { channels, float, bits_per_sample }) {
        Err(message) => Err(message),
        Ok(WavEncoding::Float) => Ok(WavAudio::Float),
        Ok(WavEncoding::Short { amplitude }) => {
            let samples: Result<Vec<i32>, String> = match read_short_samples(bytes) {
                Ok(samples) => Ok(widen(&samples)),
                Err((ran_out, message)) => Err(blame(ran_out, message, broken)),
            };
            scaled_audio(samples, amplitude)
        },
        Ok(WavEncoding::Long { amplitude }) => {
            let samples: Result<Vec<i32>, String> = match read_long_samples(bytes) {
                Ok(samples) => Ok(samples),
                Err((ran_out, message)) => Err(blame(ran_out, message, broken)),
            };
            scaled_audio(samples, amplitude)
        },
    }
}

/// That the reading of a file broke off makes no difference where the bytes that were read do not
/// run out.
pub proof fn law_break_shows_only_where_bytes_run_out(
    path: Seq<char>,
    header: Result<(u16, bool, u16), (bool, Seq<char>)>,
    short: Result<Seq<i16>, (bool, Seq<char>)>,
    long: Result<Seq<i32>, (bool, Seq<char>)>,
    broken: Option<Seq<char>>,
)
    requires
        header matches Err(fault) ==> !fault.0,
        short matches Err(fault) ==> !fault.0,
        long matches Err(fault) ==> !fault.0,
    ensures
        audio_of(path, header, short, long, broken) == audio_of(path, header, short, long, None),
{
}

/// Only files of one channel are accepted, and the encoding of one that is accepted fits it.
pub proof fn law_accepted_formats(format: WavFormat)
    ensures
        encoding_of(format) is Ok <==> format.channels == 1 && (if format.float {
            format.bits_per_sample == 32
        } else {
            format.bits_per_sample == 16 || 24 <= format.bits_per_sample <= 32
        }),
{
}

/// Which formats are read and which are refused, and with which text. The largest amplitude of
/// integers is one less than the power of two that their sign bit stands for.
pub proof fn law_formats_and_their_amplitudes(format: WavFormat)
    ensures
        format.channels != 1 ==> encoding_of(format) == Err::<WavEncoding, Seq<char>>(
            "expected mono wav, got "@ + number::decimal(format.channels as nat) + " channels"@,
        ),
        format.channels == 1 && format.float && format.bits_per_sample == 32 ==> encoding_of(
            format,
        ) == Ok::<WavEncoding, Seq<char>>(WavEncoding::Float),
        format.channels == 1 && !format.float && format.bits_per_sample == 16 ==> encoding_of(
            format,
        ) == Ok::<WavEncoding, Seq<char>>(WavEncoding::Short { amplitude: 32767 }),
        format.channels == 1 && !format.float && 24 <= format.bits_per_sample <= 32 ==> {
            &&& encoding_of(format) matches Ok(WavEncoding::Long { amplitude })
            &&& amplitude + 1 == pow2((format.bits_per_sample - 1) as nat)
        },
        format.channels == 1 && format.float && format.bits_per_sample != 32 ==> encoding_of(
            format,
        ) == Err::<WavEncoding, Seq<char>>(
            "unsupported wav format: "@ + "Float"@ + " "@ + number::decimal(
                format.bits_per_sample as nat,
            ) + " bits"@,
        ),
        format.channels == 1 && !format.float && format.bits_per_sample != 16 && !(24
            <= format.bits_per_sample <= 32) ==> encoding_of(format) == Err::<
            WavEncoding,
            Seq<char>,
        >(
            "unsupported wav format: "@ + "Int"@ + " "@ + number::decimal(
                format.bits_per_sample as nat,
            ) + " bits"@,
        ),
{
    let bits = format.bits_per_sample;
    if 24 <= bits <= 32 {
        vstd::arithmetic::power2::lemma2_to64();
        if bits < 32 {
            vstd::arithmetic::power2::lemma_pow2_strictly_increases((bits - 1) as nat, 31);
        }
        vstd::arithmetic::power2::lemma_pow2_pos((bits - 1) as nat);
    }
}

/// The samples of an accepted file are all handed on, in order and unchanged, with the amplitude
/// of their width; a file without samples and one with a sample that cannot be read are refused.
pub proof fn law_samples_are_handed_on(
    path: Seq<char>,
    bits: u16,
    short: Result<Seq<i16>, (bool, Seq<char>)>,
    long: Result<Seq<i32>, (bool, Seq<char>)>,
    broken: Option<Seq<char>>,
)
    ensures
        short matches Ok(samples) ==> samples.len() > 0 ==> {
            &&& audio_of(path, Ok((1u16, false, 16u16)), short, long, broken) matches Ok(
                AudioView::Scaled { samples: read, amplitude },
            )
            &&& read.len() == samples.len()
            &&& forall|i: int| 0 <= i < samples.len() ==> #[trigger] read[i] == samples[i]
            &&& amplitude == 32767
        },
        24 <= bits <= 32 ==> (long matches Ok(samples) ==> samples.len() > 0 ==> {
            &&& audio_of(path, Ok((1u16, false, bits)), short, long, broken) matches Ok(
                AudioView::Scaled { samples: read, amplitude },
            )
            &&& read == samples
            &&& amplitude + 1 == pow2((bits - 1) as nat)
        }),
        audio_of(path, Ok((1u16, true, 32u16)), short, long, broken) == Ok::<AudioView, Seq<char>>(
            AudioView::Float,
        ),
        short matches Ok(samples) ==> samples.len() == 0 ==> audio_of(
            path,
            Ok((1u16, false, 16u16)),
            short,
            long,
            broken,
        ) == Err::<AudioView, Seq<char>>("wav has no samples"@),
        24 <= bits <= 32 ==> (long matches Ok(samples) ==> samples.len() == 0 ==> audio_of(
            path,
            Ok((1u16, false, bits)),
            short,
            long,
            broken,
        ) == Err::<AudioView, Seq<char>>("wav has no samples"@)),
        short matches Err((ran_out, message)) ==> audio_of(
            path,
            Ok((1u16, false, 16u16)),
            short,
            long,
            broken,
        ) == Err::<AudioView, Seq<char>>(
            "wav sample error"@ + ": "@ + if ran_out && broken is Some {
                broken->0
            } else {
                message
            },
        ),
        24 <= bits <= 32 ==> (long matches Err((ran_out, message)) ==> audio_of(
            path,
            Ok((1u16, false, bits)),
            short,
            long,
            broken,
        ) == Err::<AudioView, Seq<char>>(
            "wav sample error"@ + ": "@ + if ran_out && broken is Some {
                broken->0
            } else {
                message
            },
        )),
{
    law_formats_and_their_amplitudes(
        WavFormat { channels: 1, float: false, bits_per_sample: bits },
    );
}

/// A file whose header cannot be read is refused with its path and the cause, and one whose format
/// is not accepted with what is wrong with the format.
pub proof fn law_refused_files_say_why(
    path: Seq<char>,
    header: Result<(u16, bool, u16), (bool, Seq<char>)>,
    short: Result<Seq<i16>, (bool, Seq<char>)>,
    long: Result<Seq<i32>, (bool, Seq<char>)>,
    broken: Option<Seq<char>>,
)
    ensures
        header matches Err((ran_out, message)) ==> audio_of(path, header, short, long, broken)
            == Err::<AudioView, Seq<char>>(
            "failed to open wav "@ + path + ": "@ + if ran_out && broken is Some {
                broken->0
            } else {
                message
            },
        ),
        header matches Ok((channels, float, bits_per_sample)) ==> (encoding_of(
            WavFormat { channels, float, bits_per_sample },
        ) matches Err(message) ==> audio_of(path, header, short, long, broken) == Err::<
            AudioView,
            Seq<char>,
        >(message)),
{
}

} // verus!

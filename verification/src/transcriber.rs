//! Which transcriber a worker uses, and the one that makes up its transcripts.

use vstd::prelude::*;
use crate::text;
use crate::transcript;
pub use crate::transcript::Transcript;
pub use crate::transcript::TranscriptSegment;

verus! {

/// A transcriber that returns two fixed segments, for trying out everything around it.
#[derive(Debug, Clone, Copy)]
pub struct MockTranscriber;

/// A transcriber that runs a Whisper model, and pyannote for the speakers where that is enabled.
#[derive(Debug, Clone)]
pub struct WhisperRsTranscriber {
    pub model_path: String,
    pub pyannote_enabled: bool,
    pub pyannote_python_bin: String,
    pub pyannote_script_path: String,
    pub pyannote_hf_token: Option<String>,
}

/// The transcriber that a worker uses.
#[derive(Debug, Clone)]
pub enum TranscriberBackend {
    Mock(MockTranscriber),
    WhisperRs(WhisperRsTranscriber),
}

/// The language of transcripts that are made up, where none is asked for.
pub const MOCK_LANGUAGE: &'static str = "ru";

/// Text of the first segment that is made up.
pub const MOCK_FIRST_TEXT: &'static str = "Это тестовый сегмент субтитров.";

/// Text of the second segment that is made up.
pub const MOCK_SECOND_TEXT: &'static str = "Замените MockTranscriber на whisper-rs backend.";

/// The transcript that is made up for a language.
pub open spec fn mock_transcript(language: Option<Seq<char>>) -> transcript::TranscriptView {
    transcript::TranscriptView {
        language: match language {
            Some(language) => language,
            None => MOCK_LANGUAGE@,
        },
        segments: seq![
            transcript::SegmentView {
                start_ms: 0,
                end_ms: 2500,
                text: MOCK_FIRST_TEXT@,
                speaker: None,
            },
            transcript::SegmentView {
                start_ms: 2500,
                end_ms: 5000,
                text: MOCK_SECOND_TEXT@,
                speaker: None,
            },
        ],
    }
}

impl MockTranscriber {
    /// Makes up a transcript.
    pub fn transcribe(&self, language: Option<&str>) -> (r: Transcript)
        ensures
            r@ == mock_transcript(transcript::chars_of(language)),
    {
        let language: String = match language {
            Some(language) => language.to_string(),
            None => MOCK_LANGUAGE.to_string(),
        };
        let mut segments: Vec<TranscriptSegment> = Vec::new();
        segments.push(
            TranscriptSegment {
                start_ms: 0,
                end_ms: 2500,
                text: MOCK_FIRST_TEXT.to_string(),
                speaker: None,
            },
        );
        segments.push(
            TranscriptSegment {
                start_ms: 2500,
                end_ms: 5000,
                text: MOCK_SECOND_TEXT.to_string(),
                speaker: None,
            },
        );
        Transcript { language, segments }
    }
}

/// The text for a model whose path is not set, or at whose path no file is.
pub open spec fn model_refusal(model_path: Option<String>) -> Seq<char> {
    match model_path {
        None => "WHISPER_MODEL_PATH is required for TRANSCRIBER_BACKEND=whisper-rs"@,
        Some(path) => "Whisper model file not found at '"@ + path@
            + "'. Mount model into /models and set WHISPER_MODEL_PATH accordingly."@,
    }
}

impl WhisperRsTranscriber {
    /// Whether a transcriber is made of these settings.
    pub open spec fn has(
        self,
        model_path: Seq<char>,
        pyannote_enabled: bool,
        pyannote_python_bin: String,
        pyannote_script_path: String,
        pyannote_hf_token: Option<String>,
    ) -> bool {
        &&& self.model_path@ == model_path
        &&& self.pyannote_enabled == pyannote_enabled
        &&& self.pyannote_python_bin == pyannote_python_bin
        &&& self.pyannote_script_path == pyannote_script_path
        &&& self.pyannote_hf_token == pyannote_hf_token
    }

    /// A transcriber for the model at `model_path`, where `model_exists` says whether there is a
    /// file at that path.
    pub fn new(
        model_path: Option<String>,
        model_exists: bool,
        pyannote_enabled: bool,
        pyannote_python_bin: String,
        pyannote_script_path: String,
        pyannote_hf_token: Option<String>,
    ) -> (r: Result<WhisperRsTranscriber, String>)
        ensures
            r is Ok <==> model_path is Some && model_exists,
            r matches Ok(transcriber) ==> transcriber.has(
                model_path->0@,
                pyannote_enabled,
                pyannote_python_bin,
                pyannote_script_path,
                pyannote_hf_token,
            ),
            r matches Err(message) ==> message@ == model_refusal(model_path),
    {
        let model_path: String = match model_path {
            Some(path) => path,
            None => {
                return Err(
                    "WHISPER_MODEL_PATH is required for TRANSCRIBER_BACKEND=whisper-rs".to_string(),
                );
            },
        };
        if !model_exists {
            let mut message: String = "Whisper model file not found at '".to_string();
            message.append(model_path.as_str());
            message.append("'. Mount model into /models and set WHISPER_MODEL_PATH accordingly.");
            return Err(message);
        }
        Ok(
            WhisperRsTranscriber {
                model_path,
                pyannote_enabled,
                pyannote_python_bin,
                pyannote_script_path,
                pyannote_hf_token,
            },
        )
    }
}

/// The transcriber of a name, where `model_exists` says whether there is a file at the path of the
/// model.
pub fn build_transcriber(
    backend: &str,
    whisper_model_path: Option<String>,
    model_exists: bool,
    pyannote_enabled: bool,
    pyannote_python_bin: String,
    pyannote_script_path: String,
    pyannote_hf_token: Option<String>,
) -> (r: Result<TranscriberBackend, String>)
    ensures
        r matches Ok(TranscriberBackend::Mock(_)) <==> backend@ == "mock"@,
        r matches Ok(TranscriberBackend::WhisperRs(_)) <==> backend@ == "whisper-rs"@
            && whisper_model_path is Some && model_exists,
        r matches Ok(TranscriberBackend::WhisperRs(transcriber)) ==> transcriber.has(
            whisper_model_path->0@,
            pyannote_enabled,
            pyannote_python_bin,
            pyannote_script_path,
            pyannote_hf_token,
        ),
        r matches Err(message) ==> message@ == if backend@ == "whisper-rs"@ {
            model_refusal(whisper_model_path)
        } else {
            "Unsupported TRANSCRIBER_BACKEND: "@ + backend@
        },
{
    proof {
        reveal_strlit("mock");
        reveal_strlit("whisper-rs");
        assert("mock"@.len() != "whisper-rs"@.len());
    }
    if text::same_text(backend, "mock") {
        Ok(TranscriberBackend::Mock(MockTranscriber))
    } else if text::same_text(backend, "whisper-rs") {
        match WhisperRsTranscriber::new(
            whisper_model_path,
            model_exists,
            pyannote_enabled,
            pyannote_python_bin,
            pyannote_script_path,
            pyannote_hf_token,
        ) {
            Ok(transcriber) => Ok(TranscriberBackend::WhisperRs(transcriber)),
            Err(message) => Err(message),
        }
    } else {
        let mut message: String = "Unsupported TRANSCRIBER_BACKEND: ".to_string();
        message.append(backend);
        Err(message)
    }
}

/// A transcript that is made up has the language asked for, else Russian, and two segments of two
/// and a half seconds each that follow each other from the beginning, without speakers.
pub proof fn law_made_up_transcript(language: Seq<char>)
    ensures
        mock_transcript(Some(language)).language == language,
        mock_transcript(None).language == "ru"@,
        mock_transcript(Some(language)).segments == mock_transcript(None).segments,
        ({
            let segments = mock_transcript(None).segments;
            &&& segments.len() == 2
            &&& segments[0].start_ms == 0
            &&& segments[0].end_ms == segments[1].start_ms == 2500
            &&& segments[1].end_ms == 5000
            &&& segments[0].text == MOCK_FIRST_TEXT@
            &&& segments[1].text == MOCK_SECOND_TEXT@
            &&& segments[0].speaker is None && segments[1].speaker is None
        }),
{
}

/// A model is refused with the name of the variable where its path is not set, and with its path
/// where no file is there.
pub proof fn law_refused_models_say_why(path: String)
    ensures
        model_refusal(None)
            == "WHISPER_MODEL_PATH is required for TRANSCRIBER_BACKEND=whisper-rs"@,
        model_refusal(Some(path)) == "Whisper model file not found at '"@ + path@
            + "'. Mount model into /models and set WHISPER_MODEL_PATH accordingly."@,
{
}

/// A transcriber keeps the settings that it is made of.
pub proof fn law_transcriber_keeps_its_settings(
    transcriber: WhisperRsTranscriber,
    model_path: Seq<char>,
    pyannote_enabled: bool,
    pyannote_python_bin: String,
    pyannote_script_path: String,
    pyannote_hf_token: Option<String>,
)
    requires
        transcriber.has(
            model_path,
            pyannote_enabled,
            pyannote_python_bin,
            pyannote_script_path,
            pyannote_hf_token,
        ),
    ensures
        transcriber.model_path@ == model_path,
        transcriber.pyannote_enabled == pyannote_enabled,
        transcriber.pyannote_python_bin == pyannote_python_bin,
        transcriber.pyannote_script_path == pyannote_script_path,
        transcriber.pyannote_hf_token == pyannote_hf_token,
{
}

} // verus!

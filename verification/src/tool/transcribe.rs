use vstd::prelude::*;

use crate::error::{ToolError, ToolErrorView};
use crate::model::ToolPermissionMode;
use crate::net::build_client;
use crate::path::{file_name_of, path_file_name};
use crate::text::{chars_of, concat, opt_view, string_from_range, trim, trim_str};

verus! {

/// The speech model that transcribes.
pub const MODEL: &'static str = "deepdml/faster-whisper-large-v3-turbo-ct2";

/// Where the transcription service listens unless told otherwise.
pub const DEFAULT_BASE_URL: &'static str = "http://127.0.0.1:8000";

/// Longest a transcription request may take, in seconds.
pub const TIMEOUT_SECONDS: u64 = 300;

/// Transcribes a local audio file into timestamped speech segments.
pub struct TranscribeTool {
    workspace_root: String,
    client: reqwest::Client,
    base_url: String,
}

impl TranscribeTool {
    /// A transcription tool for the canonical workspace root, talking to [`DEFAULT_BASE_URL`].
    pub fn new(workspace_root: String) -> (r: Result<Self, ToolError>)
        ensures
            r matches Ok(t) ==> t.workspace_root() == workspace_root@ && t.base_url() == DEFAULT_BASE_URL@,
            r matches Err(e) ==> e@ is ExecutionFailed,
    {
        match build_client(TIMEOUT_SECONDS) {
            Ok(client) => Ok(Self { workspace_root, client, base_url: DEFAULT_BASE_URL.to_owned() }),
            Err(e) => Err(ToolError::ExecutionFailed(e)),
        }
    }

    pub closed spec fn workspace_root(&self) -> Seq<char> {
        self.workspace_root@
    }

    pub closed spec fn base_url(&self) -> Seq<char> {
        self.base_url@
    }

    /// The canonical workspace root that audio paths are taken from.
    pub fn workspace_root_path(&self) -> (s: &str)
        ensures
            s@ == self.workspace_root(),
    {
        self.workspace_root.as_str()
    }

    /// The HTTP client that sends the requests.
    pub closed spec fn http_client(&self) -> reqwest::Client {
        self.client
    }

    pub fn client(&self) -> (c: &reqwest::Client)
        ensures
            *c == self.http_client(),
    {
        &self.client
    }

    /// Where the audio is sent: the base URL without trailing slashes, then
    /// `/v1/audio/transcriptions`.
    pub fn transcription_url(&self) -> (u: String)
        ensures
            u@ == without_trailing_slashes(self.base_url()) + "/v1/audio/transcriptions"@,
    {
        let v = chars_of(self.base_url.as_str());
        let mut n = v.len();
        assert(v@.take(v@.len() as int) =~= v@);
        while n > 0 && v[n - 1] == '/'
            invariant
                n <= v.len(),
                without_trailing_slashes(v@) == without_trailing_slashes(v@.take(n as int)),
            decreases n,
        {
            assert(v@.take(n as int).drop_last() =~= v@.take(n - 1));
            n -= 1;
        }
        let base = string_from_range(&v, 0, n);
        assert(v@.subrange(0, n as int) =~= v@.take(n as int));
        concat(base.as_str(), "/v1/audio/transcriptions")
    }

    pub fn name(&self) -> (s: &'static str)
        ensures
            s@ == "transcribe"@,
    {
        "transcribe"
    }

    pub fn description(&self) -> (s: &'static str)
        ensures
            s@ == "Transcribe a local audio file into timestamped speech segments."@,
    {
        "Transcribe a local audio file into timestamped speech segments."
    }

    pub fn default_permission(&self) -> (m: ToolPermissionMode)
        ensures
            m == ToolPermissionMode::Allow,
    {
        ToolPermissionMode::Allow
    }
}

/// `s` without the slashes at its end.
pub open spec fn without_trailing_slashes(s: Seq<char>) -> Seq<char>
    decreases s.len(),
{
    if s.len() > 0 && s.last() == '/' {
        without_trailing_slashes(s.drop_last())
    } else {
        s
    }
}

/// The language hint of a call: trimmed, and absent when blank.
pub open spec fn language_spec(language: Option<Seq<char>>) -> Option<Seq<char>> {
    match language {
        Some(l) => if trim(l).len() == 0 {
            None
        } else {
            Some(trim(l))
        },
        None => None,
    }
}

/// The language hint of a call.
pub fn requested_language(language: Option<&str>) -> (r: Option<String>)
    ensures
        opt_view(r) == language_spec(
            match language {
                Some(l) => Some(l@),
                None => None,
            },
        ),
{
    match language {
        Some(l) => {
            let t = trim_str(l);
            if t.as_str().is_empty() {
                None
            } else {
                Some(t)
            }
        },
        None => None,
    }
}

/// Refuses an audio path that is not a file; `requested` is the path as the call named it.
pub fn check_audio_file(is_file: bool, requested: &str) -> (r: Result<(), ToolError>)
    ensures
        is_file <==> r is Ok,
        r matches Err(e) ==> e@ == ToolErrorView::ExecutionFailed("audio_path is not a file: "@ + requested@),
{
    if is_file {
        Ok(())
    } else {
        Err(ToolError::ExecutionFailed(concat("audio_path is not a file: ", requested)))
    }
}

/// The file name under which the audio is uploaded: the path's own, else `audio`.
pub fn upload_file_name(path: &str) -> (r: String)
    ensures
        r@ == match path_file_name(path@) {
            Some(n) => n,
            None => "audio"@,
        },
{
    match file_name_of(path) {
        Some(n) => n,
        None => "audio".to_owned(),
    }
}

/// The text fields of the upload form: the model, the verbose JSON response format and, when
/// there is one, the language hint.
pub fn form_fields(language: &Option<String>) -> (r: Vec<(&'static str, String)>)
    ensures
        r@.len() == if language is Some {
            3nat
        } else {
            2nat
        },
        r@[0].0@ == "model"@ && r@[0].1@ == MODEL@,
        r@[1].0@ == "response_format"@ && r@[1].1@ == "verbose_json"@,
        language matches Some(l) ==> r@[2].0@ == "language"@ && r@[2].1@ == l@,
{
    let mut r: Vec<(&'static str, String)> = Vec::new();
    r.push(("model", MODEL.to_owned()));
    r.push(("response_format", "verbose_json".to_owned()));
    match language {
        Some(l) => r.push(("language", l.clone())),
        None => {},
    }
    r
}

/// Refuses an answer whose HTTP status is not a success.
pub fn check_transcription_status(success: bool, status: &str, body: &str) -> (r: Result<(), ToolError>)
    ensures
        success <==> r is Ok,
        r matches Err(e) ==> e@ == ToolErrorView::ExecutionFailed(
            "transcription failed: HTTP "@ + status@ + ": "@ + body@,
        ),
{
    if success {
        Ok(())
    } else {
        let m = concat("transcription failed: HTTP ", status);
        let m = concat(m.as_str(), ": ");
        Err(ToolError::ExecutionFailed(concat(m.as_str(), body)))
    }
}

/// The language reported: the one the service detected, else the one asked for.
pub fn reported_language(detected: Option<String>, requested: Option<String>) -> (r: Option<String>)
    ensures
        opt_view(r) == match detected {
            Some(d) => Some(d@),
            None => opt_view(requested),
        },
{
    match detected {
        Some(d) => Some(d),
        None => requested,
    }
}

} // verus!

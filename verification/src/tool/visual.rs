use vstd::prelude::*;

use crate::error::{execution_failed, invalid_arguments, ToolError, ToolErrorView};
use crate::model::ToolPermissionMode;
use crate::path::{extension_of, file_name_of, path_extension, path_file_name};
use crate::text::{ascii_lowercase, ascii_lowercase_str, concat, decimal, decimal_string, str_eq, trim, trim_str};

verus! {

/// Largest source file, in bytes.
pub const MAX_SOURCE_BYTES: u64 = 1_000_000_000;

/// What the model is told before the instruction.
pub const SYSTEM_PROMPT: &'static str = "You are a visual inspection tool. Answer the user's instruction using only the provided image or document. Be concise, factual, and preserve important visible text when extracting.";

/// Inspects a local image or PDF with a vision-capable model; `P` answers the requests.
pub struct VisualInspectTool<P> {
    workspace_root: String,
    llm_provider: P,
    model: String,
}

impl<P> VisualInspectTool<P> {
    /// An inspector for `workspace_root` that asks `model` through `llm_provider`.
    pub fn new(workspace_root: String, llm_provider: P, model: String) -> (t: Self)
        ensures
            t.workspace_root() == workspace_root@,
            t.model() == model@,
            t.provider() == llm_provider,
    {
        Self { workspace_root, llm_provider, model }
    }

    pub closed spec fn provider(&self) -> P {
        self.llm_provider
    }

    pub closed spec fn model(&self) -> Seq<char> {
        self.model@
    }

    /// The model asked.
    pub fn model_id(&self) -> (s: &str)
        ensures
            s@ == self.model(),
    {
        self.model.as_str()
    }

    pub closed spec fn workspace_root(&self) -> Seq<char> {
        self.workspace_root@
    }

    /// The workspace root that inspected paths are taken from.
    pub fn workspace_root_path(&self) -> (s: &str)
        ensures
            s@ == self.workspace_root(),
    {
        self.workspace_root.as_str()
    }

    /// The model provider that answers the requests.
    pub fn llm_provider(&self) -> (p: &P)
        ensures
            *p == self.provider(),
    {
        &self.llm_provider
    }

    pub fn name(&self) -> (s: &'static str)
        ensures
            s@ == "visual_inspect"@,
    {
        "visual_inspect"
    }

    pub fn description(&self) -> (s: &'static str)
        ensures
            s@ == "Inspect a local image or PDF with a vision-capable model. Use when visual or layout information is needed from screenshots, rendered slides, charts, diagrams, scanned documents, or PDFs."@,
    {
        "Inspect a local image or PDF with a vision-capable model. Use when visual or layout information is needed from screenshots, rendered slides, charts, diagrams, scanned documents, or PDFs."
    }

    pub fn default_permission(&self) -> (m: ToolPermissionMode)
        ensures
            m == ToolPermissionMode::Allow,
    {
        ToolPermissionMode::Allow
    }
}

/// How a source is handed to the model.
#[derive(Clone, Copy, PartialEq, Eq, Structural)]
pub enum SourceKind {
    Image,
    Pdf,
}

/// The media type and kind of a source, by its extension (case-insensitive).
pub open spec fn source_spec(ext: Option<Seq<char>>) -> Result<(Seq<char>, SourceKind), ToolErrorView> {
    match ext {
        None => Err(ToolErrorView::InvalidArguments("file extension is required"@)),
        Some(e) => {
            let l = ascii_lowercase(e);
            if l == "png"@ {
                Ok(("image/png"@, SourceKind::Image))
            } else if l == "jpg"@ || l == "jpeg"@ {
                Ok(("image/jpeg"@, SourceKind::Image))
            } else if l == "gif"@ {
                Ok(("image/gif"@, SourceKind::Image))
            } else if l == "webp"@ {
                Ok(("image/webp"@, SourceKind::Image))
            } else if l == "pdf"@ {
                Ok(("application/pdf"@, SourceKind::Pdf))
            } else {
                Err(ToolErrorView::InvalidArguments("unsupported visual source format: "@ + l))
            }
        },
    }
}

/// The media type and kind of the source at `path`.
pub fn infer_source(path: &str) -> (r: Result<(&'static str, SourceKind), ToolError>)
    ensures
        match r {
            Ok((m, k)) => source_spec(path_extension(path@)) == Ok::<
                (Seq<char>, SourceKind),
                ToolErrorView,
            >((m@, k)),
            Err(e) => source_spec(path_extension(path@)) == Err::<(Seq<char>, SourceKind), ToolErrorView>(
                e@,
            ),
        },
{
    match extension_of(path) {
        None => Err(invalid_arguments("file extension is required")),
        Some(e) => {
            let l = ascii_lowercase_str(e.as_str());
            if str_eq(l.as_str(), "png") {
                Ok(("image/png", SourceKind::Image))
            } else if str_eq(l.as_str(), "jpg") || str_eq(l.as_str(), "jpeg") {
                Ok(("image/jpeg", SourceKind::Image))
            } else if str_eq(l.as_str(), "gif") {
                Ok(("image/gif", SourceKind::Image))
            } else if str_eq(l.as_str(), "webp") {
                Ok(("image/webp", SourceKind::Image))
            } else if str_eq(l.as_str(), "pdf") {
                Ok(("application/pdf", SourceKind::Pdf))
            } else {
                Err(ToolError::InvalidArguments(concat("unsupported visual source format: ", l.as_str())))
            }
        },
    }
}

/// The name under which a PDF is handed over: the path's own, else `document.pdf`.
pub fn filename(path: &str) -> (r: String)
    ensures
        r@ == match path_file_name(path@) {
            Some(n) => n,
            None => "document.pdf"@,
        },
{
    match file_name_of(path) {
        Some(n) => n,
        None => "document.pdf".to_owned(),
    }
}

/// Refuses a source that is not a file, is empty or is larger than [`MAX_SOURCE_BYTES`];
/// `requested` is the path as the call named it.
pub fn check_source(is_file: bool, len: u64, requested: &str) -> (r: Result<(), ToolError>)
    ensures
        !is_file ==> (r matches Err(e) && e@ == ToolErrorView::ExecutionFailed(
            "path is not a file: "@ + requested@,
        )),
        is_file && len == 0 ==> (r matches Err(e) && e@ == ToolErrorView::ExecutionFailed(
            "visual source file is empty"@,
        )),
        is_file && len > MAX_SOURCE_BYTES ==> (r matches Err(e) && e@ == ToolErrorView::ExecutionFailed(
            "visual source file is too large; limit is "@ + decimal(MAX_SOURCE_BYTES as nat) + " bytes"@,
        )),
        is_file && 0 < len <= MAX_SOURCE_BYTES ==> r is Ok,
{
    if !is_file {
        return Err(ToolError::ExecutionFailed(concat("path is not a file: ", requested)));
    }
    if len == 0 {
        return Err(execution_failed("visual source file is empty"));
    }
    if len > MAX_SOURCE_BYTES {
        let m = concat("visual source file is too large; limit is ", decimal_string(MAX_SOURCE_BYTES as u128).as_str());
        return Err(ToolError::ExecutionFailed(concat(m.as_str(), " bytes")));
    }
    Ok(())
}

/// A part of the user message of an inspection: the instruction's text, the image as a data
/// URI, or the PDF as a file name and a data URI.
pub enum InspectionPart {
    Text(String),
    Image(String),
    File { filename: String, data: String },
}

/// An inspection request: the model asked, the system message's text, and the parts of the
/// user message in order.
pub struct InspectionRequest {
    pub model: String,
    pub system: String,
    pub user_parts: Vec<InspectionPart>,
}

/// The plain view of a part: its kind (0 text, 1 image, 2 file) and texts.
pub open spec fn part_view(p: InspectionPart) -> (nat, Seq<char>, Seq<char>) {
    match p {
        InspectionPart::Text(t) => (0, t@, Seq::empty()),
        InspectionPart::Image(d) => (1, d@, Seq::empty()),
        InspectionPart::File { filename, data } => (2, filename@, data@),
    }
}

impl<P> VisualInspectTool<P> {
    /// The request that inspects a source: the tool's model; [`SYSTEM_PROMPT`] as the system
    /// message; then a user message with the instruction followed by the source, as an image, or
    /// for a PDF as a file named `filename`, either way holding `data_uri`.
    pub fn inspection_request(&self, instruction: &str, kind: SourceKind, filename: &str, data_uri: &str) -> (r:
        InspectionRequest)
        ensures
            r.model@ == self.model(),
            r.system@ == SYSTEM_PROMPT@,
            r.user_parts@.map_values(|p: InspectionPart| part_view(p)) == seq![
                (0nat, instruction@, Seq::<char>::empty()),
                match kind {
                    SourceKind::Image => (1nat, data_uri@, Seq::<char>::empty()),
                    SourceKind::Pdf => (2nat, filename@, data_uri@),
                },
            ],
    {
        let source = match kind {
            SourceKind::Image => InspectionPart::Image(data_uri.to_owned()),
            SourceKind::Pdf => InspectionPart::File { filename: filename.to_owned(), data: data_uri.to_owned() },
        };
        let mut parts: Vec<InspectionPart> = Vec::new();
        parts.push(InspectionPart::Text(instruction.to_owned()));
        parts.push(source);
        let r = InspectionRequest { model: self.model.clone(), system: SYSTEM_PROMPT.to_owned(), user_parts: parts };
        assert(r.user_parts@.map_values(|p: InspectionPart| part_view(p)) =~= seq![
            (0nat, instruction@, Seq::<char>::empty()),
            match kind {
                SourceKind::Image => (1nat, data_uri@, Seq::<char>::empty()),
                SourceKind::Pdf => (2nat, filename@, data_uri@),
            },
        ]);
        r
    }
}

/// The answer of an inspection: the model's text trimmed, which must not be empty.
pub fn inspection_content(output: &str) -> (r: Result<String, ToolError>)
    ensures
        trim(output@).len() == 0 ==> (r matches Err(e) && e@ == ToolErrorView::ExecutionFailed(
            "visual inspection returned empty content"@,
        )),
        trim(output@).len() > 0 ==> (r matches Ok(s) && s@ == trim(output@)),
{
    let t = trim_str(output);
    if t.as_str().is_empty() {
        Err(execution_failed("visual inspection returned empty content"))
    } else {
        Ok(t)
    }
}

} // verus!

use vstd::prelude::*;

use crate::error::{execution_failed, invalid_arguments, ToolError, ToolErrorView};
use crate::model::ToolPermissionMode;
use crate::net::{ip_parse, is_blocked_ip, is_blocked_ip_spec, parse_url, url_parse, url_parts_view};
use crate::text::{
    ascii_lowercase, ascii_lowercase_str, chars_of, concat, contains_exec, contains_seq, has_prefix,
    has_suffix, push_chars, starts_with_exec, ends_with_exec, string_from_chars,
    string_from_range, str_eq, trim, trim_str,
};

verus! {

/// Default limit on returned characters.
pub const DEFAULT_MAX_CHARS: usize = 100000;

/// Largest allowed limit on returned characters.
pub const MAX_CHARS: usize = 500000;

/// Largest response body that is read, in bytes.
pub const MAX_RESPONSE_BYTES: usize = 1000000;

/// The checks on a URL before it is fetched: non-empty after trimming, parseable, http(s),
/// with a host that is neither `localhost` nor a blocked IP address. The result is the
/// URL's serialization.
pub open spec fn validated_url(raw: Seq<char>) -> Result<Seq<char>, ToolErrorView> {
    let t = trim(raw);
    if t.len() == 0 {
        Err(ToolErrorView::InvalidArguments("url must not be empty"@))
    } else {
        match url_parse(t) {
            Err(e) => Err(ToolErrorView::InvalidArguments(e)),
            Ok((scheme, host, serialized)) => if scheme != "http"@ && scheme != "https"@ {
                Err(ToolErrorView::InvalidArguments("url must start with http:// or https://"@))
            } else {
                match host {
                    None => Err(ToolErrorView::InvalidArguments("url must include a host"@)),
                    Some(h) => if ascii_lowercase(h) == "localhost"@ || has_suffix(
                        h,
                        ".localhost"@,
                    ) {
                        Err(ToolErrorView::InvalidArguments("localhost URLs are not allowed"@))
                    } else if ip_parse(h) is Some && is_blocked_ip_spec(ip_parse(h)->0) {
                        Err(
                            ToolErrorView::InvalidArguments(
                                "private or local IP URLs are not allowed"@,
                            ),
                        )
                    } else {
                        Ok(serialized)
                    },
                }
            },
        }
    }
}

/// Checks a URL before it is fetched and returns its serialization.
pub fn validate_url(raw_url: &str) -> (r: Result<String, ToolError>)
    ensures
        match r {
            Ok(s) => validated_url(raw_url@) == Ok::<Seq<char>, ToolErrorView>(s@),
            Err(e) => validated_url(raw_url@) == Err::<Seq<char>, ToolErrorView>(e@),
        },
{
    let t = trim_str(raw_url);
    if t.as_str().is_empty() {
        return Err(invalid_arguments("url must not be empty"));
    }
    let parts = parse_url(t.as_str());
    let parts = match parts {
        Err(e) => {
            return Err(ToolError::InvalidArguments(e));
        },
        Ok(p) => p,
    };
    if !str_eq(parts.scheme.as_str(), "http") && !str_eq(parts.scheme.as_str(), "https") {
        return Err(invalid_arguments("url must start with http:// or https://"));
    }
    let host = match parts.host {
        None => {
            return Err(invalid_arguments("url must include a host"));
        },
        Some(h) => h,
    };
    let lower = ascii_lowercase_str(host.as_str());
    let is_localhost = str_eq(lower.as_str(), "localhost");
    let host_chars = chars_of(host.as_str());
    let dot_localhost = chars_of(".localhost");
    if is_localhost || ends_with_exec(&host_chars, &dot_localhost) {
        return Err(invalid_arguments("localhost URLs are not allowed"));
    }
    match crate::net::parse_ip(host.as_str()) {
        Some(ip) => {
            if is_blocked_ip(ip) {
                return Err(invalid_arguments("private or local IP URLs are not allowed"));
            }
        },
        None => {},
    }
    Ok(parts.serialized)
}

/// `text` cut to its first `max_chars` characters, with a marker after a cut.
pub open spec fn truncated_chars(text: Seq<char>, max_chars: nat) -> (Seq<char>, bool) {
    if text.len() <= max_chars {
        (text, false)
    } else {
        (text.take(max_chars as int) + "\n... [truncated]"@, true)
    }
}

/// Cuts `text` to at most `max_chars` characters.
pub fn truncate_chars(text: &str, max_chars: usize) -> (r: (String, bool))
    ensures
        (r.0@, r.1) == truncated_chars(text@, max_chars as nat),
{
    let v = chars_of(text);
    if v.len() <= max_chars {
        return (string_from_chars(&v), false);
    }
    let mut s = string_from_range(&v, 0, max_chars);
    let m = chars_of("\n... [truncated]");
    push_chars(&mut s, &m);
    assert(v@.subrange(0, max_chars as int) =~= v@.take(max_chars as int));
    (s, true)
}

/// How a response body is turned into text, by its (lowercased) content type.
pub enum BodyKind {
    Html,
    Json,
    Text,
    Unsupported,
}

/// The body kind of a content type: HTML when it is empty or names `text/html`, else JSON,
/// else plain text, else unsupported.
pub open spec fn body_kind_spec(content_type: Seq<char>) -> BodyKind {
    if content_type.len() == 0 || contains_seq(content_type, "text/html"@) {
        BodyKind::Html
    } else if contains_seq(content_type, "application/json"@) || contains_seq(
        content_type,
        "+json"@,
    ) {
        BodyKind::Json
    } else if has_prefix(content_type, "text/"@) || contains_seq(content_type, "application/xml"@)
        || contains_seq(content_type, "application/javascript"@) {
        BodyKind::Text
    } else {
        BodyKind::Unsupported
    }
}

/// Classifies a content type.
pub fn body_kind(content_type: &str) -> (k: BodyKind)
    ensures
        k == body_kind_spec(content_type@),
{
    let ct = chars_of(content_type);
    if ct.len() == 0 || contains_exec(&ct, &chars_of("text/html")) {
        BodyKind::Html
    } else if contains_exec(&ct, &chars_of("application/json")) || contains_exec(
        &ct,
        &chars_of("+json"),
    ) {
        BodyKind::Json
    } else if starts_with_exec(&ct, &chars_of("text/")) || contains_exec(
        &ct,
        &chars_of("application/xml"),
    ) || contains_exec(&ct, &chars_of("application/javascript")) {
        BodyKind::Text
    } else {
        BodyKind::Unsupported
    }
}

/// How many columns rendered HTML is wrapped to.
pub const RENDER_WIDTH: usize = 80;

/// What `html2text::from_read(body, width)` gives: the rendered text, or its error's message.
pub uninterp spec fn html_to_text(body: Seq<char>, width: usize) -> Result<Seq<char>, Seq<char>>;

/// What parsing `body` as JSON and printing it with `serde_json::to_string_pretty` gives,
/// or `None` when either step fails.
pub uninterp spec fn json_pretty(body: Seq<char>) -> Option<Seq<char>>;

/// Calls `html2text::from_read` with the body's bytes and `width`, and gives its result, the
/// error as its message. The contract names the result as a function of the body and the width:
/// with its default features the crate only looks up, and never walks, the hash maps it keeps
/// while rendering. It is assumed, not shown, that the call returns rather than panics on
/// every body: its failures (such as a width too narrow) come back as `Err`, and the many
/// `unwrap` sites inside the renderer could not all be settled by reading.
#[verifier::external_body]
fn render_html(body: &str, width: usize) -> (r: Result<String, String>)
    ensures
        match r {
            Ok(t) => html_to_text(body@, width) == Ok::<Seq<char>, Seq<char>>(t@),
            Err(e) => html_to_text(body@, width) == Err::<Seq<char>, Seq<char>>(e@),
        },
{
    html2text::from_read(body.as_bytes(), width).map_err(|err| err.to_string())
}

/// Calls `serde_json::from_str::<serde_json::Value>` and then `serde_json::to_string_pretty`.
#[verifier::external_body]
fn pretty_json(body: &str) -> (r: Option<String>)
    ensures
        match r {
            Some(t) => json_pretty(body@) == Some(t@),
            None => json_pretty(body@) is None,
        },
{
    serde_json::from_str::<serde_json::Value>(body).ok().and_then(
        |value| serde_json::to_string_pretty(&value).ok(),
    )
}

/// The readable text of a response body of the given (lowercased) content type.
pub open spec fn extracted_text(content_type: Seq<char>, body: Seq<char>) -> Result<
    Seq<char>,
    ToolErrorView,
> {
    match body_kind_spec(content_type) {
        BodyKind::Html => match html_to_text(body, RENDER_WIDTH) {
            Ok(t) => Ok(trim(t)),
            Err(e) => Err(ToolErrorView::ExecutionFailed(e)),
        },
        BodyKind::Json => match json_pretty(body) {
            Some(p) => Ok(p),
            None => Ok(body),
        },
        BodyKind::Text => Ok(body),
        BodyKind::Unsupported => Err(
            ToolErrorView::ExecutionFailed("unsupported content type: "@ + content_type),
        ),
    }
}

/// Every `text/` content type that is neither HTML nor JSON gives the body back as it is,
/// whatever its subtype (plain, csv, markdown, css, ...); and a content type is classified as
/// unsupported only when it is none of text, HTML, JSON, XML or JavaScript.
pub proof fn law_text_types_pass_through(content_type: Seq<char>, body: Seq<char>)
    ensures
        has_prefix(content_type, "text/"@) && !contains_seq(content_type, "text/html"@) && !contains_seq(
            content_type,
            "application/json"@,
        ) && !contains_seq(content_type, "+json"@) ==> extracted_text(content_type, body) == Ok::<
            Seq<char>,
            ToolErrorView,
        >(body),
        body_kind_spec(content_type) == BodyKind::Unsupported ==> content_type.len() > 0 && !has_prefix(
            content_type,
            "text/"@,
        ) && !contains_seq(content_type, "text/html"@) && !contains_seq(content_type, "application/json"@)
            && !contains_seq(content_type, "+json"@) && !contains_seq(content_type, "application/xml"@)
            && !contains_seq(content_type, "application/javascript"@),
{
    reveal_strlit("text/");
}

/// Turns a response body into text according to its content type.
pub fn extract_text(content_type: &str, body: &str) -> (r: Result<String, ToolError>)
    ensures
        match r {
            Ok(s) => extracted_text(content_type@, body@) == Ok::<Seq<char>, ToolErrorView>(s@),
            Err(e) => extracted_text(content_type@, body@) == Err::<Seq<char>, ToolErrorView>(
                e@,
            ),
        },
{
    match body_kind(content_type) {
        BodyKind::Html => match render_html(body, RENDER_WIDTH) {
            Ok(t) => Ok(trim_str(t.as_str())),
            Err(e) => Err(ToolError::ExecutionFailed(e)),
        },
        BodyKind::Json => match pretty_json(body) {
            Some(p) => Ok(p),
            None => Ok(body.to_owned()),
        },
        BodyKind::Text => Ok(body.to_owned()),
        BodyKind::Unsupported => Err(
            ToolError::ExecutionFailed(concat("unsupported content type: ", content_type)),
        ),
    }
}

/// Checks a fetch call: the URL (see [`validated_url`]) and the character limit
/// (default 100000, within 1..=500000).
pub open spec fn fetch_call_spec(url: Seq<char>, max_chars: Option<usize>) -> Result<
    (Seq<char>, usize),
    ToolErrorView,
> {
    match validated_url(url) {
        Err(e) => Err(e),
        Ok(u) => {
            let m = match max_chars {
                Some(m) => m,
                None => DEFAULT_MAX_CHARS,
            };
            if m == 0 || m > MAX_CHARS {
                Err(ToolErrorView::InvalidArguments("max_chars must be between 1 and 500000"@))
            } else {
                Ok((u, m))
            }
        },
    }
}

/// Checks the arguments of a fetch call.
pub fn check_fetch_call(url: &str, max_chars: Option<usize>) -> (r: Result<(String, usize), ToolError>)
    ensures
        match r {
            Ok((u, m)) => fetch_call_spec(url@, max_chars) == Ok::<
                (Seq<char>, usize),
                ToolErrorView,
            >((u@, m)),
            Err(e) => fetch_call_spec(url@, max_chars) == Err::<(Seq<char>, usize), ToolErrorView>(
                e@,
            ),
        },
{
    let u = match validate_url(url) {
        Err(e) => {
            return Err(e);
        },
        Ok(u) => u,
    };
    let m = match max_chars {
        Some(m) => m,
        None => DEFAULT_MAX_CHARS,
    };
    if m == 0 || m > MAX_CHARS {
        return Err(invalid_arguments("max_chars must be between 1 and 500000"));
    }
    Ok((u, m))
}

/// Refuses a response whose (declared or actual) size exceeds the limit.
pub fn check_response_size(bytes: usize) -> (r: Result<(), ToolError>)
    ensures
        match r {
            Ok(_) => bytes <= MAX_RESPONSE_BYTES,
            Err(e) => bytes > MAX_RESPONSE_BYTES && e@ == ToolErrorView::ExecutionFailed(
                "response is too large; limit is 1000000 bytes"@,
            ),
        },
{
    if bytes > MAX_RESPONSE_BYTES {
        Err(execution_failed("response is too large; limit is 1000000 bytes"))
    } else {
        Ok(())
    }
}

/// Reads a single web page and returns its text.
pub struct WebFetchTool {}

impl WebFetchTool {
    pub fn name(&self) -> (s: &'static str)
        ensures
            s@ == "web_fetch"@,
    {
        "web_fetch"
    }

    pub fn description(&self) -> (s: &'static str)
        ensures
            s@ == "Read one web page and return extracted text. Use when you already have the URL."@,
    {
        "Read one web page and return extracted text. Use when you already have the URL."
    }

    pub fn default_permission(&self) -> (m: ToolPermissionMode)
        ensures
            m == ToolPermissionMode::Allow,
    {
        ToolPermissionMode::Allow
    }
}

/// A URL that passes the checks is an http or https URL with a host that is neither
/// `localhost` (or under it) nor an address that must not be fetched; what is fetched is the
/// URL's serialization.
pub proof fn law_accepted_urls_are_public(raw: Seq<char>)
    ensures
        validated_url(raw) matches Ok(u) ==> (url_parse(trim(raw)) matches Ok((scheme, Some(h), serialized))
            && (scheme == "http"@ || scheme == "https"@) && ascii_lowercase(h) != "localhost"@ && !has_suffix(
            h,
            ".localhost"@,
        ) && !(ip_parse(h) is Some && is_blocked_ip_spec(ip_parse(h)->0)) && u == serialized),
{
}

} // verus!

use vstd::prelude::*;

use crate::error::{execution_failed, invalid_arguments, ToolError, ToolErrorView};
use crate::model::ToolPermissionMode;
use crate::net::{build_client, parse_url, url_parse};
use crate::text::{
    ascii_lowercase, ascii_lowercase_str, byte_len, byte_cut, chars_of, concat, contains_seq,
    contains_str, contains_string, has_prefix, opt_view, is_ascii_alphanumeric, join, join_strs,
    prefix_cut_exec, starts_with_exec, str_views, string_views, trim, trim_str,
    truncate_bytes_with, truncated_with,
};

verus! {

/// Default number of results.
pub const DEFAULT_MAX_RESULTS: u8 = 5;

/// Largest number of results.
pub const MAX_RESULTS: u8 = 20;

/// Most domains a search may be restricted to.
pub const MAX_DOMAINS: usize = 20;

/// Most bytes of an error body that are reported.
pub const MAX_ERROR_BODY_BYTES: usize = 2000;

/// Finds web pages with the Tavily search API.
pub struct WebSearchTool {
    api_key: String,
    client: reqwest::Client,
}

impl WebSearchTool {
    /// A search tool for the given API key (trimmed; it must not be blank).
    pub fn new(api_key: &str) -> (r: Result<Self, ToolError>)
        ensures
            trim(api_key@).len() == 0 ==> (r matches Err(e) && e@
                == ToolErrorView::ExecutionFailed("TAVILY_API_KEY must not be empty"@)),
            r matches Ok(t) ==> t.api_key() == trim(api_key@) && trim(api_key@).len() > 0,
            r matches Err(e) ==> e@ is ExecutionFailed,
    {
        let key = trim_str(api_key);
        if key.as_str().is_empty() {
            return Err(execution_failed("TAVILY_API_KEY must not be empty"));
        }
        match build_client(30) {
            Ok(client) => Ok(Self { api_key: key, client }),
            Err(e) => Err(ToolError::ExecutionFailed(e)),
        }
    }

    pub closed spec fn api_key(&self) -> Seq<char> {
        self.api_key@
    }

    /// The API key sent as the bearer token.
    pub fn api_key_str(&self) -> (s: &str)
        ensures
            s@ == self.api_key(),
    {
        self.api_key.as_str()
    }

    /// The HTTP client that sends the searches.
    pub closed spec fn http_client(&self) -> reqwest::Client {
        self.client
    }

    pub fn client(&self) -> (c: &reqwest::Client)
        ensures
            *c == self.http_client(),
    {
        &self.client
    }

    pub fn name(&self) -> (s: &'static str)
        ensures
            s@ == "web_search"@,
    {
        "web_search"
    }

    pub fn description(&self) -> (s: &'static str)
        ensures
            s@ == "Find web pages with Tavily. Returns titles, URLs, and content excerpts for choosing sources."@,
    {
        "Find web pages with Tavily. Returns titles, URLs, and content excerpts for choosing sources."
    }

    pub fn default_permission(&self) -> (m: ToolPermissionMode)
        ensures
            m == ToolPermissionMode::Allow,
    {
        ToolPermissionMode::Allow
    }
}

/// The validated value of an optional enumerated argument: trimmed and lowercased; blank
/// means absent; otherwise it must be one of `allowed`.
pub open spec fn enum_value_spec(value: Option<Seq<char>>, name: Seq<char>, allowed: Seq<Seq<char>>) -> Result<
    Option<Seq<char>>,
    ToolErrorView,
> {
    match value {
        None => Ok(None),
        Some(v) => {
            let l = ascii_lowercase(trim(v));
            if l.len() == 0 {
                Ok(None)
            } else if allowed.contains(l) {
                Ok(Some(l))
            } else {
                Err(ToolErrorView::InvalidArguments(name + " must be one of: "@ + join(allowed, ", "@)))
            }
        },
    }
}

/// Validates an optional enumerated argument.
pub fn validate_enum(value: Option<String>, name: &str, allowed: &[&str]) -> (r: Result<
    Option<String>,
    ToolError,
>)
    ensures
        match r {
            Ok(None) => enum_value_spec(
                match value {
                    Some(v) => Some(v@),
                    None => None,
                },
                name@,
                str_views(allowed@),
            ) == Ok::<Option<Seq<char>>, ToolErrorView>(None),
            Ok(Some(v2)) => enum_value_spec(
                match value {
                    Some(v) => Some(v@),
                    None => None,
                },
                name@,
                str_views(allowed@),
            ) == Ok::<Option<Seq<char>>, ToolErrorView>(Some(v2@)),
            Err(e) => enum_value_spec(
                match value {
                    Some(v) => Some(v@),
                    None => None,
                },
                name@,
                str_views(allowed@),
            ) == Err::<Option<Seq<char>>, ToolErrorView>(e@),
        },
{
    let v = match value {
        None => {
            return Ok(None);
        },
        Some(v) => v,
    };
    let t = trim_str(v.as_str());
    let l = ascii_lowercase_str(t.as_str());
    if l.as_str().is_empty() {
        return Ok(None);
    }
    if contains_str(allowed, l.as_str()) {
        Ok(Some(l))
    } else {
        let head = concat(name, " must be one of: ");
        let list = join_strs(allowed, ", ");
        Err(ToolError::InvalidArguments(concat(head.as_str(), list.as_str())))
    }
}

/// A domain name that a search may be restricted to: non-empty, at most 253 bytes, with a
/// dot, made of ASCII letters, digits, `-` and `.`.
pub open spec fn is_valid_domain_spec(d: Seq<char>) -> bool {
    &&& d.len() > 0
    &&& byte_len(d) <= 253
    &&& d.contains('.')
    &&& forall|i: int| 0 <= i < d.len() ==> is_domain_char(#[trigger] d[i])
}

/// The characters allowed in a domain name.
pub open spec fn is_domain_char(c: char) -> bool {
    is_ascii_alphanumeric(c) || c == '-' || c == '.'
}

/// Whether `domain` is a valid domain name.
pub fn is_valid_domain(domain: &str) -> (b: bool)
    ensures
        b == is_valid_domain_spec(domain@),
{
    let d = chars_of(domain);
    if d.len() == 0 {
        return false;
    }
    let k = prefix_cut_exec(&d, 253);
    if k < d.len() {
        proof {
            crate::text::lemma_byte_len_take_mono(d@, k + 1, d@.len() as int);
            assert(d@.take(d@.len() as int) =~= d@);
        }
        return false;
    }
    assert(d@.take(k as int) =~= d@);
    let mut has_dot = false;
    let mut i: usize = 0;
    while i < d.len()
        invariant
            i <= d.len(),
            d@ == domain@,
            forall|m: int| 0 <= m < i ==> is_domain_char(#[trigger] d@[m]),
            has_dot == (exists|m: int| 0 <= m < i && d@[m] == '.'),
        decreases d.len() - i,
    {
        let c = d[i];
        let ok = ('0' <= c && c <= '9') || ('a' <= c && c <= 'z') || ('A' <= c && c <= 'Z') || c
            == '-' || c == '.';
        if !ok {
            assert(!is_domain_char(d@[i as int]));
            return false;
        }
        if c == '.' {
            has_dot = true;
        }
        i += 1;
    }
    proof {
        if has_dot {
            let m = choose|m: int| 0 <= m < i && d@[m] == '.';
            assert(domain@.contains('.'));
        } else {
            assert forall|m: int| 0 <= m < d@.len() implies d@[m] != '.' by {}
        }
    }
    has_dot
}

/// Processes one requested domain, given the domains accepted so far.
pub open spec fn domain_step(acc: Seq<Seq<char>>, raw: Seq<char>) -> Result<Seq<Seq<char>>, ToolErrorView> {
    let t = trim(raw);
    if t.len() == 0 {
        Ok(acc)
    } else {
        let candidate = if has_prefix(t, "http://"@) || has_prefix(t, "https://"@) {
            t
        } else {
            "https://"@ + t
        };
        match url_parse(candidate) {
            Err(e) => Err(ToolErrorView::InvalidArguments(e)),
            Ok((_, host, _)) => match host {
                None => Err(ToolErrorView::InvalidArguments("invalid domain: "@ + t)),
                Some(h) => {
                    let d = ascii_lowercase(trim(h));
                    if !is_valid_domain_spec(d) {
                        Err(ToolErrorView::InvalidArguments("invalid domain: "@ + t))
                    } else {
                        let next = if acc.contains(d) {
                            acc
                        } else {
                            acc.push(d)
                        };
                        if next.len() > MAX_DOMAINS {
                            Err(
                                ToolErrorView::InvalidArguments(
                                    "domains must contain at most 20 entries"@,
                                ),
                            )
                        } else {
                            Ok(next)
                        }
                    }
                },
            },
        }
    }
}

/// The normalized, de-duplicated domains of a request, in first-seen order, or the first
/// error among them.
pub open spec fn normalized_domains(raws: Seq<Seq<char>>) -> Result<Seq<Seq<char>>, ToolErrorView>
    decreases raws.len(),
{
    if raws.len() == 0 {
        Ok(Seq::<Seq<char>>::empty())
    } else {
        match normalized_domains(raws.drop_last()) {
            Err(e) => Err(e),
            Ok(acc) => domain_step(acc, raws.last()),
        }
    }
}

proof fn lemma_domains_err_prefix(s: Seq<Seq<char>>, k: int)
    requires
        0 <= k <= s.len(),
        normalized_domains(s.take(k)) is Err,
    ensures
        normalized_domains(s) == normalized_domains(s.take(k)),
    decreases s.len() - k,
{
    if k == s.len() {
        assert(s.take(k) =~= s);
    } else {
        assert(s.take(k + 1).drop_last() =~= s.take(k));
        lemma_domains_err_prefix(s, k + 1);
    }
}

/// Normalizes the domains that a search is restricted to.
pub fn normalize_domains(value: Option<Vec<String>>) -> (r: Result<Vec<String>, ToolError>)
    ensures
        match r {
            Ok(v) => normalized_domains(
                match value {
                    Some(v) => string_views(v@),
                    None => Seq::<Seq<char>>::empty(),
                },
            ) == Ok::<Seq<Seq<char>>, ToolErrorView>(string_views(v@)),
            Err(e) => normalized_domains(
                match value {
                    Some(v) => string_views(v@),
                    None => Seq::<Seq<char>>::empty(),
                },
            ) == Err::<Seq<Seq<char>>, ToolErrorView>(e@),
        },
{
    let raws: Vec<String> = match value {
        Some(v) => v,
        None => Vec::new(),
    };
    let ghost all = string_views(raws@);
    let mut domains: Vec<String> = Vec::new();
    let mut i: usize = 0;
    proof {
        assert(all.take(0) =~= Seq::<Seq<char>>::empty());
        assert(string_views(domains@) =~= Seq::<Seq<char>>::empty());
    }
    while i < raws.len()
        invariant
            i <= raws.len(),
            all == string_views(raws@),
            all == match value {
                Some(v) => string_views(v@),
                None => Seq::<Seq<char>>::empty(),
            },
            normalized_domains(all.take(i as int)) == Ok::<Seq<Seq<char>>, ToolErrorView>(
                string_views(domains@),
            ),
        decreases raws.len() - i,
    {
        proof {
            assert(all.take(i + 1).drop_last() =~= all.take(i as int));
            assert(all.take(i + 1).last() == raws@[i as int]@);
        }
        let t = trim_str(raws[i].as_str());
        if t.as_str().is_empty() {
            i += 1;
            continue;
        }
        let tv = chars_of(t.as_str());
        let http = chars_of("http://");
        let https = chars_of("https://");
        let candidate = if starts_with_exec(&tv, &http) || starts_with_exec(&tv, &https) {
            t.clone()
        } else {
            concat("https://", t.as_str())
        };
        let parts = match parse_url(candidate.as_str()) {
            Err(e) => {
                proof {
                    lemma_domains_err_prefix(all, i + 1);
                }
                return Err(ToolError::InvalidArguments(e));
            },
            Ok(p) => p,
        };
        let host = match parts.host {
            None => {
                proof {
                    lemma_domains_err_prefix(all, i + 1);
                }
                return Err(ToolError::InvalidArguments(concat("invalid domain: ", t.as_str())));
            },
            Some(h) => h,
        };
        let ht = trim_str(host.as_str());
        let d = ascii_lowercase_str(ht.as_str());
        if !is_valid_domain(d.as_str()) {
            proof {
                lemma_domains_err_prefix(all, i + 1);
            }
            return Err(ToolError::InvalidArguments(concat("invalid domain: ", t.as_str())));
        }
        let ghost before = string_views(domains@);
        let ghost dv = d@;
        if !contains_string(&domains, d.as_str()) {
            domains.push(d);
            assert(string_views(domains@) =~= before.push(dv));
        }
        if domains.len() > MAX_DOMAINS {
            proof {
                lemma_domains_err_prefix(all, i + 1);
            }
            return Err(invalid_arguments("domains must contain at most 20 entries"));
        }
        i += 1;
    }
    proof {
        assert(all.take(raws.len() as int) =~= all);
    }
    Ok(domains)
}

/// Every list that domain normalization accepts is free of duplicates, has at most 20
/// entries, and holds only valid domain names.
pub proof fn law_normalized_domains_wellformed(raws: Seq<Seq<char>>)
    ensures
        normalized_domains(raws) matches Ok(d) ==> {
            &&& d.no_duplicates()
            &&& d.len() <= MAX_DOMAINS
            &&& forall|i: int| 0 <= i < d.len() ==> is_valid_domain_spec(#[trigger] d[i])
        },
    decreases raws.len(),
{
    if raws.len() > 0 {
        law_normalized_domains_wellformed(raws.drop_last());
        if let Ok(acc) = normalized_domains(raws.drop_last()) {
            if let Ok(d) = normalized_domains(raws) {
                assert forall|i: int, j: int| 0 <= i < d.len() && 0 <= j < d.len() && i != j implies d[i] != d[j] by {
                    if d.len() > acc.len() {
                        assert(d == acc.push(d.last()));
                        if i == d.len() - 1 {
                            assert(acc[j] == d[j]);
                        } else if j == d.len() - 1 {
                            assert(acc[i] == d[i]);
                        }
                    }
                }
            }
        }
    }
}

/// The settings of a search request.
pub struct SearchPlan {
    pub query: String,
    pub max_results: u8,
    pub search_depth: Option<String>,
    pub topic: Option<String>,
    pub time_range: Option<String>,
    pub include_domains: Vec<String>,
}

/// The checked settings of a search call, in the order the call checks them.
pub open spec fn search_plan_spec(
    query: Seq<char>,
    max_results: Option<u8>,
    search_depth: Option<Seq<char>>,
    topic: Option<Seq<char>>,
    time_range: Option<Seq<char>>,
    domains: Seq<Seq<char>>,
) -> Result<
    (Seq<char>, u8, Option<Seq<char>>, Option<Seq<char>>, Option<Seq<char>>, Seq<Seq<char>>),
    ToolErrorView,
> {
    let q = trim(query);
    let m = match max_results {
        Some(m) => m,
        None => DEFAULT_MAX_RESULTS,
    };
    if q.len() == 0 {
        Err(ToolErrorView::InvalidArguments("query must not be empty"@))
    } else if m == 0 || m > MAX_RESULTS {
        Err(ToolErrorView::InvalidArguments("max_results must be between 1 and 20"@))
    } else {
        match enum_value_spec(search_depth, "search_depth"@, seq!["basic"@, "advanced"@]) {
            Err(e) => Err(e),
            Ok(d) => match enum_value_spec(topic, "topic"@, seq!["general"@, "news"@, "finance"@]) {
                Err(e) => Err(e),
                Ok(t) => match enum_value_spec(
                    time_range,
                    "time_range"@,
                    seq!["day"@, "week"@, "month"@, "year"@],
                ) {
                    Err(e) => Err(e),
                    Ok(r) => match normalized_domains(domains) {
                        Err(e) => Err(e),
                        Ok(ds) => Ok((q, m, d, t, r, ds)),
                    },
                },
            },
        }
    }
}

/// The plain view of a search plan.
pub open spec fn search_plan_view(p: SearchPlan) -> (
    Seq<char>,
    u8,
    Option<Seq<char>>,
    Option<Seq<char>>,
    Option<Seq<char>>,
    Seq<Seq<char>>,
) {
    (
        p.query@,
        p.max_results,
        opt_view(p.search_depth),
        opt_view(p.topic),
        opt_view(p.time_range),
        string_views(p.include_domains@),
    )
}

/// Checks the arguments of a search call and builds its request settings.
pub fn plan_search(
    query: &str,
    max_results: Option<u8>,
    search_depth: Option<String>,
    topic: Option<String>,
    time_range: Option<String>,
    domains: Option<Vec<String>>,
) -> (r: Result<SearchPlan, ToolError>)
    ensures
        match r {
            Ok(p) => search_plan_spec(
                query@,
                max_results,
                opt_view(search_depth),
                opt_view(topic),
                opt_view(time_range),
                match domains {
                    Some(v) => string_views(v@),
                    None => Seq::<Seq<char>>::empty(),
                },
            ) == Ok::<_, ToolErrorView>(search_plan_view(p)),
            Err(e) => search_plan_spec(
                query@,
                max_results,
                opt_view(search_depth),
                opt_view(topic),
                opt_view(time_range),
                match domains {
                    Some(v) => string_views(v@),
                    None => Seq::<Seq<char>>::empty(),
                },
            ) == Err::<
                (
                    Seq<char>,
                    u8,
                    Option<Seq<char>>,
                    Option<Seq<char>>,
                    Option<Seq<char>>,
                    Seq<Seq<char>>,
                ),
                ToolErrorView,
            >(e@),
        },
{
    let q = trim_str(query);
    if q.as_str().is_empty() {
        return Err(invalid_arguments("query must not be empty"));
    }
    let m = match max_results {
        Some(m) => m,
        None => DEFAULT_MAX_RESULTS,
    };
    if m == 0 || m > MAX_RESULTS {
        return Err(invalid_arguments("max_results must be between 1 and 20"));
    }
    let depth_allowed: [&str; 2] = ["basic", "advanced"];
    assert(str_views(depth_allowed@) =~= seq!["basic"@, "advanced"@]);
    let d = match validate_enum(search_depth, "search_depth", &depth_allowed) {
        Err(e) => {
            return Err(e);
        },
        Ok(d) => d,
    };
    let topic_allowed: [&str; 3] = ["general", "news", "finance"];
    assert(str_views(topic_allowed@) =~= seq!["general"@, "news"@, "finance"@]);
    let t = match validate_enum(topic, "topic", &topic_allowed) {
        Err(e) => {
            return Err(e);
        },
        Ok(t) => t,
    };
    let range_allowed: [&str; 4] = ["day", "week", "month", "year"];
    assert(str_views(range_allowed@) =~= seq!["day"@, "week"@, "month"@, "year"@]);
    let tr = match validate_enum(time_range, "time_range", &range_allowed) {
        Err(e) => {
            return Err(e);
        },
        Ok(tr) => tr,
    };
    let ds = match normalize_domains(domains) {
        Err(e) => {
            return Err(e);
        },
        Ok(ds) => ds,
    };
    Ok(
        SearchPlan {
            query: q,
            max_results: m,
            search_depth: d,
            topic: t,
            time_range: tr,
            include_domains: ds,
        },
    )
}

/// The marker placed after a cut error body.
pub open spec fn error_body_marker() -> Seq<char> {
    "... [truncated]"@
}

/// `text` cut to `max_bytes` on a character boundary, with the marker after a cut.
pub fn truncate_text(text: &str, max_bytes: usize) -> (r: String)
    ensures
        r@ == truncated_with(text@, max_bytes as nat, error_body_marker()).0,
{
    truncate_bytes_with(text, max_bytes, "... [truncated]").0
}

/// The error for a failed search response with the given HTTP status text and body.
pub fn tavily_error(status: &str, body: &str) -> (e: ToolError)
    ensures
        e@ == ToolErrorView::ExecutionFailed(
            "Tavily search failed: HTTP "@ + status@ + ": "@ + truncated_with(
                body@,
                MAX_ERROR_BODY_BYTES as nat,
                error_body_marker(),
            ).0,
        ),
{
    let b = truncate_text(body, MAX_ERROR_BODY_BYTES);
    let a = concat("Tavily search failed: HTTP ", status);
    let a = concat(a.as_str(), ": ");
    ToolError::ExecutionFailed(concat(a.as_str(), b.as_str()))
}

} // verus!

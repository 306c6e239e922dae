use vstd::prelude::*;

use crate::error::{invalid_arguments, unavailable, ToolError, ToolErrorView};
use crate::text::{concat, decimal, decimal_string, join, string_views, trim, trim_str};

verus! {

/// Depth of research when the call gives none.
pub const DEFAULT_DEPTH: u32 = 1;

/// Breadth of research when the call gives none.
pub const DEFAULT_BREADTH: u32 = 3;

/// Largest depth of research.
pub const MAX_DEPTH: u32 = 3;

/// Largest breadth of research.
pub const MAX_BREADTH: u32 = 5;

/// Longest a search request may take, in seconds.
pub const SEARCH_TIMEOUT_SECS: u64 = 30;

/// Results asked of each search.
pub const SEARCH_MAX_RESULTS: i32 = 10;

/// How many days back a news search looks.
pub const SEARCH_DAYS: i32 = 1;

#[verifier::external_type_specification]
#[verifier::external_body]
pub struct ExTavily(tavily::Tavily);

#[verifier::external_type_specification]
#[verifier::external_body]
pub struct ExSearchRequest(tavily::SearchRequest);

/// A failure of the search client, told apart as the client reports it.
pub enum TavilyFailure {
    Api(String),
    Http { is_timeout: bool, message: String },
    Configuration(String),
    RateLimit(String),
}

/// Calls `Tavily::builder(api_key).timeout(..).build()` with a timeout of `timeout_seconds`;
/// its error is told apart by variant. Whether the build succeeds depends on the machine's HTTP
/// client setup, so nothing is stated of the result.
#[verifier::external_body]
fn build_search_client(api_key: &str, timeout_seconds: u64) -> (r: Result<tavily::Tavily, TavilyFailure>) {
    match tavily::Tavily::builder(api_key).timeout(std::time::Duration::from_secs(timeout_seconds)).build() {
        Ok(client) => Ok(client),
        Err(tavily::TavilyError::Api(m)) => Err(TavilyFailure::Api(m)),
        Err(tavily::TavilyError::Http(e)) => Err(TavilyFailure::Http { is_timeout: e.is_timeout(), message: e.to_string() }),
        Err(tavily::TavilyError::Configuration(m)) => Err(TavilyFailure::Configuration(m)),
        Err(tavily::TavilyError::RateLimit(m)) => Err(TavilyFailure::RateLimit(m)),
    }
}

/// The request that `SearchRequest::new(api_key, query)` gives once its topic, search depth,
/// number of results, days and raw content flag are set: a plain record of these values.
pub uninterp spec fn search_request(
    api_key: Seq<char>,
    query: Seq<char>,
    topic: Seq<char>,
    search_depth: Seq<char>,
    max_results: i32,
    days: i32,
    include_raw_content: bool,
) -> tavily::SearchRequest;

/// Calls `SearchRequest::new(api_key, query)` and sets its topic, search depth, number of
/// results, days and raw content flag. The request only records these values, so it is the
/// named request of the arguments.
#[verifier::external_body]
fn new_search_request(
    api_key: &str,
    query: &str,
    topic: &str,
    search_depth: &str,
    max_results: i32,
    days: i32,
    include_raw_content: bool,
) -> (r: tavily::SearchRequest)
    ensures
        r == search_request(api_key@, query@, topic@, search_depth@, max_results, days, include_raw_content),
{
    tavily::SearchRequest::new(api_key, query).topic(topic).search_depth(search_depth).max_results(
        max_results,
    ).days(days).include_raw_content(include_raw_content)
}

/// How a failure of the search client is reported.
pub open spec fn tavily_error_spec(f: TavilyFailure) -> ToolErrorView {
    match f {
        TavilyFailure::Configuration(m) => ToolErrorView::Unavailable("tavily configuration error: "@ + m@),
        TavilyFailure::RateLimit(m) => ToolErrorView::Unavailable("tavily rate limit: "@ + m@),
        TavilyFailure::Http { is_timeout, message } => if is_timeout {
            ToolErrorView::Timeout
        } else {
            ToolErrorView::Unavailable("tavily http error: "@ + message@)
        },
        TavilyFailure::Api(m) => ToolErrorView::ExecutionFailed("tavily api error: "@ + m@),
    }
}

/// Reports a failure of the search client.
pub fn map_tavily_error(f: TavilyFailure) -> (e: ToolError)
    ensures
        e@ == tavily_error_spec(f),
{
    match f {
        TavilyFailure::Configuration(m) => ToolError::Unavailable(concat("tavily configuration error: ", m.as_str())),
        TavilyFailure::RateLimit(m) => ToolError::Unavailable(concat("tavily rate limit: ", m.as_str())),
        TavilyFailure::Http { is_timeout, message } => if is_timeout {
            ToolError::Timeout
        } else {
            ToolError::Unavailable(concat("tavily http error: ", message.as_str()))
        },
        TavilyFailure::Api(m) => ToolError::ExecutionFailed(concat("tavily api error: ", m.as_str())),
    }
}

/// Reports a failed model request; `cause` is the model client's message.
pub fn map_llm_error(cause: &str) -> (e: ToolError)
    ensures
        e@ == ToolErrorView::ExecutionFailed("research llm request failed: "@ + cause@),
{
    ToolError::ExecutionFailed(concat("research llm request failed: ", cause))
}

/// Performs recursive news research: expands the query with a model served by `L`, searches
/// the news, and follows sub-topics.
pub struct ResearchTool<L> {
    api_key: String,
    client: tavily::Tavily,
    llm_provider: L,
    model: String,
}

impl<L> ResearchTool<L> {
    /// A research tool for the search API key and the model (both trimmed; neither may be blank).
    pub fn new(api_key: &str, llm_provider: L, model: &str) -> (r: Result<Self, ToolError>)
        ensures
            trim(api_key@).len() == 0 ==> (r matches Err(e) && e@ == ToolErrorView::Unavailable(
                "TAVILY_API_KEY must not be empty"@,
            )),
            trim(api_key@).len() > 0 && trim(model@).len() == 0 ==> (r matches Err(e) && e@
                == ToolErrorView::Unavailable("research model must not be empty"@)),
            r matches Ok(t) ==> t.provider() == llm_provider && t.api_key() == trim(api_key@) && t.model() == trim(model@) && trim(
                api_key@,
            ).len() > 0 && trim(model@).len() > 0,
            r matches Err(e) ==> (e@ == ToolErrorView::Unavailable("TAVILY_API_KEY must not be empty"@)
                || e@ == ToolErrorView::Unavailable("research model must not be empty"@) || exists|
                f: TavilyFailure,
            | e@ == tavily_error_spec(f)),
    {
        let key = trim_str(api_key);
        if key.as_str().is_empty() {
            return Err(unavailable("TAVILY_API_KEY must not be empty"));
        }
        let model = trim_str(model);
        if model.as_str().is_empty() {
            return Err(unavailable("research model must not be empty"));
        }
        match build_search_client(key.as_str(), SEARCH_TIMEOUT_SECS) {
            Ok(client) => Ok(Self { api_key: key, client, llm_provider, model }),
            Err(f) => {
                let ghost fv = f;
                let e = map_tavily_error(f);
                assert(e@ == tavily_error_spec(fv));
                Err(e)
            },
        }
    }

    pub closed spec fn api_key(&self) -> Seq<char> {
        self.api_key@
    }

    pub closed spec fn model(&self) -> Seq<char> {
        self.model@
    }

    pub closed spec fn provider(&self) -> L {
        self.llm_provider
    }

    /// The model that expands queries.
    pub fn model_id(&self) -> (s: &str)
        ensures
            s@ == self.model(),
    {
        self.model.as_str()
    }

    /// The search client.
    pub closed spec fn search_client(&self) -> tavily::Tavily {
        self.client
    }

    pub fn client(&self) -> (c: &tavily::Tavily)
        ensures
            *c == self.search_client(),
    {
        &self.client
    }

    /// The model provider.
    pub fn llm_provider(&self) -> (p: &L)
        ensures
            *p == self.provider(),
    {
        &self.llm_provider
    }

    /// The news search request for `query`: advanced depth, [`SEARCH_MAX_RESULTS`] results,
    /// the last [`SEARCH_DAYS`] days, without raw content.
    pub fn build_search_request(&self, query: &str) -> (r: tavily::SearchRequest)
        ensures
            r == search_request(self.api_key(), query@, "news"@, "advanced"@, SEARCH_MAX_RESULTS, SEARCH_DAYS, false),
    {
        new_search_request(
            self.api_key.as_str(),
            query,
            "news",
            "advanced",
            SEARCH_MAX_RESULTS,
            SEARCH_DAYS,
            false,
        )
    }

    pub fn name(&self) -> (s: &'static str)
        ensures
            s@ == "research"@,
    {
        "research"
    }

    pub fn description(&self) -> (s: &'static str)
        ensures
            s@ == "Perform recursive news research by expanding the query with the LLM, searching Tavily, and following deeper sub-topics."@,
    {
        "Perform recursive news research by expanding the query with the LLM, searching Tavily, and following deeper sub-topics."
    }
}

/// What a call gives for a numeric argument: nothing, a value that is not a non-negative
/// integer, or a non-negative integer.
pub enum NumberArgument {
    Missing,
    NotUnsigned,
    Unsigned(u64),
}

/// A numeric argument as a `u32`: absent is `None`; anything but a non-negative integer that
/// fits is refused.
pub fn parse_u32_argument(field_name: &str, value: &NumberArgument) -> (r: Result<Option<u32>, ToolError>)
    ensures
        match value {
            NumberArgument::Missing => r matches Ok(None),
            NumberArgument::NotUnsigned => r matches Err(e) && e@ == ToolErrorView::InvalidArguments(
                "'"@ + field_name@ + "' must be a non-negative integer"@,
            ),
            NumberArgument::Unsigned(v) => if *v <= u32::MAX {
                r matches Ok(Some(n)) && n == *v
            } else {
                r matches Err(e) && e@ == ToolErrorView::InvalidArguments(
                    "'"@ + field_name@ + "' is out of supported range"@,
                )
            },
        },
{
    match value {
        NumberArgument::Missing => Ok(None),
        NumberArgument::NotUnsigned => {
            let m = concat("'", field_name);
            Err(ToolError::InvalidArguments(concat(m.as_str(), "' must be a non-negative integer")))
        },
        NumberArgument::Unsigned(v) => if *v <= 0xffff_ffffu64 {
            Ok(Some(*v as u32))
        } else {
            let m = concat("'", field_name);
            Err(ToolError::InvalidArguments(concat(m.as_str(), "' is out of supported range")))
        },
    }
}

/// The research a call asks for: a query (trimmed, not blank), a depth up to [`MAX_DEPTH`]
/// ([`DEFAULT_DEPTH`] when absent) and a breadth from 1 to [`MAX_BREADTH`]
/// ([`DEFAULT_BREADTH`] when absent).
pub fn research_arguments(query: Option<&str>, depth: &NumberArgument, breadth: &NumberArgument) -> (r: Result<
    (String, u32, u32),
    ToolError,
>)
    ensures
        match r {
            Ok((q, d, b)) => (query matches Some(s) && q@ == trim(s@)) && q@.len() > 0 && d <= MAX_DEPTH && 1
                <= b <= MAX_BREADTH && d == match depth {
                NumberArgument::Unsigned(v) => *v,
                _ => DEFAULT_DEPTH as u64,
            } && b == match breadth {
                NumberArgument::Unsigned(v) => *v,
                _ => DEFAULT_BREADTH as u64,
            },
            Err(_) => true,
        },
        (query is None || trim(query->Some_0@).len() == 0) ==> (r matches Err(e) && e@
            == ToolErrorView::InvalidArguments("missing or invalid 'query'"@)),
        (query matches Some(s) && trim(s@).len() > 0) ==> match depth {
            NumberArgument::NotUnsigned => r matches Err(e) && e@ == ToolErrorView::InvalidArguments(
                "'"@ + "depth"@ + "' must be a non-negative integer"@,
            ),
            NumberArgument::Unsigned(v) if *v > u32::MAX => r matches Err(e) && e@
                == ToolErrorView::InvalidArguments("'"@ + "depth"@ + "' is out of supported range"@),
            NumberArgument::Unsigned(v) if *v > MAX_DEPTH => r matches Err(e) && e@
                == ToolErrorView::InvalidArguments("'depth' must be between 0 and "@ + decimal(MAX_DEPTH as nat)),
            _ => match breadth {
                NumberArgument::NotUnsigned => r matches Err(e) && e@ == ToolErrorView::InvalidArguments(
                    "'"@ + "breadth"@ + "' must be a non-negative integer"@,
                ),
                NumberArgument::Unsigned(v) if *v > u32::MAX => r matches Err(e) && e@
                    == ToolErrorView::InvalidArguments("'"@ + "breadth"@ + "' is out of supported range"@),
                NumberArgument::Unsigned(v) if *v == 0 || *v > MAX_BREADTH => r matches Err(e) && e@
                    == ToolErrorView::InvalidArguments(
                    "'breadth' must be between 1 and "@ + decimal(MAX_BREADTH as nat),
                ),
                _ => r is Ok,
            },
        },
{
    let q = match query {
        Some(s) => trim_str(s),
        None => String::new(),
    };
    if q.as_str().is_empty() {
        return Err(invalid_arguments("missing or invalid 'query'"));
    }
    let d = match parse_u32_argument("depth", depth) {
        Ok(Some(d)) => d,
        Ok(None) => DEFAULT_DEPTH,
        Err(e) => return Err(e),
    };
    if d > MAX_DEPTH {
        return Err(
            ToolError::InvalidArguments(
                concat("'depth' must be between 0 and ", decimal_string(MAX_DEPTH as u128).as_str()),
            ),
        );
    }
    let b = match parse_u32_argument("breadth", breadth) {
        Ok(Some(b)) => b,
        Ok(None) => DEFAULT_BREADTH,
        Err(e) => return Err(e),
    };
    if b == 0 || b > MAX_BREADTH {
        return Err(
            ToolError::InvalidArguments(
                concat("'breadth' must be between 1 and ", decimal_string(MAX_BREADTH as u128).as_str()),
            ),
        );
    }
    Ok((q, d, b))
}

/// What the model is told when it expands a query.
pub const EXPAND_INSTRUCTIONS: &'static str = "You are a research assistant. Your task is to generate search queries.";

/// What the model is told when it finds sub-topics.
pub const EXTRACT_INSTRUCTIONS: &'static str = "You are a research assistant. Your task is to identify unexplored sub-topics from collected articles.";

/// The request to expand `query` into `breadth` search queries.
pub open spec fn expand_prompt_spec(query: Seq<char>, breadth: u32) -> Seq<char> {
    "Generate "@ + decimal(breadth as nat)
        + " diverse search queries to thoroughly research the following topic.\n\nTopic: "@ + query
        + "\n\nReturn ONLY a JSON array of strings. Example:\n[\"query 1\", \"query 2\", \"query 3\"]\n\nDo not include any explanation or extra text."@
}

/// The request to expand `query` into `breadth` search queries.
pub fn expand_prompt(query: &str, breadth: u32) -> (s: String)
    ensures
        s@ == expand_prompt_spec(query@, breadth),
{
    let a = concat("Generate ", decimal_string(breadth as u128).as_str());
    let b = concat(a.as_str(), " diverse search queries to thoroughly research the following topic.\n\nTopic: ");
    let c = concat(b.as_str(), query);
    concat(
        c.as_str(),
        "\n\nReturn ONLY a JSON array of strings. Example:\n[\"query 1\", \"query 2\", \"query 3\"]\n\nDo not include any explanation or extra text.",
    )
}

/// One collected article in the context of a sub-topic request: its number from 1, its
/// title, and its content on the next line.
pub open spec fn article_entry(index: nat, title: Seq<char>, content: Seq<char>) -> Seq<char> {
    "["@ + decimal(index + 1) + "] "@ + title + "\n"@ + content
}

/// The collected articles, one entry each, separated by empty lines.
pub open spec fn articles_context_spec(articles: Seq<(Seq<char>, Seq<char>)>) -> Seq<char> {
    join(Seq::new(articles.len(), |i: int| article_entry(i as nat, articles[i].0, articles[i].1)), "\n\n"@)
}

/// The collected articles as the sub-topic request shows them; each is `(title, content)`.
pub fn articles_context(articles: &Vec<(String, String)>) -> (s: String)
    ensures
        s@ == articles_context_spec(articles@.map_values(|a: (String, String)| (a.0@, a.1@))),
{
    let ghost av = articles@.map_values(|a: (String, String)| (a.0@, a.1@));
    let mut entries: Vec<String> = Vec::new();
    let mut i: usize = 0;
    while i < articles.len()
        invariant
            i <= articles.len(),
            av == articles@.map_values(|a: (String, String)| (a.0@, a.1@)),
            string_views(entries@) == Seq::new(i as nat, |k: int| article_entry(k as nat, av[k].0, av[k].1)),
        decreases articles.len() - i,
    {
        let a = concat("[", decimal_string((i as u128) + 1).as_str());
        let b = concat(a.as_str(), "] ");
        let c = concat(b.as_str(), articles[i].0.as_str());
        let d = concat(c.as_str(), "\n");
        let e = concat(d.as_str(), articles[i].1.as_str());
        let ghost before = string_views(entries@);
        proof {
            assert(e@ =~= article_entry(i as nat, av[i as int].0, av[i as int].1));
        }
        entries.push(e);
        proof {
            assert(av[i as int] == (articles@[i as int].0@, articles@[i as int].1@));
            assert(string_views(entries@) =~= before.push(entries@[i as int]@));
            assert(string_views(entries@) =~= Seq::new((i + 1) as nat, |k: int| article_entry(k as nat, av[k].0, av[k].1)));
        }
        i += 1;
    }
    crate::text::join_strings(&entries, "\n\n")
}

/// The request to find at most `breadth` sub-topics of `original_query` in the articles.
pub open spec fn extract_prompt_spec(original_query: Seq<char>, context: Seq<char>, breadth: u32) -> Seq<char> {
    "You are researching the following topic:\n"@ + original_query + "\n\nYou have collected these articles:\n"@
        + context
        + "\n\nBased on the articles above, identify the most important sub-topics or angles that were mentioned but not fully covered.\n\nReturn ONLY a JSON array of at most "@
        + decimal(breadth as nat)
        + " search query strings. Example:\n[\"sub-topic query 1\", \"sub-topic query 2\"]\n\nDo not include any explanation or extra text."@
}

/// The request to find at most `breadth` sub-topics of `original_query` in the articles.
pub fn extract_prompt(original_query: &str, articles: &Vec<(String, String)>, breadth: u32) -> (s: String)
    ensures
        s@ == extract_prompt_spec(
            original_query@,
            articles_context_spec(articles@.map_values(|a: (String, String)| (a.0@, a.1@))),
            breadth,
        ),
{
    let context = articles_context(articles);
    let a = concat("You are researching the following topic:\n", original_query);
    let b = concat(a.as_str(), "\n\nYou have collected these articles:\n");
    let c = concat(b.as_str(), context.as_str());
    let d = concat(
        c.as_str(),
        "\n\nBased on the articles above, identify the most important sub-topics or angles that were mentioned but not fully covered.\n\nReturn ONLY a JSON array of at most ",
    );
    let e = concat(d.as_str(), decimal_string(breadth as u128).as_str());
    concat(
        e.as_str(),
        " search query strings. Example:\n[\"sub-topic query 1\", \"sub-topic query 2\"]\n\nDo not include any explanation or extra text.",
    )
}

/// What `serde_json::from_str::<Vec<String>>` gives for `text`: the strings, or the message of
/// its error.
pub uninterp spec fn json_string_list(text: Seq<char>) -> Result<Seq<Seq<char>>, Seq<char>>;

/// Calls `serde_json::from_str` for a list of strings.
#[verifier::external_body]
fn parse_string_list(text: &str) -> (r: Result<Vec<String>, String>)
    ensures
        match r {
            Ok(v) => json_string_list(text@) == Ok::<Seq<Seq<char>>, Seq<char>>(string_views(v@)),
            Err(e) => json_string_list(text@) == Err::<Seq<Seq<char>>, Seq<char>>(e@),
        },
{
    serde_json::from_str::<Vec<String>>(text).map_err(|err| err.to_string())
}

/// The queries of a list, trimmed, without the blank ones.
pub open spec fn cleaned(queries: Seq<Seq<char>>) -> Seq<Seq<char>>
    decreases queries.len(),
{
    if queries.len() == 0 {
        Seq::empty()
    } else if trim(queries.last()).len() == 0 {
        cleaned(queries.drop_last())
    } else {
        cleaned(queries.drop_last()).push(trim(queries.last()))
    }
}

/// Reads the model's list of queries: the answer trimmed must be a JSON array of strings,
/// whose items are kept trimmed, without the blank ones; `label` names the list in the error.
pub fn query_list(response_text: &str, label: &str) -> (r: Result<Vec<String>, ToolError>)
    ensures
        match json_string_list(trim(response_text@)) {
            Ok(qs) => r matches Ok(v) && string_views(v@) == cleaned(qs),
            Err(m) => r matches Err(e) && e@ == ToolErrorView::ExecutionFailed(
                "failed to parse "@ + label@ + " JSON: "@ + m,
            ),
        },
{
    let text = trim_str(response_text);
    let queries = match parse_string_list(text.as_str()) {
        Ok(v) => v,
        Err(m) => {
            let a = concat("failed to parse ", label);
            let b = concat(a.as_str(), " JSON: ");
            return Err(ToolError::ExecutionFailed(concat(b.as_str(), m.as_str())));
        },
    };
    let ghost qv = string_views(queries@);
    let mut out: Vec<String> = Vec::new();
    let mut i: usize = 0;
    assert(qv.take(0) =~= Seq::<Seq<char>>::empty());
    assert(string_views(out@) =~= Seq::<Seq<char>>::empty());
    while i < queries.len()
        invariant
            i <= queries.len(),
            qv == string_views(queries@),
            string_views(out@) == cleaned(qv.take(i as int)),
        decreases queries.len() - i,
    {
        let t = trim_str(queries[i].as_str());
        proof {
            assert(qv.take(i + 1).drop_last() =~= qv.take(i as int));
            assert(qv.take(i + 1).last() == queries@[i as int]@);
        }
        if !t.as_str().is_empty() {
            let ghost before = string_views(out@);
            out.push(t);
            assert(string_views(out@) =~= before.push(t@));
        }
        i += 1;
    }
    assert(qv.take(queries.len() as int) =~= qv);
    Ok(out)
}

} // verus!

verus! {

/// What a research run asks to be done next: expand a query with the model, search for a
/// query, find the sub-topics of a query among the current level's results, or nothing (it
/// is over).
pub enum ResearchAction {
    Expand { query: String, breadth: u32 },
    Search { query: String },
    Extract { query: String, breadth: u32 },
    Finished,
}

/// What the level on top waits for.
#[derive(Clone, Copy, PartialEq, Eq, Structural)]
pub enum ResearchPhase {
    Expanding,
    Searching,
    Extracting,
    Recursing,
}

/// One level of the research: its query and depth, the expanded queries and how many were
/// searched, the results gathered, and the sub-topics and how many were researched.
pub struct ResearchFrame<R> {
    query: String,
    depth: u32,
    phase: ResearchPhase,
    expanded: Vec<String>,
    next_search: usize,
    results: Vec<R>,
    subs: Vec<String>,
    next_sub: usize,
}

/// A research run: the stack of levels being researched; a level's results are handed to the
/// level above when it is done, and the first level's results are the run's.
pub struct ResearchRun<R> {
    breadth: u32,
    start_depth: u32,
    frames: Vec<ResearchFrame<R>>,
    finished: Option<Vec<R>>,
}

/// The results held by a stack of levels, from the first level's to the top's.
spec fn stacked_results<R>(frames: Seq<ResearchFrame<R>>) -> Seq<R>
    decreases frames.len(),
{
    if frames.len() == 0 {
        Seq::empty()
    } else {
        stacked_results(frames.drop_last()) + frames.last().results@
    }
}

/// Where finishing the level on top of `frames` leads: to the next sub-topic of the nearest
/// level below it that has one left and may go deeper, or to the end of the run (`None`).
/// The top level's own fields play no part.
spec fn next_after_finish<R>(frames: Seq<ResearchFrame<R>>) -> Option<Seq<char>>
    decreases frames.len(),
{
    if frames.len() <= 1 {
        None
    } else {
        let parent = frames[frames.len() - 2];
        let next = if parent.next_sub < parent.subs@.len() {
            parent.next_sub + 1
        } else {
            parent.subs@.len() as int
        };
        if next < parent.subs@.len() && parent.depth > 0 {
            Some(parent.subs@[next]@)
        } else {
            next_after_finish(frames.drop_last())
        }
    }
}

proof fn lemma_next_ignores_top<R>(below: Seq<ResearchFrame<R>>, a: ResearchFrame<R>, b: ResearchFrame<R>)
    ensures
        next_after_finish(below.push(a)) == next_after_finish(below.push(b)),
{
    assert(below.push(a).drop_last() =~= below);
    assert(below.push(b).drop_last() =~= below);
    if below.len() > 0 {
        assert(below.push(a)[below.len() - 1] == below.push(b)[below.len() - 1]);
    }
}

proof fn lemma_stacked_push<R>(frames: Seq<ResearchFrame<R>>, f: ResearchFrame<R>)
    ensures
        stacked_results(frames.push(f)) == stacked_results(frames) + f.results@,
{
    assert(frames.push(f).drop_last() =~= frames);
}

impl<R> ResearchRun<R> {
    /// The depths of the levels on the stack, from the first.
    pub closed spec fn depths(&self) -> Seq<u32> {
        self.frames@.map_values(|f: ResearchFrame<R>| f.depth)
    }

    /// What each level waits for, from the first.
    pub closed spec fn phases(&self) -> Seq<ResearchPhase> {
        self.frames@.map_values(|f: ResearchFrame<R>| f.phase)
    }

    /// The depth the run was asked for.
    pub closed spec fn requested_depth(&self) -> u32 {
        self.start_depth
    }

    pub closed spec fn is_finished(&self) -> bool {
        self.finished is Some
    }

    /// Every result gathered so far, in the order the searches gave them: the first level's,
    /// then each deeper level's; the run's results once it is over.
    pub closed spec fn gathered(&self) -> Seq<R> {
        match self.finished {
            Some(v) => v@,
            None => stacked_results(self.frames@),
        }
    }

    /// The expanded queries of the level on top that are not searched yet, the one being
    /// searched first.
    pub closed spec fn queued(&self) -> Seq<Seq<char>> {
        let n = self.frames@.len();
        if n == 0 {
            Seq::empty()
        } else {
            let top = self.frames@[n - 1];
            top.expanded@.skip(top.next_search as int).map_values(|q: String| q@)
        }
    }

    /// The results gathered by the level on top so far.
    pub closed spec fn level_results(&self) -> Seq<R> {
        self.frames@.last().results@
    }

    /// The query of the level on top.
    pub closed spec fn top_query(&self) -> Seq<char> {
        self.frames@.last().query@
    }

    /// The sub-topic that is researched next once the level on top is done, if any.
    pub closed spec fn next_subtopic(&self) -> Option<Seq<char>> {
        next_after_finish(self.frames@)
    }

    /// The sub-topics the model named for the level below the top, which the top level is
    /// researching one of (none when the top level is the first).
    pub closed spec fn parent_subtopics(&self) -> Seq<Seq<char>> {
        let n = self.frames@.len();
        if n >= 2 {
            self.frames@[n - 2].subs@.map_values(|q: String| q@)
        } else {
            Seq::empty()
        }
    }

    /// The position, among [`Self::parent_subtopics`], of the sub-topic the top level researches.
    pub closed spec fn parent_position(&self) -> int {
        let n = self.frames@.len();
        if n >= 2 {
            self.frames@[n - 2].next_sub as int
        } else {
            0
        }
    }

    /// How many queries or sub-topics each request asks the model for.
    pub closed spec fn breadth(&self) -> u32 {
        self.breadth
    }

    /// A searching level has a next query to search.
    pub closed spec fn search_pending(&self) -> bool {
        let n = self.frames@.len();
        n > 0 && self.frames@[n - 1].next_search < self.frames@[n - 1].expanded@.len()
    }

    /// The run's invariant: level `k` researches at depth `requested - k`, so the stack never
    /// holds more than `requested + 1` levels; every level below the top is researching a
    /// sub-topic; a searching top level has a query left; a run is finished exactly when no
    /// level is left.
    pub open spec fn wf(&self) -> bool {
        &&& self.depths().len() == self.phases().len()
        &&& self.depths().len() <= self.requested_depth() + 1
        &&& forall|k: int| 0 <= k < self.depths().len() ==> #[trigger] self.depths()[k] == self.requested_depth() - k
        &&& forall|k: int| 0 <= k < self.phases().len() - 1 ==> #[trigger] self.phases()[k] == ResearchPhase::Recursing
        &&& (self.phases().len() > 0 && self.phases().last() == ResearchPhase::Searching ==> self.search_pending())
        &&& (self.is_finished() <==> self.depths().len() == 0)
    }

    /// What the level on top waits for, or `None` when the run is over.
    pub fn awaiting(&self) -> (p: Option<ResearchPhase>)
        requires
            self.wf(),
        ensures
            match p {
                Some(ph) => self.phases().len() > 0 && ph == self.phases().last(),
                None => self.phases().len() == 0,
            },
    {
        let n = self.frames.len();
        if n == 0 {
            None
        } else {
            assert(self.phases()[n - 1] == self.frames@[n - 1].phase);
            Some(self.frames[n - 1].phase)
        }
    }

    /// Starts researching `query` to `depth` levels of sub-topics with `breadth` queries each;
    /// the first thing to do is to expand the query.
    pub fn start(query: String, depth: u32, breadth: u32) -> (r: (Self, ResearchAction))
        ensures
            r.0.wf(),
            r.0.requested_depth() == depth,
            r.0.depths() == seq![depth],
            r.0.phases() == seq![ResearchPhase::Expanding],
            r.1 matches ResearchAction::Expand { query: q, breadth: b } && q@ == query@ && b == breadth,
            r.0.gathered() == Seq::<R>::empty(),
            r.0.top_query() == query@,
            r.0.breadth() == breadth,
    {
        let action = ResearchAction::Expand { query: query.clone(), breadth };
        let frame = ResearchFrame {
            query,
            depth,
            phase: ResearchPhase::Expanding,
            expanded: Vec::new(),
            next_search: 0,
            results: Vec::new(),
            subs: Vec::new(),
            next_sub: 0,
        };
        let mut frames: Vec<ResearchFrame<R>> = Vec::new();
        frames.push(frame);
        let run = Self { breadth, start_depth: depth, frames, finished: None };
        proof {
            lemma_stacked_push(Seq::<ResearchFrame<R>>::empty(), run.frames@[0]);
            assert(run.frames@ =~= Seq::<ResearchFrame<R>>::empty().push(run.frames@[0]));
            assert(run.gathered() =~= Seq::<R>::empty());
        }
        assert(run.depths() =~= seq![depth]);
        assert(run.phases() =~= seq![ResearchPhase::Expanding]);
        (run, action)
    }

    /// The results gathered by the level on top, which a sub-topic request shows.
    pub fn current_results(&self) -> (r: &Vec<R>)
        requires
            self.wf(),
            !self.is_finished(),
        ensures
            r@ == self.level_results(),
    {
        let n = self.frames.len();
        &self.frames[n - 1].results
    }

    /// The results of a finished run.
    pub fn take_results(&mut self) -> (r: Option<Vec<R>>)
        ensures
            r is Some <==> old(self).is_finished(),
            r matches Some(v) ==> v@ == old(self).gathered(),
            final(self).depths() == old(self).depths(),
            final(self).requested_depth() == old(self).requested_depth(),
    {
        let mut out: Option<Vec<R>> = None;
        std::mem::swap(&mut out, &mut self.finished);
        out
    }

    /// The level on top is done: its results go to the level above, which goes on with its
    /// next sub-topic, or finishes in turn; the first level's results finish the run.
    fn finish_top(&mut self) -> (a: ResearchAction)
        requires
            old(self).wf(),
            !old(self).is_finished(),
        ensures
            final(self).wf(),
            final(self).requested_depth() == old(self).requested_depth(),
            final(self).gathered() == old(self).gathered(),
            final(self).breadth() == old(self).breadth(),
            a is Finished <==> final(self).depths().len() == 0,
            a matches ResearchAction::Expand { breadth: b, .. } ==> b == old(self).breadth() && final(self).phases().last() == ResearchPhase::Expanding,
            a is Finished || a is Expand,
            match old(self).next_subtopic() {
                Some(q) => a matches ResearchAction::Expand { query: x, .. } && x@ == q,
                None => a is Finished,
            },
            old(self).depths().len() >= 2 && old(self).parent_position() + 1 < old(self).parent_subtopics().len()
                ==> final(self).parent_subtopics() == old(self).parent_subtopics() && final(self).parent_position()
                == old(self).parent_position() + 1 && final(self).top_query() == old(self).parent_subtopics()[old(
                self,
            ).parent_position() + 1],
    {
        loop
            invariant
                self.frames@.len() < old(self).frames@.len() || self.frames@ == old(self).frames@,
                self.frames@.len() < old(self).frames@.len() ==> !(old(self).depths().len() >= 2
                    && old(self).parent_position() + 1 < old(self).parent_subtopics().len()),
                self.depths().len() == self.phases().len(),
                self.depths().len() <= self.requested_depth() + 1,
                forall|k: int| 0 <= k < self.depths().len() ==> #[trigger] self.depths()[k] == self.requested_depth() - k,
                forall|k: int| 0 <= k < self.phases().len() - 1 ==> #[trigger] self.phases()[k] == ResearchPhase::Recursing,
                self.depths().len() > 0,
                !self.is_finished(),
                self.requested_depth() == old(self).requested_depth(),
                stacked_results(self.frames@) == old(self).gathered(),
                self.breadth == old(self).breadth,
                next_after_finish(self.frames@) == next_after_finish(old(self).frames@),
            decreases self.frames.len(),
        {
            let ghost ds = self.depths();
            let ghost ps = self.phases();
            let ghost fr = self.frames@;
            let frame = self.frames.pop().unwrap();
            proof {
                assert(self.depths() =~= ds.drop_last());
                assert(self.phases() =~= ps.drop_last());
            }
            if self.frames.len() == 0 {
                proof {
                    assert(fr =~= Seq::<ResearchFrame<R>>::empty().push(frame));
                    lemma_stacked_push(Seq::<ResearchFrame<R>>::empty(), frame);
                    assert(stacked_results(fr) =~= frame.results@);
                }
                self.finished = Some(frame.results);
                return ResearchAction::Finished;
            }
            let ghost before_parent = self.frames@;
            let mut parent = self.frames.pop().unwrap();
            let ghost p0 = parent;
            proof {
                assert(fr[fr.len() - 2] == p0);
                assert(fr.drop_last() =~= self.frames@.push(p0));
                assert(self.depths() =~= ds.drop_last().drop_last());
                assert(self.phases() =~= ps.drop_last().drop_last());
                assert(ps[ps.len() - 2] == before_parent[before_parent.len() - 1].phase);
                assert(parent.phase == ResearchPhase::Recursing);
            }
            let ghost rest = self.frames@;
            let ghost parent_before = parent.results@;
            let mut child_results = frame.results;
            parent.results.append(&mut child_results);
            proof {
                assert(rest =~= fr.drop_last().drop_last());
                assert(stacked_results(fr.drop_last()) == stacked_results(rest) + parent_before);
                assert(stacked_results(rest) + parent.results@ =~= stacked_results(rest) + parent_before
                    + frame.results@);
            }
            parent.next_sub = if parent.next_sub < parent.subs.len() {
                parent.next_sub + 1
            } else {
                parent.subs.len()
            };
            if parent.next_sub < parent.subs.len() && parent.depth > 0 {
                let q = parent.subs[parent.next_sub].clone();
                let child_depth = parent.depth - 1;
                self.frames.push(parent);
                let child = ResearchFrame {
                    query: q.clone(),
                    depth: child_depth,
                    phase: ResearchPhase::Expanding,
                    expanded: Vec::new(),
                    next_search: 0,
                    results: Vec::new(),
                    subs: Vec::new(),
                    next_sub: 0,
                };
                self.frames.push(child);
                proof {
                    lemma_stacked_push(rest, parent);
                    lemma_stacked_push(rest.push(parent), child);
                    assert(self.frames@ =~= rest.push(parent).push(child));
                    assert(self.frames@[self.frames@.len() - 2] == parent);
                    assert(self.frames@.last() == child);
                    if fr == old(self).frames@ {
                        assert(old(self).frames@[old(self).frames@.len() - 2] == p0);
                    }
                    assert(child.results@ =~= Seq::<R>::empty());
                    assert(stacked_results(self.frames@) =~= stacked_results(rest.push(parent)));
                    assert(self.depths() =~= ds.drop_last().drop_last().push(ds[ds.len() - 2]).push(child_depth));
                    assert(self.phases() =~= ps.drop_last().drop_last().push(ResearchPhase::Recursing).push(
                        ResearchPhase::Expanding,
                    ));
                }
                return ResearchAction::Expand { query: q, breadth: self.breadth };
            }
            self.frames.push(parent);
            proof {
                if fr == old(self).frames@ {
                    assert(old(self).frames@[old(self).frames@.len() - 2] == p0);
                    assert(ds[ds.len() - 2] == p0.depth);
                    assert(p0.depth > 0);
                }
                lemma_stacked_push(rest, parent);
                assert(self.frames@ =~= rest.push(parent));
                lemma_next_ignores_top(rest, parent, p0);
                assert(self.depths() =~= ds.drop_last());
                assert(self.phases() =~= ps.drop_last().drop_last().push(ResearchPhase::Recursing));
            }
        }
    }

    /// The model expanded the query of the level on top into `queries`: they are searched in
    /// order, and then the level's sub-topics are asked for.
    pub fn on_expanded(&mut self, queries: Vec<String>) -> (a: ResearchAction)
        requires
            old(self).wf(),
            old(self).phases().len() > 0,
            old(self).phases().last() == ResearchPhase::Expanding,
        ensures
            final(self).wf(),
            final(self).requested_depth() == old(self).requested_depth(),
            final(self).depths() == old(self).depths(),
            queries@.len() > 0 ==> (a matches ResearchAction::Search { query: q } && q@ == queries@[0]@),
            queries@.len() == 0 ==> (a matches ResearchAction::Extract { query: q, breadth: b } && q@ == old(self).top_query() && b == old(self).breadth()),
            final(self).gathered() == old(self).gathered(),
            final(self).queued() == queries@.map_values(|q: String| q@),
            a is Search ==> final(self).phases() == old(self).phases().drop_last().push(ResearchPhase::Searching),
            a is Extract ==> final(self).phases() == old(self).phases().drop_last().push(ResearchPhase::Extracting),
            final(self).level_results() == old(self).level_results(),
            final(self).top_query() == old(self).top_query(),
            final(self).breadth() == old(self).breadth(),
    {
        let ghost ds = self.depths();
        let ghost ps = self.phases();
        let ghost fr = self.frames@;
        let mut frame = self.frames.pop().unwrap();
        let has_query = queries.len() > 0;
        let first = if has_query {
            Some(queries[0].clone())
        } else {
            None
        };
        frame.expanded = queries;
        frame.next_search = 0;
        frame.phase = if has_query {
            ResearchPhase::Searching
        } else {
            ResearchPhase::Extracting
        };
        let q = frame.query.clone();
        let ghost rest = self.frames@;
        self.frames.push(frame);
        proof {
            lemma_stacked_push(rest, frame);
            assert(self.frames@ =~= rest.push(frame));
            assert(frame.expanded@.skip(0) =~= frame.expanded@);
            assert(self.depths() =~= ds);
            assert(self.phases() =~= ps.drop_last().push(self.frames@.last().phase));
        }
        match first {
            Some(f) => ResearchAction::Search { query: f },
            None => ResearchAction::Extract { query: q, breadth: self.breadth },
        }
    }

    /// The search for the next expanded query gave `results`: they are kept, and the next
    /// query is searched, or the level's sub-topics are asked for.
    pub fn on_searched(&mut self, results: Vec<R>) -> (a: ResearchAction)
        requires
            old(self).wf(),
            old(self).phases().len() > 0,
            old(self).phases().last() == ResearchPhase::Searching,
        ensures
            final(self).wf(),
            final(self).requested_depth() == old(self).requested_depth(),
            final(self).depths() == old(self).depths(),
            a is Search || a is Extract,
            final(self).gathered() == old(self).gathered() + results@,
            final(self).level_results() == old(self).level_results() + results@,
            final(self).queued() == old(self).queued().drop_first(),
            a is Search ==> final(self).phases() == old(self).phases(),
            a is Extract ==> final(self).phases() == old(self).phases().drop_last().push(ResearchPhase::Extracting),
            final(self).queued().len() > 0 ==> (a matches ResearchAction::Search { query: q } && q@ == final(self).queued()[0]),
            final(self).queued().len() == 0 ==> (a matches ResearchAction::Extract { query: q, breadth: b } && q@
                == old(self).top_query() && b == old(self).breadth()),
            final(self).top_query() == old(self).top_query(),
            final(self).breadth() == old(self).breadth(),
    {
        let ghost ds = self.depths();
        let ghost ps = self.phases();
        let ghost fr = self.frames@;
        let ghost old_queued = self.queued();
        let mut frame = self.frames.pop().unwrap();
        let ghost rest = self.frames@;
        let ghost results_before = frame.results@;
        let ghost added = results@;
        let mut more = results;
        frame.results.append(&mut more);
        if frame.next_search < frame.expanded.len() {
            frame.next_search = frame.next_search + 1;
        }
        let action = if frame.next_search < frame.expanded.len() {
            ResearchAction::Search { query: frame.expanded[frame.next_search].clone() }
        } else {
            frame.phase = ResearchPhase::Extracting;
            ResearchAction::Extract { query: frame.query.clone(), breadth: self.breadth }
        };
        self.frames.push(frame);
        proof {
            lemma_stacked_push(rest, frame);
            assert(self.frames@ =~= rest.push(frame));
            assert(stacked_results(self.frames@) =~= stacked_results(fr) + added);
            assert(self.queued() =~= old_queued.drop_first());
            assert(self.depths() =~= ds);
            assert(self.phases() =~= ps.drop_last().push(self.frames@.last().phase));
        }
        action
    }

    /// The model named `subs` as the sub-topics of the level on top: a level at depth 0 is
    /// done; another researches each sub-topic one level deeper, in order, and is done after
    /// the last.
    pub fn on_extracted(&mut self, subs: Vec<String>) -> (a: ResearchAction)
        requires
            old(self).wf(),
            old(self).phases().len() > 0,
            old(self).phases().last() == ResearchPhase::Extracting,
        ensures
            final(self).wf(),
            final(self).requested_depth() == old(self).requested_depth(),
            old(self).depths().last() > 0 && subs@.len() > 0 ==> (a matches ResearchAction::Expand { query: q, .. }
                && q@ == subs@[0]@ && final(self).depths() == old(self).depths().push(
                (old(self).depths().last() - 1) as u32,
            )),
            final(self).gathered() == old(self).gathered(),
            !(old(self).depths().last() > 0 && subs@.len() > 0) ==> match old(self).next_subtopic() {
                Some(q) => a matches ResearchAction::Expand { query: x, .. } && x@ == q,
                None => a is Finished,
            },
            a is Finished <==> final(self).depths().len() == 0,
            a is Finished || a is Expand,
            a matches ResearchAction::Expand { breadth: b, .. } ==> b == old(self).breadth() && final(self).phases().last() == ResearchPhase::Expanding,
            old(self).depths().last() > 0 && subs@.len() > 0 ==> final(self).parent_subtopics() == subs@.map_values(
                |q: String| q@,
            ) && final(self).parent_position() == 0 && final(self).top_query() == subs@[0]@,
            !(old(self).depths().last() > 0 && subs@.len() > 0) && old(self).depths().len() >= 2
                && old(self).parent_position() + 1 < old(self).parent_subtopics().len() ==> (a matches ResearchAction::Expand {
                query: x,
                ..
            } && x@ == old(self).parent_subtopics()[old(self).parent_position() + 1] && final(self).parent_subtopics()
                == old(self).parent_subtopics() && final(self).parent_position() == old(self).parent_position() + 1
                && final(self).top_query() == x@),
    {
        let n = self.frames.len();
        assert(self.depths()[n - 1] == self.frames@[n - 1].depth);
        if self.frames[n - 1].depth == 0 || subs.len() == 0 {
            proof {
                if old(self).depths().len() >= 2 && old(self).parent_position() + 1 < old(self).parent_subtopics().len() {
                    law_subtopics_researched_in_order(*old(self));
                }
            }
            return self.finish_top();
        }
        let ghost ds = self.depths();
        let ghost ps = self.phases();
        let ghost fr = self.frames@;
        let mut frame = self.frames.pop().unwrap();
        let ghost rest = self.frames@;
        let q = subs[0].clone();
        let child_depth = frame.depth - 1;
        frame.subs = subs;
        frame.next_sub = 0;
        frame.phase = ResearchPhase::Recursing;
        self.frames.push(frame);
        let child = ResearchFrame {
            query: q.clone(),
            depth: child_depth,
            phase: ResearchPhase::Expanding,
            expanded: Vec::new(),
            next_search: 0,
            results: Vec::new(),
            subs: Vec::new(),
            next_sub: 0,
        };
        self.frames.push(child);
        proof {
            lemma_stacked_push(rest, frame);
            lemma_stacked_push(rest.push(frame), child);
            assert(self.frames@ =~= rest.push(frame).push(child));
            assert(child.results@ =~= Seq::<R>::empty());
            assert(stacked_results(self.frames@) =~= stacked_results(fr));
            assert(self.depths() =~= ds.push(child_depth));
            assert(self.phases() =~= ps.drop_last().push(ResearchPhase::Recursing).push(ResearchPhase::Expanding));
            assert(self.frames@[self.frames@.len() - 2] == frame);
            assert(self.frames@.last() == child);
        }
        ResearchAction::Expand { query: q, breadth: self.breadth }
    }
}

/// Every sub-topic the model names for a level is researched, in order: while a level below
/// the top has sub-topics left after the one being researched, finishing the top level leads
/// to researching the next of them, one level deeper, and not to the end of the run or of the
/// parent level.
pub proof fn law_subtopics_researched_in_order<R>(run: ResearchRun<R>)
    requires
        run.wf(),
        run.depths().len() >= 2,
        run.parent_position() + 1 < run.parent_subtopics().len(),
    ensures
        run.next_subtopic() == Some(run.parent_subtopics()[run.parent_position() + 1]),
{
    let n = run.frames@.len();
    assert(run.depths()[n - 2] == run.frames@[n - 2].depth);
    assert(run.frames@[n - 2].depth > 0);
}

/// A run never holds more levels than its requested depth and one: research stops at depth 0.
pub proof fn law_research_depth_is_bounded<R>(run: ResearchRun<R>)
    requires
        run.wf(),
    ensures
        run.depths().len() <= run.requested_depth() + 1,
        forall|k: int| 0 <= k < run.depths().len() ==> #[trigger] run.depths()[k] + k == run.requested_depth(),
{
}

} // verus!

use vstd::prelude::*;

verus! {

#[verifier::external_type_specification]
#[verifier::external_body]
pub struct ExRegex(regex::Regex);

#[verifier::external_type_specification]
#[verifier::external_body]
pub struct ExGlobPattern(glob::Pattern);

/// What `regex::Regex::new` gives for `pattern`: `Ok` when it compiles, else the message of
/// its error.
pub uninterp spec fn regex_compile(pattern: Seq<char>) -> Result<(), Seq<char>>;

/// What `Regex::is_match` gives for the expression compiled from `pattern` on `haystack`.
pub uninterp spec fn regex_is_match(pattern: Seq<char>, haystack: Seq<char>) -> bool;

/// What `glob::Pattern::new` gives for `pattern`: `Ok` when it parses, else the message of
/// its error.
pub uninterp spec fn glob_compile(pattern: Seq<char>) -> Result<(), Seq<char>>;

/// What `Pattern::matches_with` gives for the pattern parsed from `pattern` on `path`, with the
/// three fields of `MatchOptions`.
pub uninterp spec fn glob_matches(
    pattern: Seq<char>,
    path: Seq<char>,
    case_sensitive: bool,
    literal_separator: bool,
    literal_leading_dot: bool,
) -> bool;

/// A regular expression together with the text it was compiled from.
pub struct CompiledRegex {
    source: String,
    compiled: regex::Regex,
}

impl View for CompiledRegex {
    type V = Seq<char>;

    closed spec fn view(&self) -> Seq<char> {
        self.source@
    }
}

/// A glob pattern together with the text it was parsed from.
pub struct CompiledGlob {
    source: String,
    compiled: glob::Pattern,
}

impl View for CompiledGlob {
    type V = Seq<char>;

    closed spec fn view(&self) -> Seq<char> {
        self.source@
    }
}

/// Compiles `pattern` with `regex::Regex::new`, keeping its text beside the result.
#[verifier::external_body]
pub(crate) fn compile_regex(pattern: &str) -> (r: Result<CompiledRegex, String>)
    ensures
        match r {
            Ok(re) => re@ == pattern@ && regex_compile(pattern@) == Ok::<(), Seq<char>>(()),
            Err(e) => regex_compile(pattern@) == Err::<(), Seq<char>>(e@),
        },
{
    match regex::Regex::new(pattern) {
        Ok(compiled) => Ok(CompiledRegex { source: pattern.to_owned(), compiled }),
        Err(err) => Err(err.to_string()),
    }
}

/// Calls `Regex::is_match` on `haystack`.
#[verifier::external_body]
pub(crate) fn regex_matches(re: &CompiledRegex, haystack: &str) -> (b: bool)
    ensures
        b == regex_is_match(re@, haystack@),
{
    re.compiled.is_match(haystack)
}

/// Parses `pattern` with `glob::Pattern::new`, keeping its text beside the result.
#[verifier::external_body]
pub(crate) fn compile_glob(pattern: &str) -> (r: Result<CompiledGlob, String>)
    ensures
        match r {
            Ok(g) => g@ == pattern@ && glob_compile(pattern@) == Ok::<(), Seq<char>>(()),
            Err(e) => glob_compile(pattern@) == Err::<(), Seq<char>>(e@),
        },
{
    match glob::Pattern::new(pattern) {
        Ok(compiled) => Ok(CompiledGlob { source: pattern.to_owned(), compiled }),
        Err(err) => Err(err.to_string()),
    }
}

/// Calls `Pattern::matches_with` on `path` with the given `MatchOptions` fields.
#[verifier::external_body]
pub(crate) fn glob_matches_path(
    g: &CompiledGlob,
    path: &str,
    case_sensitive: bool,
    literal_separator: bool,
    literal_leading_dot: bool,
) -> (b: bool)
    ensures
        b == glob_matches(g@, path@, case_sensitive, literal_separator, literal_leading_dot),
{
    let options = glob::MatchOptions {
        case_sensitive,
        require_literal_separator: literal_separator,
        require_literal_leading_dot: literal_leading_dot,
    };
    g.compiled.matches_with(path, options)
}

} // verus!

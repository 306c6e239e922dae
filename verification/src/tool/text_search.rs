use vstd::prelude::*;
use vstd::utf8::*;

use crate::error::{invalid_arguments, ToolError, ToolErrorView};
use crate::model::ToolPermissionMode;
use crate::path::{
    has_parent_component, has_parent_component_exec, is_absolute, is_absolute_exec, path_has_base,
    path_starts_with, relative_path, relative_path_spec,
};
use crate::pattern::{
    compile_glob, compile_regex, glob_compile, glob_matches, glob_matches_path, regex_compile,
    regex_is_match, regex_matches, CompiledGlob, CompiledRegex,
};
use crate::text::{has_zero_byte, lines, split_lines, string_views, trim, trim_str, utf8_to_string};

verus! {

/// Most matching lines that one search returns.
pub const MAX_MATCHES: usize = 200;

/// Files larger than this many bytes are not searched.
pub const MAX_FILE_BYTES: u64 = 1_000_000;

/// Searches UTF-8 workspace files for lines that match a regular expression.
#[derive(Clone)]
pub struct TextSearchTool {
    workspace_root: String,
}

impl TextSearchTool {
    pub fn new(workspace_root: String) -> (t: Self)
        ensures
            t.workspace_root() == workspace_root@,
    {
        Self { workspace_root }
    }

    pub closed spec fn workspace_root(&self) -> Seq<char> {
        self.workspace_root@
    }

    /// The workspace root that searched paths are taken from.
    pub fn workspace_root_path(&self) -> (s: &str)
        ensures
            s@ == self.workspace_root(),
    {
        self.workspace_root.as_str()
    }

    pub fn name(&self) -> (s: &'static str)
        ensures
            s@ == "text_search"@,
    {
        "text_search"
    }

    pub fn description(&self) -> (s: &'static str)
        ensures
            s@ == "Search UTF-8 workspace files for lines that match a regular expression."@,
    {
        "Search UTF-8 workspace files for lines that match a regular expression."
    }

    pub fn default_permission(&self) -> (m: ToolPermissionMode)
        ensures
            m == ToolPermissionMode::Allow,
    {
        ToolPermissionMode::Allow
    }
}

/// One matching line: the file's workspace-relative path, the line's number (from 1) and its text.
pub struct TextSearchMatch {
    pub path: String,
    pub line: usize,
    pub text: String,
}

/// The abstract value of a match.
pub open spec fn match_view(m: TextSearchMatch) -> (Seq<char>, nat, Seq<char>) {
    (m.path@, m.line as nat, m.text@)
}

/// The abstract values of a list of matches.
pub open spec fn match_views(v: Seq<TextSearchMatch>) -> Seq<(Seq<char>, nat, Seq<char>)> {
    v.map_values(|m: TextSearchMatch| match_view(m))
}

/// The search expression of a call: the trimmed query, which must not be empty and must compile.
pub open spec fn query_spec(query: Seq<char>) -> Result<Seq<char>, ToolErrorView> {
    let q = trim(query);
    if q.len() == 0 {
        Err(ToolErrorView::InvalidArguments("query must not be empty"@))
    } else {
        match regex_compile(q) {
            Ok(()) => Ok(q),
            Err(message) => Err(ToolErrorView::InvalidArguments(message)),
        }
    }
}

/// Compiles the query of a call.
pub fn prepare_query(query: &str) -> (r: Result<CompiledRegex, ToolError>)
    ensures
        match r {
            Ok(re) => query_spec(query@) == Ok::<Seq<char>, ToolErrorView>(re@),
            Err(e) => query_spec(query@) == Err::<Seq<char>, ToolErrorView>(e@),
        },
{
    let q = trim_str(query);
    if q.as_str().is_empty() {
        return Err(invalid_arguments("query must not be empty"));
    }
    match compile_regex(q.as_str()) {
        Ok(re) => Ok(re),
        Err(message) => Err(ToolError::InvalidArguments(message)),
    }
}

/// The file filter of a call: absent or blank means every file; otherwise a relative glob
/// without `..` that parses.
pub open spec fn filter_spec(filter: Option<Seq<char>>) -> Result<Option<Seq<char>>, ToolErrorView> {
    match filter {
        None => Ok(None),
        Some(raw) => {
            let p = trim(raw);
            if p.len() == 0 {
                Ok(None)
            } else if is_absolute(p) {
                Err(ToolErrorView::InvalidArguments("include must be relative"@))
            } else if has_parent_component(p) {
                Err(ToolErrorView::InvalidArguments("include must not contain '..'"@))
            } else {
                match glob_compile(p) {
                    Ok(()) => Ok(Some(p)),
                    Err(message) => Err(ToolErrorView::InvalidArguments(message)),
                }
            }
        },
    }
}

/// The abstract value of an optional filter.
pub open spec fn glob_view(g: Option<CompiledGlob>) -> Option<Seq<char>> {
    match g {
        Some(p) => Some(p@),
        None => None,
    }
}

/// Parses the file filter of a call.
pub fn prepare_filter(filter: Option<&str>) -> (r: Result<Option<CompiledGlob>, ToolError>)
    ensures
        match r {
            Ok(g) => filter_spec(
                match filter {
                    Some(s) => Some(s@),
                    None => None,
                },
            ) == Ok::<Option<Seq<char>>, ToolErrorView>(glob_view(g)),
            Err(e) => filter_spec(
                match filter {
                    Some(s) => Some(s@),
                    None => None,
                },
            ) == Err::<Option<Seq<char>>, ToolErrorView>(e@),
        },
{
    match filter {
        None => Ok(None),
        Some(raw) => {
            let p = trim_str(raw);
            if p.as_str().is_empty() {
                Ok(None)
            } else if is_absolute_exec(p.as_str()) {
                Err(invalid_arguments("include must be relative"))
            } else if has_parent_component_exec(p.as_str()) {
                Err(invalid_arguments("include must not contain '..'"))
            } else {
                match compile_glob(p.as_str()) {
                    Ok(g) => Ok(Some(g)),
                    Err(message) => Err(ToolError::InvalidArguments(message)),
                }
            }
        },
    }
}

/// Whether a filter admits a relative path: glob matching is case-sensitive, and `*` may
/// cross `/` and match a leading dot.
pub open spec fn admitted(filter: Option<Seq<char>>, relative: Seq<char>) -> bool {
    match filter {
        None => true,
        Some(p) => glob_matches(p, relative, true, false, false),
    }
}

/// Which walked path is read: a file whose canonical path lies under the canonical root,
/// that the filter admits and whose size is known and at most [`MAX_FILE_BYTES`]; the result
/// is its relative path, or an error when that path cannot be built.
pub open spec fn candidate_spec(
    root: Seq<char>,
    resolved: Seq<char>,
    is_file: bool,
    filter: Option<Seq<char>>,
    size: Option<u64>,
) -> Result<Option<Seq<char>>, ToolErrorView> {
    if !path_starts_with(resolved, root) || !is_file {
        Ok(None)
    } else {
        match relative_path_spec(root, resolved) {
            Err(e) => Err(e),
            Ok(rel) => if !admitted(filter, rel) {
                Ok(None)
            } else {
                match size {
                    Some(n) => if n <= MAX_FILE_BYTES {
                        Ok(Some(rel))
                    } else {
                        Ok(None)
                    },
                    None => Ok(None),
                }
            },
        }
    }
}

/// Decides whether a walked path is read, and under which relative path it is reported.
pub fn search_candidate(
    root: &str,
    resolved: &str,
    is_file: bool,
    filter: &Option<CompiledGlob>,
    size: Option<u64>,
) -> (r: Result<Option<String>, ToolError>)
    ensures
        match r {
            Ok(Some(rel)) => candidate_spec(root@, resolved@, is_file, glob_view(*filter), size)
                == Ok::<Option<Seq<char>>, ToolErrorView>(Some(rel@)),
            Ok(None) => candidate_spec(root@, resolved@, is_file, glob_view(*filter), size)
                == Ok::<Option<Seq<char>>, ToolErrorView>(None),
            Err(e) => candidate_spec(root@, resolved@, is_file, glob_view(*filter), size)
                == Err::<Option<Seq<char>>, ToolErrorView>(e@),
        },
{
    if !path_has_base(resolved, root) || !is_file {
        return Ok(None);
    }
    let rel = match relative_path(root, resolved) {
        Ok(rel) => rel,
        Err(e) => return Err(e),
    };
    let admits = match filter {
        None => true,
        Some(g) => glob_matches_path(g, rel.as_str(), true, false, false),
    };
    if !admits {
        return Ok(None);
    }
    match size {
        Some(n) => if n <= MAX_FILE_BYTES {
            Ok(Some(rel))
        } else {
            Ok(None)
        },
        None => Ok(None),
    }
}

/// The matching lines among `ls`, in order, each with its number counted from 1.
pub open spec fn line_matches(query: Seq<char>, path: Seq<char>, ls: Seq<Seq<char>>) -> Seq<
    (Seq<char>, nat, Seq<char>),
>
    decreases ls.len(),
{
    if ls.len() == 0 {
        Seq::empty()
    } else {
        let before = line_matches(query, path, ls.drop_last());
        if regex_is_match(query, ls.last()) {
            before.push((path, ls.len(), ls.last()))
        } else {
            before
        }
    }
}

pub proof fn lemma_line_matches_prefix(
    query: Seq<char>,
    path: Seq<char>,
    ls: Seq<Seq<char>>,
    j: int,
)
    requires
        0 <= j <= ls.len(),
    ensures
        line_matches(query, path, ls.take(j)).len() <= line_matches(query, path, ls).len(),
        line_matches(query, path, ls.take(j)) == line_matches(query, path, ls).take(
            line_matches(query, path, ls.take(j)).len() as int,
        ),
    decreases ls.len(),
{
    let all = line_matches(query, path, ls);
    if j == ls.len() {
        assert(ls.take(j) =~= ls);
        assert(all.take(all.len() as int) =~= all);
    } else {
        lemma_line_matches_prefix(query, path, ls.drop_last(), j);
        assert(ls.drop_last().take(j) =~= ls.take(j));
        let part = line_matches(query, path, ls.take(j));
        let before = line_matches(query, path, ls.drop_last());
        assert(part == before.take(part.len() as int));
        if regex_is_match(query, ls.last()) {
            assert(before.push((path, ls.len(), ls.last())).take(part.len() as int) =~= before.take(
                part.len() as int,
            ));
        }
    }
}

/// What searching one file adds: nothing when its bytes hold a zero byte or are not UTF-8;
/// otherwise its matching lines, as many as fit under [`MAX_MATCHES`] after `found`.
/// The flag tells that a matching line did not fit.
pub open spec fn file_search_spec(
    query: Seq<char>,
    path: Seq<char>,
    bytes: Seq<u8>,
    found: Seq<(Seq<char>, nat, Seq<char>)>,
) -> (Seq<(Seq<char>, nat, Seq<char>)>, bool) {
    if bytes.contains(0u8) || !valid_utf8(bytes) {
        (found, false)
    } else {
        let all = line_matches(query, path, lines(decode_utf8(bytes)));
        let room = MAX_MATCHES - found.len();
        if all.len() <= room {
            (found + all, false)
        } else {
            (found + all.take(room), true)
        }
    }
}

/// Searches the content of one file and appends its matching lines to `matches`; returns
/// whether a matching line did not fit.
pub fn search_file(
    query: &CompiledRegex,
    path: &str,
    bytes: Vec<u8>,
    matches: &mut Vec<TextSearchMatch>,
) -> (truncated: bool)
    requires
        old(matches).len() <= MAX_MATCHES,
    ensures
        (match_views(final(matches)@), truncated) == file_search_spec(
            query@,
            path@,
            bytes@,
            match_views(old(matches)@),
        ),
        final(matches).len() <= MAX_MATCHES,
{
    if has_zero_byte(&bytes) {
        return false;
    }
    let ghost raw = bytes@;
    let content = match utf8_to_string(bytes) {
        Some(s) => s,
        None => return false,
    };
    let ls = split_lines(content.as_str());
    let ghost lsv = string_views(ls@);
    let ghost start = match_views(matches@);
    let mut i: usize = 0;
    while i < ls.len()
        invariant
            i <= ls.len(),
            lsv == string_views(ls@),
            lsv == lines(decode_utf8(raw)),
            raw == bytes@,
            start == match_views(old(matches)@),
            !raw.contains(0u8),
            valid_utf8(raw),
            lsv.len() <= content@.len(),
            start.len() <= MAX_MATCHES,
            match_views(matches@) == start + line_matches(query@, path@, lsv.take(i as int)),
            matches.len() <= MAX_MATCHES,
        decreases ls.len() - i,
    {
        let line = ls[i].as_str();
        proof {
            assert(lsv.take(i + 1).drop_last() =~= lsv.take(i as int));
            assert(lsv.take(i + 1).last() == line@);
        }
        if regex_matches(query, line) {
            if matches.len() >= MAX_MATCHES {
                proof {
                    lemma_line_matches_prefix(query@, path@, lsv, i as int);
                    lemma_line_matches_prefix(query@, path@, lsv, i + 1);
                    let all = line_matches(query@, path@, lsv);
                    let part = line_matches(query@, path@, lsv.take(i as int));
                    assert(match_views(matches@).len() == matches@.len());
                    assert(line_matches(query@, path@, lsv.take(i + 1)).len() == part.len() + 1);
                    assert(part.len() == MAX_MATCHES - start.len());
                    assert(all.take(part.len() as int) == part);
                    assert(start + part =~= start + all.take((MAX_MATCHES - start.len()) as int));
                }
                return true;
            }
            let ghost before = match_views(matches@);
            let m = TextSearchMatch { path: path.to_owned(), line: i + 1, text: line.to_owned() };
            matches.push(m);
            assert(match_views(matches@) =~= before.push(match_view(m)));
        }
        i += 1;
    }
    proof {
        assert(lsv.take(ls.len() as int) =~= lsv);
    }
    false
}

} // verus!

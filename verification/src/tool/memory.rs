use vstd::prelude::*;

use crate::error::{execution_failed, invalid_arguments, ToolError, ToolErrorView};
use crate::model::ToolPermissionMode;
use crate::path::{join_path, path_join, path_strip_prefix, strip_path_prefix, backslash_to_slash, replace_backslashes};
use crate::text::{
    chars_of, concat, decimal, decimal_string, ends_with_exec, has_suffix, is_whitespace, trim, trim_str,
};

verus! {

/// Whether `value` parses as a date in `format` with `chrono::NaiveDate::parse_from_str`.
pub uninterp spec fn naive_date_parses(value: Seq<char>, format: Seq<char>) -> bool;

/// Calls `chrono::NaiveDate::parse_from_str` and keeps whether it succeeded.
#[verifier::external_body]
fn parses_as_date(value: &str, format: &str) -> (b: bool)
    ensures
        b == naive_date_parses(value@, format@),
{
    chrono::NaiveDate::parse_from_str(value, format).is_ok()
}

/// Appends notes to long-term memory or to the daily journal, under `memory/` in the workspace.
#[derive(Clone)]
pub struct MemoryWriteTool {
    workspace_root: String,
}

/// Where a note goes.
#[derive(Clone, Copy, PartialEq, Eq, Structural)]
pub enum MemoryTarget {
    Memory,
    Journal,
}

impl MemoryWriteTool {
    /// A memory tool for the canonical workspace root.
    pub fn new(workspace_root: String) -> (t: Self)
        ensures
            t.workspace_root() == workspace_root@,
    {
        Self { workspace_root }
    }

    pub closed spec fn workspace_root(&self) -> Seq<char> {
        self.workspace_root@
    }

    /// The canonical workspace root.
    pub fn workspace_root_path(&self) -> (s: &str)
        ensures
            s@ == self.workspace_root(),
    {
        self.workspace_root.as_str()
    }

    /// The directory that holds the notes: `memory` under the workspace root.
    pub fn memory_root(&self) -> (r: String)
        ensures
            r@ == path_join(self.workspace_root(), "memory"@),
    {
        join_path(self.workspace_root.as_str(), "memory")
    }

    /// The file a note goes to: `MEMORY.md` for long-term memory; for the journal, the file of
    /// `journal_date` (`YYYY-MM-DD`, trimmed) or, when that is absent or blank, of `today`.
    pub fn note_path(&self, target: MemoryTarget, journal_date: Option<&str>, today: &str) -> (r: Result<
        String,
        ToolError,
    >)
        ensures
            match r {
                Ok(p) => note_path_spec(self.workspace_root(), target, match journal_date {
                    Some(d) => Some(d@),
                    None => None,
                }, today@) == Ok::<Seq<char>, ToolErrorView>(p@),
                Err(e) => note_path_spec(self.workspace_root(), target, match journal_date {
                    Some(d) => Some(d@),
                    None => None,
                }, today@) == Err::<Seq<char>, ToolErrorView>(e@),
            },
    {
        let memory_root = self.memory_root();
        match target {
            MemoryTarget::Memory => Ok(join_path(memory_root.as_str(), "MEMORY.md")),
            MemoryTarget::Journal => {
                let date = match journal_date {
                    Some(d) => {
                        let t = trim_str(d);
                        if t.as_str().is_empty() {
                            today.to_owned()
                        } else if parses_as_date(t.as_str(), "%Y-%m-%d") {
                            t
                        } else {
                            return Err(invalid_arguments("journal_date must use YYYY-MM-DD format"));
                        }
                    },
                    None => today.to_owned(),
                };
                let journals = join_path(memory_root.as_str(), "journals");
                let file = concat(date.as_str(), ".md");
                Ok(join_path(journals.as_str(), file.as_str()))
            },
        }
    }

    pub fn name(&self) -> (s: &'static str)
        ensures
            s@ == "memory_write"@,
    {
        "memory_write"
    }

    pub fn description(&self) -> (s: &'static str)
        ensures
            s@ == "Append a concise note to long-term memory or the daily journal."@,
    {
        "Append a concise note to long-term memory or the daily journal."
    }

    /// The path reported for a note file: relative to the workspace root when it lies under
    /// it, `/`-separated.
    pub fn reported_path(&self, path: &str) -> (r: String)
        ensures
            r@ == backslash_to_slash(
                match path_strip_prefix(path@, self.workspace_root()) {
                    Ok(rel) => rel,
                    Err(_) => path@,
                },
            ),
    {
        match strip_path_prefix(path, self.workspace_root.as_str()) {
            Ok(rel) => replace_backslashes(rel.as_str()),
            Err(_) => replace_backslashes(path),
        }
    }
}

/// The file a note goes to, under the workspace root `root`.
pub open spec fn note_path_spec(
    root: Seq<char>,
    target: MemoryTarget,
    journal_date: Option<Seq<char>>,
    today: Seq<char>,
) -> Result<Seq<char>, ToolErrorView> {
    let memory_root = path_join(root, "memory"@);
    match target {
        MemoryTarget::Memory => Ok(path_join(memory_root, "MEMORY.md"@)),
        MemoryTarget::Journal => {
            let date: Result<Seq<char>, ToolErrorView> = match journal_date {
                Some(d) => if trim(d).len() == 0 {
                    Ok(today)
                } else if naive_date_parses(trim(d), "%Y-%m-%d"@) {
                    Ok(trim(d))
                } else {
                    Err(ToolErrorView::InvalidArguments("journal_date must use YYYY-MM-DD format"@))
                },
                None => Ok(today),
            };
            match date {
                Ok(day) => Ok(path_join(path_join(memory_root, "journals"@), day + ".md"@)),
                Err(e) => Err(e),
            }
        },
    }
}

/// The note of a call: its content trimmed, which must not be empty.
pub fn note_content(content: &str) -> (r: Result<String, ToolError>)
    ensures
        trim(content@).len() == 0 ==> (r matches Err(e) && e@ == ToolErrorView::InvalidArguments(
            "content must not be empty"@,
        )),
        trim(content@).len() > 0 ==> (r matches Ok(s) && s@ == trim(content@)),
{
    let t = trim_str(content);
    if t.as_str().is_empty() {
        Err(invalid_arguments("content must not be empty"))
    } else {
        Ok(t)
    }
}

/// What goes between the existing file and a new note: nothing when the file is blank or
/// already ends with an empty line, a newline when it ends with one, else an empty line.
pub open spec fn separator_spec(existing: Seq<char>) -> Seq<char> {
    if trim(existing).len() == 0 || has_suffix(existing, seq!['\n', '\n']) {
        Seq::<char>::empty()
    } else if has_suffix(existing, seq!['\n']) {
        seq!['\n']
    } else {
        seq!['\n', '\n']
    }
}

/// The text appended for a note: the separator, the note and a newline.
pub open spec fn entry_spec(existing: Seq<char>, content: Seq<char>) -> Seq<char> {
    separator_spec(existing) + content + seq!['\n']
}

/// The text to append to a note file holding `existing` for the note `content`.
pub fn note_entry(existing: &str, content: &str) -> (r: String)
    ensures
        r@ == entry_spec(existing@, content@),
{
    let e = chars_of(existing);
    let blank = trim_str(existing).as_str().is_empty();
    let two: Vec<char> = vec!['\n', '\n'];
    let one: Vec<char> = vec!['\n'];
    let mut r = String::new();
    if blank || ends_with_exec(&e, &two) {
    } else if ends_with_exec(&e, &one) {
        crate::text::push_char(&mut r, '\n');
    } else {
        crate::text::push_char(&mut r, '\n');
        crate::text::push_char(&mut r, '\n');
    }
    assert(two@ == seq!['\n', '\n']);
    assert(one@ == seq!['\n']);
    assert(r@ =~= separator_spec(existing@));
    let ghost sep = r@;
    let c = chars_of(content);
    crate::text::push_chars(&mut r, &c);
    crate::text::push_char(&mut r, '\n');
    assert(r@ =~= sep + content@ + seq!['\n']);
    r
}

/// After a note is appended to a file that held something besides whitespace, the file ends
/// with an empty line, the note and a newline: notes stay one blank line apart.
pub proof fn law_notes_stay_separated(existing: Seq<char>, content: Seq<char>)
    requires
        trim(existing).len() > 0,
    ensures
        has_suffix(existing + entry_spec(existing, content), seq!['\n', '\n'] + content + seq!['\n']),
{
    let whole = existing + entry_spec(existing, content);
    let tail = seq!['\n', '\n'] + content + seq!['\n'];
    if has_suffix(existing, seq!['\n', '\n']) {
        let e2 = existing.subrange(existing.len() - 2, existing.len() as int);
        assert(e2 == seq!['\n', '\n']);
        assert(e2[0] == existing[existing.len() - 2] && e2[1] == existing[existing.len() - 1]);
        assert(entry_spec(existing, content) =~= content + seq!['\n']);
        assert(whole.subrange(whole.len() - tail.len(), whole.len() as int) =~= tail);
    } else if has_suffix(existing, seq!['\n']) {
        let e1 = existing.subrange(existing.len() - 1, existing.len() as int);
        assert(e1 == seq!['\n']);
        assert(e1[0] == existing[existing.len() - 1]);
        assert(entry_spec(existing, content) =~= seq!['\n'] + content + seq!['\n']);
        assert(whole.subrange(whole.len() - tail.len(), whole.len() as int) =~= tail);
    } else {
        assert(whole.subrange(whole.len() - tail.len(), whole.len() as int) =~= tail);
    }
}

/// Default number of search results.
pub const DEFAULT_LIMIT: usize = 5;

/// Largest number of search results.
pub const MAX_LIMIT: usize = 20;

/// Searches past journal notes by meaning, through the memory index service `S`.
pub struct MemorySearchTool<S> {
    memory_index_service: S,
}

impl<S> MemorySearchTool<S> {
    pub fn new(memory_index_service: S) -> (t: Self)
        ensures
            t.service() == memory_index_service,
    {
        Self { memory_index_service }
    }

    pub closed spec fn service(&self) -> S {
        self.memory_index_service
    }

    /// The service that answers the searches.
    pub fn memory_index_service(&self) -> (s: &S)
        ensures
            *s == self.service(),
    {
        &self.memory_index_service
    }

    pub fn name(&self) -> (s: &'static str)
        ensures
            s@ == "memory_search"@,
    {
        "memory_search"
    }

    pub fn description(&self) -> (s: &'static str)
        ensures
            s@ == "Search past journal notes by meaning. Use for prior work, decisions, and saved context."@,
    {
        "Search past journal notes by meaning. Use for prior work, decisions, and saved context."
    }

    pub fn default_permission(&self) -> (m: ToolPermissionMode)
        ensures
            m == ToolPermissionMode::Allow,
    {
        ToolPermissionMode::Allow
    }
}

/// The search of a call: the trimmed query, which must not be empty, and the number of
/// results, [`DEFAULT_LIMIT`] when absent, between 1 and [`MAX_LIMIT`].
pub open spec fn memory_search_spec(query: Seq<char>, limit: Option<usize>) -> Result<
    (Seq<char>, nat),
    ToolErrorView,
> {
    let q = trim(query);
    let n: nat = match limit {
        Some(l) => l as nat,
        None => DEFAULT_LIMIT as nat,
    };
    if q.len() == 0 {
        Err(ToolErrorView::InvalidArguments("query must not be empty"@))
    } else if n == 0 || n > MAX_LIMIT {
        Err(ToolErrorView::InvalidArguments("limit must be between 1 and "@ + decimal(MAX_LIMIT as nat)))
    } else {
        Ok((q, n))
    }
}

/// Checks the search of a call.
pub fn check_memory_search(query: &str, limit: Option<usize>) -> (r: Result<(String, usize), ToolError>)
    ensures
        match r {
            Ok((q, n)) => memory_search_spec(query@, limit) == Ok::<(Seq<char>, nat), ToolErrorView>(
                (q@, n as nat),
            ),
            Err(e) => memory_search_spec(query@, limit) == Err::<(Seq<char>, nat), ToolErrorView>(e@),
        },
{
    let q = trim_str(query);
    if q.as_str().is_empty() {
        return Err(invalid_arguments("query must not be empty"));
    }
    let n = match limit {
        Some(l) => l,
        None => DEFAULT_LIMIT,
    };
    if n == 0 || n > MAX_LIMIT {
        return Err(
            ToolError::InvalidArguments(
                concat("limit must be between 1 and ", decimal_string(MAX_LIMIT as u128).as_str()),
            ),
        );
    }
    Ok((q, n))
}

/// The error of a failed search; `cause` is the service's message.
pub fn search_failed(cause: &str) -> (e: ToolError)
    ensures
        e@ == ToolErrorView::ExecutionFailed("failed to search memory: "@ + cause@),
{
    ToolError::ExecutionFailed(concat("failed to search memory: ", cause))
}

} // verus!

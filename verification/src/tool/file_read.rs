use vstd::prelude::*;

use crate::error::{execution_failed, invalid_arguments, ToolError, ToolErrorView};
use crate::model::ToolPermissionMode;
use crate::text::{
    byte_cut, byte_len, chars_of, join, join_strings, lines, prefix_cut_exec, split_lines,
    string_from_range, string_views,
};

verus! {

/// Most lines that one read returns.
pub const MAX_LINES: usize = 10_000;

/// Most bytes of content that one read returns.
pub const MAX_BYTES: usize = 100_000;

/// Reads selected lines of a UTF-8 text file inside the workspace.
#[derive(Clone)]
pub struct FileReadTool {
    workspace_root: String,
}

impl FileReadTool {
    pub fn new(workspace_root: String) -> (t: Self)
        ensures
            t.workspace_root() == workspace_root@,
    {
        Self { workspace_root }
    }

    pub closed spec fn workspace_root(&self) -> Seq<char> {
        self.workspace_root@
    }

    /// The workspace root that read paths are taken from.
    pub fn workspace_root_path(&self) -> (s: &str)
        ensures
            s@ == self.workspace_root(),
    {
        self.workspace_root.as_str()
    }

    pub fn name(&self) -> (s: &'static str)
        ensures
            s@ == "file_read"@,
    {
        "file_read"
    }

    pub fn description(&self) -> (s: &'static str)
        ensures
            s@ == "Read selected lines from a UTF-8 text file inside the workspace."@,
    {
        "Read selected lines from a UTF-8 text file inside the workspace."
    }

    pub fn default_permission(&self) -> (m: ToolPermissionMode)
        ensures
            m == ToolPermissionMode::Allow,
    {
        ToolPermissionMode::Allow
    }
}

/// Refuses a read path that is not a file; `requested` is the path as the call named it.
pub fn check_file(is_file: bool, requested: &str) -> (r: Result<(), ToolError>)
    ensures
        is_file <==> r is Ok,
        r matches Err(e) ==> e@ == ToolErrorView::ExecutionFailed("path is not a file: "@ + requested@),
{
    if is_file {
        Ok(())
    } else {
        Err(ToolError::ExecutionFailed(crate::text::concat("path is not a file: ", requested)))
    }
}

/// The first line a call reads: `start_line`, 1 when absent, and never below 1.
pub open spec fn first_line(start_line: Option<usize>) -> nat {
    match start_line {
        Some(s) => if s >= 1 {
            s as nat
        } else {
            1
        },
        None => 1,
    }
}

/// A read's selected lines, before the byte limit: the lines joined with `\n`, the first
/// line's number, the last selected line's number (one less than the first when none is),
/// and whether the line limit cut the requested range.
pub struct LineSelection {
    pub content: String,
    pub start_line: usize,
    pub end_line: usize,
    pub truncated: bool,
}

/// The selection of a read of `text` from `start_line` to `end_line`: at most [`MAX_LINES`]
/// lines; a range that ends before it starts is refused.
pub open spec fn selection_spec(text: Seq<char>, start_line: Option<usize>, end_line: Option<usize>) -> Result<
    (Seq<char>, nat, nat, bool),
    ToolErrorView,
> {
    let s = first_line(start_line);
    let last_allowed = s + MAX_LINES - 1;
    let requested_end: int = match end_line {
        Some(e) => e as int,
        None => last_allowed,
    };
    if requested_end < s {
        Err(ToolErrorView::InvalidArguments("end_line must be greater than or equal to start_line"@))
    } else {
        let limited_end = if requested_end <= last_allowed {
            requested_end
        } else {
            last_allowed
        };
        let ls = lines(text);
        let hi = if limited_end <= ls.len() {
            limited_end
        } else {
            ls.len() as int
        };
        let selected = if s - 1 < hi {
            ls.subrange(s - 1, hi)
        } else {
            Seq::<Seq<char>>::empty()
        };
        Ok(
            (
                join(selected, "\n"@),
                s,
                if selected.len() == 0 {
                    (s - 1) as nat
                } else {
                    (s + selected.len() - 1) as nat
                },
                requested_end > limited_end,
            ),
        )
    }
}

/// Selects the lines of a read.
pub fn select_lines(text: &str, start_line: Option<usize>, end_line: Option<usize>) -> (r: Result<
    LineSelection,
    ToolError,
>)
    requires
        first_line(start_line) + MAX_LINES <= usize::MAX,
    ensures
        match r {
            Ok(sel) => selection_spec(text@, start_line, end_line) == Ok::<
                (Seq<char>, nat, nat, bool),
                ToolErrorView,
            >((sel.content@, sel.start_line as nat, sel.end_line as nat, sel.truncated)),
            Err(e) => selection_spec(text@, start_line, end_line) == Err::<
                (Seq<char>, nat, nat, bool),
                ToolErrorView,
            >(e@),
        },
{
    let s: usize = match start_line {
        Some(v) => if v >= 1 {
            v
        } else {
            1
        },
        None => 1,
    };
    assert(s == first_line(start_line));
    let last_allowed: usize = s + MAX_LINES - 1;
    let requested_end: usize = match end_line {
        Some(e) => e,
        None => last_allowed,
    };
    if requested_end < s {
        return Err(invalid_arguments("end_line must be greater than or equal to start_line"));
    }
    let limited_end: usize = if requested_end <= last_allowed {
        requested_end
    } else {
        last_allowed
    };
    let ls = split_lines(text);
    let hi: usize = if limited_end <= ls.len() {
        limited_end
    } else {
        ls.len()
    };
    let mut selected: Vec<String> = Vec::new();
    let lo: usize = s - 1;
    if lo < hi {
        let mut i: usize = lo;
        while i < hi
            invariant
                lo <= i <= hi,
                hi <= ls.len(),
                string_views(selected@) == string_views(ls@).subrange(lo as int, i as int),
            decreases hi - i,
        {
            let ghost before = string_views(selected@);
            selected.push(ls[i].clone());
            proof {
                assert(string_views(selected@) =~= before.push(ls@[i as int]@));
                assert(string_views(ls@).subrange(lo as int, i + 1) =~= string_views(ls@).subrange(
                    lo as int,
                    i as int,
                ).push(string_views(ls@)[i as int]));
            }
            i += 1;
        }
    } else {
        assert(string_views(selected@) =~= Seq::<Seq<char>>::empty());
    }
    let content = join_strings(&selected, "\n");
    let end_line_out: usize = if selected.len() == 0 {
        s - 1
    } else {
        s + selected.len() - 1
    };
    Ok(
        LineSelection {
            content,
            start_line: s,
            end_line: end_line_out,
            truncated: requested_end > limited_end,
        },
    )
}

/// Whether cutting `content` at [`MAX_BYTES`] leaves it whole, or cuts on a character
/// boundary (`String::truncate` refuses a cut inside a character).
pub open spec fn cut_on_boundary(content: Seq<char>) -> bool {
    byte_len(content) <= MAX_BYTES || byte_len(content.take(byte_cut(content, MAX_BYTES as nat) as int))
        == MAX_BYTES
}

/// The content a read returns: whole when it fits in [`MAX_BYTES`], else its first
/// [`MAX_BYTES`] bytes; the flag tells that it was cut.
pub open spec fn limited_content(content: Seq<char>) -> (Seq<char>, bool) {
    if byte_len(content) > MAX_BYTES {
        (content.take(byte_cut(content, MAX_BYTES as nat) as int), true)
    } else {
        (content, false)
    }
}

/// Whether [`limit_content`] may cut `content`.
pub fn content_cut_allowed(content: &str) -> (b: bool)
    ensures
        b == cut_on_boundary(content@),
{
    let v = chars_of(content);
    let k = prefix_cut_exec(&v, MAX_BYTES);
    if k == v.len() {
        assert(v@.take(k as int) =~= v@);
        return true;
    }
    let mut bytes: usize = 0;
    let mut i: usize = 0;
    while i < k
        invariant
            i <= k,
            k <= v.len(),
            k == byte_cut(v@, MAX_BYTES as nat),
            byte_len(v@.take(k as int)) <= MAX_BYTES,
            bytes == byte_len(v@.take(i as int)),
            bytes <= MAX_BYTES,
        decreases k - i,
    {
        let w = crate::text::char_width_exec(v[i]);
        proof {
            assert(v@.take(i + 1) =~= v@.take(i as int).push(v@[i as int]));
            crate::text::lemma_byte_len_push(v@.take(i as int), v@[i as int]);
            crate::text::lemma_byte_len_take_mono(v@, i + 1, k as int);
        }
        bytes = bytes + w;
        i += 1;
    }
    proof {
        crate::text::lemma_byte_len_take_mono(v@, k + 1, v@.len() as int);
        assert(v@.take(v@.len() as int) =~= v@);
    }
    bytes == MAX_BYTES
}

/// Cuts a read's content to [`MAX_BYTES`].
pub fn limit_content(content: &str) -> (r: (String, bool))
    requires
        cut_on_boundary(content@),
    ensures
        (r.0@, r.1) == limited_content(content@),
{
    let v = chars_of(content);
    let k = prefix_cut_exec(&v, MAX_BYTES);
    if k == v.len() {
        assert(v@.take(k as int) =~= v@);
        return (crate::text::string_from_chars(&v), false);
    }
    proof {
        crate::text::lemma_byte_len_take_mono(v@, k + 1, v@.len() as int);
        assert(v@.take(v@.len() as int) =~= v@);
    }
    let s = string_from_range(&v, 0, k);
    assert(v@.subrange(0, k as int) =~= v@.take(k as int));
    (s, true)
}

/// The number of lines a read from line `s` to line `e` selects among `count` lines: those
/// from `s` up to `e`, to the [`MAX_LINES`]-th line from `s`, and to the last line, whichever
/// comes first; none when `s` is past the last line.
pub open spec fn selected_count(s: int, e: int, count: int) -> int {
    let last = if e <= s + MAX_LINES - 1 {
        e
    } else {
        s + MAX_LINES - 1
    };
    let last = if last <= count {
        last
    } else {
        count
    };
    if last >= s {
        last - s + 1
    } else {
        0
    }
}

/// A read from line `s >= 1` to line `e >= s` gives the text's lines `s`, `s + 1`, ... (as
/// many as [`selected_count`] says) joined with `\n`, numbered from `s` to the last one
/// selected, and reports truncation exactly when the line limit cut the requested range.
pub proof fn law_reads_select_the_requested_lines(text: Seq<char>, s: usize, e: usize)
    requires
        1 <= s <= e,
    ensures
        selection_spec(text, Some(s), Some(e)) == Ok::<(Seq<char>, nat, nat, bool), ToolErrorView>(
            (
                join(
                    Seq::new(
                        selected_count(s as int, e as int, lines(text).len() as int) as nat,
                        |k: int| lines(text)[s - 1 + k],
                    ),
                    "\n"@,
                ),
                s as nat,
                (s - 1 + selected_count(s as int, e as int, lines(text).len() as int)) as nat,
                e > s + MAX_LINES - 1,
            ),
        ),
{
    let ls = lines(text);
    let n = selected_count(s as int, e as int, ls.len() as int);
    let want = Seq::new(n as nat, |k: int| ls[s - 1 + k]);
    let last_allowed = s + MAX_LINES - 1;
    let limited_end = if e <= last_allowed {
        e as int
    } else {
        last_allowed
    };
    let hi = if limited_end <= ls.len() {
        limited_end
    } else {
        ls.len() as int
    };
    if s - 1 < hi {
        assert(ls.subrange(s - 1, hi) =~= want);
    } else {
        assert(want =~= Seq::<Seq<char>>::empty());
    }
}

/// A read returns at most [`MAX_LINES`] lines, numbered from the first requested line (at
/// least 1), and at most [`MAX_BYTES`] bytes of content.
pub proof fn law_reads_are_bounded(text: Seq<char>, start_line: Option<usize>, end_line: Option<usize>, content: Seq<char>)
    ensures
        selection_spec(text, start_line, end_line) matches Ok((c, s, e, t)) ==> s >= 1 && s == first_line(
            start_line,
        ) && e + 1 >= s && e + 1 - s <= MAX_LINES,
        cut_on_boundary(content) ==> byte_len(limited_content(content).0) <= MAX_BYTES,
{
}

} // verus!

use vstd::prelude::*;

use crate::error::{invalid_arguments, ToolError, ToolErrorView};
use crate::model::ToolPermissionMode;
use crate::text::{
    chars_eq, chars_of, concat, decimal, decimal_string, occurs_at, occurs_at_exec, push_chars,
    string_from_range,
};

verus! {

/// Edits a UTF-8 file in the workspace by exact text replacement.
#[derive(Clone)]
pub struct FileEditTool {
    workspace_root: String,
}

impl FileEditTool {
    pub fn new(workspace_root: String) -> (t: Self)
        ensures
            t.workspace_root() == workspace_root@,
    {
        Self { workspace_root }
    }

    pub closed spec fn workspace_root(&self) -> Seq<char> {
        self.workspace_root@
    }

    /// The workspace root that edited paths are taken from.
    pub fn workspace_root_path(&self) -> (s: &str)
        ensures
            s@ == self.workspace_root(),
    {
        self.workspace_root.as_str()
    }

    pub fn name(&self) -> (s: &'static str)
        ensures
            s@ == "file_edit"@,
    {
        "file_edit"
    }

    pub fn description(&self) -> (s: &'static str)
        ensures
            s@ == "Edit a UTF-8 text file inside the workspace by applying exact text replacements in order. If any replacement fails, the file is not changed."@,
    {
        "Edit a UTF-8 text file inside the workspace by applying exact text replacements in order. If any replacement fails, the file is not changed."
    }

    pub fn default_permission(&self) -> (m: ToolPermissionMode)
        ensures
            m == ToolPermissionMode::Allow,
    {
        ToolPermissionMode::Allow
    }
}

/// One replacement: `old_text` must occur exactly once and becomes `new_text`.
pub struct TextEdit {
    pub old_text: String,
    pub new_text: String,
}

pub open spec fn edit_view(e: TextEdit) -> (Seq<char>, Seq<char>) {
    (e.old_text@, e.new_text@)
}

pub open spec fn edit_views(v: Seq<TextEdit>) -> Seq<(Seq<char>, Seq<char>)> {
    v.map_values(|e: TextEdit| edit_view(e))
}

/// Number of non-overlapping occurrences of `needle` in `s` from position `i`, taken from the
/// left, as `str::matches` finds them.
pub open spec fn count_from(s: Seq<char>, needle: Seq<char>, i: int) -> nat
    decreases s.len() - i,
{
    if needle.len() == 0 || i < 0 || i + needle.len() > s.len() {
        0
    } else if occurs_at(s, needle, i) {
        1 + count_from(s, needle, i + needle.len())
    } else {
        count_from(s, needle, i + 1)
    }
}

/// The first position at or after `i` where `needle` occurs in `s`, if any.
pub open spec fn first_from(s: Seq<char>, needle: Seq<char>, i: int) -> Option<int>
    decreases s.len() - i,
{
    if needle.len() == 0 || i < 0 || i + needle.len() > s.len() {
        None
    } else if occurs_at(s, needle, i) {
        Some(i)
    } else {
        first_from(s, needle, i + 1)
    }
}

pub proof fn lemma_first_from_occurs(s: Seq<char>, needle: Seq<char>, i: int)
    ensures
        first_from(s, needle, i) matches Some(p) ==> occurs_at(s, needle, p) && i <= p,
    decreases s.len() - i,
{
    if !(needle.len() == 0 || i < 0 || i + needle.len() > s.len()) && !occurs_at(s, needle, i) {
        lemma_first_from_occurs(s, needle, i + 1);
    }
}

/// `s` with the first occurrence of `old` replaced by `new`, as `str::replacen(old, new, 1)`.
pub open spec fn replace_first(s: Seq<char>, old: Seq<char>, new: Seq<char>) -> Seq<char> {
    match first_from(s, old, 0) {
        Some(p) => s.take(p) + new + s.skip(p + old.len()),
        None => s,
    }
}

/// A message about the edit at `index`: `edits[index]` followed by `rest`.
pub open spec fn edit_message(index: nat, rest: Seq<char>) -> Seq<char> {
    "edits["@ + decimal(index) + rest
}

/// The result of applying `edits`, from the one at `index` on, to `content`: each edit's old
/// text must not be empty, must differ from its new text and must occur exactly once in the
/// content as the earlier edits left it.
pub open spec fn edits_from(content: Seq<char>, edits: Seq<(Seq<char>, Seq<char>)>, index: int) -> Result<
    Seq<char>,
    ToolErrorView,
>
    decreases edits.len() - index,
{
    if index < 0 || index >= edits.len() {
        Ok(content)
    } else {
        let (old, new) = edits[index];
        if old.len() == 0 {
            Err(ToolErrorView::InvalidArguments(edit_message(index as nat, "].old_text must not be empty"@)))
        } else if old == new {
            Err(
                ToolErrorView::InvalidArguments(
                    edit_message(index as nat, "].old_text and new_text must be different"@),
                ),
            )
        } else {
            let count = count_from(content, old, 0);
            if count == 0 {
                Err(ToolErrorView::ExecutionFailed(edit_message(index as nat, "].old_text was not found"@)))
            } else if count > 1 {
                Err(
                    ToolErrorView::ExecutionFailed(
                        edit_message(
                            index as nat,
                            "].old_text matched "@ + decimal(count)
                                + " times; provide more surrounding context"@,
                        ),
                    ),
                )
            } else {
                edits_from(replace_first(content, old, new), edits, index + 1)
            }
        }
    }
}

/// Refuses a call without edits.
pub fn check_edits_present(count: usize) -> (r: Result<(), ToolError>)
    ensures
        r is Ok <==> count > 0,
        r matches Err(e) ==> e@ == ToolErrorView::InvalidArguments("edits must not be empty"@),
{
    if count == 0 {
        Err(invalid_arguments("edits must not be empty"))
    } else {
        Ok(())
    }
}

/// Counts the occurrences of `needle` in `s` as [`count_from`] does, and finds the first.
fn count_occurrences(s: &Vec<char>, needle: &Vec<char>) -> (r: (usize, usize))
    requires
        needle.len() > 0,
    ensures
        r.0 == count_from(s@, needle@, 0),
        r.0 > 0 ==> first_from(s@, needle@, 0) == Some(r.1 as int),
        r.0 == 0 ==> first_from(s@, needle@, 0) is None,
        r.0 > 0 ==> occurs_at(s@, needle@, r.1 as int),
{
    proof {
        lemma_first_from_occurs(s@, needle@, 0);
    }
    let mut i: usize = 0;
    let mut count: usize = 0;
    let mut first: usize = 0;
    if needle.len() > s.len() {
        return (0, 0);
    }
    while needle.len() <= s.len() - i
        invariant
            i <= s.len(),
            needle.len() > 0,
            count <= i,
            count + count_from(s@, needle@, i as int) == count_from(s@, needle@, 0),
            count == 0 ==> first_from(s@, needle@, i as int) == first_from(s@, needle@, 0),
            count > 0 ==> first_from(s@, needle@, 0) == Some(first as int),
        decreases s.len() - i,
    {
        if occurs_at_exec(s, needle, i) {
            if count == 0 {
                first = i;
            }
            count = count + 1;
            i = i + needle.len();
        } else {
            i = i + 1;
        }
    }
    (count, first)
}

/// Applies the edits in order to `content`.
pub fn apply_edits(content: &str, edits: &Vec<TextEdit>) -> (r: Result<String, ToolError>)
    ensures
        match r {
            Ok(s) => edits_from(content@, edit_views(edits@), 0) == Ok::<Seq<char>, ToolErrorView>(s@),
            Err(e) => edits_from(content@, edit_views(edits@), 0) == Err::<Seq<char>, ToolErrorView>(e@),
        },
{
    let ghost ev = edit_views(edits@);
    let mut current = chars_of(content);
    let mut k: usize = 0;
    while k < edits.len()
        invariant
            k <= edits.len(),
            ev == edit_views(edits@),
            edits_from(content@, ev, 0) == edits_from(current@, ev, k as int),
        decreases edits.len() - k,
    {
        let old = chars_of(edits[k].old_text.as_str());
        let new = chars_of(edits[k].new_text.as_str());
        assert(ev[k as int] == (old@, new@));
        if old.len() == 0 {
            let mut m = concat("edits[", decimal_string(k as u128).as_str());
            m = concat(m.as_str(), "].old_text must not be empty");
            proof {
                assert(m@ =~= edit_message(k as nat, "].old_text must not be empty"@));
            }
            return Err(ToolError::InvalidArguments(m));
        }
        if chars_eq(&old, &new) {
            let mut m = concat("edits[", decimal_string(k as u128).as_str());
            m = concat(m.as_str(), "].old_text and new_text must be different");
            proof {
                assert(m@ =~= edit_message(k as nat, "].old_text and new_text must be different"@));
            }
            return Err(ToolError::InvalidArguments(m));
        }
        let (count, first) = count_occurrences(&current, &old);
        if count == 0 {
            let mut m = concat("edits[", decimal_string(k as u128).as_str());
            m = concat(m.as_str(), "].old_text was not found");
            proof {
                assert(m@ =~= edit_message(k as nat, "].old_text was not found"@));
            }
            return Err(ToolError::ExecutionFailed(m));
        }
        if count > 1 {
            let mut m = concat("edits[", decimal_string(k as u128).as_str());
            m = concat(m.as_str(), "].old_text matched ");
            m = concat(m.as_str(), decimal_string(count as u128).as_str());
            m = concat(m.as_str(), " times; provide more surrounding context");
            proof {
                assert(m@ =~= edit_message(
                    k as nat,
                    "].old_text matched "@ + decimal(count as nat) + " times; provide more surrounding context"@,
                ));
            }
            return Err(ToolError::ExecutionFailed(m));
        }
        let ghost before = current@;
        let mut next: Vec<char> = Vec::new();
        let mut i: usize = 0;
        while i < first
            invariant
                i <= first,
                first + old.len() <= current.len(),
                next@ == current@.take(i as int),
            decreases first - i,
        {
            next.push(current[i]);
            assert(current@.take(i + 1) =~= current@.take(i as int).push(current@[i as int]));
            i += 1;
        }
        let mut j: usize = 0;
        while j < new.len()
            invariant
                j <= new.len(),
                next@ == current@.take(first as int) + new@.take(j as int),
            decreases new.len() - j,
        {
            next.push(new[j]);
            assert(new@.take(j + 1) =~= new@.take(j as int).push(new@[j as int]));
            j += 1;
        }
        let mut t: usize = first + old.len();
        while t < current.len()
            invariant
                first + old.len() <= t <= current.len(),
                next@ == current@.take(first as int) + new@ + current@.subrange(
                    first + old.len(),
                    t as int,
                ),
            decreases current.len() - t,
        {
            next.push(current[t]);
            assert(current@.subrange(first + old.len(), t + 1) =~= current@.subrange(
                first + old.len(),
                t as int,
            ).push(current@[t as int]));
            t += 1;
        }
        proof {
            assert(new@.take(new@.len() as int) =~= new@);
            assert(current@.subrange(first + old.len(), current@.len() as int) =~= current@.skip(
                first + old.len(),
            ));
            assert(next@ == replace_first(before, old@, new@));
        }
        current = next;
        k += 1;
    }
    proof {
        assert(edits_from(current@, ev, k as int) == Ok::<Seq<char>, ToolErrorView>(current@));
    }
    Ok(crate::text::string_from_chars(&current))
}

/// Refuses to edit what is not a file, or a file reached through a symbolic link;
/// `requested` is the path as the call named it.
pub fn check_edit_target(is_file: bool, is_symlink: bool, requested: &str) -> (r: Result<(), ToolError>)
    ensures
        !is_file ==> (r matches Err(e) && e@ == ToolErrorView::ExecutionFailed("path is not a file: "@ + requested@)),
        is_file && is_symlink ==> (r matches Err(e) && e@ == ToolErrorView::ExecutionFailed(
            "refusing to edit symlink: "@ + requested@,
        )),
        is_file && !is_symlink ==> r is Ok,
{
    if !is_file {
        Err(ToolError::ExecutionFailed(concat("path is not a file: ", requested)))
    } else if is_symlink {
        Err(ToolError::ExecutionFailed(concat("refusing to edit symlink: ", requested)))
    } else {
        Ok(())
    }
}

} // verus!

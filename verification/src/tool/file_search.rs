use vstd::prelude::*;

use crate::error::{invalid_arguments, ToolError, ToolErrorView};
use crate::model::ToolPermissionMode;
use crate::order::{
    lemma_seq_less_asymmetric, lemma_seq_less_irreflexive, lemma_seq_less_total,
    lemma_seq_less_transitive, seq_less, str_less,
};
use crate::path::{
    has_parent_component, has_parent_component_exec, is_absolute, is_absolute_exec, join_path,
    path_file_name, path_has_base, path_join, path_starts_with, relative_path, relative_path_spec,
    file_name_of,
};
use crate::text::{str_eq, trim, trim_str};

verus! {

/// Most files that one search returns.
pub const MAX_MATCHES: usize = 200;

/// Finds workspace files whose paths match a glob pattern.
#[derive(Clone)]
pub struct FileSearchTool {
    workspace_root: String,
}

impl FileSearchTool {
    pub fn new(workspace_root: String) -> (t: Self)
        ensures
            t.workspace_root() == workspace_root@,
    {
        Self { workspace_root }
    }

    pub closed spec fn workspace_root(&self) -> Seq<char> {
        self.workspace_root@
    }

    /// The workspace root that patterns are taken from.
    pub fn workspace_root_path(&self) -> (s: &str)
        ensures
            s@ == self.workspace_root(),
    {
        self.workspace_root.as_str()
    }

    pub fn name(&self) -> (s: &'static str)
        ensures
            s@ == "file_search"@,
    {
        "file_search"
    }

    pub fn description(&self) -> (s: &'static str)
        ensures
            s@ == "Find workspace files whose paths match a glob pattern."@,
    {
        "Find workspace files whose paths match a glob pattern."
    }

    pub fn default_permission(&self) -> (m: ToolPermissionMode)
        ensures
            m == ToolPermissionMode::Allow,
    {
        ToolPermissionMode::Allow
    }
}

/// The pattern of a call: trimmed, not empty, relative and without `..`.
pub open spec fn search_pattern_spec(pattern: Seq<char>) -> Result<Seq<char>, ToolErrorView> {
    let p = trim(pattern);
    if p.len() == 0 {
        Err(ToolErrorView::InvalidArguments("pattern must not be empty"@))
    } else if is_absolute(p) {
        Err(ToolErrorView::InvalidArguments("pattern must be relative to the workspace root"@))
    } else if has_parent_component(p) {
        Err(ToolErrorView::InvalidArguments("pattern must not contain '..'"@))
    } else {
        Ok(p)
    }
}

/// Checks the pattern of a call and returns it trimmed.
pub fn check_search_pattern(pattern: &str) -> (r: Result<String, ToolError>)
    ensures
        match r {
            Ok(p) => search_pattern_spec(pattern@) == Ok::<Seq<char>, ToolErrorView>(p@),
            Err(e) => search_pattern_spec(pattern@) == Err::<Seq<char>, ToolErrorView>(e@),
        },
{
    let p = trim_str(pattern);
    if p.as_str().is_empty() {
        Err(invalid_arguments("pattern must not be empty"))
    } else if is_absolute_exec(p.as_str()) {
        Err(invalid_arguments("pattern must be relative to the workspace root"))
    } else if has_parent_component_exec(p.as_str()) {
        Err(invalid_arguments("pattern must not contain '..'"))
    } else {
        Ok(p)
    }
}

/// The pattern that is expanded: the checked pattern under the canonical workspace root.
pub fn full_pattern(root: &str, pattern: &str) -> (r: String)
    ensures
        r@ == path_join(root@, pattern@),
{
    join_path(root, pattern)
}

/// One file found: its workspace-relative path and its file name.
pub struct FileSearchMatch {
    pub path: String,
    pub name: String,
}

pub open spec fn found_view(m: FileSearchMatch) -> (Seq<char>, Seq<char>) {
    (m.path@, m.name@)
}

pub open spec fn found_views(v: Seq<FileSearchMatch>) -> Seq<(Seq<char>, Seq<char>)> {
    v.map_values(|m: FileSearchMatch| found_view(m))
}

/// What an expanded path contributes: nothing unless its canonical form is a file under the
/// canonical root; else its relative path and file name (empty when it has none).
pub open spec fn found_entry_spec(root: Seq<char>, resolved: Seq<char>, is_file: bool) -> Result<
    Option<(Seq<char>, Seq<char>)>,
    ToolErrorView,
> {
    if !path_starts_with(resolved, root) || !is_file {
        Ok(None)
    } else {
        match relative_path_spec(root, resolved) {
            Err(e) => Err(e),
            Ok(rel) => Ok(
                Some(
                    (
                        rel,
                        match path_file_name(resolved) {
                            Some(n) => n,
                            None => Seq::<char>::empty(),
                        },
                    ),
                ),
            ),
        }
    }
}

/// Turns an expanded path, made canonical, into a found file.
pub fn found_entry(root: &str, resolved: &str, is_file: bool) -> (r: Result<
    Option<FileSearchMatch>,
    ToolError,
>)
    ensures
        match r {
            Ok(Some(m)) => found_entry_spec(root@, resolved@, is_file) == Ok::<
                Option<(Seq<char>, Seq<char>)>,
                ToolErrorView,
            >(Some(found_view(m))),
            Ok(None) => found_entry_spec(root@, resolved@, is_file) == Ok::<
                Option<(Seq<char>, Seq<char>)>,
                ToolErrorView,
            >(None),
            Err(e) => found_entry_spec(root@, resolved@, is_file) == Err::<
                Option<(Seq<char>, Seq<char>)>,
                ToolErrorView,
            >(e@),
        },
{
    if !path_has_base(resolved, root) || !is_file {
        return Ok(None);
    }
    let path = match relative_path(root, resolved) {
        Ok(rel) => rel,
        Err(e) => return Err(e),
    };
    let name = match file_name_of(resolved) {
        Some(n) => n,
        None => String::new(),
    };
    Ok(Some(FileSearchMatch { path, name }))
}

/// Paths strictly increasing: sorted, and no path twice.
pub open spec fn strictly_sorted_paths(s: Seq<(Seq<char>, Seq<char>)>) -> bool {
    forall|i: int, j: int| 0 <= i < j < s.len() ==> seq_less(#[trigger] s[i].0, #[trigger] s[j].0)
}

/// `s` lists a file under `path`.
pub open spec fn lists_path(s: Seq<(Seq<char>, Seq<char>)>, path: Seq<char>) -> bool {
    exists|k: int| 0 <= k < s.len() && #[trigger] s[k].0 == path
}

/// `found[i]` is the first file found under its path.
pub open spec fn first_of_its_path(found: Seq<(Seq<char>, Seq<char>)>, i: int) -> bool {
    forall|j: int| 0 <= j < i ==> #[trigger] found[j].0 != found[i].0
}

/// `x` is the first file found under its path.
pub open spec fn is_first_found(found: Seq<(Seq<char>, Seq<char>)>, x: (Seq<char>, Seq<char>)) -> bool {
    exists|i: int| 0 <= i < found.len() && #[trigger] found[i] == x && first_of_its_path(found, i)
}

/// The index at which a file with `path` belongs in a list with strictly increasing paths.
fn insert_position(all: &Vec<FileSearchMatch>, path: &str) -> (j: usize)
    ensures
        j <= all.len(),
        forall|k: int| 0 <= k < j ==> seq_less(#[trigger] found_views(all@)[k].0, path@),
        j < all.len() ==> !seq_less(found_views(all@)[j as int].0, path@),
{
    let mut j: usize = 0;
    while j < all.len()
        invariant
            j <= all.len(),
            forall|k: int| 0 <= k < j ==> seq_less(#[trigger] found_views(all@)[k].0, path@),
        decreases all.len() - j,
    {
        if !str_less(all[j].path.as_str(), path) {
            return j;
        }
        j += 1;
    }
    j
}

/// The found files sorted by path, each path once (its first find kept), cut to
/// [`MAX_MATCHES`]; the flag tells that some path was cut off.
pub fn finish_search(found: &Vec<FileSearchMatch>) -> (r: (Vec<FileSearchMatch>, bool))
    ensures
        strictly_sorted_paths(found_views(r.0@)),
        forall|k: int|
            0 <= k < r.0@.len() ==> is_first_found(found_views(found@), #[trigger] found_views(r.0@)[k]),
        r.0@.len() <= MAX_MATCHES,
        forall|i: int|
            0 <= i < found@.len() ==> lists_path(found_views(r.0@), #[trigger] found_views(found@)[i].0)
                || (forall|k: int|
                0 <= k < r.0@.len() ==> seq_less(
                    #[trigger] found_views(r.0@)[k].0,
                    found_views(found@)[i].0,
                )),
        r.1 <==> exists|i: int|
            0 <= i < found@.len() && !lists_path(found_views(r.0@), #[trigger] found_views(found@)[i].0),
        r.1 ==> r.0@.len() == MAX_MATCHES,
{
    let ghost fv = found_views(found@);
    let mut all: Vec<FileSearchMatch> = Vec::new();
    let mut n: usize = 0;
    while n < found.len()
        invariant
            n <= found.len(),
            fv == found_views(found@),
            strictly_sorted_paths(found_views(all@)),
            forall|k: int| 0 <= k < all@.len() ==> is_first_found(fv.take(n as int), #[trigger] found_views(all@)[k]),
            forall|i: int| 0 <= i < n ==> lists_path(found_views(all@), #[trigger] fv[i].0),
        decreases found.len() - n,
    {
        let path = found[n].path.as_str();
        let ghost av = found_views(all@);
        let ghost x = fv[n as int];
        let j = insert_position(&all, path);
        let duplicate = j < all.len() && str_eq(all[j].path.as_str(), path);
        proof {
            assert forall|k: int| 0 <= k < all@.len() implies is_first_found(fv.take(n + 1), #[trigger] av[k]) by {
                let i = choose|i: int| 0 <= i < n && #[trigger] fv.take(n as int)[i] == av[k]
                    && first_of_its_path(fv.take(n as int), i);
                assert(fv.take(n + 1)[i] == av[k]);
                assert forall|jj: int| 0 <= jj < i implies #[trigger] fv.take(n + 1)[jj].0 != fv.take(n + 1)[i].0 by {
                    assert(fv.take(n as int)[jj] == fv.take(n + 1)[jj]);
                }
            }
        }
        if duplicate {
            proof {
                assert(av[j as int].0 == x.0);
                assert forall|i: int| 0 <= i < n + 1 implies lists_path(av, #[trigger] fv[i].0) by {
                    if i == n {
                        assert(av[j as int].0 == fv[i].0);
                    }
                }
            }
        } else {
            proof {
                if j < all.len() {
                    lemma_seq_less_total(av[j as int].0, x.0);
                }
                // no earlier find has this path
                assert forall|k: int| 0 <= k < av.len() implies #[trigger] av[k].0 != x.0 by {
                    if k < j {
                        lemma_seq_less_irreflexive(x.0);
                    } else {
                        assert(seq_less(x.0, av[j as int].0));
                        if k > j {
                            assert(seq_less(av[j as int].0, av[k].0));
                            lemma_seq_less_transitive(x.0, av[j as int].0, av[k].0);
                        }
                        lemma_seq_less_irreflexive(x.0);
                    }
                }
                assert forall|i: int| 0 <= i < n implies #[trigger] fv[i].0 != x.0 by {
                    assert(lists_path(av, fv[i].0));
                }
            }
            let m = FileSearchMatch {
                path: found[n].path.clone(),
                name: found[n].name.clone(),
            };
            all.insert(j, m);
            proof {
                let nv = found_views(all@);
                assert(nv =~= av.insert(j as int, x));
                assert forall|a: int, b: int| 0 <= a < b < nv.len() implies seq_less(
                    #[trigger] nv[a].0,
                    #[trigger] nv[b].0,
                ) by {
                    if b < j {
                        assert(nv[a] == av[a] && nv[b] == av[b]);
                    } else if b == j {
                        assert(nv[a] == av[a]);
                    } else if a < j {
                        assert(nv[a] == av[a] && nv[b] == av[b - 1]);
                        assert(seq_less(av[a].0, x.0));
                        assert(seq_less(x.0, av[j as int].0));
                        if b - 1 > j {
                            lemma_seq_less_transitive(x.0, av[j as int].0, av[b - 1].0);
                        }
                        lemma_seq_less_transitive(av[a].0, x.0, av[b - 1].0);
                    } else if a == j {
                        assert(nv[b] == av[b - 1]);
                        assert(seq_less(x.0, av[j as int].0));
                        if b - 1 > j {
                            lemma_seq_less_transitive(x.0, av[j as int].0, av[b - 1].0);
                        }
                    } else {
                        assert(nv[a] == av[a - 1] && nv[b] == av[b - 1]);
                    }
                }
                assert forall|k: int| 0 <= k < nv.len() implies is_first_found(fv.take(n + 1), #[trigger] nv[k]) by {
                    if k < j {
                        assert(nv[k] == av[k]);
                    } else if k == j {
                        assert(fv.take(n + 1)[n as int] == x);
                        assert forall|jj: int| 0 <= jj < n implies #[trigger] fv.take(n + 1)[jj].0 != fv.take(n + 1)[n as int].0 by {
                            assert(fv.take(n + 1)[jj] == fv[jj]);
                        }
                    } else {
                        assert(nv[k] == av[k - 1]);
                    }
                }
                assert forall|i: int| 0 <= i < n + 1 implies lists_path(nv, #[trigger] fv[i].0) by {
                    if i == n {
                        assert(nv[j as int].0 == fv[i].0);
                    } else {
                        let k = choose|k: int| 0 <= k < av.len() && #[trigger] av[k].0 == fv[i].0;
                        if k < j {
                            assert(nv[k] == av[k]);
                        } else {
                            assert(nv[k + 1] == av[k]);
                        }
                    }
                }
            }
        }
        n += 1;
    }
    proof {
        assert(fv.take(n as int) =~= fv);
    }
    let ghost av = found_views(all@);
    let truncated = all.len() > MAX_MATCHES;
    all.truncate(MAX_MATCHES);
    proof {
        let ov = found_views(all@);
        if truncated {
            assert(ov =~= av.subrange(0, MAX_MATCHES as int));
        } else {
            assert(ov =~= av);
        }
        assert forall|i: int| 0 <= i < found@.len() implies lists_path(ov, #[trigger] fv[i].0) || (
        forall|k: int| 0 <= k < ov.len() ==> seq_less(#[trigger] ov[k].0, fv[i].0)) by {
            let k0 = choose|k: int| 0 <= k < av.len() && #[trigger] av[k].0 == fv[i].0;
            if k0 < ov.len() {
                assert(ov[k0].0 == fv[i].0);
            } else {
                assert forall|k: int| 0 <= k < ov.len() implies seq_less(#[trigger] ov[k].0, fv[i].0) by {
                    assert(ov[k] == av[k]);
                }
            }
        }
        if truncated {
            let x = av[MAX_MATCHES as int];
            let i = choose|i: int| 0 <= i < fv.len() && #[trigger] fv[i] == x && first_of_its_path(fv, i);
            assert(!lists_path(ov, fv[i].0)) by {
                assert forall|k: int| 0 <= k < ov.len() implies #[trigger] ov[k].0 != fv[i].0 by {
                    assert(ov[k] == av[k]);
                    assert(seq_less(av[k].0, av[MAX_MATCHES as int].0));
                    lemma_seq_less_irreflexive(av[k].0);
                }
            }
        } else {
            assert forall|i: int| 0 <= i < found@.len() implies lists_path(ov, #[trigger] fv[i].0) by {
            }
        }
    }
    (all, truncated)
}

} // verus!

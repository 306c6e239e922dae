use vstd::prelude::*;

use crate::error::{ToolError, ToolErrorView};
use crate::model::ToolPermissionMode;
use crate::order::{lemma_seq_less_asymmetric, lemma_seq_less_transitive, seq_less, str_less};
use crate::path::{path_has_base, path_starts_with, relative_path, relative_path_spec};
use crate::text::{concat, str_eq};

verus! {

broadcast use vstd::seq_lib::group_to_multiset_ensures;

/// Most entries that one listing returns.
pub const MAX_ENTRIES: usize = 200;

/// Lists the files and directories directly inside a workspace directory.
#[derive(Clone)]
pub struct FileListTool {
    workspace_root: String,
}

impl FileListTool {
    pub fn new(workspace_root: String) -> (t: Self)
        ensures
            t.workspace_root() == workspace_root@,
    {
        Self { workspace_root }
    }

    pub closed spec fn workspace_root(&self) -> Seq<char> {
        self.workspace_root@
    }

    /// The workspace root that listed paths are taken from.
    pub fn workspace_root_path(&self) -> (s: &str)
        ensures
            s@ == self.workspace_root(),
    {
        self.workspace_root.as_str()
    }

    pub fn name(&self) -> (s: &'static str)
        ensures
            s@ == "file_list"@,
    {
        "file_list"
    }

    pub fn description(&self) -> (s: &'static str)
        ensures
            s@ == "List files and directories directly inside a workspace directory."@,
    {
        "List files and directories directly inside a workspace directory."
    }

    pub fn default_permission(&self) -> (m: ToolPermissionMode)
        ensures
            m == ToolPermissionMode::Allow,
    {
        ToolPermissionMode::Allow
    }
}

/// What a listed entry is.
#[derive(Clone, Copy, PartialEq, Eq, Structural)]
pub enum EntryKind {
    Directory,
    File,
    Other,
}

/// The name under which a kind is reported.
pub open spec fn kind_name(kind: EntryKind) -> Seq<char> {
    match kind {
        EntryKind::Directory => "directory"@,
        EntryKind::File => "file"@,
        EntryKind::Other => "other"@,
    }
}

impl EntryKind {
    /// The kind of an entry whose metadata tells whether it is a directory and whether a file.
    pub fn from_metadata(is_dir: bool, is_file: bool) -> (k: EntryKind)
        ensures
            k == (if is_dir {
                EntryKind::Directory
            } else if is_file {
                EntryKind::File
            } else {
                EntryKind::Other
            }),
    {
        if is_dir {
            EntryKind::Directory
        } else if is_file {
            EntryKind::File
        } else {
            EntryKind::Other
        }
    }

    pub fn as_str(&self) -> (s: &'static str)
        ensures
            s@ == kind_name(*self),
    {
        match self {
            EntryKind::Directory => "directory",
            EntryKind::File => "file",
            EntryKind::Other => "other",
        }
    }
}

/// Where a kind sorts: directories first, then files, then the rest.
pub open spec fn kind_rank_spec(kind: Seq<char>) -> nat {
    if kind == "directory"@ {
        0
    } else if kind == "file"@ {
        1
    } else {
        2
    }
}

/// Where a kind, by its name, sorts.
pub fn kind_rank(kind: &str) -> (r: u8)
    ensures
        r == kind_rank_spec(kind@),
{
    if str_eq(kind, "directory") {
        0
    } else if str_eq(kind, "file") {
        1
    } else {
        2
    }
}

/// One listed entry: its workspace-relative path, its name and its kind.
pub struct FileListEntry {
    pub path: String,
    pub name: String,
    pub kind: EntryKind,
}

pub open spec fn entry_view(e: FileListEntry) -> (Seq<char>, Seq<char>, Seq<char>) {
    (e.path@, e.name@, kind_name(e.kind))
}

pub open spec fn entry_views(v: Seq<FileListEntry>) -> Seq<(Seq<char>, Seq<char>, Seq<char>)> {
    v.map_values(|e: FileListEntry| entry_view(e))
}

/// The listing order: by kind (directories, files, others), then by name.
pub open spec fn listed_before(a: (Seq<char>, Seq<char>, Seq<char>), b: (Seq<char>, Seq<char>, Seq<char>)) -> bool {
    ||| kind_rank_spec(a.2) < kind_rank_spec(b.2)
    ||| kind_rank_spec(a.2) == kind_rank_spec(b.2) && seq_less(a.1, b.1)
}

/// No entry of `s` comes before one that precedes it.
pub open spec fn in_listing_order(s: Seq<(Seq<char>, Seq<char>, Seq<char>)>) -> bool {
    forall|i: int, j: int| 0 <= i < j < s.len() ==> !listed_before(#[trigger] s[j], #[trigger] s[i])
}

/// `sorted` holds the entries of `entries`, each as often, in listing order.
pub open spec fn is_listing_of(
    entries: Seq<(Seq<char>, Seq<char>, Seq<char>)>,
    sorted: Seq<(Seq<char>, Seq<char>, Seq<char>)>,
) -> bool {
    sorted.to_multiset() == entries.to_multiset() && in_listing_order(sorted)
}

pub proof fn lemma_listed_before_transitive(
    a: (Seq<char>, Seq<char>, Seq<char>),
    b: (Seq<char>, Seq<char>, Seq<char>),
    c: (Seq<char>, Seq<char>, Seq<char>),
)
    requires
        listed_before(a, b),
        listed_before(b, c),
    ensures
        listed_before(a, c),
{
    if kind_rank_spec(a.2) == kind_rank_spec(b.2) && kind_rank_spec(b.2) == kind_rank_spec(c.2) {
        lemma_seq_less_transitive(a.1, b.1, c.1);
    }
}

pub proof fn lemma_listed_before_asymmetric(
    a: (Seq<char>, Seq<char>, Seq<char>),
    b: (Seq<char>, Seq<char>, Seq<char>),
)
    requires
        listed_before(a, b),
    ensures
        !listed_before(b, a),
{
    if kind_rank_spec(a.2) == kind_rank_spec(b.2) {
        lemma_seq_less_asymmetric(a.1, b.1);
    }
}

/// Whether an entry made canonical lies under the canonical workspace root; others are skipped.
pub fn entry_inside(root: &str, resolved: &str) -> (b: bool)
    ensures
        b == path_starts_with(resolved@, root@),
{
    path_has_base(resolved, root)
}

/// The listed form of a directory entry.
pub fn list_entry(root: &str, entry_path: &str, name: String, kind: EntryKind) -> (r: Result<
    FileListEntry,
    ToolError,
>)
    ensures
        match r {
            Ok(e) => relative_path_spec(root@, entry_path@) == Ok::<Seq<char>, ToolErrorView>(e.path@)
                && e.name@ == name@ && e.kind == kind,
            Err(e) => relative_path_spec(root@, entry_path@) == Err::<Seq<char>, ToolErrorView>(e@),
        },
{
    match relative_path(root, entry_path) {
        Ok(path) => Ok(FileListEntry { path, name, kind }),
        Err(e) => Err(e),
    }
}

/// Refuses a listed path that is not a directory; `requested` is the path as the call named it.
pub fn check_directory(is_dir: bool, requested: &str) -> (r: Result<(), ToolError>)
    ensures
        is_dir <==> r is Ok,
        r matches Err(e) ==> e@ == ToolErrorView::ExecutionFailed("path is not a directory: "@ + requested@),
{
    if is_dir {
        Ok(())
    } else {
        Err(ToolError::ExecutionFailed(concat("path is not a directory: ", requested)))
    }
}

/// Whether `a` is listed before `b`.
fn listed_before_exec(a: &FileListEntry, b: &FileListEntry) -> (r: bool)
    ensures
        r == listed_before(entry_view(*a), entry_view(*b)),
{
    let ra = kind_rank(a.kind.as_str());
    let rb = kind_rank(b.kind.as_str());
    ra < rb || (ra == rb && str_less(a.name.as_str(), b.name.as_str()))
}

/// Where `e` goes in a list in listing order: after every entry it is not listed before.
fn listing_position(sorted: &Vec<FileListEntry>, e: &FileListEntry) -> (j: usize)
    ensures
        j <= sorted.len(),
        forall|k: int| 0 <= k < j ==> !listed_before(entry_view(*e), #[trigger] entry_views(sorted@)[k]),
        j < sorted.len() ==> listed_before(entry_view(*e), entry_views(sorted@)[j as int]),
{
    let mut j: usize = 0;
    while j < sorted.len()
        invariant
            j <= sorted.len(),
            forall|k: int| 0 <= k < j ==> !listed_before(entry_view(*e), #[trigger] entry_views(sorted@)[k]),
        decreases sorted.len() - j,
    {
        if listed_before_exec(e, &sorted[j]) {
            return j;
        }
        j += 1;
    }
    j
}

/// The entries in listing order, ties kept in the order given.
pub fn sort_entries(entries: &Vec<FileListEntry>) -> (s: Vec<FileListEntry>)
    ensures
        is_listing_of(entry_views(entries@), entry_views(s@)),
{
    let ghost ev = entry_views(entries@);
    let mut sorted: Vec<FileListEntry> = Vec::new();
    let mut n: usize = 0;
    while n < entries.len()
        invariant
            n <= entries.len(),
            ev == entry_views(entries@),
            in_listing_order(entry_views(sorted@)),
            entry_views(sorted@).to_multiset() == ev.take(n as int).to_multiset(),
        decreases entries.len() - n,
    {
        let e = FileListEntry {
            path: entries[n].path.clone(),
            name: entries[n].name.clone(),
            kind: entries[n].kind,
        };
        let ghost sv = entry_views(sorted@);
        let ghost x = entry_view(e);
        assert(x == ev[n as int]);
        let j = listing_position(&sorted, &e);
        sorted.insert(j, e);
        proof {
            let nv = entry_views(sorted@);
            assert(nv =~= sv.insert(j as int, x));
            assert(ev.take(n + 1) =~= ev.take(n as int).push(x));
            assert forall|a: int, b: int| 0 <= a < b < nv.len() implies !listed_before(
                #[trigger] nv[b],
                #[trigger] nv[a],
            ) by {
                if b < j {
                    assert(nv[a] == sv[a] && nv[b] == sv[b]);
                } else if b == j {
                    assert(nv[a] == sv[a]);
                } else if a < j {
                    assert(nv[a] == sv[a] && nv[b] == sv[b - 1]);
                    assert(!listed_before(x, sv[a]));
                    if b - 1 == j {
                        lemma_listed_before_asymmetric(x, sv[j as int]);
                    } else {
                        assert(!listed_before(sv[b - 1], sv[j as int]));
                        if listed_before(sv[b - 1], x) {
                            lemma_listed_before_transitive(sv[b - 1], x, sv[j as int]);
                        }
                    }
                    if listed_before(sv[b - 1], sv[a]) {
                        if b - 1 == j {
                            lemma_listed_before_transitive(x, sv[j as int], sv[a]);
                        } else {
                            assert(!listed_before(sv[b - 1], sv[a]));
                        }
                    }
                } else if a == j {
                    assert(nv[b] == sv[b - 1]);
                    if b - 1 == j {
                        lemma_listed_before_asymmetric(x, sv[j as int]);
                    } else {
                        assert(!listed_before(sv[b - 1], sv[j as int]));
                        if listed_before(sv[b - 1], x) {
                            lemma_listed_before_transitive(sv[b - 1], x, sv[j as int]);
                        }
                    }
                } else {
                    assert(nv[a] == sv[a - 1] && nv[b] == sv[b - 1]);
                }
            }
        }
        n += 1;
    }
    proof {
        assert(ev.take(entries.len() as int) =~= ev);
    }
    sorted
}

/// The entries in listing order, cut to [`MAX_ENTRIES`]; the flag tells that some were cut off.
pub fn finish_listing(entries: &Vec<FileListEntry>) -> (r: (Vec<FileListEntry>, bool))
    ensures
        exists|sorted: Seq<(Seq<char>, Seq<char>, Seq<char>)>|
            #[trigger] is_listing_of(entry_views(entries@), sorted) && entry_views(r.0@) == sorted.take(
                r.0@.len() as int,
            ),
        r.0@.len() == if entries@.len() <= MAX_ENTRIES {
            entries@.len()
        } else {
            MAX_ENTRIES as nat
        },
        r.1 <==> entries@.len() > MAX_ENTRIES,
{
    let mut sorted = sort_entries(entries);
    let ghost full = entry_views(sorted@);
    proof {
        assert(full.to_multiset().len() == full.len());
        assert(entry_views(entries@).to_multiset().len() == entry_views(entries@).len());
    }
    let truncated = sorted.len() > MAX_ENTRIES;
    sorted.truncate(MAX_ENTRIES);
    proof {
        assert(entry_views(sorted@) =~= full.take(sorted@.len() as int));
    }
    (sorted, truncated)
}

} // verus!

use vstd::prelude::*;

use crate::model::ToolPermissionMode;
use crate::order::{lemma_seq_less_irreflexive, lemma_seq_less_total, lemma_seq_less_transitive, seq_less, str_less};
use crate::text::{concat, decimal, decimal_string, str_eq, trim, trim_str};

verus! {

/// The version of the permissions file this store reads and writes.
pub const VERSION: u32 = 1;

/// Failures of the tool permission store.
pub enum ToolPermissionRepositoryError {
    InvalidPermission(String),
    Unexpected(String),
}

/// The abstract value of a store error.
pub enum PermissionErrorView {
    InvalidPermission(Seq<char>),
    Unexpected(Seq<char>),
}

impl View for ToolPermissionRepositoryError {
    type V = PermissionErrorView;

    open spec fn view(&self) -> PermissionErrorView {
        match self {
            ToolPermissionRepositoryError::InvalidPermission(m) => PermissionErrorView::InvalidPermission(m@),
            ToolPermissionRepositoryError::Unexpected(m) => PermissionErrorView::Unexpected(m@),
        }
    }
}

/// A tool's stored permission.
pub struct ToolPermission {
    pub tool_name: String,
    pub mode: ToolPermissionMode,
}

/// The name a permission is stored under: trimmed, and not empty.
pub fn normalize_tool_name(tool_name: &str) -> (r: Result<String, ToolPermissionRepositoryError>)
    ensures
        trim(tool_name@).len() == 0 ==> (r matches Err(e) && e@ == PermissionErrorView::InvalidPermission(
            "tool_name must not be empty"@,
        )),
        trim(tool_name@).len() > 0 ==> (r matches Ok(s) && s@ == trim(tool_name@)),
{
    let t = trim_str(tool_name);
    if t.as_str().is_empty() {
        Err(ToolPermissionRepositoryError::InvalidPermission("tool_name must not be empty".to_owned()))
    } else {
        Ok(t)
    }
}

/// The name a lookup asks for: trimmed; a blank name finds nothing.
pub fn lookup_name(tool_name: &str) -> (r: Option<String>)
    ensures
        trim(tool_name@).len() == 0 ==> r is None,
        trim(tool_name@).len() > 0 ==> (r matches Some(s) && s@ == trim(tool_name@)),
{
    let t = trim_str(tool_name);
    if t.as_str().is_empty() {
        None
    } else {
        Some(t)
    }
}

/// Refuses a permissions file of another version.
pub fn check_version(version: u32) -> (r: Result<(), ToolPermissionRepositoryError>)
    ensures
        version == VERSION ==> r is Ok,
        version != VERSION ==> (r matches Err(e) && e@ == PermissionErrorView::Unexpected(
            "unsupported tool permissions file version: "@ + decimal(version as nat),
        )),
{
    if version == VERSION {
        Ok(())
    } else {
        Err(
            ToolPermissionRepositoryError::Unexpected(
                concat("unsupported tool permissions file version: ", decimal_string(version as u128).as_str()),
            ),
        )
    }
}

/// The error that a failed file operation is reported as.
pub fn map_io_error(message: String) -> (e: ToolPermissionRepositoryError)
    ensures
        e@ == PermissionErrorView::Unexpected(message@),
{
    ToolPermissionRepositoryError::Unexpected(message)
}

/// Names strictly increasing: sorted, and no name twice.
pub open spec fn strictly_sorted_names(s: Seq<(Seq<char>, ToolPermissionMode)>) -> bool {
    forall|i: int, j: int| 0 <= i < j < s.len() ==> seq_less(#[trigger] s[i].0, #[trigger] s[j].0)
}

/// `s` has an entry named `k`.
pub open spec fn has_name(s: Seq<(Seq<char>, ToolPermissionMode)>, k: Seq<char>) -> bool {
    exists|i: int| 0 <= i < s.len() && #[trigger] s[i].0 == k
}

/// The permissions as a map from tool name to mode.
pub open spec fn permission_map(s: Seq<(Seq<char>, ToolPermissionMode)>) -> Map<Seq<char>, ToolPermissionMode> {
    Map::new(
        |k: Seq<char>| has_name(s, k),
        |k: Seq<char>| s[choose|i: int| 0 <= i < s.len() && #[trigger] s[i].0 == k].1,
    )
}

proof fn lemma_sorted_distinct(s: Seq<(Seq<char>, ToolPermissionMode)>, i: int, j: int)
    requires
        strictly_sorted_names(s),
        0 <= i < s.len(),
        0 <= j < s.len(),
        s[i].0 == s[j].0,
    ensures
        i == j,
{
    if i < j {
        assert(seq_less(s[i].0, s[j].0));
        lemma_seq_less_irreflexive(s[i].0);
    } else if j < i {
        assert(seq_less(s[j].0, s[i].0));
        lemma_seq_less_irreflexive(s[i].0);
    }
}

/// The value at an entry of a strictly sorted list is the map's value under its name.
proof fn lemma_map_at(s: Seq<(Seq<char>, ToolPermissionMode)>, i: int)
    requires
        strictly_sorted_names(s),
        0 <= i < s.len(),
    ensures
        permission_map(s).contains_key(s[i].0),
        permission_map(s)[s[i].0] == s[i].1,
{
    assert(has_name(s, s[i].0));
    let c = choose|c: int| 0 <= c < s.len() && #[trigger] s[c].0 == s[i].0;
    lemma_sorted_distinct(s, c, i);
}

/// The permissions of a file, kept in name order with each name once.
pub struct ToolPermissionTable {
    entries: Vec<(String, ToolPermissionMode)>,
}

impl ToolPermissionTable {
    /// The entries as `(name, mode)` pairs, in name order.
    pub closed spec fn entries(&self) -> Seq<(Seq<char>, ToolPermissionMode)> {
        self.entries@.map_values(|e: (String, ToolPermissionMode)| (e.0@, e.1))
    }

    /// The table's invariant: names strictly increase.
    pub open spec fn wf(&self) -> bool {
        strictly_sorted_names(self.entries())
    }

    /// The permissions as a map.
    pub open spec fn map(&self) -> Map<Seq<char>, ToolPermissionMode> {
        permission_map(self.entries())
    }

    /// An empty table, as a missing file reads.
    pub fn new() -> (t: Self)
        ensures
            t.wf(),
            t.entries() == Seq::<(Seq<char>, ToolPermissionMode)>::empty(),
            t.map() == Map::<Seq<char>, ToolPermissionMode>::empty(),
    {
        let t = Self { entries: Vec::new() };
        assert(t.entries() =~= Seq::<(Seq<char>, ToolPermissionMode)>::empty());
        assert(t.map() =~= Map::<Seq<char>, ToolPermissionMode>::empty());
        t
    }

    /// Where `name` is or belongs: the first entry not before it.
    fn position(&self, name: &str) -> (j: usize)
        requires
            self.wf(),
        ensures
            j <= self.entries().len(),
            forall|k: int| 0 <= k < j ==> seq_less(#[trigger] self.entries()[k].0, name@),
            j < self.entries().len() ==> !seq_less(self.entries()[j as int].0, name@),
    {
        let mut j: usize = 0;
        while j < self.entries.len()
            invariant
                j <= self.entries.len(),
                forall|k: int| 0 <= k < j ==> seq_less(#[trigger] self.entries()[k].0, name@),
            decreases self.entries.len() - j,
        {
            if !str_less(self.entries[j].0.as_str(), name) {
                return j;
            }
            j += 1;
        }
        j
    }

    /// The mode stored for `name`, if any.
    pub fn get(&self, name: &str) -> (r: Option<ToolPermissionMode>)
        requires
            self.wf(),
        ensures
            match r {
                Some(m) => self.map().contains_key(name@) && self.map()[name@] == m,
                None => !self.map().contains_key(name@),
            },
    {
        let j = self.position(name);
        if j < self.entries.len() && str_eq(self.entries[j].0.as_str(), name) {
            proof {
                lemma_map_at(self.entries(), j as int);
            }
            return Some(self.entries[j].1);
        }
        proof {
            let s = self.entries();
            if has_name(s, name@) {
                let i = choose|i: int| 0 <= i < s.len() && #[trigger] s[i].0 == name@;
                if i < j {
                    lemma_seq_less_irreflexive(name@);
                } else {
                    assert(j < s.len());
                    lemma_seq_less_total(s[j as int].0, name@);
                    if i > j {
                        assert(seq_less(s[j as int].0, s[i].0));
                        lemma_seq_less_transitive(name@, s[j as int].0, name@);
                    }
                    lemma_seq_less_irreflexive(name@);
                }
            }
        }
        None
    }

    /// Stores `mode` for `name`, replacing what was stored for it.
    pub fn upsert(&mut self, name: String, mode: ToolPermissionMode)
        requires
            old(self).wf(),
        ensures
            final(self).wf(),
            final(self).map() == old(self).map().insert(name@, mode),
    {
        let ghost s = self.entries();
        let ghost k = name@;
        let j = self.position(name.as_str());
        if j < self.entries.len() && str_eq(self.entries[j].0.as_str(), name.as_str()) {
            self.entries.set(j, (name, mode));
            proof {
                let t = self.entries();
                assert(t =~= s.update(j as int, (k, mode)));
                assert(strictly_sorted_names(t)) by {
                    assert forall|a: int, b: int| 0 <= a < b < t.len() implies seq_less(
                        #[trigger] t[a].0,
                        #[trigger] t[b].0,
                    ) by {
                        assert(t[a].0 == s[a].0 && t[b].0 == s[b].0);
                    }
                }
                assert forall|key: Seq<char>| #[trigger] self.map().contains_key(key) <==> old(self).map().insert(k, mode).contains_key(key) by {
                    if has_name(s, key) {
                        let i = choose|i: int| 0 <= i < s.len() && #[trigger] s[i].0 == key;
                        assert(t[i].0 == key);
                    }
                    if has_name(t, key) {
                        let i = choose|i: int| 0 <= i < t.len() && #[trigger] t[i].0 == key;
                        assert(s[i].0 == key);
                    }
                }
                assert forall|key: Seq<char>| #[trigger] self.map().contains_key(key) implies self.map()[key]
                    == old(self).map().insert(k, mode)[key] by {
                    let i = choose|i: int| 0 <= i < t.len() && #[trigger] t[i].0 == key;
                    lemma_map_at(t, i);
                    if i != j {
                        lemma_map_at(s, i);
                    }
                }
                assert(self.map() =~= old(self).map().insert(k, mode));
            }
        } else {
            proof {
                if j < s.len() {
                    lemma_seq_less_total(s[j as int].0, k);
                }
            }
            self.entries.insert(j, (name, mode));
            proof {
                let t = self.entries();
                assert(t =~= s.insert(j as int, (k, mode)));
                assert(strictly_sorted_names(t)) by {
                    assert forall|a: int, b: int| 0 <= a < b < t.len() implies seq_less(
                        #[trigger] t[a].0,
                        #[trigger] t[b].0,
                    ) by {
                        if b < j {
                            assert(t[a] == s[a] && t[b] == s[b]);
                        } else if b == j {
                            assert(t[a] == s[a]);
                        } else if a < j {
                            assert(t[a] == s[a] && t[b] == s[b - 1]);
                            assert(seq_less(s[a].0, k));
                            assert(seq_less(k, s[j as int].0));
                            if b - 1 > j {
                                lemma_seq_less_transitive(k, s[j as int].0, s[b - 1].0);
                            }
                            lemma_seq_less_transitive(s[a].0, k, s[b - 1].0);
                        } else if a == j {
                            assert(t[b] == s[b - 1]);
                            assert(seq_less(k, s[j as int].0));
                            if b - 1 > j {
                                lemma_seq_less_transitive(k, s[j as int].0, s[b - 1].0);
                            }
                        } else {
                            assert(t[a] == s[a - 1] && t[b] == s[b - 1]);
                        }
                    }
                }
                // the new name was not stored before
                assert(!has_name(s, k)) by {
                    if has_name(s, k) {
                        let i = choose|i: int| 0 <= i < s.len() && #[trigger] s[i].0 == k;
                        if i < j {
                            lemma_seq_less_irreflexive(k);
                        } else {
                            if i > j {
                                lemma_seq_less_transitive(k, s[j as int].0, s[i].0);
                            }
                            lemma_seq_less_irreflexive(k);
                        }
                    }
                }
                assert forall|key: Seq<char>| #[trigger] self.map().contains_key(key) <==> old(self).map().insert(k, mode).contains_key(key) by {
                    if has_name(s, key) {
                        let i = choose|i: int| 0 <= i < s.len() && #[trigger] s[i].0 == key;
                        if i < j {
                            assert(t[i].0 == key);
                        } else {
                            assert(t[i + 1].0 == key);
                        }
                    }
                    if key == k {
                        assert(t[j as int].0 == key);
                    }
                    if has_name(t, key) {
                        let i = choose|i: int| 0 <= i < t.len() && #[trigger] t[i].0 == key;
                        if i < j {
                            assert(s[i].0 == key);
                        } else if i > j {
                            assert(s[i - 1].0 == key);
                        }
                    }
                }
                assert forall|key: Seq<char>| #[trigger] self.map().contains_key(key) implies self.map()[key]
                    == old(self).map().insert(k, mode)[key] by {
                    let i = choose|i: int| 0 <= i < t.len() && #[trigger] t[i].0 == key;
                    lemma_map_at(t, i);
                    if i < j {
                        lemma_map_at(s, i);
                    } else if i > j {
                        lemma_map_at(s, i - 1);
                    }
                }
                assert(self.map() =~= old(self).map().insert(k, mode));
            }
        }
    }

    /// The permission a lookup of `tool_name` finds: under its trimmed name; a blank name finds
    /// nothing.
    pub fn find_permission(&self, tool_name: &str) -> (r: Option<ToolPermission>)
        requires
            self.wf(),
        ensures
            permission_view(r) == found_permission(self.map(), tool_name@),
    {
        match lookup_name(tool_name) {
            None => None,
            Some(name) => match self.get(name.as_str()) {
                Some(mode) => Some(ToolPermission { tool_name: name, mode }),
                None => None,
            },
        }
    }

    /// Stores `mode` for the trimmed `tool_name` and gives the stored permission; a blank name
    /// is refused and nothing changes.
    pub fn upsert_permission(&mut self, tool_name: &str, mode: ToolPermissionMode) -> (r: Result<
        ToolPermission,
        ToolPermissionRepositoryError,
    >)
        requires
            old(self).wf(),
        ensures
            final(self).wf(),
            match r {
                Ok(p) => trim(tool_name@).len() > 0 && p.tool_name@ == trim(tool_name@) && p.mode == mode
                    && final(self).map() == old(self).map().insert(trim(tool_name@), mode),
                Err(e) => trim(tool_name@).len() == 0 && e@ == PermissionErrorView::InvalidPermission(
                    "tool_name must not be empty"@,
                ) && final(self).map() == old(self).map(),
            },
    {
        let name = normalize_tool_name(tool_name)?;
        self.upsert(name.clone(), mode);
        Ok(ToolPermission { tool_name: name, mode })
    }

    /// The stored permissions in name order.
    pub fn list(&self) -> (v: Vec<ToolPermission>)
        ensures
            v@.map_values(|p: ToolPermission| (p.tool_name@, p.mode)) == self.entries(),
    {
        let mut v: Vec<ToolPermission> = Vec::new();
        let mut i: usize = 0;
        while i < self.entries.len()
            invariant
                i <= self.entries.len(),
                v@.map_values(|p: ToolPermission| (p.tool_name@, p.mode)) == self.entries().take(i as int),
            decreases self.entries.len() - i,
        {
            let ghost before = v@.map_values(|p: ToolPermission| (p.tool_name@, p.mode));
            let p = ToolPermission { tool_name: self.entries[i].0.clone(), mode: self.entries[i].1 };
            v.push(p);
            assert(v@.map_values(|p: ToolPermission| (p.tool_name@, p.mode)) =~= before.push(
                (p.tool_name@, p.mode),
            ));
            assert(self.entries().take(i + 1) =~= self.entries().take(i as int).push(self.entries()[i as int]));
            i += 1;
        }
        assert(self.entries().take(self.entries.len() as int) =~= self.entries());
        v
    }
}

/// A permission as its name and mode.
pub open spec fn permission_view(p: Option<ToolPermission>) -> Option<(Seq<char>, ToolPermissionMode)> {
    match p {
        Some(p) => Some((p.tool_name@, p.mode)),
        None => None,
    }
}

/// What a lookup of `name` among the permissions `map` finds: the permission under the trimmed
/// name, or nothing for a blank name or a name not stored.
pub open spec fn found_permission(map: Map<Seq<char>, ToolPermissionMode>, name: Seq<char>) -> Option<
    (Seq<char>, ToolPermissionMode),
> {
    let k = trim(name);
    if k.len() > 0 && map.contains_key(k) {
        Some((k, map[k]))
    } else {
        None
    }
}

/// After a permission is stored under a name, a lookup of that name, trimmed or not, finds
/// exactly the stored permission; lookups of every other name find what they found before, and
/// a blank name finds nothing.
pub proof fn law_upsert_then_find(
    before: Map<Seq<char>, ToolPermissionMode>,
    name: Seq<char>,
    mode: ToolPermissionMode,
    other: Seq<char>,
)
    requires
        trim(name).len() > 0,
    ensures
        found_permission(before.insert(trim(name), mode), name) == Some((trim(name), mode)),
        trim(other) != trim(name) ==> found_permission(before.insert(trim(name), mode), other)
            == found_permission(before, other),
        trim(other).len() == 0 ==> found_permission(before.insert(trim(name), mode), other) is None,
{
}

} // verus!

verus! {

/// The mode of a stored permission row; an unknown mode name is an unexpected error.
pub fn mode_from_row(mode: &str) -> (r: Result<ToolPermissionMode, ToolPermissionRepositoryError>)
    ensures
        match r {
            Ok(m) => crate::model::permission_mode_name(m) == mode@,
            Err(e) => e@ == PermissionErrorView::Unexpected("unknown tool permission mode: "@ + mode@)
                && forall|m: ToolPermissionMode| crate::model::permission_mode_name(m) != mode@,
        },
{
    match ToolPermissionMode::from_db(mode) {
        Some(m) => Ok(m),
        None => Err(ToolPermissionRepositoryError::Unexpected(concat("unknown tool permission mode: ", mode))),
    }
}

} // verus!

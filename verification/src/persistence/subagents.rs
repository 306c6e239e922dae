use vstd::prelude::*;

use crate::order::{lemma_seq_less_asymmetric, lemma_seq_less_transitive, seq_less, str_less};
use crate::path::{extension_of, path_extension};
use crate::text::{opt_view, str_eq, string_views};

verus! {

broadcast use vstd::seq_lib::group_to_multiset_ensures;

/// What `Path::file_stem` gives for `path`, read as UTF-8.
pub uninterp spec fn path_file_stem(path: Seq<char>) -> Option<Seq<char>>;

/// Calls `Path::file_stem` and `OsStr::to_str`.
#[verifier::external_body]
fn file_stem_of(path: &str) -> (r: Option<String>)
    ensures
        opt_view(r) == path_file_stem(path@),
{
    std::path::Path::new(path).file_stem().and_then(|stem| stem.to_str()).map(|stem| stem.to_owned())
}

/// Reads subagent profiles from the JSON files of a directory.
#[derive(Clone)]
pub struct FileSubagentRepository {
    root: String,
}

impl FileSubagentRepository {
    pub fn new(root: String) -> (r: Self)
        ensures
            r.root() == root@,
    {
        Self { root }
    }

    pub closed spec fn root(&self) -> Seq<char> {
        self.root@
    }

    /// The directory that holds the profiles.
    pub fn root_path(&self) -> (s: &str)
        ensures
            s@ == self.root(),
    {
        self.root.as_str()
    }
}

/// The name of the profile a directory entry holds: a `.json` file's stem; other entries hold
/// none.
pub fn profile_name(path: &str) -> (r: Option<String>)
    ensures
        opt_view(r) == if path_extension(path@) == Some("json"@) {
            path_file_stem(path@)
        } else {
            None
        },
{
    let is_json = match extension_of(path) {
        Some(e) => str_eq(e.as_str(), "json"),
        None => false,
    };
    if !is_json {
        return None;
    }
    file_stem_of(path)
}

/// A subagent: its name, description, instruction and the tools it may use.
pub struct Subagent {
    pub name: String,
    pub description: String,
    pub instruction: String,
    pub allowed_tools: Vec<String>,
}

pub open spec fn subagent_view(s: Subagent) -> (Seq<char>, Seq<char>, Seq<char>, Seq<Seq<char>>) {
    (s.name@, s.description@, s.instruction@, string_views(s.allowed_tools@))
}

pub open spec fn subagent_views(v: Seq<Subagent>) -> Seq<(Seq<char>, Seq<char>, Seq<char>, Seq<Seq<char>>)> {
    v.map_values(|s: Subagent| subagent_view(s))
}

/// No subagent of `s` has a name before that of one that precedes it.
pub open spec fn in_name_order(s: Seq<(Seq<char>, Seq<char>, Seq<char>, Seq<Seq<char>>)>) -> bool {
    forall|i: int, j: int| 0 <= i < j < s.len() ==> !seq_less(#[trigger] s[j].0, #[trigger] s[i].0)
}

fn name_position(sorted: &Vec<Subagent>, s: &Subagent) -> (j: usize)
    ensures
        j <= sorted.len(),
        forall|k: int| 0 <= k < j ==> !seq_less(s.name@, #[trigger] subagent_views(sorted@)[k].0),
        j < sorted.len() ==> seq_less(s.name@, subagent_views(sorted@)[j as int].0),
{
    let mut j: usize = 0;
    while j < sorted.len()
        invariant
            j <= sorted.len(),
            forall|k: int| 0 <= k < j ==> !seq_less(s.name@, #[trigger] subagent_views(sorted@)[k].0),
        decreases sorted.len() - j,
    {
        if str_less(s.name.as_str(), sorted[j].name.as_str()) {
            return j;
        }
        j += 1;
    }
    j
}

/// The subagents in name order, ties kept in the order given.
pub fn sort_subagents(subagents: Vec<Subagent>) -> (s: Vec<Subagent>)
    ensures
        in_name_order(subagent_views(s@)),
        subagent_views(s@).to_multiset() == subagent_views(subagents@).to_multiset(),
{
    let ghost ev = subagent_views(subagents@);
    let mut rest = subagents;
    let mut reversed: Vec<Subagent> = Vec::new();
    while rest.len() > 0
        invariant
            subagent_views(reversed@) + subagent_views(rest@).reverse() == ev.reverse(),
        decreases rest.len(),
    {
        let ghost rv = subagent_views(rest@);
        let e = rest.pop().unwrap();
        proof {
            assert(rv =~= subagent_views(rest@).push(subagent_view(e)));
            assert(rv.reverse() =~= seq![subagent_view(e)] + subagent_views(rest@).reverse());
        }
        let ghost before = subagent_views(reversed@);
        reversed.push(e);
        assert(subagent_views(reversed@) =~= before.push(subagent_view(e)));
        assert(subagent_views(reversed@) + subagent_views(rest@).reverse() =~= ev.reverse());
    }
    proof {
        assert(subagent_views(rest@).reverse() =~= Seq::<(Seq<char>, Seq<char>, Seq<char>, Seq<Seq<char>>)>::empty());
        assert(subagent_views(reversed@) =~= ev.reverse());
    }
    let mut sorted: Vec<Subagent> = Vec::new();
    let ghost total = ev.len();
    assert(total == reversed.len());
    let mut n: usize = 0;
    assert(ev.skip(0) =~= ev);
    while reversed.len() > 0
        invariant
            n + reversed.len() == total,
            total == ev.len(),
            total <= usize::MAX,
            subagent_views(reversed@) == ev.skip(n as int).reverse(),
            in_name_order(subagent_views(sorted@)),
            subagent_views(sorted@).to_multiset() == ev.take(n as int).to_multiset(),
        decreases reversed.len(),
    {
        let ghost rv = subagent_views(reversed@);
        let e = reversed.pop().unwrap();
        proof {
            assert(rv =~= subagent_views(reversed@).push(subagent_view(e)));
            assert(ev.skip(n as int).reverse().last() == ev.skip(n as int)[0]);
            assert(ev[n as int] == subagent_view(e));
            assert(ev.skip(n + 1) =~= ev.skip(n as int).drop_first());
            assert(ev.skip(n + 1).reverse() =~= rv.drop_last());
            assert(subagent_views(reversed@) =~= ev.skip(n + 1).reverse());
            assert(ev.take(n + 1) =~= ev.take(n as int).push(subagent_view(e)));
        }
        let ghost sv = subagent_views(sorted@);
        let ghost x = subagent_view(e);
        let j = name_position(&sorted, &e);
        sorted.insert(j, e);
        proof {
            let nv = subagent_views(sorted@);
            assert(nv =~= sv.insert(j as int, x));
            assert forall|a: int, b: int| 0 <= a < b < nv.len() implies !seq_less(
                #[trigger] nv[b].0,
                #[trigger] nv[a].0,
            ) by {
                if b < j {
                    assert(nv[a] == sv[a] && nv[b] == sv[b]);
                } else if b == j {
                    assert(nv[a] == sv[a]);
                } else if a < j {
                    assert(nv[a] == sv[a] && nv[b] == sv[b - 1]);
                    if b - 1 == j {
                        lemma_seq_less_asymmetric(x.0, sv[j as int].0);
                        if seq_less(sv[b - 1].0, sv[a].0) {
                            lemma_seq_less_transitive(x.0, sv[j as int].0, sv[a].0);
                        }
                    } else {
                        if seq_less(sv[b - 1].0, x.0) {
                            lemma_seq_less_transitive(sv[b - 1].0, x.0, sv[j as int].0);
                        }
                    }
                } else if a == j {
                    assert(nv[b] == sv[b - 1]);
                    if b - 1 == j {
                        lemma_seq_less_asymmetric(x.0, sv[j as int].0);
                    } else if seq_less(sv[b - 1].0, x.0) {
                        lemma_seq_less_transitive(sv[b - 1].0, x.0, sv[j as int].0);
                    }
                } else {
                    assert(nv[a] == sv[a - 1] && nv[b] == sv[b - 1]);
                }
            }
        }
        n += 1;
    }
    proof {
        assert(ev.take(total as int) =~= ev);
    }
    sorted
}

} // verus!

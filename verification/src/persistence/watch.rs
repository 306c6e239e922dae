use vstd::prelude::*;

verus! {

/// Reads the watch configuration from a JSON file.
#[derive(Clone)]
pub struct FileWatchRepository {
    path: String,
}

impl FileWatchRepository {
    pub fn new(path: String) -> (r: Self)
        ensures
            r.path() == path@,
    {
        Self { path }
    }

    pub closed spec fn path(&self) -> Seq<char> {
        self.path@
    }

    /// The configuration file.
    pub fn path_str(&self) -> (s: &str)
        ensures
            s@ == self.path(),
    {
        self.path.as_str()
    }
}

/// Failures of the watch configuration.
pub enum WatchRepositoryError {
    InvalidConfig(String),
    Unexpected(String),
}

/// The checked schedules of a watch: each as its check gave it, or the first refusal.
pub open spec fn collected<T>(checked: Seq<Result<T, String>>) -> Result<Seq<T>, String>
    decreases checked.len(),
{
    if checked.len() == 0 {
        Ok(Seq::empty())
    } else {
        match collected(checked.drop_last()) {
            Err(e) => Err(e),
            Ok(before) => match checked.last() {
                Err(e) => Err(e),
                Ok(s) => Ok(before.push(s)),
            },
        }
    }
}

proof fn lemma_collected_error_sticks<T>(checked: Seq<Result<T, String>>, i: int)
    requires
        0 < i <= checked.len(),
        collected(checked.take(i)) is Err,
    ensures
        collected(checked) == collected(checked.take(i)),
    decreases checked.len() - i,
{
    if i < checked.len() {
        assert(checked.drop_last().take(i) =~= checked.take(i));
        lemma_collected_error_sticks(checked.drop_last(), i);
    } else {
        assert(checked.take(i) =~= checked);
    }
}

/// The schedules of a watch from their checks, in order; the first refusal becomes the
/// configuration's error.
pub fn collect_schedules<T>(checked: Vec<Result<T, String>>) -> (r: Result<Vec<T>, WatchRepositoryError>)
    ensures
        match r {
            Ok(v) => collected(checked@) == Ok::<Seq<T>, String>(v@),
            Err(WatchRepositoryError::InvalidConfig(m)) => collected(checked@) matches Err(e) && e == m,
            Err(WatchRepositoryError::Unexpected(_)) => false,
        },
{
    let ghost all = checked@;
    let mut out: Vec<T> = Vec::new();
    let mut rest = checked;
    let mut reversed: Vec<Result<T, String>> = Vec::new();
    while rest.len() > 0
        invariant
            reversed@ + rest@.reverse() == all.reverse(),
        decreases rest.len(),
    {
        let ghost rv = rest@;
        let e = rest.pop().unwrap();
        proof {
            assert(rv =~= rest@.push(e));
            assert(rv.reverse() =~= seq![e] + rest@.reverse());
        }
        let ghost before = reversed@;
        reversed.push(e);
        assert(reversed@ + rest@.reverse() =~= all.reverse());
    }
    proof {
        assert(rest@.reverse() =~= Seq::<Result<T, String>>::empty());
        assert(reversed@ =~= all.reverse());
    }
    let ghost total = all.len();
    assert(total == reversed.len());
    let mut n: usize = 0;
    assert(all.skip(0) =~= all);
    assert(all.take(0) =~= Seq::<Result<T, String>>::empty());
    while reversed.len() > 0
        invariant
            n + reversed.len() == total,
            total == all.len(),
            total <= usize::MAX,
            all == checked@,
            reversed@ == all.skip(n as int).reverse(),
            collected(all.take(n as int)) == Ok::<Seq<T>, String>(out@),
        decreases reversed.len(),
    {
        let ghost rv = reversed@;
        let e = reversed.pop().unwrap();
        proof {
            assert(rv =~= reversed@.push(e));
            assert(all.skip(n as int).reverse().last() == all.skip(n as int)[0]);
            assert(all[n as int] == e);
            assert(all.skip(n + 1) =~= all.skip(n as int).drop_first());
            assert(all.skip(n + 1).reverse() =~= rv.drop_last());
            assert(all.take(n + 1).drop_last() =~= all.take(n as int));
            assert(all.take(n + 1).last() == e);
        }
        match e {
            Err(m) => {
                proof {
                    lemma_collected_error_sticks(all, n + 1);
                }
                return Err(WatchRepositoryError::InvalidConfig(m));
            },
            Ok(s) => {
                out.push(s);
            },
        }
        n += 1;
    }
    proof {
        assert(all.take(total as int) =~= all);
    }
    Ok(out)
}

} // verus!

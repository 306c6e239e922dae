use vstd::prelude::*;

use crate::text::{concat, decimal, decimal_string, trim, trim_str};

verus! {

broadcast use vstd::seq_lib::group_to_multiset_ensures;

/// The version of the schedules file this store reads and writes.
pub const VERSION: u32 = 1;

/// A point in time: seconds since the Unix epoch and nanoseconds within the second.
#[derive(Clone, Copy, PartialEq, Eq, Structural)]
pub struct Timestamp {
    pub secs: i64,
    pub nanos: u32,
}

/// `a` is earlier than `b`.
pub open spec fn earlier(a: Timestamp, b: Timestamp) -> bool {
    a.secs < b.secs || (a.secs == b.secs && a.nanos < b.nanos)
}

/// Failures of a schedule store.
pub enum ScheduleRepositoryError {
    InvalidSchedule(String),
    NotFound(u128),
    TaskNotFound(u128),
    Unexpected(String),
}

pub enum ScheduleErrorView {
    InvalidSchedule(Seq<char>),
    NotFound(u128),
    TaskNotFound(u128),
    Unexpected(Seq<char>),
}

impl View for ScheduleRepositoryError {
    type V = ScheduleErrorView;

    open spec fn view(&self) -> ScheduleErrorView {
        match self {
            ScheduleRepositoryError::InvalidSchedule(m) => ScheduleErrorView::InvalidSchedule(m@),
            ScheduleRepositoryError::NotFound(id) => ScheduleErrorView::NotFound(*id),
            ScheduleRepositoryError::TaskNotFound(id) => ScheduleErrorView::TaskNotFound(*id),
            ScheduleRepositoryError::Unexpected(m) => ScheduleErrorView::Unexpected(m@),
        }
    }
}

/// A schedule: a request run on a cron expression in a time zone.
pub struct Schedule {
    pub id: u128,
    pub title: String,
    pub request: String,
    pub cron: String,
    pub timezone: String,
    pub enabled: bool,
    pub created_at: Timestamp,
    pub updated_at: Timestamp,
}

/// The abstract value of a schedule.
pub struct ScheduleView {
    pub id: u128,
    pub title: Seq<char>,
    pub request: Seq<char>,
    pub cron: Seq<char>,
    pub timezone: Seq<char>,
    pub enabled: bool,
    pub created_at: Timestamp,
    pub updated_at: Timestamp,
}

impl View for Schedule {
    type V = ScheduleView;

    open spec fn view(&self) -> ScheduleView {
        ScheduleView {
            id: self.id,
            title: self.title@,
            request: self.request@,
            cron: self.cron@,
            timezone: self.timezone@,
            enabled: self.enabled,
            created_at: self.created_at,
            updated_at: self.updated_at,
        }
    }
}

pub open spec fn schedule_views(v: Seq<Schedule>) -> Seq<ScheduleView> {
    v.map_values(|s: Schedule| s@)
}

/// What a call asks to create.
pub struct CreateSchedule {
    pub title: String,
    pub request: String,
    pub cron: String,
    pub timezone: String,
    pub enabled: bool,
}

/// What a call asks to change; absent fields stay.
pub struct UpdateSchedule {
    pub title: Option<String>,
    pub request: Option<String>,
    pub cron: Option<String>,
    pub timezone: Option<String>,
    pub enabled: Option<bool>,
}

/// A text field, trimmed, which must not be empty.
pub open spec fn required_text_spec(field: Seq<char>, value: Seq<char>) -> Result<Seq<char>, Seq<char>> {
    if trim(value).len() == 0 {
        Err(field + " must not be empty"@)
    } else {
        Ok(trim(value))
    }
}

/// A text field of a schedule, trimmed, which must not be empty.
pub fn required_text(field: &str, value: &str) -> (r: Result<String, String>)
    ensures
        match r {
            Ok(s) => required_text_spec(field@, value@) == Ok::<Seq<char>, Seq<char>>(s@),
            Err(e) => required_text_spec(field@, value@) == Err::<Seq<char>, Seq<char>>(e@),
        },
{
    let t = trim_str(value);
    if t.as_str().is_empty() {
        Err(concat(field, " must not be empty"))
    } else {
        Ok(t)
    }
}

/// A schedule with its fields checked: title and request trimmed and not empty, the cron
/// expression and time zone as their parsers gave them back (`cron` and `timezone` are what
/// parsing the schedule's own cron and time zone text gave).
pub open spec fn checked_schedule_spec(
    s: ScheduleView,
    cron: Result<Seq<char>, Seq<char>>,
    timezone: Result<Seq<char>, Seq<char>>,
) -> Result<ScheduleView, Seq<char>> {
    match required_text_spec("title"@, s.title) {
        Err(e) => Err(e),
        Ok(title) => match required_text_spec("request"@, s.request) {
            Err(e) => Err(e),
            Ok(request) => match cron {
                Err(e) => Err(e),
                Ok(c) => match timezone {
                    Err(e) => Err(e),
                    Ok(z) => Ok(ScheduleView { title, request, cron: c, timezone: z, ..s }),
                },
            },
        },
    }
}

pub open spec fn parse_view(r: Result<String, String>) -> Result<Seq<char>, Seq<char>> {
    match r {
        Ok(s) => Ok(s@),
        Err(e) => Err(e@),
    }
}

/// Checks the fields of a stored or requested schedule.
pub fn checked_schedule(s: &Schedule, cron: Result<String, String>, timezone: Result<String, String>) -> (r: Result<
    Schedule,
    String,
>)
    ensures
        match r {
            Ok(c) => checked_schedule_spec(s@, parse_view(cron), parse_view(timezone)) == Ok::<
                ScheduleView,
                Seq<char>,
            >(c@),
            Err(e) => checked_schedule_spec(s@, parse_view(cron), parse_view(timezone)) == Err::<
                ScheduleView,
                Seq<char>,
            >(e@),
        },
{
    let title = match required_text("title", s.title.as_str()) {
        Ok(t) => t,
        Err(e) => return Err(e),
    };
    let request = match required_text("request", s.request.as_str()) {
        Ok(t) => t,
        Err(e) => return Err(e),
    };
    let cron = match cron {
        Ok(c) => c,
        Err(e) => return Err(e),
    };
    let timezone = match timezone {
        Ok(z) => z,
        Err(e) => return Err(e),
    };
    Ok(
        Schedule {
            id: s.id,
            title,
            request,
            cron,
            timezone,
            enabled: s.enabled,
            created_at: s.created_at,
            updated_at: s.updated_at,
        },
    )
}

/// Checks a request to create a schedule; `cron` and `timezone` are what parsing its cron
/// expression and time zone gave.
pub fn validate_create(input: &CreateSchedule, cron: Result<(), String>, timezone: Result<(), String>) -> (r: Result<
    (),
    ScheduleRepositoryError,
>)
    ensures
        trim(input.title@).len() == 0 ==> (r matches Err(e) && e@ == ScheduleErrorView::InvalidSchedule(
            "title must not be empty"@,
        )),
        trim(input.title@).len() > 0 && trim(input.request@).len() == 0 ==> (r matches Err(e) && e@
            == ScheduleErrorView::InvalidSchedule("request must not be empty"@)),
        trim(input.title@).len() > 0 && trim(input.request@).len() > 0 ==> match cron {
            Err(m) => r matches Err(e) && e@ == ScheduleErrorView::InvalidSchedule(m@),
            Ok(()) => match timezone {
                Err(m) => r matches Err(e) && e@ == ScheduleErrorView::InvalidSchedule(m@),
                Ok(()) => r is Ok,
            },
        },
{
    if trim_str(input.title.as_str()).as_str().is_empty() {
        return Err(ScheduleRepositoryError::InvalidSchedule("title must not be empty".to_owned()));
    }
    if trim_str(input.request.as_str()).as_str().is_empty() {
        return Err(ScheduleRepositoryError::InvalidSchedule("request must not be empty".to_owned()));
    }
    match validate_cron(cron) {
        Err(e) => return Err(e),
        Ok(()) => {},
    }
    validate_timezone(timezone)
}

/// The error of a cron expression that did not parse.
pub fn validate_cron(parsed: Result<(), String>) -> (r: Result<(), ScheduleRepositoryError>)
    ensures
        match parsed {
            Ok(()) => r is Ok,
            Err(m) => r matches Err(e) && e@ == ScheduleErrorView::InvalidSchedule(m@),
        },
{
    match parsed {
        Ok(()) => Ok(()),
        Err(m) => Err(ScheduleRepositoryError::InvalidSchedule(m)),
    }
}

/// The error of a time zone that did not parse.
pub fn validate_timezone(parsed: Result<(), String>) -> (r: Result<(), ScheduleRepositoryError>)
    ensures
        match parsed {
            Ok(()) => r is Ok,
            Err(m) => r matches Err(e) && e@ == ScheduleErrorView::InvalidSchedule(m@),
        },
{
    match parsed {
        Ok(()) => Ok(()),
        Err(m) => Err(ScheduleRepositoryError::InvalidSchedule(m)),
    }
}

/// Checks a request to change a schedule: given fields are checked as on creation; `cron`
/// and `timezone` are what parsing the given ones gave.
pub fn validate_update(
    input: &UpdateSchedule,
    cron: Option<Result<(), String>>,
    timezone: Option<Result<(), String>>,
) -> (r: Result<(), ScheduleRepositoryError>)
    ensures
        (input.title matches Some(t) && trim(t@).len() == 0) ==> (r matches Err(e) && e@
            == ScheduleErrorView::InvalidSchedule("title must not be empty"@)),
        !(input.title matches Some(t) && trim(t@).len() == 0) && (input.request matches Some(q) && trim(q@).len()
            == 0) ==> (r matches Err(e) && e@ == ScheduleErrorView::InvalidSchedule("request must not be empty"@)),
        !(input.title matches Some(t) && trim(t@).len() == 0) && !(input.request matches Some(q) && trim(
            q@,
        ).len() == 0) ==> match cron {
            Some(Err(m)) => r matches Err(e) && e@ == ScheduleErrorView::InvalidSchedule(m@),
            _ => match timezone {
                Some(Err(m)) => r matches Err(e) && e@ == ScheduleErrorView::InvalidSchedule(m@),
                _ => r is Ok,
            },
        },
{
    match &input.title {
        Some(t) => if trim_str(t.as_str()).as_str().is_empty() {
            return Err(ScheduleRepositoryError::InvalidSchedule("title must not be empty".to_owned()));
        },
        None => {},
    }
    match &input.request {
        Some(q) => if trim_str(q.as_str()).as_str().is_empty() {
            return Err(ScheduleRepositoryError::InvalidSchedule("request must not be empty".to_owned()));
        },
        None => {},
    }
    match cron {
        Some(c) => match validate_cron(c) {
            Err(e) => return Err(e),
            Ok(()) => {},
        },
        None => {},
    }
    match timezone {
        Some(z) => validate_timezone(z),
        None => Ok(()),
    }
}

/// Refuses a schedules file of another version.
pub fn check_version(version: u32) -> (r: Result<(), ScheduleRepositoryError>)
    ensures
        version == VERSION ==> r is Ok,
        version != VERSION ==> (r matches Err(e) && e@ == ScheduleErrorView::Unexpected(
            "unsupported schedules file version: "@ + decimal(version as nat),
        )),
{
    if version == VERSION {
        Ok(())
    } else {
        Err(
            ScheduleRepositoryError::Unexpected(
                concat("unsupported schedules file version: ", decimal_string(version as u128).as_str()),
            ),
        )
    }
}

/// The order of the schedules file: most recently updated first, then the larger id first.
pub open spec fn listed_first(a: ScheduleView, b: ScheduleView) -> bool {
    earlier(b.updated_at, a.updated_at) || (a.updated_at == b.updated_at && a.id > b.id)
}

/// No schedule of `s` comes before one that precedes it.
pub open spec fn in_schedule_order(s: Seq<ScheduleView>) -> bool {
    forall|i: int, j: int| 0 <= i < j < s.len() ==> !listed_first(#[trigger] s[j], #[trigger] s[i])
}

fn listed_first_exec(a: &Schedule, b: &Schedule) -> (r: bool)
    ensures
        r == listed_first(a@, b@),
{
    b.updated_at.secs < a.updated_at.secs || (b.updated_at.secs == a.updated_at.secs && b.updated_at.nanos
        < a.updated_at.nanos) || (a.updated_at.secs == b.updated_at.secs && a.updated_at.nanos
        == b.updated_at.nanos && a.id > b.id)
}

fn schedule_position(sorted: &Vec<Schedule>, s: &Schedule) -> (j: usize)
    ensures
        j <= sorted.len(),
        forall|k: int| 0 <= k < j ==> !listed_first(s@, #[trigger] schedule_views(sorted@)[k]),
        j < sorted.len() ==> listed_first(s@, schedule_views(sorted@)[j as int]),
{
    let mut j: usize = 0;
    while j < sorted.len()
        invariant
            j <= sorted.len(),
            forall|k: int| 0 <= k < j ==> !listed_first(s@, #[trigger] schedule_views(sorted@)[k]),
        decreases sorted.len() - j,
    {
        if listed_first_exec(s, &sorted[j]) {
            return j;
        }
        j += 1;
    }
    j
}

/// The schedules in file order, ties kept in the order given.
pub fn sort_schedules(schedules: Vec<Schedule>) -> (s: Vec<Schedule>)
    ensures
        in_schedule_order(schedule_views(s@)),
        schedule_views(s@).to_multiset() == schedule_views(schedules@).to_multiset(),
{
    let ghost ev = schedule_views(schedules@);
    let mut rest = schedules;
    let mut reversed: Vec<Schedule> = Vec::new();
    while rest.len() > 0
        invariant
            schedule_views(reversed@) + schedule_views(rest@).reverse() == ev.reverse(),
        decreases rest.len(),
    {
        let ghost rv = schedule_views(rest@);
        let e = rest.pop().unwrap();
        proof {
            assert(rv =~= schedule_views(rest@).push(e@));
            assert(rv.reverse() =~= seq![e@] + schedule_views(rest@).reverse());
        }
        let ghost before = schedule_views(reversed@);
        reversed.push(e);
        assert(schedule_views(reversed@) =~= before.push(e@));
        assert(schedule_views(reversed@) + schedule_views(rest@).reverse() =~= ev.reverse());
    }
    proof {
        assert(schedule_views(rest@).reverse() =~= Seq::<ScheduleView>::empty());
        assert(schedule_views(reversed@) =~= ev.reverse());
    }
    let mut sorted: Vec<Schedule> = Vec::new();
    let ghost total = ev.len();
    assert(total == reversed.len());
    let mut n: usize = 0;
    assert(ev.skip(0) =~= ev);
    while reversed.len() > 0
        invariant
            n + reversed.len() == total,
            total == ev.len(),
            total <= usize::MAX,
            schedule_views(reversed@) == ev.skip(n as int).reverse(),
            in_schedule_order(schedule_views(sorted@)),
            schedule_views(sorted@).to_multiset() == ev.take(n as int).to_multiset(),
        decreases reversed.len(),
    {
        let ghost rv = schedule_views(reversed@);
        let e = reversed.pop().unwrap();
        proof {
            assert(rv =~= schedule_views(reversed@).push(e@));
            assert(ev.skip(n as int).reverse().last() == ev.skip(n as int)[0]);
            assert(ev[n as int] == e@);
            assert(ev.skip(n + 1) =~= ev.skip(n as int).drop_first());
            assert(ev.skip(n + 1).reverse() =~= rv.drop_last());
            assert(schedule_views(reversed@) =~= ev.skip(n + 1).reverse());
            assert(ev.take(n + 1) =~= ev.take(n as int).push(e@));
        }
        let ghost sv = schedule_views(sorted@);
        let ghost x = e@;
        let j = schedule_position(&sorted, &e);
        sorted.insert(j, e);
        proof {
            let nv = schedule_views(sorted@);
            assert(nv =~= sv.insert(j as int, x));
            assert forall|a: int, b: int| 0 <= a < b < nv.len() implies !listed_first(
                #[trigger] nv[b],
                #[trigger] nv[a],
            ) by {
                if b < j {
                    assert(nv[a] == sv[a] && nv[b] == sv[b]);
                } else if b == j {
                    assert(nv[a] == sv[a]);
                } else if a < j {
                    assert(nv[a] == sv[a] && nv[b] == sv[b - 1]);
                } else if a == j {
                    assert(nv[b] == sv[b - 1]);
                } else {
                    assert(nv[a] == sv[a - 1] && nv[b] == sv[b - 1]);
                }
            }
        }
        n += 1;
    }
    proof {
        assert(ev.take(total as int) =~= ev);
    }
    sorted
}


/// The first schedule of `s` with the id `id`.
pub open spec fn find_spec(s: Seq<ScheduleView>, id: u128) -> Option<ScheduleView>
    decreases s.len(),
{
    if s.len() == 0 {
        None
    } else if s[0].id == id {
        Some(s[0])
    } else {
        find_spec(s.drop_first(), id)
    }
}

/// No two schedules of `s` share an id.
pub open spec fn distinct_ids(s: Seq<ScheduleView>) -> bool {
    forall|i: int, j: int| 0 <= i < j < s.len() ==> #[trigger] s[i].id != #[trigger] s[j].id
}

proof fn lemma_find_unique(s: Seq<ScheduleView>, k: int)
    requires
        distinct_ids(s),
        0 <= k < s.len(),
    ensures
        find_spec(s, s[k].id) == Some(s[k]),
    decreases s.len(),
{
    if k > 0 {
        assert(s[0].id != s[k].id);
        let t = s.drop_first();
        assert(distinct_ids(t)) by {
            assert forall|i: int, j: int| 0 <= i < j < t.len() implies #[trigger] t[i].id != #[trigger] t[j].id by {
                assert(t[i] == s[i + 1] && t[j] == s[j + 1]);
            }
        }
        lemma_find_unique(t, k - 1);
    }
}

proof fn lemma_find_found(s: Seq<ScheduleView>, id: u128)
    ensures
        find_spec(s, id) matches Some(x) ==> s.contains(x) && x.id == id,
        find_spec(s, id) is None ==> forall|i: int| 0 <= i < s.len() ==> #[trigger] s[i].id != id,
    decreases s.len(),
{
    if s.len() > 0 && s[0].id != id {
        lemma_find_found(s.drop_first(), id);
        if find_spec(s, id) is None {
            assert forall|i: int| 0 <= i < s.len() implies #[trigger] s[i].id != id by {
                if i > 0 {
                    assert(s[i] == s.drop_first()[i - 1]);
                }
            }
        }
        if let Some(x) = find_spec(s, id) {
            let i = choose|i: int| 0 <= i < s.drop_first().len() && s.drop_first()[i] == x;
            assert(s[i + 1] == x);
        }
    }
}

proof fn lemma_distinct_ids_permutation(a: Seq<ScheduleView>, b: Seq<ScheduleView>)
    requires
        distinct_ids(a),
        a.to_multiset() == b.to_multiset(),
    ensures
        distinct_ids(b),
{
    broadcast use vstd::multiset::group_multiset_axioms;

    assert(a.no_duplicates()) by {
        assert forall|i: int, j: int| 0 <= i < a.len() && 0 <= j < a.len() && i != j implies a[i] != a[j] by {
            if i < j {
                assert(a[i].id != a[j].id);
            } else {
                assert(a[j].id != a[i].id);
            }
        }
    }
    a.lemma_multiset_has_no_duplicates();
    b.lemma_multiset_has_no_duplicates_conv();
    assert forall|i: int, j: int| 0 <= i < j < b.len() implies #[trigger] b[i].id != #[trigger] b[j].id by {
        assert(b.to_multiset().count(b[i]) > 0);
        assert(b.to_multiset().count(b[j]) > 0);
        assert(a.contains(b[i]));
        assert(a.contains(b[j]));
        let p = choose|p: int| 0 <= p < a.len() && a[p] == b[i];
        let q = choose|q: int| 0 <= q < a.len() && a[q] == b[j];
        assert(b[i] != b[j]);
        if p < q {
            assert(a[p].id != a[q].id);
        } else if q < p {
            assert(a[q].id != a[p].id);
        }
    }
}

/// The schedules of a file.
pub struct ScheduleTable {
    schedules: Vec<Schedule>,
}

impl ScheduleTable {
    pub closed spec fn schedules(&self) -> Seq<ScheduleView> {
        schedule_views(self.schedules@)
    }

    /// The schedules as the file holds them.
    pub fn from_stored(schedules: Vec<Schedule>) -> (t: Self)
        ensures
            t.schedules() == schedule_views(schedules@),
    {
        Self { schedules }
    }

    /// The schedules, to be saved.
    pub fn stored(&self) -> (v: &Vec<Schedule>)
        ensures
            schedule_views(v@) == self.schedules(),
    {
        &self.schedules
    }

    /// The first schedule with the id `id`.
    fn index_of(&self, id: u128) -> (r: Option<usize>)
        ensures
            match r {
                Some(i) => i < self.schedules().len() && find_spec(self.schedules(), id) == Some(
                    self.schedules()[i as int],
                ),
                None => find_spec(self.schedules(), id) is None,
            },
    {
        let ghost sv = self.schedules();
        let mut i: usize = 0;
        assert(sv.skip(0) =~= sv);
        while i < self.schedules.len()
            invariant
                i <= self.schedules.len(),
                sv == self.schedules(),
                find_spec(sv, id) == find_spec(sv.skip(i as int), id),
            decreases self.schedules.len() - i,
        {
            assert(sv.skip(i as int)[0] == sv[i as int]);
            if self.schedules[i].id == id {
                return Some(i);
            }
            assert(sv.skip(i as int).drop_first() =~= sv.skip(i + 1));
            i += 1;
        }
        None
    }

    /// The first schedule with the id `id`.
    pub fn find_by_id(&self, id: u128) -> (r: Option<&Schedule>)
        ensures
            match r {
                Some(s) => find_spec(self.schedules(), id) == Some(s@),
                None => find_spec(self.schedules(), id) is None,
            },
    {
        match self.index_of(id) {
            Some(i) => Some(&self.schedules[i]),
            None => None,
        }
    }

    /// Adds a new schedule with the id `id`, made at `now`, when its fields check out;
    /// `cron` and `timezone` are what parsing the requested ones gave. The file is kept in
    /// its order.
    pub fn create(
        &mut self,
        input: &CreateSchedule,
        id: u128,
        now: Timestamp,
        cron: Result<String, String>,
        timezone: Result<String, String>,
    ) -> (r: Result<Schedule, ScheduleRepositoryError>)
        ensures
            match r {
                Ok(s) => checked_schedule_spec(
                    ScheduleView {
                        id,
                        title: input.title@,
                        request: input.request@,
                        cron: input.cron@,
                        timezone: input.timezone@,
                        enabled: input.enabled,
                        created_at: now,
                        updated_at: now,
                    },
                    parse_view(cron),
                    parse_view(timezone),
                ) == Ok::<ScheduleView, Seq<char>>(s@) && final(self).schedules().to_multiset() == old(
                    self,
                ).schedules().to_multiset().insert(s@) && in_schedule_order(final(self).schedules()) && ((
                distinct_ids(old(self).schedules()) && forall|i: int|
                    0 <= i < old(self).schedules().len() ==> #[trigger] old(self).schedules()[i].id != id)
                    ==> distinct_ids(final(self).schedules()) && find_spec(final(self).schedules(), id)
                    == Some(s@)),
                Err(e) => (checked_schedule_spec(
                    ScheduleView {
                        id,
                        title: input.title@,
                        request: input.request@,
                        cron: input.cron@,
                        timezone: input.timezone@,
                        enabled: input.enabled,
                        created_at: now,
                        updated_at: now,
                    },
                    parse_view(cron),
                    parse_view(timezone),
                ) matches Err(m) && e@ == ScheduleErrorView::InvalidSchedule(m)) && final(self).schedules()
                    == old(self).schedules(),
            },
    {
        let candidate = Schedule {
            id,
            title: input.title.clone(),
            request: input.request.clone(),
            cron: input.cron.clone(),
            timezone: input.timezone.clone(),
            enabled: input.enabled,
            created_at: now,
            updated_at: now,
        };
        let schedule = match checked_schedule(&candidate, cron, timezone) {
            Ok(s) => s,
            Err(m) => return Err(ScheduleRepositoryError::InvalidSchedule(m)),
        };
        let stored = Schedule {
            id: schedule.id,
            title: schedule.title.clone(),
            request: schedule.request.clone(),
            cron: schedule.cron.clone(),
            timezone: schedule.timezone.clone(),
            enabled: schedule.enabled,
            created_at: schedule.created_at,
            updated_at: schedule.updated_at,
        };
        let mut all: Vec<Schedule> = Vec::new();
        std::mem::swap(&mut all, &mut self.schedules);
        let ghost before = schedule_views(all@);
        all.push(stored);
        assert(schedule_views(all@) =~= before.push(schedule@));
        let ghost unsorted = schedule_views(all@);
        self.schedules = sort_schedules(all);
        proof {
            let fv = self.schedules();
            if distinct_ids(before) && forall|i: int| 0 <= i < before.len() ==> #[trigger] before[i].id != id {
                assert(distinct_ids(unsorted)) by {
                    assert forall|a: int, b: int| 0 <= a < b < unsorted.len() implies #[trigger] unsorted[a].id
                        != #[trigger] unsorted[b].id by {
                        if b == before.len() {
                            assert(unsorted[a] == before[a]);
                        } else {
                            assert(unsorted[a] == before[a] && unsorted[b] == before[b]);
                        }
                    }
                }
                lemma_distinct_ids_permutation(unsorted, fv);
                assert(unsorted[before.len() as int] == schedule@);
                assert(unsorted.to_multiset().count(schedule@) > 0);
                assert(fv.to_multiset().count(schedule@) > 0);
                let k = choose|k: int| 0 <= k < fv.len() && fv[k] == schedule@;
                lemma_find_unique(fv, k);
            }
        }
        Ok(schedule)
    }

    /// What a change of the schedule `id` would store before its fields are checked: the
    /// given fields replace the stored ones and `now` becomes its update time.
    pub fn update_candidate(&self, id: u128, input: &UpdateSchedule, now: Timestamp) -> (r: Result<
        Schedule,
        ScheduleRepositoryError,
    >)
        ensures
            match find_spec(self.schedules(), id) {
                None => r matches Err(e) && e@ == ScheduleErrorView::NotFound(id),
                Some(old) => r matches Ok(c) && c@ == ScheduleView {
                    id: old.id,
                    title: match input.title {
                        Some(t) => t@,
                        None => old.title,
                    },
                    request: match input.request {
                        Some(t) => t@,
                        None => old.request,
                    },
                    cron: match input.cron {
                        Some(t) => t@,
                        None => old.cron,
                    },
                    timezone: match input.timezone {
                        Some(t) => t@,
                        None => old.timezone,
                    },
                    enabled: match input.enabled {
                        Some(b) => b,
                        None => old.enabled,
                    },
                    created_at: old.created_at,
                    updated_at: now,
                },
            },
    {
        let s = match self.find_by_id(id) {
            None => return Err(ScheduleRepositoryError::NotFound(id)),
            Some(s) => s,
        };
        Ok(
            Schedule {
                id: s.id,
                title: match &input.title {
                    Some(t) => t.clone(),
                    None => s.title.clone(),
                },
                request: match &input.request {
                    Some(t) => t.clone(),
                    None => s.request.clone(),
                },
                cron: match &input.cron {
                    Some(t) => t.clone(),
                    None => s.cron.clone(),
                },
                timezone: match &input.timezone {
                    Some(t) => t.clone(),
                    None => s.timezone.clone(),
                },
                enabled: match input.enabled {
                    Some(b) => b,
                    None => s.enabled,
                },
                created_at: s.created_at,
                updated_at: now,
            },
        )
    }

    /// Stores a change made by [`ScheduleTable::update_candidate`] when its fields check out:
    /// the first schedule with the candidate's id takes the checked fields, and the file is
    /// kept in its order; `cron` and `timezone` are what parsing the candidate's gave.
    pub fn apply_update(
        &mut self,
        candidate: &Schedule,
        cron: Result<String, String>,
        timezone: Result<String, String>,
    ) -> (r: Result<Schedule, ScheduleRepositoryError>)
        ensures
            match r {
                Ok(s) => checked_schedule_spec(candidate@, parse_view(cron), parse_view(timezone)) == Ok::<
                    ScheduleView,
                    Seq<char>,
                >(s@) && (exists|old_one: ScheduleView|
                    #[trigger] find_spec(old(self).schedules(), candidate.id) == Some(old_one)
                        && final(self).schedules().to_multiset() == old(self).schedules().to_multiset().remove(
                        old_one,
                    ).insert(s@)) && in_schedule_order(final(self).schedules()) && (distinct_ids(
                    old(self).schedules(),
                ) ==> distinct_ids(final(self).schedules()) && find_spec(final(self).schedules(), s.id)
                    == Some(s@)),
                Err(e) => final(self).schedules() == old(self).schedules() && (match checked_schedule_spec(
                    candidate@,
                    parse_view(cron),
                    parse_view(timezone),
                ) {
                    Err(m) => e@ == ScheduleErrorView::InvalidSchedule(m),
                    Ok(_) => find_spec(old(self).schedules(), candidate.id) is None && e@
                        == ScheduleErrorView::NotFound(candidate.id),
                }),
            },
    {
        let checked = match checked_schedule(candidate, cron, timezone) {
            Ok(s) => s,
            Err(m) => return Err(ScheduleRepositoryError::InvalidSchedule(m)),
        };
        let ghost sv = self.schedules();
        let i = match self.index_of(candidate.id) {
            None => return Err(ScheduleRepositoryError::NotFound(candidate.id)),
            Some(i) => i,
        };
        let stored = Schedule {
            id: checked.id,
            title: checked.title.clone(),
            request: checked.request.clone(),
            cron: checked.cron.clone(),
            timezone: checked.timezone.clone(),
            enabled: checked.enabled,
            created_at: checked.created_at,
            updated_at: checked.updated_at,
        };
        let mut all: Vec<Schedule> = Vec::new();
        std::mem::swap(&mut all, &mut self.schedules);
        all.set(i, stored);
        proof {
            let nv = schedule_views(all@);
            assert(nv =~= sv.update(i as int, checked@));
            assert(find_spec(sv, candidate.id) == Some(sv[i as int]));
            vstd::seq_lib::lemma_update_is_remove_insert(sv, i as int, checked@);
            lemma_find_found(sv, candidate.id);
            assert(checked@.id == candidate.id);
            if distinct_ids(sv) {
                assert(distinct_ids(nv)) by {
                    assert forall|a: int, b: int| 0 <= a < b < nv.len() implies #[trigger] nv[a].id
                        != #[trigger] nv[b].id by {
                        assert(nv[a].id == sv[a].id && nv[b].id == sv[b].id);
                    }
                }
            }
        }
        let ghost unsorted = schedule_views(all@);
        self.schedules = sort_schedules(all);
        proof {
            let fv = self.schedules();
            if distinct_ids(sv) {
                lemma_distinct_ids_permutation(unsorted, fv);
                assert(unsorted[i as int] == checked@);
                assert(unsorted.to_multiset().count(checked@) > 0);
                assert(fv.to_multiset().count(checked@) > 0);
                let k = choose|k: int| 0 <= k < fv.len() && fv[k] == checked@;
                lemma_find_unique(fv, k);
            }
        }
        Ok(checked)
    }
}

} // verus!


verus! {

/// The lowercase hex digit of `d < 16`.
pub open spec fn hex_digit(d: nat) -> char {
    if d < 10 {
        (48 + d) as char
    } else {
        (87 + d) as char
    }
}

/// The last `n` hex digits of `v`, most significant first.
pub open spec fn hex_digits(v: nat, n: nat) -> Seq<char>
    decreases n,
{
    if n == 0 {
        Seq::empty()
    } else {
        hex_digits(v / 16, (n - 1) as nat).push(hex_digit(v % 16))
    }
}

/// What a `uuid::Uuid` holding `id` displays as: the 32 lowercase hex digits of `id`, most
/// significant first, grouped 8-4-4-4-12 with hyphens.
pub open spec fn uuid_hyphenated(id: u128) -> Seq<char> {
    let h = hex_digits(id as nat, 32);
    h.subrange(0, 8) + "-"@ + h.subrange(8, 12) + "-"@ + h.subrange(12, 16) + "-"@ + h.subrange(16, 20) + "-"@
        + h.subrange(20, 32)
}

/// Calls `Uuid::from_u128` and `to_string`, which gives the hyphenated form.
#[verifier::external_body]
pub(crate) fn uuid_text(id: u128) -> (s: String)
    ensures
        s@ == uuid_hyphenated(id),
{
    uuid::Uuid::from_u128(id).to_string()
}

/// A stored schedule as the store hands it out: its fields checked, or an error that names
/// the schedule.
pub fn try_into_model(stored: &Schedule, cron: Result<String, String>, timezone: Result<String, String>) -> (r: Result<
    Schedule,
    ScheduleRepositoryError,
>)
    ensures
        match r {
            Ok(s) => checked_schedule_spec(stored@, parse_view(cron), parse_view(timezone)) == Ok::<
                ScheduleView,
                Seq<char>,
            >(s@),
            Err(e) => checked_schedule_spec(stored@, parse_view(cron), parse_view(timezone)) matches Err(m)
                && e@ == ScheduleErrorView::Unexpected(
                "invalid stored schedule "@ + uuid_hyphenated(stored.id) + ": "@ + m,
            ),
        },
{
    match checked_schedule(stored, cron, timezone) {
        Ok(s) => Ok(s),
        Err(m) => {
            let a = concat("invalid stored schedule ", uuid_text(stored.id).as_str());
            let b = concat(a.as_str(), ": ");
            Err(ScheduleRepositoryError::Unexpected(concat(b.as_str(), m.as_str())))
        },
    }
}

} // verus!

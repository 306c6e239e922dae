use vstd::prelude::*;

use crate::error::ProcessManagerError;
use crate::persistence::schedules::Timestamp;
use crate::process::log_buffer::{appended_log, LogBufferView, ProcessLogBuffer};
use crate::text::{byte_len, concat, str_eq};

verus! {

/// Where a background process stands.
#[derive(Debug, Clone, Copy, PartialEq, Eq, Structural)]
pub enum ProcessStatus {
    Running,
    Exited,
    Failed,
    TimedOut,
    Killed,
}

/// What is known of a background process.
pub struct ProcessSnapshot {
    pub process_id: String,
    pub status: ProcessStatus,
    pub command: String,
    pub cwd: String,
    pub pid: Option<u32>,
    pub started_at: Timestamp,
    pub finished_at: Option<Timestamp>,
    pub exit_code: Option<i32>,
}

/// The logs of a background process.
pub struct ProcessLogs {
    pub process_id: String,
    pub status: ProcessStatus,
    pub stdout: String,
    pub stderr: String,
    pub truncated: bool,
}

/// How the supervision of a process ended: the process exited (with its code, if any), waiting
/// for it failed, it ran past its time limit, a kill asked for was done (with the exit code the
/// wait after it gave, if any), or the kill failed.
pub enum Ending {
    Exited(Option<i32>),
    WaitFailed(String),
    TimedOut,
    Killed(Option<i32>),
    KillFailed(String),
}

/// The status and exit code an ending leaves, and the message it adds to the error log.
pub open spec fn ending_outcome_spec(ending: Ending) -> (ProcessStatus, Option<i32>, Option<Seq<char>>) {
    match ending {
        Ending::Exited(code) => (ProcessStatus::Exited, code, None),
        Ending::WaitFailed(e) => (ProcessStatus::Failed, None, Some("failed to wait process: "@ + e@)),
        Ending::TimedOut => (ProcessStatus::TimedOut, None, None),
        Ending::Killed(code) => (ProcessStatus::Killed, code, None),
        Ending::KillFailed(e) => (ProcessStatus::Failed, None, Some("failed to kill process: "@ + e@)),
    }
}

/// The status and exit code an ending leaves, and the message it adds to the error log.
pub fn ending_outcome(ending: &Ending) -> (r: (ProcessStatus, Option<i32>, Option<String>))
    ensures
        (r.0, r.1, match r.2 {
            Some(m) => Some(m@),
            None => None,
        }) == ending_outcome_spec(*ending),
{
    match ending {
        Ending::Exited(code) => (ProcessStatus::Exited, *code, None),
        Ending::WaitFailed(e) => (ProcessStatus::Failed, None, Some(concat("failed to wait process: ", e.as_str()))),
        Ending::TimedOut => (ProcessStatus::TimedOut, None, None),
        Ending::Killed(code) => (ProcessStatus::Killed, *code, None),
        Ending::KillFailed(e) => (ProcessStatus::Failed, None, Some(concat("failed to kill process: ", e.as_str()))),
    }
}

/// A note in a process's error log: on its own line, marked as the manager's.
pub open spec fn manager_note(message: Seq<char>) -> Seq<char> {
    "\n[process_manager] "@ + message + "\n"@
}

/// The shell that runs background commands: `$SHELL` when set, else `/bin/sh`.
pub fn shell_program(env_shell: Option<String>) -> (s: String)
    ensures
        s@ == match env_shell {
            Some(v) => v@,
            None => "/bin/sh"@,
        },
{
    match env_shell {
        Some(v) => v,
        None => "/bin/sh".to_owned(),
    }
}

/// A background process under supervision: what is known of it and its logs.
pub struct ManagedProcess {
    state: ProcessSnapshot,
    logs: ProcessLogBuffer,
}

impl ManagedProcess {
    pub closed spec fn id(&self) -> Seq<char> {
        self.state.process_id@
    }

    pub closed spec fn status(&self) -> ProcessStatus {
        self.state.status
    }

    pub closed spec fn exit_code(&self) -> Option<i32> {
        self.state.exit_code
    }

    pub closed spec fn finished_at(&self) -> Option<Timestamp> {
        self.state.finished_at
    }

    pub closed spec fn log(&self) -> LogBufferView {
        self.logs@
    }

    /// How the process ended, as far as it has: its status, exit code and finish time.
    pub open spec fn outcome(&self) -> (ProcessStatus, Option<i32>, Option<Timestamp>) {
        (self.status(), self.exit_code(), self.finished_at())
    }

    /// The supervision's invariant: the logs stay within their limit, a process has a finish
    /// time exactly when it no longer runs, and only an exited or killed process has an exit code.
    pub open spec fn wf(&self) -> bool {
        &&& self.log().wf()
        &&& (self.status() == ProcessStatus::Running <==> self.finished_at() is None)
        &&& (self.exit_code() is Some ==> self.status() == ProcessStatus::Exited || self.status()
            == ProcessStatus::Killed)
    }

    /// A process that has just started running.
    pub fn start(
        process_id: String,
        command: String,
        cwd: String,
        pid: Option<u32>,
        started_at: Timestamp,
        max_log_bytes: usize,
    ) -> (p: Self)
        ensures
            p.wf(),
            p.id() == process_id@,
            p.status() == ProcessStatus::Running,
            p.exit_code() is None,
            p.log().max_bytes == max_log_bytes,
            p.log().stdout.len() == 0 && p.log().stderr.len() == 0 && !p.log().truncated,
    {
        Self {
            state: ProcessSnapshot {
                process_id,
                status: ProcessStatus::Running,
                command,
                cwd,
                pid,
                started_at,
                finished_at: None,
                exit_code: None,
            },
            logs: ProcessLogBuffer::new(max_log_bytes),
        }
    }

    /// The process's id.
    pub fn process_id(&self) -> (s: &str)
        ensures
            s@ == self.id(),
    {
        self.state.process_id.as_str()
    }

    /// What is known of the process.
    pub fn snapshot(&self) -> (s: ProcessSnapshot)
        ensures
            s.process_id@ == self.id(),
            s.status == self.status(),
            s.exit_code == self.exit_code(),
            s.finished_at == self.finished_at(),
    {
        ProcessSnapshot {
            process_id: self.state.process_id.clone(),
            status: self.state.status,
            command: self.state.command.clone(),
            cwd: self.state.cwd.clone(),
            pid: self.state.pid,
            started_at: self.state.started_at,
            finished_at: self.state.finished_at,
            exit_code: self.state.exit_code,
        }
    }

    /// The process's logs.
    pub fn logs(&self) -> (l: ProcessLogs)
        ensures
            l.process_id@ == self.id(),
            l.status == self.status(),
            l.stdout@ == self.log().stdout,
            l.stderr@ == self.log().stderr,
            l.truncated == self.log().truncated,
    {
        ProcessLogs {
            process_id: self.state.process_id.clone(),
            status: self.state.status,
            stdout: self.logs.stdout().to_owned(),
            stderr: self.logs.stderr().to_owned(),
            truncated: self.logs.truncated(),
        }
    }

    /// Adds output the process wrote to its standard output.
    pub fn append_stdout(&mut self, text: &str)
        requires
            old(self).wf(),
            byte_len(old(self).log().stdout) + byte_len(text@) <= usize::MAX,
        ensures
            final(self).wf(),
            may_follow(*old(self), *final(self)),
            final(self).outcome() == old(self).outcome(),
            final(self).log() == old(self).log().appended(true, text@),
            final(self).log().stdout == appended_log(old(self).log().stdout, text@, old(self).log().max_bytes),
            final(self).log().stderr == old(self).log().stderr,
            final(self).status() == old(self).status(),
            final(self).id() == old(self).id(),
    {
        self.logs.append_stdout(text);
    }

    /// Adds output the process wrote to its standard error.
    pub fn append_stderr(&mut self, text: &str)
        requires
            old(self).wf(),
            byte_len(old(self).log().stderr) + byte_len(text@) <= usize::MAX,
        ensures
            final(self).wf(),
            may_follow(*old(self), *final(self)),
            final(self).outcome() == old(self).outcome(),
            final(self).log() == old(self).log().appended(false, text@),
            final(self).log().stderr == appended_log(old(self).log().stderr, text@, old(self).log().max_bytes),
            final(self).log().stdout == old(self).log().stdout,
            final(self).status() == old(self).status(),
            final(self).id() == old(self).id(),
    {
        self.logs.append_stderr(text);
    }

    /// Notes in the error log that reading one of the process's streams failed.
    pub fn read_failed(&mut self, stream: &str, error: &str)
        requires
            old(self).wf(),
            byte_len(old(self).log().stderr) + byte_len(manager_note("failed to read "@ + stream@ + ": "@ + error@))
                <= usize::MAX,
        ensures
            final(self).wf(),
            may_follow(*old(self), *final(self)),
            final(self).outcome() == old(self).outcome(),
            final(self).log() == old(self).log().appended(false, manager_note("failed to read "@ + stream@ + ": "@ + error@)),
            final(self).log().stderr == appended_log(
                old(self).log().stderr,
                manager_note("failed to read "@ + stream@ + ": "@ + error@),
                old(self).log().max_bytes,
            ),
            final(self).status() == old(self).status(),
            final(self).id() == old(self).id(),
    {
        let a = concat("failed to read ", stream);
        let b = concat(a.as_str(), ": ");
        let m = concat(b.as_str(), error);
        let n1 = concat("\n[process_manager] ", m.as_str());
        let note = concat(n1.as_str(), "\n");
        self.logs.append_stderr(note.as_str());
    }

    /// Records how the supervision of a running process ended, at `now`: the status and exit
    /// code it leaves, and a note in the error log when waiting or killing failed. A process is
    /// supervised once, so it finishes once.
    pub fn finish(&mut self, ending: &Ending, now: Timestamp)
        requires
            old(self).wf(),
            old(self).status() == ProcessStatus::Running,
            ending_outcome_spec(*ending).2 matches Some(m) ==> byte_len(old(self).log().stderr) + byte_len(
                manager_note(m),
            ) <= usize::MAX,
        ensures
            final(self).wf(),
            may_follow(*old(self), *final(self)),
            final(self).status() == ending_outcome_spec(*ending).0,
            final(self).exit_code() == ending_outcome_spec(*ending).1,
            final(self).finished_at() == Some(now),
            final(self).id() == old(self).id(),
            final(self).log() == match ending_outcome_spec(*ending).2 {
                Some(m) => old(self).log().appended(false, manager_note(m)),
                None => old(self).log(),
            },
            final(self).log().stdout == old(self).log().stdout,
            final(self).log().stderr == match ending_outcome_spec(*ending).2 {
                Some(m) => appended_log(old(self).log().stderr, manager_note(m), old(self).log().max_bytes),
                None => old(self).log().stderr,
            },
    {
        let (status, exit_code, note) = ending_outcome(ending);
        match note {
            Some(m) => {
                let n1 = concat("\n[process_manager] ", m.as_str());
                let line = concat(n1.as_str(), "\n");
                self.logs.append_stderr(line.as_str());
            },
            None => {},
        }
        self.state.status = status;
        self.state.exit_code = exit_code;
        self.state.finished_at = Some(now);
    }
}

/// `b` is `a` after one of the operations on a supervised process: the same process, and if `a`
/// had already finished, with the same outcome.
pub open spec fn may_follow(a: ManagedProcess, b: ManagedProcess) -> bool {
    &&& a.id() == b.id()
    &&& a.status() != ProcessStatus::Running ==> b.outcome() == a.outcome()
}

/// Every ending leaves a process that no longer runs, so a finished process cannot be
/// finished again.
pub proof fn law_finished_process_stays_finished(ending: Ending)
    ensures
        ending_outcome_spec(ending).0 != ProcessStatus::Running,
{
}

/// Along any history of a supervised process, each state following the one before by one of its
/// operations, the status changes at most once, from `Running`; after that the status, exit
/// code and finish time never change again.
pub proof fn law_process_finishes_at_most_once(history: Seq<ManagedProcess>)
    requires
        forall|k: int| 0 <= k < history.len() - 1 ==> #[trigger] may_follow(history[k], history[k + 1]),
    ensures
        forall|i: int, j: int|
            0 <= i <= j < history.len() && #[trigger] history[i].status() != ProcessStatus::Running
                ==> #[trigger] history[j].outcome() == history[i].outcome(),
{
    assert forall|i: int, j: int|
        0 <= i <= j < history.len() && #[trigger] history[i].status() != ProcessStatus::Running implies
        #[trigger] history[j].outcome() == history[i].outcome() by {
        lemma_outcome_kept(history, i, j);
    }
}

proof fn lemma_outcome_kept(history: Seq<ManagedProcess>, i: int, j: int)
    requires
        forall|k: int| 0 <= k < history.len() - 1 ==> #[trigger] may_follow(history[k], history[k + 1]),
        0 <= i <= j < history.len(),
        history[i].status() != ProcessStatus::Running,
    ensures
        history[j].outcome() == history[i].outcome(),
    decreases j - i,
{
    if j > i {
        lemma_outcome_kept(history, i, j - 1);
        let k = j - 1;
        assert(0 <= k < history.len() - 1);
        assert(may_follow(history[k], history[k + 1]));
        assert(k + 1 == j);
    }
}

/// The first process of `ps` from position `i` on whose id is `id`.
spec fn find_from(ps: Seq<ManagedProcess>, id: Seq<char>, i: int) -> Option<ManagedProcess>
    decreases ps.len() - i,
{
    if i < 0 || i >= ps.len() {
        None
    } else if ps[i].id() == id {
        Some(ps[i])
    } else {
        find_from(ps, id, i + 1)
    }
}

/// Replacing a process by one with the same id changes what is found under that id only.
proof fn lemma_find_after_update(ps: Seq<ManagedProcess>, i: int, x: ManagedProcess, id: Seq<char>, j: int)
    requires
        0 <= i < ps.len(),
        0 <= j,
        x.id() == ps[i].id(),
    ensures
        id != x.id() ==> find_from(ps.update(i, x), id, j) == find_from(ps, id, j),
        (j <= i && forall|k: int| j <= k < i ==> #[trigger] ps[k].id() != id) && id == x.id() ==> find_from(
            ps.update(i, x),
            id,
            j,
        ) == Some(x),
    decreases ps.len() - j,
{
    if j < ps.len() {
        lemma_find_after_update(ps, i, x, id, j + 1);
    }
}

/// No process from `i` on has the id `id`: nothing is found.
proof fn lemma_find_none(ps: Seq<ManagedProcess>, id: Seq<char>, i: int)
    requires
        0 <= i,
        forall|k: int| i <= k < ps.len() ==> #[trigger] ps[k].id() != id,
    ensures
        find_from(ps, id, i) is None,
    decreases ps.len() - i,
{
    if i < ps.len() {
        lemma_find_none(ps, id, i + 1);
    }
}

/// Adding a process at the end changes what is found only under an id not found before.
proof fn lemma_find_after_push(ps: Seq<ManagedProcess>, x: ManagedProcess, id: Seq<char>, j: int)
    requires
        0 <= j <= ps.len(),
    ensures
        find_from(ps.push(x), id, j) == match find_from(ps, id, j) {
            Some(p) => Some(p),
            None => if x.id() == id {
                Some(x)
            } else {
                None
            },
        },
    decreases ps.len() - j,
{
    assert(ps.push(x).len() == ps.len() + 1);
    if j < ps.len() {
        assert(ps.push(x)[j] == ps[j]);
        lemma_find_after_push(ps, x, id, j + 1);
    } else {
        assert(ps.push(x)[j] == x);
        assert(find_from(ps.push(x), id, j + 1) is None);
    }
}

/// What is found is one of the processes.
proof fn lemma_find_member(ps: Seq<ManagedProcess>, id: Seq<char>, j: int)
    requires
        0 <= j,
    ensures
        find_from(ps, id, j) matches Some(p) ==> exists|i: int| j <= i < ps.len() && ps[i] == p,
    decreases ps.len() - j,
{
    if j < ps.len() {
        lemma_find_member(ps, id, j + 1);
    }
}

/// Taking a process out and putting another with the same id back in its place replaces it.
proof fn lemma_put_back(ps: Seq<ManagedProcess>, i: int, x: ManagedProcess)
    requires
        0 <= i < ps.len(),
        x.id() == ps[i].id(),
        forall|k: int| 0 <= k < i ==> #[trigger] ps[k].id() != x.id(),
    ensures
        ps.remove(i).insert(i, x) == ps.update(i, x),
        find_from(ps.update(i, x), x.id(), 0) == Some(x),
        forall|id: Seq<char>| id != x.id() ==> #[trigger] find_from(ps.update(i, x), id, 0) == find_from(ps, id, 0),
{
    assert(ps.remove(i).insert(i, x) =~= ps.update(i, x));
    lemma_find_after_update(ps, i, x, x.id(), 0);
    assert forall|id: Seq<char>| id != x.id() implies #[trigger] find_from(ps.update(i, x), id, 0) == find_from(ps, id, 0) by {
        lemma_find_after_update(ps, i, x, id, 0);
    }
}

/// The background processes, by id.
pub struct ProcessTable {
    processes: Vec<ManagedProcess>,
}

impl ProcessTable {
    /// The ids of the processes, in the order they were added.
    pub closed spec fn ids(&self) -> Seq<Seq<char>> {
        self.processes@.map_values(|p: ManagedProcess| p.id())
    }

    /// The process kept under the id `id`, if any.
    pub closed spec fn find(&self, id: Seq<char>) -> Option<ManagedProcess> {
        find_from(self.processes@, id, 0)
    }

    /// Every process in the table keeps its supervision's invariant.
    pub closed spec fn wf(&self) -> bool {
        forall|i: int| 0 <= i < self.processes@.len() ==> (#[trigger] self.processes@[i]).wf()
    }

    /// A process found in a table that keeps its invariant keeps its own.
    pub proof fn lemma_found_wf(&self, id: Seq<char>)
        requires
            self.wf(),
        ensures
            self.find(id) matches Some(p) ==> p.wf(),
    {
        lemma_find_member(self.processes@, id, 0);
    }

    pub fn new() -> (t: Self)
        ensures
            t.wf(),
            t.ids() == Seq::<Seq<char>>::empty(),
            forall|id: Seq<char>| #[trigger] t.find(id) is None,
    {
        let t = Self { processes: Vec::new() };
        assert(t.ids() =~= Seq::<Seq<char>>::empty());
        t
    }

    /// Adds a started process; a process under the same id is replaced.
    pub fn insert(&mut self, process: ManagedProcess)
        ensures
            old(self).wf() && process.wf() ==> final(self).wf(),
            final(self).ids().contains(process.id()),
            forall|id: Seq<char>| #[trigger] old(self).ids().contains(id) ==> final(self).ids().contains(id),
            final(self).find(process.id()) == Some(process),
            forall|id: Seq<char>| id != process.id() ==> #[trigger] final(self).find(id) == old(self).find(id),
    {
        let ghost pid = process.id();
        let ghost proc = process;
        let ghost ps0 = self.processes@;
        let mut i: usize = 0;
        while i < self.processes.len()
            invariant
                i <= self.processes.len(),
                pid == process.id(),
                proc == process,
                self.ids() == old(self).ids(),
                self.processes@ == ps0,
                ps0 == old(self).processes@,
                forall|k: int| 0 <= k < i ==> #[trigger] self.ids()[k] != pid,
            decreases self.processes.len() - i,
        {
            if str_eq(self.processes[i].process_id(), process.process_id()) {
                let ghost before = self.ids();
                assert(ps0[i as int].id() == self.ids()[i as int]);
                self.processes.set(i, process);
                proof {
                    assert(self.processes@ == ps0.update(i as int, proc));
                    assert forall|k: int| 0 <= k < i implies #[trigger] ps0[k].id() != pid by {
                        assert(before[k] == ps0[k].id());
                    }
                    assert forall|id: Seq<char>| id != pid implies #[trigger] find_from(self.processes@, id, 0)
                        == find_from(ps0, id, 0) by {
                        lemma_find_after_update(ps0, i as int, proc, id, 0);
                    }
                    lemma_find_after_update(ps0, i as int, proc, pid, 0);
                    assert(self.ids() =~= before.update(i as int, pid));
                    assert(self.ids()[i as int] == pid);
                    assert forall|id: Seq<char>| #[trigger] before.contains(id) implies self.ids().contains(id) by {
                        let k = choose|k: int| 0 <= k < before.len() && before[k] == id;
                        assert(self.ids()[k] == id);
                    }
                }
                return;
            }
            assert(self.ids()[i as int] == self.processes@[i as int].id());
            i += 1;
        }
        let ghost before = self.ids();
        proof {
            assert forall|k: int| 0 <= k < ps0.len() implies #[trigger] ps0[k].id() != pid by {
                assert(before[k] == ps0[k].id());
            }
            lemma_find_none(ps0, pid, 0);
        }
        self.processes.push(process);
        proof {
            assert forall|id: Seq<char>| id != pid implies #[trigger] find_from(self.processes@, id, 0)
                == find_from(ps0, id, 0) by {
                lemma_find_after_push(ps0, proc, id, 0);
            }
            lemma_find_after_push(ps0, proc, pid, 0);
            assert(self.ids() =~= before.push(pid));
            assert(self.ids()[before.len() as int] == pid);
            assert forall|id: Seq<char>| #[trigger] before.contains(id) implies self.ids().contains(id) by {
                let k = choose|k: int| 0 <= k < before.len() && before[k] == id;
                assert(self.ids()[k] == id);
            }
        }
    }

    fn index_of(&self, process_id: &str) -> (r: Option<usize>)
        ensures
            match r {
                Some(i) => i < self.ids().len() && self.ids()[i as int] == process_id@ && self.find(process_id@)
                    == Some(self.processes@[i as int]) && forall|k: int| 0 <= k < i ==> #[trigger] self.ids()[k]
                    != process_id@,
                None => !self.ids().contains(process_id@) && self.find(process_id@) is None,
            },
    {
        let mut i: usize = 0;
        while i < self.processes.len()
            invariant
                i <= self.processes.len(),
                forall|k: int| 0 <= k < i ==> #[trigger] self.ids()[k] != process_id@,
                find_from(self.processes@, process_id@, 0) == find_from(self.processes@, process_id@, i as int),
            decreases self.processes.len() - i,
        {
            assert(self.ids()[i as int] == self.processes@[i as int].id());
            if str_eq(self.processes[i].process_id(), process_id) {
                return Some(i);
            }
            i += 1;
        }
        None
    }

    /// The process with the id `process_id`.
    pub fn get_process(&self, process_id: &str) -> (r: Result<&ManagedProcess, ProcessManagerError>)
        ensures
            match r {
                Ok(p) => p.id() == process_id@ && self.ids().contains(process_id@) && self.find(process_id@)
                    == Some(*p),
                Err(e) => !self.ids().contains(process_id@) && self.find(process_id@) is None && (e matches ProcessManagerError::NotFound(id)
                    && id@ == process_id@),
            },
    {
        match self.index_of(process_id) {
            Some(i) => {
                assert(self.ids()[i as int] == self.processes@[i as int].id());
                Ok(&self.processes[i])
            },
            None => Err(ProcessManagerError::NotFound(process_id.to_owned())),
        }
    }

    /// What is known of the process with the id `process_id`.
    pub fn status(&self, process_id: &str) -> (r: Result<ProcessSnapshot, ProcessManagerError>)
        ensures
            match self.find(process_id@) {
                Some(p) => r matches Ok(s) && s.process_id@ == p.id() && s.status == p.status() && s.exit_code
                    == p.exit_code() && s.finished_at == p.finished_at(),
                None => r matches Err(e) && (e matches ProcessManagerError::NotFound(id) && id@ == process_id@),
            },
    {
        match self.get_process(process_id) {
            Ok(p) => Ok(p.snapshot()),
            Err(e) => Err(e),
        }
    }

    /// The logs of the process with the id `process_id`.
    pub fn logs(&self, process_id: &str) -> (r: Result<ProcessLogs, ProcessManagerError>)
        ensures
            match self.find(process_id@) {
                Some(p) => r matches Ok(l) && l.process_id@ == p.id() && l.status == p.status() && l.stdout@
                    == p.log().stdout && l.stderr@ == p.log().stderr && l.truncated == p.log().truncated,
                None => r matches Err(e) && (e matches ProcessManagerError::NotFound(id) && id@ == process_id@),
            },
    {
        match self.get_process(process_id) {
            Ok(p) => Ok(p.logs()),
            Err(e) => Err(e),
        }
    }

    /// Adds output that the process with the id `process_id` wrote to its standard output
    /// (`to_stdout`) or standard error.
    pub fn append_output(&mut self, process_id: &str, to_stdout: bool, text: &str) -> (r: Result<
        (),
        ProcessManagerError,
    >)
        requires
            old(self).wf(),
            old(self).find(process_id@) matches Some(p) ==> byte_len(p.log().log_of(to_stdout)) + byte_len(text@)
                <= usize::MAX,
        ensures
            final(self).wf(),
            forall|id: Seq<char>| id != process_id@ ==> #[trigger] final(self).find(id) == old(self).find(id),
            match old(self).find(process_id@) {
                Some(p) => r is Ok && (final(self).find(process_id@) matches Some(q) && may_follow(p, q)
                    && q.outcome() == p.outcome() && q.log() == p.log().appended(to_stdout, text@)),
                None => (r matches Err(e) && (e matches ProcessManagerError::NotFound(id) && id@ == process_id@))
                    && final(self).find(process_id@) is None,
            },
    {
        match self.index_of(process_id) {
            None => Err(ProcessManagerError::NotFound(process_id.to_owned())),
            Some(i) => {
                let ghost ps = self.processes@;
                proof {
                    assert(ps[i as int].wf());
                    assert forall|k: int| 0 <= k < i implies #[trigger] ps[k].id() != process_id@ by {
                        assert(self.ids()[k] == ps[k].id());
                    }
                }
                let mut p = self.processes.remove(i);
                if to_stdout {
                    p.append_stdout(text);
                } else {
                    p.append_stderr(text);
                }
                let ghost q = p;
                self.processes.insert(i, p);
                proof {
                    lemma_put_back(ps, i as int, q);
                }
                Ok(())
            },
        }
    }

    /// Notes in the error log of the process with the id `process_id` that reading one of its
    /// streams failed.
    pub fn note_read_failure(&mut self, process_id: &str, stream: &str, error: &str) -> (r: Result<
        (),
        ProcessManagerError,
    >)
        requires
            old(self).wf(),
            old(self).find(process_id@) matches Some(p) ==> byte_len(p.log().stderr) + byte_len(
                manager_note("failed to read "@ + stream@ + ": "@ + error@),
            ) <= usize::MAX,
        ensures
            final(self).wf(),
            forall|id: Seq<char>| id != process_id@ ==> #[trigger] final(self).find(id) == old(self).find(id),
            match old(self).find(process_id@) {
                Some(p) => r is Ok && (final(self).find(process_id@) matches Some(q) && may_follow(p, q)
                    && q.outcome() == p.outcome() && q.log() == p.log().appended(
                    false,
                    manager_note("failed to read "@ + stream@ + ": "@ + error@),
                )),
                None => (r matches Err(e) && (e matches ProcessManagerError::NotFound(id) && id@ == process_id@))
                    && final(self).find(process_id@) is None,
            },
    {
        match self.index_of(process_id) {
            None => Err(ProcessManagerError::NotFound(process_id.to_owned())),
            Some(i) => {
                let ghost ps = self.processes@;
                proof {
                    assert(ps[i as int].wf());
                    assert forall|k: int| 0 <= k < i implies #[trigger] ps[k].id() != process_id@ by {
                        assert(self.ids()[k] == ps[k].id());
                    }
                }
                let mut p = self.processes.remove(i);
                p.read_failed(stream, error);
                let ghost q = p;
                self.processes.insert(i, p);
                proof {
                    lemma_put_back(ps, i as int, q);
                }
                Ok(())
            },
        }
    }

    /// Records how the supervision of the running process with the id `process_id` ended, at
    /// `now`.
    pub fn finish_process(&mut self, process_id: &str, ending: &Ending, now: Timestamp) -> (r: Result<
        (),
        ProcessManagerError,
    >)
        requires
            old(self).wf(),
            old(self).find(process_id@) matches Some(p) ==> p.status() == ProcessStatus::Running && (ending_outcome_spec(
                *ending,
            ).2 matches Some(m) ==> byte_len(p.log().stderr) + byte_len(manager_note(m)) <= usize::MAX),
        ensures
            final(self).wf(),
            forall|id: Seq<char>| id != process_id@ ==> #[trigger] final(self).find(id) == old(self).find(id),
            match old(self).find(process_id@) {
                Some(p) => r is Ok && (final(self).find(process_id@) matches Some(q) && may_follow(p, q)
                    && q.outcome() == (ending_outcome_spec(*ending).0, ending_outcome_spec(*ending).1, Some(now))
                    && q.log() == match ending_outcome_spec(*ending).2 {
                    Some(m) => p.log().appended(false, manager_note(m)),
                    None => p.log(),
                }),
                None => (r matches Err(e) && (e matches ProcessManagerError::NotFound(id) && id@ == process_id@))
                    && final(self).find(process_id@) is None,
            },
    {
        match self.index_of(process_id) {
            None => Err(ProcessManagerError::NotFound(process_id.to_owned())),
            Some(i) => {
                let ghost ps = self.processes@;
                proof {
                    assert(ps[i as int].wf());
                    assert forall|k: int| 0 <= k < i implies #[trigger] ps[k].id() != process_id@ by {
                        assert(self.ids()[k] == ps[k].id());
                    }
                }
                let mut p = self.processes.remove(i);
                p.finish(ending, now);
                let ghost q = p;
                self.processes.insert(i, p);
                proof {
                    lemma_put_back(ps, i as int, q);
                }
                Ok(())
            },
        }
    }
}

} // verus!

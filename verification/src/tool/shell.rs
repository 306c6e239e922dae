use vstd::prelude::*;

use crate::error::{execution_failed, invalid_arguments, ToolError, ToolErrorView};
use crate::model::ToolPermissionMode;
use crate::path::{is_absolute, is_absolute_exec, path_has_base, path_starts_with};
use crate::process::docker::DockerSandboxRunner;
use crate::text::{chars_of, concat, contains_exec, contains_seq, is_ascii_alphanumeric, occurs_at, occurs_at_exec, trim, trim_str};

verus! {

/// Default run time, in seconds.
pub const DEFAULT_TIMEOUT_SECONDS: u64 = 120;

/// Longest allowed run time, in seconds.
pub const MAX_TIMEOUT_SECONDS: u64 = 600;

/// Most bytes of each output stream that a run returns.
pub const MAX_OUTPUT_BYTES: usize = 32000;

/// Runs non-interactive shell commands in the Docker sandbox.
#[derive(Clone)]
pub struct ShellTool {
    workspace_root: String,
    sandbox_runner: DockerSandboxRunner,
}

impl ShellTool {
    /// A shell tool for `workspace_root`; the sandbox mounts `sandbox_root`, the canonical form
    /// of the workspace root when it has one.
    pub fn new(workspace_root: String, sandbox_root: String, env_file: String, image: String) -> (t:
        Self)
        ensures
            t.workspace_root() == workspace_root@,
            t.sandbox().workspace_root() == sandbox_root@,
            t.sandbox().env_file() == env_file@,
            t.sandbox().image() == image@,
            t.sandbox().max_output_bytes() == MAX_OUTPUT_BYTES,
    {
        let sandbox_runner = DockerSandboxRunner::new(sandbox_root, env_file, image, MAX_OUTPUT_BYTES);
        Self { workspace_root, sandbox_runner }
    }

    pub closed spec fn workspace_root(&self) -> Seq<char> {
        self.workspace_root@
    }

    pub closed spec fn sandbox(&self) -> DockerSandboxRunner {
        self.sandbox_runner
    }

    /// The sandbox that runs this tool's commands.
    pub fn sandbox_runner(&self) -> (r: &DockerSandboxRunner)
        ensures
            *r == self.sandbox(),
    {
        &self.sandbox_runner
    }

    /// The workspace root that relative working directories are taken from.
    pub fn workspace_root_path(&self) -> (s: &str)
        ensures
            s@ == self.workspace_root(),
    {
        self.workspace_root.as_str()
    }

    pub fn name(&self) -> (s: &'static str)
        ensures
            s@ == "shell"@,
    {
        "shell"
    }

    pub fn description(&self) -> (s: &'static str)
        ensures
            s@ == "Run a non-interactive shell command in the Docker sandbox and return stdout, stderr, and exit_code."@,
    {
        "Run a non-interactive shell command in the Docker sandbox and return stdout, stderr, and exit_code."
    }

    pub fn default_permission(&self) -> (m: ToolPermissionMode)
        ensures
            m == ToolPermissionMode::Ask,
    {
        ToolPermissionMode::Ask
    }
}

/// The substrings that make a (lowercased) command refused.
pub open spec fn blocked_patterns() -> Seq<Seq<char>> {
    seq![
        "rm -rf /"@,
        "rm -fr /"@,
        "rm -rf /*"@,
        "rm -fr /*"@,
        "rm -rf ~"@,
        "rm -fr ~"@,
        "rm -rf $home"@,
        "rm -fr $home"@,
        "mkfs"@,
        "wipefs"@,
        "blkdiscard"@,
        "dd if=/dev/zero"@,
        "dd of=/dev/"@,
        "shutdown"@,
        "reboot"@,
        "poweroff"@,
        "halt"@,
        "/etc/shadow"@,
        "~/.ssh"@,
        "$home/.ssh"@,
        "/var/run/docker.sock"@,
        "docker.sock"@,
        "--privileged"@,
        "-v /:/"@,
        "--volume /:/"@,
    ]
}

/// The privilege-raising commands that are refused as whole words.
pub open spec fn blocked_words() -> Seq<Seq<char>> {
    seq!["sudo"@, "sudoedit"@, "su"@, "doas"@, "pkexec"@]
}

/// Characters that belong to a shell word: ASCII letters and digits, `_` and `-`.
pub open spec fn is_word_char(c: char) -> bool {
    is_ascii_alphanumeric(c) || c == '_' || c == '-'
}

/// `word` is one of the parts of `s` split at every non-word character.
pub open spec fn has_shell_word(s: Seq<char>, word: Seq<char>) -> bool {
    &&& forall|k: int| 0 <= k < word.len() ==> is_word_char(#[trigger] word[k])
    &&& exists|i: int| #[trigger] word_at(s, word, i)
}

/// `word` occurs at `i` in `s` and is delimited by non-word characters or the ends of `s`.
pub open spec fn word_at(s: Seq<char>, word: Seq<char>, i: int) -> bool {
    &&& occurs_at(s, word, i)
    &&& (i == 0 || !is_word_char(s[i - 1]))
    &&& (i + word.len() == s.len() || !is_word_char(s[i + word.len()]))
}

/// A lowercased command is refused when it contains a blocked pattern or a blocked word.
pub open spec fn is_hard_blocked(normalized: Seq<char>) -> bool {
    ||| exists|p: int| 0 <= p < blocked_patterns().len() && contains_seq(normalized, #[trigger] blocked_patterns()[p])
    ||| exists|w: int| 0 <= w < blocked_words().len() && has_shell_word(normalized, #[trigger] blocked_words()[w])
}

/// The message of a refusal by the shell safety policy.
pub open spec fn blocked_message() -> Seq<char> {
    "command is blocked by shell safety policy"@
}

/// What `str::to_lowercase` gives for `s` (full Unicode lowercasing).
pub uninterp spec fn unicode_lowercase(s: Seq<char>) -> Seq<char>;

/// Calls `str::to_lowercase`.
#[verifier::external_body]
fn to_lowercase(s: &str) -> (r: String)
    ensures
        r@ == unicode_lowercase(s@),
{
    s.to_lowercase()
}

/// Whether `word` is one of the parts of `command` split at non-word characters.
pub fn contains_shell_word(command: &str, word: &str) -> (b: bool)
    ensures
        b == has_shell_word(command@, word@),
{
    let s = chars_of(command);
    let w = chars_of(word);
    let mut k: usize = 0;
    while k < w.len()
        invariant
            w@ == word@,
            k <= w.len(),
            forall|m: int| 0 <= m < k ==> is_word_char(#[trigger] w@[m]),
        decreases w.len() - k,
    {
        let c = w[k];
        let ok = ('0' <= c && c <= '9') || ('a' <= c && c <= 'z') || ('A' <= c && c <= 'Z') || c
            == '_' || c == '-';
        if !ok {
            assert(!is_word_char(word@[k as int]));
            return false;
        }
        k += 1;
    }
    let n = s.len();
    let mut i: usize = 0;
    while i < n
        invariant
            s@ == command@,
            w@ == word@,
            n == s.len(),
            forall|m: int| 0 <= m < w.len() ==> is_word_char(#[trigger] w@[m]),
            forall|m: int| 0 <= m < i ==> !#[trigger] word_at(command@, word@, m),
        decreases n - i,
    {
        if word_at_exec(&s, &w, i) {
            return true;
        }
        i += 1;
    }
    if word_at_exec(&s, &w, n) {
        return true;
    }
    assert forall|m: int| !#[trigger] word_at(command@, word@, m) by {
        if 0 <= m <= n {
        }
    }
    false
}

fn is_word_char_exec(c: char) -> (b: bool)
    ensures
        b == is_word_char(c),
{
    ('0' <= c && c <= '9') || ('a' <= c && c <= 'z') || ('A' <= c && c <= 'Z') || c == '_' || c
        == '-'
}

fn word_at_exec(s: &Vec<char>, w: &Vec<char>, i: usize) -> (b: bool)
    requires
        i <= s.len(),
    ensures
        b == word_at(s@, w@, i as int),
{
    if !occurs_at_exec(s, w, i) {
        return false;
    }
    let left = i == 0 || !is_word_char_exec(s[i - 1]);
    let end = i + w.len();
    let right = end == s.len() || !is_word_char_exec(s[end]);
    left && right
}

/// Refuses a command whose lowercased form is hard-blocked.
pub fn validate_hard_block_normalized(normalized: &str) -> (r: Result<(), ToolError>)
    ensures
        match r {
            Ok(_) => !is_hard_blocked(normalized@),
            Err(e) => is_hard_blocked(normalized@) && e@ == ToolErrorView::ExecutionFailed(
                blocked_message(),
            ),
        },
{
    let hay = chars_of(normalized);
    let patterns: [&str; 25] = [
        "rm -rf /",
        "rm -fr /",
        "rm -rf /*",
        "rm -fr /*",
        "rm -rf ~",
        "rm -fr ~",
        "rm -rf $home",
        "rm -fr $home",
        "mkfs",
        "wipefs",
        "blkdiscard",
        "dd if=/dev/zero",
        "dd of=/dev/",
        "shutdown",
        "reboot",
        "poweroff",
        "halt",
        "/etc/shadow",
        "~/.ssh",
        "$home/.ssh",
        "/var/run/docker.sock",
        "docker.sock",
        "--privileged",
        "-v /:/",
        "--volume /:/",
    ];
    assert(patterns@.map_values(|p: &str| p@) =~= blocked_patterns());
    let mut p: usize = 0;
    while p < 25
        invariant
            p <= 25,
            hay@ == normalized@,
            patterns@.map_values(|q: &str| q@) == blocked_patterns(),
            forall|q: int| 0 <= q < p ==> !contains_seq(normalized@, #[trigger] blocked_patterns()[q]),
        decreases 25 - p,
    {
        let needle = chars_of(patterns[p]);
        assert(blocked_patterns()[p as int] == patterns@[p as int]@);
        if contains_exec(&hay, &needle) {
            return Err(execution_failed("command is blocked by shell safety policy"));
        }
        p += 1;
    }
    let words: [&str; 5] = ["sudo", "sudoedit", "su", "doas", "pkexec"];
    assert(words@.map_values(|p: &str| p@) =~= blocked_words());
    let mut w: usize = 0;
    while w < 5
        invariant
            w <= 5,
            words@.map_values(|q: &str| q@) == blocked_words(),
            forall|q: int| 0 <= q < 25 ==> !contains_seq(normalized@, #[trigger] blocked_patterns()[q]),
            forall|q: int| 0 <= q < w ==> !has_shell_word(normalized@, #[trigger] blocked_words()[q]),
        decreases 5 - w,
    {
        assert(blocked_words()[w as int] == words@[w as int]@);
        if contains_shell_word(normalized, words[w]) {
            return Err(execution_failed("command is blocked by shell safety policy"));
        }
        w += 1;
    }
    Ok(())
}

/// Refuses a command that the shell safety policy blocks (checked on its lowercased form).
pub fn validate_hard_block(command: &str) -> (r: Result<(), ToolError>)
    ensures
        match r {
            Ok(_) => !is_hard_blocked(unicode_lowercase(command@)),
            Err(e) => is_hard_blocked(unicode_lowercase(command@)) && e@
                == ToolErrorView::ExecutionFailed(blocked_message()),
        },
{
    let normalized = to_lowercase(command);
    validate_hard_block_normalized(normalized.as_str())
}

/// The command and time limit that a shell call asks for, checked: the command is trimmed and
/// must be non-empty and not blocked; the limit defaults to 120 and must lie in 1..=600.
pub open spec fn shell_call_spec(command: Seq<char>, timeout: Option<u64>) -> Result<
    (Seq<char>, u64),
    ToolErrorView,
> {
    let c = trim(command);
    let t = match timeout {
        Some(t) => t,
        None => DEFAULT_TIMEOUT_SECONDS,
    };
    if c.len() == 0 {
        Err(ToolErrorView::InvalidArguments("command must not be empty"@))
    } else if is_hard_blocked(unicode_lowercase(c)) {
        Err(ToolErrorView::ExecutionFailed(blocked_message()))
    } else if t == 0 || t > MAX_TIMEOUT_SECONDS {
        Err(ToolErrorView::InvalidArguments("timeout must be between 1 and 600 seconds"@))
    } else {
        Ok((c, t))
    }
}

/// Checks the command and time limit of a shell call.
pub fn check_shell_call(command: &str, timeout: Option<u64>) -> (r: Result<(String, u64), ToolError>)
    ensures
        match r {
            Ok((c, t)) => shell_call_spec(command@, timeout) == Ok::<
                (Seq<char>, u64),
                ToolErrorView,
            >((c@, t)),
            Err(e) => shell_call_spec(command@, timeout) == Err::<(Seq<char>, u64), ToolErrorView>(
                e@,
            ),
        },
{
    let c = trim_str(command);
    if c.as_str().is_empty() {
        return Err(invalid_arguments("command must not be empty"));
    }
    match validate_hard_block(c.as_str()) {
        Ok(()) => {},
        Err(e) => {
            return Err(e);
        },
    }
    let t = match timeout {
        Some(t) => t,
        None => DEFAULT_TIMEOUT_SECONDS,
    };
    if t == 0 || t > MAX_TIMEOUT_SECONDS {
        return Err(invalid_arguments("timeout must be between 1 and 600 seconds"));
    }
    Ok((c, t))
}

/// The first step of resolving a requested working directory: `None` (or blank) keeps the
/// workspace root, an absolute path is refused, anything else is the trimmed relative path.
pub open spec fn requested_cwd_spec(cwd: Option<Seq<char>>) -> Result<
    Option<Seq<char>>,
    ToolErrorView,
> {
    match cwd {
        None => Ok(None),
        Some(c) => if trim(c).len() == 0 {
            Ok(None)
        } else if is_absolute(trim(c)) {
            Err(ToolErrorView::InvalidArguments("cwd must be relative to the workspace root"@))
        } else {
            Ok(Some(trim(c)))
        },
    }
}

/// Checks a requested working directory; `Ok(Some(rel))` is to be joined to the workspace root.
pub fn resolve_workspace_cwd(cwd: Option<&str>) -> (r: Result<Option<String>, ToolError>)
    ensures
        match r {
            Ok(None) => requested_cwd_spec(
                match cwd {
                    Some(c) => Some(c@),
                    None => None,
                },
            ) == Ok::<Option<Seq<char>>, ToolErrorView>(None),
            Ok(Some(s)) => requested_cwd_spec(
                match cwd {
                    Some(c) => Some(c@),
                    None => None,
                },
            ) == Ok::<Option<Seq<char>>, ToolErrorView>(Some(s@)),
            Err(e) => requested_cwd_spec(
                match cwd {
                    Some(c) => Some(c@),
                    None => None,
                },
            ) == Err::<Option<Seq<char>>, ToolErrorView>(e@),
        },
{
    match cwd {
        None => Ok(None),
        Some(c) => {
            let t = trim_str(c);
            if t.as_str().is_empty() {
                Ok(None)
            } else if is_absolute_exec(t.as_str()) {
                Err(invalid_arguments("cwd must be relative to the workspace root"))
            } else {
                Ok(Some(t))
            }
        },
    }
}

/// The last step of resolving a working directory, from the canonical forms of the workspace
/// root and of the joined candidate (or the messages of why they could not be resolved).
pub open spec fn accepted_cwd_spec(
    root: Result<Seq<char>, Seq<char>>,
    candidate: Result<Seq<char>, Seq<char>>,
    candidate_is_dir: bool,
) -> Result<Seq<char>, ToolErrorView> {
    match root {
        Err(e) => Err(ToolErrorView::ExecutionFailed(e)),
        Ok(r) => match candidate {
            Err(e) => Err(
                ToolErrorView::InvalidArguments(
                    "cwd must be an existing directory inside the workspace: "@ + e,
                ),
            ),
            Ok(c) => if !path_starts_with(c, r) {
                Err(ToolErrorView::InvalidArguments("cwd must stay inside the workspace root"@))
            } else if !candidate_is_dir {
                Err(ToolErrorView::InvalidArguments("cwd must be a directory"@))
            } else {
                Ok(c)
            },
        },
    }
}

/// Accepts a canonical working directory that is a directory inside the canonical workspace root.
pub fn accept_workspace_cwd(
    root: Result<String, String>,
    candidate: Result<String, String>,
    candidate_is_dir: bool,
) -> (r: Result<String, ToolError>)
    ensures
        match r {
            Ok(s) => accepted_cwd_spec(
                match root {
                    Ok(x) => Ok(x@),
                    Err(x) => Err(x@),
                },
                match candidate {
                    Ok(x) => Ok(x@),
                    Err(x) => Err(x@),
                },
                candidate_is_dir,
            ) == Ok::<Seq<char>, ToolErrorView>(s@),
            Err(e) => accepted_cwd_spec(
                match root {
                    Ok(x) => Ok(x@),
                    Err(x) => Err(x@),
                },
                match candidate {
                    Ok(x) => Ok(x@),
                    Err(x) => Err(x@),
                },
                candidate_is_dir,
            ) == Err::<Seq<char>, ToolErrorView>(e@),
        },
{
    let root = match root {
        Err(e) => {
            return Err(ToolError::ExecutionFailed(e));
        },
        Ok(r) => r,
    };
    let candidate = match candidate {
        Err(e) => {
            return Err(
                ToolError::InvalidArguments(
                    concat("cwd must be an existing directory inside the workspace: ", e.as_str()),
                ),
            );
        },
        Ok(c) => c,
    };
    if !path_has_base(candidate.as_str(), root.as_str()) {
        return Err(invalid_arguments("cwd must stay inside the workspace root"));
    }
    if !candidate_is_dir {
        return Err(invalid_arguments("cwd must be a directory"));
    }
    Ok(candidate)
}

/// A shell call that is accepted runs its trimmed, non-empty command, which the safety policy
/// does not block, with a time limit between 1 and 600 seconds; a command the policy blocks is
/// always refused with the policy's message.
pub proof fn law_accepted_shell_calls_are_safe(command: Seq<char>, timeout: Option<u64>)
    ensures
        shell_call_spec(command, timeout) matches Ok((c, t)) ==> c == trim(command) && c.len() > 0
            && !is_hard_blocked(unicode_lowercase(c)) && 1 <= t <= MAX_TIMEOUT_SECONDS,
        trim(command).len() > 0 && is_hard_blocked(unicode_lowercase(trim(command))) ==> shell_call_spec(
            command,
            timeout,
        ) == Err::<(Seq<char>, u64), ToolErrorView>(ToolErrorView::ExecutionFailed(blocked_message())),
{
}

/// An accepted working directory is the canonical candidate itself, a directory that lies
/// under the canonical workspace root.
pub proof fn law_accepted_cwd_stays_inside(
    root: Result<Seq<char>, Seq<char>>,
    candidate: Result<Seq<char>, Seq<char>>,
    candidate_is_dir: bool,
)
    ensures
        accepted_cwd_spec(root, candidate, candidate_is_dir) matches Ok(c) ==> (root matches Ok(r)
            && path_starts_with(c, r)) && candidate == Ok::<Seq<char>, Seq<char>>(c) && candidate_is_dir,
{
}

} // verus!

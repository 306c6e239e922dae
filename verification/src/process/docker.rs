use vstd::prelude::*;

use crate::path::{backslash_to_slash, path_strip_prefix, replace_backslashes, strip_path_prefix};
use crate::process::runner::{finish_output, finished_output, ProcessOutput};
use crate::text::{concat, push_string, string_views};

verus! {

/// The prefix of every sandbox container's name.
pub open spec fn container_prefix() -> Seq<char> {
    "commander-shell-"@
}

/// Runs shell commands in a throwaway, locked-down Docker container that mounts the workspace.
#[derive(Debug, Clone)]
pub struct DockerSandboxRunner {
    workspace_root: String,
    env_file: String,
    image: String,
    max_output_bytes: usize,
}

/// The directory inside the container that matches a host directory, or the message of why
/// the host directory is not inside the workspace.
pub open spec fn container_cwd_spec(root: Seq<char>, host_cwd: Seq<char>) -> Result<
    Seq<char>,
    Seq<char>,
> {
    match path_strip_prefix(host_cwd, root) {
        Ok(rel) => if rel.len() == 0 {
            Ok("/workspace"@)
        } else {
            Ok("/workspace/"@ + backslash_to_slash(rel))
        },
        Err(e) => Err(e),
    }
}

/// The isolation flags of every sandbox run, followed by the optional env file and user.
pub open spec fn base_run_args_spec(
    root: Seq<char>,
    env_file: Seq<char>,
    container_cwd: Seq<char>,
    env_file_exists: bool,
    owner_user: Option<Seq<char>>,
) -> Seq<Seq<char>> {
    let fixed = seq![
        "--read-only"@,
        "--tmpfs"@,
        "/tmp"@,
        "--tmpfs"@,
        "/var/tmp"@,
        "--cap-drop"@,
        "ALL"@,
        "--security-opt"@,
        "no-new-privileges"@,
        "-v"@,
        root + ":/workspace"@,
        "-w"@,
        container_cwd,
        "-e"@,
        "HOME=/workspace"@,
        "-e"@,
        "LANG=C.UTF-8"@,
        "-e"@,
        "LC_ALL=C.UTF-8"@,
    ];
    let with_env = if env_file_exists {
        fixed + seq!["--env-file"@, env_file]
    } else {
        fixed
    };
    match owner_user {
        Some(u) => with_env + seq!["--user"@, u],
        None => with_env,
    }
}

/// The complete `docker` argument list for one sandboxed command.
pub open spec fn run_args_spec(
    root: Seq<char>,
    env_file: Seq<char>,
    image: Seq<char>,
    container_name: Seq<char>,
    container_cwd: Seq<char>,
    env_file_exists: bool,
    owner_user: Option<Seq<char>>,
    command: Seq<char>,
) -> Seq<Seq<char>> {
    seq!["run"@, "--rm"@, "--name"@, container_name] + base_run_args_spec(
        root,
        env_file,
        container_cwd,
        env_file_exists,
        owner_user,
    ) + seq![image, "/bin/sh"@, "-lc"@, command]
}

impl DockerSandboxRunner {
    /// A runner for an (already canonical) workspace root.
    pub fn new(workspace_root: String, env_file: String, image: String, max_output_bytes: usize) -> (r:
        Self)
        ensures
            r.workspace_root() == workspace_root@,
            r.env_file() == env_file@,
            r.image() == image@,
            r.max_output_bytes() == max_output_bytes,
    {
        Self { workspace_root, env_file, image, max_output_bytes }
    }

    pub closed spec fn workspace_root(&self) -> Seq<char> {
        self.workspace_root@
    }

    pub closed spec fn env_file(&self) -> Seq<char> {
        self.env_file@
    }

    pub closed spec fn image(&self) -> Seq<char> {
        self.image@
    }

    pub closed spec fn max_output_bytes(&self) -> usize {
        self.max_output_bytes
    }

    /// The env file that the app checks for existence.
    pub fn env_file_path(&self) -> (s: &str)
        ensures
            s@ == self.env_file(),
    {
        self.env_file.as_str()
    }

    /// The workspace root that the app inspects for its owner.
    pub fn workspace_root_path(&self) -> (s: &str)
        ensures
            s@ == self.workspace_root(),
    {
        self.workspace_root.as_str()
    }

    /// The container directory matching the host directory `cwd` (the workspace root when
    /// absent).
    pub fn container_cwd(&self, cwd: Option<&str>) -> (r: Result<String, String>)
        ensures
            match r {
                Ok(s) => container_cwd_spec(
                    self.workspace_root(),
                    match cwd {
                        Some(c) => c@,
                        None => self.workspace_root(),
                    },
                ) == Ok::<Seq<char>, Seq<char>>(s@),
                Err(e) => container_cwd_spec(
                    self.workspace_root(),
                    match cwd {
                        Some(c) => c@,
                        None => self.workspace_root(),
                    },
                ) == Err::<Seq<char>, Seq<char>>(e@),
            },
    {
        let host_cwd: &str = match cwd {
            Some(c) => c,
            None => self.workspace_root.as_str(),
        };
        match strip_path_prefix(host_cwd, self.workspace_root.as_str()) {
            Ok(rel) => {
                if rel.as_str().is_empty() {
                    Ok("/workspace".to_owned())
                } else {
                    let r = replace_backslashes(rel.as_str());
                    Ok(concat("/workspace/", r.as_str()))
                }
            },
            Err(e) => Err(e),
        }
    }

    /// The isolation flags for a run in `container_cwd`.
    pub fn base_run_args(
        &self,
        container_cwd: &str,
        env_file_exists: bool,
        owner_user: Option<&str>,
    ) -> (args: Vec<String>)
        ensures
            string_views(args@) == base_run_args_spec(
                self.workspace_root(),
                self.env_file(),
                container_cwd@,
                env_file_exists,
                match owner_user {
                    Some(u) => Some(u@),
                    None => None,
                },
            ),
    {
        let mut args: Vec<String> = Vec::new();
        push_string(&mut args, "--read-only");
        push_string(&mut args, "--tmpfs");
        push_string(&mut args, "/tmp");
        push_string(&mut args, "--tmpfs");
        push_string(&mut args, "/var/tmp");
        push_string(&mut args, "--cap-drop");
        push_string(&mut args, "ALL");
        push_string(&mut args, "--security-opt");
        push_string(&mut args, "no-new-privileges");
        push_string(&mut args, "-v");
        let volume = concat(self.workspace_root.as_str(), ":/workspace");
        push_string(&mut args, volume.as_str());
        push_string(&mut args, "-w");
        push_string(&mut args, container_cwd);
        push_string(&mut args, "-e");
        push_string(&mut args, "HOME=/workspace");
        push_string(&mut args, "-e");
        push_string(&mut args, "LANG=C.UTF-8");
        push_string(&mut args, "-e");
        push_string(&mut args, "LC_ALL=C.UTF-8");
        let ghost fixed = string_views(args@);
        if env_file_exists {
            push_string(&mut args, "--env-file");
            push_string(&mut args, self.env_file.as_str());
        }
        let ghost with_env = string_views(args@);
        match owner_user {
            Some(u) => {
                push_string(&mut args, "--user");
                push_string(&mut args, u);
            },
            None => {},
        }
        proof {
            assert(fixed =~= seq![
                "--read-only"@,
                "--tmpfs"@,
                "/tmp"@,
                "--tmpfs"@,
                "/var/tmp"@,
                "--cap-drop"@,
                "ALL"@,
                "--security-opt"@,
                "no-new-privileges"@,
                "-v"@,
                self.workspace_root() + ":/workspace"@,
                "-w"@,
                container_cwd@,
                "-e"@,
                "HOME=/workspace"@,
                "-e"@,
                "LANG=C.UTF-8"@,
                "-e"@,
                "LC_ALL=C.UTF-8"@,
            ]);
            if env_file_exists {
                assert(with_env =~= fixed + seq!["--env-file"@, self.env_file()]);
            }
            match owner_user {
                Some(u) => {
                    assert(string_views(args@) =~= with_env + seq!["--user"@, u@]);
                },
                None => {},
            }
        }
        args
    }

    /// The full `docker` argument list to run `command` in a container named `container_name`.
    pub fn run_args(
        &self,
        container_name: &str,
        container_cwd: &str,
        env_file_exists: bool,
        owner_user: Option<&str>,
        command: &str,
    ) -> (args: Vec<String>)
        ensures
            string_views(args@) == run_args_spec(
                self.workspace_root(),
                self.env_file(),
                self.image(),
                container_name@,
                container_cwd@,
                env_file_exists,
                match owner_user {
                    Some(u) => Some(u@),
                    None => None,
                },
                command@,
            ),
    {
        let mut args: Vec<String> = Vec::new();
        push_string(&mut args, "run");
        push_string(&mut args, "--rm");
        push_string(&mut args, "--name");
        push_string(&mut args, container_name);
        let ghost head = string_views(args@);
        let mut base = self.base_run_args(container_cwd, env_file_exists, owner_user);
        let ghost base_v = string_views(base@);
        args.append(&mut base);
        assert(string_views(args@) =~= head + base_v);
        let ghost mid = string_views(args@);
        push_string(&mut args, self.image.as_str());
        push_string(&mut args, "/bin/sh");
        push_string(&mut args, "-lc");
        push_string(&mut args, command);
        assert(string_views(args@) =~= mid + seq![self.image(), "/bin/sh"@, "-lc"@, command@]);
        assert(head =~= seq!["run"@, "--rm"@, "--name"@, container_name@]);
        args
    }

    /// The output record of a finished sandboxed command.
    pub fn finish(&self, exit_code: Option<i32>, stdout: &str, stderr: &str) -> (o: ProcessOutput)
        ensures
            (o.exit_code, o.stdout@, o.stderr@, o.truncated) == finished_output(
                exit_code,
                stdout@,
                stderr@,
                self.max_output_bytes() as nat,
            ),
    {
        finish_output(exit_code, stdout, stderr, self.max_output_bytes)
    }
}

/// The name of the container for a run with identifier `id`.
pub fn container_name(id: &str) -> (s: String)
    ensures
        s@ == container_prefix() + id@,
{
    concat("commander-shell-", id)
}

} // verus!

//! Running shell commands on the media host, here or over SSH.
//!
//! Process spawning happens outside the library: it asks an [`Executor`] for
//! the [`Invocation`] of a command, runs it, and hands the
//! [`ProcessOutput`] back to be judged. The commands themselves (`find`,
//! `rm`, `ffprobe`) and the reading of what they print are built and decided
//! here.

use vstd::prelude::*;
use crate::api::{retry_delay, retry_delay_ms};
use crate::config::{ExecutionConfig, ExecutionMode};
use crate::shell::{shell_escape, shell_escaped};
use crate::text::{
    decimal, decimal_string, index_of, lemma_index_of_unique, lines,
    nonempty, nonempty_lines, opt_view, owned, parse_u64, parsed_u64, push_char, str_eq, trim,
    trim_str, views, chars_of,
};

verus! {

broadcast use vstd::string::group_string_axioms;

/// What a finished command left behind.
#[derive(Debug)]
pub struct ExecResult {
    pub stdout: String,
    pub stderr: String,
    pub success: bool,
}

/// A program to start and its arguments.
#[derive(Debug)]
pub struct Invocation {
    pub program: String,
    pub args: Vec<String>,
}

/// What the operating system reports of a finished process: its output
/// (decoded lossily as UTF-8), whether it exited successfully, and its exit
/// code if it had one.
#[derive(Debug)]
pub struct ProcessOutput {
    pub stdout: String,
    pub stderr: String,
    pub success: bool,
    pub code: Option<i32>,
}

/// Runs commands locally or on the SSH target of the configuration.
#[derive(Debug)]
pub struct Executor {
    pub mode: ExecutionMode,
    pub ssh_target: Option<String>,
    pub ssh_port: u16,
    pub ssh_key: Option<String>,
}

/// The SSH options that every connection uses, before the port number.
pub open spec fn ssh_base_args() -> Seq<Seq<char>> {
    seq!["-o"@, "BatchMode=yes"@, "-o"@, "ConnectTimeout=10"@, "-p"@]
}

/// The message when SSH mode has no account to connect to.
pub open spec fn missing_target_message() -> Seq<char> {
    "SSH config missing: no host/user defined in [execution.ssh]"@
}

/// `ssh` could not connect: it ran and exited with code 255.
pub open spec fn connection_failed(spawned: Result<ProcessOutput, String>) -> bool {
    spawned matches Ok(out) && out.code == Some(255i32)
}

/// The message when the configured SSH account cannot be reached.
pub open spec fn ssh_refused_message(target: Seq<char>) -> Seq<char> {
    "SSH connection to "@ + target + " failed — check host, user, and key"@
}

/// The error of a `find` run: it failed and said why on stderr.
pub open spec fn find_failure(r: ExecResult) -> Option<Seq<char>> {
    if !r.success && trim(r.stderr@).len() != 0 {
        Some("find failed: "@ + trim(r.stderr@))
    } else {
        None
    }
}

/// The `find` test that a file name ends in `.EXT`: `-name '*.EXT'`, the
/// pattern quoted so that the shell passes it to `find` unexpanded.
pub open spec fn name_test(ext: Seq<char>) -> Seq<char> {
    "-name "@ + shell_escaped("*."@ + ext)
}

/// The `-name` tests of a `find` command for the given extensions, joined
/// by `-o`: `-name '*.a' -o -name '*.b'` … (nothing for no extensions).
pub open spec fn name_tests(exts: Seq<Seq<char>>) -> Seq<char>
    decreases exts.len(),
{
    if exts.len() == 0 {
        seq![]
    } else if exts.len() == 1 {
        name_test(exts[0])
    } else {
        name_tests(exts.drop_last()) + " -o "@ + name_test(exts.last())
    }
}

/// The `find` command that lists the regular files under `path` whose names
/// end in one of the extensions: the `-name` tests grouped in escaped
/// parentheses, or `-false` (no file) when there are no extensions.
pub open spec fn list_command(path: Seq<char>, exts: Seq<Seq<char>>) -> Seq<char> {
    "find "@ + shell_escaped(path) + " -type f "@ + if exts.len() == 0 {
        "-false"@
    } else {
        "\\( "@ + name_tests(exts) + " \\)"@
    }
}

/// One line of `find -printf '%s\t%p\n'` output read as (path, size): the
/// size before the first tab, the path after it; `None` when there is no tab
/// or the size is not a number.
pub open spec fn sized_entry(l: Seq<char>) -> Option<(Seq<char>, u64)> {
    let k = index_of(l, '\t');
    if k < l.len() {
        match parsed_u64(l.take(k as int)) {
            Some(size) => Some((l.skip(k as int + 1), size)),
            None => None,
        }
    } else {
        None
    }
}

/// The readable entries among `ls`, in order.
pub open spec fn sized_entries(ls: Seq<Seq<char>>) -> Seq<(Seq<char>, u64)>
    decreases ls.len(),
{
    if ls.len() == 0 {
        seq![]
    } else {
        match sized_entry(ls[0]) {
            Some(e) => seq![e] + sized_entries(ls.drop_first()),
            None => sized_entries(ls.drop_first()),
        }
    }
}

/// The view of a list of (path, size) pairs.
pub open spec fn sized_views(v: Seq<(String, u64)>) -> Seq<(Seq<char>, u64)> {
    v.map_values(|e: (String, u64)| (e.0@, e.1))
}

impl Executor {
    /// What `describe` reports.
    pub open spec fn description(&self) -> Seq<char> {
        match self.mode {
            ExecutionMode::Local => "local"@,
            ExecutionMode::Ssh => match self.ssh_target {
                Some(t) => "ssh ("@ + t@ + ")"@,
                None => "ssh (unconfigured)"@,
            },
        }
    }

    /// The program and arguments that run `command`.
    pub open spec fn invocation_of(&self, command: Seq<char>) -> Result<
        (Seq<char>, Seq<Seq<char>>),
        Seq<char>,
    > {
        match self.mode {
            ExecutionMode::Local => Ok(("sh"@, seq!["-c"@, command])),
            ExecutionMode::Ssh => match self.ssh_target {
                None => Err(missing_target_message()),
                Some(t) => Ok(
                    (
                        "ssh"@,
                        ssh_base_args().push(decimal(self.ssh_port as nat)) + match self.ssh_key {
                            Some(k) => seq!["-i"@, k@],
                            None => seq![],
                        } + seq![t@, command],
                    ),
                ),
            },
        }
    }

    /// Reads the connection settings of the configuration: the SSH target is
    /// `user@host`, the port defaults to 22.
    pub fn from_config(config: &ExecutionConfig) -> (r: Self)
        ensures
            r.mode == config.mode,
            opt_view(r.ssh_target) == (match config.ssh {
                Some(s) => Some(s.user@ + "@"@ + s.host@),
                None => None,
            }),
            r.ssh_port == (match config.ssh {
                Some(s) => s.port,
                None => 22,
            }),
            opt_view(r.ssh_key) == (match config.ssh {
                Some(s) => opt_view(s.key_path),
                None => None,
            }),
    {
        match &config.ssh {
            Some(s) => {
                let mut target = s.user.clone();
                target.append("@");
                target.append(s.host.as_str());
                let key = match &s.key_path {
                    Some(k) => Some(k.clone()),
                    None => None,
                };
                Executor { mode: config.mode, ssh_target: Some(target), ssh_port: s.port, ssh_key: key }
            },
            None => Executor { mode: config.mode, ssh_target: None, ssh_port: 22, ssh_key: None },
        }
    }

    /// A short description of where commands run.
    pub fn describe(&self) -> (r: String)
        ensures
            r@ == self.description(),
    {
        match self.mode {
            ExecutionMode::Local => owned("local"),
            ExecutionMode::Ssh => match &self.ssh_target {
                Some(t) => {
                    let mut r = owned("ssh (");
                    r.append(t.as_str());
                    r.append(")");
                    r
                },
                None => owned("ssh (unconfigured)"),
            },
        }
    }

    /// The process that runs `command`: `sh -c command` locally; over SSH,
    /// `ssh` in batch mode with a ten second connection timeout, the
    /// configured port and key, the target and the command. Without a
    /// target, SSH mode cannot run anything.
    pub fn invocation(&self, command: &str) -> (r: Result<Invocation, String>)
        ensures
            match (r, self.invocation_of(command@)) {
                (Ok(inv), Ok((p, a))) => inv.program@ == p && views(inv.args@) == a,
                (Err(e), Err(m)) => e@ == m,
                _ => false,
            },
    {
        match self.mode {
            ExecutionMode::Local => {
                let mut args: Vec<String> = Vec::new();
                args.push(owned("-c"));
                args.push(owned(command));
                let r = Invocation { program: owned("sh"), args };
                assert(views(r.args@) =~= seq!["-c"@, command@]);
                Ok(r)
            },
            ExecutionMode::Ssh => match &self.ssh_target {
                None => Err(owned("SSH config missing: no host/user defined in [execution.ssh]")),
                Some(t) => {
                    let mut args: Vec<String> = Vec::new();
                    args.push(owned("-o"));
                    args.push(owned("BatchMode=yes"));
                    args.push(owned("-o"));
                    args.push(owned("ConnectTimeout=10"));
                    args.push(owned("-p"));
                    args.push(decimal_string(self.ssh_port as u64));
                    let ghost base = views(args@);
                    assert(base =~= ssh_base_args().push(decimal(self.ssh_port as nat)));
                    match &self.ssh_key {
                        Some(k) => {
                            args.push(owned("-i"));
                            args.push(k.clone());
                        },
                        None => {},
                    }
                    args.push(t.clone());
                    args.push(owned(command));
                    let r = Invocation { program: owned("ssh"), args };
                    assert(views(r.args@) =~= base + match self.ssh_key {
                        Some(k) => seq!["-i"@, k@],
                        None => seq![],
                    } + seq![t@, command@]);
                    Ok(r)
                },
            },
        }
    }

    /// The error when the process could not be started at all.
    pub open spec fn spawn_failure(&self, error: Seq<char>) -> Seq<char> {
        match self.mode {
            ExecutionMode::Local => "failed to execute command: "@ + error,
            ExecutionMode::Ssh => "SSH execution failed: "@ + error,
        }
    }

    /// Judges the run of an invocation: `spawned` is what the operating
    /// system reported of the process, or why it could not be started.
    /// Over SSH, exit code 255 means the connection itself failed; any other
    /// outcome is the command's. (Without an SSH target, SSH mode has no
    /// account to connect to, and says so.)
    pub fn run_cmd(&self, spawned: Result<ProcessOutput, String>) -> (r: Result<ExecResult, String>)
        ensures
            match spawned {
                Err(e) => r is Err && r->Err_0@ == self.spawn_failure(e@),
                Ok(out) => if self.mode == ExecutionMode::Ssh && out.code == Some(255i32) {
                    r is Err && r->Err_0@ == match self.ssh_target {
                        Some(t) => ssh_refused_message(t@),
                        None => missing_target_message(),
                    }
                } else {
                    r is Ok && r->Ok_0.stdout == out.stdout && r->Ok_0.stderr == out.stderr
                        && r->Ok_0.success == out.success
                },
            },
    {
        let out = match spawned {
            Err(e) => {
                let mut m = match self.mode {
                    ExecutionMode::Local => owned("failed to execute command: "),
                    ExecutionMode::Ssh => owned("SSH execution failed: "),
                };
                m.append(e.as_str());
                return Err(m);
            },
            Ok(out) => out,
        };
        if self.mode == ExecutionMode::Ssh {
            if let Some(c) = out.code {
                if c == 255 {
                    let t = match &self.ssh_target {
                        Some(t) => t,
                        None => {
                            return Err(
                                owned("SSH config missing: no host/user defined in [execution.ssh]"),
                            );
                        },
                    };
                    let mut m = owned("SSH connection to ");
                    m.append(t.as_str());
                    m.append(" failed — check host, user, and key");
                    return Err(m);
                }
            }
        }
        Ok(ExecResult { stdout: out.stdout, stderr: out.stderr, success: out.success })
    }

    /// How long to wait, in milliseconds, before running a command again
    /// after its `attempt`th run (counting from 0) ended as `spawned`: over
    /// SSH a failed connection is retried with growing waits until the
    /// retries are spent; nothing else is retried.
    pub fn ssh_retry_delay(&self, attempt: u32, spawned: &Result<ProcessOutput, String>) -> (r:
        Option<u64>)
        ensures
            r == if self.mode == ExecutionMode::Ssh && connection_failed(*spawned) {
                retry_delay(attempt as nat)
            } else {
                None
            },
    {
        if self.mode != ExecutionMode::Ssh {
            return None;
        }
        match spawned {
            Ok(out) => if out.code == Some(255i32) {
                retry_delay_ms(attempt)
            } else {
                None
            },
            Err(_) => None,
        }
    }

    /// The `find` command that lists the regular files under `path` whose
    /// names end in one of the extensions.
    pub fn list_files_command(&self, path: &str, extensions: &[&str]) -> (r: String)
        ensures
            r@ == list_command(path@, extensions@.map_values(|e: &str| e@)),
    {
        let mut r = owned("find ");
        let p = shell_escape(path);
        r.append(p.as_str());
        r.append(" -type f ");
        if extensions.len() == 0 {
            r.append("-false");
            return r;
        }
        r.append("\\( ");
        let ghost head = r@;
        let ghost exts = extensions@.map_values(|e: &str| e@);
        assert(exts.take(0) =~= Seq::<Seq<char>>::empty());
        for i in 0..extensions.len()
            invariant
                exts == extensions@.map_values(|e: &str| e@),
                r@ == head + name_tests(exts.take(i as int)),
        {
            if i > 0 {
                r.append(" -o ");
            }
            let mut pattern = owned("*.");
            pattern.append(extensions[i]);
            let quoted = shell_escape(pattern.as_str());
            r.append("-name ");
            r.append(quoted.as_str());
            proof {
                let t = exts.take(i + 1);
                assert(t.drop_last() =~= exts.take(i as int));
                assert(t.last() == extensions@[i as int]@);
                if i == 0 {
                    assert(t.len() == 1);
                }
            }
        }
        assert(exts.take(extensions.len() as int) =~= exts);
        r.append(" \\)");
        r
    }

    /// The files that the `find` of `list_files_command` found, from the
    /// outcome of running it: its error when it could not run or failed with
    /// a message, otherwise the non-empty lines of its output.
    pub fn list_files(&self, outcome: &Result<ExecResult, String>) -> (r: Result<Vec<String>, String>)
        ensures
            match *outcome {
                Err(e) => r is Err && r->Err_0 == e,
                Ok(result) => match find_failure(result) {
                    Some(m) => r is Err && r->Err_0@ == m,
                    None => r is Ok && views(r->Ok_0@) == nonempty(lines(result.stdout@)),
                },
            },
    {
        let result = match outcome {
            Err(e) => {
                return Err(e.clone());
            },
            Ok(r) => r,
        };
        let err = trim_str(result.stderr.as_str());
        if !result.success && !err.as_str().is_empty() {
            let mut m = owned("find failed: ");
            m.append(err.as_str());
            return Err(m);
        }
        Ok(nonempty_lines(result.stdout.as_str()))
    }

    /// The `find` command that prints the size and path of every file under
    /// `path`, one per line, separated by a tab.
    pub fn list_all_files_command(&self, path: &str) -> (r: String)
        ensures
            r@ == "find "@ + shell_escaped(path@) + " -type f -printf '%s\\t%p\\n'"@,
    {
        let mut r = owned("find ");
        let p = shell_escape(path);
        r.append(p.as_str());
        r.append(" -type f -printf '%s\\t%p\\n'");
        r
    }

    /// The files and sizes that the `find` of `list_all_files_command`
    /// found, from the outcome of running it: its error when it could not
    /// run or failed with a message, otherwise the (path, size) of each
    /// readable non-empty line.
    pub fn list_all_files(&self, outcome: &Result<ExecResult, String>) -> (r: Result<Vec<(String, u64)>, String>)
        ensures
            match *outcome {
                Err(e) => r is Err && r->Err_0 == e,
                Ok(result) => match find_failure(result) {
                    Some(m) => r is Err && r->Err_0@ == m,
                    None => r is Ok && sized_views(r->Ok_0@) == sized_entries(
                        nonempty(lines(result.stdout@)),
                    ),
                },
            },
    {
        let result = match outcome {
            Err(e) => {
                return Err(e.clone());
            },
            Ok(r) => r,
        };
        let err = trim_str(result.stderr.as_str());
        if !result.success && !err.as_str().is_empty() {
            let mut m = owned("find failed: ");
            m.append(err.as_str());
            return Err(m);
        }
        let ls = nonempty_lines(result.stdout.as_str());
        let mut out: Vec<(String, u64)> = Vec::new();
        let ghost all = views(ls@);
        assert(all.skip(0) =~= all);
        for i in 0..ls.len()
            invariant
                all == views(ls@),
                sized_entries(all) == sized_views(out@) + sized_entries(all.skip(i as int)),
        {
            let e = sized_line(&ls[i]);
            proof {
                let t = all.skip(i as int);
                assert(t[0] == ls@[i as int]@);
                assert(t.drop_first() =~= all.skip(i + 1));
            }
            let ghost before = out@;
            match e {
                Some(p) => {
                    out.push(p);
                    assert(sized_views(out@) =~= sized_views(before) + seq![sized_entry(ls@[i as int]@)->0]);
                    assert(sized_views(before) + (seq![sized_entry(ls@[i as int]@)->0] + sized_entries(all.skip(i + 1)))
                        =~= sized_views(out@) + sized_entries(all.skip(i + 1)));
                },
                None => {},
            }
        }
        assert(all.skip(ls.len() as int) =~= Seq::<Seq<char>>::empty());
        assert(sized_views(out@) + Seq::<(Seq<char>, u64)>::empty() =~= sized_views(out@));
        Ok(out)
    }

    /// The command that removes `path`.
    pub fn delete_file_command(&self, path: &str) -> (r: String)
        ensures
            r@ == "rm -f "@ + shell_escaped(path@),
    {
        let mut r = owned("rm -f ");
        let p = shell_escape(path);
        r.append(p.as_str());
        r
    }

    /// Whether the `rm` of `delete_file_command` removed the file, from the
    /// outcome of running it: a failure carries its trimmed stderr.
    pub fn delete_file(&self, outcome: &Result<ExecResult, String>) -> (r: Result<(), String>)
        ensures
            match *outcome {
                Err(e) => r is Err && r->Err_0 == e,
                Ok(result) => if result.success {
                    r is Ok
                } else {
                    r is Err && r->Err_0@ == "rm failed: "@ + trim(result.stderr@)
                },
            },
    {
        let result = match outcome {
            Err(e) => {
                return Err(e.clone());
            },
            Ok(r) => r,
        };
        if !result.success {
            let err = trim_str(result.stderr.as_str());
            let mut m = owned("rm failed: ");
            m.append(err.as_str());
            return Err(m);
        }
        Ok(())
    }

    /// The `ffprobe` command that describes the streams and container of a
    /// media file as JSON.
    pub fn ffprobe_command(&self, ffprobe_path: &str, media_path: &str) -> (r: String)
        ensures
            r@ == shell_escaped(ffprobe_path@) + " -v error -print_format json -show_streams -show_format "@
                + shell_escaped(media_path@),
    {
        let mut r = shell_escape(ffprobe_path);
        r.append(" -v error -print_format json -show_streams -show_format ");
        let m = shell_escape(media_path);
        r.append(m.as_str());
        r
    }

    /// The command that tests the connection: none is needed locally; over
    /// SSH, `echo ok`.
    pub fn connection_probe(&self) -> (r: Option<String>)
        ensures
            self.mode == ExecutionMode::Local ==> r is None,
            self.mode == ExecutionMode::Ssh ==> r is Some && r->0@ == "echo ok"@,
    {
        match self.mode {
            ExecutionMode::Local => None,
            ExecutionMode::Ssh => Some(owned("echo ok")),
        }
    }

    /// Whether commands can run, from the outcome of running the probe of
    /// `connection_probe`: locally they always can; over SSH the probe must
    /// have answered `ok`.
    pub fn test_connection(&self, outcome: &Result<ExecResult, String>) -> (r: Result<(), String>)
        ensures
            self.mode == ExecutionMode::Local ==> r is Ok,
            self.mode == ExecutionMode::Ssh ==> match *outcome {
                Err(e) => r is Err && r->Err_0 == e,
                Ok(result) => if trim(result.stdout@) == "ok"@ {
                    r is Ok
                } else {
                    r is Err && r->Err_0@ == "SSH connection test returned unexpected output"@
                },
            },
    {
        if self.mode == ExecutionMode::Local {
            return Ok(());
        }
        let result = match outcome {
            Err(e) => {
                return Err(e.clone());
            },
            Ok(r) => r,
        };
        let t = trim_str(result.stdout.as_str());
        if str_eq(t.as_str(), "ok") {
            Ok(())
        } else {
            Err(owned("SSH connection test returned unexpected output"))
        }
    }
}

/// Reads one line of sized `find` output.
pub fn sized_line(l: &String) -> (r: Option<(String, u64)>)
    ensures
        match (r, sized_entry(l@)) {
            (Some(e), Some(s)) => e.0@ == s.0 && e.1 == s.1,
            (None, None) => true,
            _ => false,
        },
{
    let v = chars_of(l.as_str());
    let mut k: usize = 0;
    while k < v.len() && v[k] != '\t'
        invariant
            k <= v.len(),
            forall|j: int| 0 <= j < k ==> v@[j] != '\t',
        decreases v.len() - k,
    {
        k = k + 1;
    }
    proof {
        lemma_index_of_unique(v@, '\t', k as int);
    }
    if k == v.len() {
        return None;
    }
    let mut size_text = String::new();
    for j in 0..k
        invariant
            k < v.len(),
            size_text@ == v@.take(j as int),
    {
        push_char(&mut size_text, v[j]);
        assert(v@.take(j + 1) =~= v@.take(j as int).push(v@[j as int]));
    }
    match parse_u64(size_text.as_str()) {
        Some(size) => {
            let mut path = String::new();
            let mut j = k + 1;
            while j < v.len()
                invariant
                    k < j <= v.len(),
                    path@ == v@.subrange(k + 1, j as int),
                decreases v.len() - j,
            {
                push_char(&mut path, v[j]);
                assert(v@.subrange(k + 1, j + 1) =~= v@.subrange(k + 1, j as int).push(v@[j as int]));
                j = j + 1;
            }
            assert(v@.skip(k + 1) =~= v@.subrange(k + 1, v.len() as int));
            Some((path, size))
        },
        None => None,
    }
}

} // verus!

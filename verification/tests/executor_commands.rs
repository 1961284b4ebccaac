use jellyfin_pulga::config::{ExecutionConfig, ExecutionMode, SshConfig};
use jellyfin_pulga::executor::{ExecResult, Executor, ProcessOutput};

fn ssh_config(key: Option<&str>) -> ExecutionConfig {
    ExecutionConfig {
        mode: ExecutionMode::Ssh,
        ssh: Some(SshConfig {
            host: "192.168.1.37".to_string(),
            user: "media".to_string(),
            port: 2222,
            key_path: key.map(|k| k.to_string()),
        }),
    }
}

fn result(stdout: &str, stderr: &str, success: bool) -> ExecResult {
    ExecResult { stdout: stdout.to_string(), stderr: stderr.to_string(), success }
}

#[test]
fn from_config_reads_ssh_settings() {
    let e = Executor::from_config(&ssh_config(Some("/home/me/.ssh/id")));
    assert_eq!(e.ssh_target.as_deref(), Some("media@192.168.1.37"));
    assert_eq!(e.ssh_port, 2222);
    assert_eq!(e.ssh_key.as_deref(), Some("/home/me/.ssh/id"));
    assert_eq!(e.describe(), "ssh (media@192.168.1.37)");
}

#[test]
fn describe_without_ssh() {
    let e = Executor::from_config(&ExecutionConfig { mode: ExecutionMode::Ssh, ssh: None });
    assert_eq!(e.ssh_port, 22);
    assert_eq!(e.describe(), "ssh (unconfigured)");
    let l = Executor::from_config(&ExecutionConfig { mode: ExecutionMode::Local, ssh: None });
    assert_eq!(l.describe(), "local");
}

#[test]
fn invocation_local_and_ssh() {
    let l = Executor::from_config(&ExecutionConfig { mode: ExecutionMode::Local, ssh: None });
    let inv = l.invocation("echo ok").unwrap();
    assert_eq!(inv.program, "sh");
    assert_eq!(inv.args, vec!["-c", "echo ok"]);

    let s = Executor::from_config(&ssh_config(Some("/k")));
    let inv = s.invocation("echo ok").unwrap();
    assert_eq!(inv.program, "ssh");
    assert_eq!(
        inv.args,
        vec!["-o", "BatchMode=yes", "-o", "ConnectTimeout=10", "-p", "2222", "-i", "/k", "media@192.168.1.37", "echo ok"]
    );

    let none = Executor::from_config(&ExecutionConfig { mode: ExecutionMode::Ssh, ssh: None });
    assert_eq!(
        none.invocation("echo ok").unwrap_err(),
        "SSH config missing: no host/user defined in [execution.ssh]"
    );
}

#[test]
fn run_cmd_judges_the_process() {
    let s = Executor::from_config(&ssh_config(None));
    let refused = ProcessOutput { stdout: String::new(), stderr: String::new(), success: false, code: Some(255) };
    assert_eq!(
        s.run_cmd(Ok(refused)).unwrap_err(),
        "SSH connection to media@192.168.1.37 failed — check host, user, and key"
    );
    let ok = ProcessOutput { stdout: "hi\n".to_string(), stderr: String::new(), success: true, code: Some(0) };
    let r = s.run_cmd(Ok(ok)).unwrap();
    assert_eq!(r.stdout, "hi\n");
    assert!(r.success);
    assert_eq!(s.run_cmd(Err("no such file".to_string())).unwrap_err(), "SSH execution failed: no such file");
    let l = Executor::from_config(&ExecutionConfig { mode: ExecutionMode::Local, ssh: None });
    let local255 = ProcessOutput { stdout: String::new(), stderr: "x".to_string(), success: false, code: Some(255) };
    assert!(!l.run_cmd(Ok(local255)).unwrap().success);
    assert_eq!(l.run_cmd(Err("denied".to_string())).unwrap_err(), "failed to execute command: denied");
}

#[test]
fn find_commands() {
    let e = Executor::from_config(&ExecutionConfig { mode: ExecutionMode::Local, ssh: None });
    assert_eq!(
        e.list_files_command("/srv/media", &["mkv", "mp4"]),
        "find /srv/media -type f \\( -name '*.mkv' -o -name '*.mp4' \\)"
    );
    assert_eq!(
        e.list_files_command("/srv/media", &["ts"]),
        "find /srv/media -type f \\( -name '*.ts' \\)"
    );
    assert_eq!(e.list_files_command("/a b", &[]), "find '/a b' -type f -false");
    assert_eq!(e.list_all_files_command("/srv"), "find /srv -type f -printf '%s\\t%p\\n'");
    assert_eq!(e.delete_file_command("/srv/x y.nfo"), "rm -f '/srv/x y.nfo'");
    assert_eq!(
        e.ffprobe_command("/usr/bin/ffprobe", "/m/Film (2020).mkv"),
        "/usr/bin/ffprobe -v error -print_format json -show_streams -show_format '/m/Film (2020).mkv'"
    );
}

#[test]
fn list_files_reads_output() {
    let e = Executor::from_config(&ExecutionConfig { mode: ExecutionMode::Local, ssh: None });
    let files = e.list_files(&Ok(result("/a.mkv\n\n/b.mp4\n", "", true))).unwrap();
    assert_eq!(files, vec!["/a.mkv", "/b.mp4"]);
    assert_eq!(
        e.list_files(&Ok(result("", "  find: /x: No such file\n", false))).unwrap_err(),
        "find failed: find: /x: No such file"
    );
    assert_eq!(e.list_files(&Ok(result("/c.mkv\n", "   ", false))).unwrap(), vec!["/c.mkv"]);
    assert_eq!(e.list_files(&Err("boom".to_string())).unwrap_err(), "boom");
}

#[test]
fn list_all_files_reads_sizes() {
    let e = Executor::from_config(&ExecutionConfig { mode: ExecutionMode::Local, ssh: None });
    let out = "12\t/a.nfo\nbad\t/b\n7\t/c d.txt\nnotab\n\n0\t\n";
    let files = e.list_all_files(&Ok(result(out, "", true))).unwrap();
    assert_eq!(
        files,
        vec![("/a.nfo".to_string(), 12), ("/c d.txt".to_string(), 7), (String::new(), 0)]
    );
}

#[test]
fn delete_and_connection() {
    let e = Executor::from_config(&ssh_config(None));
    assert!(e.delete_file(&Ok(result("", "", true))).is_ok());
    assert_eq!(
        e.delete_file(&Ok(result("", " rm: denied \n", false))).unwrap_err(),
        "rm failed: rm: denied"
    );
    assert_eq!(e.connection_probe().as_deref(), Some("echo ok"));
    assert!(e.test_connection(&Ok(result("ok\n", "", true))).is_ok());
    assert_eq!(
        e.test_connection(&Ok(result("nope", "", true))).unwrap_err(),
        "SSH connection test returned unexpected output"
    );
    assert_eq!(e.test_connection(&Err("down".to_string())).unwrap_err(), "down");
    let l = Executor::from_config(&ExecutionConfig { mode: ExecutionMode::Local, ssh: None });
    assert!(l.connection_probe().is_none());
    assert!(l.test_connection(&Err("ignored".to_string())).is_ok());
}

#[test]
fn failed_ssh_connections_are_retried_three_times() {
    let s = Executor::from_config(&ssh_config(None));
    let refused = || Ok(ProcessOutput { stdout: String::new(), stderr: String::new(), success: false, code: Some(255) });
    let delays: Vec<Option<u64>> = (0..5).map(|a| s.ssh_retry_delay(a, &refused())).collect();
    assert_eq!(delays, vec![Some(1000), Some(2000), Some(4000), None, None]);
    let failed_command = Ok(ProcessOutput { stdout: String::new(), stderr: "x".to_string(), success: false, code: Some(1) });
    assert_eq!(s.ssh_retry_delay(0, &failed_command), None);
    assert_eq!(s.ssh_retry_delay(0, &Err("no ssh".to_string())), None);
    let l = Executor::from_config(&ExecutionConfig { mode: ExecutionMode::Local, ssh: None });
    assert_eq!(l.ssh_retry_delay(0, &refused()), None);
}

#[test]
fn ssh_mode_without_a_target_says_so() {
    let none = Executor::from_config(&ExecutionConfig { mode: ExecutionMode::Ssh, ssh: None });
    let refused = ProcessOutput { stdout: String::new(), stderr: String::new(), success: false, code: Some(255) };
    assert_eq!(
        none.run_cmd(Ok(refused)).unwrap_err(),
        "SSH config missing: no host/user defined in [execution.ssh]"
    );
}

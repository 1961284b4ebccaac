use jellyfin_pulga::config::{
    Config, ExecutionConfig, ExecutionMode, JellyfinConfig, MediaConfig, ServerConfig, SshConfig,
};
use jellyfin_pulga::deploy::{write_file_command, DeployAction, DeployOp, DeployStage, Deployer};
use jellyfin_pulga::executor::ProcessOutput;

fn ssh() -> SshConfig {
    SshConfig { host: "192.168.1.37".to_string(), user: "pulga".to_string(), port: 22, key_path: None }
}

fn config(url: &str, with_ssh: bool) -> Config {
    Config {
        jellyfin: JellyfinConfig { url: url.to_string(), api_key: "KEY".to_string() },
        media: MediaConfig {
            paths: vec!["/srv/media/movies".to_string(), "/srv/media/series".to_string()],
            ffprobe_path: "/usr/bin/ffprobe".to_string(),
        },
        server: ServerConfig { host: "0.0.0.0".to_string(), port: 3000 },
        execution: ExecutionConfig { mode: ExecutionMode::Ssh, ssh: if with_ssh { Some(ssh()) } else { None } },
    }
}

fn describe(a: &DeployAction) -> String {
    match a {
        DeployAction::Remote(c) => format!("ssh:{c}"),
        DeployAction::Copy { local, remote } => format!("scp:{local}->{remote}"),
        DeployAction::LocalDir => "pwd".to_string(),
        DeployAction::Pause(s) => format!("sleep:{s}"),
        DeployAction::Succeeded => "ok".to_string(),
        DeployAction::Failed(m) => format!("fail:{m}"),
    }
}

/// Drives an operation, answering each action with `answer`.
fn drive(d: &Deployer, cfg: &Config, op: DeployOp, answer: &dyn Fn(&DeployAction) -> Result<String, String>) -> Vec<String> {
    let mut stage = DeployStage::Start;
    let mut reply: Result<String, String> = Ok(String::new());
    let mut log = Vec::new();
    for _ in 0..40 {
        let (next, action) = d.deploy(cfg, op, &stage, &reply);
        log.push(describe(&action));
        if matches!(action, DeployAction::Succeeded | DeployAction::Failed(_)) {
            return log;
        }
        reply = answer(&action);
        stage = next;
    }
    panic!("did not finish: {log:?}");
}

fn happy(a: &DeployAction) -> Result<String, String> {
    match a {
        DeployAction::Remote(c) if c == "echo ok" => Ok("ok\n".to_string()),
        DeployAction::Remote(c) if c.ends_with("echo yes || echo no") => Ok("yes\n".to_string()),
        DeployAction::Remote(c) if c.starts_with("docker --version") => Ok("Docker version 27\n".to_string()),
        DeployAction::Remote(c) if c.contains("compose ps --format json") => Ok("{\"Name\":\"x\"}\n".to_string()),
        DeployAction::Remote(c) if c.starts_with("curl") => Ok("ok\n".to_string()),
        DeployAction::LocalDir => Ok("/home/me/pulga".to_string()),
        _ => Ok(String::new()),
    }
}

#[test]
fn full_deployment_runs_every_step_in_order() {
    let d = Deployer::new(&ssh(), false);
    let cfg = config("http://192.168.1.37:8096", true);
    let log = drive(&d, &cfg, DeployOp::Up, &happy);
    let compose = d.generate_server_compose(&cfg);
    let server = d.generate_server_config(&cfg).unwrap();
    let expected = vec![
        "ssh:echo ok".to_string(),
        "ssh:command -v docker >/dev/null 2>&1 && echo yes || echo no".to_string(),
        "ssh:docker --version 2>/dev/null".to_string(),
        "ssh:docker compose version >/dev/null 2>&1 && echo yes || echo no".to_string(),
        "ssh:mkdir -p ~/jellyfin-pulga/static/css ~/jellyfin-pulga/static/js ~/jellyfin-pulga/src".to_string(),
        "pwd".to_string(),
        "scp:/home/me/pulga/Dockerfile->~/jellyfin-pulga/Dockerfile".to_string(),
        "scp:/home/me/pulga/Cargo.toml->~/jellyfin-pulga/Cargo.toml".to_string(),
        "scp:/home/me/pulga/Cargo.lock->~/jellyfin-pulga/Cargo.lock".to_string(),
        "scp:/home/me/pulga/src->~/jellyfin-pulga/".to_string(),
        "scp:/home/me/pulga/static->~/jellyfin-pulga/".to_string(),
        format!("ssh:{}", write_file_command("docker-compose.yml", &compose)),
        format!("ssh:{}", write_file_command("config.toml", &server)),
        "ssh:docker info >/dev/null 2>&1 && echo yes || echo no".to_string(),
        "ssh:cd ~/jellyfin-pulga && docker compose build --no-cache 2>&1".to_string(),
        "ssh:cd ~/jellyfin-pulga && docker compose up -d 2>&1".to_string(),
        "sleep:3".to_string(),
        "ssh:docker info >/dev/null 2>&1 && echo yes || echo no".to_string(),
        "ssh:cd ~/jellyfin-pulga && docker compose ps --format json 2>/dev/null | head -1".to_string(),
        "ssh:curl -sf http://localhost:3000/api/users >/dev/null 2>&1 && echo ok || echo fail".to_string(),
        "ok".to_string(),
    ];
    assert_eq!(log, expected);
}

#[test]
fn sudo_docker_is_used_when_needed() {
    let d = Deployer::new(&ssh(), false);
    let cfg = config("http://192.168.1.37:8096", true);
    let answer = |a: &DeployAction| match a {
        DeployAction::Remote(c) if c == "docker info >/dev/null 2>&1 && echo yes || echo no" => Ok("no".to_string()),
        other => happy(other),
    };
    let log = drive(&d, &cfg, DeployOp::Up, &answer);
    assert!(log.contains(&"ssh:cd ~/jellyfin-pulga && sudo docker compose build --no-cache 2>&1".to_string()));
    assert!(log.contains(&"ssh:cd ~/jellyfin-pulga && sudo docker compose up -d 2>&1".to_string()));
    assert_eq!(log.last().unwrap(), "ok");
}

#[test]
fn failures_stop_the_deployment() {
    let d = Deployer::new(&ssh(), false);
    let cfg = config("http://192.168.1.37:8096", true);
    let no_conn = drive(&d, &cfg, DeployOp::Up, &|_| Err("SSH connection to pulga@192.168.1.37 failed".to_string()));
    assert_eq!(no_conn, vec!["ssh:echo ok", "fail:SSH connection to pulga@192.168.1.37 failed"]);
    let wrong = drive(&d, &cfg, DeployOp::Up, &|_| Ok("nope".to_string()));
    assert_eq!(wrong.last().unwrap(), "fail:SSH to pulga@192.168.1.37 failed");
    let no_docker = drive(&d, &cfg, DeployOp::Up, &|a| match a {
        DeployAction::Remote(c) if c.starts_with("command -v docker") => Ok("no".to_string()),
        other => happy(other),
    });
    assert_eq!(
        no_docker.last().unwrap(),
        "fail:Docker installation failed — install it by hand: curl -fsSL https://get.docker.com | sudo sh"
    );
    let install_refused = drive(&d, &cfg, DeployOp::Up, &|a| match a {
        DeployAction::Remote(c) if c.starts_with("command -v docker") => Ok("no".to_string()),
        DeployAction::Remote(c) if c.contains("get.docker.com") => Err("sudo: a password is required".to_string()),
        other => happy(other),
    });
    assert_eq!(install_refused.last().unwrap(), "fail:sudo: a password is required");
    let no_compose = drive(&d, &cfg, DeployOp::Up, &|a| match a {
        DeployAction::Remote(c) if c.starts_with("docker compose version") => Ok("no".to_string()),
        other => happy(other),
    });
    assert_eq!(no_compose.last().unwrap(), "fail:Docker Compose not available");
    let no_dir = drive(&d, &cfg, DeployOp::Up, &|a| match a {
        DeployAction::LocalDir => Err("gone".to_string()),
        other => happy(other),
    });
    assert_eq!(no_dir.last().unwrap(), "fail:cannot get current dir: gone");
    let build = drive(&d, &cfg, DeployOp::Up, &|a| match a {
        DeployAction::Remote(c) if c.contains("build --no-cache") => Ok("ERROR: step failed".to_string()),
        other => happy(other),
    });
    assert_eq!(build.last().unwrap(), "fail:Docker build failed:\nERROR: step failed");
    let no_access = drive(&d, &cfg, DeployOp::Up, &|a| match a {
        DeployAction::Remote(c) if c.contains("docker info") => Ok("no".to_string()),
        other => happy(other),
    });
    assert_eq!(
        no_access.last().unwrap(),
        "fail:Docker is not accessible. Try logging out and back in, or run: sudo usermod -aG docker $USER"
    );
    let not_running = drive(&d, &cfg, DeployOp::Up, &|a| match a {
        DeployAction::Remote(c) if c.contains("compose ps --format json") => Ok("  \n".to_string()),
        other => happy(other),
    });
    assert_eq!(not_running.last().unwrap(), "fail:Container does not appear to be running.");
}

#[test]
fn unhealthy_container_still_deploys() {
    let d = Deployer::new(&ssh(), false);
    let cfg = config("http://192.168.1.37:8096", true);
    let log = drive(&d, &cfg, DeployOp::Up, &|a| match a {
        DeployAction::Remote(c) if c.starts_with("curl") => Ok("fail".to_string()),
        other => happy(other),
    });
    assert_eq!(log.last().unwrap(), "ok");
}

#[test]
fn deployment_without_ssh_settings() {
    let d = Deployer::new(&ssh(), false);
    let remote = config("http://jellyfin.example:8096", false);
    let log = drive(&d, &remote, DeployOp::Up, &happy);
    assert_eq!(log.last().unwrap(), "fail:SSH config required for deploy");
    let local = config("http://localhost:8096", false);
    let log = drive(&d, &local, DeployOp::Up, &happy);
    assert_eq!(log.last().unwrap(), "fail:SSH config required");
}

#[test]
fn other_operations() {
    let d = Deployer::new(&ssh(), true);
    let cfg = config("http://192.168.1.37:8096", true);
    assert_eq!(
        drive(&d, &cfg, DeployOp::Status, &happy),
        vec!["ssh:echo ok", "ssh:cd ~/jellyfin-pulga && docker compose ps 2>/dev/null || echo 'not deployed'", "ok"]
    );
    assert_eq!(
        drive(&d, &cfg, DeployOp::Logs(50), &happy),
        vec!["ssh:echo ok", "ssh:cd ~/jellyfin-pulga && docker compose logs --tail 50 2>&1", "ok"]
    );
    assert_eq!(
        drive(&d, &cfg, DeployOp::Stop, &happy),
        vec!["ssh:echo ok", "ssh:cd ~/jellyfin-pulga && docker compose down 2>&1", "ok"]
    );
    assert_eq!(
        drive(&d, &cfg, DeployOp::Restart, &happy),
        vec!["ssh:echo ok", "ssh:cd ~/jellyfin-pulga && docker compose restart 2>&1", "ok"]
    );
}

#[test]
fn generated_files_match_the_templates() {
    let d = Deployer::new(&ssh(), false);
    let cfg = config("http://localhost:8096", true);
    let port = 3000;
    let volumes_str = "      - /srv/media/movies:/srv/media/movies:ro\n      - /srv/media/series:/srv/media/series:ro";
    let compose = format!(
        r#"services:
  jellyfin-pulga:
    build: .
    container_name: jellyfin-pulga
    restart: unless-stopped
    ports:
      - "{port}:{port}"
    extra_hosts:
      - "host.docker.internal:host-gateway"
    volumes:
      - ./config.toml:/app/config.toml:ro
      - pulga-data:/app/data
{volumes_str}
    environment:
      - RUST_LOG=info
      - PULGA_DB_PATH=/app/data/jellyfin_pulga.db
    healthcheck:
      test: ["CMD", "curl", "-f", "http://localhost:{port}/api/users"]
      interval: 30s
      timeout: 10s
      retries: 3
      start_period: 30s

volumes:
  pulga-data:
"#
    );
    assert_eq!(d.generate_server_compose(&cfg), compose);
    let server = format!(
        r#"[jellyfin]
url = "{jf_url}"
api_key = "{api_key}"

[media]
paths = [{paths_str}]
ffprobe_path = "/usr/bin/ffprobe"

[server]
host = "0.0.0.0"
port = {port}

[execution]
mode = "local"
"#,
        jf_url = "http://host.docker.internal:8096",
        api_key = "KEY",
        paths_str = "\"/srv/media/movies\", \"/srv/media/series\"",
        port = 3000,
    );
    assert_eq!(d.generate_server_config(&cfg).unwrap(), server);
    let via_ssh = config("http://192.168.1.37:8096", true);
    assert!(d.generate_server_config(&via_ssh).unwrap().contains("url = \"http://host.docker.internal:8096\""));
    let loopback = config("http://127.0.0.1:8096", false);
    assert!(d.generate_server_config(&loopback).unwrap().contains("url = \"http://host.docker.internal:8096\""));
}

#[test]
fn here_documents_and_transport() {
    assert_eq!(
        write_file_command("config.toml", "a = 'b'"),
        "cat > ~/jellyfin-pulga/config.toml << 'DEPLOYEOF'\na = '\\''b'\\''\nDEPLOYEOF"
    );
    let d = Deployer::new(&SshConfig { key_path: Some("/k".to_string()), port: 2200, ..ssh() }, false);
    assert_eq!(d.ssh_target, "pulga@192.168.1.37");
    assert_eq!(
        d.ssh_args(),
        vec!["-o", "BatchMode=yes", "-o", "ConnectTimeout=10", "-p", "2200", "-i", "/k", "pulga@192.168.1.37"]
    );
    assert_eq!(d.scp_args(), vec!["-o", "BatchMode=yes", "-P", "2200", "-i", "/k"]);
    assert_eq!(d.scp_destination("~/x"), "pulga@192.168.1.37:~/x");
    let refused = ProcessOutput { stdout: String::new(), stderr: String::new(), success: false, code: Some(255) };
    assert_eq!(d.ssh_outcome(Ok(refused)).unwrap_err(), "SSH connection to pulga@192.168.1.37 failed");
    let fine = ProcessOutput { stdout: "out".to_string(), stderr: String::new(), success: false, code: Some(1) };
    assert_eq!(d.ssh_outcome(Ok(fine)).unwrap(), "out");
    assert_eq!(d.ssh_outcome(Err("nope".to_string())).unwrap_err(), "SSH failed: nope");
    let bad_copy = ProcessOutput { stdout: String::new(), stderr: " lost connection \n".to_string(), success: false, code: Some(1) };
    assert_eq!(d.scp_outcome(Ok(bad_copy)).unwrap_err(), "SCP failed: lost connection");
    assert_eq!(d.scp_outcome(Err("x".to_string())).unwrap_err(), "SCP failed: x");
}

#[test]
fn missing_docker_is_installed_then_deployment_goes_on() {
    let d = Deployer::new(&ssh(), false);
    let cfg = config("http://192.168.1.37:8096", true);
    let installed = std::cell::Cell::new(false);
    let log = drive(&d, &cfg, DeployOp::Up, &|a| match a {
        DeployAction::Remote(c) if c.starts_with("command -v docker") && !installed.get() => Ok("no\n".to_string()),
        DeployAction::Remote(c) if c.contains("get.docker.com") => {
            installed.set(true);
            Ok("Docker installed\n".to_string())
        }
        other => happy(other),
    });
    assert_eq!(
        &log[..5],
        &[
            "ssh:echo ok".to_string(),
            "ssh:command -v docker >/dev/null 2>&1 && echo yes || echo no".to_string(),
            "ssh:curl -fsSL https://get.docker.com | sudo sh 2>&1 && sudo usermod -aG docker $USER 2>&1".to_string(),
            "ssh:command -v docker >/dev/null 2>&1 && echo yes || echo no".to_string(),
            "ssh:docker --version 2>/dev/null".to_string(),
        ]
    );
    assert_eq!(log.last().unwrap(), "ok");
}

#[test]
fn deployment_ssh_connections_are_retried() {
    let d = Deployer::new(&ssh(), false);
    let refused = || Ok(ProcessOutput { stdout: String::new(), stderr: String::new(), success: false, code: Some(255) });
    let delays: Vec<Option<u64>> = (0..4).map(|a| d.ssh_retry_delay(a, &refused())).collect();
    assert_eq!(delays, vec![Some(1000), Some(2000), Some(4000), None]);
    let ran = Ok(ProcessOutput { stdout: "no".to_string(), stderr: String::new(), success: true, code: Some(0) });
    assert_eq!(d.ssh_retry_delay(0, &ran), None);
}

#[test]
fn server_config_reads_back_as_toml() {
    let d = Deployer::new(&ssh(), false);
    let cfg = config("http://localhost:8096", true);
    let text = d.generate_server_config(&cfg).unwrap();
    let table: toml::Table = toml::from_str(&text).unwrap();
    let jf = table["jellyfin"].as_table().unwrap();
    assert_eq!(jf["url"].as_str(), Some("http://host.docker.internal:8096"));
    assert_eq!(jf["api_key"].as_str(), Some("KEY"));
    let media = table["media"].as_table().unwrap();
    let paths: Vec<&str> = media["paths"].as_array().unwrap().iter().map(|p| p.as_str().unwrap()).collect();
    assert_eq!(paths, vec!["/srv/media/movies", "/srv/media/series"]);
    assert_eq!(media["ffprobe_path"].as_str(), Some("/usr/bin/ffprobe"));
    let server = table["server"].as_table().unwrap();
    assert_eq!(server["host"].as_str(), Some("0.0.0.0"));
    assert_eq!(server["port"].as_integer(), Some(3000));
    assert_eq!(table["execution"].as_table().unwrap()["mode"].as_str(), Some("local"));
    let command = write_file_command("config.toml", &text);
    assert_eq!(command, format!("cat > ~/jellyfin-pulga/config.toml << 'DEPLOYEOF'\n{text}\nDEPLOYEOF"));
}

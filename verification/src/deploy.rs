//! Deploying the web UI to the media host with Docker, over SSH.
//!
//! A deployment is a conversation with the server: run a command, look at
//! the answer, decide what to do next. [`Deployer::deploy`] makes each
//! decision; the program around the library runs the SSH and SCP commands,
//! reports progress to the user and hands each answer back.

use vstd::prelude::*;
use crate::config::{Config, SshConfig};
use crate::api::{retry_delay, retry_delay_ms};
use crate::executor::{connection_failed, ProcessOutput};
use crate::text::{
    contains_seq, decimal, decimal_string, lemma_decimal_injective, join, join_strings, opt_view, owned, replace,
    replace_str, str_contains, str_eq, trim, trim_str, views,
};

verus! {

broadcast use vstd::string::group_string_axioms;

/// Runs deployment commands on the SSH target of the configuration.
#[derive(Debug)]
pub struct Deployer {
    pub ssh_target: String,
    pub ssh_port: u16,
    pub ssh_key: Option<String>,
    pub verbose: bool,
}

/// What to do on the server.
#[derive(Debug, Clone, Copy, PartialEq, Eq, Structural)]
pub enum DeployOp {
    /// Full deployment: check Docker (installing it when it is missing),
    /// copy the project, build and start the container, verify it.
    Up,
    /// Show the container's status.
    Status,
    /// Show the last lines of the container's log.
    Logs(u32),
    /// Stop the container.
    Stop,
    /// Restart the container.
    Restart,
}

/// Where a deployment stands: what the last action was, whose answer is
/// awaited.
#[derive(Debug)]
pub enum DeployStage {
    Start,
    ConnectionChecked,
    OperationRan,
    DockerChecked,
    DockerInstalled,
    DockerRechecked,
    DockerVersioned,
    ComposeChecked,
    DirectoryPrepared,
    ProjectLocated,
    FileCopied { project: String, index: usize },
    ComposeWritten,
    ConfigWritten,
    DockerProbed { verifying: bool },
    SudoDockerProbed { verifying: bool },
    ImageBuilt { sudo: bool },
    ContainerStarted,
    Paused,
    ContainerListed,
    HealthChecked,
    Done,
}

/// The next thing to do.
#[derive(Debug)]
pub enum DeployAction {
    /// Run a command on the server over SSH; the answer is its standard
    /// output.
    Remote(String),
    /// Copy a local file or directory to the server with `scp -r`.
    Copy { local: String, remote: String },
    /// Find the local project directory; the answer is its path.
    LocalDir,
    /// Wait this many seconds.
    Pause(u64),
    /// The deployment is over and succeeded.
    Succeeded,
    /// The deployment is over and failed for this reason.
    Failed(String),
}

/// The model of a [`DeployStage`].
pub enum StageView {
    Start,
    ConnectionChecked,
    OperationRan,
    DockerChecked,
    DockerInstalled,
    DockerRechecked,
    DockerVersioned,
    ComposeChecked,
    DirectoryPrepared,
    ProjectLocated,
    FileCopied { project: Seq<char>, index: nat },
    ComposeWritten,
    ConfigWritten,
    DockerProbed { verifying: bool },
    SudoDockerProbed { verifying: bool },
    ImageBuilt { sudo: bool },
    ContainerStarted,
    Paused,
    ContainerListed,
    HealthChecked,
    Done,
}

/// The model of a [`DeployAction`].
pub enum ActionView {
    Remote(Seq<char>),
    Copy(Seq<char>, Seq<char>),
    LocalDir,
    Pause(u64),
    Succeeded,
    Failed(Seq<char>),
}

impl View for DeployStage {
    type V = StageView;

    open spec fn view(&self) -> StageView {
        match self {
            DeployStage::Start => StageView::Start,
            DeployStage::ConnectionChecked => StageView::ConnectionChecked,
            DeployStage::OperationRan => StageView::OperationRan,
            DeployStage::DockerChecked => StageView::DockerChecked,
            DeployStage::DockerInstalled => StageView::DockerInstalled,
            DeployStage::DockerRechecked => StageView::DockerRechecked,
            DeployStage::DockerVersioned => StageView::DockerVersioned,
            DeployStage::ComposeChecked => StageView::ComposeChecked,
            DeployStage::DirectoryPrepared => StageView::DirectoryPrepared,
            DeployStage::ProjectLocated => StageView::ProjectLocated,
            DeployStage::FileCopied { project, index } => StageView::FileCopied {
                project: project@,
                index: *index as nat,
            },
            DeployStage::ComposeWritten => StageView::ComposeWritten,
            DeployStage::ConfigWritten => StageView::ConfigWritten,
            DeployStage::DockerProbed { verifying } => StageView::DockerProbed {
                verifying: *verifying,
            },
            DeployStage::SudoDockerProbed { verifying } => StageView::SudoDockerProbed {
                verifying: *verifying,
            },
            DeployStage::ImageBuilt { sudo } => StageView::ImageBuilt { sudo: *sudo },
            DeployStage::ContainerStarted => StageView::ContainerStarted,
            DeployStage::Paused => StageView::Paused,
            DeployStage::ContainerListed => StageView::ContainerListed,
            DeployStage::HealthChecked => StageView::HealthChecked,
            DeployStage::Done => StageView::Done,
        }
    }
}

impl View for DeployAction {
    type V = ActionView;

    open spec fn view(&self) -> ActionView {
        match self {
            DeployAction::Remote(c) => ActionView::Remote(c@),
            DeployAction::Copy { local, remote } => ActionView::Copy(local@, remote@),
            DeployAction::LocalDir => ActionView::LocalDir,
            DeployAction::Pause(s) => ActionView::Pause(*s),
            DeployAction::Succeeded => ActionView::Succeeded,
            DeployAction::Failed(m) => ActionView::Failed(m@),
        }
    }
}

/// The view of an answer.
pub open spec fn reply_view(r: Result<String, String>) -> Result<Seq<char>, Seq<char>> {
    match r {
        Ok(s) => Ok(s@),
        Err(e) => Err(e@),
    }
}

/// The directory on the server that holds the deployment.
pub open spec fn deploy_dir() -> Seq<char> {
    "~/jellyfin-pulga"@
}

/// `cd` into the deployment directory, then run `rest`.
pub open spec fn in_deploy_dir(rest: Seq<char>) -> Seq<char> {
    "cd ~/jellyfin-pulga && "@ + rest
}

/// The command that shows the container's status.
pub open spec fn status_command() -> Seq<char> {
    in_deploy_dir("docker compose ps 2>/dev/null || echo 'not deployed'"@)
}

/// The command that shows the last `lines` lines of the container's log.
pub open spec fn logs_command(lines: u32) -> Seq<char> {
    in_deploy_dir("docker compose logs --tail "@ + decimal(lines as nat) + " 2>&1"@)
}

/// The command that stops the container.
pub open spec fn stop_command() -> Seq<char> {
    in_deploy_dir("docker compose down 2>&1"@)
}

/// The command that restarts the container.
pub open spec fn restart_command() -> Seq<char> {
    in_deploy_dir("docker compose restart 2>&1"@)
}

/// The command that answers `yes` when Docker is installed.
pub open spec fn docker_present_command() -> Seq<char> {
    "command -v docker >/dev/null 2>&1 && echo yes || echo no"@
}

/// The command that installs Docker (with its Compose plugin) through the
/// official convenience script, and lets the SSH user run it.
pub open spec fn docker_install_command() -> Seq<char> {
    "curl -fsSL https://get.docker.com | sudo sh 2>&1 && sudo usermod -aG docker $USER 2>&1"@
}

/// The command that prints Docker's version.
pub open spec fn docker_version_command() -> Seq<char> {
    "docker --version 2>/dev/null"@
}

/// The command that answers `yes` when the Compose plugin is installed.
pub open spec fn compose_present_command() -> Seq<char> {
    "docker compose version >/dev/null 2>&1 && echo yes || echo no"@
}

/// The command that creates the deployment directories.
pub open spec fn mkdir_command() -> Seq<char> {
    "mkdir -p ~/jellyfin-pulga/static/css ~/jellyfin-pulga/static/js ~/jellyfin-pulga/src"@
}

/// The command that answers `yes` when Docker can be used directly (or,
/// with `sudo`, through sudo).
pub open spec fn docker_usable_command(sudo: bool) -> Seq<char> {
    if sudo {
        "sudo docker info >/dev/null 2>&1 && echo yes || echo no"@
    } else {
        "docker info >/dev/null 2>&1 && echo yes || echo no"@
    }
}

/// How Docker is invoked.
pub open spec fn docker_invocation(sudo: bool) -> Seq<char> {
    if sudo {
        "sudo docker"@
    } else {
        "docker"@
    }
}

/// The command that builds the image afresh.
pub open spec fn build_command(sudo: bool) -> Seq<char> {
    in_deploy_dir(docker_invocation(sudo) + " compose build --no-cache 2>&1"@)
}

/// The command that starts the container in the background.
pub open spec fn up_command(sudo: bool) -> Seq<char> {
    in_deploy_dir(docker_invocation(sudo) + " compose up -d 2>&1"@)
}

/// The command that prints the first running container, if any.
pub open spec fn ps_command(sudo: bool) -> Seq<char> {
    in_deploy_dir(docker_invocation(sudo) + " compose ps --format json 2>/dev/null | head -1"@)
}

/// The command that answers `ok` when the web UI responds on `port`.
pub open spec fn health_command(port: u16) -> Seq<char> {
    "curl -sf http://localhost:"@ + decimal(port as nat)
        + "/api/users >/dev/null 2>&1 && echo ok || echo fail"@
}

/// The files copied to the server, by position: local path under the
/// project directory and destination.
pub open spec fn copy_pair(project: Seq<char>, index: nat) -> (Seq<char>, Seq<char>) {
    if index == 0 {
        (project + "/Dockerfile"@, "~/jellyfin-pulga/Dockerfile"@)
    } else if index == 1 {
        (project + "/Cargo.toml"@, "~/jellyfin-pulga/Cargo.toml"@)
    } else if index == 2 {
        (project + "/Cargo.lock"@, "~/jellyfin-pulga/Cargo.lock"@)
    } else if index == 3 {
        (project + "/src"@, "~/jellyfin-pulga/"@)
    } else {
        (project + "/static"@, "~/jellyfin-pulga/"@)
    }
}

/// How many files are copied.
pub open spec fn copy_count() -> nat {
    5
}

/// The command that writes `content` to `file` in the deployment directory
/// through a here-document, quotes in it written as `'\''`.
pub open spec fn file_writing_command(file: Seq<char>, content: Seq<char>) -> Seq<char> {
    "cat > ~/jellyfin-pulga/"@ + file + " << 'DEPLOYEOF'\n"@ + replace(
        content,
        "'"@,
        "'\\''"@,
    ) + "\nDEPLOYEOF"@
}

/// The volume lines of the Compose file: each media folder mounted
/// read-only at the same path.
pub open spec fn volume_lines(paths: Seq<String>) -> Seq<Seq<char>> {
    paths.map_values(|p: String| "      - "@ + p@ + ":"@ + p@ + ":ro"@)
}

/// The Compose file of the deployment.
pub open spec fn compose_text(port: u16, paths: Seq<String>) -> Seq<char> {
    let p = decimal(port as nat);
    "services:\n  jellyfin-pulga:\n    build: .\n    container_name: jellyfin-pulga\n    restart: unless-stopped\n    ports:\n      - \""@
        + p + ":"@ + p
        + "\"\n    extra_hosts:\n      - \"host.docker.internal:host-gateway\"\n    volumes:\n      - ./config.toml:/app/config.toml:ro\n      - pulga-data:/app/data\n"@
        + join(volume_lines(paths), "\n"@)
        + "\n    environment:\n      - RUST_LOG=info\n      - PULGA_DB_PATH=/app/data/jellyfin_pulga.db\n    healthcheck:\n      test: [\"CMD\", \"curl\", \"-f\", \"http://localhost:"@
        + p
        + "/api/users\"]\n      interval: 30s\n      timeout: 10s\n      retries: 3\n      start_period: 30s\n\nvolumes:\n  pulga-data:\n"@
}

/// The Jellyfin address as seen from inside the container: a local address
/// (`localhost`, `127.0.0.1`) or the SSH host becomes the Docker host
/// gateway. Without SSH settings a non-local address cannot be rewritten.
pub open spec fn container_jellyfin_url(config: Config) -> Result<Seq<char>, Seq<char>> {
    let url = config.jellyfin.url@;
    if contains_seq(url, "localhost"@) || contains_seq(url, "127.0.0.1"@) {
        Ok(
            replace(
                replace(url, "localhost"@, "host.docker.internal"@),
                "127.0.0.1"@,
                "host.docker.internal"@,
            ),
        )
    } else {
        match config.execution.ssh {
            Some(s) => Ok(replace(url, s.host@, "host.docker.internal"@)),
            None => Err("SSH config required for deploy"@),
        }
    }
}

/// The media folders as a list of quoted strings.
pub open spec fn quoted_paths(paths: Seq<String>) -> Seq<Seq<char>> {
    paths.map_values(|p: String| "\""@ + p@ + "\""@)
}

/// The configuration file of the deployed service: the rewritten Jellyfin
/// address, the same key and media folders, the container's `ffprobe`, the
/// configured port on all interfaces, and local execution.
pub open spec fn server_config_text(config: Config) -> Result<Seq<char>, Seq<char>> {
    match container_jellyfin_url(config) {
        Err(m) => Err(m),
        Ok(url) => Ok(
            "[jellyfin]\nurl = \""@ + url + "\"\napi_key = \""@ + config.jellyfin.api_key@
                + "\"\n\n[media]\npaths = ["@ + join(quoted_paths(config.media.paths@), ", "@)
                + "]\nffprobe_path = \"/usr/bin/ffprobe\"\n\n[server]\nhost = \"0.0.0.0\"\nport = "@
                + decimal(config.server.port as nat) + "\n\n[execution]\nmode = \"local\"\n"@,
        ),
    }
}

/// Position of a stage in a deployment; every step moves to a later one.
pub open spec fn stage_rank(s: StageView) -> nat {
    match s {
        StageView::Start => 0,
        StageView::ConnectionChecked => 1,
        StageView::OperationRan => 2,
        StageView::DockerChecked => 2,
        StageView::DockerInstalled => 3,
        StageView::DockerRechecked => 4,
        StageView::DockerVersioned => 5,
        StageView::ComposeChecked => 6,
        StageView::DirectoryPrepared => 7,
        StageView::ProjectLocated => 8,
        StageView::FileCopied { index, .. } => 9 + if index < 4 {
            index
        } else {
            4
        },
        StageView::ComposeWritten => 14,
        StageView::ConfigWritten => 15,
        StageView::DockerProbed { verifying } => if verifying {
            21
        } else {
            16
        },
        StageView::SudoDockerProbed { verifying } => if verifying {
            22
        } else {
            17
        },
        StageView::ImageBuilt { .. } => 18,
        StageView::ContainerStarted => 19,
        StageView::Paused => 20,
        StageView::ContainerListed => 23,
        StageView::HealthChecked => 24,
        StageView::Done => 25,
    }
}

impl Deployer {
    /// The step after Docker was found usable (through `sudo` or not):
    /// build the image, or, when verifying, look for the running container.
    pub open spec fn with_docker(verifying: bool, sudo: bool) -> (StageView, ActionView) {
        if verifying {
            (StageView::ContainerListed, ActionView::Remote(ps_command(sudo)))
        } else {
            (StageView::ImageBuilt { sudo }, ActionView::Remote(build_command(sudo)))
        }
    }

    /// One decision of a deployment: from where it stands and the answer to
    /// the last action, where it goes and what to do next. Every failed
    /// action ends it with that failure.
    pub open spec fn transition(
        &self,
        config: Config,
        op: DeployOp,
        stage: StageView,
        reply: Result<Seq<char>, Seq<char>>,
    ) -> (StageView, ActionView) {
        match stage {
            StageView::Start => (StageView::ConnectionChecked, ActionView::Remote("echo ok"@)),
            StageView::ProjectLocated => match reply {
                Err(e) => (StageView::Done, ActionView::Failed("cannot get current dir: "@ + e)),
                Ok(p) => (
                    StageView::FileCopied { project: p, index: 0 },
                    ActionView::Copy(copy_pair(p, 0).0, copy_pair(p, 0).1),
                ),
            },
            _ => match reply {
                Err(e) => (StageView::Done, ActionView::Failed(e)),
                Ok(o) => match stage {
                    StageView::ConnectionChecked => if trim(o) != "ok"@ {
                        (
                            StageView::Done,
                            ActionView::Failed("SSH to "@ + self.ssh_target@ + " failed"@),
                        )
                    } else {
                        match op {
                            DeployOp::Up => (
                                StageView::DockerChecked,
                                ActionView::Remote(docker_present_command()),
                            ),
                            DeployOp::Status => (
                                StageView::OperationRan,
                                ActionView::Remote(status_command()),
                            ),
                            DeployOp::Logs(n) => (
                                StageView::OperationRan,
                                ActionView::Remote(logs_command(n)),
                            ),
                            DeployOp::Stop => (
                                StageView::OperationRan,
                                ActionView::Remote(stop_command()),
                            ),
                            DeployOp::Restart => (
                                StageView::OperationRan,
                                ActionView::Remote(restart_command()),
                            ),
                        }
                    },
                    StageView::OperationRan => (StageView::Done, ActionView::Succeeded),
                    StageView::DockerChecked => if trim(o) == "yes"@ {
                        (StageView::DockerVersioned, ActionView::Remote(docker_version_command()))
                    } else {
                        (StageView::DockerInstalled, ActionView::Remote(docker_install_command()))
                    },
                    StageView::DockerInstalled => (
                        StageView::DockerRechecked,
                        ActionView::Remote(docker_present_command()),
                    ),
                    StageView::DockerRechecked => if trim(o) == "yes"@ {
                        (StageView::DockerVersioned, ActionView::Remote(docker_version_command()))
                    } else {
                        (
                            StageView::Done,
                            ActionView::Failed(
                                "Docker installation failed — install it by hand: curl -fsSL https://get.docker.com | sudo sh"@,
                            ),
                        )
                    },
                    StageView::DockerVersioned => (
                        StageView::ComposeChecked,
                        ActionView::Remote(compose_present_command()),
                    ),
                    StageView::ComposeChecked => if trim(o) == "yes"@ {
                        (StageView::DirectoryPrepared, ActionView::Remote(mkdir_command()))
                    } else {
                        (StageView::Done, ActionView::Failed("Docker Compose not available"@))
                    },
                    StageView::DirectoryPrepared => (
                        StageView::ProjectLocated,
                        ActionView::LocalDir,
                    ),
                    StageView::FileCopied { project, index } => if index + 1 < copy_count() {
                        (
                            StageView::FileCopied { project, index: index + 1 },
                            ActionView::Copy(
                                copy_pair(project, index + 1).0,
                                copy_pair(project, index + 1).1,
                            ),
                        )
                    } else {
                        (
                            StageView::ComposeWritten,
                            ActionView::Remote(
                                file_writing_command(
                                    "docker-compose.yml"@,
                                    compose_text(config.server.port, config.media.paths@),
                                ),
                            ),
                        )
                    },
                    StageView::ComposeWritten => match server_config_text(config) {
                        Err(m) => (StageView::Done, ActionView::Failed(m)),
                        Ok(t) => (
                            StageView::ConfigWritten,
                            ActionView::Remote(file_writing_command("config.toml"@, t)),
                        ),
                    },
                    StageView::ConfigWritten => (
                        StageView::DockerProbed { verifying: false },
                        ActionView::Remote(docker_usable_command(false)),
                    ),
                    StageView::DockerProbed { verifying } => if trim(o) == "yes"@ {
                        Self::with_docker(verifying, false)
                    } else {
                        (
                            StageView::SudoDockerProbed { verifying },
                            ActionView::Remote(docker_usable_command(true)),
                        )
                    },
                    StageView::SudoDockerProbed { verifying } => if trim(o) == "yes"@ {
                        Self::with_docker(verifying, true)
                    } else {
                        (
                            StageView::Done,
                            ActionView::Failed(
                                "Docker is not accessible. Try logging out and back in, or run: sudo usermod -aG docker $USER"@,
                            ),
                        )
                    },
                    StageView::ImageBuilt { sudo } => if contains_seq(o, "ERROR"@) && contains_seq(
                        o,
                        "failed"@,
                    ) {
                        (StageView::Done, ActionView::Failed("Docker build failed:\n"@ + o))
                    } else {
                        (StageView::ContainerStarted, ActionView::Remote(up_command(sudo)))
                    },
                    StageView::ContainerStarted => match config.execution.ssh {
                        None => (StageView::Done, ActionView::Failed("SSH config required"@)),
                        Some(_) => (StageView::Paused, ActionView::Pause(3)),
                    },
                    StageView::Paused => (
                        StageView::DockerProbed { verifying: true },
                        ActionView::Remote(docker_usable_command(false)),
                    ),
                    StageView::ContainerListed => if trim(o).len() == 0 {
                        (
                            StageView::Done,
                            ActionView::Failed("Container does not appear to be running."@),
                        )
                    } else {
                        (
                            StageView::HealthChecked,
                            ActionView::Remote(health_command(config.server.port)),
                        )
                    },
                    StageView::HealthChecked => (StageView::Done, ActionView::Succeeded),
                    _ => (StageView::Done, ActionView::Succeeded),
                },
            },
        }
    }
}

/// The volume lines of the Compose file.
fn volume_lines_exec(paths: &Vec<String>) -> (r: Vec<String>)
    ensures
        views(r@) == volume_lines(paths@),
{
    let mut r: Vec<String> = Vec::new();
    for i in 0..paths.len()
        invariant
            views(r@) == volume_lines(paths@.take(i as int)),
    {
        let mut l = owned("      - ");
        l.append(paths[i].as_str());
        l.append(":");
        l.append(paths[i].as_str());
        l.append(":ro");
        let ghost before = r@;
        r.push(l);
        assert(views(r@) =~= views(before).push(l@));
        assert(volume_lines(paths@.take(i + 1)) =~= volume_lines(paths@.take(i as int)).push(l@));
    }
    assert(paths@.take(paths.len() as int) =~= paths@);
    r
}

/// The media folders as quoted strings.
fn quoted_paths_exec(paths: &Vec<String>) -> (r: Vec<String>)
    ensures
        views(r@) == quoted_paths(paths@),
{
    let mut r: Vec<String> = Vec::new();
    for i in 0..paths.len()
        invariant
            views(r@) == quoted_paths(paths@.take(i as int)),
    {
        let mut l = owned("\"");
        l.append(paths[i].as_str());
        l.append("\"");
        let ghost before = r@;
        r.push(l);
        assert(views(r@) =~= views(before).push(l@));
        assert(quoted_paths(paths@.take(i + 1)) =~= quoted_paths(paths@.take(i as int)).push(l@));
    }
    assert(paths@.take(paths.len() as int) =~= paths@);
    r
}

/// The command that writes `content` to `file` in the deployment directory.
pub fn write_file_command(file: &str, content: &str) -> (r: String)
    ensures
        r@ == file_writing_command(file@, content@),
{
    let mut r = owned("cat > ~/jellyfin-pulga/");
    r.append(file);
    r.append(" << 'DEPLOYEOF'\n");
    let escaped = replace_str(content, "'", "'\\''");
    r.append(escaped.as_str());
    r.append("\nDEPLOYEOF");
    r
}

/// A command run in the deployment directory.
fn in_deploy_dir_exec(rest: &str) -> (r: String)
    ensures
        r@ == in_deploy_dir(rest@),
{
    let mut r = owned("cd ~/jellyfin-pulga && ");
    r.append(rest);
    r
}

/// How Docker is invoked.
fn docker_invocation_exec(sudo: bool) -> (r: &'static str)
    ensures
        r@ == docker_invocation(sudo),
{
    if sudo {
        "sudo docker"
    } else {
        "docker"
    }
}

/// A Docker Compose command in the deployment directory.
fn compose_command(sudo: bool, rest: &str) -> (r: String)
    ensures
        r@ == in_deploy_dir(docker_invocation(sudo) + rest@),
{
    let mut r = owned("cd ~/jellyfin-pulga && ");
    r.append(docker_invocation_exec(sudo));
    r.append(rest);
    r
}

/// The command that asks whether Docker is usable.
fn docker_usable_exec(sudo: bool) -> (r: String)
    ensures
        r@ == docker_usable_command(sudo),
{
    if sudo {
        owned("sudo docker info >/dev/null 2>&1 && echo yes || echo no")
    } else {
        owned("docker info >/dev/null 2>&1 && echo yes || echo no")
    }
}

/// A copy of the `index`th file.
fn copy_action(project: &String, index: usize) -> (r: DeployAction)
    ensures
        r@ == ActionView::Copy(copy_pair(project@, index as nat).0, copy_pair(project@, index as nat).1),
{
    let mut local = project.clone();
    if index == 0 {
        local.append("/Dockerfile");
        DeployAction::Copy { local, remote: owned("~/jellyfin-pulga/Dockerfile") }
    } else if index == 1 {
        local.append("/Cargo.toml");
        DeployAction::Copy { local, remote: owned("~/jellyfin-pulga/Cargo.toml") }
    } else if index == 2 {
        local.append("/Cargo.lock");
        DeployAction::Copy { local, remote: owned("~/jellyfin-pulga/Cargo.lock") }
    } else if index == 3 {
        local.append("/src");
        DeployAction::Copy { local, remote: owned("~/jellyfin-pulga/") }
    } else {
        local.append("/static");
        DeployAction::Copy { local, remote: owned("~/jellyfin-pulga/") }
    }
}

/// Whether a trimmed answer is exactly `word`.
fn answered(o: &String, word: &str) -> (r: bool)
    ensures
        r == (trim(o@) == word@),
{
    let t = trim_str(o.as_str());
    str_eq(t.as_str(), word)
}

impl Deployer {
    /// Connects as `user@host` on the configured port, with the configured
    /// key.
    pub fn new(ssh: &SshConfig, verbose: bool) -> (r: Self)
        ensures
            r.ssh_target@ == ssh.user@ + "@"@ + ssh.host@,
            r.ssh_port == ssh.port,
            opt_view(r.ssh_key) == opt_view(ssh.key_path),
            r.verbose == verbose,
    {
        let mut target = ssh.user.clone();
        target.append("@");
        target.append(ssh.host.as_str());
        let key = match &ssh.key_path {
            Some(k) => Some(k.clone()),
            None => None,
        };
        Deployer { ssh_target: target, ssh_port: ssh.port, ssh_key: key, verbose }
    }

    /// The arguments of `ssh` before the remote command: batch mode, a ten
    /// second connection timeout, the port, the key if any, the target.
    pub fn ssh_args(&self) -> (r: Vec<String>)
        ensures
            views(r@) == seq!["-o"@, "BatchMode=yes"@, "-o"@, "ConnectTimeout=10"@, "-p"@, decimal(
                self.ssh_port as nat,
            )] + (match self.ssh_key {
                Some(k) => seq!["-i"@, k@],
                None => seq![],
            }) + seq![self.ssh_target@],
    {
        let mut r: Vec<String> = Vec::new();
        r.push(owned("-o"));
        r.push(owned("BatchMode=yes"));
        r.push(owned("-o"));
        r.push(owned("ConnectTimeout=10"));
        r.push(owned("-p"));
        r.push(decimal_string(self.ssh_port as u64));
        let ghost base = views(r@);
        match &self.ssh_key {
            Some(k) => {
                r.push(owned("-i"));
                r.push(k.clone());
            },
            None => {},
        }
        r.push(self.ssh_target.clone());
        assert(views(r@) =~= base + (match self.ssh_key {
            Some(k) => seq!["-i"@, k@],
            None => seq![],
        }) + seq![self.ssh_target@]);
        r
    }

    /// The arguments of `scp` before the files: batch mode, the port, the
    /// key if any.
    pub fn scp_args(&self) -> (r: Vec<String>)
        ensures
            views(r@) == seq!["-o"@, "BatchMode=yes"@, "-P"@, decimal(self.ssh_port as nat)] + (
            match self.ssh_key {
                Some(k) => seq!["-i"@, k@],
                None => seq![],
            }),
    {
        let mut r: Vec<String> = Vec::new();
        r.push(owned("-o"));
        r.push(owned("BatchMode=yes"));
        r.push(owned("-P"));
        r.push(decimal_string(self.ssh_port as u64));
        let ghost base = views(r@);
        match &self.ssh_key {
            Some(k) => {
                r.push(owned("-i"));
                r.push(k.clone());
            },
            None => {},
        }
        assert(views(r@) =~= base + (match self.ssh_key {
            Some(k) => seq!["-i"@, k@],
            None => seq![],
        }));
        r
    }

    /// The `scp` destination for a path on the server.
    pub fn scp_destination(&self, remote: &str) -> (r: String)
        ensures
            r@ == self.ssh_target@ + ":"@ + remote@,
    {
        let mut r = self.ssh_target.clone();
        r.append(":");
        r.append(remote);
        r
    }

    /// The answer of an SSH command: its standard output, unless `ssh` could
    /// not start or could not connect (exit code 255).
    pub fn ssh_outcome(&self, spawned: Result<ProcessOutput, String>) -> (r: Result<String, String>)
        ensures
            match spawned {
                Err(e) => r is Err && r->Err_0@ == "SSH failed: "@ + e@,
                Ok(out) => if out.code == Some(255i32) {
                    r is Err && r->Err_0@ == "SSH connection to "@ + self.ssh_target@ + " failed"@
                } else {
                    r is Ok && r->Ok_0 == out.stdout
                },
            },
    {
        match spawned {
            Err(e) => {
                let mut m = owned("SSH failed: ");
                m.append(e.as_str());
                Err(m)
            },
            Ok(out) => {
                if out.code == Some(255i32) {
                    let mut m = owned("SSH connection to ");
                    m.append(self.ssh_target.as_str());
                    m.append(" failed");
                    Err(m)
                } else {
                    Ok(out.stdout)
                }
            },
        }
    }

    /// How long to wait, in milliseconds, before running an SSH command
    /// again after its `attempt`th run (counting from 0) ended as `spawned`:
    /// a failed connection is retried with growing waits until the retries
    /// are spent; nothing else is retried.
    pub fn ssh_retry_delay(&self, attempt: u32, spawned: &Result<ProcessOutput, String>) -> (r:
        Option<u64>)
        ensures
            r == if connection_failed(*spawned) {
                retry_delay(attempt as nat)
            } else {
                None
            },
    {
        match spawned {
            Ok(out) => if out.code == Some(255i32) {
                retry_delay_ms(attempt)
            } else {
                None
            },
            Err(_) => None,
        }
    }

    /// The answer of a copy: empty when `scp` succeeded, otherwise why not.
    pub fn scp_outcome(&self, spawned: Result<ProcessOutput, String>) -> (r: Result<String, String>)
        ensures
            match spawned {
                Err(e) => r is Err && r->Err_0@ == "SCP failed: "@ + e@,
                Ok(out) => if out.success {
                    r is Ok && r->Ok_0@ == Seq::<char>::empty()
                } else {
                    r is Err && r->Err_0@ == "SCP failed: "@ + trim(out.stderr@)
                },
            },
    {
        match spawned {
            Err(e) => {
                let mut m = owned("SCP failed: ");
                m.append(e.as_str());
                Err(m)
            },
            Ok(out) => {
                if out.success {
                    Ok(String::new())
                } else {
                    let mut m = owned("SCP failed: ");
                    let t = trim_str(out.stderr.as_str());
                    m.append(t.as_str());
                    Err(m)
                }
            },
        }
    }

    /// The Compose file of the deployment.
    pub fn generate_server_compose(&self, config: &Config) -> (r: String)
        ensures
            r@ == compose_text(config.server.port, config.media.paths@),
    {
        let p = decimal_string(config.server.port as u64);
        let mut r = owned(
            "services:\n  jellyfin-pulga:\n    build: .\n    container_name: jellyfin-pulga\n    restart: unless-stopped\n    ports:\n      - \"",
        );
        r.append(p.as_str());
        r.append(":");
        r.append(p.as_str());
        r.append(
            "\"\n    extra_hosts:\n      - \"host.docker.internal:host-gateway\"\n    volumes:\n      - ./config.toml:/app/config.toml:ro\n      - pulga-data:/app/data\n",
        );
        let lines = volume_lines_exec(&config.media.paths);
        let volumes = join_strings(&lines, "\n");
        r.append(volumes.as_str());
        r.append(
            "\n    environment:\n      - RUST_LOG=info\n      - PULGA_DB_PATH=/app/data/jellyfin_pulga.db\n    healthcheck:\n      test: [\"CMD\", \"curl\", \"-f\", \"http://localhost:",
        );
        r.append(p.as_str());
        r.append(
            "/api/users\"]\n      interval: 30s\n      timeout: 10s\n      retries: 3\n      start_period: 30s\n\nvolumes:\n  pulga-data:\n",
        );
        r
    }

    /// The configuration file of the deployed service.
    pub fn generate_server_config(&self, config: &Config) -> (r: Result<String, String>)
        ensures
            match (r, server_config_text(*config)) {
                (Ok(t), Ok(u)) => t@ == u,
                (Err(e), Err(m)) => e@ == m,
                _ => false,
            },
    {
        let url = config.jellyfin.url.as_str();
        let jf_url = if str_contains(url, "localhost") || str_contains(url, "127.0.0.1") {
            let a = replace_str(url, "localhost", "host.docker.internal");
            replace_str(a.as_str(), "127.0.0.1", "host.docker.internal")
        } else {
            match &config.execution.ssh {
                Some(s) => replace_str(url, s.host.as_str(), "host.docker.internal"),
                None => {
                    return Err(owned("SSH config required for deploy"));
                },
            }
        };
        let quoted = quoted_paths_exec(&config.media.paths);
        let paths = join_strings(&quoted, ", ");
        let mut t = owned("[jellyfin]\nurl = \"");
        t.append(jf_url.as_str());
        t.append("\"\napi_key = \"");
        t.append(config.jellyfin.api_key.as_str());
        t.append("\"\n\n[media]\npaths = [");
        t.append(paths.as_str());
        t.append("]\nffprobe_path = \"/usr/bin/ffprobe\"\n\n[server]\nhost = \"0.0.0.0\"\nport = ");
        let port = decimal_string(config.server.port as u64);
        t.append(port.as_str());
        t.append("\n\n[execution]\nmode = \"local\"\n");
        Ok(t)
    }
}

impl Deployer {
    /// One decision of a deployment (or of another operation on the
    /// server): given where it stands and the answer to the last action,
    /// where it goes and what to do next. A deployment starts at
    /// `DeployStage::Start` (whose answer is not looked at) and ends when the
    /// action is `Succeeded` or `Failed`.
    pub fn deploy(&self, config: &Config, op: DeployOp, stage: &DeployStage, reply: &Result<String, String>) -> (r: (DeployStage, DeployAction))
        requires
            !(stage@ is Done),
        ensures
            (r.0@, r.1@) == self.transition(*config, op, stage@, reply_view(*reply)),
    {
        match stage {
            DeployStage::Start => {
                return (DeployStage::ConnectionChecked, DeployAction::Remote(owned("echo ok")));
            },
            DeployStage::ProjectLocated => {
                return match reply {
                    Err(e) => {
                        let mut m = owned("cannot get current dir: ");
                        m.append(e.as_str());
                        (DeployStage::Done, DeployAction::Failed(m))
                    },
                    Ok(p) => {
                        let a = copy_action(p, 0);
                        (DeployStage::FileCopied { project: p.clone(), index: 0 }, a)
                    },
                };
            },
            _ => {},
        }
        let o = match reply {
            Err(e) => {
                return (DeployStage::Done, DeployAction::Failed(e.clone()));
            },
            Ok(o) => o,
        };
        match stage {
            DeployStage::ConnectionChecked => {
                if !answered(o, "ok") {
                    let mut m = owned("SSH to ");
                    m.append(self.ssh_target.as_str());
                    m.append(" failed");
                    return (DeployStage::Done, DeployAction::Failed(m));
                }
                match op {
                    DeployOp::Up => (
                        DeployStage::DockerChecked,
                        DeployAction::Remote(
                            owned("command -v docker >/dev/null 2>&1 && echo yes || echo no"),
                        ),
                    ),
                    DeployOp::Status => (
                        DeployStage::OperationRan,
                        DeployAction::Remote(
                            in_deploy_dir_exec(
                                "docker compose ps 2>/dev/null || echo 'not deployed'",
                            ),
                        ),
                    ),
                    DeployOp::Logs(n) => {
                        let mut rest = owned("docker compose logs --tail ");
                        let ns = decimal_string(n as u64);
                        rest.append(ns.as_str());
                        rest.append(" 2>&1");
                        (
                            DeployStage::OperationRan,
                            DeployAction::Remote(in_deploy_dir_exec(rest.as_str())),
                        )
                    },
                    DeployOp::Stop => (
                        DeployStage::OperationRan,
                        DeployAction::Remote(in_deploy_dir_exec("docker compose down 2>&1")),
                    ),
                    DeployOp::Restart => (
                        DeployStage::OperationRan,
                        DeployAction::Remote(in_deploy_dir_exec("docker compose restart 2>&1")),
                    ),
                }
            },
            DeployStage::OperationRan => (DeployStage::Done, DeployAction::Succeeded),
            DeployStage::DockerChecked => {
                if answered(o, "yes") {
                    (
                        DeployStage::DockerVersioned,
                        DeployAction::Remote(owned("docker --version 2>/dev/null")),
                    )
                } else {
                    (
                        DeployStage::DockerInstalled,
                        DeployAction::Remote(
                            owned(
                                "curl -fsSL https://get.docker.com | sudo sh 2>&1 && sudo usermod -aG docker $USER 2>&1",
                            ),
                        ),
                    )
                }
            },
            DeployStage::DockerInstalled => (
                DeployStage::DockerRechecked,
                DeployAction::Remote(
                    owned("command -v docker >/dev/null 2>&1 && echo yes || echo no"),
                ),
            ),
            DeployStage::DockerRechecked => {
                if answered(o, "yes") {
                    (
                        DeployStage::DockerVersioned,
                        DeployAction::Remote(owned("docker --version 2>/dev/null")),
                    )
                } else {
                    (
                        DeployStage::Done,
                        DeployAction::Failed(
                            owned(
                                "Docker installation failed — install it by hand: curl -fsSL https://get.docker.com | sudo sh",
                            ),
                        ),
                    )
                }
            },
            DeployStage::DockerVersioned => (
                DeployStage::ComposeChecked,
                DeployAction::Remote(
                    owned("docker compose version >/dev/null 2>&1 && echo yes || echo no"),
                ),
            ),
            DeployStage::ComposeChecked => {
                if answered(o, "yes") {
                    (
                        DeployStage::DirectoryPrepared,
                        DeployAction::Remote(
                            owned(
                                "mkdir -p ~/jellyfin-pulga/static/css ~/jellyfin-pulga/static/js ~/jellyfin-pulga/src",
                            ),
                        ),
                    )
                } else {
                    (DeployStage::Done, DeployAction::Failed(owned("Docker Compose not available")))
                }
            },
            DeployStage::DirectoryPrepared => (DeployStage::ProjectLocated, DeployAction::LocalDir),
            DeployStage::FileCopied { project, index } => {
                if *index < 4 {
                    let a = copy_action(project, *index + 1);
                    (DeployStage::FileCopied { project: project.clone(), index: *index + 1 }, a)
                } else {
                    let compose = self.generate_server_compose(config);
                    (
                        DeployStage::ComposeWritten,
                        DeployAction::Remote(
                            write_file_command("docker-compose.yml", compose.as_str()),
                        ),
                    )
                }
            },
            DeployStage::ComposeWritten => match self.generate_server_config(config) {
                Err(m) => (DeployStage::Done, DeployAction::Failed(m)),
                Ok(t) => (
                    DeployStage::ConfigWritten,
                    DeployAction::Remote(write_file_command("config.toml", t.as_str())),
                ),
            },
            DeployStage::ConfigWritten => (
                DeployStage::DockerProbed { verifying: false },
                DeployAction::Remote(docker_usable_exec(false)),
            ),
            DeployStage::DockerProbed { verifying } => {
                if answered(o, "yes") {
                    self.with_docker_exec(*verifying, false)
                } else {
                    (
                        DeployStage::SudoDockerProbed { verifying: *verifying },
                        DeployAction::Remote(docker_usable_exec(true)),
                    )
                }
            },
            DeployStage::SudoDockerProbed { verifying } => {
                if answered(o, "yes") {
                    self.with_docker_exec(*verifying, true)
                } else {
                    (
                        DeployStage::Done,
                        DeployAction::Failed(
                            owned(
                                "Docker is not accessible. Try logging out and back in, or run: sudo usermod -aG docker $USER",
                            ),
                        ),
                    )
                }
            },
            DeployStage::ImageBuilt { sudo } => {
                if str_contains(o.as_str(), "ERROR") && str_contains(o.as_str(), "failed") {
                    let mut m = owned("Docker build failed:\n");
                    m.append(o.as_str());
                    (DeployStage::Done, DeployAction::Failed(m))
                } else {
                    (
                        DeployStage::ContainerStarted,
                        DeployAction::Remote(compose_command(*sudo, " compose up -d 2>&1")),
                    )
                }
            },
            DeployStage::ContainerStarted => match &config.execution.ssh {
                None => (DeployStage::Done, DeployAction::Failed(owned("SSH config required"))),
                Some(_) => (DeployStage::Paused, DeployAction::Pause(3)),
            },
            DeployStage::Paused => (
                DeployStage::DockerProbed { verifying: true },
                DeployAction::Remote(docker_usable_exec(false)),
            ),
            DeployStage::ContainerListed => {
                let t = trim_str(o.as_str());
                if t.as_str().is_empty() {
                    (
                        DeployStage::Done,
                        DeployAction::Failed(owned("Container does not appear to be running.")),
                    )
                } else {
                    let mut c = owned("curl -sf http://localhost:");
                    let ps = decimal_string(config.server.port as u64);
                    c.append(ps.as_str());
                    c.append("/api/users >/dev/null 2>&1 && echo ok || echo fail");
                    (DeployStage::HealthChecked, DeployAction::Remote(c))
                }
            },
            DeployStage::HealthChecked => (DeployStage::Done, DeployAction::Succeeded),
            _ => (DeployStage::Done, DeployAction::Succeeded),
        }
    }

    /// The step after Docker was found usable.
    fn with_docker_exec(&self, verifying: bool, sudo: bool) -> (r: (DeployStage, DeployAction))
        ensures
            (r.0@, r.1@) == Self::with_docker(verifying, sudo),
    {
        if verifying {
            (
                DeployStage::ContainerListed,
                DeployAction::Remote(
                    compose_command(sudo, " compose ps --format json 2>/dev/null | head -1"),
                ),
            )
        } else {
            (
                DeployStage::ImageBuilt { sudo },
                DeployAction::Remote(compose_command(sudo, " compose build --no-cache 2>&1")),
            )
        }
    }
}

/// A failed action ends the deployment with its own failure (a failure to
/// locate the project directory is reported as such).
pub proof fn lemma_failure_ends(d: Deployer, config: Config, op: DeployOp, stage: StageView, e: Seq<char>)
    requires
        !(stage is Start),
        !(stage is Done),
    ensures
        stage is ProjectLocated ==> d.transition(config, op, stage, Err(e)) == (
            StageView::Done,
            ActionView::Failed("cannot get current dir: "@ + e),
        ),
        !(stage is ProjectLocated) ==> d.transition(config, op, stage, Err(e)) == (
            StageView::Done,
            ActionView::Failed(e),
        ),
{
}

/// Every decision moves a deployment to a later stage, so it ends after at
/// most as many decisions as there are stages.
pub proof fn lemma_progress(
    d: Deployer,
    config: Config,
    op: DeployOp,
    stage: StageView,
    reply: Result<Seq<char>, Seq<char>>,
)
    requires
        !(stage is Done),
    ensures
        stage_rank(d.transition(config, op, stage, reply).0) > stage_rank(stage),
        stage_rank(d.transition(config, op, stage, reply).0) <= 25,
{
}

/// A deployment is over exactly when the decision says it succeeded or
/// failed.
pub proof fn lemma_over_when_finished(
    d: Deployer,
    config: Config,
    op: DeployOp,
    stage: StageView,
    reply: Result<Seq<char>, Seq<char>>,
)
    requires
        !(stage is Done),
    ensures
        (d.transition(config, op, stage, reply).0 is Done) <==> (d.transition(
            config,
            op,
            stage,
            reply,
        ).1 is Succeeded || d.transition(config, op, stage, reply).1 is Failed),
{
}

/// The log operation shows as many lines as were asked for: once the
/// connection answers `ok`, it runs `docker compose logs` in the deployment
/// directory with `--tail` and the decimal text of that count, so two
/// different counts give two different commands.
pub proof fn lemma_logs_tail(
    d: Deployer,
    config: Config,
    n: u32,
    m: u32,
    answer: Seq<char>,
)
    requires
        trim(answer) == "ok"@,
    ensures
        d.transition(config, DeployOp::Logs(n), StageView::ConnectionChecked, Ok(answer)) == (
            StageView::OperationRan,
            ActionView::Remote(
                "cd ~/jellyfin-pulga && docker compose logs --tail "@ + decimal(n as nat)
                    + " 2>&1"@,
            ),
        ),
        n != m ==> d.transition(config, DeployOp::Logs(n), StageView::ConnectionChecked, Ok(answer))
            != d.transition(config, DeployOp::Logs(m), StageView::ConnectionChecked, Ok(answer)),
{
    reveal_strlit("cd ~/jellyfin-pulga && ");
    reveal_strlit("docker compose logs --tail ");
    reveal_strlit("cd ~/jellyfin-pulga && docker compose logs --tail ");
    let p = "cd ~/jellyfin-pulga && docker compose logs --tail "@;
    let q = " 2>&1"@;
    assert(in_deploy_dir("docker compose logs --tail "@ + decimal(n as nat) + q) =~= p + decimal(
        n as nat,
    ) + q);
    assert(in_deploy_dir("docker compose logs --tail "@ + decimal(m as nat) + q) =~= p + decimal(
        m as nat,
    ) + q);
    if n != m {
        lemma_decimal_injective(n as nat, m as nat);
        let cn = p + decimal(n as nat) + q;
        let cm = p + decimal(m as nat) + q;
        if cn == cm {
            assert(decimal(n as nat) =~= cn.subrange(p.len() as int, cn.len() - q.len()));
            assert(decimal(m as nat) =~= cm.subrange(p.len() as int, cm.len() - q.len()));
        }
    }
}

} // verus!

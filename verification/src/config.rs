//! The configuration model: where Jellyfin is, which media folders to look
//! at, where the web UI listens and how commands reach the media host.
//!
//! Filesystem paths are held as text.

use vstd::prelude::*;

verus! {

/// The Jellyfin server the tool talks to.
#[derive(Debug)]
pub struct JellyfinConfig {
    pub url: String,
    pub api_key: String,
}

/// The media folders and the `ffprobe` binary on the media host.
#[derive(Debug)]
pub struct MediaConfig {
    pub paths: Vec<String>,
    pub ffprobe_path: String,
}

/// Where the web UI listens.
#[derive(Debug)]
pub struct ServerConfig {
    pub host: String,
    pub port: u16,
}

/// How commands reach the media host: on this machine or over SSH.
#[derive(Debug, Clone, Copy, PartialEq, Eq, Structural)]
pub enum ExecutionMode {
    Local,
    Ssh,
}

/// The SSH account on the media host.
#[derive(Debug)]
pub struct SshConfig {
    pub host: String,
    pub user: String,
    pub port: u16,
    pub key_path: Option<String>,
}

/// The execution settings.
#[derive(Debug)]
pub struct ExecutionConfig {
    pub mode: ExecutionMode,
    pub ssh: Option<SshConfig>,
}

/// The whole configuration file.
#[derive(Debug)]
pub struct Config {
    pub jellyfin: JellyfinConfig,
    pub media: MediaConfig,
    pub server: ServerConfig,
    pub execution: ExecutionConfig,
}

impl Default for ExecutionConfig {
    /// Without an `[execution]` table commands go over SSH, with no account
    /// configured yet.
    fn default() -> (r: Self)
        ensures
            r.mode == ExecutionMode::Ssh,
            r.ssh is None,
    {
        ExecutionConfig { mode: ExecutionMode::Ssh, ssh: None }
    }
}

/// The execution mode when the file names none.
pub fn default_mode() -> (m: ExecutionMode)
    ensures
        m == ExecutionMode::Ssh,
{
    ExecutionMode::Ssh
}

/// The SSH port when the file names none.
pub fn default_ssh_port() -> (p: u16)
    ensures
        p == 22,
{
    22
}

/// Calls `whoami::username`: the name of the user running this process. It
/// depends on the environment, so nothing is stated of it.
#[verifier::external_body]
fn current_username() -> String {
    whoami::username()
}

/// The SSH user when the file names none: the local user's name.
pub fn default_ssh_user() -> String {
    current_username()
}

} // verus!

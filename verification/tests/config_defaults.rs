use jellyfin_pulga::config::{default_mode, default_ssh_port, default_ssh_user, ExecutionConfig, ExecutionMode};

#[test]
fn execution_defaults() {
    let d = ExecutionConfig::default();
    assert_eq!(d.mode, ExecutionMode::Ssh);
    assert!(d.ssh.is_none());
    assert_eq!(default_mode(), ExecutionMode::Ssh);
    assert_eq!(default_ssh_port(), 22);
}

#[test]
fn ssh_user_defaults_to_the_local_user() {
    assert_eq!(default_ssh_user(), whoami::username());
}

use cargo_cage::backend::{ProcessStatus, SandboxOutcome, SandboxRequest};
use cargo_cage::error::{CageError, IoFailure, IoKind};
use cargo_cage::os::OsText;
use cargo_cage::policy::{
    is_allowed_host_environment_name, is_allowed_sandbox_environment_name,
    is_sensitive_environment_name, Environment, NetworkAccess, ResourceLimitKind, ResourceLimits,
    SandboxPolicy, TimeSpan,
};

fn text(value: &str) -> OsText {
    OsText::new(value)
}

fn denied() -> IoFailure {
    IoFailure { kind: IoKind::PermissionDenied, message: String::from("permission denied") }
}

#[test]
fn sandbox_requests_default_to_a_clean_environment() {
    assert!(!SandboxRequest::new(&text("/bin/sh"), &text("/")).environment.inherit);
}

#[test]
fn policy_errors_explain_subject_rule_and_remedy() {
    let error = CageError::policy(
        "/workspace/target-link",
        "writable target paths must not contain symlinks",
        "replace the symlink with a real directory",
    );
    let text = error.to_string();
    assert!(text.contains("/workspace/target-link"));
    assert!(text.contains("must not contain symlinks"));
    assert!(text.contains("remedy:"));
    assert!(text.contains("replace the symlink"));
}

#[test]
fn setup_errors_keep_machine_readable_context() {
    let error = CageError::sandbox_setup(
        "/usr/bin/bwrap",
        "Bubblewrap must be executable",
        "install a working Bubblewrap binary",
        "permission denied",
    );
    let CageError::SandboxSetup(failure) = &error else {
        panic!("expected structured setup failure");
    };
    assert_eq!(failure.subject, "/usr/bin/bwrap");
    assert_eq!(failure.rule, "Bubblewrap must be executable");
    assert_eq!(failure.remedy, "install a working Bubblewrap binary");
    assert_eq!(failure.detail, "permission denied");
    assert!(error.to_string().contains("remedy:"));
}

#[test]
fn network_is_denied_by_default() {
    assert_eq!(SandboxPolicy::default().network, NetworkAccess::Deny);
}

#[test]
fn environment_builder_preserves_set_and_remove_rules() {
    let environment = Environment::default()
        .set(&text("CARGO_NET_OFFLINE"), &text("true"))
        .remove(&text("SSH_AUTH_SOCK"));
    assert!(!environment.inherit);
    assert_eq!(environment.set, vec![(text("CARGO_NET_OFFLINE"), text("true"))]);
    assert_eq!(environment.remove, vec![text("SSH_AUTH_SOCK")]);
}

#[test]
fn clean_environment_does_not_inherit_host_variables() {
    assert!(!Environment::clean().inherit);
}

#[test]
fn sensitive_environment_filter_is_conservative() {
    for name in [
        "AWS_PROFILE",
        "SERVICE_TOKEN",
        "SERVICE_PASSWORD",
        "SERVICE_SECRET_KEY",
        "SERVICE_PRIVATE_KEY",
        "SERVICE_API_KEY",
        "SSH_AUTH_SOCK",
        "CUSTOM_AGENT_INFO",
    ] {
        assert!(is_sensitive_environment_name(&text(name)), "{name}");
    }
    assert!(!is_sensitive_environment_name(&text("CARGO_TARGET_DIR")));
}

#[test]
fn sandbox_environment_allowlist_includes_runtime_but_not_host_control() {
    for name in ["PATH", "HOME", "CARGO_HOME", "RUSTC", "CARGO_NET_OFFLINE"] {
        assert!(is_allowed_sandbox_environment_name(&text(name)), "{name}");
    }
    for name in ["SHELL", "SSH_AUTH_SOCK", "DOCKER_HOST", "RANDOM_HOST_VALUE"] {
        assert!(!is_allowed_sandbox_environment_name(&text(name)), "{name}");
    }
}

#[test]
fn host_environment_allowlist_excludes_sandbox_owned_values() {
    for name in ["USER", "LANG", "CARGO_BUILD_JOBS", "PKG_CONFIG_PATH"] {
        assert!(is_allowed_host_environment_name(&text(name)), "{name}");
    }
    for name in ["HOME", "PATH", "CARGO_HOME", "CARGO_TARGET_DIR", "RUSTC"] {
        assert!(!is_allowed_host_environment_name(&text(name)), "{name}");
    }
}

#[test]
fn environment_allowlist_excludes_host_control_and_secret_names() {
    for name in ["USER", "LANG", "CARGO_BUILD_JOBS", "RUSTFLAGS", "PKG_CONFIG_PATH", "LC_ALL"] {
        assert!(is_allowed_host_environment_name(&text(name)), "{name}");
    }
    for name in [
        "PATH",
        "HOME",
        "CARGO_HOME",
        "CARGO_TARGET_DIR",
        "RUSTUP_HOME",
        "AWS_SECRET_ACCESS_KEY",
        "CAGE_TEST_ARBITRARY_SECRET",
        "SSH_AUTH_SOCK",
        "LC_SECRET",
    ] {
        assert!(!is_allowed_host_environment_name(&text(name)), "{name}");
    }
}

#[test]
fn allowed_names_hold_no_secret() {
    for name in ["USER", "LANG", "CARGO_BUILD_JOBS", "RUSTFLAGS", "PKG_CONFIG_PATH", "LC_ALL"] {
        assert!(!is_sensitive_environment_name(&text(name)), "{name}");
    }
}

#[test]
fn names_that_are_no_text_are_never_forwarded() {
    let odd = OsText::from_bytes(&[b'L', b'A', b'N', b'G', 0xff]);
    assert!(!is_allowed_host_environment_name(&odd));
    assert!(!is_allowed_sandbox_environment_name(&odd));
}

#[test]
fn sensitive_names_are_recognized_in_any_case() {
    assert!(is_sensitive_environment_name(&text("github_token")));
    assert!(is_sensitive_environment_name(&text("Aws_Region")));
    assert!(!is_sensitive_environment_name(&text("TOKENS")));
}

#[test]
fn only_a_zero_exit_code_is_success() {
    assert!(ProcessStatus::success().successfully_exited());
    assert!(!ProcessStatus { code: Some(1) }.successfully_exited());
    assert!(!ProcessStatus { code: None }.successfully_exited());
    assert!(SandboxOutcome::default().stdout.is_empty());
}

#[test]
fn requests_collect_their_arguments_in_order() {
    let request = SandboxRequest::new(&text("/bin/sh"), &text("/"))
        .arg(&text("-c"))
        .arg(&text("exit 0"));
    assert_eq!(request.program, text("/bin/sh"));
    assert_eq!(request.args, vec![text("-c"), text("exit 0")]);
    assert_eq!(request.policy.network, NetworkAccess::Deny);
    assert!(request.policy.writable_paths.is_empty());
}

#[test]
fn every_error_has_a_text_of_its_own() {
    assert!(CageError::invalid("no command").to_string().contains("no command"));
    assert!(CageError::unavailable("no bwrap").to_string().contains("no bwrap"));
    assert!(!CageError::UnsupportedPlatform.to_string().is_empty());
    let io = CageError::io("could not read", &denied());
    assert!(io.to_string().contains("could not read"));
    assert!(io.to_string().contains("permission denied"));
    let spawn = CageError::ProcessSpawn { program: text("/bin/true"), source: denied() };
    assert!(spawn.to_string().contains("/bin/true"));
    let failed = CageError::ProcessFailed {
        status: ProcessStatus { code: Some(7) },
        detail: String::from("broken"),
    };
    assert!(failed.to_string().contains('7'));
    assert!(failed.to_string().contains("broken"));
    let limit = CageError::ResourceLimitExceeded {
        kind: ResourceLimitKind::WallTime,
        limit: String::from("30 minutes"),
        status: None,
        remedy: String::from("raise the limit"),
        detail: String::from("it took too long"),
    };
    let shown = limit.to_string();
    assert!(shown.contains("wall-clock time"), "{shown}");
    assert!(shown.contains("30 minutes"), "{shown}");
    assert!(shown.contains("remedy:"), "{shown}");
}

#[test]
fn only_host_failures_have_a_source() {
    let io = CageError::io("could not read", &denied());
    assert_eq!(io.source().map(|source| source.kind), Some(IoKind::PermissionDenied));
    let spawn = CageError::ProcessSpawn { program: text("/bin/true"), source: denied() };
    assert!(spawn.source().is_some());
    assert!(CageError::invalid("no command").source().is_none());
    assert!(CageError::policy("/a", "rule", "remedy").source().is_none());
}

#[test]
fn zero_budgets_are_invalid() {
    let limits = ResourceLimits::default();
    assert!(limits.validate());
    assert!(!ResourceLimits { max_processes: 0, ..limits }.validate());
    assert!(!ResourceLimits { max_cpu_cores: 0, ..limits }.validate());
    assert!(!ResourceLimits { max_wall_time: TimeSpan::from_secs(0), ..limits }.validate());
    assert!(ResourceLimits { max_wall_time: TimeSpan { nanoseconds: 1 }, ..limits }.validate());
    assert_eq!(limits.max_wall_time, TimeSpan::from_secs(30 * 60));
    let longer = TimeSpan { nanoseconds: limits.max_wall_time.nanoseconds + 1 };
    assert!(!ResourceLimits { max_wall_time: longer, ..limits }.validate());
}

#[test]
fn limits_have_labels() {
    assert_eq!(ResourceLimitKind::Processes.as_str(), "process count");
    assert_eq!(ResourceLimitKind::WallTime.as_str(), "wall-clock time");
    assert_eq!(ResourceLimitKind::FileSize.as_str(), "file size");
    assert_eq!(ResourceLimitKind::Memory.as_str(), "memory");
}

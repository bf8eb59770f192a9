use cargo_cage::access::{
    device_access, execute_access, handled_access, lockfile_access, private_access, proc_access,
    read_access, write_access, Abi, AccessFs, AccessSet, LandlockSupport,
};
use cargo_cage::bubblewrap::{check_preflight, format_output, parse_version, version_at_least};
use cargo_cage::bwrap::{
    build_bwrap_args, build_bwrap_args_with_mounts, landlock_launcher_args, MountArgument,
    MountArguments, MountKind, MountSource,
};
use cargo_cage::backend::{ProcessStatus, SandboxOutcome};
use cargo_cage::flow::Exit;
use cargo_cage::launcher::{
    apply_landlock, child_exit_code, landlock_setup_error, required_landlock_features,
    restriction_error, validate_launcher_path, Grant, LauncherPlan, RestrictionStep,
    INHERIT_ENVIRONMENT_ARGS, LAUNCHER_SETUP_EXIT_CODE, NETWORK_DENY_ARGS, READ_ARGS, WRITE_ARGS,
};
use cargo_cage::mounts::inheritable_flags;
use cargo_cage::os::OsText;
use cargo_cage::plan::{
    validate_read_only_paths, validate_writable_paths, MaskPath, SandboxPlan,
};
use cargo_cage::policy::{Environment, NetworkAccess, ResourceLimits};

fn text(value: &str) -> OsText {
    OsText::new(value)
}

fn words(list: &[&str]) -> Vec<OsText> {
    list.iter().map(|word| OsText::new(word)).collect()
}

fn shown(list: &[OsText]) -> Vec<String> {
    list.iter().map(|word| word.display()).collect()
}

fn example_plan(network: NetworkAccess) -> SandboxPlan {
    SandboxPlan {
        current_dir: text("/workspace"),
        writable_paths: words(&["/workspace/target"]),
        hidden_paths: vec![MaskPath::Directory(text("/home/user/.ssh"))],
        private_paths: words(&["/tmp", "/run"]),
        read_only_paths: words(&["/workspace"]),
        cargo_home: None,
        cargo_cache_paths: Vec::new(),
        runtime_mounts: Vec::new(),
        environment: Environment {
            inherit: false,
            set: vec![(text("CARGO_NET_OFFLINE"), text("true"))],
            remove: words(&["SSH_AUTH_SOCK"]),
        },
        network,
        resources: ResourceLimits::default(),
    }
}

fn mounted(path: &str, kind: MountKind) -> MountArgument {
    MountArgument { source: MountSource::Path(text(path)), destination: text(path), kind }
}

fn example_mounts() -> MountArguments {
    MountArguments {
        runtime: vec![mounted("/usr", MountKind::Directory)],
        read_only: vec![mounted("/workspace", MountKind::Directory)],
        caches: Vec::new(),
        hidden_files: Vec::new(),
        writable: vec![
            mounted("/workspace/target", MountKind::Directory),
            mounted("/workspace/Cargo.lock", MountKind::File),
        ],
        launcher: Some(MountArgument {
            source: MountSource::Fd(7),
            destination: text("/run/cargo-cage-landlock-launcher"),
            kind: MountKind::File,
        }),
    }
}

fn contains_pair(args: &[OsText], option: &str, first: &str, second: &str) -> bool {
    args.windows(3).any(|window| {
        window[0] == text(option)
            && window[1] == text(first)
            && (second.is_empty() || window[2] == text(second))
    })
}

#[test]
fn accepts_required_bubblewrap_versions() {
    assert_eq!(parse_version(b"bubblewrap 0.8.0\n"), Some((0, 8, 0)));
    assert_eq!(parse_version(b"bubblewrap 0.11.2\n"), Some((0, 11, 2)));
    assert!(version_at_least((0, 8, 0), (0, 8, 0)));
    assert!(version_at_least((0, 9, 0), (0, 8, 0)));
    assert!(!version_at_least((0, 7, 0), (0, 8, 0)));
}

#[test]
fn builds_fail_closed_bwrap_arguments() {
    let plan = example_plan(NetworkAccess::Deny);
    let args = build_bwrap_args(&plan, &text("/usr/bin/cargo"), &words(&["build"]));

    assert!(contains_pair(&args, "--ro-bind", "/", "/"));
    assert!(contains_pair(&args, "--ro-bind", "/workspace", "/workspace"));
    assert!(contains_pair(&args, "--bind", "/workspace/target", "/workspace/target"));
    assert!(contains_pair(&args, "--tmpfs", "/home/user/.ssh", ""));
    assert!(args.iter().any(|arg| *arg == text("--unshare-net")));
    assert!(args.iter().any(|arg| *arg == text("--disable-userns")));
    assert!(args.iter().any(|arg| *arg == text("--assert-userns-disabled")));
    assert!(args.iter().any(|arg| *arg == text("--cap-drop")));
    assert!(args.iter().any(|arg| *arg == text("ALL")));
    assert!(args.iter().any(|arg| *arg == text("--die-with-parent")));
    assert!(args.iter().any(|arg| *arg == text("--")));
    assert!(!args.iter().any(|arg| *arg == text("--share-net")));

    let allow_plan = SandboxPlan { network: NetworkAccess::Allow, ..plan };
    let allow_args = build_bwrap_args(&allow_plan, &text("/usr/bin/cargo"), &Vec::new());
    assert!(!allow_args.iter().any(|arg| *arg == text("--unshare-net")));
}

#[test]
fn rejects_writable_parent_of_hidden_path() {
    let error = validate_writable_paths(
        &words(&["/home/user"]),
        &vec![MaskPath::Directory(text("/home/user/.ssh"))],
    )
    .expect_err("writable parent would reveal hidden path");
    assert!(error.to_string().contains("re-expose"));
}

#[test]
fn launcher_requires_absolute_paths_without_traversal() {
    let relative = validate_launcher_path(&text("target"), "test");
    assert!(relative.is_err());

    let traversal = validate_launcher_path(&text("/run/../tmp"), "test");
    assert!(traversal.is_err());
}

#[test]
fn launcher_parser_keeps_program_arguments_after_separator() {
    let plan = LauncherPlan::parse(&words(&[READ_ARGS, "/usr", "--", "/bin/sh", "-c", "exit 0"]))
        .expect("parse launcher plan");
    assert_eq!(plan.program, text("/bin/sh"));
    assert_eq!(plan.args, words(&["-c", "exit 0"]));
}

#[test]
fn launcher_rejects_unknown_options() {
    let error =
        LauncherPlan::parse(&words(&["--disable-landlock"])).expect_err("unknown option");
    assert!(error.to_string().contains("unknown internal Landlock"));
}

#[test]
fn setup_exit_code_is_reserved_for_launcher_failures() {
    assert_eq!(LAUNCHER_SETUP_EXIT_CODE, 125);
}

#[test]
fn missing_required_landlock_fails_closed_without_a_runtime_switch() {
    let error = required_landlock_features(&LandlockSupport {
        filesystem_abi: Abi::Unsupported,
        scope_supported: false,
    })
    .expect_err("missing Landlock");
    let text = error.to_string();
    assert!(text.contains("ABI 5"), "{text}");
    assert!(text.contains("remedy:"), "{text}");
}

#[test]
fn feature_probe_selects_the_strongest_known_filesystem_abi() {
    let features = required_landlock_features(&LandlockSupport {
        filesystem_abi: Abi::V9,
        scope_supported: true,
    })
    .expect("Landlock features");
    assert_eq!(features.filesystem_abi, Abi::V9);
    assert!(features.scope_supported);
}

#[test]
fn writable_policy_does_not_grant_device_or_special_file_creation() {
    let access = write_access();
    assert!(!access.contains(AccessFs::MakeChar));
    assert!(!access.contains(AccessFs::MakeBlock));
    assert!(!access.contains(AccessFs::MakeSock));
    assert!(!access.contains(AccessFs::MakeFifo));
    assert!(!access.contains(AccessFs::IoctlDev));
    assert!(access.contains(AccessFs::Refer));
    assert!(access.contains(AccessFs::Truncate));
}

#[test]
fn private_policy_allows_process_temporary_sockets_but_not_devices() {
    let access = private_access();
    assert!(access.contains(AccessFs::MakeSock));
    assert!(access.contains(AccessFs::MakeFifo));
    assert!(!access.contains(AccessFs::MakeChar));
    assert!(!access.contains(AccessFs::MakeBlock));
    assert!(!access.contains(AccessFs::IoctlDev));
}

#[test]
fn lockfile_policy_cannot_modify_directories() {
    let access = lockfile_access();
    assert!(access.contains(AccessFs::ReadFile));
    assert!(access.contains(AccessFs::WriteFile));
    assert!(access.contains(AccessFs::Truncate));
    assert!(!access.contains(AccessFs::ReadDir));
    assert!(!access.contains(AccessFs::MakeReg));
    assert!(!access.contains(AccessFs::RemoveFile));
}

#[test]
fn a_weaker_kernel_still_gets_the_required_version() {
    let features = required_landlock_features(&LandlockSupport {
        filesystem_abi: Abi::V7,
        scope_supported: true,
    })
    .expect("Landlock features");
    assert_eq!(features.filesystem_abi, Abi::V5);
    let weak = LandlockSupport { filesystem_abi: Abi::V4, scope_supported: true };
    assert!(required_landlock_features(&weak).is_err());
}

#[test]
fn rights_have_the_bits_of_the_kernel() {
    assert_eq!(AccessSet::of(&[AccessFs::Execute]).bits, 1);
    assert_eq!(AccessSet::of(&[AccessFs::WriteFile, AccessFs::ReadFile]).bits, 6);
    assert_eq!(AccessSet::of(&[AccessFs::Refer]).bits, 1 << 13);
    assert_eq!(AccessSet::of(&[]).bits, 0);
}

#[test]
fn the_required_version_handles_every_right() {
    let handled = handled_access(Abi::V5);
    for right in [
        AccessFs::Execute,
        AccessFs::WriteFile,
        AccessFs::ReadFile,
        AccessFs::ReadDir,
        AccessFs::RemoveDir,
        AccessFs::RemoveFile,
        AccessFs::MakeChar,
        AccessFs::MakeDir,
        AccessFs::MakeReg,
        AccessFs::MakeSock,
        AccessFs::MakeFifo,
        AccessFs::MakeBlock,
        AccessFs::MakeSym,
        AccessFs::Refer,
        AccessFs::Truncate,
        AccessFs::IoctlDev,
    ] {
        assert!(handled.contains(right), "{right:?}");
    }
    assert!(!handled_access(Abi::V1).contains(AccessFs::Refer));
    assert!(!handled_access(Abi::V4).contains(AccessFs::IoctlDev));
}

#[test]
fn reading_grants_no_writing() {
    for set in [read_access(), execute_access(), proc_access()] {
        assert!(set.contains(AccessFs::ReadFile));
        assert!(!set.contains(AccessFs::WriteFile));
        assert!(!set.contains(AccessFs::MakeReg));
    }
    assert!(execute_access().contains(AccessFs::Execute));
    assert!(device_access().contains(AccessFs::ReadFile));
    assert!(!device_access().contains(AccessFs::MakeChar));
}

#[test]
fn versions_are_compared_field_by_field() {
    assert!(version_at_least((1, 0, 0), (0, 12, 0)));
    assert!(version_at_least((0, 12, 1), (0, 12, 0)));
    assert!(!version_at_least((0, 11, 99), (0, 12, 0)));
    assert_eq!(parse_version(b"bubblewrap 0.12"), Some((0, 12, 0)));
    assert_eq!(parse_version(b"bubblewrap v1.2.3-rc4"), Some((1, 2, 3)));
    assert_eq!(parse_version(b"something else\n"), None);
    assert_eq!(parse_version(b""), None);
}

#[test]
fn output_is_trimmed_for_messages() {
    assert_eq!(format_output(b"  broken \n"), ": broken");
    assert_eq!(format_output(b" \n"), "");
    assert_eq!(format_output(&[b'a', 0xff]), ": a\u{fffd}");
}

#[test]
fn the_preflight_must_print_its_marker() {
    let mut outcome = SandboxOutcome {
        status: ProcessStatus::success(),
        stdout: b"cargo-cage-namespace-preflight-ok\n".to_vec(),
        stderr: Vec::new(),
    };
    assert!(check_preflight(&outcome).is_none());
    outcome.stdout = Vec::new();
    assert!(check_preflight(&outcome).is_some());
    outcome.stdout = b"cargo-cage-namespace-preflight-ok\n".to_vec();
    outcome.status = ProcessStatus { code: Some(1) };
    assert!(check_preflight(&outcome).is_some());
}

#[test]
fn writable_paths_are_checked_against_the_masks() {
    let hidden = vec![MaskPath::Directory(text("/home/user/.ssh")), MaskPath::File(text("/k"))];
    assert!(validate_writable_paths(&words(&["/workspace/target"]), &hidden).is_ok());
    let root = validate_writable_paths(&words(&["/"]), &hidden).expect_err("root");
    assert!(root.to_string().contains("root"), "{}", root.to_string());
    let inner = validate_writable_paths(&words(&["/home/user/.ssh/keys"]), &hidden)
        .expect_err("hidden path");
    assert!(inner.to_string().contains("hidden"), "{}", inner.to_string());
    assert!(validate_writable_paths(&words(&["/k"]), &hidden).is_err());
}

#[test]
fn visible_paths_must_not_replace_private_ones() {
    assert!(validate_read_only_paths(&words(&["/usr"]), &words(&["/tmp"])).is_ok());
    let error = validate_read_only_paths(&words(&["/tmp"]), &words(&["/tmp"]))
        .expect_err("the private filesystem would be lost");
    assert!(error.to_string().contains("private filesystem"));
}

#[test]
fn mounted_arguments_show_only_the_runtime() {
    let plan = example_plan(NetworkAccess::Deny);
    let args = build_bwrap_args_with_mounts(
        &plan,
        &example_mounts(),
        &text("/usr/bin/cargo"),
        &words(&["build"]),
        Some(9),
    )
    .expect("arguments");
    assert!(!contains_pair(&args, "--ro-bind", "/", "/"));
    assert!(contains_pair(&args, "--ro-bind", "/usr", "/usr"));
    assert!(contains_pair(&args, "--bind", "/workspace/target", "/workspace/target"));
    assert!(contains_pair(&args, "--tmpfs", "/home/user/.ssh", ""));
    assert!(contains_pair(
        &args,
        "--ro-bind-fd",
        "7",
        "/run/cargo-cage-landlock-launcher"
    ));
    assert!(args.iter().any(|arg| *arg == text("--unshare-net")));
    let shown = shown(&args);
    let cleared = shown.iter().position(|arg| arg == "--clearenv").expect("a cleared environment");
    let set = shown.iter().position(|arg| arg == "--setenv").expect("a set variable");
    assert!(cleared < set);
    assert_eq!(shown.last().map(String::as_str), Some("build"));
    assert_eq!(shown[shown.len() - 2], "/usr/bin/cargo");
}

#[test]
fn allowed_networks_are_not_unshared() {
    let plan = example_plan(NetworkAccess::Allow);
    let args = build_bwrap_args_with_mounts(
        &plan,
        &example_mounts(),
        &text("/usr/bin/cargo"),
        &Vec::new(),
        None,
    )
    .expect("arguments");
    assert!(!args.iter().any(|arg| *arg == text("--unshare-net")));
    assert!(!args.iter().any(|arg| *arg == text(NETWORK_DENY_ARGS)));
}

#[test]
fn a_missing_launcher_mount_is_an_error() {
    let mut mounts = example_mounts();
    mounts.launcher = None;
    let plan = example_plan(NetworkAccess::Deny);
    let built =
        build_bwrap_args_with_mounts(&plan, &mounts, &text("/bin/true"), &Vec::new(), None);
    assert!(built.is_err());
    mounts.writable = vec![mounted("/dev/null", MountKind::Special)];
    let built =
        build_bwrap_args_with_mounts(&plan, &mounts, &text("/bin/true"), &Vec::new(), None);
    assert!(built.is_err());
}

#[test]
fn the_launcher_reads_back_what_was_written() {
    let plan = example_plan(NetworkAccess::Deny);
    let args =
        landlock_launcher_args(&plan, &example_mounts(), &text("/bin/sh"), &words(&["-c", "--"]));
    let grants = LauncherPlan::parse(&args).expect("the launcher reads its own options");
    assert!(grants.network_deny);
    assert_eq!(grants.program, text("/bin/sh"));
    assert_eq!(grants.args, words(&["-c", "--"]));
    assert!(grants.write_paths.contains(&text("/workspace/target")));
    assert!(grants.lockfile_paths.contains(&text("/workspace/Cargo.lock")));
    assert!(grants.private_paths.contains(&text("/tmp")));
}

#[test]
fn the_launcher_is_told_of_an_inherited_environment() {
    for network in [NetworkAccess::Deny, NetworkAccess::Allow] {
        for inherit in [false, true] {
            let mut plan = example_plan(network);
            plan.environment.inherit = inherit;
            let args = landlock_launcher_args(
                &plan,
                &example_mounts(),
                &text("/bin/sh"),
                &words(&[INHERIT_ENVIRONMENT_ARGS]),
            );
            let grants = LauncherPlan::parse(&args).expect("the launcher reads its own options");
            assert_eq!(grants.network_deny, network == NetworkAccess::Deny);
            assert_eq!(grants.inherit_environment, inherit);
            assert_eq!(grants.program, text("/bin/sh"));
            assert_eq!(grants.args, words(&[INHERIT_ENVIRONMENT_ARGS]));
        }
    }
    let plan = LauncherPlan::parse(&words(&["--landlock-inherit-environment", "--", "/bin/sh"]))
        .expect("plan");
    assert!(plan.inherit_environment);
    assert!(!plan.network_deny);
}

#[test]
fn launcher_options_need_values_and_a_program() {
    assert!(LauncherPlan::parse(&words(&[READ_ARGS])).is_err());
    assert!(LauncherPlan::parse(&words(&[WRITE_ARGS, "/", "--", "/bin/sh"])).is_err());
    assert!(LauncherPlan::parse(&words(&[READ_ARGS, "/usr"])).is_err());
    assert!(LauncherPlan::parse(&words(&[READ_ARGS, "/usr", "--"])).is_err());
    assert!(LauncherPlan::parse(&words(&[READ_ARGS, "usr", "--", "/bin/sh"])).is_err());
    let plan = LauncherPlan::parse(&words(&[NETWORK_DENY_ARGS, "--", "/bin/sh"])).expect("plan");
    assert!(plan.network_deny);
    assert!(plan.args.is_empty());
}

#[test]
fn restrictions_follow_the_plan_and_the_kernel() {
    let plan = LauncherPlan::parse(&words(&[
        READ_ARGS,
        "/usr",
        WRITE_ARGS,
        "/workspace/target",
        NETWORK_DENY_ARGS,
        "--",
        "/bin/sh",
    ]))
    .expect("plan");
    let support = LandlockSupport { filesystem_abi: Abi::V9, scope_supported: true };
    let restrictions = apply_landlock(&plan, &support).expect("restrictions");
    assert!(restrictions.deny_tcp);
    assert!(restrictions.scope);
    assert_eq!(restrictions.handled, handled_access(Abi::V9));
    assert_eq!(restrictions.rules.len(), 2);
    assert_eq!(restrictions.rules[0].grant, Grant::Read);
    assert_eq!(restrictions.rules[0].path, text("/usr"));
    assert_eq!(restrictions.rules[1].grant, Grant::Write);
    let none = LandlockSupport { filesystem_abi: Abi::V3, scope_supported: true };
    assert!(apply_landlock(&plan, &none).is_err());
}

#[test]
fn setup_errors_of_the_launcher_name_the_rule() {
    let shown = landlock_setup_error("no kernel", "upgrade").to_string();
    assert!(shown.contains("no kernel"), "{shown}");
    assert!(shown.contains("remedy: upgrade"), "{shown}");
    let opening = RestrictionStep::OpenPath(Grant::Read, text("/usr"));
    let step = restriction_error(&opening, "gone").to_string();
    assert!(step.contains("/usr"), "{step}");
    assert!(step.contains("gone"), "{step}");
}

#[test]
fn exit_codes_of_signals_are_shifted() {
    assert_eq!(child_exit_code(&Exit { code: Some(7), signal: None }), 7);
    assert_eq!(child_exit_code(&Exit { code: None, signal: Some(9) }), 137);
    assert_eq!(child_exit_code(&Exit { code: None, signal: None }), 129);
}

#[test]
fn descriptors_become_inheritable() {
    assert_eq!(inheritable_flags(1), 0);
    assert_eq!(inheritable_flags(0), 0);
    assert_eq!(inheritable_flags(3), 2);
}

#[test]
fn test_binary_runs_inside_the_sandbox() {
    assert_eq!(2 + 2, 4);
}

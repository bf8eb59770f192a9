use cargo_cage::access::{Abi, LandlockSupport};
use cargo_cage::args::CargoCommand;
use cargo_cage::backend::{OutputMode, ProcessStatus, SandboxOutcome, SandboxRequest};
use cargo_cage::bubblewrap::{bwrap_version, find_bwrap, parent_namespace_markers, LinuxSandbox};
use cargo_cage::bwrap::{MountArgument, MountKind, MountSource};
use cargo_cage::capture::{capture_command_output, wait_for_child};
use cargo_cage::cargo_args::{
    manifest_parent_path, manifest_path_arg, rewrite_relative_cargo_paths, sandbox_current_dir,
    target_dir_arg,
};
use cargo_cage::cargo_policy::{cargo_policy, sensitive_environment_names};
use cargo_cage::cgroup::{find_cgroup2_mount, ResourceGroup};
use cargo_cage::error::{CageError, IoFailure, IoKind};
use cargo_cage::flow::{
    Answer, Capture, ChildCommand, DirectoryNames, Enforcement, Exit, FileKind, Flow, Halt,
    Question, Stat, Stream, Timer, ToolCommand, ToolOutput,
};
use cargo_cage::launcher::{run_internal_launcher, NETWORK_DENY_ARGS, READ_ARGS};
use cargo_cage::mounts::{add_fd_mount, path_mount_arguments, LauncherContext};
use cargo_cage::order::{
    collect_parent_directories, private_mount_order, sort_by_depth, unique_mount_roots,
};
use cargo_cage::os::OsText;
use cargo_cage::path::lexical_normalize;
use cargo_cage::plan::{make_mask, MaskPath, SandboxPlan};
use cargo_cage::policy::{
    Environment, NetworkAccess, ResourceLimitKind, ResourceLimits, SandboxPolicy, TimeSpan,
};
use cargo_cage::redteam;
use cargo_cage::release;
use cargo_cage::run::{run, Report};
use cargo_cage::target::{
    inspect_lockfile, prepare_lockfile, prepare_target_dir, validate_target_dir,
};
use cargo_cage::testkit::{materialize, Fixture};
use cargo_cage::toolchain::{
    is_private_host_path, is_standard_runtime_path, is_trusted_rustup_compiler, join_paths,
    resolve_toolchain, split_paths, Toolchain,
};
use cargo_cage::tree::{
    decode_mountinfo_path, tree_label, validate_cache_tree, validate_hardlink_aliases,
    validate_no_nested_mounts, validate_read_only_tree, validate_writable_tree, FoundFile,
    TreeKind,
};
use cargo_cage::walk::canonical_existing_path_without_symlinks;
use cargo_cage::workspace::{cargo_environment, safe_host_environment, workspace_from_output};
use std::collections::{BTreeMap, VecDeque};

fn text(value: &str) -> OsText {
    OsText::new(value)
}

fn words(list: &[&str]) -> Vec<OsText> {
    list.iter().map(|word| OsText::new(word)).collect()
}

fn failure(kind: IoKind, message: &str) -> IoFailure {
    IoFailure { kind, message: String::from(message) }
}

fn missing() -> IoFailure {
    failure(IoKind::NotFound, "No such file or directory")
}

#[derive(Clone, PartialEq, Eq)]
enum Node {
    Directory,
    File(String),
    Link(String),
    Device,
}

/// How a started process behaves.
struct Script {
    exit: Exit,
    stdout: Vec<u8>,
    late: bool,
    flood: bool,
    pids_events: u32,
}

impl Script {
    fn busy(&self) -> bool {
        self.late || (self.flood && self.exit.signal.is_none())
    }
}

fn finished(code: i32, stdout: &str) -> Script {
    Script {
        exit: Exit { code: Some(code), signal: None },
        stdout: stdout.as_bytes().to_vec(),
        late: false,
        flood: false,
        pids_events: 0,
    }
}

/// A host that lives in memory.
struct Host {
    nodes: BTreeMap<String, Node>,
    links: BTreeMap<String, u64>,
    variables: Vec<(String, String)>,
    current_dir: String,
    sysroot: String,
    bwrap_version: String,
    support: LandlockSupport,
    outcomes: VecDeque<SandboxOutcome>,
    requests: Vec<SandboxRequest>,
    scripts: VecDeque<Script>,
    running: Option<Script>,
    spawned: Vec<ChildCommand>,
    descriptors: Vec<String>,
    written: Vec<(String, String)>,
    removed: Vec<String>,
    restricted: Vec<usize>,
    programs: Vec<String>,
    steps: Vec<String>,
    told: Vec<String>,
    fresh: u32,
}

impl Host {
    fn new() -> Self {
        let mut host = Host {
            nodes: BTreeMap::new(),
            links: BTreeMap::new(),
            variables: Vec::new(),
            current_dir: String::from("/work/project"),
            sysroot: String::from("/opt/rust"),
            bwrap_version: String::from("bubblewrap 0.12.0\n"),
            support: LandlockSupport { filesystem_abi: Abi::V9, scope_supported: true },
            outcomes: VecDeque::new(),
            requests: Vec::new(),
            scripts: VecDeque::new(),
            running: None,
            spawned: Vec::new(),
            descriptors: Vec::new(),
            written: Vec::new(),
            removed: Vec::new(),
            restricted: Vec::new(),
            programs: Vec::new(),
            steps: Vec::new(),
            told: Vec::new(),
            fresh: 0,
        };
        host.nodes.insert(String::from("/"), Node::Directory);
        for directory in
            ["/work/project", "/home/user", "/tmp", "/run", "/usr/bin", "/opt/rust/bin"]
        {
            host.directory(directory);
        }
        for file in ["cargo", "rustc", "rustdoc"] {
            host.file(&format!("/opt/rust/bin/{file}"), "");
        }
        host.file("/usr/bin/bwrap", "");
        host.file("/work/project/Cargo.toml", "[package]\n");
        host.variable("PATH", "/opt/rust/bin:/usr/bin");
        host.variable("HOME", "/home/user");
        host
    }

    fn directory(&mut self, path: &str) {
        let mut current = String::new();
        for name in path.split('/').filter(|name| !name.is_empty()) {
            current = format!("{current}/{name}");
            self.nodes.entry(current.clone()).or_insert(Node::Directory);
        }
    }

    fn above(&mut self, path: &str) {
        if let Some(place) = path.rfind('/') {
            self.directory(&path[..place]);
        }
    }

    fn file(&mut self, path: &str, content: &str) {
        self.above(path);
        self.nodes.insert(String::from(path), Node::File(String::from(content)));
    }

    fn link(&mut self, path: &str, target: &str) {
        self.above(path);
        self.nodes.insert(String::from(path), Node::Link(String::from(target)));
    }

    fn variable(&mut self, name: &str, value: &str) {
        self.variables.push((String::from(name), String::from(value)));
    }

    fn holds(&self, path: &str) -> bool {
        self.nodes.contains_key(path)
    }

    fn resolve(&self, path: &str, follow_last: bool) -> Result<String, IoFailure> {
        if !path.starts_with('/') {
            return self.resolve(&format!("{}/{path}", self.current_dir), follow_last);
        }
        let names: Vec<&str> = path.split('/').filter(|name| !name.is_empty()).collect();
        let mut current = String::new();
        for (index, name) in names.iter().enumerate() {
            if *name == "." {
                continue;
            }
            if *name == ".." {
                let place = current.rfind('/').unwrap_or(0);
                current.truncate(place);
                continue;
            }
            let next = format!("{current}/{name}");
            let last = index + 1 == names.len();
            match self.nodes.get(&next) {
                None => return Err(missing()),
                Some(Node::Link(target)) if !last || follow_last => {
                    let target = if target.starts_with('/') {
                        target.clone()
                    } else {
                        format!("{current}/{target}")
                    };
                    current = self.resolve(&target, true)?;
                    if current == "/" {
                        current = String::new();
                    }
                }
                Some(Node::Directory) => current = next,
                Some(_) if last => current = next,
                Some(_) => return Err(failure(IoKind::Other, "Not a directory")),
            }
        }
        if current.is_empty() {
            current = String::from("/");
        }
        Ok(current)
    }

    fn stat(&self, path: &str, follow_last: bool) -> Result<Stat, IoFailure> {
        let place = self.resolve(path, follow_last)?;
        let kind = match &self.nodes[&place] {
            Node::Directory => FileKind::Directory,
            Node::File(_) => FileKind::File,
            Node::Link(_) => FileKind::Symlink,
            Node::Device => FileKind::CharDevice,
        };
        let inode = self.nodes.keys().position(|name| *name == place).unwrap_or(0) as u64;
        let links = self.links.get(&place).copied().unwrap_or(1);
        Ok(Stat { kind, device: 1, inode, links })
    }

    fn read(&self, path: &str) -> Result<String, IoFailure> {
        let place = self.resolve(path, true)?;
        match &self.nodes[&place] {
            Node::File(content) => Ok(content.clone()),
            _ => Err(failure(IoKind::Other, "Is a directory")),
        }
    }

    /// Where a new name would stand.
    fn place_for(&self, path: &str) -> Result<String, IoFailure> {
        let cut = path.rfind('/').unwrap_or(0);
        let above = self.resolve(if cut == 0 { "/" } else { &path[..cut] }, true)?;
        let name = &path[cut + 1..];
        let place = if above == "/" { format!("/{name}") } else { format!("{above}/{name}") };
        if self.nodes.contains_key(&place) {
            Err(failure(IoKind::AlreadyExists, "File exists"))
        } else {
            Ok(place)
        }
    }

    fn create_directory(&mut self, path: &str) -> Result<(), IoFailure> {
        let place = self.place_for(path)?;
        self.directory(&place);
        if place.starts_with("/sys/fs/cgroup/") {
            for (name, content) in [
                ("cgroup.procs", ""),
                ("cgroup.kill", ""),
                ("memory.max", "max\n"),
                ("memory.swap.max", "max\n"),
                ("memory.oom.group", "0\n"),
                ("memory.events", "low 0\nmax 0\noom_kill 0\n"),
                ("pids.max", "max\n"),
                ("pids.events", "max 0\n"),
                ("cpu.max", "max 100000\n"),
            ] {
                self.file(&format!("{place}/{name}"), content);
            }
        }
        Ok(())
    }

    fn write(&mut self, path: &str, content: &str) -> Result<(), IoFailure> {
        let place = self.resolve(path, true)?;
        self.written.push((place.clone(), String::from(content)));
        if place.ends_with("cgroup.kill") {
            if let Some(script) = self.running.as_mut() {
                script.late = false;
                script.exit = Exit { code: None, signal: Some(9) };
            }
        } else if !place.ends_with("cgroup.procs") {
            self.nodes.insert(place, Node::File(String::from(content)));
        }
        Ok(())
    }

    fn remove(&mut self, path: &str) -> Result<(), IoFailure> {
        let place = self.resolve(path, false)?;
        let below = format!("{place}/");
        self.nodes.retain(|name, _| *name != place && !name.starts_with(&below));
        self.removed.push(place);
        Ok(())
    }

    fn names(&self, path: &str) -> Result<DirectoryNames, IoFailure> {
        let place = self.resolve(path, true)?;
        let below = if place == "/" { String::from("/") } else { format!("{place}/") };
        let names = self
            .nodes
            .keys()
            .filter(|name| **name != place && name.starts_with(&below))
            .map(|name| &name[below.len()..])
            .filter(|name| !name.contains('/') && !name.is_empty())
            .map(OsText::new)
            .collect();
        Ok(DirectoryNames { names, failure: None })
    }

    fn tool(&self, command: &ToolCommand) -> Result<ToolOutput, IoFailure> {
        let program = command.program.display();
        let stdout = if program.ends_with("bwrap") {
            self.bwrap_version.clone()
        } else if program.ends_with("rustc") {
            format!("{}\n", self.sysroot)
        } else {
            return Err(missing());
        };
        Ok(ToolOutput {
            status: ProcessStatus::success(),
            stdout: stdout.into_bytes(),
            stderr: Vec::new(),
        })
    }

    fn open(&mut self, path: String) -> i32 {
        self.descriptors.push(path);
        self.descriptors.len() as i32 + 2
    }

    fn end(&mut self) -> Exit {
        let Some(script) = self.running.as_ref() else {
            return Exit { code: Some(0), signal: None };
        };
        if script.pids_events > 0 {
            let content = format!("max {}\n", script.pids_events);
            for (name, node) in self.nodes.iter_mut() {
                if name.ends_with("pids.events") {
                    *node = Node::File(content.clone());
                }
            }
        }
        script.exit
    }

    fn answer(&mut self, question: Question) -> Answer {
        match question {
            Question::Inspect(path) => Answer::Entry(self.stat(&path.display(), false)),
            Question::Follow(path) => Answer::Entry(self.stat(&path.display(), true)),
            Question::Resolve(path) => {
                Answer::Place(self.resolve(&path.display(), true).map(|place| text(&place)))
            }
            Question::ReadLink(path) => {
                let place = path.display();
                Answer::Place(match self.nodes.get(&place) {
                    Some(Node::Link(target)) => Ok(text(target)),
                    _ => match place.strip_prefix("/proc/self/ns/") {
                        Some(name) => Ok(text(&format!("{name}:[4026531840]"))),
                        None => Err(missing()),
                    },
                })
            }
            Question::ReadText(path) => Answer::Content(self.read(&path.display())),
            Question::Runnable(path) => Answer::Holds(
                matches!(self.stat(&path.display(), true), Ok(stat) if stat.is_file()),
            ),
            Question::OpenForWriting(path) => {
                Answer::Done(self.resolve(&path.display(), true).map(|_| ()))
            }
            Question::WriteText(path, content) => {
                Answer::Done(self.write(&path.display(), &content))
            }
            Question::CreateDirectory(path) => {
                Answer::Done(self.create_directory(&path.display()))
            }
            Question::CreateDirectories(path) => {
                self.directory(&path.display());
                Answer::Done(Ok(()))
            }
            Question::CopyFile(source, destination) => {
                let content = self.read(&source.display());
                Answer::Done(content.map(|content| self.file(&destination.display(), &content)))
            }
            Question::CreateFile(path) => {
                let place = self.place_for(&path.display());
                Answer::Done(place.map(|place| self.file(&place, "")))
            }
            Question::RemoveDirectory(path) | Question::RemoveFile(path) => {
                Answer::Done(self.remove(&path.display()))
            }
            Question::CurrentDirectory => Answer::Place(Ok(text(&self.current_dir))),
            Question::CurrentExecutable => Answer::Place(Ok(text("/opt/cage/bin/cargo-cage"))),
            Question::Variable(name) => Answer::Value(
                self.variables
                    .iter()
                    .find(|(key, _)| *key == name.display())
                    .map(|(_, value)| text(value)),
            ),
            Question::Variables => Answer::Listing(
                self.variables.iter().map(|(key, value)| (text(key), text(value))).collect(),
            ),
            Question::FreshName => {
                self.fresh += 1;
                Answer::Value(Some(text(&format!("run-{}", self.fresh))))
            }
            Question::StartTimer(_, _) | Question::Sleep(_) | Question::SetLimit(_, _) => {
                Answer::Done(Ok(()))
            }
            Question::TimerExpired(timer) => Answer::Holds(
                timer == Timer::Wall && matches!(&self.running, Some(script) if script.late),
            ),
            Question::ProcessId => Answer::Identity(77),
            Question::HardLimit(_) => Answer::Limit(Some(2048)),
            Question::ReadDirectory(path) => Answer::Names(self.names(&path.display())),
            Question::TemporaryDirectory => Answer::Place(Ok(text("/tmp"))),
            Question::OpenRoot => Answer::Descriptor(Ok(self.open(String::from("/")))),
            Question::OpenBeneath(_, path) => {
                let place = self.resolve(&format!("/{}", path.display()), true);
                Answer::Descriptor(place.map(|place| self.open(place)))
            }
            Question::FollowDescriptor(descriptor) => {
                let place = self.descriptors[(descriptor - 3) as usize].clone();
                Answer::Entry(self.stat(&place, true))
            }
            Question::DescriptorFlags(_) => Answer::Flags(Ok(1)),
            Question::SetDescriptorFlags(_, flags) => {
                assert_eq!(flags & 1, 0);
                Answer::Done(Ok(()))
            }
            Question::CreatePrivateFile(path) => {
                let place = path.display();
                self.file(&place, "");
                Answer::Descriptor(Ok(self.open(place)))
            }
            Question::WriteDescriptor(_, _) => Answer::Done(Ok(())),
            Question::RunTool(command) => Answer::Output(self.tool(&command)),
            Question::RunSandbox(request) => {
                self.requests.push(request);
                Answer::Sandboxed(Ok(self.outcomes.pop_front().unwrap_or_default()))
            }
            Question::Spawn(command) => {
                self.spawned.push(command);
                self.running = self.scripts.pop_front();
                Answer::Spawned(match &self.running {
                    Some(_) => Ok(self.spawned.len() as u32),
                    None => Err(failure(IoKind::PermissionDenied, "Permission denied")),
                })
            }
            Question::Piped(child) => Answer::Holds(
                self.spawned[child as usize - 1].output == OutputMode::Capture,
            ),
            Question::Poll(_) => {
                let busy = matches!(&self.running, Some(script) if script.busy());
                Answer::Polled(Ok(if busy { None } else { Some(self.end()) }))
            }
            Question::Await(_) => Answer::Exited(Ok(self.end())),
            Question::Kill(_) => {
                if let Some(script) = self.running.as_mut() {
                    script.late = false;
                    script.exit = Exit { code: None, signal: Some(9) };
                }
                Answer::Done(Ok(()))
            }
            Question::OverLimit(_) => {
                Answer::Holds(matches!(&self.running, Some(script) if script.flood))
            }
            Question::Collect(_, stream) => Answer::Captured(Capture::Read(match &self.running {
                Some(script) if stream == Stream::Stdout => script.stdout.clone(),
                _ => Vec::new(),
            })),
            Question::Support => Answer::Supported(self.support),
            Question::Restrict(restrictions) => {
                self.restricted.push(restrictions.rules.len());
                Answer::Restricted(Ok(Enforcement { fully_enforced: true, no_new_privs: true }))
            }
            Question::RunProgram(program, _) => {
                self.programs.push(program.display());
                Answer::Exited(Ok(Exit { code: Some(3), signal: None }))
            }
            Question::RunStep(command) => {
                let args: Vec<String> = command.args.iter().map(|arg| arg.display()).collect();
                self.steps.push(format!("{} {}", command.program.display(), args.join(" ")));
                Answer::Exited(Ok(Exit { code: Some(0), signal: None }))
            }
            Question::Tell(message) => {
                self.told.push(message);
                Answer::Done(Ok(()))
            }
        }
    }

    fn drive<T>(&mut self, flow: impl Fn(&Vec<Answer>) -> Flow<T>) -> Result<T, CageError> {
        let mut log: Vec<Answer> = Vec::new();
        loop {
            match flow(&log) {
                Ok((value, used)) => {
                    assert_eq!(used, log.len());
                    return Ok(value);
                }
                Err(Halt::Fail(error, used)) => {
                    assert_eq!(used, log.len());
                    return Err(error);
                }
                Err(Halt::Ask(question)) => {
                    let answer = self.answer(question);
                    log.push(answer);
                    assert!(log.len() < 5000, "the flow does not end");
                }
            }
        }
    }

    /// Has the sandbox locate the workspace and then end with a code.
    fn expect_build(&mut self, code: i32) {
        self.outcomes.push_back(SandboxOutcome {
            status: ProcessStatus::success(),
            stdout: b"/work/project/Cargo.toml\n".to_vec(),
            stderr: Vec::new(),
        });
        self.outcomes.push_back(SandboxOutcome {
            status: ProcessStatus { code: Some(code) },
            stdout: Vec::new(),
            stderr: Vec::new(),
        });
    }

    fn run(&mut self, list: &[&str]) -> Result<Report, CageError> {
        let list = words(list);
        self.drive(|log| run(&list, log, 0))
    }
}

fn argument(request: &SandboxRequest, index: usize) -> String {
    request.args[index].display()
}

#[test]
fn forwards_build_arguments_and_returns_cargo_exit_code() {
    let manifest = "/work/project/Cargo.toml";
    let target = "/work/project/target";
    let args = ["build", "--release", "--manifest-path", manifest, "--target-dir", target];
    for reuse_target in [true, false] {
        let mut host = Host::new();
        host.expect_build(23);
        let mut list = if reuse_target { vec!["--reuse-target"] } else { Vec::new() };
        list.extend(args);
        let report = host.run(&list).expect("Cargo run result");

        assert_eq!(report.code, 23);
        assert_eq!(host.requests.len(), 2);
        let call = &host.requests[1];
        assert_eq!(argument(call, 0), "build");
        assert_eq!(argument(call, 1), "--release");
        assert_eq!(argument(call, 2), "--manifest-path");
        assert_eq!(argument(call, 3), manifest);
        assert_eq!(argument(call, 4), "--target-dir");
        if reuse_target {
            assert_eq!(argument(call, 5), target);
        } else {
            assert_eq!(argument(call, 5), format!("{target}/.cargo-cage/runs/run-1"));
        }
        assert!(matches!(host.nodes.get("/work/project/Cargo.lock"), Some(Node::File(_))));
    }
}

#[test]
fn forwards_all_supported_commands_and_returns_exit_codes() {
    for command in
        [CargoCommand::Build, CargoCommand::Check, CargoCommand::Test, CargoCommand::Doc]
    {
        let mut host = Host::new();
        host.expect_build(23);
        let report = host
            .run(&[
                command.as_str(),
                "--manifest-path",
                "/work/project/Cargo.toml",
                "--target-dir",
                "/work/project/target",
            ])
            .expect("Cargo run result");

        assert_eq!(report.code, 23);
        assert_eq!(host.requests.len(), 2);
        assert_eq!(argument(&host.requests[1], 0), command.as_str());
    }
}

#[test]
fn narrows_external_working_directory_and_rewrites_relative_paths() {
    let mut host = Host::new();
    let workspace = text("/work/project");
    let current_dir = text("/work");
    let args = words(&["--manifest-path", "project/Cargo.toml"]);
    let sandbox_dir = host
        .drive(|log| sandbox_current_dir(&current_dir, &workspace, &args, log, 0))
        .expect("safe sandbox working directory");
    assert_eq!(sandbox_dir, workspace);

    let target = text("/work/project/target");
    let args =
        words(&["--manifest-path", "project/Cargo.toml", "--target-dir", "project/target"]);
    let rewritten = host
        .drive(|log| {
            rewrite_relative_cargo_paths(&args, &current_dir, &sandbox_dir, &target, false, log, 0)
        })
        .expect("rewrite safe relative paths");
    assert_eq!(rewritten[1], text("/work/project/Cargo.toml"));
    assert_eq!(rewritten[3], target);
    assert_eq!(rewritten.len(), args.len());
}

#[test]
fn doctor_returns_success_when_the_sandbox_probe_succeeds() {
    let mut host = Host::new();
    host.expect_build(0);
    let report = host.run(&["doctor"]).expect("doctor result");

    assert_eq!(report.code, 0, "{:?}", report.output);
    assert_eq!(host.requests.len(), 2);
    assert!(!host.holds("/work/project/Cargo.lock"));
    assert!(!host.holds("/work/project/target"));
}

#[test]
fn doctor_returns_one_when_the_sandbox_probe_fails() {
    let mut host = Host::new();
    host.expect_build(23);
    let report = host.run(&["doctor"]).expect("doctor result");

    assert_eq!(report.code, 1);
    assert_eq!(host.requests.len(), 2);
    assert!(!host.holds("/work/project/Cargo.lock"));
    assert!(!host.holds("/work/project/target"));
}

fn example_toolchain() -> Toolchain {
    Toolchain {
        cargo: text("/toolchain/bin/cargo"),
        rustc: text("/toolchain/bin/rustc"),
        rustdoc: Some(text("/toolchain/bin/rustdoc")),
        sysroot: text("/toolchain"),
        home: text("/home/test"),
        path: text("/toolchain/bin"),
        read_only_paths: words(&["/toolchain"]),
    }
}

#[test]
fn cargo_environment_starts_clean_and_sets_toolchain_values() {
    let mut host = Host::new();
    host.variable("AWS_SECRET_ACCESS_KEY", "secret");
    host.variable("CARGO_HOME", "/home/user/.cargo");
    let toolchain = example_toolchain();
    let environment = host
        .drive(|log| cargo_environment(&toolchain, &text("/workspace"), &Vec::new(), log, 0))
        .expect("environment");
    let sets = |name: &str, value: &str| {
        environment.set.iter().any(|(key, held)| *key == text(name) && *held == text(value))
    };
    assert!(!environment.inherit);
    assert!(sets("HOME", "/home/test"));
    assert!(sets("PATH", "/toolchain/bin"));
    assert!(sets("RUSTC", "/toolchain/bin/rustc"));
    assert!(sets("RUSTDOC", "/toolchain/bin/rustdoc"));
    assert!(!environment.set.iter().any(|(key, _)| *key == text("CARGO_HOME")));
    assert!(!environment.set.iter().any(|(key, _)| *key == text("AWS_SECRET_ACCESS_KEY")));
}

#[test]
fn host_path_filter_keeps_private_runtime_roots_hidden() {
    let home = text("/home/test");
    for path in ["/home/test/bin", "/tmp/tools", "/var/tmp/tools", "/run/agent"] {
        assert!(is_private_host_path(&text(path), &home), "{path}");
    }
    assert!(!is_private_host_path(&text("/usr/bin"), &home));
}

#[test]
fn path_allowlist_keeps_only_standard_runtime_or_required_directories() {
    assert!(is_standard_runtime_path(&text("/usr/bin")));
    assert!(is_standard_runtime_path(&text("/usr/local/bin/tool")));
    assert!(!is_standard_runtime_path(&text("/opt/custom-bin")));
}

#[test]
fn rejects_project_owned_rustup_compilers() {
    let toolchains = text("/home/test/.rustup/toolchains");
    assert!(is_trusted_rustup_compiler(
        &text("/home/test/.rustup/toolchains/stable/bin/rustc"),
        &toolchains
    ));
    assert!(!is_trusted_rustup_compiler(&text("/workspace/toolchain/bin/rustc"), &toolchains));
}

#[test]
fn workspace_manifest_symlinks_are_rejected_before_mounting() {
    let mut host = Host::new();
    host.file("/work/project/external-Cargo.toml", "[package]\n");
    host.link("/work/project/linked-Cargo.toml", "/work/project/external-Cargo.toml");
    let args = words(&["--manifest-path", "/work/project/linked-Cargo.toml"]);
    let error = host
        .drive(|log| manifest_parent_path(&args, &text("/work/project"), log, 0))
        .expect_err("symlinked manifest");
    let shown = error.to_string();
    assert!(shown.contains("manifest path"), "{shown}");
    assert!(shown.contains("symlink"), "{shown}");
    assert!(shown.contains("remedy:"), "{shown}");
}

fn target_host() -> Host {
    let mut host = Host::new();
    host.directory("/root/workspace");
    host
}

fn prepare(host: &mut Host, path: &str) -> Result<OsText, CageError> {
    let path = text(path);
    host.drive(|log| prepare_target_dir(&path, &text("/root/workspace"), log, 0))
}

#[test]
fn creates_target_and_lockfile_inside_workspace() {
    let mut host = target_host();
    let target = prepare(&mut host, "/root/workspace/target").expect("target is safe");
    let lock = host
        .drive(|log| prepare_lockfile(&text("/root/workspace"), log, 0))
        .expect("lockfile is safe");
    assert_eq!(target, text("/root/workspace/target"));
    assert!(host.nodes.get("/root/workspace/target") == Some(&Node::Directory));
    assert_eq!(lock, text("/root/workspace/Cargo.lock"));
    assert!(matches!(host.nodes.get("/root/workspace/Cargo.lock"), Some(Node::File(_))));
}

#[test]
fn validates_missing_paths_without_creating_them() {
    let mut host = target_host();
    let workspace = text("/root/workspace");
    let target = text("/root/workspace/target");
    let checked_target = host
        .drive(|log| validate_target_dir(&target, &workspace, log, 0))
        .expect("safe target");
    assert_eq!(checked_target, target);
    assert!(!host.holds("/root/workspace/target"));
    assert!(!host
        .drive(|log| inspect_lockfile(&workspace, log, 0))
        .expect("inspect missing lockfile"));
    assert!(!host.holds("/root/workspace/Cargo.lock"));
}

#[test]
fn rejects_target_outside_workspace_before_creating_it() {
    let mut host = target_host();
    let error = prepare(&mut host, "/root/outside").expect_err("outside target");
    assert!(error.to_string().contains("outside the workspace"), "{}", error.to_string());
    assert!(!host.holds("/root/outside"));
}

#[test]
fn rejects_target_traversal() {
    let mut host = target_host();
    host.directory("/root/outside");
    let error = prepare(&mut host, "/root/workspace/target/../../outside")
        .expect_err("traversal target");
    assert!(error.to_string().contains("outside the workspace"), "{}", error.to_string());
    assert!(host.holds("/root/outside"));
}

#[test]
fn rejects_symlink_target() {
    let mut host = target_host();
    host.directory("/root/outside");
    host.link("/root/workspace/target", "/root/outside");
    let error = prepare(&mut host, "/root/workspace/target").expect_err("symlink target");
    assert!(error.to_string().contains("symlink") || error.to_string().contains("outside"));
}

#[test]
fn rejects_symlink_hidden_by_parent_traversal() {
    let mut host = target_host();
    host.directory("/root/outside");
    prepare(&mut host, "/root/workspace/target").expect("create target directory");
    host.link("/root/workspace/target/link", "/root/outside");
    let error = prepare(&mut host, "/root/workspace/target/link/../escape")
        .expect_err("symlink traversal");
    let shown = error.to_string();
    assert!(shown.contains("symlink") || shown.contains("outside"), "{shown}");
    assert!(!host.holds("/root/outside/escape"));
}

#[test]
fn rejects_symlinked_build_directory() {
    let mut host = target_host();
    host.directory("/root/outside");
    prepare(&mut host, "/root/workspace/target").expect("create target directory");
    host.link("/root/workspace/target/build", "/root/outside");
    let error = prepare(&mut host, "/root/workspace/target/build")
        .expect_err("symlinked build directory");
    let shown = error.to_string();
    assert!(shown.contains("symlink") || shown.contains("outside"), "{shown}");
    assert!(host.holds("/root/outside"));
}

#[test]
fn rejects_symlinked_lockfile() {
    let mut host = target_host();
    host.file("/root/external-lock", "must remain untouched");
    host.link("/root/workspace/Cargo.lock", "/root/external-lock");
    let error = host
        .drive(|log| prepare_lockfile(&text("/root/workspace"), log, 0))
        .expect_err("symlinked lockfile");
    let shown = error.to_string();
    assert!(shown.contains("Cargo.lock") && shown.contains("symlink"), "{shown}");
    assert_eq!(host.read("/root/external-lock").unwrap(), "must remain untouched");
}

// ---------------------------------------------------------------------------
// Builds
// ---------------------------------------------------------------------------

#[test]
fn builds_are_confined_and_offline() {
    let mut host = Host::new();
    host.variable("GITHUB_TOKEN", "secret");
    host.variable("LANG", "C");
    host.expect_build(0);
    let report = host.run(&["build"]).expect("build");
    assert_eq!(report.code, 0);
    let call = &host.requests[1];
    assert_eq!(call.program, text("/opt/rust/bin/cargo"));
    assert_eq!(call.policy.network, NetworkAccess::Deny);
    assert_eq!(
        call.policy.writable_paths,
        words(&["/work/project/target/.cargo-cage/runs/run-1", "/work/project/Cargo.lock"])
    );
    assert!(call.policy.read_only_paths.contains(&text("/work/project")));
    assert!(call.policy.remove_environment.contains(&text("GITHUB_TOKEN")));
    let held = |name: &str| {
        call.environment.set.iter().find(|(key, _)| *key == text(name)).map(|pair| pair.1.display())
    };
    assert_eq!(held("CARGO_NET_OFFLINE").as_deref(), Some("true"));
    assert_eq!(held("LANG").as_deref(), Some("C"));
    assert_eq!(held("TMPDIR").as_deref(), Some("/tmp"));
    assert_eq!(held("GITHUB_TOKEN"), None);
    assert!(!call.environment.inherit);
}

#[test]
fn every_build_gets_a_target_run_of_its_own() {
    let mut host = Host::new();
    host.expect_build(0);
    host.expect_build(0);
    host.run(&["build"]).expect("first build");
    host.run(&["build"]).expect("second build");
    let first = &host.requests[1].policy.writable_paths[0];
    let second = &host.requests[3].policy.writable_paths[0];
    assert_ne!(first, second);
    host.fresh = 0;
    host.expect_build(0);
    let error = host.run(&["build"]).expect_err("the run exists already");
    assert!(error.to_string().contains("isolated target run"), "{}", error.to_string());
}

#[test]
fn failed_builds_explain_the_policy() {
    let mut host = Host::new();
    host.expect_build(101);
    let report = host.run(&["test"]).expect("test");
    assert_eq!(report.code, 101);
    let notices = report.notices.join("\n");
    assert!(notices.contains("Cargo test failed"), "{notices}");
    assert!(notices.contains("exit code 101"), "{notices}");
    assert!(notices.contains("network denied"), "{notices}");
}

#[test]
fn help_is_printed_without_asking_the_host() {
    let mut host = Host::new();
    let report = host.run(&["--help"]).expect("help");
    assert_eq!(report.code, 0);
    assert!(host.requests.is_empty());
    let error = host.run(&["cage", "build"]).expect_err("dispatcher form");
    assert!(matches!(error, CageError::InvalidInvocation(_)));
}

#[test]
fn doctor_tells_what_it_looked_at() {
    let mut host = Host::new();
    host.expect_build(0);
    let report = host.run(&["doctor", "--verbose"]).expect("doctor");
    let output = report.output.join("\n");
    assert!(output.contains("cargo-cage doctor"), "{output}");
    assert!(output.contains("/work/project"), "{output}");
    assert!(output.contains("OK"), "{output}");
    let mut bare = Host::new();
    bare.nodes.remove("/opt/rust/bin/cargo");
    let report = bare.run(&["doctor"]).expect("doctor");
    assert_eq!(report.code, 1);
    assert!(report.output.join("\n").contains("FAIL Cargo executable"));
}

#[test]
fn a_missing_cargo_is_reported() {
    let mut host = Host::new();
    host.nodes.remove("/opt/rust/bin/cargo");
    assert!(host.run(&["build"]).is_err());
    assert!(host.requests.is_empty());
}

#[test]
fn targets_outside_the_workspace_stop_the_build() {
    let mut host = Host::new();
    host.expect_build(0);
    let error = host.run(&["build", "--target-dir", "/tmp/out"]).expect_err("outside");
    assert!(matches!(error, CageError::Policy(_)));
    assert_eq!(host.requests.len(), 1);
    assert!(!host.holds("/tmp/out"));
}

#[test]
fn manifests_are_read_from_both_spellings() {
    let split = manifest_path_arg(&words(&["--manifest-path", "a/Cargo.toml"])).expect("value");
    assert_eq!(split, Some(text("a/Cargo.toml")));
    let joined = manifest_path_arg(&words(&["--manifest-path=b/Cargo.toml"])).expect("value");
    assert_eq!(joined, Some(text("b/Cargo.toml")));
    assert_eq!(manifest_path_arg(&words(&["--release"])).expect("value"), None);
    assert!(manifest_path_arg(&words(&["--manifest-path"])).is_err());
    let after = words(&["--", "--manifest-path", "c/Cargo.toml"]);
    assert_eq!(manifest_path_arg(&after).expect("value"), None);
}

#[test]
fn the_target_defaults_to_the_workspace() {
    let mut host = Host::new();
    let (current, workspace) = (text("/work"), text("/work/project"));
    let target = host
        .drive(|log| target_dir_arg(&Vec::new(), &current, &workspace, log, 0))
        .expect("target");
    assert_eq!(target, text("/work/project/target"));
    let args = words(&["--target-dir=out"]);
    let target =
        host.drive(|log| target_dir_arg(&args, &current, &workspace, log, 0)).expect("target");
    assert_eq!(target, text("/work/out"));
}

#[test]
fn the_workspace_must_be_a_real_manifest() {
    let mut host = Host::new();
    let current = text("/work/project");
    let none: Vec<OsText> = Vec::new();
    let mut found = |output: &str| {
        let bytes = output.as_bytes().to_vec();
        host.drive(|log| workspace_from_output(&bytes, &current, &none, log, 0))
    };
    assert_eq!(found("/work/project/Cargo.toml\n").expect("workspace"), text("/work/project"));
    assert!(found("").is_err());
    assert!(found("/work/project/Cargo.toml\n/other\n").is_err());
    assert!(found("/work/missing/Cargo.toml\n").is_err());
    assert!(found("/work/project\n").is_err());
}

#[test]
fn toolchains_live_in_their_sysroot() {
    let mut host = Host::new();
    let toolchain = host
        .drive(|log| {
            resolve_toolchain(&text("/opt/rust/bin/cargo"), &text("/work/project"), true, log, 0)
        })
        .expect("toolchain");
    assert_eq!(toolchain.sysroot, text("/opt/rust"));
    assert_eq!(toolchain.rustc, text("/opt/rust/bin/rustc"));
    assert_eq!(toolchain.rustdoc, Some(text("/opt/rust/bin/rustdoc")));
    assert_eq!(toolchain.home, text("/home/user"));
    assert!(toolchain.path.display().contains("/opt/rust/bin"));
}

#[test]
fn search_paths_are_split_and_joined() {
    let list = split_paths(&text("/usr/bin:/bin"));
    assert_eq!(list, words(&["/usr/bin", "/bin"]));
    assert_eq!(join_paths(&list), Some(text("/usr/bin:/bin")));
    assert_eq!(join_paths(&words(&["/odd:name"])), None);
}

#[test]
fn secrets_of_the_host_are_named_and_left_behind() {
    let variables = vec![
        (text("LANG"), text("C")),
        (text("GITHUB_TOKEN"), text("secret")),
        (text("EDITOR"), text("vi")),
    ];
    assert!(sensitive_environment_names(&variables).contains(&text("GITHUB_TOKEN")));
    assert_eq!(safe_host_environment(&variables), vec![(text("LANG"), text("C"))]);
}

#[test]
fn the_policy_of_a_build_hides_the_home() {
    let mut host = Host::new();
    host.directory("/var/tmp");
    let policy = host.drive(|log| cargo_policy(true, log, 0)).expect("policy");
    assert_eq!(policy.network, NetworkAccess::Deny);
    assert!(policy.private_paths.contains(&text("/tmp")));
    assert!(policy.writable_paths.is_empty());
}

// ---------------------------------------------------------------------------
// Paths and order
// ---------------------------------------------------------------------------

#[test]
fn rejects_symlinked_cgroup_parent() {
    let mut host = Host::new();
    host.directory("/tmp/cgroup-path-test/real");
    host.link("/tmp/cgroup-path-test/link", "/tmp/cgroup-path-test/real");
    let link = text("/tmp/cgroup-path-test/link");
    let error = host
        .drive(|log| canonical_existing_path_without_symlinks(&link, "test cgroup", log, 0))
        .unwrap_err();
    assert!(error.to_string().contains("symlink"));
}

#[test]
fn walks_refuse_relative_and_traversing_paths() {
    let mut host = Host::new();
    let mut walk = |path: &str| {
        let path = text(path);
        host.drive(|log| canonical_existing_path_without_symlinks(&path, "test path", log, 0))
    };
    assert_eq!(walk("/work/project").expect("a real path"), text("/work/project"));
    assert!(matches!(walk("work"), Err(CageError::Policy(_))));
    assert!(matches!(walk("/work/../tmp"), Err(CageError::Policy(_))));
    assert!(matches!(walk("/work/missing"), Err(CageError::Io { .. })));
}

#[test]
fn accepted_paths_are_accepted_again() {
    let mut host = Host::new();
    let mut walk = |path: &OsText| {
        host.drive(|log| canonical_existing_path_without_symlinks(path, "test path", log, 0))
    };
    for spelled in ["/work/project", "/work//project/", "/./work/./project", "/"] {
        let canonical = walk(&text(spelled)).expect("a real path");
        assert_eq!(walk(&canonical).expect("the same path"), canonical);
    }
    assert_eq!(walk(&text("/work//project/")).expect("a real path"), text("/work/project"));
}

#[test]
fn normalization_takes_parents_away() {
    assert_eq!(lexical_normalize(&text("/a/b/../c")), text("/a/c"));
    assert_eq!(lexical_normalize(&text("/a/./b//c/")), text("/a/b/c"));
    assert_eq!(lexical_normalize(&lexical_normalize(&text("/a/../b"))), text("/b"));
    assert!(lexical_normalize(&text("//a/./b//")).same_path(&text("//a/./b//")));
}

#[test]
fn paths_have_components() {
    let path = text("/usr/local/bin");
    assert!(path.is_absolute());
    assert!(path.starts_with(&text("/usr")));
    assert!(!path.starts_with(&text("/us")));
    assert_eq!(path.parent(), Some(text("/usr/local")));
    assert_eq!(path.file_name(), Some(text("bin")));
    assert_eq!(text("/usr").join_text("lib"), text("/usr/lib"));
    assert_eq!(text("/usr").join_text("/lib"), text("/lib"));
    assert!(text("/a/../b").has_parent_component());
    assert!(text("/a/b/").same_path(&text("/a//b")));
}

#[test]
fn paths_are_taken_relative_to_the_root() {
    for path in ["/", "/a", "//a//b/", "/./a/./b/.", "/a/../b", "/.a", "/..", "/./"] {
        let rest = std::path::Path::new(path).strip_prefix("/").expect("an absolute path");
        assert_eq!(text(path).below_root().display(), rest.display().to_string(), "{path}");
    }
    let mut host = Host::new();
    let mut asked: Vec<OsText> = Vec::new();
    let (source, shown) = (text("//work//project/"), text("/workspace"));
    let mut log: Vec<Answer> = Vec::new();
    while let Err(Halt::Ask(question)) =
        add_fd_mount(&source, &shown, MountKind::Directory, "workspace", &log, 0)
    {
        if let Question::OpenBeneath(_, path) = &question {
            asked.push(path.clone());
        }
        log.push(host.answer(question));
    }
    assert_eq!(asked, words(&["work//project"]));
}

#[test]
fn mounts_are_ordered_by_depth() {
    let list = words(&["/a/b/c", "/a", "/a/b", "/d"]);
    assert_eq!(sort_by_depth(&list), words(&["/a", "/d", "/a/b", "/a/b/c"]));
    let private = words(&["/run/x", "/tmp", "/tmp"]);
    assert_eq!(private_mount_order(&private), words(&["/tmp", "/run/x"]));
    assert_eq!(unique_mount_roots(&words(&["/a/b", "/a", "/c"])), words(&["/a", "/c"]));
    assert_eq!(
        unique_mount_roots(&words(&["/x/y/z", "/a/b/c", "/a/b", "/d"])),
        words(&["/d", "/a/b", "/x/y/z"])
    );
}

#[test]
fn directories_are_created_outside_mounts_only() {
    let none: Vec<OsText> = Vec::new();
    let made = collect_parent_directories(&words(&["/work/project/target"]), &none, &none);
    assert_eq!(made, words(&["/work", "/work/project"]));
    let kept = collect_parent_directories(
        &words(&["/usr/lib/x"]),
        &none,
        &words(&["/usr"]),
    );
    assert!(!kept.contains(&text("/usr/lib")));
}

// ---------------------------------------------------------------------------
// Trees
// ---------------------------------------------------------------------------

fn stat(inode: u64, links: u64) -> Stat {
    Stat { kind: FileKind::File, device: 1, inode, links }
}

#[test]
fn hard_links_must_stay_inside() {
    let inside = vec![
        FoundFile { path: text("/t/a"), stat: stat(7, 2) },
        FoundFile { path: text("/t/b"), stat: stat(7, 2) },
    ];
    assert!(validate_hardlink_aliases(&inside, tree_label(TreeKind::Writable)).is_ok());
    let outside = vec![FoundFile { path: text("/t/a"), stat: stat(7, 2) }];
    let error = validate_hardlink_aliases(&outside, tree_label(TreeKind::Writable))
        .expect_err("a name outside the tree");
    assert!(error.to_string().contains("/t/a"), "{}", error.to_string());
}

fn tree_host() -> Host {
    let mut host = Host::new();
    host.file("/proc/self/mountinfo", "21 1 8:1 / / rw - ext4 /dev/sda1 rw\n");
    host.directory("/work/project/target");
    host.file("/work/project/target/debug/out", "");
    host
}

#[test]
fn sound_trees_are_accepted() {
    let mut host = tree_host();
    let root = text("/work/project/target");
    assert!(host.drive(|log| validate_writable_tree(&root, log, 0)).is_ok());
    assert!(host.drive(|log| validate_cache_tree(&root, log, 0)).is_ok());
}

#[test]
fn trees_with_outside_names_links_and_devices_are_refused() {
    let root = text("/work/project/target");
    let mut aliased = tree_host();
    aliased.links.insert(String::from("/work/project/target/debug/out"), 2);
    assert!(aliased.drive(|log| validate_writable_tree(&root, log, 0)).is_err());
    let mut linked = tree_host();
    linked.link("/work/project/target/link", "/etc");
    assert!(linked.drive(|log| validate_writable_tree(&root, log, 0)).is_err());
    let mut special = tree_host();
    special.nodes.insert(String::from("/work/project/target/dev"), Node::Device);
    assert!(special.drive(|log| validate_writable_tree(&root, log, 0)).is_err());
}

#[test]
fn trees_hold_no_mounts() {
    let mut host = tree_host();
    let table = [
        "21 1 8:1 / / rw - ext4 /dev/sda1 rw",
        "22 21 0:5 / /work/project/target/debug rw - tmpfs t rw",
        "",
    ];
    host.file("/proc/self/mountinfo", &table.join("\n"));
    let root = text("/work/project/target");
    let error = host
        .drive(|log| validate_no_nested_mounts(&root, "writable tree", log, 0))
        .expect_err("a nested mount");
    assert!(error.to_string().contains("mount"), "{}", error.to_string());
    let other = text("/work/project/src");
    assert!(host.drive(|log| validate_no_nested_mounts(&other, "tree", log, 0)).is_ok());
}

#[test]
fn mount_points_are_unescaped() {
    assert_eq!(decode_mountinfo_path("/a\\040b"), Some(text("/a b")));
    assert_eq!(decode_mountinfo_path("/plain"), Some(text("/plain")));
    assert_eq!(decode_mountinfo_path("/a\\777"), None);
}

// ---------------------------------------------------------------------------
// The sandbox
// ---------------------------------------------------------------------------

const LAUNCHER: &str = "/opt/cage/bin/cargo-cage-landlock-launcher";

const PREFLIGHT: &str = "cargo-cage-namespace-preflight-ok\n";

fn sandbox_host() -> Host {
    let mut host = tree_host();
    for file in ["/bin/bash", "/bin/sh", "/usr/bin/env", "/opt/cage/bin/cargo-cage", LAUNCHER] {
        host.file(file, "");
    }
    host.file("/proc/self/cgroup", "0::/user.slice/app\n");
    host.file("/proc/meminfo", "MemTotal:       16777216 kB\n");
    for (group, enabled) in
        [("", "cpu memory pids"), ("/user.slice", "cpu memory pids"), ("/user.slice/app", "")]
    {
        let group = format!("/sys/fs/cgroup{group}");
        host.file(&format!("{group}/cgroup.controllers"), "cpu memory pids\n");
        host.file(&format!("{group}/cgroup.subtree_control"), enabled);
        host.file(&format!("{group}/cgroup.procs"), "");
        host.file(&format!("{group}/memory.max"), "max\n");
    }
    host
}

fn run_shell(
    host: &mut Host,
    script: &str,
    limits: ResourceLimits,
) -> Result<SandboxOutcome, CageError> {
    let backend = host.drive(|log| LinuxSandbox::with_launcher(&text(LAUNCHER), log, 0))?;
    let mut request = SandboxRequest::new(&text("/bin/sh"), &text("/tmp"));
    request.args = words(&["-c", script]);
    request.environment = Environment::clean();
    request.output = OutputMode::Capture;
    request.policy = SandboxPolicy {
        network: NetworkAccess::Deny,
        resources: limits,
        private_paths: words(&["/tmp"]),
        ..SandboxPolicy::default()
    };
    host.drive(|log| backend.run(&request, log, 0))
}

#[test]
fn wall_clock_budget_is_enforced_and_reported() {
    let limits = ResourceLimits { max_wall_time: TimeSpan::from_millis(250), ..ResourceLimits::default() };
    let mut host = sandbox_host();
    host.scripts.push_back(finished(0, PREFLIGHT));
    host.scripts.push_back(Script { late: true, ..finished(0, "") });
    let error =
        run_shell(&mut host, "sleep 5", limits).expect_err("sleep must exceed the wall budget");
    assert!(
        matches!(
            error,
            CageError::ResourceLimitExceeded { kind: ResourceLimitKind::WallTime, .. }
        ),
        "{}",
        error.to_string()
    );
    assert!(error.to_string().contains("wall-clock time"));
    assert!(error.to_string().contains("remedy:"));
    assert!(host.written.iter().any(|(file, _)| file.ends_with("cgroup.kill")));
}

#[test]
fn process_budget_is_enforced_and_reported() {
    let limits = ResourceLimits {
        max_processes: 16,
        max_wall_time: TimeSpan::from_secs(5),
        ..ResourceLimits::default()
    };
    let mut host = sandbox_host();
    host.scripts.push_back(finished(0, PREFLIGHT));
    host.scripts.push_back(Script { pids_events: 3, ..finished(1, "") });
    let error = run_shell(
        &mut host,
        "i=0; while [ \"$i\" -lt 256 ]; do /bin/true & i=$((i + 1)); done; wait",
        limits,
    )
    .expect_err("the process storm must hit pids.max");
    assert!(matches!(
        error,
        CageError::ResourceLimitExceeded { kind: ResourceLimitKind::Processes, .. }
    ));
    assert!(error.to_string().contains("process count"));
    assert!(error.to_string().contains("remedy:"));
}

#[test]
fn file_size_budget_is_enforced_and_reported() {
    let limits = ResourceLimits {
        max_file_size_bytes: 1024 * 1024,
        max_wall_time: TimeSpan::from_secs(5),
        ..ResourceLimits::default()
    };
    let mut host = sandbox_host();
    host.scripts.push_back(finished(0, PREFLIGHT));
    host.scripts.push_back(finished(128 + 25, ""));
    let error = run_shell(
        &mut host,
        "exec /bin/dd if=/dev/zero of=/tmp/cargo-cage-file-limit bs=2M count=1 status=none",
        limits,
    )
    .expect_err("the file-size budget must reject an oversized write");
    assert!(matches!(
        error,
        CageError::ResourceLimitExceeded { kind: ResourceLimitKind::FileSize, .. }
    ));
    assert!(error.to_string().contains("file size"));
    assert!(error.to_string().contains("remedy:"));
}

#[test]
fn open_file_budget_is_inherited_by_children() {
    let limits = ResourceLimits { max_wall_time: TimeSpan::from_secs(5), ..ResourceLimits::default() };
    let mut host = sandbox_host();
    host.scripts.push_back(finished(0, PREFLIGHT));
    host.scripts.push_back(finished(42, ""));
    let outcome = run_shell(
        &mut host,
        "exec /bin/bash -c 'for ((fd=3; fd<20000; fd++)); do eval \"exec ${fd}</dev/null\" 2>/dev/null || exit 42; done'",
        limits,
    )
    .expect("the child should fail natively when the descriptor budget is exhausted");
    assert!(!outcome.status.successfully_exited());
}

#[test]
fn only_bubblewrap_is_started_and_groups_are_removed() {
    let mut host = sandbox_host();
    host.scripts.push_back(finished(0, PREFLIGHT));
    host.scripts.push_back(finished(0, "hello\n"));
    let outcome =
        run_shell(&mut host, "echo hello", ResourceLimits::default()).expect("a quiet run");
    assert_eq!(outcome.stdout, b"hello\n");
    assert!(outcome.status.successfully_exited());
    assert_eq!(host.spawned.len(), 2);
    for command in &host.spawned {
        assert_eq!(command.program, text("/usr/bin/bwrap"));
        assert!(command.args.contains(&text("--unshare-net")));
    }
    assert!(host.spawned[1].args.contains(&text("echo hello")));
    assert!(host.removed.iter().any(|name| name.starts_with("/sys/fs/cgroup/user.slice/")));
    assert!(!host.nodes.keys().any(|name| name.contains("cargo-cage") && name.contains("cgroup")));
    assert!(host
        .written
        .iter()
        .any(|(file, text)| file.ends_with("pids.max") && text.trim() == "512"));
}

#[test]
fn the_preflight_checks_more_than_namespaces() {
    let mut host = sandbox_host();
    host.scripts.push_back(finished(0, PREFLIGHT));
    host.scripts.push_back(finished(0, ""));
    run_shell(&mut host, "true", ResourceLimits::default()).expect("a quiet run");
    let marker = text("cargo-cage-namespace-preflight");
    let args = &host.spawned[0].args;
    let place = args.iter().position(|arg| *arg == marker).expect("a preflight");
    let script = args[place - 1].display();
    for line in [
        "[ -n \"$pid\" ] && [ \"$pid\" != \"$3\" ]",
        "    CapEff:) effective=$value ;;",
        "[ \"$effective\" = 0000000000000000 ]",
        "[ \"$permitted\" = 0000000000000000 ]",
        "    NoNewPrivs:) privileges=$value ;;",
        "[ \"$privileges\" = 1 ]",
        "read -r line < /proc/self/stat",
        "[ \"$4\" -gt 0 ]",
        "--die-with-parent",
    ] {
        assert!(script.lines().any(|found| found == line), "{line}");
    }
    assert!(script.ends_with("\nprintf '%s\\n' cargo-cage-namespace-preflight-ok\n"));
    assert!(!host.spawned[1].args.contains(&marker));
}

#[test]
fn limits_are_noted_as_soon_as_they_hold() {
    let mut host = sandbox_host();
    let limits = ResourceLimits::default();
    let group = host.drive(|log| ResourceGroup::prepare(&limits, log, 0)).expect("a group");
    let refused = || Answer::Done(Err(failure(IoKind::PermissionDenied, "refused")));
    let granted = |hard: u64| vec![Answer::Limit(Some(hard)), Answer::Done(Ok(()))];

    let mut early = group.clone();
    assert!(early.apply_inherited_limits(&vec![Answer::Limit(Some(7)), refused()], 0).is_err());
    assert_eq!(early.limits(), group.limits());

    let mut log = granted(7);
    log.extend([Answer::Limit(Some(5)), refused()]);
    let mut half = group.clone();
    assert!(half.apply_inherited_limits(&log, 0).is_err());
    assert_eq!(half.limits().max_file_size_bytes, 7);
    assert_eq!(half.limits().max_open_files, group.limits().max_open_files);

    let mut log = granted(7);
    log.extend(granted(5));
    log.extend([Answer::Limit(Some(0)), refused()]);
    let mut late = group.clone();
    assert!(late.apply_inherited_limits(&log, 0).is_err());
    assert_eq!(late.limits().max_file_size_bytes, 7);
    assert_eq!(late.limits().max_open_files, 5);
}

#[test]
fn the_clock_runs_to_the_nanosecond() {
    let mut host = sandbox_host();
    let wall_time = TimeSpan { nanoseconds: 1_500_001 };
    let limits = ResourceLimits { max_wall_time: wall_time, ..ResourceLimits::default() };
    let group = host.drive(|log| ResourceGroup::prepare(&limits, log, 0)).expect("a group");
    assert_eq!(group.limits().max_wall_time, wall_time);
    let asked = wait_for_child(1, &group, group.limits().max_wall_time, &Vec::new(), 0);
    assert!(matches!(
        asked,
        Err(Halt::Ask(Question::StartTimer(Timer::Wall, TimeSpan { nanoseconds: 1_500_001 })))
    ));
}

#[test]
fn a_failed_preflight_ends_the_run() {
    let mut host = sandbox_host();
    host.scripts.push_back(finished(0, "something else\n"));
    let error = run_shell(&mut host, "true", ResourceLimits::default()).expect_err("no preflight");
    assert!(error.to_string().contains("remedy:"), "{}", error.to_string());
    assert_eq!(host.spawned.len(), 1);
}

#[test]
fn floods_of_output_are_cut_off() {
    let mut host = sandbox_host();
    host.scripts.push_back(finished(0, PREFLIGHT));
    host.scripts.push_back(Script { flood: true, ..finished(0, "") });
    assert!(run_shell(&mut host, "yes", ResourceLimits::default()).is_err());
    assert_eq!(host.spawned.len(), 2);
}

#[test]
fn a_child_that_cannot_start_leaves_no_group_behind() {
    let mut host = sandbox_host();
    assert!(run_shell(&mut host, "true", ResourceLimits::default()).is_err());
    assert!(host.removed.iter().any(|name| name.starts_with("/sys/fs/cgroup/user.slice/")));
}

#[test]
fn runs_need_a_shell_and_a_delegated_group() {
    let mut host = sandbox_host();
    host.nodes.remove("/bin/bash");
    let error = run_shell(&mut host, "true", ResourceLimits::default()).expect_err("no Bash");
    assert!(error.to_string().contains("/bin/bash"), "{}", error.to_string());
    let mut alone = sandbox_host();
    for group in ["", "/user.slice"] {
        alone.file(&format!("/sys/fs/cgroup{group}/cgroup.subtree_control"), "");
    }
    let error = run_shell(&mut alone, "true", ResourceLimits::default()).expect_err("no group");
    assert!(error.to_string().contains("delegate"), "{}", error.to_string());
    assert!(alone.spawned.is_empty());
}

#[test]
fn old_bubblewrap_is_refused() {
    let mut host = sandbox_host();
    let backend = host.drive(|log| LinuxSandbox::new(log, 0)).expect("a backend");
    assert_eq!(backend.bwrap, text("/usr/bin/bwrap"));
    assert_eq!(backend.launcher, text(LAUNCHER));
    host.bwrap_version = String::from("bubblewrap 0.11.9\n");
    let error = host.drive(|log| LinuxSandbox::new(log, 0)).expect_err("too old");
    assert!(matches!(error, CageError::BackendUnavailable(_)));
    host.bwrap_version = String::from("nothing\n");
    assert!(host.drive(|log| bwrap_version(&text("/usr/bin/bwrap"), log, 0)).is_err());
}

#[test]
fn bubblewrap_is_found_on_the_search_path_or_by_name() {
    let mut host = sandbox_host();
    assert_eq!(host.drive(|log| find_bwrap(log, 0)).expect("bwrap"), text("/usr/bin/bwrap"));
    host.variable("CARGO_CAGE_BWRAP", "relative/bwrap");
    assert!(host.drive(|log| find_bwrap(log, 0)).is_err());
    let mut none = Host::new();
    none.nodes.remove("/usr/bin/bwrap");
    assert!(none.drive(|log| find_bwrap(log, 0)).is_err());
}

#[test]
fn namespaces_of_the_parent_are_noted() {
    let mut host = Host::new();
    let markers = host.drive(|log| parent_namespace_markers(log, 0)).expect("markers");
    assert_eq!(markers.len(), 6);
    assert_eq!(markers[0], text("mnt:[4026531840]"));
    assert_eq!(markers[5], text("net:[4026531840]"));
}

#[test]
fn groups_are_fresh_and_within_the_request() {
    let mut host = sandbox_host();
    let limits = ResourceLimits { max_processes: 16, ..ResourceLimits::default() };
    let group = host.drive(|log| ResourceGroup::prepare(&limits, log, 0)).expect("a group");
    assert_eq!(group.restore, text("/sys/fs/cgroup/user.slice/app"));
    assert!(group.path.starts_with(&text("/sys/fs/cgroup/user.slice")));
    assert_eq!(group.path.file_name(), Some(text("cargo-cage-run-1")));
    assert_eq!(group.limits().max_processes, 16);
    assert!(group.limits().max_memory_bytes <= limits.max_memory_bytes);
    assert!(host.holds(&group.path.display()));
    let report = host
        .drive(|log| group.clone().finish(log, 0))
        .expect("a report");
    assert!(report.resource_error(&Exit { code: Some(0), signal: None }, false).is_none());
    assert!(!host.holds(&group.path.display()));
    assert_eq!(
        host.drive(|log| find_cgroup2_mount(log, 0)).expect("a hierarchy"),
        text("/sys/fs/cgroup")
    );
}

#[test]
fn plans_keep_the_policy() {
    let mut host = sandbox_host();
    host.directory("/home/user/.ssh");
    let mut request = SandboxRequest::new(&text("/bin/true"), &text("/work/project"));
    request.policy.writable_paths = words(&["/work/project/target"]);
    request.policy.hidden_paths = words(&["/home/user/.ssh", "/home/user/.missing"]);
    request.policy.private_paths = words(&["/tmp"]);
    request.policy.read_only_paths = words(&["/work/project"]);
    let plan = host.drive(|log| SandboxPlan::from_request(&request, log, 0)).expect("plan");
    assert_eq!(plan.writable_paths, words(&["/work/project/target"]));
    assert_eq!(plan.hidden_paths.len(), 1);
    assert!(matches!(
        &plan.hidden_paths[0],
        MaskPath::Directory(path) if *path == text("/home/user/.ssh")
    ));
    assert!(plan.private_paths.contains(&text("/run")));
    assert_eq!(plan.network, NetworkAccess::Deny);
    assert!(plan.runtime_mounts.iter().any(|mount| mount.destination == text("/usr")));
    assert!(!plan.runtime_mounts.iter().any(|mount| mount.destination == text("/")));
    request.policy.writable_paths = words(&["/home/user"]);
    let error = host
        .drive(|log| SandboxPlan::from_request(&request, log, 0))
        .expect_err("the hidden path would be exposed");
    assert!(error.to_string().contains("re-expose"));
}

#[test]
fn hidden_links_mask_what_they_lead_to() {
    let mut host = Host::new();
    host.file("/home/user/key", "secret");
    host.link("/home/user/link", "/home/user/key");
    host.link("/home/user/all", "/");
    let mask = host.drive(|log| make_mask(&text("/home/user/link"), log, 0)).expect("mask");
    assert!(matches!(mask, Some(MaskPath::File(path)) if path == text("/home/user/key")));
    assert!(host.drive(|log| make_mask(&text("/home/user/none"), log, 0)).expect("mask").is_none());
    assert!(host.drive(|log| make_mask(&text("/home/user/all"), log, 0)).is_err());
}

#[test]
fn mount_sources_are_opened_and_checked() {
    let mut host = Host::new();
    let (source, shown) = (text("/work/project"), text("/workspace"));
    let mount = host
        .drive(|log| add_fd_mount(&source, &shown, MountKind::Directory, "workspace", log, 0))
        .expect("a mount");
    assert!(matches!(mount, MountArgument { source: MountSource::Fd(_), .. }));
    assert_eq!(mount.destination, shown);
    assert!(host
        .drive(|log| add_fd_mount(&source, &shown, MountKind::File, "workspace", log, 0))
        .is_err());
}

#[test]
fn the_launcher_context_is_a_nameless_file() {
    let mut host = Host::new();
    let context = host.drive(|log| LauncherContext::new(log, 0)).expect("a context");
    assert!(context.raw_fd() >= 3);
    assert!(host.removed.iter().any(|name| name.starts_with("/tmp/")));
}

// ---------------------------------------------------------------------------
// The launcher
// ---------------------------------------------------------------------------

fn launch(host: &mut Host) -> Result<Exit, CageError> {
    let args = words(&[READ_ARGS, "/usr", NETWORK_DENY_ARGS, "--", "/bin/sh", "-c", "exit 3"]);
    host.drive(|log| run_internal_launcher(&args, log, 0))
}

#[test]
fn programs_are_started_only_after_the_restriction() {
    let mut host = Host::new();
    host.file("/run/cargo-cage-launcher-context", "cargo-cage-launcher-context\n");
    let exit = launch(&mut host).expect("a run");
    assert_eq!(exit.code, Some(3));
    assert_eq!(host.restricted, vec![1]);
    assert_eq!(host.programs, vec![String::from("/bin/sh")]);
}

#[test]
fn the_launcher_works_inside_the_sandbox_only() {
    let mut host = Host::new();
    assert!(launch(&mut host).is_err());
    host.file("/run/cargo-cage-launcher-context", "forged\n");
    assert!(launch(&mut host).is_err());
    assert!(host.restricted.is_empty());
    assert!(host.programs.is_empty());
}

#[test]
fn the_launcher_needs_a_recent_kernel() {
    let mut host = Host::new();
    host.file("/run/cargo-cage-launcher-context", "cargo-cage-launcher-context\n");
    host.support = LandlockSupport { filesystem_abi: Abi::V4, scope_supported: false };
    let error = launch(&mut host).expect_err("an old kernel");
    assert!(error.to_string().contains("ABI 5"), "{}", error.to_string());
    assert!(host.programs.is_empty());
}

// ---------------------------------------------------------------------------
// Fixtures, the red-team runner and the local check
// ---------------------------------------------------------------------------

#[test]
fn fixtures_are_copied_to_a_directory_of_their_own() {
    let mut host = Host::new();
    host.file("/kit/fixtures/simple/Cargo.toml", "[package]\n");
    host.file("/kit/fixtures/simple/src/main.rs", "fn main() {}\n");
    let fixture = host
        .drive(|log| materialize(&text("/kit"), "simple", log, 0))
        .expect("a fixture")
        .expect("a copy");
    assert_eq!(*fixture.path(), text("/tmp/cargo-cage-fixture-run-1"));
    let copied = fixture.file(&text("src/main.rs")).display();
    assert_eq!(host.read(&copied).expect("a copied file"), "fn main() {}\n");
    assert!(host
        .drive(|log| materialize(&text("/kit"), "missing", log, 0))
        .expect("a reply")
        .is_err());
    host.nodes.insert(String::from("/kit/fixtures/simple/src/null"), Node::Device);
    let refused = host
        .drive(|log| materialize(&text("/kit"), "simple", log, 0))
        .expect("a reply")
        .unwrap_err();
    assert_eq!(refused.kind, IoKind::Unsupported);
    assert_eq!(
        refused.message,
        "unsupported fixture entry: /kit/fixtures/simple/src/null"
    );
}

#[test]
fn directories_beside_a_fixture_are_cleaned_up() {
    let mut host = Host::new();
    host.directory("/tmp/fixture");
    let made = host
        .drive(|log| {
            let mut fixture = Fixture { root: text("/tmp/fixture"), cleanup_paths: Vec::new() };
            let (reply, at) = fixture.temporary_dir("outside", log, 0)?;
            Ok(((reply, fixture.leftovers()), at))
        })
        .expect("a directory");
    let directory = made.0.expect("a new directory");
    assert!(!directory.starts_with(&text("/tmp/fixture")));
    assert!(made.1.contains(&directory));
    assert!(made.1.contains(&text("/tmp/fixture")));
}

fn observation(succeeded: bool, stdout: &str) -> redteam::Observation {
    redteam::Observation {
        succeeded,
        stdout: stdout.as_bytes().to_vec(),
        stderr: Vec::new(),
    }
}

#[test]
fn cases_pass_only_when_they_were_held_back() {
    let held = observation(false, "CAGE_POLICY_DENIED: write\n");
    let judge = |before: &str, seen: &redteam::Observation| {
        redteam::expect_denied("case", b"before", before.as_bytes(), seen)
    };
    assert!(judge("before", &held).is_ok());
    assert_eq!(
        judge("after", &held).unwrap_err(),
        "case: attack changed the external sentinel"
    );
    assert!(judge("before", &observation(false, "broken\n")).is_err());
    assert!(judge("before", &observation(true, "CAGE_POLICY_DENIED: write\n")).is_err());
    let through = observation(false, "CAGE_POLICY_DENIED\nCAGE_POLICY_BYPASSED: read\n");
    assert_eq!(
        judge("before", &through).unwrap_err(),
        "case: black-box attack: CAGE_POLICY_BYPASSED: read"
    );
    let secrets = vec![String::from("hunter2")];
    let leaked = observation(false, "CAGE_POLICY_DENIED hunter2\n");
    assert!(redteam::expect_denied_with_secrets("case", b"", b"", &secrets, &leaked).is_err());
    assert!(redteam::has_policy_context("sandbox policy error; remedy: none"));
    assert!(!redteam::has_policy_context("sandbox policy error"));
}

#[test]
fn ordinary_builds_and_swaps_are_judged() {
    assert!(redteam::judge_build("case", &observation(true, ""), true, true).is_ok());
    assert!(redteam::judge_build("case", &observation(true, ""), true, false).is_err());
    assert!(redteam::judge_build("case", &observation(true, ""), false, true).is_err());
    assert!(redteam::judge_build("case", &observation(false, ""), true, true).is_err());
    let held = observation(false, "CAGE_POLICY_DENIED\n");
    assert!(redteam::judge_swap("case", &held, redteam::SENTINEL.as_bytes()).is_ok());
    assert!(redteam::judge_swap("case", &held, b"changed").is_err());
}

#[test]
fn special_cases_have_words_of_their_own() {
    let held = observation(false, "CAGE_POLICY_DENIED\n");
    let secrets = vec![String::from("hunter2")];
    assert!(redteam::judge_environment("env", &secrets, &held).is_ok());
    let leaked = observation(false, "CAGE_POLICY_DENIED hunter2\n");
    assert_eq!(
        redteam::judge_environment("env", &secrets, &leaked).unwrap_err(),
        "env: environment attack leaked a secret value in output"
    );
    assert!(redteam::judge_descriptor("fd", b"a", b"a", &secrets, &held).is_ok());
    assert_eq!(
        redteam::judge_descriptor("fd", b"a", b"b", &secrets, &held).unwrap_err(),
        "fd: inherited-FD attack changed the external sentinel"
    );
    assert!(redteam::judge_network(Ok(()), false).is_ok());
    assert!(redteam::judge_network(Ok(()), true).is_err());
    assert!(redteam::judge_hardlink(Ok(()), b"a", b"a").is_ok());
    assert_eq!(
        redteam::judge_hardlink(Ok(()), b"a", b"b").unwrap_err(),
        "target hardlink attack changed Cargo.toml"
    );
    let first = redteam::judge_hardlink(Err(String::from("first")), b"a", b"b");
    assert_eq!(first.unwrap_err(), "first");
    assert!(redteam::judge_seed("seed", &observation(true, "")).is_ok());
    assert!(redteam::judge_seed("seed", &held).is_err());
}

#[test]
fn the_runner_reads_its_options() {
    let config = redteam::parse_config(&words(&["--cargo-cage", "/cage", "--iterations", "3"]))
        .expect("options");
    assert_eq!(config.cargo_cage, text("/cage"));
    assert_eq!(config.iterations, 3);
    assert!(!config.keep);
    let none = words(&["--cargo-cage", "/cage", "--iterations", "0"]);
    assert!(redteam::parse_config(&none).is_err());
    assert!(redteam::parse_config(&Vec::new()).is_err());
    assert!(redteam::parse_config(&words(&["--other"])).is_err());
}

#[test]
fn cases_run_with_homes_of_their_own() {
    let case = redteam::Case::new("reads", &text("/tmp/case"), &text("/cage"));
    assert_eq!(case.workspace, text("/tmp/case/workspace"));
    let command = case.base_command(&None);
    assert_eq!(command.program, text("/cage"));
    assert!(command.args.contains(&text("build")));
    assert!(command.set.contains(&(text("HOME"), text("/tmp/case/home"))));
    let reuse = case.base_reuse_command(&Some(text("/rustup")));
    assert!(reuse.args.contains(&text("--reuse-target")));
    let script = redteam::write_build_script("    denied(\"all\");");
    assert!(script.starts_with(redteam::BUILD_HEADER));
    assert!(script.ends_with("\nfn main() {\n    denied(\"all\");\n}\n"));
}

#[test]
fn the_runner_finds_its_tools_and_files() {
    let mut host = Host::new();
    host.file("/cage/bin/cargo-cage", "");
    host.file("/cage/deep/down/marker", "");
    let found = host
        .drive(|log| redteam::find_file(&text("/cage"), &text("marker"), log, 0))
        .expect("a search");
    assert!(found);
    let absent = host
        .drive(|log| redteam::find_file(&text("/cage"), &text("nothing"), log, 0))
        .expect("a search");
    assert!(!absent);
    let tools = host.drive(|log| redteam::require_tools(log, 0)).expect("a check");
    assert!(tools.unwrap_err().contains("/usr/bin/unshare"));
    for tool in ["unshare", "nsenter", "mount", "mknod", "python3"] {
        host.file(&format!("/usr/bin/{tool}"), "");
    }
    assert!(host.drive(|log| redteam::require_tools(log, 0)).expect("a check").is_ok());
}

fn workflow() -> String {
    let mut lines = vec![
        String::from("- \"v*.*.*\""),
        String::from("id-token: write"),
        String::from("name: Dry-run packages without registry credentials"),
        String::from("cargo publish --locked --package \"$package\" --dry-run"),
        String::from("name: Authenticate with crates.io"),
        format!("uses: {}", release::AUTH_ACTION),
        String::from("name: Publish packages in dependency order"),
        String::from(release::REGISTRY_TOKEN_OUTPUT),
        String::from("gh api --include"),
        String::from("--json isDraft"),
        String::from("immutable releases must never be edited or moved"),
    ];
    for package in ["cargo-cage-core", "cargo-cage-cargo", "cargo-cage-linux", "cargo-cage"] {
        lines.push(format!("cargo publish --locked --package {package} --no-verify"));
        lines.push(format!("cargo publish --locked --package {package} --dry-run"));
    }
    lines.join("\n")
}

#[test]
fn release_workflows_use_short_lived_tokens() {
    assert_eq!(release::check_workflow(&workflow()), Ok(()));
    let secret = format!("{}\nsecrets.CARGO_REGISTRY_TOKEN", workflow());
    assert!(release::check_workflow(&secret).unwrap_err().contains("long-lived"));
    let twice = format!("{}\nid-token: write", workflow());
    assert!(release::check_workflow(&twice).unwrap_err().contains("exactly"));
    let moving = format!("{}\n- \"v*\"", workflow());
    assert!(release::check_workflow(&moving).unwrap_err().contains("semver"));
    let missing = workflow().replace("cargo-cage-linux --no-verify", "");
    assert!(release::check_workflow(&missing).unwrap_err().contains("cargo-cage-linux"));
}

#[test]
fn the_local_check_reads_its_options() {
    assert_eq!(
        release::parse_args(&Vec::new()),
        Ok(release::CheckMode::Run { require_linux: false })
    );
    assert_eq!(
        release::parse_args(&words(&["--require-linux"])),
        Ok(release::CheckMode::Run { require_linux: true })
    );
    assert!(release::parse_args(&words(&["--nothing"])).is_err());
}

#[test]
fn the_local_check_stops_at_the_first_failure() {
    let mut host = Host::new();
    host.directory("/repo/tools/ci-check");
    let here = text("/repo/tools/ci-check");
    let reply = host
        .drive(|log| release::run_checks(&here, true, false, log, 0))
        .expect("a check");
    assert!(reply.unwrap_err().contains("release.yml"));
    assert!(host.steps.is_empty());
    host.file("/repo/.github/workflows/release.yml", &workflow());
    let reply = host
        .drive(|log| release::run_checks(&here, false, true, log, 0))
        .expect("a check");
    assert!(reply.is_err());
    assert!(host.steps[0].starts_with("cargo "), "{:?}", host.steps);
    assert!(host.told.iter().any(|line| line.ends_with(": release workflow policy: ok")));
}

#[test]
fn inherited_descriptors_are_offered_by_a_shell() {
    let case = redteam::Case::new("fd", &text("/tmp/case"), &text("/cage"));
    let command = case.run_with_fd(&text("/tmp/case/external/secret"));
    assert_eq!(command.program, text("/bin/sh"));
    assert_eq!(command.args[0], text("-c"));
    assert_eq!(command.args[3], text("/tmp/case/external/secret"));
    assert_eq!(command.args[4], text("/cage"));
    assert!(command.remove.contains(&text("CARGO_CAGE_BWRAP")));
}

#[test]
fn captured_commands_hand_over_their_output() {
    let mut host = Host::new();
    host.scripts.push_back(finished(0, "said\n"));
    let command = || ChildCommand {
        program: text("/bin/echo"),
        args: words(&["said"]),
        set: Vec::new(),
        remove: Vec::new(),
        current_dir: text("/tmp"),
        output: OutputMode::Capture,
    };
    let output = host
        .drive(|log| capture_command_output(command(), log, 0))
        .expect("a flow")
        .expect("output");
    assert_eq!(output.stdout, b"said\n");
    assert_eq!(output.exit.code, Some(0));
    assert!(!output.expired);
    let refused = host.drive(|log| capture_command_output(command(), log, 0)).expect("a flow");
    assert_eq!(refused.unwrap_err().kind, IoKind::PermissionDenied);
}

#[test]
fn caches_are_mounted_by_their_names() {
    let mut host = sandbox_host();
    host.variable("CARGO_HOME", "/home/user/.cargo");
    host.directory("/home/user/.cargo/registry");
    host.file("/home/user/.cargo/credentials.toml", "secret");
    let request = SandboxRequest::new(&text("/bin/true"), &text("/work/project"));
    let plan = host.drive(|log| SandboxPlan::from_request(&request, log, 0)).expect("plan");
    assert_eq!(plan.cargo_cache_paths, words(&["/home/user/.cargo/registry"]));
    let mounts = host.drive(|log| path_mount_arguments(&plan, log, 0)).expect("mounts");
    assert_eq!(mounts.caches.len(), 1);
    assert_eq!(mounts.caches[0].destination, text("/run/cargo-cage-home/registry"));
}

#[test]
fn writable_trees_are_left_out_of_visible_ones() {
    let root = text("/work/project");
    let mut host = tree_host();
    host.links.insert(String::from("/work/project/target/debug/out"), 2);
    let none: Vec<OsText> = Vec::new();
    assert!(host.drive(|log| validate_read_only_tree(&root, &none, log, 0)).is_err());
    let left_out = words(&["/work/project/target"]);
    assert!(host.drive(|log| validate_read_only_tree(&root, &left_out, log, 0)).is_ok());
}

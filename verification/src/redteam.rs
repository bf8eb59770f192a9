//! The black-box runner: its command line, the commands that it starts and how
//! it judges what came of them.

use crate::backend::OutputMode;
use crate::error::IoFault;
use crate::flow;
use crate::flow::{
    Answer, Child, ChildCommand, Course, FileKind, Flow, Model, Names, Pause, Query, Question,
};
use crate::os;
use crate::os::{OsText, PathText};
use crate::path;
use crate::release;
use crate::scan;
use crate::text;
use crate::text::Compose;
use vstd::prelude::*;
use vstd::string::*;
use vstd::utf8::*;

verus! {

/// How the runner is called.
pub const USAGE: &'static str =
    "usage: cargo-cage-redteam --cargo-cage PATH [--iterations N] [--keep]";

/// What the sentinel outside the workspace holds.
pub const SENTINEL: &'static str = "redteam-sentinel-before";

/// The manifest of a case.
pub const CASE_MANIFEST: &'static str =
    "[package]\nname = \"cargo-cage-redteam-case\"\nversion = \"0.1.0\"\nedition = \"2024\"\nbuild = \"build.rs\"\n";

/// What every build script of a case begins with: how it reports that it was
/// held back, or that it was not.
pub const BUILD_HEADER: &'static str =
    "\nuse std::env;\nuse std::fs;\nuse std::net::{TcpStream, UdpSocket};\nuse std::os::unix::net::UnixStream;\nuse std::path::{Path, PathBuf};\nuse std::process::Command;\n\nfn bypass(message: &str) -> ! {\n    panic!(\"CAGE_POLICY_BYPASSED: {message}\");\n}\n\nfn denied(message: &str) -> ! {\n    panic!(\"CAGE_POLICY_DENIED: {message}\");\n}\n\nfn manifest_path(name: &str) -> PathBuf {\n    PathBuf::from(env::var_os(\"CARGO_MANIFEST_DIR\").expect(\"manifest directory\")).join(name)\n}\n";

// ---------------------------------------------------------------------------
// Arguments
// ---------------------------------------------------------------------------

/// What the runner is asked to do.
#[derive(Debug)]
pub struct Config {
    pub cargo_cage: PathText,
    pub iterations: u32,
    pub keep: bool,
}

/// What has been read of the arguments.
pub struct Settings {
    pub cargo_cage: Option<Seq<u8>>,
    pub iterations: u32,
    pub keep: bool,
}

/// What a `Config` holds.
pub struct Setup {
    pub cargo_cage: Seq<u8>,
    pub iterations: u32,
    pub keep: bool,
}

impl View for Config {
    type V = Setup;

    open spec fn view(&self) -> Setup {
        Setup { cargo_cage: self.cargo_cage@, iterations: self.iterations, keep: self.keep }
    }
}

pub open spec fn config_outcome(result: Result<Config, String>) -> Result<Setup, Seq<char>> {
    match result {
        Ok(config) => Ok(config@),
        Err(message) => Err(message@),
    }
}

/// A number of iterations.
pub open spec fn iteration_count(value: Seq<u8>) -> Result<u32, Seq<char>> {
    match scan::number(os::shown(value), u32::MAX as nat) {
        Err(_) => Err("--iterations must be a positive number"@),
        Ok(count) => if count == 0 {
            Err("--iterations must be positive"@)
        } else {
            Ok(count as u32)
        },
    }
}

/// What the arguments from `index` on ask for.
pub open spec fn config_from(args: Seq<Seq<u8>>, index: int, settings: Settings) -> Result<
    Setup,
    Seq<char>,
>
    decreases args.len() - index,
{
    if index < 0 || index >= args.len() {
        match settings.cargo_cage {
            Some(cargo_cage) => Ok(
                Setup { cargo_cage, iterations: settings.iterations, keep: settings.keep },
            ),
            None => Err("--cargo-cage is required"@),
        }
    } else if !valid_utf8(args[index]) {
        Err("arguments must be valid UTF-8"@)
    } else {
        let argument = decode_utf8(args[index]);
        if argument == "--cargo-cage"@ {
            if index + 1 < args.len() {
                config_from(
                    args,
                    index + 2,
                    Settings { cargo_cage: Some(args[index + 1]), ..settings },
                )
            } else {
                Err("--cargo-cage needs a path"@)
            }
        } else if argument == "--iterations"@ {
            if index + 1 < args.len() {
                match iteration_count(args[index + 1]) {
                    Ok(iterations) => config_from(
                        args,
                        index + 2,
                        Settings { iterations, ..settings },
                    ),
                    Err(message) => Err(message),
                }
            } else {
                Err("--iterations needs a number"@)
            }
        } else if argument == "--keep"@ {
            config_from(args, index + 1, Settings { keep: true, ..settings })
        } else if argument == "--help"@ || argument == "-h"@ {
            Err("help was already handled"@)
        } else {
            Err("unknown option "@ + argument)
        }
    }
}

/// What the arguments ask for.
pub open spec fn configured(args: Seq<Seq<u8>>) -> Result<Setup, Seq<char>> {
    config_from(args, 0, Settings { cargo_cage: None, iterations: 32, keep: false })
}

fn parse_iterations(value: &OsText) -> (count: Result<u32, String>)
    ensures
        match count {
            Ok(count) => iteration_count(value@) == Ok::<u32, Seq<char>>(count),
            Err(message) => iteration_count(value@) == Err::<u32, Seq<char>>(message@),
        },
{
    match scan::parse_number(value.display().as_str(), u32::MAX as u64) {
        Err(_) => Err(text::owned("--iterations must be a positive number")),
        Ok(count) => if count == 0 {
            Err(text::owned("--iterations must be positive"))
        } else {
            Ok(count as u32)
        },
    }
}

/// Reads the arguments of the runner.
pub fn parse_config(args: &Vec<OsText>) -> (config: Result<Config, String>)
    ensures
        config_outcome(config) == configured(os::texts(args@)),
{
    let ghost all = os::texts(args@);
    let mut cargo_cage: Option<PathText> = None;
    let mut iterations: u32 = 32;
    let mut keep = false;
    let mut index: usize = 0;
    while index < args.len()
        invariant
            index <= args.len(),
            all == os::texts(args@),
            configured(all) == config_from(
                all,
                index as int,
                Settings { cargo_cage: cargo_cage.model(), iterations, keep },
            ),
        decreases args.len() - index,
    {
        assert(all[index as int] == args[index as int]@);
        assert(index + 1 < args.len() ==> all[index + 1] == args[index + 1]@);
        let argument = match args[index].as_text() {
            Some(argument) => argument,
            None => return Err(text::owned("arguments must be valid UTF-8")),
        };
        if text::same_text(argument.as_str(), "--cargo-cage") {
            if args.len() - index < 2 {
                return Err(text::owned("--cargo-cage needs a path"));
            }
            cargo_cage = Some(args[index + 1].clone());
            index = index + 2;
        } else if text::same_text(argument.as_str(), "--iterations") {
            if args.len() - index < 2 {
                return Err(text::owned("--iterations needs a number"));
            }
            iterations = parse_iterations(&args[index + 1])?;
            index = index + 2;
        } else if text::same_text(argument.as_str(), "--keep") {
            keep = true;
            index = index + 1;
        } else if text::same_text(argument.as_str(), "--help") || text::same_text(
            argument.as_str(),
            "-h",
        ) {
            return Err(text::owned("help was already handled"));
        } else {
            return Err(text::owned("unknown option ").with(argument.as_str()));
        }
    }
    match cargo_cage {
        Some(cargo_cage) => Ok(Config { cargo_cage, iterations, keep }),
        None => Err(text::owned("--cargo-cage is required")),
    }
}

/// The executable that a runner works against.
#[verifier::opaque]
pub open spec fn located(config: Setup, log: Seq<Answer>, at: int) -> Course<
    Result<Seq<u8>, Seq<char>>,
> {
    match flow::place(Query::Resolve(config.cargo_cage), log, at) {
        Err(pause) => Err(pause),
        Ok((Err(failure), at)) => Ok(
            (
                Err(
                    "cannot resolve cargo-cage executable "@ + os::lossy_text(config.cargo_cage)
                        + ": "@ + failure.message,
                ),
                at,
            ),
        ),
        Ok((Ok(file), at)) => match flow::entry(Query::Follow(file), log, at) {
            Err(pause) => Err(pause),
            Ok((reply, at)) => if reply is Ok && reply->Ok_0.kind == FileKind::File {
                Ok((Ok(file), at))
            } else {
                Ok(
                    (
                        Err("cargo-cage path is not a regular file: "@ + os::lossy_text(file)),
                        at,
                    ),
                )
            },
        },
    }
}

/// A located executable, or why there is none.
pub struct Located {
    pub file: Result<PathText, String>,
}

impl Model for Located {
    type M = Result<Seq<u8>, Seq<char>>;

    open spec fn model(&self) -> Result<Seq<u8>, Seq<char>> {
        match self.file {
            Ok(file) => Ok(file@),
            Err(message) => Err(message@),
        }
    }
}

/// Finds the executable that the runner works against.
pub fn locate(config: &Config, log: &Vec<Answer>, at: usize) -> (file: Flow<Located>)
    ensures
        flow::course(file) == located(config@, log@, at as int),
{
    proof {
        reveal(located);
    }
    let (reply, at) = flow::ask_place(Question::Resolve(config.cargo_cage.clone()), log, at)?;
    let file = match reply {
        Ok(file) => file,
        Err(failure) => {
            let message = text::owned("cannot resolve cargo-cage executable ").with(
                config.cargo_cage.display().as_str(),
            ).with(": ").with(failure.message.as_str());
            return Ok((Located { file: Err(message) }, at));
        },
    };
    let (reply, at) = flow::ask_entry(Question::Follow(file.clone()), log, at)?;
    let there = match reply {
        Ok(stat) => stat.is_file(),
        Err(_) => false,
    };
    if there {
        return Ok((Located { file: Ok(file) }, at));
    }
    let message = text::owned("cargo-cage path is not a regular file: ").with(
        file.display().as_str(),
    );
    Ok((Located { file: Err(message) }, at))
}

/// The programs that a runner needs on the host.
pub open spec fn required_tools() -> Seq<Seq<char>> {
    seq![
        "/usr/bin/unshare"@,
        "/usr/bin/nsenter"@,
        "/usr/bin/mount"@,
        "/usr/bin/mknod"@,
        "/usr/bin/python3"@,
    ]
}

/// The tools from `index` on, all runnable.
pub open spec fn tools_from(tools: Seq<Seq<char>>, index: int, log: Seq<Answer>, at: int) -> Course<
    Result<(), Seq<char>>,
>
    decreases tools.len() - index,
{
    if index < 0 || index >= tools.len() {
        Ok((Ok(()), at))
    } else {
        match flow::holds(Query::Runnable(encode_utf8(tools[index])), log, at) {
            Err(pause) => Err(pause),
            Ok((true, at)) => tools_from(tools, index + 1, log, at),
            Ok((false, at)) => Ok(
                (
                    Err(
                        "red-team probe is not runnable: required attacker tool is missing: "@
                            + tools[index],
                    ),
                    at,
                ),
            ),
        }
    }
}

fn list_tools() -> (tools: Vec<String>)
    ensures
        scan::strings(tools@) == required_tools(),
{
    let mut tools: Vec<String> = Vec::new();
    scan::push_string(&mut tools, text::owned("/usr/bin/unshare"));
    scan::push_string(&mut tools, text::owned("/usr/bin/nsenter"));
    scan::push_string(&mut tools, text::owned("/usr/bin/mount"));
    scan::push_string(&mut tools, text::owned("/usr/bin/mknod"));
    scan::push_string(&mut tools, text::owned("/usr/bin/python3"));
    assert(scan::strings(tools@) =~= required_tools());
    tools
}

/// Refuses a host without the programs that the runner needs.
pub fn require_tools(log: &Vec<Answer>, at: usize) -> (checked: Flow<Result<(), String>>)
    ensures
        flow::course(checked) == tools_from(required_tools(), 0, log@, at as int),
{
    let tools = list_tools();
    let ghost all = required_tools();
    let ghost start = at as int;
    let mut used: usize = at;
    let mut index: usize = 0;
    while index < tools.len()
        invariant
            index <= tools.len(),
            all == scan::strings(tools@),
            all == required_tools(),
            start == at,
            tools_from(all, 0, log@, start) == tools_from(all, index as int, log@, used as int),
        decreases tools.len() - index,
    {
        assert(all[index as int] == tools[index as int]@);
        let (yes, next) = flow::ask_holds(
            Question::Runnable(OsText::new(tools[index].as_str())),
            log,
            used,
        )?;
        used = next;
        if !yes {
            return Ok(
                (
                    Err(
                        text::owned(
                            "red-team probe is not runnable: required attacker tool is missing: ",
                        ).with(tools[index].as_str()),
                    ),
                    used,
                ),
            );
        }
        index = index + 1;
    }
    Ok((Ok(()), used))
}

// ---------------------------------------------------------------------------
// Cases
// ---------------------------------------------------------------------------

/// The directories of a case.
#[derive(Debug)]
pub struct Case {
    pub name: String,
    pub root: PathText,
    pub workspace: PathText,
    pub home: PathText,
    pub cargo_home: PathText,
    pub external: PathText,
    pub sentinel: PathText,
    pub cargo_cage: PathText,
}

/// What a `Case` holds.
pub struct Scene {
    pub name: Seq<char>,
    pub root: Seq<u8>,
    pub workspace: Seq<u8>,
    pub home: Seq<u8>,
    pub cargo_home: Seq<u8>,
    pub external: Seq<u8>,
    pub sentinel: Seq<u8>,
    pub cargo_cage: Seq<u8>,
}

impl View for Case {
    type V = Scene;

    open spec fn view(&self) -> Scene {
        Scene {
            name: self.name@,
            root: self.root@,
            workspace: self.workspace@,
            home: self.home@,
            cargo_home: self.cargo_home@,
            external: self.external@,
            sentinel: self.sentinel@,
            cargo_cage: self.cargo_cage@,
        }
    }
}

/// The case of a name in a directory of its own.
pub open spec fn scene(name: Seq<char>, root: Seq<u8>, cargo_cage: Seq<u8>) -> Scene {
    let external = path::join(root, os::lit("external"));
    Scene {
        name,
        root,
        workspace: path::join(root, os::lit("workspace")),
        home: path::join(root, os::lit("home")),
        cargo_home: path::join(root, os::lit("cargo-home")),
        external,
        sentinel: path::join(external, os::lit("sentinel")),
        cargo_cage,
    }
}

/// The manifest of a case.
pub open spec fn case_manifest(scene: Scene) -> Seq<u8> {
    path::join(scene.workspace, os::lit("Cargo.toml"))
}

/// The environment of a case: homes of its own, and the host's toolchains.
pub open spec fn case_environment(scene: Scene, rustup_home: Option<Seq<u8>>) -> Seq<
    (Seq<u8>, Seq<u8>),
> {
    let own = seq![
        (os::lit("HOME"), scene.home),
        (os::lit("CARGO_HOME"), scene.cargo_home),
    ];
    match rustup_home {
        Some(home) => own.push((os::lit("RUSTUP_HOME"), home)),
        None => own,
    }
}

/// What a case does not take from the host.
pub open spec fn case_removals() -> Seq<Seq<u8>> {
    seq![
        os::lit("CARGO_TARGET_DIR"),
        os::lit("CARGO_BUILD_TARGET_DIR"),
        os::lit("CARGO_CAGE_BWRAP"),
    ]
}

/// The arguments of a build of a case.
pub open spec fn case_args(scene: Scene, reuse_target: bool) -> Seq<Seq<u8>> {
    let build = seq![os::lit("build"), os::lit("--manifest-path"), case_manifest(scene)];
    if reuse_target {
        seq![os::lit("--reuse-target")] + build
    } else {
        build
    }
}

/// The build of a case.
pub open spec fn case_command(
    scene: Scene,
    reuse_target: bool,
    rustup_home: Option<Seq<u8>>,
) -> Child {
    Child {
        program: scene.cargo_cage,
        args: case_args(scene, reuse_target),
        set: case_environment(scene, rustup_home),
        remove: case_removals(),
        current_dir: scene.workspace,
        output: OutputMode::Capture,
    }
}

/// The build of a case with a file open at a descriptor that must not survive.
pub open spec fn descriptor_command(scene: Scene, secret: Seq<u8>) -> Child {
    Child {
        program: os::lit("/bin/sh"),
        args: seq![
            os::lit("-c"),
            os::lit("exec 9<\"$1\"; shift; exec \"$@\""),
            os::lit("cargo-cage-redteam-fd"),
            secret,
            scene.cargo_cage,
        ] + case_args(scene, false),
        set: case_environment(scene, None),
        remove: case_removals(),
        current_dir: scene.workspace,
        output: OutputMode::Capture,
    }
}

/// A build script with a body.
pub open spec fn build_script(body: Seq<char>) -> Seq<char> {
    BUILD_HEADER@ + "\nfn main() {\n"@ + body + "\n}\n"@
}

/// The build script with a body.
pub fn write_build_script(body: &str) -> (script: String)
    ensures
        script@ == build_script(body@),
{
    text::owned(BUILD_HEADER).with("\nfn main() {\n").with(body).with("\n}\n")
}

fn list_environment(case: &Case, rustup_home: &Option<OsText>) -> (set: Vec<(OsText, OsText)>)
    ensures
        os::pairs(set@) == case_environment(case@, rustup_home.model()),
{
    let mut set: Vec<(OsText, OsText)> = Vec::new();
    os::push_pair(&mut set, OsText::new("HOME"), case.home.clone());
    os::push_pair(&mut set, OsText::new("CARGO_HOME"), case.cargo_home.clone());
    assert(os::pairs(set@) =~= case_environment(case@, None));
    if let Some(home) = rustup_home {
        os::push_pair(&mut set, OsText::new("RUSTUP_HOME"), home.clone());
    }
    set
}

fn list_removals() -> (remove: Vec<OsText>)
    ensures
        os::texts(remove@) == case_removals(),
{
    let mut remove: Vec<OsText> = Vec::new();
    os::push_lit(&mut remove, "CARGO_TARGET_DIR");
    os::push_lit(&mut remove, "CARGO_BUILD_TARGET_DIR");
    os::push_lit(&mut remove, "CARGO_CAGE_BWRAP");
    assert(os::texts(remove@) =~= case_removals());
    remove
}

fn push_case_args(args: &mut Vec<OsText>, case: &Case, reuse_target: bool)
    ensures
        os::texts(final(args)@) == os::texts(old(args)@) + case_args(case@, reuse_target),
{
    if reuse_target {
        os::push_lit(args, "--reuse-target");
    }
    os::push_lit(args, "build");
    os::push_lit(args, "--manifest-path");
    os::push_text(args, &case.workspace.join_text("Cargo.toml"));
    assert(os::texts(args@) =~= os::texts(old(args)@) + case_args(case@, reuse_target));
}

impl Case {
    /// The case of a name in a directory of its own.
    pub fn new(name: &str, root: &PathText, cargo_cage: &PathText) -> (case: Case)
        ensures
            case@ == scene(name@, root@, cargo_cage@),
    {
        let external = root.join_text("external");
        Case {
            name: text::owned(name),
            root: root.clone(),
            workspace: root.join_text("workspace"),
            home: root.join_text("home"),
            cargo_home: root.join_text("cargo-home"),
            sentinel: external.join_text("sentinel"),
            external,
            cargo_cage: cargo_cage.clone(),
        }
    }

    fn command(&self, reuse_target: bool, rustup_home: &Option<OsText>) -> (command: ChildCommand)
        ensures
            command@ == case_command(self@, reuse_target, rustup_home.model()),
    {
        let mut args: Vec<OsText> = Vec::new();
        push_case_args(&mut args, self, reuse_target);
        assert(os::texts(args@) =~= case_args(self@, reuse_target));
        ChildCommand {
            program: self.cargo_cage.clone(),
            args,
            set: list_environment(self, rustup_home),
            remove: list_removals(),
            current_dir: self.workspace.clone(),
            output: OutputMode::Capture,
        }
    }

    /// The build of the case.
    pub fn base_command(&self, rustup_home: &Option<OsText>) -> (command: ChildCommand)
        ensures
            command@ == case_command(self@, false, rustup_home.model()),
    {
        self.command(false, rustup_home)
    }

    /// The build of the case with the target directory of earlier builds.
    pub fn base_reuse_command(&self, rustup_home: &Option<OsText>) -> (command: ChildCommand)
        ensures
            command@ == case_command(self@, true, rustup_home.model()),
    {
        self.command(true, rustup_home)
    }

    /// The build of the case with a file open at a descriptor that must not
    /// survive.
    pub fn run_with_fd(&self, secret: &PathText) -> (command: ChildCommand)
        ensures
            command@ == descriptor_command(self@, secret@),
    {
        let mut args: Vec<OsText> = Vec::new();
        os::push_lit(&mut args, "-c");
        os::push_lit(&mut args, "exec 9<\"$1\"; shift; exec \"$@\"");
        os::push_lit(&mut args, "cargo-cage-redteam-fd");
        os::push_text(&mut args, secret);
        os::push_text(&mut args, &self.cargo_cage);
        push_case_args(&mut args, self, false);
        assert(os::texts(args@) =~= descriptor_command(self@, secret@).args);
        ChildCommand {
            program: OsText::new("/bin/sh"),
            args,
            set: list_environment(self, &None),
            remove: list_removals(),
            current_dir: self.workspace.clone(),
            output: OutputMode::Capture,
        }
    }
}

// ---------------------------------------------------------------------------
// Verdicts
// ---------------------------------------------------------------------------

/// What a command left behind.
#[derive(Debug)]
pub struct Observation {
    pub succeeded: bool,
    pub stdout: Vec<u8>,
    pub stderr: Vec<u8>,
}

/// What an `Observation` holds.
pub struct Observed {
    pub succeeded: bool,
    pub stdout: Seq<u8>,
    pub stderr: Seq<u8>,
}

impl Observed {
    /// All that was printed.
    pub open spec fn text(self) -> Seq<char> {
        os::lossy_text(self.stdout) + os::lossy_text(self.stderr)
    }
}

impl View for Observation {
    type V = Observed;

    open spec fn view(&self) -> Observed {
        Observed {
            succeeded: self.succeeded,
            stdout: self.stdout@,
            stderr: self.stderr@,
        }
    }
}

/// All that a command printed.
pub fn output_text(observation: &Observation) -> (text: String)
    ensures
        text@ == observation@.text(),
{
    os::lossy(observation.stdout.as_slice()).with(
        os::lossy(observation.stderr.as_slice()).as_str(),
    )
}

/// Whether output shows that the sandbox itself held something back.
pub open spec fn shows_policy(text: Seq<char>) -> bool {
    scan::occurs(text, "CAGE_POLICY_DENIED"@) || ((scan::occurs(text, "sandbox policy error"@)
        || scan::occurs(text, "sandbox setup failed"@)) && scan::occurs(text, "remedy:"@))
}

pub fn has_policy_context(text: &str) -> (yes: bool)
    ensures
        yes == shows_policy(text@),
{
    scan::contains(text, "CAGE_POLICY_DENIED") || ((scan::contains(text, "sandbox policy error")
        || scan::contains(text, "sandbox setup failed")) && scan::contains(text, "remedy:"))
}

/// Whether a command got through where it should have been held back.
pub open spec fn got_through(observed: Observed) -> bool {
    observed.succeeded || scan::occurs(observed.text(), "CAGE_POLICY_BYPASSED"@)
}

/// The first line from `index` on that reports a command which got through.
pub open spec fn bypass_line(lines: Seq<Seq<char>>, index: int) -> Seq<char>
    decreases lines.len() - index,
{
    if index < 0 || index >= lines.len() {
        "unexpected successful or unsafe process result"@
    } else if scan::occurs(lines[index], "CAGE_POLICY_BYPASSED"@) {
        lines[index]
    } else {
        bypass_line(lines, index + 1)
    }
}

/// A complaint about a case.
pub open spec fn case_complaint(name: Seq<char>, message: Seq<char>) -> Seq<char> {
    name + ": "@ + message
}

/// A complaint about the output of a case.
pub open spec fn output_complaint(name: Seq<char>, message: Seq<char>, text: Seq<char>) -> Seq<
    char,
> {
    name + ": "@ + message + ": "@ + bypass_line(scan::lines(text), 0)
}

pub fn fail_case(name: &str, message: &str) -> (complaint: Result<(), String>)
    ensures
        release::complaint(complaint) == Some(case_complaint(name@, message@)),
{
    Err(text::owned(name).with(": ").with(message))
}

fn find_bypass_line(text: &str) -> (line: String)
    ensures
        line@ == bypass_line(scan::lines(text@), 0),
{
    let list = scan::split_lines(text);
    let ghost all = scan::lines(text@);
    let mut index: usize = 0;
    while index < list.len()
        invariant
            index <= list.len(),
            all == scan::strings(list@),
            all == scan::lines(text@),
            bypass_line(all, 0) == bypass_line(all, index as int),
        decreases list.len() - index,
    {
        assert(all[index as int] == list[index as int]@);
        if scan::contains(list[index].as_str(), "CAGE_POLICY_BYPASSED") {
            return list[index].clone();
        }
        index = index + 1;
    }
    text::owned("unexpected successful or unsafe process result")
}

pub fn fail_output(name: &str, message: &str, observation: &Observation) -> (complaint: Result<
    (),
    String,
>)
    ensures
        release::complaint(complaint) == Some(
            output_complaint(name@, message@, observation@.text()),
        ),
{
    let text = output_text(observation);
    Err(
        text::owned(name).with(": ").with(message).with(": ").with(
            find_bypass_line(text.as_str()).as_str(),
        ),
    )
}

/// Whether one of some secrets stands in a text.
pub open spec fn leaks(text: Seq<char>, secrets: Seq<Seq<char>>) -> bool {
    exists|i: int| 0 <= i < secrets.len() && scan::occurs(text, #[trigger] secrets[i])
}

fn find_leak(text: &str, secrets: &Vec<String>) -> (found: bool)
    ensures
        found == leaks(text@, scan::strings(secrets@)),
{
    let ghost all = scan::strings(secrets@);
    let mut index: usize = 0;
    while index < secrets.len()
        invariant
            index <= secrets.len(),
            all == scan::strings(secrets@),
            forall|i: int| 0 <= i < index ==> !scan::occurs(text@, #[trigger] all[i]),
        decreases secrets.len() - index,
    {
        assert(all[index as int] == secrets[index as int]@);
        if scan::contains(text, secrets[index].as_str()) {
            return true;
        }
        index = index + 1;
    }
    false
}

/// The words in which a verdict on a case is given.
#[derive(Debug)]
pub struct Wording {
    pub changed: String,
    pub leaked: String,
    pub unexplained: String,
    pub through: String,
}

/// What a `Wording` says.
pub struct Words {
    pub changed: Seq<char>,
    pub leaked: Seq<char>,
    pub unexplained: Seq<char>,
    pub through: Seq<char>,
}

impl View for Wording {
    type V = Words;

    open spec fn view(&self) -> Words {
        Words {
            changed: self.changed@,
            leaked: self.leaked@,
            unexplained: self.unexplained@,
            through: self.through@,
        }
    }
}

/// The verdict on a case that should have been held back: the sentinel is as it
/// was, no secret was printed, the sandbox explains itself, and nothing got
/// through.
pub open spec fn verdict(
    name: Seq<char>,
    words: Words,
    unchanged: bool,
    secrets: Seq<Seq<char>>,
    observed: Observed,
) -> Option<Seq<char>> {
    if !unchanged {
        Some(case_complaint(name, words.changed))
    } else if leaks(observed.text(), secrets) {
        Some(case_complaint(name, words.leaked))
    } else if !shows_policy(observed.text()) {
        Some(case_complaint(name, words.unexplained))
    } else if got_through(observed) {
        Some(output_complaint(name, words.through, observed.text()))
    } else {
        None
    }
}

/// Judges a case that should have been held back.
pub fn judge(
    name: &str,
    wording: &Wording,
    before: &[u8],
    after: &[u8],
    secrets: &Vec<String>,
    observation: &Observation,
) -> (judged: Result<(), String>)
    ensures
        release::complaint(judged) == verdict(
            name@,
            wording@,
            before@ == after@,
            scan::strings(secrets@),
            observation@,
        ),
{
    if !text::same_bytes(before, after) {
        return fail_case(name, wording.changed.as_str());
    }
    let text = output_text(observation);
    if find_leak(text.as_str(), secrets) {
        return fail_case(name, wording.leaked.as_str());
    }
    if !has_policy_context(text.as_str()) {
        return fail_case(name, wording.unexplained.as_str());
    }
    if observation.succeeded || scan::contains(text.as_str(), "CAGE_POLICY_BYPASSED") {
        return fail_output(name, wording.through.as_str(), observation);
    }
    Ok(())
}

/// The words for most cases.
pub open spec fn plain_words() -> Words {
    Words {
        changed: "attack changed the external sentinel"@,
        leaked: "attack leaked a secret value in process output"@,
        unexplained: "attack failed without a recognizable sandbox policy diagnostic"@,
        through: "black-box attack"@,
    }
}

/// Judges a case that should have been held back without printing any of some
/// secrets.
pub fn expect_denied_with_secrets(
    name: &str,
    before: &[u8],
    after: &[u8],
    secrets: &Vec<String>,
    observation: &Observation,
) -> (judged: Result<(), String>)
    ensures
        release::complaint(judged) == verdict(
            name@,
            plain_words(),
            before@ == after@,
            scan::strings(secrets@),
            observation@,
        ),
{
    let wording = Wording {
        changed: text::owned("attack changed the external sentinel"),
        leaked: text::owned("attack leaked a secret value in process output"),
        unexplained: text::owned("attack failed without a recognizable sandbox policy diagnostic"),
        through: text::owned("black-box attack"),
    };
    judge(name, &wording, before, after, secrets, observation)
}

/// Judges a case that should have been held back.
pub fn expect_denied(name: &str, before: &[u8], after: &[u8], observation: &Observation) -> (judged:
    Result<(), String>)
    ensures
        release::complaint(judged) == verdict(
            name@,
            plain_words(),
            before@ == after@,
            Seq::empty(),
            observation@,
        ),
{
    let none: Vec<String> = Vec::new();
    assert(scan::strings(none@) =~= Seq::empty());
    expect_denied_with_secrets(name, before, after, &none, observation)
}

/// The verdict on an ordinary build: it works, and in a target run of its own.
pub open spec fn build_verdict(
    name: Seq<char>,
    observed: Observed,
    in_target: bool,
    in_run: bool,
) -> Option<Seq<char>> {
    if !observed.succeeded {
        Some(output_complaint(name, "normal build"@, observed.text()))
    } else if !in_target {
        Some(case_complaint(name, "normal build did not produce its OUT_DIR artifact"@))
    } else if !in_run {
        Some(case_complaint(name, "normal build did not use an isolated target run"@))
    } else {
        None
    }
}

/// Judges an ordinary build.
pub fn judge_build(name: &str, observation: &Observation, in_target: bool, in_run: bool) -> (judged:
    Result<(), String>)
    ensures
        release::complaint(judged) == build_verdict(name@, observation@, in_target, in_run),
{
    if !observation.succeeded {
        return fail_output(name, "normal build", observation);
    }
    if !in_target {
        return fail_case(name, "normal build did not produce its OUT_DIR artifact");
    }
    if !in_run {
        return fail_case(name, "normal build did not use an isolated target run");
    }
    Ok(())
}

/// The verdict on a build whose target directory was exchanged under it.
pub open spec fn swap_verdict(name: Seq<char>, observed: Observed, sentinel: Seq<u8>) -> Option<
    Seq<char>,
> {
    if got_through(observed) {
        Some(output_complaint(name, "target symlink swap"@, observed.text()))
    } else if !shows_policy(observed.text()) {
        Some(
            case_complaint(
                name,
                "target symlink swap failed without a recognizable sandbox policy diagnostic"@,
            ),
        )
    } else if sentinel != os::lit(SENTINEL) {
        Some(case_complaint(name, "path-swap attack changed the external sentinel"@))
    } else {
        None
    }
}

/// Judges a build whose target directory was exchanged under it.
pub fn judge_swap(name: &str, observation: &Observation, sentinel: &[u8]) -> (judged: Result<
    (),
    String,
>)
    ensures
        release::complaint(judged) == swap_verdict(name@, observation@, sentinel@),
{
    let text = output_text(observation);
    if observation.succeeded || scan::contains(text.as_str(), "CAGE_POLICY_BYPASSED") {
        return fail_output(name, "target symlink swap", observation);
    }
    if !has_policy_context(text.as_str()) {
        return fail_case(
            name,
            "target symlink swap failed without a recognizable sandbox policy diagnostic",
        );
    }
    if !text::same_bytes(sentinel, SENTINEL.as_bytes()) {
        return fail_case(name, "path-swap attack changed the external sentinel");
    }
    Ok(())
}

/// The words for the case that offers secrets in the environment.
pub open spec fn environment_words() -> Words {
    Words {
        changed: "environment attack changed the external sentinel"@,
        leaked: "environment attack leaked a secret value in output"@,
        unexplained: "environment attack failed without a recognizable sandbox policy diagnostic"@,
        through: "environment attack"@,
    }
}

/// Judges the case that offers secrets in the environment. It never sees the
/// sentinel.
pub fn judge_environment(name: &str, secrets: &Vec<String>, observation: &Observation) -> (judged:
    Result<(), String>)
    ensures
        release::complaint(judged) == verdict(
            name@,
            environment_words(),
            true,
            scan::strings(secrets@),
            observation@,
        ),
{
    let wording = Wording {
        changed: text::owned("environment attack changed the external sentinel"),
        leaked: text::owned("environment attack leaked a secret value in output"),
        unexplained: text::owned(
            "environment attack failed without a recognizable sandbox policy diagnostic",
        ),
        through: text::owned("environment attack"),
    };
    let none: Vec<u8> = Vec::new();
    judge(name, &wording, none.as_slice(), none.as_slice(), secrets, observation)
}

/// The words for the case that inherits a file descriptor.
pub open spec fn descriptor_words() -> Words {
    Words {
        changed: "inherited-FD attack changed the external sentinel"@,
        leaked: "inherited-FD attack leaked the secret value in output"@,
        unexplained: "inherited-FD attack failed without a recognizable sandbox policy diagnostic"@,
        through: "inherited-FD attack"@,
    }
}

/// Judges the case that inherits a file descriptor.
pub fn judge_descriptor(
    name: &str,
    before: &[u8],
    after: &[u8],
    secrets: &Vec<String>,
    observation: &Observation,
) -> (judged: Result<(), String>)
    ensures
        release::complaint(judged) == verdict(
            name@,
            descriptor_words(),
            before@ == after@,
            scan::strings(secrets@),
            observation@,
        ),
{
    let wording = Wording {
        changed: text::owned("inherited-FD attack changed the external sentinel"),
        leaked: text::owned("inherited-FD attack leaked the secret value in output"),
        unexplained: text::owned(
            "inherited-FD attack failed without a recognizable sandbox policy diagnostic",
        ),
        through: text::owned("inherited-FD attack"),
    };
    judge(name, &wording, before, after, secrets, observation)
}

/// The verdict on the case that sends datagrams.
pub open spec fn network_verdict(judged: Option<Seq<char>>, arrived: bool) -> Option<Seq<char>> {
    if arrived {
        Some("network attack reached the host UDP listener"@)
    } else {
        judged
    }
}

/// Judges the case that sends datagrams: whatever came of it, none may arrive.
pub fn judge_network(judged: Result<(), String>, arrived: bool) -> (verdict: Result<(), String>)
    ensures
        release::complaint(verdict) == network_verdict(release::complaint(judged), arrived),
{
    if arrived {
        return Err(text::owned("network attack reached the host UDP listener"));
    }
    judged
}

/// The verdict on the case that links to its manifest.
pub open spec fn hardlink_verdict(judged: Option<Seq<char>>, unchanged: bool) -> Option<Seq<char>> {
    if judged is None && !unchanged {
        Some("target hardlink attack changed Cargo.toml"@)
    } else {
        judged
    }
}

/// Judges the case that links to its manifest: once it was held back, the
/// manifest must be as it was.
pub fn judge_hardlink(judged: Result<(), String>, before: &[u8], after: &[u8]) -> (verdict: Result<
    (),
    String,
>)
    ensures
        release::complaint(verdict) == hardlink_verdict(
            release::complaint(judged),
            before@ == after@,
        ),
{
    if judged.is_ok() && !text::same_bytes(before, after) {
        return Err(text::owned("target hardlink attack changed Cargo.toml"));
    }
    judged
}

/// The verdict on a build that leaves something behind for the next one.
pub open spec fn seed_verdict(name: Seq<char>, observed: Observed) -> Option<Seq<char>> {
    if observed.succeeded {
        None
    } else {
        Some(output_complaint(name, "target poisoning seed"@, observed.text()))
    }
}

/// Judges a build that leaves something behind for the next one.
pub fn judge_seed(name: &str, observation: &Observation) -> (judged: Result<(), String>)
    ensures
        release::complaint(judged) == seed_verdict(name@, observation@),
{
    if observation.succeeded {
        Ok(())
    } else {
        fail_output(name, "target poisoning seed", observation)
    }
}

/// How often the exchange of a target directory is tried at most.
pub open spec fn swap_limit(iterations: u32) -> u32 {
    if iterations < 16 {
        iterations
    } else {
        16
    }
}

/// How often the exchange of a target directory is tried.
pub fn swap_attempts(config: &Config) -> (attempts: u32)
    ensures
        attempts == swap_limit(config@.iterations),
{
    if config.iterations < 16 {
        config.iterations
    } else {
        16
    }
}

// ---------------------------------------------------------------------------
// Looking for artifacts
// ---------------------------------------------------------------------------

/// Whether a name is found among names from `index` on, or below them.
pub open spec fn found_among(
    directory: Seq<u8>,
    names: Seq<Seq<u8>>,
    index: int,
    name: Seq<u8>,
    log: Seq<Answer>,
    at: int,
) -> Course<bool>
    decreases log.len() - at, names.len() - index,
{
    if index < 0 || index >= names.len() {
        Ok((false, at))
    } else if names[index] == name {
        Ok((true, at))
    } else {
        let inner = path::join(directory, names[index]);
        match flow::entry(Query::Follow(inner), log, at) {
            Err(pause) => Err(pause),
            Ok((reply, seen)) => if reply is Ok && reply->Ok_0.kind == FileKind::Directory {
                match found_below(inner, name, log, seen) {
                    Err(pause) => Err(pause),
                    Ok((true, at)) => Ok((true, at)),
                    Ok((false, next)) => if at < next <= log.len() {
                        found_among(directory, names, index + 1, name, log, next)
                    } else {
                        Ok((false, next))
                    },
                }
            } else {
                found_among(directory, names, index + 1, name, log, seen)
            },
        }
    }
}

/// Whether a name is found anywhere below a directory. What cannot be read
/// holds nothing.
pub open spec fn found_below(
    directory: Seq<u8>,
    name: Seq<u8>,
    log: Seq<Answer>,
    at: int,
) -> Course<
    bool,
>
    decreases log.len() - at, 0int,
{
    match flow::names(Query::ReadDirectory(directory), log, at) {
        Err(pause) => Err(pause),
        Ok((Err(_), at)) => Ok((false, at)),
        Ok((Ok(list), listed)) => found_among(directory, list.names, 0, name, log, listed),
    }
}

/// Looks for a file name anywhere below a directory.
pub fn find_file(directory: &PathText, name: &OsText, log: &Vec<Answer>, at: usize) -> (found: Flow<
    bool,
>)
    ensures
        flow::course(found) == found_below(directory@, name@, log@, at as int),
        found is Ok ==> at < found->Ok_0.1 <= log.len(),
    decreases log.len() - at,
{
    let (reply, listed) = flow::ask_names(Question::ReadDirectory(directory.clone()), log, at)?;
    let list = match reply {
        Ok(list) => list,
        Err(_) => return Ok((false, listed)),
    };
    let ghost all = os::texts(list.names@);
    let mut used: usize = listed;
    let mut index: usize = 0;
    while index < list.names.len()
        invariant
            index <= list.names.len(),
            all == os::texts(list.names@),
            at < listed <= used <= log.len(),
            flow::names(Query::ReadDirectory(directory@), log@, at as int) == Ok::<
                (Result<Names, IoFault>, int),
                Pause,
            >((Ok(list.model()), listed as int)),
            found_among(directory@, all, 0, name@, log@, listed as int) == found_among(
                directory@,
                all,
                index as int,
                name@,
                log@,
                used as int,
            ),
        decreases list.names.len() - index,
    {
        assert(all[index as int] == list.names[index as int]@);
        if list.names[index].same(name) {
            return Ok((true, used));
        }
        let inner = directory.join(&list.names[index]);
        let (reply, next) = flow::ask_entry(Question::Follow(inner.clone()), log, used)?;
        let is_directory = match reply {
            Ok(stat) => stat.is_dir(),
            Err(_) => false,
        };
        if is_directory {
            let (found, next) = find_file(&inner, name, log, next)?;
            if found {
                return Ok((true, next));
            }
            used = next;
        } else {
            used = next;
        }
        index = index + 1;
    }
    Ok((false, used))
}

// ---------------------------------------------------------------------------
// Laws
// ---------------------------------------------------------------------------

/// A case passes only when the sentinel is as it was, nothing secret was
/// printed, the sandbox explained itself and the command did not succeed.
pub proof fn passed_cases_were_held_back(
    name: Seq<char>,
    words: Words,
    unchanged: bool,
    secrets: Seq<Seq<char>>,
    observed: Observed,
)
    ensures
        verdict(name, words, unchanged, secrets, observed) is None <==> unchanged && !leaks(
            observed.text(),
            secrets,
        ) && shows_policy(observed.text()) && !observed.succeeded && !scan::occurs(
            observed.text(),
            "CAGE_POLICY_BYPASSED"@,
        ),
{
}

/// The number of iterations is always positive.
pub proof fn iterations_are_positive(args: Seq<Seq<u8>>)
    requires
        configured(args) is Ok,
    ensures
        configured(args)->Ok_0.iterations > 0,
{
    lemma_iterations_from(args, 0, Settings { cargo_cage: None, iterations: 32, keep: false });
}

proof fn lemma_iterations_from(args: Seq<Seq<u8>>, index: int, settings: Settings)
    requires
        settings.iterations > 0,
        0 <= index,
    ensures
        config_from(args, index, settings) matches Ok(setup) ==> setup.iterations > 0,
    decreases args.len() - index,
{
    if index < args.len() {
        if index + 1 < args.len() {
            lemma_iterations_from(
                args,
                index + 2,
                Settings { cargo_cage: Some(args[index + 1]), ..settings },
            );
            if let Ok(iterations) = iteration_count(args[index + 1]) {
                lemma_number_bound(os::shown(args[index + 1]));
                lemma_iterations_from(args, index + 2, Settings { iterations, ..settings });
            }
        }
        lemma_iterations_from(args, index + 1, Settings { keep: true, ..settings });
    }
}

proof fn lemma_number_bound(s: Seq<char>)
    ensures
        scan::number(s, u32::MAX as nat) matches Ok(value) ==> value <= u32::MAX,
{
    lemma_number_from_bound(s, 0, 0);
    lemma_number_from_bound(s, 1, 0);
}

proof fn lemma_number_from_bound(s: Seq<char>, index: int, value: nat)
    requires
        value <= u32::MAX,
    ensures
        scan::number_from(s, index, value, u32::MAX as nat) matches Ok(number) ==> number
            <= u32::MAX,
    decreases s.len() - index,
{
    if 0 <= index < s.len() && scan::is_digit(s[index]) {
        let next = value * 10 + (s[index] as u32 - '0' as u32) as nat;
        if next <= u32::MAX {
            lemma_number_from_bound(s, index + 1, next);
        }
    }
}

} // verus!

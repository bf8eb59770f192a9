//! Running Cargo in the sandbox.

use crate::args;
use crate::args::{CargoCommand, CargoInvocation, Invocation};
use crate::backend::{Job, OutputMode, SandboxOutcome, SandboxRequest};
use crate::cargo_args;
use crate::cargo_args::Rewriting;
use crate::cargo_policy;
use crate::doctor;
use crate::flow;
use crate::flow::{Answer, Course, Flow, Halt, Model, Pause, Query, Question};
use crate::os;
use crate::os::{OsText, PathText};
use crate::path;
use crate::policy::{EnvironmentRules, PolicyRules};
use crate::scan;
use crate::target;
use crate::text;
use crate::text::Compose;
use crate::toolchain;
use crate::toolchain::{Kit, Toolchain};
use crate::workspace;
use vstd::prelude::*;
use vstd::string::*;

verus! {

/// How a command ended: the exit code, and the lines for the standard output
/// and for the error stream.
#[derive(Debug)]
pub struct Report {
    pub code: i32,
    pub output: Vec<String>,
    pub notices: Vec<String>,
}

/// What a `Report` says.
pub struct Verdict {
    pub code: i32,
    pub output: Seq<Seq<char>>,
    pub notices: Seq<Seq<char>>,
}

impl Model for Report {
    type M = Verdict;

    open spec fn model(&self) -> Verdict {
        Verdict {
            code: self.code,
            output: scan::strings(self.output@),
            notices: scan::strings(self.notices@),
        }
    }
}

/// The directory below which isolated target runs are kept.
pub open spec fn runs_directory(target: Seq<u8>) -> Seq<u8> {
    path::join(path::join(target, os::lit(".cargo-cage")), os::lit("runs"))
}

/// A target directory for one run only: created now, below the kept runs.
#[verifier::opaque]
pub open spec fn isolated_target(
    base: Seq<u8>,
    workspace: Seq<u8>,
    log: Seq<Answer>,
    at: int,
) -> Course<Seq<u8>> {
    match target::prepared_target(runs_directory(base), workspace, log, at) {
        Err(pause) => Err(pause),
        Ok((runs, at)) => match flow::value(Query::FreshName, log, at) {
            Err(pause) => Err(pause),
            Ok((None, at)) => Err(
                flow::setup_pause(
                    os::lossy_text(runs),
                    "every command needs a fresh target run"@,
                    "retry, or pass --reuse-target for a trusted workspace"@,
                    "no name for the target run is available"@,
                    at,
                ),
            ),
            Ok((Some(name), at)) => {
                let fresh = path::join(runs, name);
                match target::validated_target(fresh, workspace, log, at) {
                    Err(pause) => Err(pause),
                    Ok((fresh, at)) => match flow::done(Query::CreateDirectory(fresh), log, at) {
                        Err(pause) => Err(pause),
                        Ok((Err(failure), at)) => Err(
                            flow::io_pause(
                                "could not create isolated target run "@ + os::lossy_text(fresh),
                                failure,
                                at,
                            ),
                        ),
                        Ok((Ok(_), at)) => target::prepared_target(fresh, workspace, log, at),
                    },
                }
            },
        },
    }
}

/// Creates a target directory for one run only.
pub fn prepare_isolated_target(
    base: &PathText,
    workspace: &PathText,
    log: &Vec<Answer>,
    at: usize,
) -> (fresh: Flow<PathText>)
    ensures
        flow::course(fresh) == isolated_target(base@, workspace@, log@, at as int),
{
    proof {
        reveal(isolated_target);
    }
    let (runs, at) = target::prepare_target_dir(
        &base.join_text(".cargo-cage").join_text("runs"),
        workspace,
        log,
        at,
    )?;
    let (name, at) = flow::ask_value(Question::FreshName, log, at)?;
    let name = match name {
        Some(name) => name,
        None => {
            return Err(
                flow::setup_halt(
                    runs.display().as_str(),
                    "every command needs a fresh target run",
                    "retry, or pass --reuse-target for a trusted workspace",
                    "no name for the target run is available",
                    at,
                ),
            );
        },
    };
    let (fresh, at) = target::validate_target_dir(&runs.join(&name), workspace, log, at)?;
    let (reply, at) = flow::ask_done(Question::CreateDirectory(fresh.clone()), log, at)?;
    if let Err(failure) = reply {
        let context = text::owned("could not create isolated target run ").with(
            fresh.display().as_str(),
        );
        return Err(flow::io_halt(context.as_str(), &failure, at));
    }
    target::prepare_target_dir(&fresh, workspace, log, at)
}

/// The target of an isolated run is a directory that the host created for it:
/// one that already exists is never taken.
pub proof fn isolated_targets_are_created(
    base: Seq<u8>,
    workspace: Seq<u8>,
    log: Seq<Answer>,
    at: int,
)
    requires
        isolated_target(base, workspace, log, at) is Ok,
    ensures
        exists|fresh: Seq<u8>, place: int|
            {
                &&& (#[trigger] flow::done(Query::CreateDirectory(fresh), log, place)) is Ok
                &&& flow::done(Query::CreateDirectory(fresh), log, place)->Ok_0.0 is Ok
                &&& isolated_target(base, workspace, log, at) == target::prepared_target(
                    fresh,
                    workspace,
                    log,
                    place + 1,
                )
            },
{
    reveal(isolated_target);
    let runs = target::prepared_target(runs_directory(base), workspace, log, at)->Ok_0;
    let name = flow::value(Query::FreshName, log, runs.1)->Ok_0;
    let fresh = target::validated_target(
        path::join(runs.0, name.0->0),
        workspace,
        log,
        name.1,
    )->Ok_0;
    assert(flow::done(Query::CreateDirectory(fresh.0), log, fresh.1) is Ok);
}

/// The places that a build uses.
pub struct Places {
    pub current_dir: PathText,
    pub workspace: PathText,
    pub target: PathText,
    pub build_dir: PathText,
    pub lockfile: PathText,
    pub sandbox_dir: PathText,
}

/// What `Places` holds.
pub struct Site {
    pub current_dir: Seq<u8>,
    pub workspace: Seq<u8>,
    pub target: Seq<u8>,
    pub build_dir: Seq<u8>,
    pub lockfile: Seq<u8>,
    pub sandbox_dir: Seq<u8>,
}

impl Model for Places {
    type M = Site;

    open spec fn model(&self) -> Site {
        Site {
            current_dir: self.current_dir@,
            workspace: self.workspace@,
            target: self.target@,
            build_dir: self.build_dir@,
            lockfile: self.lockfile@,
            sandbox_dir: self.sandbox_dir@,
        }
    }
}

/// The target directory of a build: the prepared one where it is reused, else
/// an isolated run below it.
#[verifier::opaque]
pub open spec fn build_target(
    args: Seq<Seq<u8>>,
    reuse_target: bool,
    current_dir: Seq<u8>,
    workspace: Seq<u8>,
    log: Seq<Answer>,
    at: int,
) -> Course<Seq<u8>> {
    match cargo_args::requested_target(args, current_dir, workspace, log, at) {
        Err(pause) => Err(pause),
        Ok((requested, at)) => match target::prepared_target(requested, workspace, log, at) {
            Err(pause) => Err(pause),
            Ok((base, at)) => if reuse_target {
                Ok((base, at))
            } else {
                isolated_target(base, workspace, log, at)
            },
        },
    }
}

fn prepare_build_target(
    args: &Vec<OsText>,
    reuse_target: bool,
    current_dir: &PathText,
    workspace: &PathText,
    log: &Vec<Answer>,
    at: usize,
) -> (prepared: Flow<PathText>)
    ensures
        flow::course(prepared) == build_target(
            os::texts(args@),
            reuse_target,
            current_dir@,
            workspace@,
            log@,
            at as int,
        ),
{
    proof {
        reveal(build_target);
    }
    let (requested, at) = cargo_args::target_dir_arg(args, current_dir, workspace, log, at)?;
    let (base, at) = target::prepare_target_dir(&requested, workspace, log, at)?;
    if reuse_target {
        return Ok((base, at));
    }
    prepare_isolated_target(&base, workspace, log, at)
}

/// The places of a build, created where they are missing.
#[verifier::opaque]
pub open spec fn build_site(
    args: Seq<Seq<u8>>,
    reuse_target: bool,
    current_dir: Seq<u8>,
    workspace: Seq<u8>,
    log: Seq<Answer>,
    at: int,
) -> Course<Site> {
    match build_target(args, reuse_target, current_dir, workspace, log, at) {
        Err(pause) => Err(pause),
        Ok((chosen, at)) => match target::prepared_target(
            path::join(chosen, os::lit("build")),
            workspace,
            log,
            at,
        ) {
            Err(pause) => Err(pause),
            Ok((build_dir, at)) => match target::prepared_lockfile(workspace, log, at) {
                Err(pause) => Err(pause),
                Ok((lockfile, at)) => match cargo_args::working_directory(
                    current_dir,
                    workspace,
                    args,
                    log,
                    at,
                ) {
                    Err(pause) => Err(pause),
                    Ok((sandbox_dir, at)) => Ok(
                        (
                            Site {
                                current_dir,
                                workspace,
                                target: chosen,
                                build_dir,
                                lockfile,
                                sandbox_dir,
                            },
                            at,
                        ),
                    ),
                },
            },
        },
    }
}

fn prepare_places(
    args: &Vec<OsText>,
    reuse_target: bool,
    current_dir: PathText,
    workspace: PathText,
    log: &Vec<Answer>,
    at: usize,
) -> (places: Flow<Places>)
    ensures
        flow::course(places) == build_site(
            os::texts(args@),
            reuse_target,
            current_dir@,
            workspace@,
            log@,
            at as int,
        ),
{
    proof {
        reveal(build_site);
    }
    let (chosen, at) = prepare_build_target(
        args,
        reuse_target,
        &current_dir,
        &workspace,
        log,
        at,
    )?;
    let (build_dir, at) = target::prepare_target_dir(
        &chosen.join_text("build"),
        &workspace,
        log,
        at,
    )?;
    let (lockfile, at) = target::prepare_lockfile(&workspace, log, at)?;
    let (sandbox_dir, at) = cargo_args::sandbox_current_dir(
        &current_dir,
        &workspace,
        args,
        log,
        at,
    )?;
    Ok(
        (
            Places { current_dir, workspace, target: chosen, build_dir, lockfile, sandbox_dir },
            at,
        ),
    )
}

/// The readable paths of a build: the workspace, the current directory where it
/// is a proper part of it, and the toolchain.
pub open spec fn build_sources(site: Site, kit: Kit) -> Seq<Seq<u8>> {
    if !path::same_path(site.current_dir, site.workspace) && path::within(
        site.current_dir,
        site.workspace,
    ) {
        seq![site.workspace, site.current_dir] + kit.read_only_paths
    } else {
        seq![site.workspace] + kit.read_only_paths
    }
}

/// The variables that every build sets.
pub open spec fn build_overrides(site: Site) -> Seq<(Seq<u8>, Seq<u8>)> {
    seq![
        (os::lit("CARGO_TARGET_DIR"), site.target),
        (os::lit("CARGO_BUILD_BUILD_DIR"), site.build_dir),
        (os::lit("CARGO_NET_OFFLINE"), os::lit("true")),
        (os::lit("TMPDIR"), os::lit("/tmp")),
    ]
}

/// The sandboxed Cargo command.
pub open spec fn build_job(
    command: CargoCommand,
    args: Seq<Seq<u8>>,
    site: Site,
    kit: Kit,
    rules: PolicyRules,
    environment: EnvironmentRules,
) -> Job {
    Job {
        program: kit.cargo,
        args: seq![vstd::utf8::encode_utf8(command.name())] + args,
        current_dir: site.sandbox_dir,
        environment,
        policy: PolicyRules {
            read_only_paths: build_sources(site, kit),
            writable_paths: seq![site.target, site.lockfile],
            ..rules
        },
        output: OutputMode::Inherit,
    }
}

/// The sandboxed Cargo command with its rewritten arguments, its policy and its
/// environment.
#[verifier::opaque]
pub open spec fn planned_job(
    command: CargoCommand,
    args: Seq<Seq<u8>>,
    reuse_target: bool,
    site: Site,
    kit: Kit,
    log: Seq<Answer>,
    at: int,
) -> Course<Job> {
    match cargo_args::rewritten_from(
        Rewriting {
            args,
            current_dir: site.current_dir,
            moved: !path::same_path(site.current_dir, site.sandbox_dir),
            target: site.target,
            forced: !reuse_target,
        },
        args,
        0,
        log,
        at,
    ) {
        Err(pause) => Err(pause),
        Ok((rewritten, at)) => match cargo_policy::built_policy(true, log, at) {
            Err(pause) => Err(pause),
            Ok((rules, at)) => match workspace::environment_for(
                kit,
                site.sandbox_dir,
                build_overrides(site),
                log,
                at,
            ) {
                Err(pause) => Err(pause),
                Ok((environment, at)) => Ok(
                    (build_job(command, rewritten, site, kit, rules, environment), at),
                ),
            },
        },
    }
}

fn list_build_sources(places: &Places, toolchain: &Toolchain) -> (sources: Vec<PathText>)
    ensures
        os::texts(sources@) == build_sources(places.model(), toolchain@),
{
    let mut sources: Vec<PathText> = Vec::new();
    os::push_text(&mut sources, &places.workspace);
    if !places.current_dir.same_path(&places.workspace) && places.current_dir.starts_with(
        &places.workspace,
    ) {
        os::push_text(&mut sources, &places.current_dir);
    }
    os::push_texts(&mut sources, &toolchain.read_only_paths);
    assert(os::texts(sources@) =~= build_sources(places.model(), toolchain@));
    sources
}

fn list_build_overrides(places: &Places) -> (overrides: Vec<(OsText, OsText)>)
    ensures
        os::pairs(overrides@) == build_overrides(places.model()),
{
    let mut overrides: Vec<(OsText, OsText)> = Vec::new();
    os::push_pair(&mut overrides, OsText::new("CARGO_TARGET_DIR"), places.target.clone());
    os::push_pair(&mut overrides, OsText::new("CARGO_BUILD_BUILD_DIR"), places.build_dir.clone());
    os::push_pair(&mut overrides, OsText::new("CARGO_NET_OFFLINE"), OsText::new("true"));
    os::push_pair(&mut overrides, OsText::new("TMPDIR"), OsText::new("/tmp"));
    assert(os::pairs(overrides@) =~= build_overrides(places.model()));
    overrides
}

fn plan_request(
    command: CargoCommand,
    args: &Vec<OsText>,
    reuse_target: bool,
    places: &Places,
    toolchain: &Toolchain,
    log: &Vec<Answer>,
    at: usize,
) -> (request: Flow<SandboxRequest>)
    ensures
        flow::course(request) == planned_job(
            command,
            os::texts(args@),
            reuse_target,
            places.model(),
            toolchain@,
            log@,
            at as int,
        ),
{
    proof {
        reveal(planned_job);
    }
    let (rewritten, at) = cargo_args::rewrite_relative_cargo_paths(
        args,
        &places.current_dir,
        &places.sandbox_dir,
        &places.target,
        !reuse_target,
        log,
        at,
    )?;
    let (mut rules, at) = cargo_policy::cargo_policy(true, log, at)?;
    let (environment, at) = workspace::cargo_environment(
        toolchain,
        &places.sandbox_dir,
        &list_build_overrides(places),
        log,
        at,
    )?;
    let mut writable: Vec<PathText> = Vec::new();
    os::push_text(&mut writable, &places.target);
    os::push_text(&mut writable, &places.lockfile);
    assert(os::texts(writable@) =~= seq![places.target@, places.lockfile@]);
    rules.read_only_paths = list_build_sources(places, toolchain);
    rules.writable_paths = writable;
    let mut words: Vec<OsText> = Vec::new();
    os::push_lit(&mut words, command.as_str());
    os::push_texts(&mut words, &rewritten);
    assert(os::texts(words@) =~= seq![vstd::utf8::encode_utf8(command.name())] + os::texts(
        rewritten@,
    ));
    let request = SandboxRequest {
        program: toolchain.cargo.clone(),
        args: words,
        current_dir: places.sandbox_dir.clone(),
        environment,
        policy: rules,
        output: OutputMode::Inherit,
    };
    Ok((request, at))
}

/// The exit code in a message.
pub open spec fn known_code(code: Option<i32>) -> Seq<char> {
    match code {
        Some(code) => text::signed_decimal(code as int),
        None => "unknown"@,
    }
}

/// What the user is told about a failed build.
pub open spec fn failure_notices(command: CargoCommand, code: Option<i32>, site: Site) -> Seq<
    Seq<char>,
> {
    seq![
        "cargo-cage: Cargo "@ + command.name() + " failed inside the Linux sandbox (exit code "@
            + known_code(code) + ")."@,
        "cargo-cage: policy active: clean allowlisted environment, private HOME, network denied, and persistent writes limited to "@
            + os::lossy_text(site.target) + " and "@ + os::lossy_text(site.lockfile) + "."@,
        "cargo-cage: a Cargo/build-script error such as Permission denied, Read-only file system, or Network is unreachable may indicate a denied operation; missing dependencies must be fetched separately with `cargo fetch`."@,
    ]
}

/// How a finished build is reported.
pub open spec fn build_verdict(command: CargoCommand, code: Option<i32>, site: Site) -> Verdict {
    if code == Some(0i32) {
        Verdict { code: 0, output: Seq::empty(), notices: Seq::empty() }
    } else {
        Verdict {
            code: match code {
                Some(code) => code,
                None => 1,
            },
            output: Seq::empty(),
            notices: failure_notices(command, code, site),
        }
    }
}

/// The report of a finished build.
pub fn report_build(command: CargoCommand, outcome: &SandboxOutcome, places: &Places) -> (report:
    Report)
    ensures
        report.model() == build_verdict(command, outcome.status.code, places.model()),
{
    let mut notices: Vec<String> = Vec::new();
    let output: Vec<String> = Vec::new();
    assert(scan::strings(output@) =~= Seq::empty());
    assert(scan::strings(notices@) =~= Seq::empty());
    if outcome.status.successfully_exited() {
        return Report { code: 0, output, notices };
    }
    let known = match outcome.status.code {
        Some(code) => text::signed_text(code),
        None => text::owned("unknown"),
    };
    scan::push_string(
        &mut notices,
        text::owned("cargo-cage: Cargo ").with(command.as_str()).with(
            " failed inside the Linux sandbox (exit code ",
        ).with(known.as_str()).with(")."),
    );
    scan::push_string(
        &mut notices,
        text::owned(
            "cargo-cage: policy active: clean allowlisted environment, private HOME, network denied, and persistent writes limited to ",
        ).with(places.target.display().as_str()).with(" and ").with(
            places.lockfile.display().as_str(),
        ).with("."),
    );
    scan::push_string(
        &mut notices,
        text::owned(
            "cargo-cage: a Cargo/build-script error such as Permission denied, Read-only file system, or Network is unreachable may indicate a denied operation; missing dependencies must be fetched separately with `cargo fetch`.",
        ),
    );
    assert(scan::strings(notices@) =~= failure_notices(
        command,
        outcome.status.code,
        places.model(),
    ));
    let code: i32 = match outcome.status.code {
        Some(code) => code,
        None => 1,
    };
    Report { code, output, notices }
}

/// Building with a known toolchain in a known workspace.
#[verifier::opaque]
pub open spec fn built(
    command: CargoCommand,
    args: Seq<Seq<u8>>,
    reuse_target: bool,
    current_dir: Seq<u8>,
    workspace: Seq<u8>,
    kit: Kit,
    log: Seq<Answer>,
    at: int,
) -> Course<Verdict> {
    match build_site(args, reuse_target, current_dir, workspace, log, at) {
        Err(pause) => Err(pause),
        Ok((site, at)) => match planned_job(command, args, reuse_target, site, kit, log, at) {
            Err(pause) => Err(pause),
            Ok((job, at)) => match flow::sandboxed(Query::RunSandbox(job), log, at) {
                Err(pause) => Err(pause),
                Ok((said, at)) => Ok((build_verdict(command, said.status.code, site), at)),
            },
        },
    }
}

fn build(
    command: CargoCommand,
    args: &Vec<OsText>,
    reuse_target: bool,
    current_dir: PathText,
    workspace: PathText,
    toolchain: &Toolchain,
    log: &Vec<Answer>,
    at: usize,
) -> (report: Flow<Report>)
    ensures
        flow::course(report) == built(
            command,
            os::texts(args@),
            reuse_target,
            current_dir@,
            workspace@,
            toolchain@,
            log@,
            at as int,
        ),
{
    proof {
        reveal(built);
    }
    let (places, at) = prepare_places(args, reuse_target, current_dir, workspace, log, at)?;
    let (request, at) = plan_request(
        command,
        args,
        reuse_target,
        &places,
        toolchain,
        log,
        at,
    )?;
    let (outcome, at) = flow::ask_sandbox(Question::RunSandbox(request), log, at)?;
    Ok((report_build(command, &outcome, &places), at))
}

/// Running one Cargo command from start to end.
#[verifier::opaque]
pub open spec fn cargo_run(
    command: CargoCommand,
    args: Seq<Seq<u8>>,
    reuse_target: bool,
    log: Seq<Answer>,
    at: int,
) -> Course<Verdict> {
    match workspace::current_directory(log, at) {
        Err(pause) => Err(pause),
        Ok((current_dir, at)) => match toolchain::program(
            "cargo",
            "CARGO",
            current_dir,
            log,
            at,
        ) {
            Err(pause) => Err(pause),
            Ok((cargo, at)) => match toolchain::toolchain_for(
                cargo,
                current_dir,
                command == CargoCommand::Doc,
                log,
                at,
            ) {
                Err(pause) => Err(pause),
                Ok((kit, at)) => match workspace::located_workspace(
                    kit,
                    current_dir,
                    args,
                    log,
                    at,
                ) {
                    Err(pause) => Err(pause),
                    Ok((found, at)) => built(
                        command,
                        args,
                        reuse_target,
                        current_dir,
                        found,
                        kit,
                        log,
                        at,
                    ),
                },
            },
        },
    }
}

/// Runs one Cargo command in the sandbox.
pub fn run_cargo(
    command: CargoCommand,
    args: &Vec<OsText>,
    reuse_target: bool,
    log: &Vec<Answer>,
    at: usize,
) -> (report: Flow<Report>)
    ensures
        flow::course(report) == cargo_run(
            command,
            os::texts(args@),
            reuse_target,
            log@,
            at as int,
        ),
{
    proof {
        reveal(cargo_run);
    }
    let (current_dir, at) = workspace::canonical_current_dir(log, at)?;
    let (cargo, at) = toolchain::resolve_cargo(&current_dir, log, at)?;
    let (kit, at) = toolchain::resolve_toolchain(
        &cargo,
        &current_dir,
        command == CargoCommand::Doc,
        log,
        at,
    )?;
    let (found, at) = workspace::locate_workspace(&kit, &current_dir, args, log, at)?;
    build(command, args, reuse_target, current_dir, found, &kit, log, at)
}

/// The request of a build denies the network, receives a clean environment and
/// may write exactly to the target directory and to the lockfile.
pub proof fn build_writes_only_target_and_lockfile(
    command: CargoCommand,
    args: Seq<Seq<u8>>,
    reuse_target: bool,
    site: Site,
    kit: Kit,
    log: Seq<Answer>,
    at: int,
)
    requires
        planned_job(command, args, reuse_target, site, kit, log, at) is Ok,
    ensures
        ({
            let job = planned_job(command, args, reuse_target, site, kit, log, at)->Ok_0.0;
            &&& job.policy.network == crate::policy::NetworkAccess::Deny
            &&& !job.environment.inherit
            &&& job.policy.writable_paths == seq![site.target, site.lockfile]
        }),
{
    reveal(planned_job);
    reveal(cargo_policy::built_policy);
    reveal(workspace::environment_for);
}

/// A build is told to stay offline, to use its own target directory and the
/// private temporary directory.
pub proof fn builds_are_offline(
    command: CargoCommand,
    args: Seq<Seq<u8>>,
    reuse_target: bool,
    site: Site,
    kit: Kit,
    log: Seq<Answer>,
    at: int,
)
    requires
        planned_job(command, args, reuse_target, site, kit, log, at) is Ok,
    ensures
        ({
            let set = planned_job(
                command,
                args,
                reuse_target,
                site,
                kit,
                log,
                at,
            )->Ok_0.0.environment.set;
            &&& set.contains((os::lit("CARGO_NET_OFFLINE"), os::lit("true")))
            &&& set.contains((os::lit("CARGO_TARGET_DIR"), site.target))
            &&& set.contains((os::lit("TMPDIR"), os::lit("/tmp")))
        }),
{
    reveal(planned_job);
    reveal(workspace::environment_for);
    let job = planned_job(command, args, reuse_target, site, kit, log, at)->Ok_0.0;
    let set = job.environment.set;
    let overrides = build_overrides(site);
    let start = set.len() - overrides.len();
    assert(set[start] == overrides[0]);
    assert(set[start + 2] == overrides[2]);
    assert(set[start + 3] == overrides[3]);
}

/// What a whole command line comes to.
#[verifier::opaque]
pub open spec fn command_run(words: Seq<Seq<u8>>, log: Seq<Answer>, at: int) -> Course<Verdict> {
    match args::invocation(words) {
        Err(fault) => Err(Pause::Fail(fault, at)),
        Ok(Invocation::Help) => Ok(
            (Verdict { code: 0, output: Seq::empty(), notices: Seq::empty() }, at),
        ),
        Ok(Invocation::Doctor { verbose }) => doctor::examination(verbose, log, at),
        Ok(Invocation::Cargo { command, args, reuse_target }) => cargo_run(
            command,
            args,
            reuse_target,
            log,
            at,
        ),
    }
}

/// Run the supported Cargo subcommand through the sandbox that answers the
/// questions.
pub fn run(words: &Vec<OsText>, log: &Vec<Answer>, at: usize) -> (report: Flow<Report>)
    ensures
        flow::course(report) == command_run(os::texts(words@), log@, at as int),
{
    proof {
        reveal(command_run);
    }
    match args::parse_invocation(words) {
        Err(error) => Err(Halt::Fail(error, at)),
        Ok(CargoInvocation::Help) => {
            let output: Vec<String> = Vec::new();
            let notices: Vec<String> = Vec::new();
            assert(scan::strings(output@) =~= Seq::empty());
            assert(scan::strings(notices@) =~= Seq::empty());
            Ok((Report { code: 0, output, notices }, at))
        },
        Ok(CargoInvocation::Doctor { verbose }) => doctor::run_doctor(verbose, log, at),
        Ok(CargoInvocation::Cargo { command, args, reuse_target }) => run_cargo(
            command,
            &args,
            reuse_target,
            log,
            at,
        ),
    }
}

} // verus!

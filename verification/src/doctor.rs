//! The doctor: checks the setup without changing the project.

use crate::backend::{Job, OutputMode, SandboxRequest};
use crate::cargo_args;
use crate::cargo_policy;
use crate::error;
use crate::error::{CageError, Fault};
use crate::flow;
use crate::flow::{Answer, Course, Flow, Halt, Model, Pause, Query, Question};
use crate::os;
use crate::os::{OsText, PathText};
use crate::path;
use crate::policy::{Environment, EnvironmentRules, PolicyRules, SandboxPolicy};
use crate::run::{Report, Verdict};
use crate::scan;
use crate::target;
use crate::text;
use crate::text::Compose;
use crate::toolchain;
use crate::toolchain::{Kit, Toolchain};
use crate::workspace;
use vstd::prelude::*;
use vstd::string::*;

verus! {

/// What the doctor has found so far.
pub struct Findings {
    pub lines: Vec<String>,
    pub failed: bool,
}

/// What `Findings` holds.
pub struct Notes {
    pub lines: Seq<Seq<char>>,
    pub failed: bool,
}

impl View for Findings {
    type V = Notes;

    open spec fn view(&self) -> Notes {
        Notes { lines: scan::strings(self.lines@), failed: self.failed }
    }
}

impl Model for Findings {
    type M = Notes;

    open spec fn model(&self) -> Notes {
        self@
    }
}

impl Notes {
    /// The notes with one more line.
    pub open spec fn line(self, line: Seq<char>) -> Notes {
        Notes { lines: self.lines.push(line), failed: self.failed }
    }

    /// The notes with a failed check.
    pub open spec fn failure(self, check: Seq<char>, fault: Fault) -> Notes {
        Notes {
            lines: self.lines.push("  FAIL "@ + check + ": "@ + fault.message()),
            failed: true,
        }
    }

    /// The notes with a check that showed a path.
    pub open spec fn showing(self, mark: Seq<char>, path: Seq<u8>, tail: Seq<char>) -> Notes {
        self.line(mark + os::lossy_text(path) + tail)
    }

    /// The report of a doctor that had to stop.
    pub open spec fn stopped(self) -> Verdict {
        Verdict { code: 1, output: self.lines, notices: Seq::empty() }
    }
}

impl Findings {
    pub fn line(&mut self, line: String)
        ensures
            final(self)@ == old(self)@.line(line@),
    {
        scan::push_string(&mut self.lines, line);
    }

    pub fn say(&mut self, line: &str)
        ensures
            final(self)@ == old(self)@.line(line@),
    {
        scan::push_string(&mut self.lines, text::owned(line));
    }

    pub fn failure(&mut self, check: &str, error: &CageError)
        ensures
            final(self)@ == old(self)@.failure(check@, error@),
    {
        scan::push_string(
            &mut self.lines,
            text::owned("  FAIL ").with(check).with(": ").with(error.to_string().as_str()),
        );
        self.failed = true;
    }

    pub fn showing(&mut self, mark: &str, path: &PathText, tail: &str)
        ensures
            final(self)@ == old(self)@.showing(mark@, path@, tail@),
    {
        scan::push_string(
            &mut self.lines,
            text::owned(mark).with(path.display().as_str()).with(tail),
        );
    }

    pub fn stopped(self) -> (report: Report)
        ensures
            report.model() == self@.stopped(),
    {
        let notices: Vec<String> = Vec::new();
        assert(scan::strings(notices@) =~= Seq::empty());
        Report { code: 1, output: self.lines, notices }
    }
}

pub const WILL_BE_CREATED: &'static str = " (will be created by the build)";

/// What the doctor knows about the target directory: the path and whether it
/// exists.
pub struct TargetFinding {
    pub findings: Findings,
    pub target: Option<PathText>,
    pub exists: bool,
}

impl Model for TargetFinding {
    type M = (Notes, Option<Seq<u8>>, bool);

    open spec fn model(&self) -> (Notes, Option<Seq<u8>>, bool) {
        (self.findings@, self.target.model(), self.exists)
    }
}

/// Whether a name exists.
pub open spec fn exists_name(path: Seq<u8>, log: Seq<Answer>, at: int) -> Course<bool> {
    match flow::entry(Query::Inspect(path), log, at) {
        Err(pause) => Err(pause),
        Ok((reply, at)) => Ok((reply is Ok, at)),
    }
}

fn ask_exists(path: &PathText, log: &Vec<Answer>, at: usize) -> (yes: Flow<bool>)
    ensures
        flow::course(yes) == exists_name(path@, log@, at as int),
{
    let (reply, at) = flow::ask_entry(Question::Inspect(path.clone()), log, at)?;
    Ok((reply.is_ok(), at))
}

/// The notes after a path has been looked at.
pub open spec fn path_notes(
    notes: Notes,
    check: Seq<char>,
    path: Seq<u8>,
    exists: bool,
) -> Notes {
    if exists {
        notes.showing("  OK   "@ + check + ": "@, path, Seq::empty())
    } else {
        notes.showing("  WARN "@ + check + ": "@, path, WILL_BE_CREATED@)
    }
}

fn note_path(findings: &mut Findings, check: &str, path: &PathText, exists: bool)
    ensures
        final(findings)@ == path_notes(old(findings)@, check@, path@, exists),
{
    proof {
        reveal_strlit("");
    }
    assert(""@ =~= Seq::<char>::empty());
    if exists {
        findings.showing(text::owned("  OK   ").with(check).with(": ").as_str(), path, "");
    } else {
        findings.showing(
            text::owned("  WARN ").with(check).with(": ").as_str(),
            path,
            WILL_BE_CREATED,
        );
    }
}

/// The check of the target directory.
#[verifier::opaque]
pub open spec fn checked_target(
    notes: Notes,
    current_dir: Seq<u8>,
    workspace: Seq<u8>,
    log: Seq<Answer>,
    at: int,
) -> Course<(Notes, Option<Seq<u8>>, bool)> {
    match cargo_args::requested_target(Seq::empty(), current_dir, workspace, log, at) {
        Err(Pause::Ask(query)) => Err(Pause::Ask(query)),
        Err(Pause::Fail(fault, at)) => Ok(
            ((notes.failure("target directory"@, fault), None, false), at),
        ),
        Ok((requested, at)) => match target::validated_target(requested, workspace, log, at) {
            Err(Pause::Ask(query)) => Err(Pause::Ask(query)),
            Err(Pause::Fail(fault, at)) => Ok(
                ((notes.failure("target directory"@, fault), None, false), at),
            ),
            Ok((found, at)) => match exists_name(found, log, at) {
                Err(pause) => Err(pause),
                Ok((exists, at)) => Ok(
                    (
                        (
                            path_notes(notes, "target directory"@, found, exists),
                            Some(found),
                            exists,
                        ),
                        at,
                    ),
                ),
            },
        },
    }
}

fn check_target(
    findings: Findings,
    current_dir: &PathText,
    workspace: &PathText,
    log: &Vec<Answer>,
    at: usize,
) -> (checked: Flow<TargetFinding>)
    ensures
        flow::course(checked) == checked_target(
            findings@,
            current_dir@,
            workspace@,
            log@,
            at as int,
        ),
{
    proof {
        reveal(checked_target);
    }
    let mut findings = findings;
    let none: Vec<OsText> = Vec::new();
    assert(os::texts(none@) =~= Seq::empty());
    let (requested, at) = match cargo_args::target_dir_arg(
        &none,
        current_dir,
        workspace,
        log,
        at,
    ) {
        Err(Halt::Ask(question)) => {
            return Err(Halt::Ask(question));
        },
        Err(Halt::Fail(error, at)) => {
            findings.failure("target directory", &error);
            return Ok((TargetFinding { findings, target: None, exists: false }, at));
        },
        Ok(requested) => requested,
    };
    match target::validate_target_dir(&requested, workspace, log, at) {
        Err(Halt::Ask(question)) => Err(Halt::Ask(question)),
        Err(Halt::Fail(error, at)) => {
            findings.failure("target directory", &error);
            Ok((TargetFinding { findings, target: None, exists: false }, at))
        },
        Ok((found, at)) => {
            let (exists, at) = ask_exists(&found, log, at)?;
            note_path(&mut findings, "target directory", &found, exists);
            Ok((TargetFinding { findings, target: Some(found), exists }, at))
        },
    }
}

/// The check of the build directory below the target.
#[verifier::opaque]
pub open spec fn checked_build_dir(
    notes: Notes,
    found: Option<Seq<u8>>,
    workspace: Seq<u8>,
    log: Seq<Answer>,
    at: int,
) -> Course<Notes> {
    match found {
        None => Ok((notes, at)),
        Some(found) => match target::validated_target(
            path::join(found, os::lit("build")),
            workspace,
            log,
            at,
        ) {
            Err(Pause::Ask(query)) => Err(Pause::Ask(query)),
            Err(Pause::Fail(fault, at)) => Ok(
                (notes.failure("target build directory"@, fault), at),
            ),
            Ok((build_dir, at)) => match exists_name(build_dir, log, at) {
                Err(pause) => Err(pause),
                Ok((exists, at)) => Ok(
                    (path_notes(notes, "target build directory"@, build_dir, exists), at),
                ),
            },
        },
    }
}

fn check_build_dir(
    findings: Findings,
    found: &Option<PathText>,
    workspace: &PathText,
    log: &Vec<Answer>,
    at: usize,
) -> (checked: Flow<Findings>)
    ensures
        flow::course(checked) == checked_build_dir(
            findings@,
            found.model(),
            workspace@,
            log@,
            at as int,
        ),
{
    proof {
        reveal(checked_build_dir);
    }
    let mut findings = findings;
    match found {
        None => Ok((findings, at)),
        Some(found) => match target::validate_target_dir(
            &found.join_text("build"),
            workspace,
            log,
            at,
        ) {
            Err(Halt::Ask(question)) => Err(Halt::Ask(question)),
            Err(Halt::Fail(error, at)) => {
                findings.failure("target build directory", &error);
                Ok((findings, at))
            },
            Ok((build_dir, at)) => {
                let (exists, at) = ask_exists(&build_dir, log, at)?;
                note_path(&mut findings, "target build directory", &build_dir, exists);
                Ok((findings, at))
            },
        },
    }
}

/// Findings with the answer to a question.
pub struct Answered {
    pub findings: Findings,
    pub yes: bool,
}

impl Model for Answered {
    type M = (Notes, bool);

    open spec fn model(&self) -> (Notes, bool) {
        (self.findings@, self.yes)
    }
}

/// The check of the lockfile: whether it is there.
#[verifier::opaque]
pub open spec fn checked_lockfile(
    notes: Notes,
    workspace: Seq<u8>,
    log: Seq<Answer>,
    at: int,
) -> Course<(Notes, bool)> {
    match target::inspected_lockfile(workspace, log, at) {
        Err(Pause::Ask(query)) => Err(Pause::Ask(query)),
        Err(Pause::Fail(fault, at)) => Ok(
            ((notes.failure("workspace lockfile"@, fault), false), at),
        ),
        Ok((present, at)) => Ok(
            (
                (
                    path_notes(
                        notes,
                        "workspace lockfile"@,
                        target::lockfile(workspace),
                        present,
                    ),
                    present,
                ),
                at,
            ),
        ),
    }
}

fn check_lockfile(findings: Findings, workspace: &PathText, log: &Vec<Answer>, at: usize) -> (
checked: Flow<Answered>)
    ensures
        flow::course(checked) == checked_lockfile(findings@, workspace@, log@, at as int),
{
    proof {
        reveal(checked_lockfile);
    }
    let mut findings = findings;
    match target::inspect_lockfile(workspace, log, at) {
        Err(Halt::Ask(question)) => Err(Halt::Ask(question)),
        Err(Halt::Fail(error, at)) => {
            findings.failure("workspace lockfile", &error);
            Ok((Answered { findings, yes: false }, at))
        },
        Ok((present, at)) => {
            note_path(
                &mut findings,
                "workspace lockfile",
                &workspace.join_text("Cargo.lock"),
                present,
            );
            Ok((Answered { findings, yes: present }, at))
        },
    }
}

/// The remarks that do not depend on the project.
#[verifier::opaque]
pub open spec fn checked_cache(notes: Notes, log: Seq<Answer>, at: int) -> Course<Notes> {
    match workspace::cache_present(log, at) {
        Err(pause) => Err(pause),
        Ok((present, at)) => Ok(
            (
                notes.line(
                    if present {
                        "  OK   Cargo registry/Git cache roots are present"@
                    } else {
                        "  WARN Cargo registry/Git caches are missing; offline builds may need `cargo fetch`"@
                    },
                ).line("  OK   Cargo configuration is intentionally not mounted"@).line(
                    "  OK   network access denied; persistent writes limited to target and Cargo.lock"@,
                ),
                at,
            ),
        ),
    }
}

fn check_cache(findings: Findings, log: &Vec<Answer>, at: usize) -> (checked: Flow<Findings>)
    ensures
        flow::course(checked) == checked_cache(findings@, log@, at as int),
{
    proof {
        reveal(checked_cache);
    }
    let mut findings = findings;
    let (present, at) = workspace::cargo_cache_present(log, at)?;
    findings.say(
        if present {
            "  OK   Cargo registry/Git cache roots are present"
        } else {
            "  WARN Cargo registry/Git caches are missing; offline builds may need `cargo fetch`"
        },
    );
    findings.say("  OK   Cargo configuration is intentionally not mounted");
    findings.say("  OK   network access denied; persistent writes limited to target and Cargo.lock");
    Ok((findings, at))
}

/// What the probe is based on.
pub struct Probe {
    pub current_dir: Seq<u8>,
    pub workspace: Seq<u8>,
    pub target: Option<Seq<u8>>,
    pub lockfile: Option<Seq<u8>>,
    pub kit: Kit,
}

impl Probe {
    pub open spec fn sources(self) -> Seq<Seq<u8>> {
        if path::same_path(self.current_dir, self.workspace) {
            seq![self.workspace] + self.kit.read_only_paths
        } else {
            seq![self.workspace, self.current_dir] + self.kit.read_only_paths
        }
    }

    /// The existing places that a build would write to.
    pub open spec fn writable(self) -> Seq<Seq<u8>> {
        match (self.target, self.lockfile) {
            (Some(target), Some(lockfile)) => seq![target, lockfile],
            (Some(target), None) => seq![target],
            (None, Some(lockfile)) => seq![lockfile],
            (None, None) => Seq::empty(),
        }
    }

    /// A command that does nothing, under the policy of a build.
    pub open spec fn job(self, rules: PolicyRules, environment: EnvironmentRules) -> Job {
        Job {
            program: os::lit("/bin/sh"),
            args: seq![os::lit("-c"), os::lit("exit 0")],
            current_dir: self.current_dir,
            environment,
            policy: PolicyRules {
                read_only_paths: self.sources(),
                writable_paths: self.writable(),
                ..rules
            },
            output: OutputMode::Capture,
        }
    }
}

/// The variables that the probe sets.
pub open spec fn probe_overrides() -> Seq<(Seq<u8>, Seq<u8>)> {
    seq![
        (os::lit("CARGO_NET_OFFLINE"), os::lit("true")),
        (os::lit("TMPDIR"), os::lit("/tmp")),
    ]
}

/// The notes after the probe.
pub open spec fn probe_notes(notes: Notes, code: Option<i32>) -> Notes {
    if code == Some(0i32) {
        notes.line("  OK   Bubblewrap namespaces and sandbox preflight"@)
    } else {
        Notes {
            lines: notes.lines.push(
                "  FAIL Bubblewrap sandbox probe: process exited with "@ + error::code_text(code),
            ),
            failed: true,
        }
    }
}

/// The check of the sandbox itself.
#[verifier::opaque]
pub open spec fn checked_sandbox(
    notes: Notes,
    probe: Probe,
    log: Seq<Answer>,
    at: int,
) -> Course<Notes> {
    match cargo_policy::built_policy(true, log, at) {
        Err(Pause::Ask(query)) => Err(Pause::Ask(query)),
        Err(Pause::Fail(fault, at)) => Ok((notes.failure("sandbox policy"@, fault), at)),
        Ok((rules, at)) => match workspace::environment_for(
            probe.kit,
            probe.current_dir,
            probe_overrides(),
            log,
            at,
        ) {
            Err(pause) => Err(pause),
            Ok((environment, at)) => match flow::sandboxed(
                Query::RunSandbox(probe.job(rules, environment)),
                log,
                at,
            ) {
                Err(Pause::Ask(query)) => Err(Pause::Ask(query)),
                Err(Pause::Fail(fault, at)) => Ok(
                    (notes.failure("Bubblewrap sandbox probe"@, fault), at),
                ),
                Ok((said, at)) => Ok((probe_notes(notes, said.status.code), at)),
            },
        },
    }
}

fn probe_request(
    current_dir: &PathText,
    workspace: &PathText,
    target: &Option<PathText>,
    lockfile: &Option<PathText>,
    toolchain: &Toolchain,
    rules: SandboxPolicy,
    environment: Environment,
) -> (request: SandboxRequest)
    ensures
        request@ == (Probe {
            current_dir: current_dir@,
            workspace: workspace@,
            target: target.model(),
            lockfile: lockfile.model(),
            kit: toolchain@,
        }).job(rules@, environment@),
{
    let ghost probe = Probe {
        current_dir: current_dir@,
        workspace: workspace@,
        target: target.model(),
        lockfile: lockfile.model(),
        kit: toolchain@,
    };
    let mut rules = rules;
    let mut sources: Vec<PathText> = Vec::new();
    os::push_text(&mut sources, workspace);
    if !current_dir.same_path(workspace) {
        os::push_text(&mut sources, current_dir);
    }
    os::push_texts(&mut sources, &toolchain.read_only_paths);
    assert(os::texts(sources@) =~= probe.sources());
    let mut writable: Vec<PathText> = Vec::new();
    if let Some(target) = target {
        os::push_text(&mut writable, target);
    }
    if let Some(lockfile) = lockfile {
        os::push_text(&mut writable, lockfile);
    }
    assert(os::texts(writable@) =~= probe.writable());
    rules.read_only_paths = sources;
    rules.writable_paths = writable;
    let mut args: Vec<OsText> = Vec::new();
    os::push_lit(&mut args, "-c");
    os::push_lit(&mut args, "exit 0");
    assert(os::texts(args@) =~= seq![os::lit("-c"), os::lit("exit 0")]);
    SandboxRequest {
        program: OsText::new("/bin/sh"),
        args,
        current_dir: current_dir.clone(),
        environment,
        policy: rules,
        output: OutputMode::Capture,
    }
}

fn check_sandbox(
    findings: Findings,
    current_dir: &PathText,
    workspace: &PathText,
    target: &Option<PathText>,
    lockfile: &Option<PathText>,
    toolchain: &Toolchain,
    log: &Vec<Answer>,
    at: usize,
) -> (checked: Flow<Findings>)
    ensures
        flow::course(checked) == checked_sandbox(
            findings@,
            (Probe {
                current_dir: current_dir@,
                workspace: workspace@,
                target: target.model(),
                lockfile: lockfile.model(),
                kit: toolchain@,
            }),
            log@,
            at as int,
        ),
{
    proof {
        reveal(checked_sandbox);
    }
    let mut findings = findings;
    let (rules, at) = match cargo_policy::cargo_policy(true, log, at) {
        Err(Halt::Ask(question)) => {
            return Err(Halt::Ask(question));
        },
        Err(Halt::Fail(error, at)) => {
            findings.failure("sandbox policy", &error);
            return Ok((findings, at));
        },
        Ok(rules) => rules,
    };
    let mut overrides: Vec<(OsText, OsText)> = Vec::new();
    os::push_pair(&mut overrides, OsText::new("CARGO_NET_OFFLINE"), OsText::new("true"));
    os::push_pair(&mut overrides, OsText::new("TMPDIR"), OsText::new("/tmp"));
    assert(os::pairs(overrides@) =~= probe_overrides());
    let (environment, at) = workspace::cargo_environment(
        toolchain,
        current_dir,
        &overrides,
        log,
        at,
    )?;
    let request = probe_request(
        current_dir,
        workspace,
        target,
        lockfile,
        toolchain,
        rules,
        environment,
    );
    match flow::ask_sandbox(Question::RunSandbox(request), log, at) {
        Err(Halt::Ask(question)) => Err(Halt::Ask(question)),
        Err(Halt::Fail(error, at)) => {
            findings.failure("Bubblewrap sandbox probe", &error);
            Ok((findings, at))
        },
        Ok((outcome, at)) => {
            if outcome.status.successfully_exited() {
                findings.say("  OK   Bubblewrap namespaces and sandbox preflight");
            } else {
                findings.line(
                    text::owned("  FAIL Bubblewrap sandbox probe: process exited with ").with(
                        error::show_code(outcome.status.code).as_str(),
                    ),
                );
                findings.failed = true;
            }
            Ok((findings, at))
        },
    }
}

/// The last lines and the exit code.
pub open spec fn conclusion(notes: Notes, verbose: bool) -> Verdict {
    let told = if verbose {
        notes.line("  INFO no automatic dependency fetch is performed"@).line(
            "  INFO generated artifacts under target are not trusted automatically"@,
        ).line("  INFO path checks are not race-free against concurrent host changes"@)
    } else {
        notes
    };
    if notes.failed {
        Verdict {
            code: 1,
            output: told.lines.push("doctor: one or more checks failed"@),
            notices: Seq::empty(),
        }
    } else {
        Verdict {
            code: 0,
            output: told.lines.push(
                "doctor: environment is ready for an offline sandboxed Cargo command"@,
            ),
            notices: Seq::empty(),
        }
    }
}

fn conclude(findings: Findings, verbose: bool) -> (report: Report)
    ensures
        report.model() == conclusion(findings@, verbose),
{
    let mut findings = findings;
    if verbose {
        findings.say("  INFO no automatic dependency fetch is performed");
        findings.say("  INFO generated artifacts under target are not trusted automatically");
        findings.say("  INFO path checks are not race-free against concurrent host changes");
    }
    let notices: Vec<String> = Vec::new();
    assert(scan::strings(notices@) =~= Seq::empty());
    if findings.failed {
        findings.say("doctor: one or more checks failed");
        Report { code: 1, output: findings.lines, notices }
    } else {
        findings.say("doctor: environment is ready for an offline sandboxed Cargo command");
        Report { code: 0, output: findings.lines, notices }
    }
}

/// The checks inside a known workspace.
#[verifier::opaque]
pub open spec fn checked_workspace(
    notes: Notes,
    current_dir: Seq<u8>,
    workspace: Seq<u8>,
    kit: Kit,
    verbose: bool,
    log: Seq<Answer>,
    at: int,
) -> Course<Verdict> {
    match checked_target(notes, current_dir, workspace, log, at) {
        Err(pause) => Err(pause),
        Ok(((notes, found, exists), at)) => match checked_build_dir(
            notes,
            found,
            workspace,
            log,
            at,
        ) {
            Err(pause) => Err(pause),
            Ok((notes, at)) => match checked_lockfile(notes, workspace, log, at) {
                Err(pause) => Err(pause),
                Ok(((notes, present), at)) => match checked_cache(notes, log, at) {
                    Err(pause) => Err(pause),
                    Ok((notes, at)) => match checked_sandbox(
                        notes,
                        Probe {
                            current_dir,
                            workspace,
                            target: if exists {
                                found
                            } else {
                                None
                            },
                            lockfile: if present {
                                Some(target::lockfile(workspace))
                            } else {
                                None
                            },
                            kit,
                        },
                        log,
                        at,
                    ) {
                        Err(pause) => Err(pause),
                        Ok((notes, at)) => Ok((conclusion(notes, verbose), at)),
                    },
                },
            },
        },
    }
}

fn check_workspace(
    findings: Findings,
    current_dir: &PathText,
    workspace: &PathText,
    toolchain: &Toolchain,
    verbose: bool,
    log: &Vec<Answer>,
    at: usize,
) -> (report: Flow<Report>)
    ensures
        flow::course(report) == checked_workspace(
            findings@,
            current_dir@,
            workspace@,
            toolchain@,
            verbose,
            log@,
            at as int,
        ),
{
    proof {
        reveal(checked_workspace);
    }
    let (checked, at) = check_target(findings, current_dir, workspace, log, at)?;
    let TargetFinding { findings, target, exists } = checked;
    let (findings, at) = check_build_dir(findings, &target, workspace, log, at)?;
    let (checked, at) = check_lockfile(findings, workspace, log, at)?;
    let Answered { findings, yes } = checked;
    let (findings, at) = check_cache(findings, log, at)?;
    let usable = if exists {
        target
    } else {
        None
    };
    let lockfile = if yes {
        Some(workspace.join_text("Cargo.lock"))
    } else {
        None
    };
    let (findings, at) = check_sandbox(
        findings,
        current_dir,
        workspace,
        &usable,
        &lockfile,
        toolchain,
        log,
        at,
    )?;
    Ok((conclude(findings, verbose), at))
}

/// The notes after the toolchain has been found.
pub open spec fn toolchain_notes(notes: Notes, sysroot: Seq<u8>) -> Notes {
    notes.showing("  OK   Rust toolchain: "@, sysroot, Seq::empty()).line(
        "  OK   sandbox environment: clean allowlist"@,
    ).line("  OK   home directory: private mount"@).line(
        "  OK   runtime filesystem: explicit read-only mounts"@,
    )
}

/// The checks from the workspace on.
#[verifier::opaque]
pub open spec fn examined_workspace(
    notes: Notes,
    current_dir: Seq<u8>,
    kit: Kit,
    verbose: bool,
    log: Seq<Answer>,
    at: int,
) -> Course<Verdict> {
    match workspace::located_workspace(kit, current_dir, Seq::empty(), log, at) {
        Err(Pause::Ask(query)) => Err(Pause::Ask(query)),
        Err(Pause::Fail(fault, at)) => Ok(
            (notes.failure("workspace discovery"@, fault).stopped(), at),
        ),
        Ok((found, at)) => checked_workspace(
            notes.showing("  OK   workspace: "@, found, Seq::empty()),
            current_dir,
            found,
            kit,
            verbose,
            log,
            at,
        ),
    }
}

fn examine_workspace(
    findings: Findings,
    current_dir: &PathText,
    toolchain: &Toolchain,
    verbose: bool,
    log: &Vec<Answer>,
    at: usize,
) -> (report: Flow<Report>)
    ensures
        flow::course(report) == examined_workspace(
            findings@,
            current_dir@,
            toolchain@,
            verbose,
            log@,
            at as int,
        ),
{
    proof {
        reveal(examined_workspace);
        reveal_strlit("");
    }
    assert(""@ =~= Seq::<char>::empty());
    let mut findings = findings;
    let none: Vec<OsText> = Vec::new();
    assert(os::texts(none@) =~= Seq::empty());
    match workspace::locate_workspace(toolchain, current_dir, &none, log, at) {
        Err(Halt::Ask(question)) => Err(Halt::Ask(question)),
        Err(Halt::Fail(error, at)) => {
            findings.failure("workspace discovery", &error);
            Ok((findings.stopped(), at))
        },
        Ok((found, at)) => {
            findings.showing("  OK   workspace: ", &found, "");
            check_workspace(findings, current_dir, &found, toolchain, verbose, log, at)
        },
    }
}

/// The checks from the toolchain on.
#[verifier::opaque]
pub open spec fn examined_toolchain(
    notes: Notes,
    current_dir: Seq<u8>,
    cargo: Seq<u8>,
    verbose: bool,
    log: Seq<Answer>,
    at: int,
) -> Course<Verdict> {
    match toolchain::toolchain_for(cargo, current_dir, true, log, at) {
        Err(Pause::Ask(query)) => Err(Pause::Ask(query)),
        Err(Pause::Fail(fault, at)) => Ok((notes.failure("Rust toolchain"@, fault).stopped(), at)),
        Ok((kit, at)) => examined_workspace(
            toolchain_notes(notes, kit.sysroot),
            current_dir,
            kit,
            verbose,
            log,
            at,
        ),
    }
}

fn examine_toolchain(
    findings: Findings,
    current_dir: &PathText,
    cargo: &PathText,
    verbose: bool,
    log: &Vec<Answer>,
    at: usize,
) -> (report: Flow<Report>)
    ensures
        flow::course(report) == examined_toolchain(
            findings@,
            current_dir@,
            cargo@,
            verbose,
            log@,
            at as int,
        ),
{
    proof {
        reveal(examined_toolchain);
        reveal_strlit("");
    }
    assert(""@ =~= Seq::<char>::empty());
    let mut findings = findings;
    match toolchain::resolve_toolchain(cargo, current_dir, true, log, at) {
        Err(Halt::Ask(question)) => Err(Halt::Ask(question)),
        Err(Halt::Fail(error, at)) => {
            findings.failure("Rust toolchain", &error);
            Ok((findings.stopped(), at))
        },
        Ok((kit, at)) => {
            findings.showing("  OK   Rust toolchain: ", &kit.sysroot, "");
            findings.say("  OK   sandbox environment: clean allowlist");
            findings.say("  OK   home directory: private mount");
            findings.say("  OK   runtime filesystem: explicit read-only mounts");
            examine_workspace(findings, current_dir, &kit, verbose, log, at)
        },
    }
}

/// All checks, from the current directory on.
#[verifier::opaque]
pub open spec fn examination(verbose: bool, log: Seq<Answer>, at: int) -> Course<Verdict> {
    let notes = Notes { lines: seq!["cargo-cage doctor"@], failed: false };
    match workspace::current_directory(log, at) {
        Err(Pause::Ask(query)) => Err(Pause::Ask(query)),
        Err(Pause::Fail(fault, at)) => Ok(
            (notes.failure("current directory"@, fault).stopped(), at),
        ),
        Ok((current_dir, at)) => {
            let notes = notes.showing("  OK   current directory: "@, current_dir, Seq::empty());
            match toolchain::program("cargo", "CARGO", current_dir, log, at) {
                Err(Pause::Ask(query)) => Err(Pause::Ask(query)),
                Err(Pause::Fail(fault, at)) => Ok(
                    (notes.failure("Cargo executable"@, fault).stopped(), at),
                ),
                Ok((cargo, at)) => examined_toolchain(
                    notes.showing("  OK   Cargo executable: "@, cargo, Seq::empty()),
                    current_dir,
                    cargo,
                    verbose,
                    log,
                    at,
                ),
            }
        },
    }
}

/// Checks the setup and reports what was found; the exit code is zero exactly
/// when every check passed.
pub fn run_doctor(verbose: bool, log: &Vec<Answer>, at: usize) -> (report: Flow<Report>)
    ensures
        flow::course(report) == examination(verbose, log@, at as int),
{
    proof {
        reveal(examination);
        reveal_strlit("");
    }
    assert(""@ =~= Seq::<char>::empty());
    let mut findings = Findings { lines: Vec::new(), failed: false };
    findings.say("cargo-cage doctor");
    assert(findings@.lines =~= seq!["cargo-cage doctor"@]);
    let (current_dir, at) = match workspace::canonical_current_dir(log, at) {
        Err(Halt::Ask(question)) => {
            return Err(Halt::Ask(question));
        },
        Err(Halt::Fail(error, at)) => {
            findings.failure("current directory", &error);
            return Ok((findings.stopped(), at));
        },
        Ok(found) => found,
    };
    findings.showing("  OK   current directory: ", &current_dir, "");
    let (cargo, at) = match toolchain::resolve_cargo(&current_dir, log, at) {
        Err(Halt::Ask(question)) => {
            return Err(Halt::Ask(question));
        },
        Err(Halt::Fail(error, at)) => {
            findings.failure("Cargo executable", &error);
            return Ok((findings.stopped(), at));
        },
        Ok(found) => found,
    };
    findings.showing("  OK   Cargo executable: ", &cargo, "");
    examine_toolchain(findings, &current_dir, &cargo, verbose, log, at)
}

} // verus!

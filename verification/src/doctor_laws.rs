//! What the doctor looks at, and what it says of it.

use crate::backend::OutputMode;
use crate::cargo_args;
use crate::cargo_policy;
use crate::doctor;
use crate::doctor::{Notes, Probe};
use crate::error::Fault;
use crate::flow;
use crate::flow::{Answer, FileKind, Model, Pause, Query};
use crate::os;
use crate::path;
use crate::policy::{EnvironmentRules, PolicyRules};
use crate::run::Verdict;
use crate::talk;
use crate::target;
use crate::toolchain;
use crate::toolchain::Kit;
use crate::workspace;
use vstd::prelude::*;
use vstd::string::*;

verus! {

/// Whether a text begins with another.
pub open spec fn begins(text: Seq<char>, front: Seq<char>) -> bool {
    exists|rest: Seq<char>| text == #[trigger] (front + rest)
}

/// Whether notes have one more line, which begins as given, and count as failed
/// only if they did before.
pub open spec fn noted(before: Notes, after: Notes, front: Seq<char>) -> bool {
    &&& after.lines.len() == before.lines.len() + 1
    &&& after.lines.drop_last() == before.lines
    &&& begins(after.lines.last(), front)
    &&& after.failed == before.failed
}

/// Whether notes have one more line, which says what has failed and why, and
/// count as failed.
pub open spec fn complained(before: Notes, after: Notes, check: Seq<char>, fault: Fault) -> bool {
    &&& after.lines.len() == before.lines.len() + 1
    &&& after.lines.drop_last() == before.lines
    &&& after.lines.last() == "  FAIL "@ + check + ": "@ + fault.message()
    &&& after.failed
}

proof fn lemma_line(notes: Notes, line: Seq<char>, front: Seq<char>, rest: Seq<char>)
    requires
        line == front + rest,
    ensures
        noted(notes, notes.line(line), front),
{
    assert(notes.line(line).lines.drop_last() =~= notes.lines);
}

proof fn lemma_failure(notes: Notes, check: Seq<char>, fault: Fault)
    ensures
        complained(notes, notes.failure(check, fault), check, fault),
{
    assert(notes.failure(check, fault).lines.drop_last() =~= notes.lines);
}

/// How the doctor ends: with 0 if nothing has failed and with 1 otherwise, with
/// all that was noted, three remarks more if it was asked for them, and a last
/// line that says which it is.
pub proof fn the_doctor_ends_with_its_finding(notes: Notes, verbose: bool)
    ensures
        ({
            let verdict = doctor::conclusion(notes, verbose);
            let count = notes.lines.len() as int;
            &&& verdict.code == if notes.failed {
                1i32
            } else {
                0i32
            }
            &&& verdict.notices.len() == 0
            &&& verdict.output.len() == count + 1 + if verbose {
                3int
            } else {
                0int
            }
            &&& verdict.output.take(count) == notes.lines
            &&& verbose ==> forall|i: int|
                count <= i < count + 3 ==> begins(#[trigger] verdict.output[i], "  INFO "@)
            &&& notes.failed ==> verdict.output.last() == "doctor: one or more checks failed"@
            &&& !notes.failed ==> verdict.output.last()
                == "doctor: environment is ready for an offline sandboxed Cargo command"@
        }),
{
    let verdict = doctor::conclusion(notes, verbose);
    let count = notes.lines.len() as int;
    assert(verdict.output.take(count) =~= notes.lines);
    if verbose {
        let front = "  INFO "@;
        let a = "  INFO no automatic dependency fetch is performed"@;
        let b = "  INFO generated artifacts under target are not trusted automatically"@;
        let c = "  INFO path checks are not race-free against concurrent host changes"@;
        reveal_strlit("  INFO ");
        reveal_strlit("  INFO no automatic dependency fetch is performed");
        reveal_strlit("  INFO generated artifacts under target are not trusted automatically");
        reveal_strlit("  INFO path checks are not race-free against concurrent host changes");
        assert(a =~= front + a.skip(7));
        assert(b =~= front + b.skip(7));
        assert(c =~= front + c.skip(7));
        assert forall|i: int| count <= i < count + 3 implies begins(
            #[trigger] verdict.output[i],
            front,
        ) by {
            if i == count {
                assert(verdict.output[i] == a);
            } else if i == count + 1 {
                assert(verdict.output[i] == b);
            } else {
                assert(verdict.output[i] == c);
            }
        }
    }
}

/// A path that is there is fine, and one that is not there will be created:
/// neither is a failure.
pub proof fn missing_paths_are_no_failure(
    notes: Notes,
    check: Seq<char>,
    place: Seq<u8>,
    exists: bool,
)
    ensures
        exists ==> noted(
            notes,
            doctor::path_notes(notes, check, place, exists),
            "  OK   "@ + check + ": "@ + os::lossy_text(place),
        ),
        !exists ==> noted(
            notes,
            doctor::path_notes(notes, check, place, exists),
            "  WARN "@ + check + ": "@ + os::lossy_text(place)
                + " (will be created by the build)"@,
        ),
{
    let ok = "  OK   "@ + check + ": "@ + os::lossy_text(place);
    let warn = "  WARN "@ + check + ": "@ + os::lossy_text(place)
        + " (will be created by the build)"@;
    assert(ok + Seq::<char>::empty() =~= ok);
    assert(warn + Seq::<char>::empty() =~= warn);
    if exists {
        lemma_line(notes, ok + Seq::<char>::empty(), ok, Seq::empty());
    } else {
        lemma_line(notes, warn, warn, Seq::empty());
    }
}

/// The target is that of a build without options. It is validated, never
/// prepared, and then looked at.
pub proof fn the_doctor_looks_at_the_target(
    notes: Notes,
    current_dir: Seq<u8>,
    root: Seq<u8>,
    log: Seq<Answer>,
    at: int,
)
    ensures
        ({
            let course = doctor::checked_target(notes, current_dir, root, log, at);
            match cargo_args::requested_target(Seq::empty(), current_dir, root, log, at) {
                Err(Pause::Ask(query)) => talk::asks(course, query),
                Err(Pause::Fail(fault, _)) => course matches Ok(((after, found, exists), _))
                    && complained(notes, after, "target directory"@, fault) && found is None
                    && !exists,
                Ok((requested, next)) => match target::validated_target(
                    requested,
                    root,
                    log,
                    next,
                ) {
                    Err(Pause::Ask(query)) => talk::asks(course, query),
                    Err(Pause::Fail(fault, _)) => course matches Ok(((after, found, exists), _))
                        && complained(notes, after, "target directory"@, fault) && found is None
                        && !exists,
                    Ok((place, then)) => {
                        &&& talk::silent(log, then) ==> talk::asks(course, Query::Inspect(place))
                        &&& talk::shown(log, then) ==> talk::gives(
                            course,
                            (
                                doctor::path_notes(notes, "target directory"@, place, true),
                                Some(place),
                                true,
                            ),
                            then + 1,
                        )
                        &&& talk::missing(log, then) || talk::unreadable(log, then)
                            ==> talk::gives(
                            course,
                            (
                                doctor::path_notes(notes, "target directory"@, place, false),
                                Some(place),
                                false,
                            ),
                            then + 1,
                        )
                    },
                },
            }
        }),
{
    reveal(doctor::checked_target);
    match cargo_args::requested_target(Seq::empty(), current_dir, root, log, at) {
        Err(Pause::Fail(fault, _)) => {
            lemma_failure(notes, "target directory"@, fault);
        },
        Ok((requested, next)) => {
            if let Err(Pause::Fail(fault, _)) = target::validated_target(
                requested,
                root,
                log,
                next,
            ) {
                lemma_failure(notes, "target directory"@, fault);
            }
        },
        _ => {},
    }
}

/// The build directory lies in the target, is validated and looked at; without
/// a target nothing is.
pub proof fn the_doctor_looks_at_the_build_directory(
    notes: Notes,
    found: Option<Seq<u8>>,
    root: Seq<u8>,
    log: Seq<Answer>,
    at: int,
)
    ensures
        ({
            let course = doctor::checked_build_dir(notes, found, root, log, at);
            &&& found is None ==> talk::gives(course, notes, at)
            &&& found matches Some(place) ==> match target::validated_target(
                path::join(place, os::lit("build")),
                root,
                log,
                at,
            ) {
                Err(Pause::Ask(query)) => talk::asks(course, query),
                Err(Pause::Fail(fault, _)) => course matches Ok((after, _)) && complained(
                    notes,
                    after,
                    "target build directory"@,
                    fault,
                ),
                Ok((build, then)) => {
                    &&& talk::silent(log, then) ==> talk::asks(course, Query::Inspect(build))
                    &&& talk::shown(log, then) ==> talk::gives(
                        course,
                        doctor::path_notes(notes, "target build directory"@, build, true),
                        then + 1,
                    )
                    &&& talk::missing(log, then) || talk::unreadable(log, then) ==> talk::gives(
                        course,
                        doctor::path_notes(notes, "target build directory"@, build, false),
                        then + 1,
                    )
                },
            }
        }),
{
    reveal(doctor::checked_build_dir);
    if let Some(place) = found {
        if let Err(Pause::Fail(fault, _)) = target::validated_target(
            path::join(place, os::lit("build")),
            root,
            log,
            at,
        ) {
            lemma_failure(notes, "target build directory"@, fault);
        }
    }
}

/// The lockfile is looked at and never created.
pub proof fn the_doctor_looks_at_the_lockfile(
    notes: Notes,
    root: Seq<u8>,
    log: Seq<Answer>,
    at: int,
)
    requires
        0 <= at,
    ensures
        ({
            let course = doctor::checked_lockfile(notes, root, log, at);
            let file = path::join(root, os::lit("Cargo.lock"));
            &&& talk::silent(log, at) ==> talk::asks(course, Query::Inspect(file))
            &&& talk::shows(log, at, FileKind::File) ==> talk::gives(
                course,
                (doctor::path_notes(notes, "workspace lockfile"@, file, true), true),
                at + 1,
            )
            &&& talk::missing(log, at) ==> talk::gives(
                course,
                (doctor::path_notes(notes, "workspace lockfile"@, file, false), false),
                at + 1,
            )
            &&& talk::unreadable(log, at) || (talk::shown(log, at) && !talk::shows(
                log,
                at,
                FileKind::File,
            )) ==> (course matches Ok(((after, present), _)) && !present && after.failed
                && after.lines.len() == notes.lines.len() + 1 && begins(
                after.lines.last(),
                "  FAIL "@ + "workspace lockfile"@ + ": "@,
            ))
        }),
{
    reveal(doctor::checked_lockfile);
    reveal(target::inspected_lockfile);
}

/// Caches that are missing are a warning, and three lines are added in any
/// case.
pub proof fn the_doctor_warns_of_missing_caches(notes: Notes, log: Seq<Answer>, at: int)
    ensures
        ({
            let course = doctor::checked_cache(notes, log, at);
            let count = notes.lines.len() as int;
            match workspace::cache_present(log, at) {
                Err(pause) => talk::pauses(course, pause),
                Ok((present, next)) => course matches Ok((after, last)) && last == next
                    && after.failed == notes.failed && after.lines.len() == count + 3
                    && after.lines.take(count) == notes.lines && (present ==> after.lines[count]
                    == "  OK   Cargo registry/Git cache roots are present"@) && (!present
                    ==> after.lines[count]
                    == "  WARN Cargo registry/Git caches are missing; offline builds may need `cargo fetch`"@),
            }
        }),
{
    reveal(doctor::checked_cache);
    if let Ok((after, _)) = doctor::checked_cache(notes, log, at) {
        assert(after.lines.take(notes.lines.len() as int) =~= notes.lines);
    }
}

/// The sandbox is tried out with a shell that does nothing, with what a build
/// could read and write of what is there.
pub proof fn the_probe_does_nothing(
    probe: Probe,
    rules: PolicyRules,
    environment: EnvironmentRules,
)
    ensures
        ({
            let job = probe.job(rules, environment);
            let sources = job.policy.read_only_paths;
            let targets = job.policy.writable_paths;
            &&& job.program == os::lit("/bin/sh")
            &&& job.args == seq![os::lit("-c"), os::lit("exit 0")]
            &&& job.current_dir == probe.current_dir
            &&& job.output == OutputMode::Capture
            &&& job.environment == environment
            &&& job.policy.network == rules.network
            &&& job.policy.private_paths == rules.private_paths
            &&& job.policy.hidden_paths == rules.hidden_paths
            &&& job.policy.resources == rules.resources
            &&& sources.len() > 0 && sources[0] == probe.workspace
            &&& !path::same_path(probe.current_dir, probe.workspace) ==> sources.len() > 1
                && sources[1] == probe.current_dir
            &&& forall|i: int|
                0 <= i < probe.kit.read_only_paths.len() ==> sources.contains(
                    #[trigger] probe.kit.read_only_paths[i],
                )
            &&& forall|place: Seq<u8>| #[trigger]
                targets.contains(place) <==> probe.target == Some(place) || probe.lockfile == Some(
                    place,
                )
        }),
{
    let sources = probe.sources();
    let targets = probe.writable();
    let shift = sources.len() - probe.kit.read_only_paths.len();
    assert forall|i: int| 0 <= i < probe.kit.read_only_paths.len() implies sources.contains(
        #[trigger] probe.kit.read_only_paths[i],
    ) by {
        assert(sources[i + shift] == probe.kit.read_only_paths[i]);
    }
    if let Some(place) = probe.target {
        assert(targets[0] == place);
    }
    if let Some(place) = probe.lockfile {
        assert(targets[targets.len() - 1] == place);
    }
}

/// The probe runs under the policy of a build, offline and with the private
/// temporary directory. Only a probe that succeeds is fine.
pub proof fn the_probe_runs_like_a_build(
    notes: Notes,
    probe: Probe,
    log: Seq<Answer>,
    at: int,
)
    ensures
        ({
            let course = doctor::checked_sandbox(notes, probe, log, at);
            match cargo_policy::built_policy(true, log, at) {
                Err(Pause::Ask(query)) => talk::asks(course, query),
                Err(Pause::Fail(fault, _)) => course matches Ok((after, _)) && complained(
                    notes,
                    after,
                    "sandbox policy"@,
                    fault,
                ),
                Ok((rules, next)) => match workspace::environment_for(
                    probe.kit,
                    probe.current_dir,
                    seq![
                        (os::lit("CARGO_NET_OFFLINE"), os::lit("true")),
                        (os::lit("TMPDIR"), os::lit("/tmp")),
                    ],
                    log,
                    next,
                ) {
                    Err(pause) => talk::pauses(course, pause),
                    Ok((environment, then)) => {
                        &&& talk::silent(log, then) ==> talk::asks(
                            course,
                            Query::RunSandbox(probe.job(rules, environment)),
                        )
                        &&& flow::given(log, then) matches Some(Answer::Sandboxed(Ok(outcome)))
                            ==> if outcome.model().status.code == Some(0i32) {
                            course matches Ok((after, _)) && noted(
                                notes,
                                after,
                                "  OK   Bubblewrap namespaces and sandbox preflight"@,
                            )
                        } else {
                            course matches Ok((after, _)) && after.failed && after.lines.len()
                                == notes.lines.len() + 1 && begins(
                                after.lines.last(),
                                "  FAIL Bubblewrap sandbox probe: process exited with "@,
                            )
                        }
                        &&& flow::given(log, then) matches Some(Answer::Sandboxed(Err(error)))
                            ==> (course matches Ok((after, _)) && complained(
                            notes,
                            after,
                            "Bubblewrap sandbox probe"@,
                            error@,
                        ))
                    },
                },
            }
        }),
{
    reveal(doctor::checked_sandbox);
    let fine = "  OK   Bubblewrap namespaces and sandbox preflight"@;
    assert(fine + Seq::<char>::empty() =~= fine);
    lemma_line(notes, fine, fine, Seq::empty());
    assert forall|check: Seq<char>, fault: Fault| #[trigger]
        complained(notes, notes.failure(check, fault), check, fault) by {
        lemma_failure(notes, check, fault);
    }
    match cargo_policy::built_policy(true, log, at) {
        Err(Pause::Fail(fault, _)) => {
            lemma_failure(notes, "sandbox policy"@, fault);
        },
        Ok((rules, next)) => {
            if let Ok((environment, then)) = workspace::environment_for(
                probe.kit,
                probe.current_dir,
                doctor::probe_overrides(),
                log,
                next,
            ) {
                if let Some(Answer::Sandboxed(Err(error))) = flow::given(log, then) {
                    lemma_failure(notes, "Bubblewrap sandbox probe"@, error@);
                }
            }
        },
        _ => {},
    }
}

/// Whether the doctor stopped because a check failed.
pub open spec fn gave_up(
    course: flow::Course<Verdict>,
    notes: Notes,
    check: Seq<char>,
    fault: Fault,
) -> bool {
    course matches Ok((verdict, _)) && verdict.code == 1 && verdict.output == notes.lines.push(
        "  FAIL "@ + check + ": "@ + fault.message(),
    )
}

/// What the doctor looks at first: the current directory, Cargo, the toolchain
/// with its documentation tool, and the workspace. Where one of them fails it
/// stops with 1; the rest is looked at in any case.
pub proof fn the_doctor_goes_step_by_step(verbose: bool, log: Seq<Answer>, at: int)
    ensures
        ({
            let course = doctor::examination(verbose, log, at);
            let first = Notes { lines: seq!["cargo-cage doctor"@], failed: false };
            match workspace::current_directory(log, at) {
                Err(Pause::Ask(query)) => talk::asks(course, query),
                Err(Pause::Fail(fault, _)) => gave_up(course, first, "current directory"@, fault),
                Ok((current_dir, a)) => {
                    let second = first.showing(
                        "  OK   current directory: "@,
                        current_dir,
                        Seq::empty(),
                    );
                    match toolchain::program("cargo", "CARGO", current_dir, log, a) {
                        Err(Pause::Ask(query)) => talk::asks(course, query),
                        Err(Pause::Fail(fault, _)) => gave_up(
                            course,
                            second,
                            "Cargo executable"@,
                            fault,
                        ),
                        Ok((cargo, b)) => course == doctor::examined_toolchain(
                            second.showing("  OK   Cargo executable: "@, cargo, Seq::empty()),
                            current_dir,
                            cargo,
                            verbose,
                            log,
                            b,
                        ),
                    }
                },
            }
        }),
{
    reveal(doctor::examination);
}

/// The toolchain is looked for with its documentation tool, and then the
/// workspace.
pub proof fn the_doctor_looks_for_a_whole_toolchain(
    notes: Notes,
    current_dir: Seq<u8>,
    cargo: Seq<u8>,
    kit: Kit,
    verbose: bool,
    log: Seq<Answer>,
    at: int,
)
    ensures
        ({
            let course = doctor::examined_toolchain(notes, current_dir, cargo, verbose, log, at);
            match toolchain::toolchain_for(cargo, current_dir, true, log, at) {
                Err(Pause::Ask(query)) => talk::asks(course, query),
                Err(Pause::Fail(fault, _)) => gave_up(course, notes, "Rust toolchain"@, fault),
                Ok((found, next)) => course == doctor::examined_workspace(
                    doctor::toolchain_notes(notes, found.sysroot),
                    current_dir,
                    found,
                    verbose,
                    log,
                    next,
                ),
            }
        }),
        ({
            let course = doctor::examined_workspace(notes, current_dir, kit, verbose, log, at);
            match workspace::located_workspace(kit, current_dir, Seq::empty(), log, at) {
                Err(Pause::Ask(query)) => talk::asks(course, query),
                Err(Pause::Fail(fault, _)) => gave_up(course, notes, "workspace discovery"@, fault),
                Ok((found, next)) => course == doctor::checked_workspace(
                    notes.showing("  OK   workspace: "@, found, Seq::empty()),
                    current_dir,
                    found,
                    kit,
                    verbose,
                    log,
                    next,
                ),
            }
        }),
        doctor::toolchain_notes(notes, kit.sysroot).failed == notes.failed,
        doctor::toolchain_notes(notes, kit.sysroot).lines.len() == notes.lines.len() + 4,
        doctor::toolchain_notes(notes, kit.sysroot).lines[notes.lines.len() as int]
            == "  OK   Rust toolchain: "@ + os::lossy_text(kit.sysroot),
{
    reveal(doctor::examined_toolchain);
    reveal(doctor::examined_workspace);
    assert("  OK   Rust toolchain: "@ + os::lossy_text(kit.sysroot) + Seq::<char>::empty()
        =~= "  OK   Rust toolchain: "@ + os::lossy_text(kit.sysroot));
}

/// What the doctor looks at in a workspace: the target, its build directory, the
/// lockfile, the caches, and at last the sandbox, which is tried out with what
/// is there of the target and the lockfile.
pub proof fn the_doctor_looks_at_the_workspace(
    notes: Notes,
    current_dir: Seq<u8>,
    root: Seq<u8>,
    kit: Kit,
    verbose: bool,
    log: Seq<Answer>,
    at: int,
)
    ensures
        doctor::checked_workspace(
            notes,
            current_dir,
            root,
            kit,
            verbose,
            log,
            at,
        ) matches Ok((verdict, _)) ==> (doctor::checked_target(
            notes,
            current_dir,
            root,
            log,
            at,
        ) matches Ok(((first, found, exists), a)) && (doctor::checked_build_dir(
            first,
            found,
            root,
            log,
            a,
        ) matches Ok((second, b)) && (doctor::checked_lockfile(second, root, log, b) matches Ok((
            (third, present),
            c,
        )) && (doctor::checked_cache(third, log, c) matches Ok((fourth, d)) && (
        doctor::checked_sandbox(
            fourth,
            Probe {
                current_dir,
                workspace: root,
                target: if exists {
                    found
                } else {
                    None
                },
                lockfile: if present {
                    Some(path::join(root, os::lit("Cargo.lock")))
                } else {
                    None
                },
                kit,
            },
            log,
            d,
        ) matches Ok((last, _)) && verdict == doctor::conclusion(last, verbose)))))),
        doctor::checked_target(notes, current_dir, root, log, at) matches Err(pause)
            ==> talk::pauses(
            doctor::checked_workspace(notes, current_dir, root, kit, verbose, log, at),
            pause,
        ),
{
    reveal(doctor::checked_workspace);
}

} // verus!

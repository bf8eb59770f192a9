//! What the launcher allows a program, and how a running program is watched.

use crate::access;
use crate::access::{Abi, AccessFs, LandlockSupport};
use crate::capture;
use crate::capture::{CapturedRun, Ended, Watch};
use crate::cgroup;
use crate::error::{Fault, IoFault};
use crate::flow;
use crate::flow::{Answer, Captured, Exit, Model, Pause, Query, Stream, Timer};
use crate::launcher;
use crate::launcher::{Grant, Grants};
use crate::os;
use crate::path;
use crate::policy::TimeSpan;
use crate::talk;
use vstd::prelude::*;
use vstd::string::*;
use vstd::utf8::*;

verus! {

// ---------------------------------------------------------------------------
// Rights
// ---------------------------------------------------------------------------

/// Who has a right: every path can be read, every directory but a lockfile
/// listed; programs run where they may be executed, written or are private;
/// only writable and private paths can be changed, a lockfile and devices can
/// be written to, sockets and pipes are private, and nobody makes devices or
/// controls them.
pub proof fn rights_belong_to_their_grants(grant: Grant)
    ensures
        grant.allows(AccessFs::ReadFile),
        grant.allows(AccessFs::ReadDir) <==> grant != Grant::Lockfile,
        grant.allows(AccessFs::Execute) <==> grant == Grant::Execute || grant == Grant::Write
            || grant == Grant::Private,
        grant.allows(AccessFs::WriteFile) <==> grant == Grant::Write || grant == Grant::Lockfile
            || grant == Grant::Private || grant == Grant::Device,
        grant.allows(AccessFs::Truncate) <==> grant == Grant::Write || grant == Grant::Lockfile
            || grant == Grant::Private,
        grant.allows(AccessFs::RemoveDir) <==> grant == Grant::Write || grant == Grant::Private,
        grant.allows(AccessFs::RemoveFile) <==> grant == Grant::Write || grant == Grant::Private,
        grant.allows(AccessFs::MakeDir) <==> grant == Grant::Write || grant == Grant::Private,
        grant.allows(AccessFs::MakeReg) <==> grant == Grant::Write || grant == Grant::Private,
        grant.allows(AccessFs::MakeSym) <==> grant == Grant::Write || grant == Grant::Private,
        grant.allows(AccessFs::Refer) <==> grant == Grant::Write || grant == Grant::Private,
        grant.allows(AccessFs::MakeSock) <==> grant == Grant::Private,
        grant.allows(AccessFs::MakeFifo) <==> grant == Grant::Private,
        !grant.allows(AccessFs::MakeChar),
        !grant.allows(AccessFs::MakeBlock),
        !grant.allows(AccessFs::IoctlDev),
{
}

/// The paths of a grant.
pub open spec fn paths_of(grants: Grants, grant: Grant) -> Seq<Seq<u8>> {
    match grant {
        Grant::Read => grants.read,
        Grant::Execute => grants.execute,
        Grant::Write => grants.write,
        Grant::Lockfile => grants.lockfile,
        Grant::Private => grants.private,
        Grant::Proc => grants.proc,
        Grant::Device => grants.device,
    }
}

/// A ruleset takes every right away and gives each path back what it was
/// granted, and nothing else; the network is denied as requested. It takes a
/// kernel of the fifth version at least.
pub proof fn rulesets_grant_what_was_planned(grants: Grants, support: LandlockSupport)
    ensures
        launcher::ruleset(grants, support) is Ok <==> support.filesystem_abi.rank() >= 5,
        launcher::ruleset(grants, support) matches Err(fault) ==> fault is SandboxSetup,
        launcher::ruleset(grants, support) matches Ok(rules) ==> {
            &&& forall|right: AccessFs| #[trigger] rules.handled.has(right)
            &&& rules.deny_tcp == grants.network_deny
            &&& rules.scope == support.scope_supported
            &&& support.filesystem_abi.rank() >= 9 ==> rules.handled.bits == 0x1ffff
            &&& forall|grant: Grant, path: Seq<u8>| #[trigger]
                rules.rules.contains((grant, path)) <==> paths_of(grants, grant).contains(path)
        },
{
    if let Ok(rules) = launcher::ruleset(grants, support) {
        let abi = if support.filesystem_abi.rank() >= 9 {
            Abi::V9
        } else {
            Abi::V5
        };
        assert forall|right: AccessFs| #[trigger] rules.handled.has(right) by {
            access::required_version_handles_every_right(abi, right);
        }
        assert forall|grant: Grant, path: Seq<u8>| #[trigger]
            rules.rules.contains((grant, path)) <==> paths_of(grants, grant).contains(path) by {
            lemma_planned(grants, grant, path);
        }
    }
}

proof fn lemma_rules_for(grant: Grant, paths: Seq<Seq<u8>>, wanted: Grant, path: Seq<u8>)
    ensures
        launcher::rules_for(grant, paths).contains((wanted, path)) <==> grant == wanted
            && paths.contains(path),
{
    let rules = launcher::rules_for(grant, paths);
    if grant == wanted && paths.contains(path) {
        let i = choose|i: int| 0 <= i < paths.len() && paths[i] == path;
        assert(rules[i] == (wanted, path));
    }
    if rules.contains((wanted, path)) {
        let i = choose|i: int| 0 <= i < rules.len() && rules[i] == (wanted, path);
        assert(paths[i] == path);
    }
}

proof fn lemma_either<A>(left: Seq<A>, right: Seq<A>, value: A)
    ensures
        (left + right).contains(value) <==> left.contains(value) || right.contains(value),
{
    let whole = left + right;
    if left.contains(value) {
        let i = choose|i: int| 0 <= i < left.len() && left[i] == value;
        assert(whole[i] == value);
    }
    if right.contains(value) {
        let i = choose|i: int| 0 <= i < right.len() && right[i] == value;
        assert(whole[left.len() + i] == value);
    }
    if whole.contains(value) {
        let i = choose|i: int| 0 <= i < whole.len() && whole[i] == value;
        if i < left.len() {
            assert(left[i] == value);
        } else {
            assert(right[i - left.len()] == value);
        }
    }
}

proof fn lemma_planned(grants: Grants, grant: Grant, path: Seq<u8>)
    ensures
        launcher::plan_rules(grants).contains((grant, path)) <==> paths_of(grants, grant).contains(
            path,
        ),
{
    let rule = (grant, path);
    let b0 = launcher::rules_for(Grant::Read, grants.read);
    let b1 = launcher::rules_for(Grant::Execute, grants.execute);
    let b2 = launcher::rules_for(Grant::Write, grants.write);
    let b3 = launcher::rules_for(Grant::Lockfile, grants.lockfile);
    let b4 = launcher::rules_for(Grant::Private, grants.private);
    let b5 = launcher::rules_for(Grant::Proc, grants.proc);
    let b6 = launcher::rules_for(Grant::Device, grants.device);
    lemma_rules_for(Grant::Read, grants.read, grant, path);
    lemma_rules_for(Grant::Execute, grants.execute, grant, path);
    lemma_rules_for(Grant::Write, grants.write, grant, path);
    lemma_rules_for(Grant::Lockfile, grants.lockfile, grant, path);
    lemma_rules_for(Grant::Private, grants.private, grant, path);
    lemma_rules_for(Grant::Proc, grants.proc, grant, path);
    lemma_rules_for(Grant::Device, grants.device, grant, path);
    lemma_either(b0, b1, rule);
    lemma_either(b0 + b1, b2, rule);
    lemma_either(b0 + b1 + b2, b3, rule);
    lemma_either(b0 + b1 + b2 + b3, b4, rule);
    lemma_either(b0 + b1 + b2 + b3 + b4, b5, rule);
    lemma_either(b0 + b1 + b2 + b3 + b4 + b5, b6, rule);
}

// ---------------------------------------------------------------------------
// The launcher
// ---------------------------------------------------------------------------

/// A path that the launcher is given must be absolute, without `..`, and not
/// the root of the filesystem; an option without a path is refused too.
pub proof fn unfit_paths_are_refused(
    args: Seq<Seq<u8>>,
    index: int,
    grant: Grant,
    grants: Grants,
)
    requires
        0 <= index < args.len(),
        args[index] != os::lit("--"),
        launcher::grant_named(os::shown(args[index])) == Some(grant),
    ensures
        index + 1 >= args.len() ==> (launcher::parsed_from(args, index, grants) matches Err(fault)
            && fault is InvalidInvocation),
        index + 1 < args.len() && (!path::absolute(args[index + 1]) || path::has_parent_part(
            args[index + 1],
        ) || path::same_path(args[index + 1], os::lit("/"))) ==> (launcher::parsed_from(
            args,
            index,
            grants,
        ) matches Err(fault) && fault is Policy),
{
}

/// The words behind `--` are the program, which must be absolute and without
/// `..`, and its arguments as they are; without `--`, or without a program
/// behind it, nothing is started.
pub proof fn the_program_stands_behind_the_separator(
    args: Seq<Seq<u8>>,
    index: int,
    grants: Grants,
)
    requires
        0 <= index < args.len(),
        args[index] == os::lit("--"),
    ensures
        index + 1 >= args.len() ==> launcher::parsed_from(args, index, grants) is Err,
        index + 1 < args.len() && path::absolute(args[index + 1]) && !path::has_parent_part(
            args[index + 1],
        ) ==> launcher::parsed_from(args, index, grants) == Ok::<Grants, Fault>(
            Grants { program: args[index + 1], args: args.skip(index + 2), ..grants },
        ),
        index + 1 < args.len() && (!path::absolute(args[index + 1]) || path::has_parent_part(
            args[index + 1],
        )) ==> launcher::parsed_from(args, index, grants) is Err,
        launcher::parsed(Seq::empty()) is Err,
{
}

/// The launcher looks for the marker of the sandbox, asks the kernel what it
/// can do, has everything restricted as planned, and starts the program only if
/// all of it took hold; the exit of the program is its own.
pub proof fn the_launcher_goes_step_by_step(
    args: Seq<Seq<u8>>,
    grants: Grants,
    log: Seq<Answer>,
    at: int,
)
    requires
        0 <= at,
        launcher::parsed(args) == Ok::<Grants, Fault>(grants),
    ensures
        flow::given(log, at) is None ==> launcher::launched(args, log, at) == Err::<
            (Exit, int),
            Pause,
        >(Pause::Ask(Query::ReadText(os::lit("/run/cargo-cage-launcher-context")))),
        flow::given(log, at) matches Some(Answer::Content(Err(_))) ==> (launcher::launched(
            args,
            log,
            at,
        ) matches Err(Pause::Fail(fault, _)) && fault is SandboxSetup),
        flow::given(log, at) matches Some(Answer::Content(Ok(content))) ==> {
            &&& content@ != "cargo-cage-launcher-context\n"@ ==> (launcher::launched(
                args,
                log,
                at,
            ) matches Err(Pause::Fail(fault, _)) && fault is SandboxSetup)
            &&& content@ == "cargo-cage-launcher-context\n"@ ==> {
                &&& flow::given(log, at + 1) is None ==> launcher::launched(args, log, at) == Err::<
                    (Exit, int),
                    Pause,
                >(Pause::Ask(Query::Support))
                &&& flow::given(log, at + 1) matches Some(Answer::Supported(support))
                    ==> launched_with(args, grants, support, log, at)
            }
        },
{
    reveal(launcher::launched);
}

/// How the launcher goes on when it knows what the kernel can do.
pub open spec fn launched_with(
    args: Seq<Seq<u8>>,
    grants: Grants,
    support: LandlockSupport,
    log: Seq<Answer>,
    at: int,
) -> bool {
    match launcher::ruleset(grants, support) {
        Err(fault) => launcher::launched(args, log, at) == Err::<(Exit, int), Pause>(
            Pause::Fail(fault, at + 2),
        ),
        Ok(rules) => {
            &&& flow::given(log, at + 2) is None ==> launcher::launched(args, log, at) == Err::<
                (Exit, int),
                Pause,
            >(Pause::Ask(Query::Restrict(rules)))
            &&& flow::given(log, at + 2) matches Some(Answer::Restricted(Ok(enforcement))) ==> {
                let held = enforcement.fully_enforced && enforcement.no_new_privs;
                &&& !held ==> launcher::launched(args, log, at) is Err && launcher::launched(
                    args,
                    log,
                    at,
                )->Err_0 is Fail
                &&& held && flow::given(log, at + 3) is None ==> launcher::launched(args, log, at)
                    == Err::<(Exit, int), Pause>(
                    Pause::Ask(Query::RunProgram(grants.program, grants.args)),
                )
                &&& held ==> (flow::given(log, at + 3) matches Some(Answer::Exited(Ok(exit)))
                    ==> launcher::launched(args, log, at) == Ok::<(Exit, int), Pause>(
                    (exit, at + 4),
                ))
            }
        },
    }
}

/// A program that ended by itself hands on its code; one that a signal ended
/// hands on 128 and the number of the signal.
pub proof fn exits_are_handed_on(exit: Exit)
    ensures
        exit.code matches Some(code) ==> launcher::exit_code(exit) == code,
        exit.code is None ==> (exit.signal matches Some(signal) ==> launcher::exit_code(exit) == 128
            + signal),
        exit.code is None && exit.signal is None ==> launcher::exit_code(exit) == 129,
{
}

// ---------------------------------------------------------------------------
// Watching
// ---------------------------------------------------------------------------

/// A process is watched until it ends or its time is over; then its group is
/// killed and its end awaited.
pub proof fn processes_are_watched_until_they_end(
    child: u32,
    group: Seq<u8>,
    wall_time: TimeSpan,
    log: Seq<Answer>,
    at: int,
)
    requires
        0 <= at,
    ensures
        flow::given(log, at) is None ==> capture::watched(child, group, wall_time, log, at)
            == Err::<(Ended, int), Pause>(
            Pause::Ask(Query::StartTimer(Timer::Wall, wall_time)),
        ),
        flow::given(log, at) matches Some(Answer::Done(_)) ==> capture::watched(
            child,
            group,
            wall_time,
            log,
            at,
        ) == capture::watched_from(child, group, log, at + 1),
        flow::given(log, at) is None ==> capture::watched_from(child, group, log, at) == Err::<
            (Ended, int),
            Pause,
        >(Pause::Ask(Query::Poll(child))),
        flow::given(log, at) matches Some(Answer::Polled(Ok(Some(exit)))) ==> capture::watched_from(
            child,
            group,
            log,
            at,
        ) == Ok::<(Ended, int), Pause>((Ended { exit, expired: false }, at + 1)),
        flow::given(log, at) matches Some(Answer::Polled(Ok(None))) ==> {
            &&& flow::given(log, at + 1) is None ==> capture::watched_from(child, group, log, at)
                == Err::<(Ended, int), Pause>(Pause::Ask(Query::TimerExpired(Timer::Wall)))
            &&& flow::given(log, at + 1) matches Some(Answer::Holds(true)) ==> (cgroup::killed(
                group,
                log,
                at + 2,
            ) matches Ok((_, dead)) ==> {
                &&& flow::given(log, dead) is None ==> capture::watched_from(child, group, log, at)
                    == Err::<(Ended, int), Pause>(Pause::Ask(Query::Await(child)))
                &&& flow::given(log, dead) matches Some(Answer::Exited(Ok(exit)))
                    ==> capture::watched_from(child, group, log, at) == Ok::<(Ended, int), Pause>(
                    (Ended { exit, expired: true }, dead + 1),
                )
            })
            &&& flow::given(log, at + 1) matches Some(Answer::Holds(false)) ==> (flow::given(
                log,
                at + 2,
            ) matches Some(Answer::Done(_)) ==> capture::watched_from(child, group, log, at)
                == capture::watched_from(child, group, log, at + 3))
        },
{
    reveal(capture::watched);
    reveal(capture::timed_out);
    if let Ok((_, dead)) = cgroup::killed(group, log, at + 2) {
        cgroup::lemma_killed_advances(group, log, at + 2);
    }
}

/// While output is captured, a flood of it or the end of the time kills the
/// whole group and the process, once.
pub proof fn floods_and_overtime_end_a_capture(
    child: u32,
    group: Seq<u8>,
    state: Watch,
    log: Seq<Answer>,
    at: int,
)
    requires
        0 <= at,
    ensures
        ({
            let course = capture::guarded(child, group, state, log, at);
            &&& flow::given(log, at) is None ==> course == Err::<(Watch, int), Pause>(
                Pause::Ask(Query::OverLimit(child)),
            )
            &&& flow::given(log, at) matches Some(Answer::Holds(over)) ==> {
                &&& state.stopped ==> course == Ok::<(Watch, int), Pause>((state, at + 1))
                &&& !state.stopped && over ==> match capture::stopped(child, group, log, at + 1) {
                    Ok((_, next)) => course == Ok::<(Watch, int), Pause>(
                        (Watch { stopped: true, expired: state.expired }, next),
                    ),
                    Err(pause) => course == Err::<(Watch, int), Pause>(pause),
                }
                &&& !state.stopped && !over ==> {
                    &&& flow::given(log, at + 1) is None ==> course == Err::<(Watch, int), Pause>(
                        Pause::Ask(Query::TimerExpired(Timer::Wall)),
                    )
                    &&& flow::given(log, at + 1) matches Some(Answer::Holds(false)) ==> course
                        == Ok::<(Watch, int), Pause>((state, at + 2))
                    &&& flow::given(log, at + 1) matches Some(Answer::Holds(true))
                        ==> match capture::stopped(child, group, log, at + 2) {
                        Ok((_, next)) => course == Ok::<(Watch, int), Pause>(
                            (Watch { stopped: true, expired: true }, next),
                        ),
                        Err(pause) => course == Err::<(Watch, int), Pause>(pause),
                    }
                }
            }
        }),
        cgroup::killed(group, log, at) matches Ok((_, dead)) ==> {
            &&& flow::given(log, dead) is None ==> capture::stopped(child, group, log, at) == Err::<
                ((), int),
                Pause,
            >(Pause::Ask(Query::Kill(child)))
            &&& flow::given(log, dead) matches Some(Answer::Done(_)) ==> capture::stopped(
                child,
                group,
                log,
                at,
            ) == Ok::<((), int), Pause>(((), dead + 1))
        },
{
    reveal(capture::guarded);
    reveal(capture::stopped);
    if cgroup::killed(group, log, at) is Ok {
        cgroup::lemma_killed_advances(group, log, at);
    }
}

/// What was captured is the standard output and the standard error of the
/// process, each as it was read, unless there was too much of it.
pub proof fn captures_hold_both_streams(child: u32, ended: Ended, log: Seq<Answer>, at: int)
    requires
        0 <= at,
    ensures
        ({
            let course = capture::gathered(child, ended, log, at);
            &&& flow::given(log, at) is None ==> course == Err::<(CapturedRun, int), Pause>(
                Pause::Ask(Query::Collect(child, Stream::Stdout)),
            )
            &&& flow::captured(Query::FreshName, log, at) matches Ok((Captured::Read(stdout), _))
                ==> {
                &&& flow::given(log, at + 1) is None ==> course == Err::<(CapturedRun, int), Pause>(
                    Pause::Ask(Query::Collect(child, Stream::Stderr)),
                )
                &&& flow::captured(Query::FreshName, log, at + 1) matches Ok(
                    (Captured::Read(stderr), _),
                ) ==> {
                    &&& flow::given(log, at + 2) is None ==> course == Err::<
                        (CapturedRun, int),
                        Pause,
                    >(Pause::Ask(Query::OverLimit(child)))
                    &&& flow::given(log, at + 2) matches Some(Answer::Holds(true)) ==> (
                    course matches Err(Pause::Fail(fault, _)) && fault is SandboxSetup)
                    &&& flow::given(log, at + 2) matches Some(Answer::Holds(false)) ==> course
                        == Ok::<(CapturedRun, int), Pause>(
                        (
                            CapturedRun {
                                exit: ended.exit,
                                stdout,
                                stderr,
                                expired: ended.expired,
                            },
                            at + 3,
                        ),
                    )
                }
            }
        }),
        capture::MAX_CAPTURED_OUTPUT == 1024 * 1024,
{
    reveal(capture::gathered);
}

/// A capture begins with both pipes in place and the clock started; it goes on
/// until the process has ended, and then hands over what was captured.
pub proof fn captures_last_until_the_end(
    child: u32,
    group: Seq<u8>,
    wall_time: TimeSpan,
    state: Watch,
    log: Seq<Answer>,
    at: int,
)
    requires
        0 <= at,
    ensures
        flow::given(log, at) is None ==> capture::capturing(child, group, wall_time, log, at)
            == Err::<(CapturedRun, int), Pause>(Pause::Ask(Query::Piped(child))),
        flow::given(log, at) matches Some(Answer::Holds(false)) ==> capture::capturing(
            child,
            group,
            wall_time,
            log,
            at,
        ) is Err,
        flow::given(log, at) matches Some(Answer::Holds(true)) ==> {
            &&& flow::given(log, at + 1) is None ==> capture::capturing(
                child,
                group,
                wall_time,
                log,
                at,
            ) == Err::<(CapturedRun, int), Pause>(
                Pause::Ask(Query::StartTimer(Timer::Wall, wall_time)),
            )
            &&& flow::given(log, at + 1) matches Some(Answer::Done(_)) ==> capture::capturing(
                child,
                group,
                wall_time,
                log,
                at,
            ) == capture::capturing_from(
                child,
                group,
                Watch { stopped: false, expired: false },
                log,
                at + 2,
            )
        },
        capture::guarded(child, group, state, log, at) matches Ok((now, seen)) ==> {
            &&& flow::given(log, seen) is None ==> capture::capturing_from(
                child,
                group,
                state,
                log,
                at,
            ) == Err::<(CapturedRun, int), Pause>(Pause::Ask(Query::Poll(child)))
            &&& flow::given(log, seen) matches Some(Answer::Polled(Ok(Some(exit))))
                ==> capture::capturing_from(child, group, state, log, at) == capture::gathered(
                child,
                Ended { exit, expired: now.expired },
                log,
                seen + 1,
            )
            &&& flow::given(log, seen) matches Some(Answer::Polled(Ok(None))) ==> (flow::given(
                log,
                seen + 1,
            ) matches Some(Answer::Done(_)) ==> capture::capturing_from(child, group, state, log, at)
                == capture::capturing_from(child, group, now, log, seen + 2))
        },
{
    reveal(capture::capturing);
    capture::lemma_guarded_advances(child, group, state, log, at);
}


/// A stream that was captured is handed over; one whose reader failed is a
/// failure of the host.
pub proof fn streams_are_handed_over_whole(
    child: u32,
    stream: Stream,
    log: Seq<Answer>,
    at: int,
)
    ensures
        ({
            let course = capture::collected(child, stream, log, at);
            let plain = capture::plainly_collected(child, stream, log, at);
            &&& talk::silent(log, at) ==> talk::asks(course, Query::Collect(child, stream))
                && talk::asks(plain, Query::Collect(child, stream))
            &&& flow::given(log, at) matches Some(Answer::Captured(said)) ==> match said.model() {
                Captured::Read(bytes) => talk::gives(course, bytes, at + 1) && talk::gives(
                    plain,
                    Ok::<Seq<u8>, IoFault>(bytes),
                    at + 1,
                ),
                _ => talk::breaks(course) && (plain matches Ok((Err(_), _))),
            }
        }),
{
}

/// Without a group and a clock a command is started, must have pipes, and is
/// watched; one without pipes is killed and waited for.
pub proof fn plain_commands_are_captured(
    command: flow::Child,
    log: Seq<Answer>,
    at: int,
    child: u32,
)
    requires
        0 <= at,
    ensures
        ({
            let course = capture::command_output(command, log, at);
            let started = flow::given(log, at) matches Some(Answer::Spawned(Ok(number))) && number
                == child;
            &&& talk::silent(log, at) ==> talk::asks(course, Query::Spawn(command))
            &&& flow::given(log, at) matches Some(Answer::Spawned(Err(_))) ==> (course matches Ok((
                Err(_),
                _,
            )))
            &&& started && talk::silent(log, at + 1) ==> talk::asks(course, Query::Piped(child))
            &&& started && talk::holds(log, at + 1, true) ==> course
                == capture::plainly_captured_from(child, log, at + 2)
            &&& started && talk::holds(log, at + 1, false) && talk::silent(log, at + 2)
                ==> talk::asks(course, Query::Kill(child))
            &&& started && talk::holds(log, at + 1, false) && (talk::done(log, at + 2)
                || talk::undone(log, at + 2)) && talk::silent(log, at + 3) ==> talk::asks(
                course,
                Query::Await(child),
            )
        }),
{
    reveal(capture::command_output);
}

/// A plain command is asked for again and again until it has ended, and then
/// both of its streams are gathered.
pub proof fn plain_commands_are_watched_until_they_end(
    child: u32,
    log: Seq<Answer>,
    at: int,
)
    ensures
        ({
            let course = capture::plainly_captured_from(child, log, at);
            match capture::capped_child(child, log, at) {
                Err(pause) => talk::pauses(course, pause),
                Ok((Err(failure), _)) => course matches Ok((Err(said), _)) && said == failure,
                Ok((Ok(_), next)) => {
                    &&& talk::silent(log, next) ==> talk::asks(course, Query::Poll(child))
                    &&& flow::given(log, next) matches Some(Answer::Polled(Err(_))) ==> (
                    course matches Ok((Err(_), _)))
                    &&& flow::given(log, next) matches Some(Answer::Polled(Ok(Some(exit))))
                        ==> course == capture::plainly_gathered(child, exit, log, next + 1)
                    &&& (flow::given(log, next) matches Some(Answer::Polled(Ok(None))))
                        && talk::silent(log, next + 1) && 0 <= next ==> talk::asks(
                        course,
                        Query::Sleep(5),
                    )
                    &&& (flow::given(log, next) matches Some(Answer::Polled(Ok(None)))) && (
                    talk::done(log, next + 1) || talk::undone(log, next + 1)) ==> course
                        == capture::plainly_captured_from(child, log, next + 2)
                },
            }
        }),
{
    capture::lemma_capped_advances(child, log, at);
}

/// What is gathered of a plain command: its standard output first, then its
/// errors, unless it wrote more than can be captured.
pub proof fn plain_commands_give_both_streams(
    child: u32,
    exit: Exit,
    log: Seq<Answer>,
    at: int,
)
    ensures
        ({
            let course = capture::plainly_gathered(child, exit, log, at);
            match capture::plainly_collected(child, Stream::Stdout, log, at) {
                Err(pause) => talk::pauses(course, pause),
                Ok((Err(_), _)) => course matches Ok((Err(_), _)),
                Ok((Ok(stdout), a)) => match capture::plainly_collected(
                    child,
                    Stream::Stderr,
                    log,
                    a,
                ) {
                    Err(pause) => talk::pauses(course, pause),
                    Ok((Err(_), _)) => course matches Ok((Err(_), _)),
                    Ok((Ok(stderr), b)) => {
                        &&& talk::silent(log, b) ==> talk::asks(course, Query::OverLimit(child))
                        &&& talk::holds(log, b, true) ==> (course matches Ok((Err(_), _)))
                        &&& talk::holds(log, b, false) ==> talk::gives(
                            course,
                            Ok::<CapturedRun, IoFault>(
                                CapturedRun { exit, stdout, stderr, expired: false },
                            ),
                            b + 1,
                        )
                    },
                },
            }
        }),
{
    reveal(capture::plainly_gathered);
}

} // verus!

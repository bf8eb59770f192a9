//! What the words of a command line lead to, and how a build is put together.

use crate::args;
use crate::args::{CargoCommand, Invocation};
use crate::backend::OutputMode;
use crate::cargo_args;
use crate::cargo_args::Rewriting;
use crate::error::Fault;
use crate::flow;
use crate::flow::{Answer, FileKind, Model, Pause, Query};
use crate::os;
use crate::path;
use crate::run;
use crate::run::{Site, Verdict};
use crate::talk;
use crate::target;
use crate::toolchain;
use crate::toolchain::Kit;
use crate::workspace;
use vstd::prelude::*;
use vstd::string::*;
use vstd::utf8::*;

verus! {

// ---------------------------------------------------------------------------
// Command lines
// ---------------------------------------------------------------------------

/// How a command is written.
pub open spec fn spelled(command: CargoCommand) -> Seq<u8> {
    match command {
        CargoCommand::Build => os::lit("build"),
        CargoCommand::Check => os::lit("check"),
        CargoCommand::Test => os::lit("test"),
        CargoCommand::Doc => os::lit("doc"),
    }
}

/// What stands before a command that may use an existing target.
pub open spec fn leading(reuse_target: bool) -> Seq<Seq<u8>> {
    if reuse_target {
        seq![os::lit("--reuse-target")]
    } else {
        Seq::empty()
    }
}

proof fn lemma_words_differ()
    ensures
        os::lit("cage").len() == 4,
        os::lit("cage")[0] == 99,
        os::lit("build").len() == 5,
        os::lit("build")[0] == 98,
        os::lit("check").len() == 5,
        os::lit("check")[0] == 99,
        os::lit("test").len() == 4,
        os::lit("test")[0] == 116,
        os::lit("doc").len() == 3,
        os::lit("doctor").len() == 6,
        os::lit("doctor")[0] == 100,
        os::lit("--help").len() == 6,
        os::lit("--help")[0] == 45,
        os::lit("-h").len() == 2,
        os::lit("-h")[1] == 104,
        os::lit("-v").len() == 2,
        os::lit("-v")[1] == 118,
        os::lit("--verbose").len() == 9,
        os::lit("--reuse-target").len() == 14,
{
    reveal_strlit("cage");
    reveal_strlit("build");
    reveal_strlit("check");
    reveal_strlit("test");
    reveal_strlit("doc");
    reveal_strlit("doctor");
    reveal_strlit("--help");
    reveal_strlit("-h");
    reveal_strlit("-v");
    reveal_strlit("--verbose");
    reveal_strlit("--reuse-target");
    os::lemma_lit("cage");
    os::lemma_lit("build");
    os::lemma_lit("check");
    os::lemma_lit("test");
    os::lemma_lit("doc");
    os::lemma_lit("doctor");
    os::lemma_lit("--help");
    os::lemma_lit("-h");
    os::lemma_lit("-v");
    os::lemma_lit("--verbose");
    os::lemma_lit("--reuse-target");
}

/// A command runs with every word behind it, and uses an existing target only
/// where `--reuse-target` stands before it.
pub proof fn commands_run_with_their_words(
    command: CargoCommand,
    reuse_target: bool,
    rest: Seq<Seq<u8>>,
)
    ensures
        args::invocation(leading(reuse_target) + seq![spelled(command)] + rest) == Ok::<
            Invocation,
            Fault,
        >(Invocation::Cargo { command, args: rest, reuse_target }),
        encode_utf8(command.name()) == spelled(command),
{
    lemma_words_differ();
    let words = leading(reuse_target) + seq![spelled(command)] + rest;
    if reuse_target {
        assert(words[0] == os::lit("--reuse-target"));
        assert(words.skip(1)[0] == spelled(command));
        assert(words.skip(1).skip(1) =~= rest);
    } else {
        assert(words[0] == spelled(command));
        assert(words.skip(1) =~= rest);
    }
}

/// The doctor takes one option at most, and help can be asked for.
pub proof fn the_doctor_takes_one_option(words: Seq<Seq<u8>>)
    requires
        words.len() > 0,
    ensures
        words == seq![os::lit("doctor")] ==> args::invocation(words) == Ok::<Invocation, Fault>(
            Invocation::Doctor { verbose: false },
        ),
        words.len() == 2 && words[0] == os::lit("doctor") && (words[1] == os::lit("--verbose")
            || words[1] == os::lit("-v")) ==> args::invocation(words) == Ok::<Invocation, Fault>(
            Invocation::Doctor { verbose: true },
        ),
        words.len() == 2 && words[0] == os::lit("doctor") && (words[1] == os::lit("--help")
            || words[1] == os::lit("-h")) ==> args::invocation(words) == Ok::<Invocation, Fault>(
            Invocation::Help,
        ),
        words[0] == os::lit("--help") || words[0] == os::lit("-h") ==> args::invocation(words)
            == Ok::<Invocation, Fault>(Invocation::Help),
{
    lemma_words_differ();
    if words.len() > 1 {
        assert(words.skip(1)[0] == words[1]);
    }
}

/// Only the known words lead anywhere. Whatever is accepted was written as it
/// is understood, and whatever is refused is refused as an invalid invocation;
/// among it the dispatcher form, and the doctor with an existing target.
pub proof fn nothing_else_is_understood(words: Seq<Seq<u8>>)
    ensures
        args::invocation(words) matches Ok(Invocation::Cargo { command, args, reuse_target })
            ==> words == leading(reuse_target) + seq![spelled(command)] + args,
        args::invocation(words) matches Ok(Invocation::Doctor { verbose }) ==> {
            &&& words.len() > 0 && words[0] == os::lit("doctor")
            &&& verbose ==> words.len() == 2 && (words[1] == os::lit("--verbose") || words[1]
                == os::lit("-v"))
            &&& !verbose ==> words.len() == 1
        },
        args::invocation(words) == Ok::<Invocation, Fault>(Invocation::Help) ==> exists|i: int|
            0 <= i < 2 && i < words.len() && (words[i] == os::lit("--help") || #[trigger] words[i]
                == os::lit("-h")),
        args::invocation(words) matches Err(fault) ==> fault is InvalidInvocation,
        words.len() == 0 ==> args::invocation(words) is Err,
        words.len() > 0 && words[0] == os::lit("cage") ==> args::invocation(words) is Err,
        words.len() > 1 && words[0] == os::lit("--reuse-target") && words[1] == os::lit("doctor")
            ==> args::invocation(words) is Err,
        words == seq![os::lit("--reuse-target")] ==> args::invocation(words) is Err,
{
    lemma_words_differ();
    if let Ok(Invocation::Cargo { command, args, reuse_target }) = args::invocation(words) {
        assert(words =~= leading(reuse_target) + seq![spelled(command)] + args);
    }
    if args::invocation(words) == Ok::<Invocation, Fault>(Invocation::Help) {
        if words[0] == os::lit("--reuse-target") {
            assert(words[1] == words.skip(1)[0]);
        } else if words[0] == os::lit("doctor") {
            assert(words[1] == words.skip(1)[0]);
        } else {
            assert(args::is_help_flag(words[0]));
        }
    }
    if words.len() > 1 {
        assert(words[1] == words.skip(1)[0]);
    }
}

/// What each kind of invocation does: help succeeds with nothing asked, an
/// invalid one fails with nothing asked, and Cargo and the doctor start from
/// the current directory.
pub proof fn invocations_are_carried_out(words: Seq<Seq<u8>>, log: Seq<Answer>, at: int)
    ensures
        args::invocation(words) matches Err(fault) ==> run::command_run(words, log, at) == Err::<
            (Verdict, int),
            Pause,
        >(Pause::Fail(fault, at)),
        args::invocation(words) == Ok::<Invocation, Fault>(Invocation::Help) ==> (run::command_run(
            words,
            log,
            at,
        ) matches Ok((verdict, next)) && verdict.code == 0 && verdict.notices.len() == 0 && next
            == at),
        args::invocation(words) matches Ok(Invocation::Cargo { command, args, reuse_target })
            ==> run::command_run(words, log, at) == run::cargo_run(
            command,
            args,
            reuse_target,
            log,
            at,
        ) && (talk::silent(log, at) ==> talk::asks(
            run::command_run(words, log, at),
            Query::CurrentDirectory,
        )),
{
    reveal(run::command_run);
    reveal(run::cargo_run);
    reveal(workspace::current_directory);
}

// ---------------------------------------------------------------------------
// Targets
// ---------------------------------------------------------------------------

/// The directory of a build is asked for and resolved.
pub proof fn builds_start_from_the_current_directory(
    log: Seq<Answer>,
    at: int,
    directory: Seq<u8>,
    canonical: Seq<u8>,
)
    requires
        0 <= at,
    ensures
        ({
            let course = workspace::current_directory(log, at);
            &&& talk::silent(log, at) ==> talk::asks(course, Query::CurrentDirectory)
            &&& talk::nowhere(log, at) ==> talk::breaks(course)
            &&& talk::leads(log, at, directory) ==> {
                &&& talk::silent(log, at + 1) ==> talk::asks(course, Query::Resolve(directory))
                &&& talk::nowhere(log, at + 1) ==> talk::breaks(course)
                &&& talk::leads(log, at + 1, canonical) ==> talk::gives(course, canonical, at + 2)
            }
        }),
{
    reveal(workspace::current_directory);
}

/// The lockfile is the `Cargo.lock` of the workspace. It must be a regular file
/// and is created, and looked at again, where it is not there.
pub proof fn the_lockfile_is_a_regular_file(root: Seq<u8>, log: Seq<Answer>, at: int)
    requires
        0 <= at,
    ensures
        ({
            let course = target::prepared_lockfile(root, log, at);
            let file = path::join(root, os::lit("Cargo.lock"));
            &&& talk::silent(log, at) ==> talk::asks(course, Query::Inspect(file))
            &&& talk::shows(log, at, FileKind::File) ==> talk::gives(course, file, at + 1)
            &&& talk::shown(log, at) && !talk::shows(log, at, FileKind::File) ==> talk::refuses(
                course,
            )
            &&& talk::unreadable(log, at) ==> talk::breaks(course)
            &&& talk::missing(log, at) ==> {
                &&& talk::silent(log, at + 1) ==> talk::asks(course, Query::CreateFile(file))
                &&& talk::undone(log, at + 1) ==> talk::breaks(course)
                &&& talk::done(log, at + 1) ==> {
                    &&& talk::silent(log, at + 2) ==> talk::asks(course, Query::Inspect(file))
                    &&& talk::shows(log, at + 2, FileKind::File) ==> talk::gives(
                        course,
                        file,
                        at + 3,
                    )
                    &&& talk::shown(log, at + 2) && !talk::shows(log, at + 2, FileKind::File)
                        ==> talk::refuses(course)
                }
            }
        }),
{
    reveal(target::prepared_lockfile);
    reveal(target::inspected_lockfile);
}

/// A target is resolved as far as it is there: the path itself if it is, and
/// otherwise what is above it, with the missing names put behind again. A
/// symlink that leads nowhere is refused.
pub proof fn targets_are_resolved_as_far_as_they_are_there(
    goal: Seq<u8>,
    found: Seq<u8>,
    missing: Seq<Seq<u8>>,
    log: Seq<Answer>,
    at: int,
    canonical: Seq<u8>,
)
    requires
        0 <= at,
    ensures
        ({
            let course = target::anchored_from(goal, found, missing, log, at);
            &&& talk::silent(log, at) ==> talk::asks(course, Query::Inspect(found))
            &&& talk::shows(log, at, FileKind::Symlink) ==> talk::refuses(course)
            &&& talk::unreadable(log, at) ==> talk::breaks(course)
            &&& talk::shown(log, at) && !talk::shows(log, at, FileKind::Symlink) ==> {
                &&& talk::silent(log, at + 1) ==> talk::asks(course, Query::Resolve(found))
                &&& talk::nowhere(log, at + 1) ==> talk::breaks(course)
                &&& talk::leads(log, at + 1, canonical) ==> {
                    &&& missing.len() == 0 ==> talk::gives(course, canonical, at + 2)
                    &&& missing.len() == 1 ==> talk::gives(
                        course,
                        path::join(canonical, missing[0]),
                        at + 2,
                    )
                    &&& missing.len() == 2 ==> talk::gives(
                        course,
                        path::join(path::join(canonical, missing[1]), missing[0]),
                        at + 2,
                    )
                }
            }
            &&& talk::missing(log, at) && path::file_name(found) is None ==> talk::refuses(course)
            &&& talk::missing(log, at) ==> (path::file_name(found) matches Some(name)
                ==> path::parent(found) is Some && course == target::anchored_from(
                goal,
                path::parent(found)->Some_0,
                missing.push(name),
                log,
                at + 1,
            ))
        }),
{
    reveal_with_fuel(target::with_missing, 4);
    if path::file_name(found) is Some {
        path::lemma_named_has_parent(found);
    }
}

/// Whether a target lies in the workspace and is not the workspace itself.
pub open spec fn lies_in(place: Seq<u8>, root: Seq<u8>) -> bool {
    path::within(place, root) && !path::same_path(place, root)
}

/// A target must be absolute, and lie in the workspace once its `..` are taken
/// out and it is resolved.
pub proof fn targets_outside_the_workspace_are_refused(
    goal: Seq<u8>,
    root: Seq<u8>,
    log: Seq<Answer>,
    at: int,
    canonical: Seq<u8>,
)
    requires
        0 <= at,
    ensures
        ({
            let course = target::validated_target(goal, root, log, at);
            let plain = path::normalized(goal);
            let found = target::anchored_from(plain, plain, Seq::empty(), log, at + 1);
            &&& !path::absolute(goal) ==> talk::refuses(course)
            &&& path::absolute(goal) && talk::silent(log, at) ==> talk::asks(
                course,
                Query::Resolve(root),
            )
            &&& path::absolute(goal) && talk::leads(log, at, canonical) ==> {
                &&& found matches Err(pause) ==> course == Err::<(Seq<u8>, int), Pause>(pause)
                &&& found matches Ok((place, next)) ==> {
                    &&& !lies_in(place, canonical) ==> talk::refuses(course)
                    &&& lies_in(place, canonical) ==> {
                        &&& course matches Ok((accepted, _)) ==> accepted == place
                        &&& target::unlinked_from(goal, canonical, 0, log, next) matches Err(pause)
                            ==> course == Err::<(Seq<u8>, int), Pause>(pause)
                        &&& target::unlinked_from(goal, canonical, 0, log, next) matches Ok((
                            _,
                            then,
                        )) ==> (target::unlinked_from(plain, canonical, 0, log, then) matches Err(
                            pause,
                        ) ==> course == Err::<(Seq<u8>, int), Pause>(pause))
                    }
                }
            }
        }),
{
    reveal(target::validated_target);
}

/// A component of a target is looked at: from the first that is missing on
/// nothing is left to check; a file is refused unless it comes last; and a
/// symlink is refused unless it lies, and leads, outside the workspace.
pub proof fn targets_hold_no_symlinks_of_the_workspace(
    goal: Seq<u8>,
    root: Seq<u8>,
    index: int,
    log: Seq<Answer>,
    at: int,
    holder: Seq<u8>,
    destination: Seq<u8>,
)
    requires
        0 <= at,
        0 <= index < path::parts(goal).len(),
    ensures
        ({
            let course = target::unlinked_from(goal, root, index, log, at);
            let current = path::prefix(path::parts(goal), index + 1);
            let above = match path::parent(current) {
                Some(above) => above,
                None => os::lit("/"),
            };
            &&& talk::silent(log, at) ==> talk::asks(course, Query::Inspect(current))
            &&& talk::missing(log, at) ==> talk::gives(course, (), at + 1)
            &&& talk::unreadable(log, at) ==> talk::breaks(course)
            &&& talk::shows(log, at, FileKind::Directory) ==> course == target::unlinked_from(
                goal,
                root,
                index + 1,
                log,
                at + 1,
            )
            &&& talk::shown(log, at) && !talk::shows(log, at, FileKind::Directory) && !talk::shows(
                log,
                at,
                FileKind::Symlink,
            ) && index + 1 < path::parts(goal).len() ==> talk::refuses(course)
            &&& talk::shows(log, at, FileKind::Symlink) ==> {
                &&& talk::silent(log, at + 1) ==> talk::asks(course, Query::Resolve(above))
                &&& talk::leads(log, at + 1, holder) && talk::silent(log, at + 2) ==> talk::asks(
                    course,
                    Query::Resolve(current),
                )
                &&& talk::leads(log, at + 1, holder) && talk::nowhere(log, at + 2)
                    ==> talk::refuses(course)
                &&& talk::leads(log, at + 1, holder) && talk::leads(log, at + 2, destination) ==> {
                    &&& path::within(holder, root) || path::within(destination, root)
                        ==> talk::refuses(course)
                    &&& !path::within(holder, root) && !path::within(destination, root) ==> {
                        &&& talk::silent(log, at + 3) ==> talk::asks(course, Query::Follow(current))
                        &&& talk::shows(log, at + 3, FileKind::Directory) ==> course
                            == target::unlinked_from(goal, root, index + 1, log, at + 4)
                        &&& talk::shown(log, at + 3) && !talk::shows(
                            log,
                            at + 3,
                            FileKind::Directory,
                        ) && index + 1 < path::parts(goal).len() ==> talk::refuses(course)
                    }
                }
            }
        }),
{
    reveal(target::outside_symlink);
}

/// A target is created component by component: what is there must be a real
/// directory, and what is missing is made.
pub proof fn targets_are_made_of_real_directories(
    goal: Seq<u8>,
    index: int,
    log: Seq<Answer>,
    at: int,
)
    requires
        0 <= at,
        0 <= index < path::parts(goal).len(),
    ensures
        ({
            let course = target::created_from(goal, index, log, at);
            let current = path::prefix(path::parts(goal), index + 1);
            &&& talk::silent(log, at) ==> talk::asks(course, Query::Inspect(current))
            &&& talk::shown(log, at) && !talk::shows(log, at, FileKind::Directory)
                ==> talk::refuses(course)
            &&& talk::unreadable(log, at) ==> talk::breaks(course)
            &&& talk::shows(log, at, FileKind::Directory) ==> course == target::created_from(
                goal,
                index + 1,
                log,
                at + 1,
            )
            &&& talk::missing(log, at) ==> {
                &&& talk::silent(log, at + 1) ==> talk::asks(course, Query::CreateDirectory(current))
                &&& talk::undone(log, at + 1) ==> talk::breaks(course)
                &&& talk::done(log, at + 1) ==> course == target::created_from(
                    goal,
                    index + 1,
                    log,
                    at + 2,
                )
            }
        }),
{
}

/// A prepared target was validated, then made, then resolved, and lies in the
/// workspace as that is resolved at the end.
pub proof fn prepared_targets_are_validated_and_made(
    goal: Seq<u8>,
    root: Seq<u8>,
    log: Seq<Answer>,
    at: int,
)
    ensures
        ({
            let course = target::prepared_target(goal, root, log, at);
            &&& target::validated_target(goal, root, log, at) matches Err(pause) ==> course == Err::<
                (Seq<u8>, int),
                Pause,
            >(pause)
            &&& target::validated_target(goal, root, log, at) matches Ok((plain, next)) ==> {
                &&& target::created_from(plain, 0, log, next) matches Err(pause) ==> course == Err::<
                    (Seq<u8>, int),
                    Pause,
                >(pause)
                &&& target::created_from(plain, 0, log, next) matches Ok((_, made)) ==> {
                    &&& 0 <= made && talk::silent(log, made) ==> talk::asks(
                        course,
                        Query::Resolve(plain),
                    )
                    &&& forall|place: Seq<u8>| #[trigger]
                        talk::leads(log, made, place) ==> {
                            &&& talk::silent(log, made + 1) ==> talk::asks(
                                course,
                                Query::Resolve(root),
                            )
                            &&& forall|base: Seq<u8>| #[trigger]
                                talk::leads(log, made + 1, base) ==> {
                                    &&& lies_in(place, base) ==> talk::gives(
                                        course,
                                        place,
                                        made + 2,
                                    )
                                    &&& !lies_in(place, base) ==> talk::refuses(course)
                                }
                        }
                }
            }
        }),
{
    reveal(target::prepared_target);
}

/// A build that reuses nothing has a directory of its own: a fresh name below
/// `.cargo-cage/runs` of the target that was requested, which must not be there
/// yet.
pub proof fn isolated_runs_are_fresh(
    base: Seq<u8>,
    root: Seq<u8>,
    log: Seq<Answer>,
    at: int,
    name: Seq<u8>,
)
    ensures
        ({
            let course = run::isolated_target(base, root, log, at);
            let runs = path::join(path::join(base, os::lit(".cargo-cage")), os::lit("runs"));
            &&& target::prepared_target(runs, root, log, at) matches Err(pause) ==> course == Err::<
                (Seq<u8>, int),
                Pause,
            >(pause)
            &&& target::prepared_target(runs, root, log, at) matches Ok((made, next)) ==> {
                let fresh = target::validated_target(path::join(made, name), root, log, next + 1);
                &&& talk::silent(log, next) ==> talk::asks(course, Query::FreshName)
                &&& talk::unset(log, next) ==> talk::cannot_set_up(course)
                &&& talk::says(log, next, name) ==> {
                    &&& fresh matches Err(pause) ==> course == Err::<(Seq<u8>, int), Pause>(pause)
                    &&& fresh matches Ok((place, then)) ==> {
                        &&& talk::silent(log, then) ==> talk::asks(
                            course,
                            Query::CreateDirectory(place),
                        )
                        &&& talk::undone(log, then) ==> talk::breaks(course)
                        &&& talk::done(log, then) ==> course == target::prepared_target(
                            place,
                            root,
                            log,
                            then + 1,
                        )
                    }
                }
            }
        }),
{
    reveal(run::isolated_target);
}

// ---------------------------------------------------------------------------
// Builds
// ---------------------------------------------------------------------------

/// Where a build works: in the target that was requested if that is reused, and
/// in an isolated run below it otherwise; with its build directory in the
/// target, the lockfile of the workspace, and Cargo's directory as its words
/// say.
pub proof fn builds_work_where_they_were_asked_to(
    words: Seq<Seq<u8>>,
    reuse_target: bool,
    current_dir: Seq<u8>,
    root: Seq<u8>,
    log: Seq<Answer>,
    at: int,
)
    ensures
        run::build_site(words, reuse_target, current_dir, root, log, at) matches Ok((site, _)) ==> {
            &&& site.current_dir == current_dir
            &&& site.workspace == root
            &&& site.lockfile == path::join(root, os::lit("Cargo.lock"))
            &&& exists|here: int, there: int, last: int|
                #![trigger sited(words, reuse_target, current_dir, root, site, log, at, here, there, last)]
                sited(words, reuse_target, current_dir, root, site, log, at, here, there, last)
        },
        cargo_args::requested_target(words, current_dir, root, log, at) matches Err(pause)
            ==> run::build_site(words, reuse_target, current_dir, root, log, at) == Err::<
            (Site, int),
            Pause,
        >(pause),
{
    reveal(run::build_site);
    reveal(run::build_target);
    reveal(target::prepared_lockfile);
    if run::build_site(words, reuse_target, current_dir, root, log, at) is Ok {
        let site = run::build_site(words, reuse_target, current_dir, root, log, at)->Ok_0.0;
        let requested = cargo_args::requested_target(words, current_dir, root, log, at)->Ok_0;
        let chosen = run::build_target(words, reuse_target, current_dir, root, log, at)->Ok_0;
        let build = target::prepared_target(
            path::join(chosen.0, os::lit("build")),
            root,
            log,
            chosen.1,
        )->Ok_0;
        let lock = target::prepared_lockfile(root, log, build.1)->Ok_0;
        assert(sited(
            words,
            reuse_target,
            current_dir,
            root,
            site,
            log,
            at,
            requested.1,
            chosen.1,
            lock.1,
        ));
    }
}

/// Whether the places of a build were prepared as they must be.
pub open spec fn sited(
    words: Seq<Seq<u8>>,
    reuse_target: bool,
    current_dir: Seq<u8>,
    root: Seq<u8>,
    site: Site,
    log: Seq<Answer>,
    at: int,
    here: int,
    there: int,
    last: int,
) -> bool {
    &&& cargo_args::requested_target(words, current_dir, root, log, at) matches Ok((
        requested,
        next,
    )) && next == here && (target::prepared_target(requested, root, log, here) matches Ok((
        base,
        then,
    )) && if reuse_target {
        site.target == base && there == then
    } else {
        talk::gives(run::isolated_target(base, root, log, then), site.target, there)
    })
    &&& target::prepared_target(
        path::join(site.target, os::lit("build")),
        root,
        log,
        there,
    ) matches Ok((build, _)) && build == site.build_dir
    &&& cargo_args::working_directory(current_dir, root, words, log, last) matches Ok((
        directory,
        _,
    )) && directory == site.sandbox_dir
}

/// What a build is given: Cargo with the command and its rewritten words, in
/// its directory and with its output; the workspace and the toolchain to read,
/// and the current directory where that is another one; the target and the
/// lockfile to write.
pub proof fn builds_are_given_what_they_need(
    command: CargoCommand,
    words: Seq<Seq<u8>>,
    reuse_target: bool,
    site: Site,
    kit: Kit,
    log: Seq<Answer>,
    at: int,
)
    requires
        run::planned_job(command, words, reuse_target, site, kit, log, at) is Ok,
    ensures
        ({
            let job = run::planned_job(command, words, reuse_target, site, kit, log, at)->Ok_0.0;
            let set = job.environment.set;
            let rule = Rewriting {
                args: words,
                current_dir: site.current_dir,
                moved: !path::same_path(site.current_dir, site.sandbox_dir),
                target: site.target,
                forced: !reuse_target,
            };
            &&& job.program == kit.cargo
            &&& job.args.len() == words.len() + 1
            &&& job.args[0] == spelled(command)
            &&& cargo_args::rewritten_from(rule, words, 0, log, at) matches Ok((rewritten, _))
                && job.args.skip(1) == rewritten
            &&& job.current_dir == site.sandbox_dir
            &&& job.output == OutputMode::Inherit
            &&& job.policy.writable_paths.len() == 2
            &&& job.policy.writable_paths[0] == site.target
            &&& job.policy.writable_paths[1] == site.lockfile
            &&& job.policy.read_only_paths[0] == site.workspace
            &&& forall|i: int|
                0 <= i < kit.read_only_paths.len() ==> job.policy.read_only_paths.contains(
                    #[trigger] kit.read_only_paths[i],
                )
            &&& path::within(site.current_dir, site.workspace) && !path::same_path(
                site.current_dir,
                site.workspace,
            ) ==> job.policy.read_only_paths.contains(site.current_dir)
            &&& forall|i: int|
                0 <= i < job.policy.read_only_paths.len() ==> {
                    let path = #[trigger] job.policy.read_only_paths[i];
                    path == site.workspace || kit.read_only_paths.contains(path) || (path
                        == site.current_dir && path::within(path, site.workspace))
                }
            &&& set[set.len() - 4] == (os::lit("CARGO_TARGET_DIR"), site.target)
            &&& set[set.len() - 3] == (os::lit("CARGO_BUILD_BUILD_DIR"), site.build_dir)
            &&& set[set.len() - 2] == (os::lit("CARGO_NET_OFFLINE"), os::lit("true"))
            &&& set[set.len() - 1] == (os::lit("TMPDIR"), os::lit("/tmp"))
        }),
{
    reveal(run::planned_job);
    reveal(workspace::environment_for);
    let job = run::planned_job(command, words, reuse_target, site, kit, log, at)->Ok_0.0;
    let rule = Rewriting {
        args: words,
        current_dir: site.current_dir,
        moved: !path::same_path(site.current_dir, site.sandbox_dir),
        target: site.target,
        forced: !reuse_target,
    };
    cargo_args::rewriting_changes_paths_only(rule, log, at);
    let rewritten = cargo_args::rewritten_from(rule, words, 0, log, at)->Ok_0.0;
    assert(job.args.skip(1) =~= rewritten);
    let sources = run::build_sources(site, kit);
    let shift = sources.len() - kit.read_only_paths.len();
    assert forall|i: int| 0 <= i < kit.read_only_paths.len() implies sources.contains(
        #[trigger] kit.read_only_paths[i],
    ) by {
        assert(sources[i + shift] == kit.read_only_paths[i]);
    }
    assert(shift == 2 ==> sources[1] == site.current_dir);
    assert forall|i: int| 0 <= i < sources.len() implies {
        let path = #[trigger] sources[i];
        path == site.workspace || kit.read_only_paths.contains(path) || (path == site.current_dir
            && path::within(path, site.workspace))
    } by {
        if i >= shift {
            assert(sources[i] == kit.read_only_paths[i - shift]);
        }
    }
}

/// Whether a text stands somewhere in another.
pub open spec fn mentions(whole: Seq<char>, piece: Seq<char>) -> bool {
    exists|front: Seq<char>, back: Seq<char>| whole == #[trigger] (front + piece + back)
}

/// A build that succeeds says nothing. One that fails hands its code on, or 1
/// where it has none, and names the code and the two places that it could
/// write to.
pub proof fn failed_builds_are_explained(command: CargoCommand, code: Option<i32>, site: Site)
    ensures
        ({
            let verdict = run::build_verdict(command, code, site);
            &&& verdict.output.len() == 0
            &&& code == Some(0i32) ==> verdict.code == 0 && verdict.notices.len() == 0
            &&& code matches Some(said) ==> verdict.code == said
            &&& code is None ==> verdict.code == 1
            &&& code != Some(0i32) ==> {
                &&& verdict.notices.len() == 3
                &&& mentions(verdict.notices[0], command.name())
                &&& code is None ==> mentions(verdict.notices[0], "unknown"@)
                &&& code matches Some(said) ==> mentions(
                    verdict.notices[0],
                    crate::text::signed_decimal(said as int),
                )
                &&& mentions(verdict.notices[1], os::lossy_text(site.target))
                &&& mentions(verdict.notices[1], os::lossy_text(site.lockfile))
            }
        }),
{
    let a = "cargo-cage: Cargo "@;
    let b = " failed inside the Linux sandbox (exit code "@;
    let c = ")."@;
    let known = run::known_code(code);
    let first = a + command.name() + b + known + c;
    assert(first =~= a + command.name() + (b + known + c));
    assert(first =~= (a + command.name() + b) + known + c);
    let d = "cargo-cage: policy active: clean allowlisted environment, private HOME, network denied, and persistent writes limited to "@;
    let e = " and "@;
    let f = "."@;
    let goal = os::lossy_text(site.target);
    let lock = os::lossy_text(site.lockfile);
    let second = d + goal + e + lock + f;
    assert(second =~= d + goal + (e + lock + f));
    assert(second =~= (d + goal + e) + lock + f);
}

/// A build runs what was planned for it in a sandbox, and reports how that
/// ended.
pub proof fn builds_report_how_they_ended(
    command: CargoCommand,
    words: Seq<Seq<u8>>,
    reuse_target: bool,
    current_dir: Seq<u8>,
    root: Seq<u8>,
    kit: Kit,
    log: Seq<Answer>,
    at: int,
)
    ensures
        run::build_site(words, reuse_target, current_dir, root, log, at) matches Ok((site, next))
            ==> {
            let course = run::built(
                command,
                words,
                reuse_target,
                current_dir,
                root,
                kit,
                log,
                at,
            );
            let plan = run::planned_job(command, words, reuse_target, site, kit, log, next);
            &&& plan matches Err(pause) ==> course == Err::<(Verdict, int), Pause>(pause)
            &&& plan matches Ok((job, then)) ==> {
                &&& talk::silent(log, then) ==> talk::asks(course, Query::RunSandbox(job))
                &&& flow::given(log, then) matches Some(Answer::Sandboxed(Ok(outcome)))
                    ==> talk::gives(
                    course,
                    run::build_verdict(command, outcome.model().status.code, site),
                    then + 1,
                )
                &&& flow::given(log, then) matches Some(Answer::Sandboxed(Err(error)))
                    ==> course is Err
            }
        },
{
    reveal(run::built);
}

/// How Cargo is run: in the current directory, with the Cargo that CARGO names
/// and the toolchain for it, which needs its documentation tool for `doc` only;
/// and in the workspace that is found with them.
pub proof fn cargo_runs_in_the_workspace_that_is_found(
    command: CargoCommand,
    words: Seq<Seq<u8>>,
    reuse_target: bool,
    log: Seq<Answer>,
    at: int,
)
    ensures
        ({
            let course = run::cargo_run(command, words, reuse_target, log, at);
            match workspace::current_directory(log, at) {
                Err(pause) => talk::pauses(course, pause),
                Ok((current_dir, a)) => match toolchain::program(
                    "cargo",
                    "CARGO",
                    current_dir,
                    log,
                    a,
                ) {
                    Err(pause) => talk::pauses(course, pause),
                    Ok((cargo, b)) => match toolchain::toolchain_for(
                        cargo,
                        current_dir,
                        spelled(command) == os::lit("doc"),
                        log,
                        b,
                    ) {
                        Err(pause) => talk::pauses(course, pause),
                        Ok((kit, c)) => match workspace::located_workspace(
                            kit,
                            current_dir,
                            words,
                            log,
                            c,
                        ) {
                            Err(pause) => talk::pauses(course, pause),
                            Ok((root, d)) => course == run::built(
                                command,
                                words,
                                reuse_target,
                                current_dir,
                                root,
                                kit,
                                log,
                                d,
                            ),
                        },
                    },
                },
            }
        }),
{
    reveal(run::cargo_run);
    lemma_words_differ();
}

} // verus!

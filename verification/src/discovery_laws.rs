//! How the workspace of a build is found.

use crate::backend::OutputMode;
use crate::cargo_args;
use crate::cargo_policy;
use crate::flow;
use crate::flow::{Answer, FileKind, Model, Pause, Query};
use crate::os;
use crate::path;
use crate::policy::NetworkAccess;
use crate::talk;
use crate::toolchain;
use crate::toolchain::Kit;
use crate::walk;
use crate::workspace;
use vstd::prelude::*;
use vstd::string::*;
use vstd::utf8::*;

verus! {

/// Cargo is asked for the manifest of its workspace as one plain line, for the
/// manifest that was requested if there is one.
pub proof fn cargo_is_asked_for_one_plain_line(manifest: Option<Seq<u8>>)
    ensures
        ({
            let words = workspace::locate_args(manifest);
            &&& words[0] == os::lit("locate-project")
            &&& words[1] == os::lit("--workspace")
            &&& words[2] == os::lit("--message-format")
            &&& words[3] == os::lit("plain")
            &&& manifest is None ==> words.len() == 4
            &&& manifest matches Some(file) ==> words.len() == 6 && words[4] == os::lit(
                "--manifest-path",
            ) && words[5] == file
        }),
{
}

/// What the search for a workspace is given: Cargo in the current directory with
/// captured output; the current directory, that of the manifest and the
/// toolchain to read; and the targets that are there to write.
pub proof fn searches_are_given_what_they_need(
    kit: Kit,
    current_dir: Seq<u8>,
    words: Seq<Seq<u8>>,
    log: Seq<Answer>,
    at: int,
)
    ensures
        workspace::locate_job(kit, current_dir, words, log, at) matches Ok((job, _)) ==> {
            &&& job.program == kit.cargo
            &&& cargo_args::manifest_option(words) matches Ok(manifest) && job.args
                == workspace::locate_args(manifest)
            &&& job.current_dir == current_dir
            &&& job.output == OutputMode::Capture
            &&& job.policy.network == NetworkAccess::Deny
            &&& !job.environment.inherit
            &&& job.policy.read_only_paths.len() > 0 && job.policy.read_only_paths[0]
                == current_dir
            &&& forall|i: int|
                0 <= i < kit.read_only_paths.len() ==> job.policy.read_only_paths.contains(
                    #[trigger] kit.read_only_paths[i],
                )
            &&& exists|here: int, then: int|
                #![trigger searched(words, current_dir, job.policy.read_only_paths, job.policy.writable_paths, kit, log, here, then)]
                searched(
                    words,
                    current_dir,
                    job.policy.read_only_paths,
                    job.policy.writable_paths,
                    kit,
                    log,
                    here,
                    then,
                )
        },
        cargo_args::manifest_option(words) matches Err(fault) ==> talk::pauses(
            workspace::locate_job(kit, current_dir, words, log, at),
            Pause::Fail(fault, at),
        ),
{
    reveal(workspace::locate_job);
    reveal(workspace::environment_for);
    reveal(cargo_policy::built_policy);
    if let Ok((job, _)) = workspace::locate_job(kit, current_dir, words, log, at) {
        let rules = cargo_policy::built_policy(false, log, at)->Ok_0;
        let found = cargo_args::manifest_directory(words, current_dir, log, rules.1)->Ok_0;
        let sources = job.policy.read_only_paths;
        let shift = sources.len() - kit.read_only_paths.len();
        assert forall|i: int| 0 <= i < kit.read_only_paths.len() implies sources.contains(
            #[trigger] kit.read_only_paths[i],
        ) by {
            assert(sources[i + shift] == kit.read_only_paths[i]);
        }
        assert(searched(
            words,
            current_dir,
            sources,
            job.policy.writable_paths,
            kit,
            log,
            rules.1,
            found.1,
        ));
    }
}

/// Whether a search can read the directory of its manifest and write to its
/// targets.
pub open spec fn searched(
    words: Seq<Seq<u8>>,
    current_dir: Seq<u8>,
    sources: Seq<Seq<u8>>,
    targets: Seq<Seq<u8>>,
    kit: Kit,
    log: Seq<Answer>,
    here: int,
    then: int,
) -> bool {
    &&& cargo_args::manifest_directory(words, current_dir, log, here) matches Ok((found, next))
        && next == then && match found {
        Some(directory) => sources.len() == kit.read_only_paths.len() + 2 && sources[1]
            == directory,
        None => sources.len() == kit.read_only_paths.len() + 1,
    }
    &&& workspace::discovery_targets(words, current_dir, log, then) matches Ok((found, _)) && found
        == targets
}

/// A candidate for a target that may be written during the search is used if it
/// is there and was not just listed.
pub proof fn only_present_targets_are_used(
    candidates: Seq<Seq<u8>>,
    index: int,
    kept: Seq<Seq<u8>>,
    log: Seq<Answer>,
    at: int,
)
    requires
        0 <= at,
        0 <= index < candidates.len(),
    ensures
        ({
            let course = workspace::present_from(candidates, index, kept, log, at);
            let known = kept.len() > 0 && path::same_path(kept.last(), candidates[index]);
            &&& talk::silent(log, at) ==> talk::asks(course, Query::Inspect(candidates[index]))
            &&& talk::shown(log, at) && !known ==> course == workspace::present_from(
                candidates,
                index + 1,
                kept.push(candidates[index]),
                log,
                at + 1,
            )
            &&& (talk::shown(log, at) && known) || talk::missing(log, at) || talk::unreadable(
                log,
                at,
            ) ==> course == workspace::present_from(candidates, index + 1, kept, log, at + 1)
        }),
{
}

/// The targets of a search are the standard one and, if it lies below the same
/// directory, the one that was requested.
pub proof fn searches_may_write_to_their_targets(
    base: Seq<u8>,
    words: Seq<Seq<u8>>,
    current_dir: Seq<u8>,
    log: Seq<Answer>,
    at: int,
)
    ensures
        ({
            let course = workspace::target_candidates(base, words, current_dir, log, at);
            let standard = path::join(base, os::lit("target"));
            match cargo_args::requested_target(words, current_dir, current_dir, log, at) {
                Ok((requested, next)) => if path::within(requested, base) {
                    talk::gives(course, seq![standard, requested], next)
                } else {
                    talk::gives(course, seq![standard], next)
                },
                Err(Pause::Fail(_, next)) => talk::gives(course, seq![standard], next),
                Err(Pause::Ask(query)) => talk::asks(course, query),
            }
        }),
        cargo_args::manifest_directory(words, current_dir, log, at) matches Ok((directory, next))
            ==> {
            let course = workspace::discovery_targets(words, current_dir, log, at);
            let place = match directory {
                Some(directory) => directory,
                None => current_dir,
            };
            match workspace::target_candidates(place, words, current_dir, log, next) {
                Ok((candidates, then)) => course == workspace::present_from(
                    candidates,
                    0,
                    Seq::empty(),
                    log,
                    then,
                ),
                Err(pause) => talk::pauses(course, pause),
            }
        },
{
    reveal(workspace::discovery_targets);
    let standard = path::join(base, os::lit("target"));
    if let Ok((requested, _)) = cargo_args::requested_target(
        words,
        current_dir,
        current_dir,
        log,
        at,
    ) {
        assert(seq![standard].push(requested) =~= seq![standard, requested]);
    }
}

/// The search runs in a sandbox, and its answer counts only if it succeeded.
pub proof fn searches_run_in_a_sandbox(
    kit: Kit,
    current_dir: Seq<u8>,
    words: Seq<Seq<u8>>,
    log: Seq<Answer>,
    at: int,
)
    ensures
        ({
            let course = workspace::located_workspace(kit, current_dir, words, log, at);
            match workspace::locate_job(kit, current_dir, words, log, at) {
                Err(pause) => talk::pauses(course, pause),
                Ok((job, next)) => {
                    &&& talk::silent(log, next) ==> talk::asks(course, Query::RunSandbox(job))
                    &&& flow::given(log, next) matches Some(Answer::Sandboxed(Ok(outcome))) ==> {
                        let said = outcome.model();
                        &&& said.status.code != Some(0i32) ==> (course matches Err(
                            Pause::Fail(fault, _),
                        ) && fault is ProcessFailed)
                        &&& said.status.code == Some(0i32) ==> course
                            == workspace::discovered_workspace(
                            said.stdout,
                            current_dir,
                            words,
                            log,
                            next + 1,
                        )
                    }
                },
            }
        }),
{
    reveal(workspace::located_workspace);
}

/// The answer must be one line that names an existing regular `Cargo.toml`; the
/// workspace is the directory that holds it.
pub proof fn workspaces_hold_their_manifest(
    stdout: Seq<u8>,
    current_dir: Seq<u8>,
    words: Seq<Seq<u8>>,
    log: Seq<Answer>,
    at: int,
)
    ensures
        ({
            let course = workspace::discovered_workspace(stdout, current_dir, words, log, at);
            match toolchain::single_line(stdout) {
                None => talk::cannot_set_up(course),
                Some(line) => match walk::existing(
                    path::join(current_dir, encode_utf8(line)),
                    "workspace manifest"@,
                    log,
                    at,
                ) {
                    Err(pause) => talk::pauses(course, pause),
                    Ok((manifest, next)) => {
                        let named = path::file_name(manifest) == Some(os::lit("Cargo.toml"));
                        &&& talk::silent(log, next) ==> talk::asks(course, Query::Follow(manifest))
                        &&& talk::missing(log, next) || talk::unreadable(log, next) || (talk::shown(
                            log,
                            next,
                        ) && !talk::shows(log, next, FileKind::File)) ==> talk::refuses(course)
                        &&& talk::shows(log, next, FileKind::File) && !named ==> talk::refuses(
                            course,
                        )
                        &&& talk::shows(log, next, FileKind::File) && named ==> course
                            == workspace::containing_workspace(
                            path::parent(manifest)->Some_0,
                            current_dir,
                            words,
                            log,
                            next + 1,
                        )
                    },
                },
            }
        }),
{
    reveal(workspace::discovered_workspace);
}

/// A workspace must hold the manifest that was requested, or else the current
/// directory.
pub proof fn workspaces_hold_what_is_built(
    root: Seq<u8>,
    current_dir: Seq<u8>,
    words: Seq<Seq<u8>>,
    log: Seq<Answer>,
    at: int,
)
    ensures
        ({
            let course = workspace::containing_workspace(root, current_dir, words, log, at);
            match cargo_args::requested_manifest(words, current_dir, log, at) {
                Err(pause) => talk::pauses(course, pause),
                Ok((requested, next)) => {
                    let built = match requested {
                        Some(manifest) => manifest,
                        None => current_dir,
                    };
                    &&& path::within(built, root) ==> talk::gives(course, root, next)
                    &&& !path::within(built, root) ==> talk::refuses(course)
                },
            }
        }),
{
    reveal(workspace::containing_workspace);
}

/// A tool's answer is one line if it is one once the space round it is gone:
/// neither nothing nor broken into several.
pub proof fn one_line_is_not_two(bytes: Seq<u8>)
    ensures
        toolchain::single_line(bytes) matches Some(line) ==> {
            &&& line.len() > 0
            &&& forall|i: int| 0 <= i < line.len() ==> #[trigger] line[i] != '\n' && line[i] != '\r'
            &&& line == crate::scan::trimmed(os::lossy_text(bytes))
        },
        toolchain::single_line(bytes) is None ==> {
            let line = crate::scan::trimmed(os::lossy_text(bytes));
            line.len() == 0 || exists|i: int|
                0 <= i < line.len() && (#[trigger] line[i] == '\n' || line[i] == '\r')
        },
{
    let line = crate::scan::trimmed(os::lossy_text(bytes));
    if toolchain::single_line(bytes) is Some {
        assert forall|i: int| 0 <= i < line.len() implies #[trigger] line[i] != '\n' && line[i]
            != '\r' by {
            assert(!line.contains('\n') && !line.contains('\r'));
        }
    }
}

/// Dependencies can be had offline where Cargo's home holds a registry or Git
/// checkouts.
pub proof fn caches_are_present_as_directories(
    log: Seq<Answer>,
    at: int,
    home: Seq<u8>,
)
    requires
        0 <= at,
    ensures
        ({
            let course = workspace::cache_present(log, at);
            let absent = talk::missing(log, at + 1) || talk::unreadable(log, at + 1) || (
            talk::shown(log, at + 1) && !talk::shows(log, at + 1, FileKind::Directory));
            &&& talk::silent(log, at) ==> talk::asks(course, Query::Variable(os::lit("CARGO_HOME")))
            &&& talk::unset(log, at) && talk::silent(log, at + 1) ==> talk::asks(
                course,
                Query::Variable(os::lit("HOME")),
            )
            &&& talk::unset(log, at) && talk::unset(log, at + 1) ==> talk::gives(
                course,
                false,
                at + 2,
            )
            &&& talk::says(log, at, home) ==> {
                &&& talk::silent(log, at + 1) ==> talk::asks(
                    course,
                    Query::Inspect(path::join(home, os::lit("registry"))),
                )
                &&& talk::shows(log, at + 1, FileKind::Directory) ==> talk::gives(
                    course,
                    true,
                    at + 2,
                )
                &&& absent && talk::silent(log, at + 2) ==> talk::asks(
                    course,
                    Query::Inspect(path::join(home, os::lit("git"))),
                )
                &&& absent && talk::shows(log, at + 2, FileKind::Directory) ==> talk::gives(
                    course,
                    true,
                    at + 3,
                )
                &&& absent && (talk::missing(log, at + 2) || talk::unreadable(log, at + 2) || (
                talk::shown(log, at + 2) && !talk::shows(log, at + 2, FileKind::Directory)))
                    ==> talk::gives(course, false, at + 3)
            }
        }),
{
    reveal(workspace::cache_present);
}

} // verus!

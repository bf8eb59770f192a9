//! What has to hold of a release, and what is run before one.

use crate::flow;
use crate::flow::{Answer, Course, FileKind, Model, Query, Said, Step, Tool};
use crate::os;
use crate::path;
use crate::release;
use crate::release::CheckMode;
use crate::scan;
use crate::talk;
use crate::toolchain;
use vstd::prelude::*;
use vstd::string::*;
use vstd::utf8::*;

verus! {

// ---------------------------------------------------------------------------
// Arguments
// ---------------------------------------------------------------------------

/// Whether an argument is a word.
pub open spec fn is_word(argument: Seq<u8>, word: Seq<char>) -> bool {
    valid_utf8(argument) && decode_utf8(argument) == word
}

/// The only option asks for Linux, and help can be asked for; any other word is
/// refused.
pub proof fn only_linux_can_be_required(words: Seq<Seq<u8>>, index: int, require_linux: bool)
    requires
        0 <= index < words.len(),
    ensures
        ({
            let read = release::mode_from(words, index, require_linux);
            let word = words[index];
            &&& is_word(word, "--require-linux"@) ==> read == release::mode_from(
                words,
                index + 1,
                true,
            )
            &&& is_word(word, "--help"@) || is_word(word, "-h"@) ==> read == Ok::<
                CheckMode,
                Seq<char>,
            >(CheckMode::Help)
            &&& !is_word(word, "--require-linux"@) && !is_word(word, "--help"@) && !is_word(
                word,
                "-h"@,
            ) ==> read is Err
        }),
        release::mode_from(words, words.len() as int, require_linux) == Ok::<CheckMode, Seq<char>>(
            CheckMode::Run { require_linux },
        ),
{
    reveal_strlit("--require-linux");
    reveal_strlit("--help");
    reveal_strlit("-h");
    assert("--require-linux"@.len() == 15);
    assert("--help"@.len() == 6);
    assert("-h"@.len() == 2);
}

// ---------------------------------------------------------------------------
// The workflow
// ---------------------------------------------------------------------------

/// Whether a text holds a pattern at one place and not again behind it.
pub open spec fn once(s: Seq<char>, pattern: Seq<char>) -> bool {
    exists|place: int| #[trigger]
        scan::occurs_at(s, pattern, place) && (forall|i: int|
            0 <= i < place || i >= place + pattern.len() ==> !#[trigger] scan::occurs_at(
                s,
                pattern,
                i,
            ))
}

proof fn lemma_once(s: Seq<char>, pattern: Seq<char>)
    requires
        pattern.len() > 0,
    ensures
        release::occurrences_from(s, pattern, 0) == 1 <==> once(s, pattern),
{
    scan::lemma_found(s, pattern, 0);
    match scan::found_from(s, pattern, 0) {
        None => {
            assert forall|place: int| !#[trigger] scan::occurs_at(s, pattern, place) by {
                if place >= 0 {
                }
            }
        },
        Some(place) => {
            let next = place + pattern.len();
            scan::lemma_found(s, pattern, next as int);
            assert(release::occurrences_from(s, pattern, 0) == 1 + release::occurrences_from(
                s,
                pattern,
                next as int,
            ));
            match scan::found_from(s, pattern, next as int) {
                None => {
                    assert(release::occurrences_from(s, pattern, next as int) == 0);
                    assert(once(s, pattern));
                },
                Some(other) => {
                    assert(scan::occurs_at(s, pattern, other));
                    if once(s, pattern) {
                        let only = choose|only: int| #[trigger]
                            scan::occurs_at(s, pattern, only) && (forall|i: int|
                                0 <= i < only || i >= only + pattern.len()
                                    ==> !#[trigger] scan::occurs_at(s, pattern, i));
                        assert(only >= place);
                        assert(scan::occurs_at(s, pattern, place));
                        assert(false);
                    }
                },
            }
        },
    }
}

/// Whether the first place of one pattern comes before that of another.
pub open spec fn before(s: Seq<char>, first: Seq<char>, second: Seq<char>) -> bool {
    scan::found_from(s, first, 0) matches Some(here) && (scan::found_from(s, second, 0) matches Some(
        there,
    ) && here < there)
}

/// Whether a workflow publishes a package in a way.
pub open spec fn publishes(workflow: Seq<char>, package: Seq<char>, option: Seq<char>) -> bool {
    scan::occurs(workflow, "cargo publish --locked --package "@ + package + option)
}

/// Whether a workflow uses short-lived tokens only.
pub open spec fn short_lived(workflow: Seq<char>) -> bool {
    &&& !scan::occurs(workflow, "secrets.CARGO_REGISTRY_TOKEN"@)
    &&& once(workflow, "id-token: write"@)
    &&& scan::occurs(
        workflow,
        "rust-lang/crates-io-auth-action@c6f97d42243bad5fab37ca0427f495c86d5b1a18"@,
    )
    &&& scan::occurs(workflow, "CARGO_REGISTRY_TOKEN: ${{ steps.crates_io_auth.outputs.token }}"@)
}

/// Whether a workflow tries its packages out before it authenticates, and
/// authenticates before it publishes.
pub open spec fn ordered(workflow: Seq<char>) -> bool {
    &&& before(
        workflow,
        "name: Dry-run packages without registry credentials"@,
        "name: Authenticate with crates.io"@,
    )
    &&& before(
        workflow,
        "name: Authenticate with crates.io"@,
        "name: Publish packages in dependency order"@,
    )
}

/// Whether a workflow uploads all four packages, and tries out those that depend
/// on others.
pub open spec fn complete(workflow: Seq<char>) -> bool {
    &&& scan::occurs(workflow, "cargo publish --locked --package \"$package\" --dry-run"@)
    &&& publishes(workflow, "cargo-cage-core"@, " --no-verify"@)
    &&& publishes(workflow, "cargo-cage-cargo"@, " --no-verify"@)
    &&& publishes(workflow, "cargo-cage-linux"@, " --no-verify"@)
    &&& publishes(workflow, "cargo-cage"@, " --no-verify"@)
    &&& publishes(workflow, "cargo-cage-cargo"@, " --dry-run"@)
    &&& publishes(workflow, "cargo-cage-linux"@, " --dry-run"@)
    &&& publishes(workflow, "cargo-cage"@, " --dry-run"@)
}

/// Whether a workflow looks at what was released before, never edits it, and
/// runs for tags of a version only.
pub open spec fn immutable(workflow: Seq<char>) -> bool {
    &&& scan::occurs(workflow, "gh api --include"@)
    &&& scan::occurs(workflow, "--json isDraft"@)
    &&& scan::occurs(workflow, "immutable releases must never be edited or moved"@)
    &&& scan::occurs(workflow, "- \"v*.*.*\""@)
    &&& !scan::occurs(workflow, "- \"v*\""@)
}

/// A workflow is accepted exactly if it uses short-lived tokens, keeps its
/// order, publishes every package and leaves releases alone.
pub proof fn workflows_are_accepted_if_well_made(workflow: Seq<char>)
    ensures
        release::workflow_fault(workflow) is None <==> short_lived(workflow) && ordered(workflow)
            && complete(workflow) && immutable(workflow),
{
    reveal_strlit("id-token: write");
    lemma_once(workflow, "id-token: write"@);
    reveal_with_fuel(release::unpublished_from, 5);
}

// ---------------------------------------------------------------------------
// Steps
// ---------------------------------------------------------------------------

/// A step is announced, its search path is made, and it is run in the root of
/// the repository. It has passed if it ends with 0, which is told.
pub proof fn steps_are_told_and_run(
    root: Seq<u8>,
    program: Seq<u8>,
    step: (Seq<char>, Seq<Seq<u8>>),
    log: Seq<Answer>,
    at: int,
)
    requires
        0 <= at,
    ensures
        ({
            let course = release::stepped(root, program, None, step, log, at);
            let answered = flow::given(log, at) matches Some(Answer::Done(_));
            &&& talk::silent(log, at) ==> talk::asks(
                course,
                Query::Tell("cargo-cage local-check: "@ + (step.0 + " ..."@)),
            )
            &&& answered && talk::silent(log, at + 1) ==> talk::asks(
                course,
                Query::RunStep(
                    Step { program, args: step.1, current_dir: root, search_path: None },
                ),
            )
            &&& answered && (flow::given(log, at + 1) matches Some(Answer::Exited(Err(_))))
                ==> (course matches Ok((Err(_), _)))
            &&& answered ==> (flow::given(log, at + 1) matches Some(Answer::Exited(Ok(exit))) ==> {
                &&& exit.code != Some(0i32) ==> (course matches Ok((Err(_), _)))
                &&& exit.code == Some(0i32) && talk::silent(log, at + 2) ==> talk::asks(
                    course,
                    Query::Tell("cargo-cage local-check: "@ + (step.0 + ": ok"@)),
                )
                &&& exit.code == Some(0i32) && (flow::given(log, at + 2) matches Some(
                    Answer::Done(_),
                )) ==> talk::gives(course, Ok::<(), Seq<char>>(()), at + 3)
            })
        }),
{
    reveal(release::stepped);
}

/// A toolchain directory comes first on the search path of a step, before what
/// the host searches.
pub proof fn toolchains_are_searched_first(
    name: Seq<char>,
    directory: Seq<u8>,
    log: Seq<Answer>,
    at: int,
    host: Seq<u8>,
)
    ensures
        talk::gives(
            release::toolchain_path(name, None, log, at),
            Ok::<Option<Seq<u8>>, Seq<char>>(None),
            at,
        ),
        talk::silent(log, at) ==> talk::asks(
            release::toolchain_path(name, Some(directory), log, at),
            Query::Variable(os::lit("PATH")),
        ),
        talk::says(log, at, host) ==> {
            let all = seq![directory] + toolchain::pieces(host);
            let course = release::toolchain_path(name, Some(directory), log, at);
            &&& toolchain::joinable(all) ==> talk::gives(
                course,
                Ok::<Option<Seq<u8>>, Seq<char>>(
                    Some(toolchain::joined(all, all.len() as int)),
                ),
                at + 1,
            )
            &&& !toolchain::joinable(all) ==> (course matches Ok((Err(_), _)))
        },
{
}

/// Whether a step was run and has passed.
pub open spec fn passed(
    root: Seq<u8>,
    program: Seq<u8>,
    directory: Option<Seq<u8>>,
    step: (Seq<char>, Seq<Seq<u8>>),
    log: Seq<Answer>,
) -> bool {
    exists|at: int|
        (#[trigger] release::stepped(root, program, directory, step, log, at)) matches Ok((
            Ok(_),
            _,
        ))
}

/// Steps have passed only if each of them has, in order; the first that fails
/// ends them.
pub proof fn every_step_must_pass(
    root: Seq<u8>,
    program: Seq<u8>,
    directory: Option<Seq<u8>>,
    steps: Seq<(Seq<char>, Seq<Seq<u8>>)>,
    index: int,
    log: Seq<Answer>,
    at: int,
)
    requires
        0 <= index <= steps.len(),
        forall|i: int|
            0 <= i < index ==> passed(root, program, directory, #[trigger] steps[i], log),
    ensures
        release::all_stepped(root, program, directory, steps, index, log, at) matches Ok((Ok(_), _))
            ==> forall|i: int|
            0 <= i < steps.len() ==> passed(root, program, directory, #[trigger] steps[i], log),
        index < steps.len() ==> match release::stepped(
            root,
            program,
            directory,
            steps[index],
            log,
            at,
        ) {
            Err(pause) => talk::pauses(
                release::all_stepped(root, program, directory, steps, index, log, at),
                pause,
            ),
            Ok((Err(message), _)) => release::all_stepped(
                root,
                program,
                directory,
                steps,
                index,
                log,
                at,
            ) matches Ok((Err(said), _)) && said == message,
            Ok((Ok(_), next)) => release::all_stepped(
                root,
                program,
                directory,
                steps,
                index,
                log,
                at,
            ) == release::all_stepped(root, program, directory, steps, index + 1, log, next),
        },
    decreases steps.len() - index,
{
    if index < steps.len() {
        if let Ok((Ok(_), next)) = release::stepped(
            root,
            program,
            directory,
            steps[index],
            log,
            at,
        ) {
            assert(passed(root, program, directory, steps[index], log));
            every_step_must_pass(root, program, directory, steps, index + 1, log, next);
        }
    }
}

/// Whether a list of words ends by turning warnings into errors.
pub open spec fn denies_warnings(words: Seq<Seq<u8>>) -> bool {
    words.len() >= 3 && words.subrange(words.len() - 3, words.len() as int) == seq![
        os::lit("--"),
        os::lit("-D"),
        os::lit("warnings"),
    ]
}

/// What is run before a release: formatting is checked in three places, the
/// locked dependencies are fetched, all targets are linted without warnings,
/// and the workspace is tested.
pub proof fn the_workspace_is_checked_in_order()
    ensures
        ({
            let steps = release::workspace_steps();
            &&& steps.len() == 7
            &&& steps[0].1 == seq![
                os::lit("fmt"),
                os::lit("--all"),
                os::lit("--"),
                os::lit("--check"),
            ]
            &&& steps[1].1 == seq![
                os::lit("fmt"),
                os::lit("--manifest-path"),
                os::lit("security/redteam/Cargo.toml"),
                os::lit("--"),
                os::lit("--check"),
            ]
            &&& steps[2].1 == seq![
                os::lit("fmt"),
                os::lit("--manifest-path"),
                os::lit("tools/ci-check/Cargo.toml"),
                os::lit("--"),
                os::lit("--check"),
            ]
            &&& steps[3].1 == seq![os::lit("fetch"), os::lit("--locked")]
            &&& steps[4].1.take(4) == seq![
                os::lit("clippy"),
                os::lit("--workspace"),
                os::lit("--all-targets"),
                os::lit("--locked"),
            ]
            &&& denies_warnings(steps[4].1) && steps[4].1.len() == 7
            &&& steps[5].1.take(5) == seq![
                os::lit("clippy"),
                os::lit("--manifest-path"),
                os::lit("tools/ci-check/Cargo.toml"),
                os::lit("--all-targets"),
                os::lit("--locked"),
            ]
            &&& denies_warnings(steps[5].1) && steps[5].1.len() == 8
            &&& steps[6].1 == seq![
                os::lit("test"),
                os::lit("--workspace"),
                os::lit("--locked"),
                os::lit("--"),
                os::lit("--nocapture"),
            ]
        }),
{
    let steps = release::workspace_steps();
    let tail = seq![os::lit("--"), os::lit("-D"), os::lit("warnings")];
    assert(steps[4].1.take(4) =~= seq![
        os::lit("clippy"),
        os::lit("--workspace"),
        os::lit("--all-targets"),
        os::lit("--locked"),
    ]);
    assert(steps[4].1.subrange(4, 7) =~= tail);
    assert(steps[5].1.take(5) =~= seq![
        os::lit("clippy"),
        os::lit("--manifest-path"),
        os::lit("tools/ci-check/Cargo.toml"),
        os::lit("--all-targets"),
        os::lit("--locked"),
    ]);
    assert(steps[5].1.subrange(5, 8) =~= tail);
}

/// What is run beside the workspace: the doctor, the lints and the run of the
/// attack runner against a fresh build, and the lints for Linux elsewhere.
pub proof fn the_runner_attacks_a_fresh_build(executable: Seq<char>)
    ensures
        release::doctor_steps().len() == 1,
        release::doctor_steps()[0].1 == seq![
            os::lit("run"),
            os::lit("--quiet"),
            os::lit("--package"),
            os::lit("cargo-cage"),
            os::lit("--bin"),
            os::lit("cargo-cage"),
            os::lit("--"),
            os::lit("doctor"),
        ],
        release::runner_steps().len() == 1,
        release::runner_steps()[0].1.take(5) == seq![
            os::lit("clippy"),
            os::lit("--manifest-path"),
            os::lit("security/redteam/Cargo.toml"),
            os::lit("--all-targets"),
            os::lit("--locked"),
        ],
        release::runner_steps()[0].1.len() == 8,
        denies_warnings(release::runner_steps()[0].1),
        release::build_steps().len() == 1,
        release::build_steps()[0].1 == seq![
            os::lit("build"),
            os::lit("--package"),
            os::lit("cargo-cage"),
            os::lit("--locked"),
        ],
        release::runner_step(executable).1 == seq![
            os::lit("run"),
            os::lit("--manifest-path"),
            os::lit("security/redteam/Cargo.toml"),
            os::lit("--locked"),
            os::lit("--"),
            os::lit("--cargo-cage"),
            encode_utf8(executable),
            os::lit("--iterations"),
            os::lit("64"),
        ],
        release::linux_compile_steps().len() == 2,
        release::linux_compile_steps()[0].1 == seq![
            os::lit("check"),
            os::lit("--workspace"),
            os::lit("--target"),
            os::lit("x86_64-unknown-linux-gnu"),
            os::lit("--tests"),
            os::lit("--locked"),
        ],
        release::linux_compile_steps()[1].1.take(6) == seq![
            os::lit("clippy"),
            os::lit("--workspace"),
            os::lit("--target"),
            os::lit("x86_64-unknown-linux-gnu"),
            os::lit("--all-targets"),
            os::lit("--locked"),
        ],
        release::linux_compile_steps()[1].1.len() == 9,
        denies_warnings(release::linux_compile_steps()[1].1),
{
    let tail = seq![os::lit("--"), os::lit("-D"), os::lit("warnings")];
    let runner = release::runner_steps()[0].1;
    assert(runner.subrange(5, 8) =~= tail);
    assert(runner.take(5) =~= seq![
        os::lit("clippy"),
        os::lit("--manifest-path"),
        os::lit("security/redteam/Cargo.toml"),
        os::lit("--all-targets"),
        os::lit("--locked"),
    ]);
    let lint = release::linux_compile_steps()[1].1;
    assert(lint.subrange(6, 9) =~= tail);
    assert(lint.take(6) =~= seq![
        os::lit("clippy"),
        os::lit("--workspace"),
        os::lit("--target"),
        os::lit("x86_64-unknown-linux-gnu"),
        os::lit("--all-targets"),
        os::lit("--locked"),
    ]);
}

// ---------------------------------------------------------------------------
// The whole check
// ---------------------------------------------------------------------------

/// Whether a check ended with a complaint.
pub open spec fn complains(course: Course<Result<(), Seq<char>>>, message: Seq<char>) -> bool {
    course matches Ok((Err(said), _)) && said == message
}

/// The workflow is read from its place in the repository, and what is wrong with
/// it is the complaint.
pub proof fn the_workflow_of_the_repository_is_read(root: Seq<u8>, log: Seq<Answer>, at: int)
    ensures
        ({
            let course = release::workflow_checked(root, log, at);
            let file = path::join(root, os::lit(".github/workflows/release.yml"));
            &&& talk::silent(log, at) ==> talk::asks(course, Query::ReadText(file))
            &&& flow::given(log, at) matches Some(Answer::Content(Err(_))) ==> (course matches Ok((
                Err(_),
                _,
            )))
            &&& flow::given(log, at) matches Some(Answer::Content(Ok(workflow))) ==> {
                &&& release::workflow_fault(workflow@) matches Some(message) ==> complains(
                    course,
                    message,
                )
                &&& release::workflow_fault(workflow@) is None && (flow::given(
                    log,
                    at + 1,
                ) matches Some(Answer::Done(_))) && 0 <= at ==> talk::gives(
                    course,
                    Ok::<(), Seq<char>>(()),
                    at + 2,
                )
            }
        }),
{
    reveal(release::workflow_checked);
}

/// A tool is asked with the environment of the host, and its answer counts only
/// if it succeeded and names something of the right kind.
pub proof fn tools_are_asked_where_things_are(
    tool: Tool,
    kind: FileKind,
    log: Seq<Answer>,
    at: int,
    said: Said,
)
    requires
        0 <= at,
    ensures
        ({
            let course = release::printed_path(tool, kind, log, at);
            let file = encode_utf8(scan::trimmed(os::lossy_text(said.stdout)));
            let answered = flow::given(log, at) matches Some(Answer::Output(Ok(output)))
                && output.model() == said;
            &&& talk::silent(log, at) ==> talk::asks(course, Query::RunTool(tool))
            &&& flow::given(log, at) matches Some(Answer::Output(Err(_))) ==> talk::gives(
                course,
                None::<Seq<u8>>,
                at + 1,
            )
            &&& answered && said.status.code != Some(0i32) ==> talk::gives(
                course,
                None::<Seq<u8>>,
                at + 1,
            )
            &&& answered && said.status.code == Some(0i32) ==> {
                &&& talk::silent(log, at + 1) ==> talk::asks(course, Query::Follow(file))
                &&& talk::shows(log, at + 1, kind) ==> talk::gives(course, Some(file), at + 2)
                &&& talk::missing(log, at + 1) || talk::unreadable(log, at + 1) || (talk::shown(
                    log,
                    at + 1,
                ) && !talk::shows(log, at + 1, kind)) ==> talk::gives(
                    course,
                    None::<Seq<u8>>,
                    at + 2,
                )
            }
        }),
{
}

/// What the tools are asked: Rustup for a program of a name, and the compiler
/// for the library directory of Linux.
pub proof fn tools_are_asked_for_linux(name: &str, rustc: Seq<u8>, log: Seq<Answer>, at: int)
    ensures
        talk::silent(log, at) ==> talk::asks(
            release::rustup_path(name, log, at),
            Query::RunTool(
                Tool {
                    program: os::lit("rustup"),
                    args: seq![os::lit("which"), os::lit(name)],
                    inherit: true,
                    environment: Seq::empty(),
                    current_dir: None,
                },
            ),
        ),
        release::library_tool(rustc) == (Tool {
            program: rustc,
            args: seq![
                os::lit("--print"),
                os::lit("target-libdir"),
                os::lit("--target"),
                os::lit("x86_64-unknown-linux-gnu"),
            ],
            inherit: true,
            environment: Seq::empty(),
            current_dir: None,
        }),
        release::tool_or(None, name) == os::lit(name),
        release::tool_or(Some(rustc), name) == rustc,
{
}

/// Elsewhere than on Linux the sources are compiled for Linux where its library
/// is installed, with the directory of Cargo on the search path; otherwise this
/// is skipped, and said to be.
pub proof fn linux_is_compiled_for_where_it_can_be(root: Seq<u8>, log: Seq<Answer>, at: int)
    ensures
        ({
            let course = release::linux_compiled(root, log, at);
            match release::rustup_path("cargo", log, at) {
                Err(pause) => talk::pauses(course, pause),
                Ok((cargo, a)) => match release::rustup_path("rustc", log, a) {
                    Err(pause) => talk::pauses(course, pause),
                    Ok((rustc, b)) => match release::printed_path(
                        release::library_tool(release::tool_or(rustc, "rustc")),
                        FileKind::Directory,
                        log,
                        b,
                    ) {
                        Err(pause) => talk::pauses(course, pause),
                        Ok((None, c)) => (flow::given(log, c) matches Some(Answer::Done(_)))
                            ==> talk::gives(course, Ok::<(), Seq<char>>(()), c + 1),
                        Ok((Some(_), c)) => course == release::all_stepped(
                            root,
                            release::tool_or(cargo, "cargo"),
                            path::parent(release::tool_or(cargo, "cargo")),
                            release::linux_compile_steps(),
                            0,
                            log,
                            c,
                        ),
                    },
                },
            }
        }),
{
    reveal(release::linux_compiled);
}

/// On Linux the doctor must pass, then the runner is linted, the program built,
/// and the runner run against it.
pub proof fn linux_is_checked_at_run_time(root: Seq<u8>, log: Seq<Answer>, at: int)
    ensures
        release::checked_on_linux(root, log, at) matches Ok((Ok(_), _)) ==> {
            let cargo = os::lit("cargo");
            release::all_stepped(
                root,
                cargo,
                None,
                release::doctor_steps(),
                0,
                log,
                at,
            ) matches Ok((Ok(_), a)) && (release::all_stepped(
                root,
                cargo,
                None,
                release::runner_steps(),
                0,
                log,
                a,
            ) matches Ok((Ok(_), b)) && (release::all_stepped(
                root,
                cargo,
                None,
                release::build_steps(),
                0,
                log,
                b,
            ) matches Ok((Ok(_), c)) && (release::stepped(
                root,
                cargo,
                None,
                release::runner_step(
                    decode_utf8(path::join(root, os::lit("target/debug/cargo-cage"))),
                ),
                log,
                c,
            ) matches Ok((Ok(_), _)))))
        },
{
    reveal(release::checked_on_linux);
    reveal(release::runner_run);
}

/// Elsewhere the check compiles for Linux and lints the runner; where Linux is
/// required it fails after that.
pub proof fn a_required_linux_cannot_be_replaced(
    root: Seq<u8>,
    require_linux: bool,
    log: Seq<Answer>,
    at: int,
)
    ensures
        require_linux ==> !(release::checked_elsewhere(root, require_linux, log, at) matches Ok((
            Ok(_),
            _,
        ))),
        release::checked_elsewhere(root, require_linux, log, at) matches Ok((Ok(_), _)) ==> (
        release::linux_compiled(root, log, at) matches Ok((Ok(_), a)) && (release::all_stepped(
            root,
            os::lit("cargo"),
            None,
            release::runner_steps(),
            0,
            log,
            a,
        ) matches Ok((Ok(_), _)))),
{
    reveal(release::checked_elsewhere);
}

/// The whole check resolves the repository, and passes only if the workflow, the
/// steps of the workspace and those of the platform do.
pub proof fn the_check_passes_if_every_part_does(
    manifest_dir: Seq<u8>,
    linux: bool,
    require_linux: bool,
    log: Seq<Answer>,
    at: int,
    root: Seq<u8>,
)
    requires
        0 <= at,
    ensures
        ({
            let course = release::checked(manifest_dir, linux, require_linux, log, at);
            &&& talk::silent(log, at) ==> talk::asks(
                course,
                Query::Resolve(path::join(manifest_dir, os::lit("../.."))),
            )
            &&& talk::nowhere(log, at) ==> (course matches Ok((Err(_), _)))
            &&& talk::leads(log, at, root) && (course matches Ok((Ok(_), _))) ==> (
            release::workflow_checked(root, log, at + 1) matches Ok((Ok(_), a)) && (
            release::all_stepped(
                root,
                os::lit("cargo"),
                None,
                release::workspace_steps(),
                0,
                log,
                a,
            ) matches Ok((Ok(_), b)) && (if linux {
                release::checked_on_linux(root, log, b)
            } else {
                release::checked_elsewhere(root, require_linux, log, b)
            } matches Ok((Ok(_), _)))))
        }),
{
    reveal(release::checked);
}

} // verus!

//! How attacks on a sandbox are set up and judged, and how fixtures are copied.

use crate::backend::OutputMode;
use crate::error::{IoFault, IoKind};
use crate::flow;
use crate::flow::{Answer, FileKind, Model, Query};
use crate::os;
use crate::path;
use crate::redteam;
use crate::redteam::{Observed, Scene, Settings, Setup, Words};
use crate::scan;
use crate::talk;
use crate::testkit;
use crate::testkit::Copied;
use vstd::prelude::*;
use vstd::string::*;
use vstd::utf8::*;

verus! {

// ---------------------------------------------------------------------------
// Arguments
// ---------------------------------------------------------------------------

/// Whether an argument is a word.
pub open spec fn is_word(argument: Seq<u8>, word: Seq<char>) -> bool {
    valid_utf8(argument) && decode_utf8(argument) == word
}

/// What each option does to the settings: it names the program, sets the number
/// of iterations, or keeps the files; any other word is refused.
pub proof fn options_set_what_they_name(words: Seq<Seq<u8>>, index: int, settings: Settings)
    requires
        0 <= index < words.len(),
    ensures
        ({
            let read = redteam::config_from(words, index, settings);
            let word = words[index];
            &&& !valid_utf8(word) ==> read is Err
            &&& is_word(word, "--cargo-cage"@) && index + 1 == words.len() ==> read is Err
            &&& is_word(word, "--cargo-cage"@) && index + 1 < words.len() ==> read
                == redteam::config_from(
                words,
                index + 2,
                Settings {
                    cargo_cage: Some(words[index + 1]),
                    iterations: settings.iterations,
                    keep: settings.keep,
                },
            )
            &&& is_word(word, "--iterations"@) && index + 1 == words.len() ==> read is Err
            &&& is_word(word, "--iterations"@) && index + 1 < words.len()
                ==> match scan::number(os::shown(words[index + 1]), 0xffff_ffff) {
                Err(_) => read is Err,
                Ok(count) => if count == 0 {
                    read is Err
                } else {
                    read == redteam::config_from(
                        words,
                        index + 2,
                        Settings {
                            cargo_cage: settings.cargo_cage,
                            iterations: count as u32,
                            keep: settings.keep,
                        },
                    )
                },
            }
            &&& is_word(word, "--keep"@) ==> read == redteam::config_from(
                words,
                index + 1,
                Settings {
                    cargo_cage: settings.cargo_cage,
                    iterations: settings.iterations,
                    keep: true,
                },
            )
            &&& is_word(word, "--help"@) || is_word(word, "-h"@) ==> read is Err
            &&& valid_utf8(word) && !is_word(word, "--cargo-cage"@) && !is_word(
                word,
                "--iterations"@,
            ) && !is_word(word, "--keep"@) ==> read is Err
        }),
{
    reveal_strlit("--cargo-cage");
    reveal_strlit("--iterations");
    reveal_strlit("--keep");
    reveal_strlit("--help");
    reveal_strlit("-h");
    assert("--cargo-cage"@.len() == 12);
    assert("--iterations"@.len() == 12);
    assert("--cargo-cage"@[2] != "--iterations"@[2]);
    assert("--keep"@.len() == 6);
    assert("--help"@.len() == 6);
    assert("--keep"@[2] != "--help"@[2]);
    assert("-h"@.len() == 2);
}

/// Without options nothing runs, since the program must be named; there are
/// thirty-two iterations and nothing is kept unless the options say so.
pub proof fn settings_begin_with_their_defaults(words: Seq<Seq<u8>>, settings: Settings)
    ensures
        redteam::configured(words) == redteam::config_from(
            words,
            0,
            Settings { cargo_cage: None, iterations: 32, keep: false },
        ),
        words.len() == 0 ==> redteam::configured(words) is Err,
        redteam::config_from(words, words.len() as int, settings) == match settings.cargo_cage {
            Some(program) => Ok::<Setup, Seq<char>>(
                Setup {
                    cargo_cage: program,
                    iterations: settings.iterations,
                    keep: settings.keep,
                },
            ),
            None => Err("--cargo-cage is required"@),
        },
{
}

/// The program must resolve to a regular file.
pub proof fn the_program_is_a_regular_file(
    config: Setup,
    log: Seq<Answer>,
    at: int,
    file: Seq<u8>,
)
    requires
        0 <= at,
    ensures
        ({
            let course = redteam::located(config, log, at);
            &&& talk::silent(log, at) ==> talk::asks(course, Query::Resolve(config.cargo_cage))
            &&& talk::nowhere(log, at) ==> (course matches Ok((found, _)) && found is Err)
            &&& talk::leads(log, at, file) ==> {
                &&& talk::silent(log, at + 1) ==> talk::asks(course, Query::Follow(file))
                &&& talk::shows(log, at + 1, FileKind::File) ==> talk::gives(
                    course,
                    Ok::<Seq<u8>, Seq<char>>(file),
                    at + 2,
                )
                &&& talk::missing(log, at + 1) || talk::unreadable(log, at + 1) || (talk::shown(
                    log,
                    at + 1,
                ) && !talk::shows(log, at + 1, FileKind::File)) ==> (course matches Ok((found, _))
                    && found is Err)
            }
        }),
{
    reveal(redteam::located);
}

/// The tools of the attacks, in the order in which they are looked for.
pub open spec fn tool(index: int) -> Seq<char> {
    if index == 0 {
        "/usr/bin/unshare"@
    } else if index == 1 {
        "/usr/bin/nsenter"@
    } else if index == 2 {
        "/usr/bin/mount"@
    } else if index == 3 {
        "/usr/bin/mknod"@
    } else {
        "/usr/bin/python3"@
    }
}

proof fn lemma_tools(count: int, log: Seq<Answer>, at: int)
    requires
        0 <= at,
        0 <= count <= 5,
        forall|i: int| 0 <= i < count ==> talk::holds(log, #[trigger] (at + i), true),
    ensures
        redteam::tools_from(redteam::required_tools(), 0, log, at) == redteam::tools_from(
            redteam::required_tools(),
            count,
            log,
            at + count,
        ),
    decreases count,
{
    if count > 0 {
        lemma_tools(count - 1, log, at);
        assert(talk::holds(log, at + (count - 1), true));
    }
}

/// Each of the five tools must be runnable, and the first that is not is named.
pub proof fn all_tools_are_needed(count: int, log: Seq<Answer>, at: int)
    requires
        0 <= at,
        0 <= count <= 5,
        forall|i: int| 0 <= i < count ==> talk::holds(log, #[trigger] (at + i), true),
    ensures
        ({
            let course = redteam::tools_from(redteam::required_tools(), 0, log, at);
            &&& count < 5 && talk::silent(log, at + count) ==> talk::asks(
                course,
                Query::Runnable(encode_utf8(tool(count))),
            )
            &&& count < 5 && talk::holds(log, at + count, false) ==> (course matches Ok((
                Err(message),
                _,
            )) && exists|front: Seq<char>| message == #[trigger] (front + tool(count)))
            &&& count == 5 ==> talk::gives(course, Ok::<(), Seq<char>>(()), at + 5)
        }),
{
    lemma_tools(count, log, at);
    if count < 5 {
        assert(redteam::required_tools()[count] == tool(count));
    }
}

// ---------------------------------------------------------------------------
// Cases
// ---------------------------------------------------------------------------

/// The places of a case lie below its root, and the sentinel outside its
/// workspace.
pub proof fn cases_lie_below_their_root(name: Seq<char>, root: Seq<u8>, cargo_cage: Seq<u8>)
    ensures
        ({
            let scene = redteam::scene(name, root, cargo_cage);
            &&& scene.name == name
            &&& scene.root == root
            &&& scene.cargo_cage == cargo_cage
            &&& scene.workspace == path::join(root, os::lit("workspace"))
            &&& scene.home == path::join(root, os::lit("home"))
            &&& scene.cargo_home == path::join(root, os::lit("cargo-home"))
            &&& scene.external == path::join(root, os::lit("external"))
            &&& scene.sentinel == path::join(
                path::join(root, os::lit("external")),
                os::lit("sentinel"),
            )
        }),
{
}

/// A case builds its own manifest in its own workspace with its own homes, free
/// of the variables that choose another target or another Bubblewrap.
pub proof fn cases_build_their_own_workspace(
    scene: Scene,
    reuse_target: bool,
    rustup_home: Option<Seq<u8>>,
)
    ensures
        ({
            let child = redteam::case_command(scene, reuse_target, rustup_home);
            let words = child.args;
            let start = words.len() - 3;
            &&& child.program == scene.cargo_cage
            &&& child.current_dir == scene.workspace
            &&& child.output == OutputMode::Capture
            &&& start == if reuse_target {
                1int
            } else {
                0int
            }
            &&& reuse_target ==> words[0] == os::lit("--reuse-target")
            &&& words[start] == os::lit("build")
            &&& words[start + 1] == os::lit("--manifest-path")
            &&& words[start + 2] == path::join(scene.workspace, os::lit("Cargo.toml"))
            &&& child.set[0] == (os::lit("HOME"), scene.home)
            &&& child.set[1] == (os::lit("CARGO_HOME"), scene.cargo_home)
            &&& rustup_home matches Some(home) ==> child.set.len() == 3 && child.set[2] == (
                os::lit("RUSTUP_HOME"),
                home,
            )
            &&& rustup_home is None ==> child.set.len() == 2
            &&& child.remove.contains(os::lit("CARGO_TARGET_DIR"))
            &&& child.remove.contains(os::lit("CARGO_BUILD_TARGET_DIR"))
            &&& child.remove.contains(os::lit("CARGO_CAGE_BWRAP"))
        }),
{
    let removals = redteam::case_removals();
    assert(removals[0] == os::lit("CARGO_TARGET_DIR"));
    assert(removals[1] == os::lit("CARGO_BUILD_TARGET_DIR"));
    assert(removals[2] == os::lit("CARGO_CAGE_BWRAP"));
}

/// The case with an open descriptor is started by a shell that opens the secret
/// as descriptor 9 and then runs the same command.
pub proof fn a_shell_opens_the_descriptor(scene: Scene, secret: Seq<u8>)
    ensures
        ({
            let child = redteam::descriptor_command(scene, secret);
            let plain = redteam::case_command(scene, false, None);
            &&& child.program == os::lit("/bin/sh")
            &&& child.args[0] == os::lit("-c")
            &&& child.args[1] == os::lit("exec 9<\"$1\"; shift; exec \"$@\"")
            &&& child.args[3] == secret
            &&& child.args[4] == plain.program
            &&& child.args.skip(5) == plain.args
            &&& child.set == plain.set
            &&& child.remove == plain.remove
            &&& child.current_dir == plain.current_dir
            &&& child.output == plain.output
        }),
{
    let child = redteam::descriptor_command(scene, secret);
    assert(child.args.skip(5) =~= redteam::case_args(scene, false));
}

// ---------------------------------------------------------------------------
// Judgements
// ---------------------------------------------------------------------------

/// Which output shows that the policy held an attack back: the attack says so
/// itself, or the sandbox names an error with its remedy.
pub proof fn policies_explain_themselves(said: Seq<char>)
    ensures
        scan::occurs(said, "CAGE_POLICY_DENIED"@) ==> redteam::shows_policy(said),
        scan::occurs(said, "remedy:"@) && scan::occurs(said, "sandbox policy error"@)
            ==> redteam::shows_policy(said),
        scan::occurs(said, "remedy:"@) && scan::occurs(said, "sandbox setup failed"@)
            ==> redteam::shows_policy(said),
        redteam::shows_policy(said) ==> scan::occurs(said, "CAGE_POLICY_DENIED"@) || scan::occurs(
            said,
            "remedy:"@,
        ),
        redteam::shows_policy(said) && !scan::occurs(said, "CAGE_POLICY_DENIED"@) ==> scan::occurs(
            said,
            "sandbox policy error"@,
        ) || scan::occurs(said, "sandbox setup failed"@),
{
}

/// A complaint names its case first, and the worst comes first: a change of the
/// sentinel, a leak, a missing explanation, and at last that the attack got
/// through.
pub proof fn complaints_name_the_worst(
    name: Seq<char>,
    words: Words,
    unchanged: bool,
    secrets: Seq<Seq<char>>,
    observed: Observed,
)
    ensures
        ({
            let verdict = redteam::verdict(name, words, unchanged, secrets, observed);
            let leaked = exists|i: int|
                0 <= i < secrets.len() && scan::occurs(observed.text(), #[trigger] secrets[i]);
            &&& !unchanged ==> verdict == Some(name + ": "@ + words.changed)
            &&& unchanged && leaked ==> verdict == Some(name + ": "@ + words.leaked)
            &&& unchanged && !leaked && !redteam::shows_policy(observed.text()) ==> verdict == Some(
                name + ": "@ + words.unexplained,
            )
            &&& verdict matches Some(said) ==> exists|rest: Seq<char>|
                said == #[trigger] (name + ": "@ + rest)
            &&& observed.succeeded ==> verdict is Some
        }),
        observed.text() == os::lossy_text(observed.stdout) + os::lossy_text(observed.stderr),
{
    if let Some(said) = redteam::verdict(name, words, unchanged, secrets, observed) {
        if redteam::got_through(observed) {
            let line = redteam::bypass_line(scan::lines(observed.text()), 0);
            assert(name + ": "@ + words.through + ": "@ + line =~= name + ": "@ + (words.through
                + ": "@ + line));
        }
    }
}

proof fn lemma_bypass(lines: Seq<Seq<char>>, index: int, place: int)
    requires
        0 <= index <= place < lines.len(),
        scan::occurs(lines[place], "CAGE_POLICY_BYPASSED"@),
        forall|i: int|
            index <= i < place ==> !scan::occurs(#[trigger] lines[i], "CAGE_POLICY_BYPASSED"@),
    ensures
        redteam::bypass_line(lines, index) == lines[place],
    decreases place - index,
{
    if index < place {
        lemma_bypass(lines, index + 1, place);
    }
}

proof fn lemma_no_bypass(lines: Seq<Seq<char>>, index: int)
    requires
        0 <= index <= lines.len(),
        forall|i: int|
            index <= i < lines.len() ==> !scan::occurs(
                #[trigger] lines[i],
                "CAGE_POLICY_BYPASSED"@,
            ),
    ensures
        redteam::bypass_line(lines, index) == "unexpected successful or unsafe process result"@,
    decreases lines.len() - index,
{
    if index < lines.len() {
        lemma_no_bypass(lines, index + 1);
    }
}

/// What got through is told by the first line that says so.
pub proof fn the_first_bypass_is_told(lines: Seq<Seq<char>>, place: int)
    ensures
        0 <= place < lines.len() && scan::occurs(lines[place], "CAGE_POLICY_BYPASSED"@) && (forall|
            i: int,
        |
            0 <= i < place ==> !scan::occurs(#[trigger] lines[i], "CAGE_POLICY_BYPASSED"@))
            ==> redteam::bypass_line(lines, 0) == lines[place],
        (forall|i: int|
            0 <= i < lines.len() ==> !scan::occurs(#[trigger] lines[i], "CAGE_POLICY_BYPASSED"@))
            ==> redteam::bypass_line(lines, 0) == "unexpected successful or unsafe process result"@,
{
    if 0 <= place < lines.len() && scan::occurs(lines[place], "CAGE_POLICY_BYPASSED"@) && (forall|
        i: int,
    |
        0 <= i < place ==> !scan::occurs(#[trigger] lines[i], "CAGE_POLICY_BYPASSED"@)) {
        lemma_bypass(lines, 0, place);
    }
    if forall|i: int|
        0 <= i < lines.len() ==> !scan::occurs(#[trigger] lines[i], "CAGE_POLICY_BYPASSED"@) {
        lemma_no_bypass(lines, 0);
    }
}

/// When the other judgements pass: a normal build succeeds with its artifact in
/// an isolated run; a swap of the target is held back and explained, with the
/// sentinel as it was; and a seed succeeds.
pub proof fn normal_builds_and_swaps_are_told_apart(
    name: Seq<char>,
    observed: Observed,
    in_target: bool,
    in_run: bool,
    sentinel: Seq<u8>,
)
    ensures
        redteam::build_verdict(name, observed, in_target, in_run) is None <==> observed.succeeded
            && in_target && in_run,
        redteam::swap_verdict(name, observed, sentinel) is None <==> !observed.succeeded
            && !scan::occurs(observed.text(), "CAGE_POLICY_BYPASSED"@) && redteam::shows_policy(
            observed.text(),
        ) && sentinel == os::lit("redteam-sentinel-before"),
        redteam::seed_verdict(name, observed) is None <==> observed.succeeded,
{
}

/// A case that sends datagrams passes if it was held back and none arrived; one
/// that links to its manifest passes if it was held back and the manifest is as
/// it was. What was wrong with the case itself is told before a changed
/// manifest, but after a datagram that arrived.
pub proof fn datagrams_and_manifests_count_too(
    judged: Option<Seq<char>>,
    arrived: bool,
    unchanged: bool,
)
    ensures
        redteam::network_verdict(judged, arrived) is None <==> judged is None && !arrived,
        !arrived ==> redteam::network_verdict(judged, arrived) == judged,
        arrived ==> redteam::network_verdict(judged, arrived) == redteam::network_verdict(
            None,
            true,
        ),
        redteam::hardlink_verdict(judged, unchanged) is None <==> judged is None && unchanged,
        judged is Some ==> redteam::hardlink_verdict(judged, unchanged) == judged,
{
}

/// A target is exchanged as often as there are iterations, but sixteen times at
/// most.
pub proof fn targets_are_exchanged_sixteen_times_at_most(iterations: u32)
    ensures
        redteam::swap_limit(iterations) <= iterations,
        redteam::swap_limit(iterations) <= 16,
        redteam::swap_limit(iterations) == iterations || redteam::swap_limit(iterations) == 16,
{
}

/// A file is looked for in a directory by its name and then below each of the
/// directories in it.
pub proof fn files_are_looked_for_below(
    directory: Seq<u8>,
    names: Seq<Seq<u8>>,
    index: int,
    name: Seq<u8>,
    log: Seq<Answer>,
    at: int,
)
    requires
        0 <= at,
        0 <= index < names.len(),
    ensures
        ({
            let course = redteam::found_among(directory, names, index, name, log, at);
            let inner = path::join(directory, names[index]);
            &&& names[index] == name ==> talk::gives(course, true, at)
            &&& names[index] != name ==> {
                &&& talk::silent(log, at) ==> talk::asks(course, Query::Follow(inner))
                &&& talk::missing(log, at) || talk::unreadable(log, at) || (talk::shown(log, at)
                    && !talk::shows(log, at, FileKind::Directory)) ==> course
                    == redteam::found_among(directory, names, index + 1, name, log, at + 1)
                &&& talk::shows(log, at, FileKind::Directory) ==> {
                    let below = redteam::found_below(inner, name, log, at + 1);
                    &&& below matches Err(pause) ==> talk::pauses(course, pause)
                    &&& below matches Ok((true, next)) ==> talk::gives(course, true, next)
                    &&& below matches Ok((false, next)) ==> (at < next <= log.len() ==> course
                        == redteam::found_among(directory, names, index + 1, name, log, next))
                }
            }
        }),
        talk::silent(log, at) ==> talk::asks(
            redteam::found_below(directory, name, log, at),
            Query::ReadDirectory(directory),
        ),
        flow::given(log, at) matches Some(Answer::Names(Err(_))) ==> talk::gives(
            redteam::found_below(directory, name, log, at),
            false,
            at + 1,
        ),
        flow::given(log, at) matches Some(Answer::Names(Ok(list))) ==> redteam::found_below(
            directory,
            name,
            log,
            at,
        ) == redteam::found_among(directory, list.model().names, 0, name, log, at + 1),
{
    reveal_with_fuel(redteam::found_among, 2);
    reveal_with_fuel(redteam::found_below, 2);
}

// ---------------------------------------------------------------------------
// Fixtures
// ---------------------------------------------------------------------------

/// A fixture is copied entry by entry: each name of the source is looked at; a
/// directory is made and copied in turn, a file is copied, and anything else is
/// not supported.
pub proof fn fixtures_are_copied_entry_by_entry(
    source: Seq<u8>,
    destination: Seq<u8>,
    names: Seq<Seq<u8>>,
    index: int,
    log: Seq<Answer>,
    at: int,
)
    requires
        0 <= at,
        0 <= index < names.len(),
    ensures
        ({
            let course = testkit::copied_names(source, destination, names, index, log, at);
            let from = path::join(source, names[index]);
            let to = path::join(destination, names[index]);
            &&& talk::silent(log, at) ==> talk::asks(course, Query::Inspect(from))
            &&& talk::missing(log, at) || talk::unreadable(log, at) ==> (course matches Ok((
                Err(_),
                _,
            )))
            &&& talk::shows(log, at, FileKind::File) ==> {
                &&& talk::silent(log, at + 1) ==> talk::asks(course, Query::CopyFile(from, to))
                &&& talk::undone(log, at + 1) ==> (course matches Ok((Err(_), _)))
                &&& talk::done(log, at + 1) ==> course == testkit::copied_names(
                    source,
                    destination,
                    names,
                    index + 1,
                    log,
                    at + 2,
                )
            }
            &&& talk::shows(log, at, FileKind::Directory) ==> {
                &&& talk::silent(log, at + 1) ==> talk::asks(course, Query::CreateDirectory(to))
                &&& talk::undone(log, at + 1) ==> (course matches Ok((Err(_), _)))
                &&& talk::done(log, at + 1) ==> {
                    let inner = testkit::copied_tree(from, to, log, at + 2);
                    &&& inner matches Err(pause) ==> talk::pauses(course, pause)
                    &&& inner matches Ok((Err(_), _)) ==> (course matches Ok((Err(_), _)))
                    &&& inner matches Ok((Ok(_), next)) ==> (at < next <= log.len() ==> course
                        == testkit::copied_names(source, destination, names, index + 1, log, next))
                }
            }
            &&& talk::shows(log, at, FileKind::Symlink) || talk::shows(
                log,
                at,
                FileKind::CharDevice,
            ) || talk::shows(log, at, FileKind::Other) ==> (course matches Ok((Err(fault), _))
                && fault.kind == IoKind::Unsupported)
        }),
        talk::silent(log, at) ==> talk::asks(
            testkit::copied_tree(source, destination, log, at),
            Query::ReadDirectory(source),
        ),
        testkit::copied_names(source, destination, names, names.len() as int, log, at)
            == Ok::<(Result<(), IoFault>, int), flow::Pause>((Ok(()), at)),
{
    reveal_with_fuel(testkit::copied_names, 2);
    reveal_with_fuel(testkit::copied_tree, 2);
}

/// A fixture is a directory of that name below `fixtures`. It is copied to a
/// fresh directory for temporary files, which becomes its root.
pub proof fn fixtures_are_copied_to_a_fresh_place(
    manifest_dir: Seq<u8>,
    name: Seq<char>,
    log: Seq<Answer>,
    at: int,
    directory: Seq<u8>,
    fresh: Seq<u8>,
    source: Seq<u8>,
    destination: Seq<u8>,
)
    requires
        0 <= at,
    ensures
        ({
            let course = testkit::materialized(manifest_dir, name, log, at);
            let fixture = path::join(
                path::join(manifest_dir, os::lit("fixtures")),
                encode_utf8(name),
            );
            &&& talk::silent(log, at) ==> talk::asks(course, Query::Follow(fixture))
            &&& talk::missing(log, at) || talk::unreadable(log, at) || (talk::shown(log, at)
                && !talk::shows(log, at, FileKind::Directory)) ==> (course matches Ok((
                Err(fault),
                _,
            )) && fault.kind == IoKind::NotFound)
            &&& talk::shows(log, at, FileKind::Directory) ==> {
                &&& talk::silent(log, at + 1) ==> talk::asks(course, Query::TemporaryDirectory)
                &&& talk::leads(log, at + 1, directory) ==> {
                    &&& talk::silent(log, at + 2) ==> talk::asks(course, Query::FreshName)
                    &&& talk::unset(log, at + 2) ==> (course matches Ok((Err(_), _)))
                    &&& talk::says(log, at + 2, fresh) ==> course == testkit::placed(
                        fixture,
                        path::join(directory, os::lit("cargo-cage-fixture-") + fresh),
                        log,
                        at + 3,
                    )
                }
            }
        }),
        ({
            let course = testkit::placed(source, destination, log, at);
            &&& talk::silent(log, at) ==> talk::asks(course, Query::CreateDirectory(destination))
            &&& talk::undone(log, at) ==> (course matches Ok((Err(_), _)))
            &&& talk::done(log, at) ==> match testkit::copied_tree(
                source,
                destination,
                log,
                at + 1,
            ) {
                Err(pause) => talk::pauses(course, pause),
                Ok((Err(_), _)) => course matches Ok((Err(_), _)),
                Ok((Ok(_), next)) => talk::gives(
                    course,
                    Ok::<Copied, IoFault>(
                        Copied { root: destination, cleanup: Seq::empty() },
                    ),
                    next,
                ),
            }
        }),
{
    reveal(testkit::materialized);
    reveal(testkit::placed);
}

/// A directory beside a fixture has the name of the fixture and its own, and is
/// made with whatever is missing above it.
pub proof fn directories_beside_are_named_after_the_fixture(
    root: Seq<u8>,
    name: Seq<char>,
    log: Seq<Answer>,
    at: int,
    own: Seq<u8>,
    holder: Seq<u8>,
)
    ensures
        path::file_name(root) is None || path::parent(root) is None ==> testkit::beside(
            root,
            name,
        ) is Err,
        path::file_name(root) == Some(own) && path::parent(root) == Some(holder) ==> {
            let place = path::join(holder, encode_utf8(os::lossy_text(own) + "-"@ + name));
            &&& testkit::beside(root, name) == Ok::<Seq<u8>, IoFault>(place)
            &&& talk::silent(log, at) ==> talk::asks(
                testkit::created_beside(root, name, log, at),
                Query::CreateDirectories(place),
            )
            &&& talk::done(log, at) ==> talk::gives(
                testkit::created_beside(root, name, log, at),
                Ok::<Seq<u8>, IoFault>(place),
                at + 1,
            )
            &&& talk::undone(log, at) ==> (testkit::created_beside(root, name, log, at) matches Ok((
                Err(_),
                _,
            )))
        },
{
}

} // verus!

//! Where the Rust toolchain of a build comes from.

use crate::cargo_args;
use crate::flow;
use crate::flow::{Answer, Course, FileKind, Model, Query, Said};
use crate::os;
use crate::path;
use crate::talk;
use crate::toolchain;
use crate::toolchain::Admission;
use crate::walk;
use vstd::prelude::*;
use vstd::string::*;
use vstd::utf8::*;

verus! {

// ---------------------------------------------------------------------------
// Search lists
// ---------------------------------------------------------------------------

proof fn lemma_joined_front(head: Seq<u8>, rest: Seq<Seq<u8>>, count: int)
    requires
        1 <= count <= rest.len(),
    ensures
        toolchain::joined(seq![head] + rest, count + 1) == head.push(58u8) + toolchain::joined(
            rest,
            count,
        ),
    decreases count,
{
    let all = seq![head] + rest;
    reveal_with_fuel(toolchain::joined, 3);
    assert(all[count] == rest[count - 1]);
    if count == 1 {
        assert(all[0] == head);
    } else {
        lemma_joined_front(head, rest, count - 1);
        assert(toolchain::joined(all, count + 1) =~= head.push(58u8) + toolchain::joined(
            rest,
            count,
        ));
    }
}

/// Whether a list of bytes is free of separators.
pub open spec fn plain(piece: Seq<u8>) -> bool {
    forall|i: int| 0 <= i < piece.len() ==> #[trigger] piece[i] != 58u8
}

proof fn lemma_pieces(list: Seq<u8>, start: int, index: int)
    requires
        0 <= start <= index <= list.len(),
        plain(list.subrange(start, index)),
    ensures
        ({
            let all = toolchain::pieces_from(list, start, index);
            &&& all.len() >= 1
            &&& toolchain::joined(all, all.len() as int) == list.subrange(start, list.len() as int)
            &&& forall|k: int| 0 <= k < all.len() ==> plain(#[trigger] all[k])
        }),
    decreases list.len() - index,
{
    let all = toolchain::pieces_from(list, start, index);
    if index >= list.len() {
        assert(list.subrange(start, index) =~= list.subrange(start, list.len() as int));
    } else if list[index] == 58u8 {
        let rest = toolchain::pieces_from(list, index + 1, index + 1);
        let head = list.subrange(start, index);
        lemma_pieces(list, index + 1, index + 1);
        lemma_joined_front(head, rest, rest.len() as int);
        assert(head.push(58u8) + list.subrange(index + 1, list.len() as int) =~= list.subrange(
            start,
            list.len() as int,
        ));
        assert forall|k: int| 0 <= k < all.len() implies plain(#[trigger] all[k]) by {
            if k > 0 {
                assert(all[k] == rest[k - 1]);
            }
        }
    } else {
        assert(list.subrange(start, index + 1) =~= list.subrange(start, index).push(list[index]));
        lemma_pieces(list, start, index + 1);
    }
}

proof fn lemma_pieces_start(first: Seq<u8>, rest: Seq<u8>, index: int)
    requires
        plain(first),
        0 <= index <= first.len(),
    ensures
        toolchain::pieces_from(first.push(58u8) + rest, 0, index) == seq![first]
            + toolchain::pieces_from(
            first.push(58u8) + rest,
            first.len() as int + 1,
            first.len() as int + 1,
        ),
    decreases first.len() - index,
{
    let list = first.push(58u8) + rest;
    if index < first.len() {
        assert(list[index] == first[index]);
        lemma_pieces_start(first, rest, index + 1);
    } else {
        assert(list[index] == 58u8);
        assert(list.subrange(0, index) =~= first);
    }
}

proof fn lemma_pieces_shift(list: Seq<u8>, shift: int, start: int, index: int)
    requires
        0 <= shift,
        0 <= start <= index <= list.len() - shift,
    ensures
        toolchain::pieces_from(list, shift + start, shift + index) == toolchain::pieces_from(
            list.skip(shift),
            start,
            index,
        ),
    decreases list.len() - shift - index,
{
    let rest = list.skip(shift);
    if index >= rest.len() {
        assert(list.subrange(shift + start, list.len() as int) =~= rest.subrange(
            start,
            rest.len() as int,
        ));
    } else {
        assert(rest[index] == list[shift + index]);
        if list[shift + index] == 58u8 {
            assert(list.subrange(shift + start, shift + index) =~= rest.subrange(start, index));
            lemma_pieces_shift(list, shift, index + 1, index + 1);
        } else {
            lemma_pieces_shift(list, shift, start, index + 1);
        }
    }
}

proof fn lemma_pieces_of_plain(piece: Seq<u8>, index: int)
    requires
        plain(piece),
        0 <= index <= piece.len(),
    ensures
        toolchain::pieces_from(piece, 0, index) == seq![piece],
    decreases piece.len() - index,
{
    if index < piece.len() {
        lemma_pieces_of_plain(piece, index + 1);
    } else {
        assert(piece.subrange(0, piece.len() as int) =~= piece);
    }
}

proof fn lemma_pieces_of_joined(list: Seq<Seq<u8>>)
    requires
        list.len() > 0,
        forall|i: int| 0 <= i < list.len() ==> plain(#[trigger] list[i]),
    ensures
        toolchain::pieces(toolchain::joined(list, list.len() as int)) == list,
    decreases list.len(),
{
    if list.len() == 1 {
        lemma_pieces_of_plain(list[0], 0);
        assert(seq![list[0]] =~= list);
    } else {
        let head = list[0];
        let rest = list.skip(1);
        assert(list =~= seq![head] + rest);
        lemma_joined_front(head, rest, rest.len() as int);
        let tail = toolchain::joined(rest, rest.len() as int);
        let whole = head.push(58u8) + tail;
        lemma_pieces_start(head, tail, 0);
        lemma_pieces_shift(whole, head.len() as int + 1, 0, 0);
        assert(whole.skip(head.len() as int + 1) =~= tail);
        assert forall|i: int| 0 <= i < rest.len() implies plain(#[trigger] rest[i]) by {
            assert(rest[i] == list[i + 1]);
        }
        lemma_pieces_of_joined(rest);
    }
}

/// A search list falls apart at its colons: its pieces hold none and join to the
/// list again, and directories that hold none come out of the list that they
/// were joined to.
pub proof fn search_lists_are_joined_by_colons(text: Seq<u8>, list: Seq<Seq<u8>>)
    ensures
        toolchain::joined(toolchain::pieces(text), toolchain::pieces(text).len() as int) == text,
        forall|k: int|
            0 <= k < toolchain::pieces(text).len() ==> plain(#[trigger] toolchain::pieces(text)[k]),
        list.len() > 0 && (forall|i: int| 0 <= i < list.len() ==> plain(#[trigger] list[i]))
            ==> toolchain::pieces(toolchain::joined(list, list.len() as int)) == list,
        toolchain::joinable(list) <==> forall|i: int|
            0 <= i < list.len() ==> plain(#[trigger] list[i]),
{
    lemma_pieces(text, 0, 0);
    assert(text.subrange(0, text.len() as int) =~= text);
    if list.len() > 0 && (forall|i: int| 0 <= i < list.len() ==> plain(#[trigger] list[i])) {
        lemma_pieces_of_joined(list);
    }
    if toolchain::joinable(list) {
        assert forall|i: int| 0 <= i < list.len() implies plain(#[trigger] list[i]) by {
            assert(!list[i].contains(58u8));
            assert forall|k: int| 0 <= k < list[i].len() implies #[trigger] list[i][k] != 58u8 by {
                if list[i][k] == 58u8 {
                    assert(list[i].contains(58u8));
                }
            }
        }
    }
}

// ---------------------------------------------------------------------------
// Known places
// ---------------------------------------------------------------------------

/// The directories of the runtime are the six well-known ones, and the private
/// places of the host are the home directory and the three for passing files.
pub proof fn known_places_are_the_usual_ones(place: Seq<u8>, home: Seq<u8>, tools: Seq<u8>)
    ensures
        toolchain::standard_runtime(place) <==> path::within(place, os::lit("/usr/bin"))
            || path::within(place, os::lit("/usr/local/bin")) || path::within(
            place,
            os::lit("/usr/sbin"),
        ) || path::within(place, os::lit("/usr/local/sbin")) || path::within(place, os::lit("/bin"))
            || path::within(place, os::lit("/sbin")),
        toolchain::private_host(place, home) <==> path::within(place, home) || path::within(
            place,
            os::lit("/tmp"),
        ) || path::within(place, os::lit("/var/tmp")) || path::within(place, os::lit("/run")),
        toolchain::trusted_compiler(place, tools) <==> toolchain::standard_runtime(place)
            || path::within(place, tools),
{
    let runtime = toolchain::runtime_directories();
    assert(runtime[0] == os::lit("/usr/bin"));
    assert(runtime[1] == os::lit("/usr/local/bin"));
    assert(runtime[2] == os::lit("/usr/sbin"));
    assert(runtime[3] == os::lit("/usr/local/sbin"));
    assert(runtime[4] == os::lit("/bin"));
    assert(runtime[5] == os::lit("/sbin"));
    let private = seq![os::lit("/tmp"), os::lit("/var/tmp"), os::lit("/run")];
    assert(private[0] == os::lit("/tmp"));
    assert(private[1] == os::lit("/var/tmp"));
    assert(private[2] == os::lit("/run"));
}

// ---------------------------------------------------------------------------
// Programs
// ---------------------------------------------------------------------------

/// A program is resolved and must be a regular file. It is known by its
/// canonical path, but a proxy of Rustup by the name that it was called by.
pub proof fn programs_are_regular_files(
    file: Seq<u8>,
    log: Seq<Answer>,
    at: int,
    canonical: Seq<u8>,
)
    requires
        0 <= at,
    ensures
        ({
            let course = toolchain::executable(file, log, at);
            &&& talk::silent(log, at) ==> talk::asks(course, Query::Resolve(file))
            &&& talk::nowhere(log, at) ==> talk::breaks(course)
            &&& talk::leads(log, at, canonical) ==> {
                &&& talk::silent(log, at + 1) ==> talk::asks(course, Query::Follow(canonical))
                &&& talk::missing(log, at + 1) || talk::unreadable(log, at + 1) || (talk::shown(
                    log,
                    at + 1,
                ) && !talk::shows(log, at + 1, FileKind::File)) ==> talk::unavailable(course)
                &&& talk::shows(log, at + 1, FileKind::File) ==> {
                    &&& path::file_name(canonical) == Some(os::lit("rustup")) ==> talk::gives(
                        course,
                        file,
                        at + 2,
                    )
                    &&& path::file_name(canonical) != Some(os::lit("rustup")) ==> talk::gives(
                        course,
                        canonical,
                        at + 2,
                    )
                }
            }
        }),
{
}

/// Whether the first `count` candidates of a search are no programs.
pub open spec fn none_so_far(count: int, log: Seq<Answer>, at: int) -> bool {
    forall|i: int|
        0 <= i < count ==> !talk::silent(log, #[trigger] (at + i)) && !talk::shows(
            log,
            at + i,
            FileKind::File,
        ) && (talk::shown(log, at + i) || talk::missing(log, at + i) || talk::unreadable(
            log,
            at + i,
        ))
}

proof fn lemma_searched(
    directories: Seq<Seq<u8>>,
    name: Seq<u8>,
    current_dir: Seq<u8>,
    otherwise: Seq<char>,
    log: Seq<Answer>,
    at: int,
    count: int,
)
    requires
        0 <= at,
        0 <= count <= directories.len(),
        none_so_far(count, log, at),
    ensures
        toolchain::searched_from(directories, 0, name, current_dir, otherwise, log, at)
            == toolchain::searched_from(
            directories,
            count,
            name,
            current_dir,
            otherwise,
            log,
            at + count,
        ),
    decreases count,
{
    if count > 0 {
        lemma_searched(directories, name, current_dir, otherwise, log, at, count - 1);
        assert(!talk::silent(log, at + (count - 1)));
    }
}

/// A program is searched for in the directories of a list, in order: the first
/// candidate that is a file is taken, and it is an error if there is none.
pub proof fn programs_are_searched_for_in_order(
    directories: Seq<Seq<u8>>,
    name: Seq<u8>,
    current_dir: Seq<u8>,
    otherwise: Seq<char>,
    log: Seq<Answer>,
    at: int,
    count: int,
)
    requires
        0 <= at,
        0 <= count <= directories.len(),
        none_so_far(count, log, at),
    ensures
        ({
            let course = toolchain::searched_from(
                directories,
                0,
                name,
                current_dir,
                otherwise,
                log,
                at,
            );
            &&& count == directories.len() ==> talk::unavailable(course)
            &&& count < directories.len() ==> {
                let candidate = path::join(path::join(current_dir, directories[count]), name);
                &&& talk::silent(log, at + count) ==> talk::asks(course, Query::Follow(candidate))
                &&& talk::shows(log, at + count, FileKind::File) ==> course
                    == toolchain::executable(candidate, log, at + count + 1)
            }
        }),
{
    lemma_searched(directories, name, current_dir, otherwise, log, at, count);
}

/// A program is what its variable names. A bare name is searched for on the
/// PATH, and anything else is taken from the current directory.
pub proof fn programs_are_named_by_their_variables(
    name: &str,
    variable: &str,
    current_dir: Seq<u8>,
    log: Seq<Answer>,
    at: int,
    said: Seq<u8>,
    list: Seq<u8>,
)
    requires
        0 <= at,
    ensures
        ({
            let course = toolchain::program(name, variable, current_dir, log, at);
            let bare = !path::absolute(said) && path::parts(said).len() <= 1;
            let named = talk::says(log, at, said) || (talk::unset(log, at) && said == os::lit(name));
            &&& talk::silent(log, at) ==> talk::asks(course, Query::Variable(os::lit(variable)))
            &&& named && !bare ==> course == toolchain::executable(
                path::join(current_dir, said),
                log,
                at + 1,
            )
            &&& named && bare ==> {
                &&& talk::silent(log, at + 1) ==> talk::asks(
                    course,
                    Query::Variable(os::lit("PATH")),
                )
                &&& talk::unset(log, at + 1) ==> talk::unavailable(course)
                &&& talk::says(log, at + 1, list) ==> exists|otherwise: Seq<char>|
                    course == #[trigger] toolchain::searched_from(
                        toolchain::pieces(list),
                        0,
                        said,
                        current_dir,
                        otherwise,
                        log,
                        at + 2,
                    )
            }
        }),
{
    reveal(toolchain::program);
    let otherwise = "could not find "@ + name@ + " executable `"@ + os::lossy_text(said)
        + "`; install "@ + name@ + " or set "@ + variable@ + " to a trusted executable"@;
    let named = talk::says(log, at, said) || (talk::unset(log, at) && said == os::lit(name));
    if named && !path::absolute(said) && path::parts(said).len() <= 1 && talk::says(
        log,
        at + 1,
        list,
    ) {
        assert(toolchain::program(name, variable, current_dir, log, at)
            == toolchain::searched_from(
            toolchain::pieces(list),
            0,
            said,
            current_dir,
            otherwise,
            log,
            at + 2,
        ));
    }
}

/// A proxy of Rustup is what resolves to a file of that name.
pub proof fn proxies_resolve_to_rustup(file: Seq<u8>, log: Seq<Answer>, at: int, place: Seq<u8>)
    ensures
        talk::silent(log, at) ==> talk::asks(
            toolchain::rustup_proxy(file, log, at),
            Query::Resolve(file),
        ),
        talk::leads(log, at, place) ==> talk::gives(
            toolchain::rustup_proxy(file, log, at),
            path::file_name(place) == Some(os::lit("rustup")),
            at + 1,
        ),
        talk::nowhere(log, at) ==> talk::gives(
            toolchain::rustup_proxy(file, log, at),
            false,
            at + 1,
        ),
{
}

/// A program of the sysroot comes before any other. Without it a program that
/// need not be there is the given one, and one that must be there may not be a
/// proxy of Rustup.
pub proof fn programs_of_the_sysroot_come_first(
    name: &str,
    fallback: Seq<u8>,
    sysroot_bin: Seq<u8>,
    required: bool,
    log: Seq<Answer>,
    at: int,
)
    requires
        0 <= at,
    ensures
        ({
            let course = toolchain::selected_program(
                name,
                fallback,
                sysroot_bin,
                required,
                log,
                at,
            );
            let own = path::join(sysroot_bin, os::lit(name));
            let absent = talk::missing(log, at) || talk::unreadable(log, at) || (talk::shown(
                log,
                at,
            ) && !talk::shows(log, at, FileKind::File));
            &&& talk::silent(log, at) ==> talk::asks(course, Query::Follow(own))
            &&& talk::shows(log, at, FileKind::File) ==> course == toolchain::executable(
                own,
                log,
                at + 1,
            )
            &&& absent && !required ==> talk::gives(course, fallback, at + 1)
            &&& absent && required ==> {
                &&& toolchain::rustup_proxy(fallback, log, at + 1) matches Err(pause)
                    ==> talk::pauses(course, pause)
                &&& toolchain::rustup_proxy(fallback, log, at + 1) matches Ok((proxy, next))
                    ==> if proxy {
                    talk::unavailable(course)
                } else {
                    course == toolchain::executable(fallback, log, next)
                }
            }
        }),
{
    reveal(toolchain::selected_program);
}

/// Cargo is replaced by that of the sysroot where it is a proxy of Rustup, and
/// stays as it is otherwise.
pub proof fn proxies_of_cargo_are_replaced(
    cargo: Seq<u8>,
    sysroot_bin: Seq<u8>,
    log: Seq<Answer>,
    at: int,
)
    ensures
        ({
            let course = toolchain::cargo_of(cargo, sysroot_bin, log, at);
            &&& toolchain::rustup_proxy(cargo, log, at) matches Err(pause) ==> talk::pauses(
                course,
                pause,
            )
            &&& toolchain::rustup_proxy(cargo, log, at) matches Ok((proxy, next)) ==> if proxy {
                course == toolchain::selected_program(
                    "cargo",
                    cargo,
                    sysroot_bin,
                    true,
                    log,
                    next,
                )
            } else {
                talk::gives(course, cargo, next)
            }
        }),
{
    reveal(toolchain::cargo_of);
}

/// The documentation tool is that of the sysroot. Without one it is looked for
/// only where it is needed.
pub proof fn rustdoc_is_looked_for_where_it_is_needed(
    sysroot_bin: Seq<u8>,
    current_dir: Seq<u8>,
    needed: bool,
    log: Seq<Answer>,
    at: int,
)
    requires
        0 <= at,
    ensures
        ({
            let course = toolchain::rustdoc_of(sysroot_bin, current_dir, needed, log, at);
            let own = path::join(sysroot_bin, os::lit("rustdoc"));
            let absent = talk::missing(log, at) || talk::unreadable(log, at) || (talk::shown(
                log,
                at,
            ) && !talk::shows(log, at, FileKind::File));
            let host = toolchain::program("rustdoc", "RUSTDOC", current_dir, log, at + 1);
            &&& talk::silent(log, at) ==> talk::asks(course, Query::Follow(own))
            &&& talk::shows(log, at, FileKind::File) ==> match toolchain::selected_program(
                "rustdoc",
                own,
                sysroot_bin,
                true,
                log,
                at + 1,
            ) {
                Err(pause) => talk::pauses(course, pause),
                Ok((rustdoc, next)) => talk::gives(course, Some(rustdoc), next),
            }
            &&& absent && !needed ==> talk::gives(course, None::<Seq<u8>>, at + 1)
            &&& absent && needed ==> match host {
                Err(pause) => talk::pauses(course, pause),
                Ok((found, next)) => match toolchain::selected_program(
                    "rustdoc",
                    found,
                    sysroot_bin,
                    true,
                    log,
                    next,
                ) {
                    Err(pause) => talk::pauses(course, pause),
                    Ok((rustdoc, then)) => talk::gives(course, Some(rustdoc), then),
                },
            }
        }),
{
    reveal(toolchain::rustdoc_of);
}

// ---------------------------------------------------------------------------
// Homes
// ---------------------------------------------------------------------------

/// What becomes of a home directory that was named.
pub open spec fn home_accepted(
    course: Course<Seq<u8>>,
    home: Seq<u8>,
    label: Seq<char>,
    log: Seq<Answer>,
    at: int,
) -> bool {
    &&& !path::absolute(home) || path::same_path(home, os::lit("/")) ==> talk::refuses(course)
    &&& path::absolute(home) && !path::same_path(home, os::lit("/")) ==> {
        &&& talk::silent(log, at) ==> talk::asks(course, Query::Inspect(home))
        &&& talk::missing(log, at) || talk::unreadable(log, at) ==> talk::breaks(course)
        &&& talk::shown(log, at) && !talk::shows(log, at, FileKind::Directory) ==> talk::refuses(
            course,
        )
        &&& talk::shows(log, at, FileKind::Directory) ==> course == walk::existing(
            home,
            label,
            log,
            at + 1,
        )
    }
}

/// The home directory is what HOME names and must be named. That of Rustup is
/// what RUSTUP_HOME names, or lies in the home directory. Each must be absolute,
/// not the root, and a real directory.
pub proof fn homes_are_real_directories(
    home: Seq<u8>,
    log: Seq<Answer>,
    at: int,
    said: Seq<u8>,
)
    requires
        0 <= at,
    ensures
        talk::silent(log, at) ==> talk::asks(
            toolchain::user_home(log, at),
            Query::Variable(os::lit("HOME")),
        ),
        talk::unset(log, at) ==> talk::refuses(toolchain::user_home(log, at)),
        talk::says(log, at, said) ==> home_accepted(
            toolchain::user_home(log, at),
            said,
            "home directory"@,
            log,
            at + 1,
        ),
        talk::silent(log, at) ==> talk::asks(
            toolchain::rustup_home(home, log, at),
            Query::Variable(os::lit("RUSTUP_HOME")),
        ),
        talk::says(log, at, said) ==> home_accepted(
            toolchain::rustup_home(home, log, at),
            said,
            "Rustup home"@,
            log,
            at + 1,
        ),
        talk::unset(log, at) ==> home_accepted(
            toolchain::rustup_home(home, log, at),
            path::join(home, os::lit(".rustup")),
            "Rustup home"@,
            log,
            at + 1,
        ),
{
    reveal(toolchain::user_home);
    reveal(toolchain::rustup_home);
}

// ---------------------------------------------------------------------------
// Compilers
// ---------------------------------------------------------------------------

/// Whether a tool was run, and what it said.
pub open spec fn answered(log: Seq<Answer>, at: int, said: Said) -> bool {
    flow::given(log, at) matches Some(Answer::Output(Ok(output))) && output.model() == said
}

/// Rustup is asked for its compiler in a clean environment that names the home
/// directories, forbids it to install anything and passes on the chosen
/// toolchain.
pub proof fn rustup_is_asked_without_installing(
    rustup: Seq<u8>,
    home: Seq<u8>,
    directory: Seq<u8>,
    chosen: Option<Seq<u8>>,
    current_dir: Seq<u8>,
)
    ensures
        ({
            let tool = toolchain::which_rustc(rustup, home, directory, chosen, current_dir);
            let set = tool.environment;
            &&& tool.program == rustup
            &&& tool.args == seq![os::lit("which"), os::lit("rustc")]
            &&& !tool.inherit
            &&& tool.current_dir == Some(current_dir)
            &&& set[0] == (os::lit("HOME"), home)
            &&& set[1] == (os::lit("RUSTUP_HOME"), directory)
            &&& set[2] == (os::lit("RUSTUP_AUTO_INSTALL"), os::lit("0"))
            &&& chosen is None ==> set.len() == 3
            &&& chosen matches Some(name) ==> set.len() == 4 && set[3] == (
                os::lit("RUSTUP_TOOLCHAIN"),
                name,
            )
        }),
{
}

/// A compiler is asked for its sysroot in a clean environment that names the
/// home directory, forbids Rustup to install anything and passes on what was
/// chosen.
pub proof fn compilers_are_asked_for_their_sysroot(
    rustc: Seq<u8>,
    home: Seq<u8>,
    directory: Option<Seq<u8>>,
    chosen: Option<Seq<u8>>,
    current_dir: Seq<u8>,
)
    ensures
        ({
            let tool = toolchain::print_sysroot(rustc, home, directory, chosen, current_dir);
            let set = tool.environment;
            &&& tool.program == rustc
            &&& tool.args == seq![os::lit("--print"), os::lit("sysroot")]
            &&& !tool.inherit
            &&& tool.current_dir == Some(current_dir)
            &&& set[0] == (os::lit("HOME"), home)
            &&& set[1] == (os::lit("RUSTUP_AUTO_INSTALL"), os::lit("0"))
            &&& set.len() == 2 + (if directory is Some {
                1int
            } else {
                0int
            }) + (if chosen is Some {
                1int
            } else {
                0int
            })
            &&& directory matches Some(place) ==> set[2] == (os::lit("RUSTUP_HOME"), place)
            &&& chosen matches Some(name) ==> set[set.len() - 1] == (
                os::lit("RUSTUP_TOOLCHAIN"),
                name,
            )
        }),
{
}

/// The compiler of a proxy is what Rustup answers: the proxy is resolved, the
/// home of Rustup found, the chosen toolchain read, and Rustup asked. Another
/// compiler is taken as it is.
pub proof fn proxies_of_rustc_are_replaced(
    host_rustc: Seq<u8>,
    home: Seq<u8>,
    current_dir: Seq<u8>,
    log: Seq<Answer>,
    at: int,
    rustup: Seq<u8>,
    said: Said,
)
    ensures
        ({
            let course = toolchain::real_rustc(host_rustc, home, current_dir, log, at);
            &&& toolchain::rustup_proxy(host_rustc, log, at) matches Err(pause) ==> talk::pauses(
                course,
                pause,
            )
            &&& toolchain::rustup_proxy(host_rustc, log, at) matches Ok((proxy, next)) ==> {
                let directory = toolchain::rustup_home(home, log, next + 1);
                &&& !proxy ==> talk::gives(course, host_rustc, next)
                &&& proxy && talk::silent(log, next) ==> talk::asks(
                    course,
                    Query::Resolve(host_rustc),
                )
                &&& proxy && talk::leads(log, next, rustup) ==> match directory {
                    Err(pause) => talk::pauses(course, pause),
                    Ok((place, then)) => chooses(
                        course,
                        rustup,
                        home,
                        place,
                        current_dir,
                        log,
                        then,
                        said,
                    ),
                }
            }
        }),
{
    reveal(toolchain::real_rustc);
}

/// How Rustup is asked for the compiler of the toolchain that was chosen.
pub open spec fn chooses(
    course: Course<Seq<u8>>,
    rustup: Seq<u8>,
    home: Seq<u8>,
    directory: Seq<u8>,
    current_dir: Seq<u8>,
    log: Seq<Answer>,
    at: int,
    said: Said,
) -> bool {
    &&& talk::silent(log, at) ==> talk::asks(course, Query::Variable(os::lit("RUSTUP_TOOLCHAIN")))
    &&& flow::given(log, at) matches Some(Answer::Value(chosen)) ==> {
        &&& talk::silent(log, at + 1) ==> talk::asks(
            course,
            Query::RunTool(
                toolchain::which_rustc(rustup, home, directory, chosen.model(), current_dir),
            ),
        )
        &&& answered(log, at + 1, said) ==> course == toolchain::rustup_compiler(
            said,
            directory,
            log,
            at + 2,
        )
    }
}

/// What Rustup answered is a compiler only if it succeeded with one line that
/// names an existing regular file of the runtime or of its own toolchains.
pub proof fn compilers_of_rustup_are_checked(
    said: Said,
    directory: Seq<u8>,
    log: Seq<Answer>,
    at: int,
)
    ensures
        ({
            let course = toolchain::rustup_compiler(said, directory, log, at);
            let tools = path::join(directory, os::lit("toolchains"));
            &&& said.status.code != Some(0i32) ==> talk::unavailable(course)
            &&& toolchain::single_line(said.stdout) is None ==> talk::unavailable(course)
            &&& said.status.code == Some(0i32) ==> (toolchain::single_line(said.stdout) matches Some(
                line,
            ) ==> match walk::existing(encode_utf8(line), "Rustup-selected rustc"@, log, at) {
                Err(pause) => talk::pauses(course, pause),
                Ok((compiler, next)) => {
                    &&& talk::silent(log, next) ==> talk::asks(course, Query::Follow(compiler))
                    &&& talk::missing(log, next) || talk::unreadable(log, next) || (talk::shown(
                        log,
                        next,
                    ) && !talk::shows(log, next, FileKind::File)) ==> talk::refuses(course)
                    &&& talk::shows(log, next, FileKind::File) && (toolchain::standard_runtime(
                        compiler,
                    ) || path::within(compiler, tools)) ==> talk::gives(course, compiler, next + 1)
                    &&& talk::shows(log, next, FileKind::File) && !toolchain::standard_runtime(
                        compiler,
                    ) && !path::within(compiler, tools) ==> talk::refuses(course)
                },
            })
        }),
{
}

/// The sysroot is what the compiler answers to the question for it.
pub proof fn sysroots_are_what_compilers_say(
    rustc: Seq<u8>,
    home: Seq<u8>,
    current_dir: Seq<u8>,
    log: Seq<Answer>,
    at: int,
    said: Said,
)
    ensures
        ({
            let course = toolchain::sysroot_of(rustc, home, current_dir, log, at);
            &&& talk::silent(log, at) ==> talk::asks(course, Query::Variable(os::lit("RUSTUP_HOME")))
            &&& flow::given(log, at) matches Some(Answer::Value(directory)) ==> {
                &&& talk::silent(log, at + 1) ==> talk::asks(
                    course,
                    Query::Variable(os::lit("RUSTUP_TOOLCHAIN")),
                )
                &&& flow::given(log, at + 1) matches Some(Answer::Value(chosen)) ==> {
                    &&& talk::silent(log, at + 2) ==> talk::asks(
                        course,
                        Query::RunTool(
                            toolchain::print_sysroot(
                                rustc,
                                home,
                                directory.model(),
                                chosen.model(),
                                current_dir,
                            ),
                        ),
                    )
                    &&& answered(log, at + 2, said) ==> course == toolchain::named_sysroot(
                        said,
                        rustc,
                        log,
                        at + 3,
                    )
                }
            }
        }),
{
    reveal(toolchain::sysroot_of);
}

/// A sysroot is accepted only if the compiler succeeded with one line that names
/// an existing directory absolutely.
pub proof fn sysroots_are_existing_directories(
    said: Said,
    rustc: Seq<u8>,
    log: Seq<Answer>,
    at: int,
)
    ensures
        ({
            let course = toolchain::named_sysroot(said, rustc, log, at);
            &&& said.status.code != Some(0i32) ==> talk::unavailable(course)
            &&& toolchain::single_line(said.stdout) is None ==> talk::unavailable(course)
            &&& said.status.code == Some(0i32) ==> (toolchain::single_line(said.stdout) matches Some(
                line,
            ) ==> {
                &&& !path::absolute(encode_utf8(line)) ==> talk::unavailable(course)
                &&& path::absolute(encode_utf8(line)) ==> match walk::existing(
                    encode_utf8(line),
                    "Rust sysroot"@,
                    log,
                    at,
                ) {
                    Err(pause) => talk::pauses(course, pause),
                    Ok((sysroot, next)) => {
                        &&& talk::silent(log, next) ==> talk::asks(course, Query::Follow(sysroot))
                        &&& talk::shows(log, next, FileKind::Directory) ==> talk::gives(
                            course,
                            sysroot,
                            next + 1,
                        )
                        &&& talk::missing(log, next) || talk::unreadable(log, next) || (talk::shown(
                            log,
                            next,
                        ) && !talk::shows(log, next, FileKind::Directory)) ==> talk::unavailable(
                            course,
                        )
                    },
                }
            })
        }),
{
}

// ---------------------------------------------------------------------------
// What a toolchain needs to be seen
// ---------------------------------------------------------------------------

/// Whether a directory has to be shown because the runtime does not show it.
pub open spec fn to_be_shown(directory: Seq<u8>) -> bool {
    !path::same_path(directory, os::lit("/")) && !toolchain::standard_runtime(directory)
}

/// Whether the directory of a program was resolved and is, if it has to be
/// shown, among some directories.
pub open spec fn home_is_shown(
    program: Seq<u8>,
    mounts: Seq<Seq<u8>>,
    log: Seq<Answer>,
) -> bool {
    path::parent(program) is Some && exists|at: int, place: Seq<u8>| #[trigger]
        talk::leads(log, at, place) && talk::shows(log, at + 1, FileKind::Directory) && (
        to_be_shown(place) ==> toolchain::holds_path(mounts, place))
}

proof fn lemma_still_held(mounts: Seq<Seq<u8>>, more: Seq<u8>, place: Seq<u8>)
    requires
        toolchain::holds_path(mounts, place),
    ensures
        toolchain::holds_path(mounts.push(more), place),
{
    let i = choose|i: int| 0 <= i < mounts.len() && path::same_path(#[trigger] mounts[i], place);
    assert(mounts.push(more)[i] == mounts[i]);
}

proof fn lemma_mounts(
    executables: Seq<Seq<u8>>,
    index: int,
    mounts: Seq<Seq<u8>>,
    log: Seq<Answer>,
    at: int,
)
    requires
        0 <= at,
        0 <= index <= executables.len(),
        forall|i: int| 0 <= i < index ==> home_is_shown(#[trigger] executables[i], mounts, log),
    ensures
        toolchain::mounts_from(executables, index, mounts, log, at) matches Ok((made, _)) ==> {
            &&& made.len() >= mounts.len()
            &&& made.take(mounts.len() as int) == mounts
            &&& forall|i: int|
                0 <= i < executables.len() ==> home_is_shown(#[trigger] executables[i], made, log)
            &&& forall|k: int| mounts.len() <= k < made.len() ==> to_be_shown(#[trigger] made[k])
        },
    decreases executables.len() - index,
{
    if index < executables.len() {
        if let Some(directory) = path::parent(executables[index]) {
            if let Ok((Ok(place), next)) = flow::place(Query::Resolve(directory), log, at) {
                if let Ok((Ok(stat), last)) = flow::entry(Query::Follow(place), log, next) {
                    if stat.kind == FileKind::Directory {
                        let wanted = to_be_shown(place) && !toolchain::holds_path(mounts, place);
                        let more = if wanted {
                            mounts.push(place)
                        } else {
                            mounts
                        };
                        if wanted {
                            assert(path::same_path(more[mounts.len() as int], place));
                        }
                        assert(talk::leads(log, at, place));
                        assert(home_is_shown(executables[index], more, log));
                        assert forall|i: int| 0 <= i < index implies home_is_shown(
                            #[trigger] executables[i],
                            more,
                            log,
                        ) by {
                            assert(home_is_shown(executables[i], mounts, log));
                            let (here, there) = choose|here: int, there: Seq<u8>| #[trigger]
                                talk::leads(log, here, there) && talk::shows(
                                    log,
                                    here + 1,
                                    FileKind::Directory,
                                ) && (to_be_shown(there) ==> toolchain::holds_path(mounts, there));
                            if toolchain::holds_path(mounts, there) {
                                lemma_still_held(mounts, place, there);
                            }
                            assert(talk::leads(log, here, there));
                        }
                        lemma_mounts(executables, index + 1, more, log, last);
                        if let Ok((made, _)) = toolchain::mounts_from(
                            executables,
                            index + 1,
                            more,
                            log,
                            last,
                        ) {
                            assert(made.take(mounts.len() as int) =~= made.take(
                                more.len() as int,
                            ).take(mounts.len() as int));
                            assert(more.take(mounts.len() as int) =~= mounts);
                            assert forall|k: int| mounts.len() <= k < made.len() implies to_be_shown(
                                #[trigger] made[k],
                            ) by {
                                if k < more.len() {
                                    assert(made[k] == made.take(more.len() as int)[k]);
                                }
                            }
                        }
                    }
                }
            }
        }
    } else {
        assert(mounts.take(mounts.len() as int) =~= mounts);
    }
}

/// A sandbox shows the sysroot, unless that is the root, and the directory of
/// each program that the runtime does not show; and nothing else.
pub proof fn toolchains_are_shown_where_they_lie(
    sysroot: Seq<u8>,
    executables: Seq<Seq<u8>>,
    log: Seq<Answer>,
    at: int,
)
    requires
        0 <= at,
    ensures
        toolchain::mount_paths(sysroot, executables, log, at) matches Ok((made, _)) ==> {
            &&& !path::same_path(sysroot, os::lit("/")) ==> made.len() > 0 && made[0] == sysroot
            &&& forall|i: int|
                0 <= i < executables.len() ==> home_is_shown(#[trigger] executables[i], made, log)
            &&& forall|k: int|
                0 <= k < made.len() ==> k == 0 && made[0] == sysroot || to_be_shown(
                    #[trigger] made[k],
                )
        },
{
    reveal(toolchain::mount_paths);
    let start = if path::same_path(sysroot, os::lit("/")) {
        Seq::empty()
    } else {
        seq![sysroot]
    };
    lemma_mounts(executables, 0, start, log, at);
    if let Ok((made, _)) = toolchain::mount_paths(sysroot, executables, log, at) {
        if start.len() > 0 {
            assert(made[0] == made.take(1)[0]);
        }
    }
}

/// The directory of each program is resolved and must be one. It is shown if
/// it has to be and is not shown yet.
pub proof fn directories_of_programs_are_resolved(
    executables: Seq<Seq<u8>>,
    index: int,
    mounts: Seq<Seq<u8>>,
    log: Seq<Answer>,
    at: int,
    place: Seq<u8>,
)
    requires
        0 <= at,
        0 <= index < executables.len(),
    ensures
        ({
            let course = toolchain::mounts_from(executables, index, mounts, log, at);
            &&& path::parent(executables[index]) is None ==> talk::unavailable(course)
            &&& path::parent(executables[index]) matches Some(directory) ==> {
                &&& talk::silent(log, at) ==> talk::asks(course, Query::Resolve(directory))
                &&& talk::nowhere(log, at) ==> talk::breaks(course)
                &&& talk::leads(log, at, place) ==> {
                    &&& talk::silent(log, at + 1) ==> talk::asks(course, Query::Follow(place))
                    &&& talk::missing(log, at + 1) || talk::unreadable(log, at + 1) || (
                    talk::shown(log, at + 1) && !talk::shows(log, at + 1, FileKind::Directory))
                        ==> talk::unavailable(course)
                    &&& talk::shows(log, at + 1, FileKind::Directory) ==> course
                        == toolchain::mounts_from(
                        executables,
                        index + 1,
                        if to_be_shown(place) && !toolchain::holds_path(mounts, place) {
                            mounts.push(place)
                        } else {
                            mounts
                        },
                        log,
                        at + 2,
                    )
                }
            }
        }),
{
}

/// The directories of a search list are shown too, unless the runtime shows
/// them, and nothing is taken away.
pub proof fn search_directories_are_shown(
    mounts: Seq<Seq<u8>>,
    directories: Seq<Seq<u8>>,
    count: int,
)
    requires
        0 <= count <= directories.len(),
    ensures
        ({
            let made = toolchain::with_directories(mounts, directories, count);
            &&& made.len() >= mounts.len()
            &&& made.take(mounts.len() as int) == mounts
            &&& forall|i: int|
                0 <= i < count && !toolchain::standard_runtime(#[trigger] directories[i])
                    ==> toolchain::holds_path(made, directories[i])
            &&& forall|k: int|
                mounts.len() <= k < made.len() ==> directories.contains(#[trigger] made[k])
                    && !toolchain::standard_runtime(made[k])
        }),
    decreases count,
{
    if count > 0 {
        search_directories_are_shown(mounts, directories, count - 1);
        let before = toolchain::with_directories(mounts, directories, count - 1);
        let made = toolchain::with_directories(mounts, directories, count);
        let directory = directories[count - 1];
        assert(made.take(mounts.len() as int) =~= before.take(mounts.len() as int));
        if made.len() > before.len() {
            assert(path::same_path(made[before.len() as int], directory));
            assert(toolchain::holds_path(made, directory));
        }
        assert forall|i: int|
            0 <= i < count && !toolchain::standard_runtime(
                #[trigger] directories[i],
            ) implies toolchain::holds_path(made, directories[i]) by {
            if i < count - 1 && made.len() > before.len() {
                lemma_still_held(before, directory, directories[i]);
            }
        }
    } else {
        assert(mounts.take(mounts.len() as int) =~= mounts);
    }
}

// ---------------------------------------------------------------------------
// Search paths
// ---------------------------------------------------------------------------

/// Which directories of the host may be searched: those that programs need, and
/// those of the runtime that are not private.
pub proof fn private_directories_are_not_searched(
    home: Seq<u8>,
    required: Seq<Seq<u8>>,
    directory: Seq<u8>,
)
    ensures
        (Admission::Host { home, required }).admits(directory) <==> (exists|i: int|
            0 <= i < required.len() && path::same_path(#[trigger] required[i], directory)) || (
        toolchain::standard_runtime(directory) && !toolchain::private_host(directory, home)),
        Admission::Runtime.admits(directory),
{
}

/// A candidate for the search path is resolved and must be a directory that is
/// admitted and not listed yet; any other is passed over.
pub proof fn search_paths_grow_by_admitted_directories(
    candidates: Seq<Seq<u8>>,
    index: int,
    admission: Admission,
    list: Seq<Seq<u8>>,
    log: Seq<Answer>,
    at: int,
    place: Seq<u8>,
)
    requires
        0 <= at,
        0 <= index < candidates.len(),
    ensures
        ({
            let course = toolchain::admitted_from(candidates, index, admission, list, log, at);
            &&& talk::silent(log, at) ==> talk::asks(course, Query::Resolve(candidates[index]))
            &&& talk::nowhere(log, at) ==> course == toolchain::admitted_from(
                candidates,
                index + 1,
                admission,
                list,
                log,
                at + 1,
            )
            &&& talk::leads(log, at, place) && talk::silent(log, at + 1) ==> talk::asks(
                course,
                Query::Follow(place),
            )
            &&& talk::leads(log, at, place) && talk::shows(log, at + 1, FileKind::Directory)
                && admission.admits(place) && !toolchain::holds_path(list, place) ==> course
                == toolchain::admitted_from(
                candidates,
                index + 1,
                admission,
                list.push(place),
                log,
                at + 2,
            )
            &&& talk::leads(log, at, place) && (talk::missing(log, at + 1) || talk::unreadable(
                log,
                at + 1,
            ) || (talk::shown(log, at + 1) && (!talk::shows(log, at + 1, FileKind::Directory)
                || !admission.admits(place) || toolchain::holds_path(list, place)))) ==> course
                == toolchain::admitted_from(
                candidates,
                index + 1,
                admission,
                list,
                log,
                at + 2,
            )
        }),
{
}

proof fn lemma_admitted(
    candidates: Seq<Seq<u8>>,
    index: int,
    admission: Admission,
    list: Seq<Seq<u8>>,
    log: Seq<Answer>,
    at: int,
)
    requires
        0 <= index <= candidates.len(),
    ensures
        toolchain::admitted_from(candidates, index, admission, list, log, at) matches Ok((made, _))
            ==> {
            &&& made.len() >= list.len()
            &&& made.take(list.len() as int) == list
            &&& forall|k: int|
                list.len() <= k < made.len() ==> admission.admits(#[trigger] made[k])
        },
    decreases candidates.len() - index,
{
    assert(list.take(list.len() as int) =~= list);
    if index < candidates.len() {
        match flow::place(Query::Resolve(candidates[index]), log, at) {
            Err(_) => {},
            Ok((Err(_), next)) => {
                lemma_admitted(candidates, index + 1, admission, list, log, next);
            },
            Ok((Ok(place), next)) => {
                if let Ok((usable, last)) = cargo_args::leads_to(
                    place,
                    FileKind::Directory,
                    log,
                    next,
                ) {
                    let more = if usable && admission.admits(place) && !toolchain::holds_path(
                        list,
                        place,
                    ) {
                        list.push(place)
                    } else {
                        list
                    };
                    lemma_admitted(candidates, index + 1, admission, more, log, last);
                    if let Ok((made, _)) = toolchain::admitted_from(
                        candidates,
                        index + 1,
                        admission,
                        more,
                        log,
                        last,
                    ) {
                        assert(made.take(list.len() as int) =~= made.take(more.len() as int).take(
                            list.len() as int,
                        ));
                        assert(more.take(list.len() as int) =~= list);
                        assert forall|k: int| list.len() <= k < made.len() implies admission.admits(
                            #[trigger] made[k],
                        ) by {
                            if k < more.len() {
                                assert(made[k] == made.take(more.len() as int)[k]);
                            }
                        }
                    }
                }
            },
        }
    }
}

/// The search path of a build lists the directories of its programs first, then
/// those of the runtime and, of the PATH of the host, only what is admitted. It
/// is the list of these directories joined, and there must be one.
pub proof fn search_paths_are_safe(
    home: Seq<u8>,
    current_dir: Seq<u8>,
    executables: Seq<Seq<u8>>,
    log: Seq<Answer>,
    at: int,
)
    ensures
        ({
            let course = toolchain::safe_path(home, current_dir, executables, log, at);
            let needed = toolchain::required_from(
                executables,
                0,
                current_dir,
                Seq::empty(),
                log,
                at,
            );
            &&& needed matches Err(pause) ==> talk::pauses(course, pause)
            &&& course matches Ok(((list, directories), _)) ==> {
                &&& directories.len() > 0
                &&& list == toolchain::joined(directories, directories.len() as int)
                &&& toolchain::joinable(directories)
                &&& needed matches Ok((required, then)) && directories.len() >= required.len()
                    && directories.take(required.len() as int) == required && (
                toolchain::admitted_from(
                    toolchain::runtime_directories(),
                    0,
                    Admission::Runtime,
                    required,
                    log,
                    then,
                ) matches Ok((known, _)) && known.len() <= directories.len() && directories.take(
                    known.len() as int,
                ) == known && forall|k: int|
                    known.len() <= k < directories.len() ==> (Admission::Host {
                        home,
                        required,
                    }).admits(#[trigger] directories[k]))
            }
        }),
{
    reveal(toolchain::safe_path);
    if let Ok((required, then)) = toolchain::required_from(
        executables,
        0,
        current_dir,
        Seq::empty(),
        log,
        at,
    ) {
        let runtime = toolchain::runtime_directories();
        lemma_admitted(runtime, 0, Admission::Runtime, required, log, then);
        if let Ok((known, next)) = toolchain::admitted_from(
            runtime,
            0,
            Admission::Runtime,
            required,
            log,
            then,
        ) {
            assert(known.take(known.len() as int) =~= known);
            if let Ok((Some(text), last)) = flow::value(
                Query::Variable(os::lit("PATH")),
                log,
                next,
            ) {
                let candidates = toolchain::host_candidates(text, current_dir);
                let host = Admission::Host { home, required };
                lemma_admitted(candidates, 0, host, known, log, last);
                if let Ok((made, _)) = toolchain::admitted_from(
                    candidates,
                    0,
                    host,
                    known,
                    log,
                    last,
                ) {
                    assert(made.take(required.len() as int) =~= made.take(known.len() as int).take(
                        required.len() as int,
                    ));
                }
            }
        }
    }
}

/// The directories that programs need are those that hold them, resolved from
/// the current directory; one that cannot be resolved is left out.
pub proof fn programs_need_their_directories(
    executables: Seq<Seq<u8>>,
    index: int,
    current_dir: Seq<u8>,
    found: Seq<Seq<u8>>,
    log: Seq<Answer>,
    at: int,
    place: Seq<u8>,
)
    requires
        0 <= at,
        0 <= index < executables.len(),
    ensures
        ({
            let course = toolchain::required_from(executables, index, current_dir, found, log, at);
            &&& path::parent(executables[index]) is None ==> course == toolchain::required_from(
                executables,
                index + 1,
                current_dir,
                found,
                log,
                at,
            )
            &&& path::parent(executables[index]) matches Some(directory) ==> {
                &&& talk::silent(log, at) ==> talk::asks(
                    course,
                    Query::Resolve(path::join(current_dir, directory)),
                )
                &&& talk::leads(log, at, place) ==> course == toolchain::required_from(
                    executables,
                    index + 1,
                    current_dir,
                    found.push(place),
                    log,
                    at + 1,
                )
                &&& talk::nowhere(log, at) ==> course == toolchain::required_from(
                    executables,
                    index + 1,
                    current_dir,
                    found,
                    log,
                    at + 1,
                )
            }
        }),
{
}

/// What a toolchain consists of: the programs, the sysroot and the home that
/// were found, a search path for them, and what has to be shown of them.
pub proof fn toolchains_hold_what_was_found(
    cargo: Seq<u8>,
    rustc: Seq<u8>,
    rustdoc: Option<Seq<u8>>,
    sysroot: Seq<u8>,
    home: Seq<u8>,
    current_dir: Seq<u8>,
    log: Seq<Answer>,
    at: int,
)
    ensures
        toolchain::assembled(
            cargo,
            rustc,
            rustdoc,
            sysroot,
            home,
            current_dir,
            log,
            at,
        ) matches Ok((kit, _)) ==> {
            let programs = if rustdoc is Some {
                seq![cargo, rustc, rustdoc->Some_0]
            } else {
                seq![cargo, rustc]
            };
            &&& kit.cargo == cargo
            &&& kit.rustc == rustc
            &&& kit.rustdoc == rustdoc
            &&& kit.sysroot == sysroot
            &&& kit.home == home
            &&& toolchain::safe_path(home, current_dir, programs, log, at) matches Ok((
                (list, directories),
                then,
            )) && kit.path == list && (toolchain::mount_paths(
                sysroot,
                programs,
                log,
                then,
            ) matches Ok((mounts, _)) && kit.read_only_paths == toolchain::with_directories(
                mounts,
                directories,
                directories.len() as int,
            ))
        },
{
    reveal(toolchain::assembled);
}

/// How a toolchain is found: first the home directory, then the compiler that
/// RUSTC names and what it stands for, its sysroot, and from the `bin` of that
/// the compiler, the documentation tool and Cargo.
pub proof fn toolchains_are_found_step_by_step(
    cargo: Seq<u8>,
    current_dir: Seq<u8>,
    require_rustdoc: bool,
    log: Seq<Answer>,
    at: int,
)
    ensures
        ({
            let course = toolchain::toolchain_for(cargo, current_dir, require_rustdoc, log, at);
            match toolchain::user_home(log, at) {
                Err(pause) => talk::pauses(course, pause),
                Ok((home, a)) => match toolchain::program("rustc", "RUSTC", current_dir, log, a) {
                    Err(pause) => talk::pauses(course, pause),
                    Ok((host, b)) => match toolchain::real_rustc(host, home, current_dir, log, b) {
                        Err(pause) => talk::pauses(course, pause),
                        Ok((compiler, c)) => match toolchain::sysroot_of(
                            compiler,
                            home,
                            current_dir,
                            log,
                            c,
                        ) {
                            Err(pause) => talk::pauses(course, pause),
                            Ok((sysroot, d)) => course matches Ok((kit, _)) ==> {
                                let bin = path::join(sysroot, os::lit("bin"));
                                &&& kit.home == home
                                &&& kit.sysroot == sysroot
                                &&& toolchain::selected_program(
                                    "rustc",
                                    compiler,
                                    bin,
                                    true,
                                    log,
                                    d,
                                ) matches Ok((rustc, e)) && kit.rustc == rustc && (
                                toolchain::rustdoc_of(
                                    bin,
                                    current_dir,
                                    require_rustdoc,
                                    log,
                                    e,
                                ) matches Ok((rustdoc, f)) && kit.rustdoc == rustdoc && (
                                toolchain::cargo_of(cargo, bin, log, f) matches Ok((own, _))
                                    && kit.cargo == own))
                            },
                        },
                    },
                },
            }
        }),
{
    reveal(toolchain::toolchain_for);
    reveal(toolchain::assembled);
}

} // verus!

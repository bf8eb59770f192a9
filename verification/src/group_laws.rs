//! Where the resource group of a sandbox is made.

use crate::budget;
use crate::cgroup;
use crate::cgroup::{Group, GroupPlace};
use crate::error::IoKind;
use crate::flow;
use crate::flow::{Answer, FileKind, Pause, Query, Timer};
use crate::os;
use crate::path;
use crate::policy::ResourceLimits;
use crate::scan;
use crate::talk;
use crate::walk;
use vstd::prelude::*;
use vstd::string::*;
use vstd::utf8::*;

verus! {

/// The answer after `at` others is the text of a file.
pub open spec fn reads(log: Seq<Answer>, at: int, content: Seq<char>) -> bool {
    flow::given(log, at) matches Some(Answer::Content(Ok(said))) && said@ == content
}

/// The answer after `at` others is that a file cannot be read.
pub open spec fn unread(log: Seq<Answer>, at: int) -> bool {
    flow::given(log, at) matches Some(Answer::Content(Err(_)))
}

/// The answer after `at` others is that something failed in a way.
pub open spec fn denied(log: Seq<Answer>, at: int, kind: IoKind) -> bool {
    flow::given(log, at) matches Some(Answer::Done(Err(failure))) && failure@.kind == kind
}

// ---------------------------------------------------------------------------
// The hierarchy
// ---------------------------------------------------------------------------

/// A unified hierarchy is a directory that lists its controllers.
pub proof fn hierarchies_list_their_controllers(mount: Seq<u8>, log: Seq<Answer>, at: int)
    requires
        0 <= at,
    ensures
        ({
            let course = cgroup::unified_mount(mount, log, at);
            &&& talk::silent(log, at) ==> talk::asks(course, Query::Follow(mount))
            &&& talk::missing(log, at) || talk::unreadable(log, at) || (talk::shown(log, at)
                && !talk::shows(log, at, FileKind::Directory)) ==> talk::gives(
                course,
                false,
                at + 1,
            )
            &&& talk::shows(log, at, FileKind::Directory) ==> {
                &&& talk::silent(log, at + 1) ==> talk::asks(
                    course,
                    Query::Follow(path::join(mount, os::lit("cgroup.controllers"))),
                )
                &&& talk::shown(log, at + 1) ==> talk::gives(course, true, at + 2)
                &&& talk::missing(log, at + 1) || talk::unreadable(log, at + 1) ==> talk::gives(
                    course,
                    false,
                    at + 2,
                )
            }
        }),
{
}

/// The hierarchy is at its usual place or where the mount table says: at the
/// first listed place that is one.
pub proof fn hierarchies_are_at_their_usual_place_or_listed(
    log: Seq<Answer>,
    at: int,
    table: Seq<char>,
)
    ensures
        ({
            let course = cgroup::hierarchy(log, at);
            let usual = os::lit("/sys/fs/cgroup");
            match cgroup::unified_mount(usual, log, at) {
                Err(pause) => talk::pauses(course, pause),
                Ok((true, next)) => talk::gives(course, usual, next),
                Ok((false, next)) => {
                    &&& talk::silent(log, next) ==> talk::asks(
                        course,
                        Query::ReadText(os::lit("/proc/self/mountinfo")),
                    )
                    &&& unread(log, next) ==> talk::cannot_set_up(course)
                    &&& reads(log, next, table) ==> course == cgroup::listed_mount(
                        scan::lines(table),
                        0,
                        log,
                        next + 1,
                    )
                },
            }
        }),
{
    reveal(cgroup::hierarchy);
}

/// A line of the mount table is a place for the hierarchy if it is of the right
/// type; the lines are tried in order, and it is an error if none is left.
pub proof fn listed_hierarchies_are_tried_in_order(
    lines: Seq<Seq<char>>,
    index: int,
    log: Seq<Answer>,
    at: int,
)
    requires
        0 <= index <= lines.len(),
    ensures
        ({
            let course = cgroup::listed_mount(lines, index, log, at);
            &&& index == lines.len() ==> talk::cannot_set_up(course)
            &&& index < lines.len() ==> match budget::cgroup2_point(lines[index]) {
                None => course == cgroup::listed_mount(lines, index + 1, log, at),
                Some(point) => match cgroup::unified_mount(encode_utf8(point), log, at) {
                    Err(pause) => talk::pauses(course, pause),
                    Ok((true, next)) => talk::gives(course, encode_utf8(point), next),
                    Ok((false, next)) => course == cgroup::listed_mount(
                        lines,
                        index + 1,
                        log,
                        next,
                    ),
                },
            }
        }),
{
}

/// The mount point of a line is its fifth word, if the first word behind the
/// dash is the type of a unified hierarchy.
pub proof fn mount_points_are_the_fifth_word(line: Seq<char>, left: Seq<char>, right: Seq<char>)
    ensures
        scan::split_first(line, " - "@) is None ==> budget::cgroup2_point(line) is None,
        scan::split_first(line, " - "@) == Some((left, right)) ==> {
            let fits = scan::words(right).len() > 0 && scan::words(right)[0] == "cgroup2"@
                && scan::words(left).len() >= 5;
            &&& fits ==> budget::cgroup2_point(line) == Some(
                budget::decoded(scan::words(left)[4]),
            )
            &&& !fits ==> budget::cgroup2_point(line) is None
        },
{
}

proof fn lemma_unified(lines: Seq<Seq<char>>, index: int, place: int, group: Seq<char>)
    requires
        0 <= index <= place < lines.len(),
        scan::split_first(lines[place], "::"@) == Some(("0"@, group)),
        forall|i: int|
            index <= i < place ==> !(scan::split_first(#[trigger] lines[i], "::"@) matches Some((
                number,
                _,
            )) && number == "0"@),
    ensures
        budget::unified_entry(lines, index) == Some(group),
    decreases place - index,
{
    if index < place {
        lemma_unified(lines, index + 1, place, group);
    }
}

/// The group of the process is what stands behind `0::` in the first line that
/// begins so.
pub proof fn groups_are_listed_behind_zero(lines: Seq<Seq<char>>, place: int, group: Seq<char>)
    requires
        0 <= place < lines.len(),
        scan::split_first(lines[place], "::"@) == Some(("0"@, group)),
        forall|i: int|
            0 <= i < place ==> !(scan::split_first(#[trigger] lines[i], "::"@) matches Some((
                number,
                _,
            )) && number == "0"@),
    ensures
        budget::unified_entry(lines, 0) == Some(group),
{
    lemma_unified(lines, 0, place, group);
}

/// The group of the process must be absolute and never go up.
pub proof fn own_groups_are_plain_paths(log: Seq<Answer>, at: int, content: Seq<char>)
    requires
        0 <= at,
    ensures
        ({
            let course = cgroup::own_group(log, at);
            let entry = budget::unified_entry(scan::lines(content), 0);
            &&& talk::silent(log, at) ==> talk::asks(
                course,
                Query::ReadText(os::lit("/proc/self/cgroup")),
            )
            &&& unread(log, at) ==> talk::cannot_set_up(course)
            &&& reads(log, at, content) && entry is None ==> talk::cannot_set_up(course)
            &&& reads(log, at, content) ==> (entry matches Some(group) ==> {
                let plain = path::absolute(encode_utf8(group)) && !path::parts(
                    encode_utf8(group),
                ).contains(path::Part::Parent);
                &&& plain ==> talk::gives(course, encode_utf8(group), at + 1)
                &&& !plain ==> talk::cannot_set_up(course)
            })
        }),
{
    reveal(cgroup::own_group);
}

// ---------------------------------------------------------------------------
// The place of a group
// ---------------------------------------------------------------------------

/// A group can hold that of a sandbox if it passes on the controllers and its
/// processes can be moved; that this is forbidden only means that another group
/// is needed.
pub proof fn usable_groups_pass_on_their_controllers(
    group: Seq<u8>,
    log: Seq<Answer>,
    at: int,
    available: Seq<char>,
    enabled: Seq<char>,
)
    requires
        0 <= at,
    ensures
        ({
            let course = cgroup::usable(group, log, at);
            &&& talk::silent(log, at) ==> talk::asks(
                course,
                Query::ReadText(path::join(group, os::lit("cgroup.controllers"))),
            )
            &&& unread(log, at) ==> talk::cannot_set_up(course)
            &&& reads(log, at, available) && talk::silent(log, at + 1) ==> talk::asks(
                course,
                Query::ReadText(path::join(group, os::lit("cgroup.subtree_control"))),
            )
            &&& reads(log, at, available) && unread(log, at + 1) ==> talk::cannot_set_up(course)
            &&& reads(log, at, available) && reads(log, at + 1, enabled) ==> {
                let listed = cgroup::controllers_listed(available, enabled);
                &&& !listed ==> talk::gives(course, false, at + 2)
                &&& listed && talk::silent(log, at + 2) ==> talk::asks(
                    course,
                    Query::OpenForWriting(path::join(group, os::lit("cgroup.procs"))),
                )
                &&& listed && talk::done(log, at + 2) ==> talk::gives(course, true, at + 3)
                &&& listed && denied(log, at + 2, IoKind::PermissionDenied) ==> talk::gives(
                    course,
                    false,
                    at + 3,
                )
                &&& listed && talk::undone(log, at + 2) && !denied(
                    log,
                    at + 2,
                    IoKind::PermissionDenied,
                ) ==> talk::cannot_set_up(course)
            }
        }),
{
    reveal(cgroup::usable);
}

/// A group of the hierarchy is found below its mount, and the root of the
/// hierarchy is the mount.
pub proof fn groups_are_found_below_the_mount(mount: Seq<u8>, group: Seq<u8>)
    ensures
        path::same_path(group, os::lit("/")) ==> cgroup::host_path(mount, group) == mount,
        !path::same_path(group, os::lit("/")) ==> cgroup::host_path(mount, group) == path::join(
            mount,
            path::below_root(group),
        ),
{
}

/// How the place of a group is found: the hierarchy, the group of the process in
/// it as a real path, whether the process can come back there, the nearest group
/// above that can be used, and the memory for it.
pub proof fn places_are_found_step_by_step(
    requested: ResourceLimits,
    log: Seq<Answer>,
    at: int,
)
    requires
        requested.valid(),
    ensures
        ({
            let course = cgroup::discovered(requested, log, at);
            match cgroup::hierarchy(log, at) {
                Err(pause) => talk::pauses(course, pause),
                Ok((mount, a)) => match cgroup::own_group(log, a) {
                    Err(pause) => talk::pauses(course, pause),
                    Ok((group, b)) => match walk::existing(
                        cgroup::host_path(mount, group),
                        "current cgroup"@,
                        log,
                        b,
                    ) {
                        Err(pause) => talk::pauses(course, pause),
                        Ok((restore, c)) => {
                            &&& talk::silent(log, c) ==> talk::asks(
                                course,
                                Query::OpenForWriting(
                                    path::join(restore, os::lit("cgroup.procs")),
                                ),
                            )
                            &&& talk::undone(log, c) ==> talk::cannot_set_up(course)
                            &&& talk::done(log, c) ==> match cgroup::delegated_from(
                                mount,
                                restore,
                                restore,
                                log,
                                c + 1,
                            ) {
                                Err(pause) => talk::pauses(course, pause),
                                Ok((parent, d)) => match cgroup::memory_for(
                                    requested.max_memory_bytes,
                                    parent,
                                    log,
                                    d,
                                ) {
                                    Err(pause) => talk::pauses(course, pause),
                                    Ok((bytes, e)) => course matches Ok((place, last)) && last == e
                                        && place.parent == parent && place.restore == restore
                                        && place.limits.max_memory_bytes == bytes,
                                },
                            }
                        },
                    },
                },
            }
        }),
{
    reveal(cgroup::discovered);
    reveal(cgroup::placed);
}

// ---------------------------------------------------------------------------
// A group
// ---------------------------------------------------------------------------

/// A group of a sandbox is made under a fresh name and must be a real directory.
/// A name that is taken is followed by another, thirty-two in all.
pub proof fn groups_are_made_under_fresh_names(
    parent: Seq<u8>,
    tries: int,
    log: Seq<Answer>,
    at: int,
    name: Seq<u8>,
)
    requires
        0 <= at,
        0 <= tries <= 32,
    ensures
        ({
            let course = cgroup::child_group_from(parent, tries, log, at);
            let group = path::join(parent, os::lit("cargo-cage-") + name);
            &&& tries == 32 ==> talk::cannot_set_up(course)
            &&& tries < 32 && talk::silent(log, at) ==> talk::asks(course, Query::FreshName)
            &&& tries < 32 && talk::unset(log, at) ==> talk::cannot_set_up(course)
            &&& tries < 32 && talk::says(log, at, name) ==> {
                &&& talk::silent(log, at + 1) ==> talk::asks(course, Query::CreateDirectory(group))
                &&& denied(log, at + 1, IoKind::AlreadyExists) ==> course
                    == cgroup::child_group_from(parent, tries + 1, log, at + 2)
                &&& talk::undone(log, at + 1) && !denied(log, at + 1, IoKind::AlreadyExists)
                    ==> talk::cannot_set_up(course)
                &&& talk::done(log, at + 1) ==> {
                    &&& talk::silent(log, at + 2) ==> talk::asks(course, Query::Inspect(group))
                    &&& talk::shows(log, at + 2, FileKind::Directory) ==> talk::gives(
                        course,
                        group,
                        at + 3,
                    )
                    &&& talk::missing(log, at + 2) || talk::unreadable(log, at + 2) || (talk::shown(
                        log,
                        at + 2,
                    ) && !talk::shows(log, at + 2, FileKind::Directory)) ==> talk::cannot_set_up(
                        course,
                    )
                }
            }
        }),
{
}

/// A group is taken into use once it is limited and its events were counted. One
/// that cannot be used is removed before that is reported.
pub proof fn unusable_groups_are_removed(
    place: GroupPlace,
    group: Seq<u8>,
    log: Seq<Answer>,
    at: int,
)
    ensures
        ({
            let course = cgroup::prepared_at(place, group, log, at);
            match cgroup::configured(group, place.limits, log, at) {
                Err(Pause::Ask(query)) => talk::asks(course, query),
                Err(Pause::Fail(fault, next)) => {
                    &&& talk::silent(log, next) ==> talk::asks(
                        course,
                        Query::RemoveDirectory(group),
                    )
                    &&& talk::done(log, next) || talk::undone(log, next) ==> talk::pauses(
                        course,
                        Pause::Fail(fault, next + 1),
                    )
                },
                Ok((_, next)) => match cgroup::events(group, log, next) {
                    Err(pause) => talk::pauses(course, pause),
                    Ok((Err(_), then)) => {
                        &&& talk::silent(log, then) ==> talk::asks(
                            course,
                            Query::RemoveDirectory(group),
                        )
                        &&& talk::done(log, then) || talk::undone(log, then)
                            ==> talk::cannot_set_up(course)
                    },
                    Ok((Ok(before), then)) => talk::gives(
                        course,
                        Group {
                            restore: place.restore,
                            path: group,
                            limits: place.limits,
                            before,
                            entered: false,
                        },
                        then,
                    ),
                },
            }
        }),
{
    reveal(cgroup::prepared_at);
}

/// The events of a group are read from its two files: how often the memory was
/// at its limit, how often a process was killed for it, and how often the number
/// of processes was at its limit.
pub proof fn events_are_read_from_two_files(
    group: Seq<u8>,
    log: Seq<Answer>,
    at: int,
    memory: Seq<char>,
    pids: Seq<char>,
)
    requires
        0 <= at,
    ensures
        ({
            let course = cgroup::events(group, log, at);
            let first = path::join(group, os::lit("memory.events"));
            let second = path::join(group, os::lit("pids.events"));
            &&& talk::silent(log, at) ==> talk::asks(course, Query::ReadText(first))
            &&& unread(log, at) ==> (course matches Ok((Err(_), _)))
            &&& reads(log, at, memory) && talk::silent(log, at + 1) ==> talk::asks(
                course,
                Query::ReadText(second),
            )
            &&& reads(log, at, memory) && unread(log, at + 1) ==> (course matches Ok((Err(_), _)))
            &&& reads(log, at, memory) && reads(log, at + 1, pids) ==> (course matches Ok((
                Ok(counted),
                _,
            )) ==> {
                &&& budget::counter(memory, "max"@, first) matches Ok(value) && counted.memory_max
                    == value as u64
                &&& budget::counter(memory, "oom_kill"@, first) matches Ok(value)
                    && counted.memory_oom_kill == value as u64
                &&& budget::counter(pids, "max"@, second) matches Ok(value) && counted.pids_max
                    == value as u64
            })
        }),
{
}

/// Whether a group is empty is read from the list of its processes, and waited
/// for until the time for that is over.
pub proof fn groups_are_emptied_in_time(
    group: Seq<u8>,
    log: Seq<Answer>,
    at: int,
    content: Seq<char>,
)
    requires
        0 <= at,
    ensures
        ({
            let course = cgroup::emptied_from(group, log, at);
            let empty = forall|i: int|
                0 <= i < scan::lines(content).len() ==> scan::trimmed(
                    #[trigger] scan::lines(content)[i],
                ).len() == 0;
            &&& talk::silent(log, at) ==> talk::asks(
                course,
                Query::ReadText(path::join(group, os::lit("cgroup.procs"))),
            )
            &&& unread(log, at) ==> talk::cannot_set_up(course)
            &&& reads(log, at, content) && empty ==> talk::gives(course, (), at + 1)
            &&& reads(log, at, content) && !empty ==> {
                &&& talk::silent(log, at + 1) ==> talk::asks(
                    course,
                    Query::TimerExpired(Timer::Cleanup),
                )
                &&& talk::holds(log, at + 1, true) ==> talk::cannot_set_up(course)
                &&& talk::holds(log, at + 1, false) && talk::silent(log, at + 2) ==> talk::asks(
                    course,
                    Query::Sleep(10),
                )
                &&& talk::holds(log, at + 1, false) && (talk::done(log, at + 2) || talk::undone(
                    log,
                    at + 2,
                )) ==> course == cgroup::emptied_from(group, log, at + 3)
            }
        }),
{
}

/// The process goes back to the group that it came from, if it had left it.
pub proof fn processes_return_where_they_came_from(group: Group, log: Seq<Answer>, at: int)
    ensures
        !group.entered ==> talk::gives(cgroup::returned(group, log, at), (), at),
        group.entered ==> cgroup::returned(group, log, at) == cgroup::process_moved(
            path::join(group.restore, os::lit("cgroup.procs")),
            "restore the cargo-cage supervisor"@,
            log,
            at,
        ),
{
    reveal(cgroup::returned);
}

} // verus!

//! What is opened on the host for a sandbox, and where it appears there.

use crate::bwrap;
use crate::bwrap::{Mount, MountKind, Mounts, Source};
use crate::flow;
use crate::flow::{Answer, FileKind, Query, Stat};
use crate::mounts;
use crate::os;
use crate::path;
use crate::plan::{Layout, Mask};
use crate::talk;
use vstd::prelude::*;

verus! {

/// The source of a mount is absolute, not the root, and never goes up.
pub open spec fn openable(source: Seq<u8>) -> bool {
    path::absolute(source) && !path::same_path(source, os::lit("/")) && !path::parts(
        source,
    ).contains(path::Part::Parent)
}

/// The source of a mount is opened below the root of the host, and kept open
/// for the program that is started: the first of the flags of its descriptor is
/// taken away and the others stay.
pub proof fn sources_are_opened_below_the_root(
    source: Seq<u8>,
    label: Seq<char>,
    log: Seq<Answer>,
    at: int,
    root: i32,
    fd: i32,
    flags: u32,
)
    requires
        0 <= at,
    ensures
        ({
            let course = mounts::opened_source(source, label, log, at);
            &&& !openable(source) ==> talk::refuses(course)
            &&& openable(source) && talk::silent(log, at) ==> talk::asks(course, Query::OpenRoot)
            &&& openable(source) && talk::unopened(log, at) ==> talk::cannot_set_up(course)
            &&& openable(source) && talk::opened(log, at, root) ==> {
                &&& talk::silent(log, at + 1) ==> talk::asks(
                    course,
                    Query::OpenBeneath(root, path::below_root(source)),
                )
                &&& talk::unopened(log, at + 1) ==> talk::cannot_set_up(course)
                &&& talk::opened(log, at + 1, fd) ==> {
                    &&& talk::silent(log, at + 2) ==> talk::asks(course, Query::DescriptorFlags(fd))
                    &&& talk::flagged(log, at + 2, flags) ==> {
                        &&& talk::silent(log, at + 3) ==> (course matches Err(pause) && pause
                            matches flow::Pause::Ask(asked) && asked matches
                            Query::SetDescriptorFlags(other, kept) && other == fd && kept & 1 == 0
                            && kept | 1 == flags | 1)
                        &&& talk::done(log, at + 3) ==> talk::gives(course, fd, at + 4)
                        &&& talk::undone(log, at + 3) ==> talk::cannot_set_up(course)
                    }
                }
            }
        }),
{
    reveal(mounts::opened_source);
    assert((flags & !1u32) & 1 == 0 && (flags & !1u32) | 1 == flags | 1) by (bit_vector);
}

/// What may be mounted as what: a directory as a directory, a regular file that
/// has no other name as a file, any regular file as a program, and a device as
/// a device.
pub proof fn kinds_fit_what_is_mounted(stat: Stat)
    ensures
        mounts::kind_fits(MountKind::Directory, stat) <==> stat.kind == FileKind::Directory,
        mounts::kind_fits(MountKind::File, stat) <==> stat.kind == FileKind::File && stat.links
            == 1,
        mounts::kind_fits(MountKind::Executable, stat) <==> stat.kind == FileKind::File,
        mounts::kind_fits(MountKind::Special, stat) <==> stat.kind == FileKind::CharDevice,
{
}

/// A mount hands over what was opened: the descriptor is looked at once more,
/// must be of the kind of the mount, and appears at the destination.
pub proof fn mounts_hand_over_what_was_opened(
    source: Seq<u8>,
    destination: Seq<u8>,
    kind: MountKind,
    label: Seq<char>,
    log: Seq<Answer>,
    at: int,
)
    ensures
        mounts::opened_source(source, label, log, at) matches Err(pause) ==> mounts::opened_mount(
            source,
            destination,
            kind,
            label,
            log,
            at,
        ) == Err::<(Mount, int), flow::Pause>(pause),
        mounts::opened_source(source, label, log, at) matches Ok((fd, next)) ==> {
            let course = mounts::opened_mount(source, destination, kind, label, log, at);
            &&& talk::silent(log, next) ==> talk::asks(course, Query::FollowDescriptor(fd))
            &&& talk::missing(log, next) || talk::unreadable(log, next) ==> talk::cannot_set_up(
                course,
            )
            &&& flow::given(log, next) matches Some(Answer::Entry(Ok(stat))) ==> {
                &&& mounts::kind_fits(kind, stat) ==> talk::gives(
                    course,
                    Mount { source: Source::Fd(fd), destination, kind },
                    next + 1,
                )
                &&& !mounts::kind_fits(kind, stat) ==> talk::refuses(course)
            }
        },
{
    reveal(mounts::opened_mount);
    reveal(mounts::checked_kind);
}

/// Whether a mount shows a source at a destination.
pub open spec fn mounted(
    mount: Mount,
    source: Seq<u8>,
    destination: Seq<u8>,
    kind: MountKind,
    label: Seq<char>,
    log: Seq<Answer>,
) -> bool {
    exists|at: int| #[trigger]
        mounts::opened_mount(source, destination, kind, label, log, at) matches Ok((made, _))
            && made == mount
}

/// Whether mounts show the sources of a list at its destinations, one by one.
pub open spec fn all_mounted(
    made: Seq<Mount>,
    list: Seq<(Seq<u8>, Seq<u8>)>,
    kind: MountKind,
    label: Seq<char>,
    log: Seq<Answer>,
) -> bool {
    &&& made.len() == list.len()
    &&& forall|i: int|
        0 <= i < list.len() ==> mounted(
            #[trigger] made[i],
            list[i].0,
            list[i].1,
            kind,
            label,
            log,
        )
}

proof fn lemma_all_mounted(
    list: Seq<(Seq<u8>, Seq<u8>)>,
    kind: MountKind,
    label: Seq<char>,
    index: int,
    done: Seq<Mount>,
    log: Seq<Answer>,
    at: int,
)
    requires
        0 <= index <= list.len(),
        all_mounted(done, list.take(index), kind, label, log),
    ensures
        mounts::opened_from(list, kind, label, index, done, log, at) matches Ok((made, _))
            ==> all_mounted(made, list, kind, label, log),
    decreases list.len() - index,
{
    if index < list.len() {
        match mounts::opened_mount(list[index].0, list[index].1, kind, label, log, at) {
            Ok((mount, next)) => {
                assert(mounted(mount, list[index].0, list[index].1, kind, label, log));
                let more = done.push(mount);
                assert forall|i: int| 0 <= i < index + 1 implies mounted(
                    #[trigger] more[i],
                    list.take(index + 1)[i].0,
                    list.take(index + 1)[i].1,
                    kind,
                    label,
                    log,
                ) by {
                    if i < index {
                        assert(mounted(
                            done[i],
                            list.take(index)[i].0,
                            list.take(index)[i].1,
                            kind,
                            label,
                            log,
                        ));
                    }
                }
                lemma_all_mounted(list, kind, label, index + 1, more, log, next);
            },
            Err(_) => {},
        }
    } else {
        assert(list.take(index) =~= list);
    }
}

/// Whether mounts show the paths of a list at their own names, as what they
/// are.
pub open spec fn writable_mounted(
    made: Seq<Mount>,
    list: Seq<Seq<u8>>,
    log: Seq<Answer>,
) -> bool {
    &&& made.len() == list.len()
    &&& forall|i: int|
        0 <= i < list.len() ==> writable_one(#[trigger] made[i], list[i], log)
}

/// Whether a mount shows a path at its own name, as a directory or as a file.
pub open spec fn writable_one(mount: Mount, path: Seq<u8>, log: Seq<Answer>) -> bool {
    &&& mount.kind == MountKind::Directory || mount.kind == MountKind::File
    &&& mounted(mount, path, path, mount.kind, "writable mount"@, log)
}

proof fn lemma_mount_kind(
    source: Seq<u8>,
    destination: Seq<u8>,
    kind: MountKind,
    label: Seq<char>,
    log: Seq<Answer>,
    at: int,
)
    ensures
        mounts::opened_mount(source, destination, kind, label, log, at) matches Ok((mount, _))
            ==> mount.kind == kind && mount.destination == destination && mount.source is Fd,
{
    reveal(mounts::opened_mount);
}

proof fn lemma_writable_mounted(
    list: Seq<Seq<u8>>,
    index: int,
    done: Seq<Mount>,
    log: Seq<Answer>,
    at: int,
)
    requires
        0 <= index <= list.len(),
        writable_mounted(done, list.take(index), log),
    ensures
        mounts::writable_from(list, index, done, log, at) matches Ok((made, _))
            ==> writable_mounted(made, list, log),
    decreases list.len() - index,
{
    if index < list.len() {
        if let Ok((Ok(stat), next)) = flow::entry(Query::Inspect(list[index]), log, at) {
            let kind = mounts::writable_kind(stat.kind);
            let label = "writable mount"@;
            lemma_mount_kind(list[index], list[index], kind, label, log, next);
            if let Ok((mount, last)) = mounts::opened_mount(
                list[index],
                list[index],
                kind,
                label,
                log,
                next,
            ) {
                assert(mounted(mount, list[index], list[index], kind, label, log));
                let more = done.push(mount);
                assert forall|i: int| 0 <= i < index + 1 implies writable_one(
                    #[trigger] more[i],
                    list.take(index + 1)[i],
                    log,
                ) by {
                    if i < index {
                        assert(writable_one(done[i], list.take(index)[i], log));
                    }
                }
                lemma_writable_mounted(list, index + 1, more, log, last);
            }
        }
    } else {
        assert(list.take(index) =~= list);
    }
}

/// A writable path is looked at before it is opened: a directory is mounted as
/// one, and anything else as a file with no other name.
pub proof fn writable_paths_are_mounted_as_what_they_are(
    list: Seq<Seq<u8>>,
    index: int,
    done: Seq<Mount>,
    log: Seq<Answer>,
    at: int,
)
    requires
        0 <= at,
        0 <= index < list.len(),
    ensures
        ({
            let course = mounts::writable_from(list, index, done, log, at);
            let file = mounts::opened_mount(
                list[index],
                list[index],
                MountKind::File,
                "writable mount"@,
                log,
                at + 1,
            );
            let directory = mounts::opened_mount(
                list[index],
                list[index],
                MountKind::Directory,
                "writable mount"@,
                log,
                at + 1,
            );
            &&& talk::silent(log, at) ==> talk::asks(course, Query::Inspect(list[index]))
            &&& talk::missing(log, at) || talk::unreadable(log, at) ==> talk::breaks(course)
            &&& talk::shows(log, at, FileKind::Directory) ==> match directory {
                Err(pause) => course == Err::<(Seq<Mount>, int), flow::Pause>(pause),
                Ok((mount, next)) => course == mounts::writable_from(
                    list,
                    index + 1,
                    done.push(mount),
                    log,
                    next,
                ),
            }
            &&& talk::shown(log, at) && !talk::shows(log, at, FileKind::Directory) ==> match file {
                Err(pause) => course == Err::<(Seq<Mount>, int), flow::Pause>(pause),
                Ok((mount, next)) => course == mounts::writable_from(
                    list,
                    index + 1,
                    done.push(mount),
                    log,
                    next,
                ),
            }
        }),
{
}

/// The launcher must be a regular file, and appears below the run directory of
/// the sandbox as a program.
pub proof fn the_launcher_appears_below_the_run_directory(
    launcher: Seq<u8>,
    log: Seq<Answer>,
    at: int,
)
    requires
        0 <= at,
    ensures
        ({
            let course = mounts::launcher_mount(launcher, log, at);
            &&& talk::silent(log, at) ==> talk::asks(course, Query::Inspect(launcher))
            &&& talk::missing(log, at) || talk::unreadable(log, at) ==> talk::breaks(course)
            &&& talk::shown(log, at) && !talk::shows(log, at, FileKind::File) ==> talk::refuses(
                course,
            )
            &&& talk::shows(log, at, FileKind::File) ==> course == mounts::opened_mount(
                launcher,
                os::lit("/run/cargo-cage-landlock-launcher"),
                MountKind::Executable,
                "Landlock launcher mount"@,
                log,
                at + 1,
            )
        }),
{
    reveal(mounts::launcher_mount);
}

/// The path of each of the files that are hidden.
pub open spec fn is_hidden_file(hidden: Seq<Mask>, path: Seq<u8>) -> bool {
    exists|i: int| 0 <= i < hidden.len() && #[trigger] hidden[i] == Mask::File(path)
}

proof fn lemma_hidden_files(hidden: Seq<Mask>, count: int)
    requires
        0 <= count <= hidden.len(),
    ensures
        forall|path: Seq<u8>| #[trigger]
            bwrap::hidden_files(hidden, count).contains(path) <==> is_hidden_file(
                hidden.take(count),
                path,
            ),
    decreases count,
{
    if count > 0 {
        lemma_hidden_files(hidden, count - 1);
        let before = bwrap::hidden_files(hidden, count - 1);
        let after = bwrap::hidden_files(hidden, count);
        let shorter = hidden.take(count - 1);
        let longer = hidden.take(count);
        assert forall|path: Seq<u8>| #[trigger] after.contains(path) <==> is_hidden_file(
            longer,
            path,
        ) by {
            assert(before.contains(path) <==> is_hidden_file(shorter, path));
            if is_hidden_file(longer, path) {
                let i = choose|i: int| 0 <= i < longer.len() && #[trigger] longer[i] == Mask::File(
                    path,
                );
                if i < count - 1 {
                    assert(shorter[i] == Mask::File(path));
                    let k = choose|k: int| 0 <= k < before.len() && before[k] == path;
                    assert(after[k] == path);
                } else {
                    assert(after[after.len() - 1] == path);
                }
            }
            if after.contains(path) {
                let k = choose|k: int| 0 <= k < after.len() && after[k] == path;
                if k < before.len() {
                    assert(before[k] == path);
                    let i = choose|i: int|
                        0 <= i < shorter.len() && #[trigger] shorter[i] == Mask::File(path);
                    assert(longer[i] == Mask::File(path));
                } else {
                    assert(longer[count - 1] == Mask::File(path));
                }
            }
        }
    }
}

/// What is mounted for a layout: its runtime at its destinations, its read-only
/// and writable paths at their own names, its caches in the Cargo home of the
/// sandbox, and the null device over every hidden file.
pub proof fn layouts_are_mounted_piece_by_piece(
    layout: Layout,
    launcher: Seq<u8>,
    log: Seq<Answer>,
    at: int,
)
    ensures
        mounts::prepared_mounts(layout, launcher, log, at) matches Ok((made, _)) ==> {
            &&& all_mounted(
                made.runtime,
                layout.runtime_mounts,
                MountKind::Directory,
                "runtime mount"@,
                log,
            )
            &&& made.read_only.len() == layout.read_only_paths.len()
            &&& forall|i: int|
                0 <= i < layout.read_only_paths.len() ==> mounted(
                    #[trigger] made.read_only[i],
                    layout.read_only_paths[i],
                    layout.read_only_paths[i],
                    MountKind::Directory,
                    "read-only mount"@,
                    log,
                )
            &&& made.caches.len() == layout.cargo_cache_paths.len()
            &&& forall|i: int|
                0 <= i < layout.cargo_cache_paths.len() ==> mounted(
                    #[trigger] made.caches[i],
                    layout.cargo_cache_paths[i],
                    path::join(
                        os::lit("/run/cargo-cage-home"),
                        path::file_name(layout.cargo_cache_paths[i])->Some_0,
                    ),
                    MountKind::Directory,
                    "Cargo cache mount"@,
                    log,
                )
            &&& forall|path: Seq<u8>| #[trigger]
                is_hidden_file(layout.hidden_paths, path) <==> hides(made.hidden_files, path)
            &&& forall|i: int|
                0 <= i < made.hidden_files.len() ==> mounted(
                    #[trigger] made.hidden_files[i],
                    os::lit("/dev/null"),
                    made.hidden_files[i].destination,
                    MountKind::Special,
                    "hidden-file mask"@,
                    log,
                )
            &&& writable_mounted(made.writable, layout.writable_paths, log)
            &&& made.launcher matches Some(own) && (exists|here: int| #[trigger]
                mounts::launcher_mount(launcher, log, here) matches Ok((found, _)) && found == own)
        },
{
    reveal(mounts::prepared_mounts);
    if mounts::prepared_mounts(layout, launcher, log, at) is Ok {
        let made = mounts::prepared_mounts(layout, launcher, log, at)->Ok_0.0;
        let directory = MountKind::Directory;
        let none = Seq::<Mount>::empty();
        let read_only = mounts::doubled(layout.read_only_paths);
        let caches = mounts::cache_pairs(layout.cargo_cache_paths);
        let files = bwrap::hidden_files(layout.hidden_paths, layout.hidden_paths.len() as int);
        let hidden = mounts::null_pairs(files);
        lemma_all_mounted(
            layout.runtime_mounts,
            directory,
            "runtime mount"@,
            0,
            none,
            log,
            at,
        );
        let second = mounts::opened_from(
            layout.runtime_mounts,
            directory,
            "runtime mount"@,
            0,
            none,
            log,
            at,
        )->Ok_0.1;
        lemma_all_mounted(read_only, directory, "read-only mount"@, 0, none, log, second);
        let third = mounts::opened_from(
            read_only,
            directory,
            "read-only mount"@,
            0,
            none,
            log,
            second,
        )->Ok_0.1;
        lemma_all_mounted(caches, directory, "Cargo cache mount"@, 0, none, log, third);
        let fourth = mounts::opened_from(
            caches,
            directory,
            "Cargo cache mount"@,
            0,
            none,
            log,
            third,
        )->Ok_0.1;
        lemma_all_mounted(hidden, MountKind::Special, "hidden-file mask"@, 0, none, log, fourth);
        let fifth = mounts::opened_from(
            hidden,
            MountKind::Special,
            "hidden-file mask"@,
            0,
            none,
            log,
            fourth,
        )->Ok_0.1;
        lemma_writable_mounted(layout.writable_paths, 0, none, log, fifth);
        let sixth = mounts::writable_from(layout.writable_paths, 0, none, log, fifth)->Ok_0.1;
        assert(mounts::launcher_mount(launcher, log, sixth) matches Ok((found, _)) && found
            == made.launcher->Some_0);
        assert forall|i: int| 0 <= i < layout.read_only_paths.len() implies mounted(
            #[trigger] made.read_only[i],
            layout.read_only_paths[i],
            layout.read_only_paths[i],
            directory,
            "read-only mount"@,
            log,
        ) by {
            assert(read_only[i] == (layout.read_only_paths[i], layout.read_only_paths[i]));
        }
        assert forall|i: int| 0 <= i < layout.cargo_cache_paths.len() implies mounted(
            #[trigger] made.caches[i],
            layout.cargo_cache_paths[i],
            path::join(
                os::lit("/run/cargo-cage-home"),
                path::file_name(layout.cargo_cache_paths[i])->Some_0,
            ),
            directory,
            "Cargo cache mount"@,
            log,
        ) by {
            assert(caches[i].0 == layout.cargo_cache_paths[i]);
        }
        assert forall|i: int| 0 <= i < made.hidden_files.len() implies mounted(
            #[trigger] made.hidden_files[i],
            os::lit("/dev/null"),
            made.hidden_files[i].destination,
            MountKind::Special,
            "hidden-file mask"@,
            log,
        ) && made.hidden_files[i].destination == files[i] by {
            assert(hidden[i] == (os::lit("/dev/null"), files[i]));
            let here = choose|here: int| #[trigger]
                mounts::opened_mount(
                    os::lit("/dev/null"),
                    files[i],
                    MountKind::Special,
                    "hidden-file mask"@,
                    log,
                    here,
                ) matches Ok((one, _)) && one == made.hidden_files[i];
            lemma_mount_kind(
                os::lit("/dev/null"),
                files[i],
                MountKind::Special,
                "hidden-file mask"@,
                log,
                here,
            );
        }
        lemma_hidden_files(layout.hidden_paths, layout.hidden_paths.len() as int);
        assert(layout.hidden_paths.take(layout.hidden_paths.len() as int) =~= layout.hidden_paths);
        assert forall|path: Seq<u8>| #[trigger]
            is_hidden_file(layout.hidden_paths, path) <==> hides(made.hidden_files, path) by {
            assert(files.contains(path) <==> is_hidden_file(layout.hidden_paths, path));
            if files.contains(path) {
                let k = choose|k: int| 0 <= k < files.len() && files[k] == path;
                assert(made.hidden_files[k].destination == path);
            }
            if hides(made.hidden_files, path) {
                let k = choose|k: int|
                    0 <= k < made.hidden_files.len() && (
                    #[trigger] made.hidden_files[k]).destination == path;
                assert(files[k] == path);
            }
        }
    }
}

/// Whether one of some mounts appears at a path.
pub open spec fn hides(made: Seq<Mount>, path: Seq<u8>) -> bool {
    exists|i: int| 0 <= i < made.len() && (#[trigger] made[i]).destination == path
}

/// The marker of the launcher is a fresh private file in the directory for
/// temporary files. It is written, kept open for the program that is started,
/// and loses its name.
pub proof fn the_marker_loses_its_name(
    log: Seq<Answer>,
    at: int,
    directory: Seq<u8>,
    name: Seq<u8>,
    file: Seq<u8>,
    fd: i32,
    flags: u32,
)
    requires
        0 <= at,
    ensures
        talk::silent(log, at) ==> talk::asks(mounts::marker(log, at), Query::TemporaryDirectory),
        talk::leads(log, at, directory) && talk::silent(log, at + 1) ==> talk::asks(
            mounts::marker(log, at),
            Query::FreshName,
        ),
        talk::leads(log, at, directory) && talk::unset(log, at + 1) ==> talk::cannot_set_up(
            mounts::marker(log, at),
        ),
        talk::leads(log, at, directory) && talk::says(log, at + 1, name) ==> mounts::marker(log, at)
            == mounts::marker_file(
            path::join(directory, os::lit("cargo-cage-launcher-context-") + name),
            log,
            at + 2,
        ),
        talk::silent(log, at) ==> talk::asks(
            mounts::marker_file(file, log, at),
            Query::CreatePrivateFile(file),
        ),
        talk::unopened(log, at) ==> talk::cannot_set_up(mounts::marker_file(file, log, at)),
        talk::opened(log, at, fd) ==> {
            let course = mounts::marker_file(file, log, at);
            &&& talk::silent(log, at + 1) ==> talk::asks(
                course,
                Query::WriteDescriptor(fd, "cargo-cage-launcher-context\n"@),
            )
            &&& talk::undone(log, at + 1) ==> talk::cannot_set_up(course)
            &&& talk::done(log, at + 1) ==> {
                &&& talk::silent(log, at + 2) ==> talk::asks(course, Query::DescriptorFlags(fd))
                &&& talk::flagged(log, at + 2, flags) ==> {
                    &&& talk::silent(log, at + 3) ==> (course matches Err(pause) && pause matches
                        flow::Pause::Ask(asked) && asked matches Query::SetDescriptorFlags(
                        other,
                        kept,
                    ) && other == fd && kept & 1 == 0 && kept | 1 == flags | 1)
                    &&& talk::undone(log, at + 3) ==> talk::cannot_set_up(course)
                    &&& talk::done(log, at + 3) ==> {
                        &&& talk::silent(log, at + 4) ==> talk::asks(
                            course,
                            Query::RemoveFile(file),
                        )
                        &&& talk::undone(log, at + 4) ==> talk::cannot_set_up(course)
                        &&& talk::done(log, at + 4) ==> talk::gives(course, fd, at + 5)
                    }
                }
            }
        },
{
    reveal(mounts::marker);
    reveal(mounts::marker_file);
    assert((flags & !1u32) & 1 == 0 && (flags & !1u32) | 1 == flags | 1) by (bit_vector);
}


// ---------------------------------------------------------------------------
// Mounts by path
// ---------------------------------------------------------------------------

/// Whether a mount shows a path at another.
pub open spec fn bound(mount: Mount, source: Seq<u8>, destination: Seq<u8>, kind: MountKind) -> bool {
    mount.source == Source::Path(source) && mount.destination == destination && mount.kind == kind
}

proof fn lemma_path_writable(
    list: Seq<Seq<u8>>,
    index: int,
    done: Seq<Mount>,
    log: Seq<Answer>,
    at: int,
)
    requires
        0 <= index <= list.len(),
        done.len() == index,
        forall|i: int|
            0 <= i < index ==> bound_writable(#[trigger] done[i], list[i]),
    ensures
        mounts::path_writable_from(list, index, done, log, at) matches Ok((made, _)) ==> made.len()
            == list.len() && forall|i: int|
            0 <= i < list.len() ==> bound_writable(#[trigger] made[i], list[i]),
    decreases list.len() - index,
{
    if index < list.len() {
        if let Ok((reply, next)) = flow::entry(Query::Inspect(list[index]), log, at) {
            let mount = Mount {
                source: Source::Path(list[index]),
                destination: list[index],
                kind: match reply {
                    Ok(stat) => mounts::writable_kind(stat.kind),
                    Err(_) => MountKind::Directory,
                },
            };
            lemma_path_writable(list, index + 1, done.push(mount), log, next);
        }
    }
}

/// Whether a mount shows a path at its own name, as a directory or as a file.
pub open spec fn bound_writable(mount: Mount, place: Seq<u8>) -> bool {
    bound(mount, place, place, MountKind::Directory) || bound(mount, place, place, MountKind::File)
}

/// A writable path that is bound by its name is looked at: a directory, or what
/// cannot be looked at, is bound as one, and anything else as a file.
pub proof fn bound_paths_are_what_they_are(
    list: Seq<Seq<u8>>,
    index: int,
    done: Seq<Mount>,
    log: Seq<Answer>,
    at: int,
)
    requires
        0 <= at,
        0 <= index < list.len(),
    ensures
        ({
            let course = mounts::path_writable_from(list, index, done, log, at);
            let place = list[index];
            let directory = Mount {
                source: Source::Path(place),
                destination: place,
                kind: MountKind::Directory,
            };
            let file = Mount {
                source: Source::Path(place),
                destination: place,
                kind: MountKind::File,
            };
            &&& talk::silent(log, at) ==> talk::asks(course, Query::Inspect(place))
            &&& talk::shows(log, at, FileKind::Directory) || talk::missing(log, at)
                || talk::unreadable(log, at) ==> course == mounts::path_writable_from(
                list,
                index + 1,
                done.push(directory),
                log,
                at + 1,
            )
            &&& talk::shown(log, at) && !talk::shows(log, at, FileKind::Directory) ==> course
                == mounts::path_writable_from(list, index + 1, done.push(file), log, at + 1)
        }),
{
}

/// What is bound by name for a layout: the same places as when they are opened,
/// each by its path, and the program itself as the launcher.
pub proof fn layouts_are_bound_piece_by_piece(layout: Layout, log: Seq<Answer>, at: int)
    ensures
        mounts::mounts_by_path(layout, log, at) matches Ok((made, _)) ==> {
            &&& made.runtime.len() == layout.runtime_mounts.len()
            &&& forall|i: int|
                0 <= i < layout.runtime_mounts.len() ==> bound(
                    #[trigger] made.runtime[i],
                    layout.runtime_mounts[i].0,
                    layout.runtime_mounts[i].1,
                    MountKind::Directory,
                )
            &&& made.read_only.len() == layout.read_only_paths.len()
            &&& forall|i: int|
                0 <= i < layout.read_only_paths.len() ==> bound(
                    #[trigger] made.read_only[i],
                    layout.read_only_paths[i],
                    layout.read_only_paths[i],
                    MountKind::Directory,
                )
            &&& made.caches.len() == layout.cargo_cache_paths.len()
            &&& forall|i: int|
                0 <= i < layout.cargo_cache_paths.len() ==> bound(
                    #[trigger] made.caches[i],
                    layout.cargo_cache_paths[i],
                    path::join(
                        os::lit("/run/cargo-cage-home"),
                        path::file_name(layout.cargo_cache_paths[i])->Some_0,
                    ),
                    MountKind::Directory,
                )
            &&& forall|path: Seq<u8>| #[trigger]
                is_hidden_file(layout.hidden_paths, path) <==> hides(made.hidden_files, path)
            &&& forall|i: int|
                0 <= i < made.hidden_files.len() ==> bound(
                    #[trigger] made.hidden_files[i],
                    os::lit("/dev/null"),
                    made.hidden_files[i].destination,
                    MountKind::Special,
                )
            &&& made.writable.len() == layout.writable_paths.len()
            &&& forall|i: int|
                0 <= i < layout.writable_paths.len() ==> bound_writable(
                    #[trigger] made.writable[i],
                    layout.writable_paths[i],
                )
            &&& made.launcher matches Some(own) && bound(
                own,
                os::lit("/proc/self/exe"),
                os::lit("/run/cargo-cage-landlock-launcher"),
                MountKind::Executable,
            )
        },
{
    reveal(mounts::mounts_by_path);
    lemma_path_writable(layout.writable_paths, 0, Seq::empty(), log, at);
    if let Ok((made, _)) = mounts::mounts_by_path(layout, log, at) {
        let files = bwrap::hidden_files(layout.hidden_paths, layout.hidden_paths.len() as int);
        lemma_hidden_files(layout.hidden_paths, layout.hidden_paths.len() as int);
        assert(layout.hidden_paths.take(layout.hidden_paths.len() as int) =~= layout.hidden_paths);
        assert(made.hidden_files.len() == files.len());
        assert forall|path: Seq<u8>| #[trigger]
            is_hidden_file(layout.hidden_paths, path) <==> hides(made.hidden_files, path) by {
            assert(files.contains(path) <==> is_hidden_file(layout.hidden_paths, path));
            if files.contains(path) {
                let k = choose|k: int| 0 <= k < files.len() && files[k] == path;
                assert(made.hidden_files[k].destination == path);
            }
            if hides(made.hidden_files, path) {
                let k = choose|k: int|
                    0 <= k < made.hidden_files.len() && (
                    #[trigger] made.hidden_files[k]).destination == path;
                assert(files[k] == path);
            }
        }
    }
}

} // verus!

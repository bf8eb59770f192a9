//! Opening what the sandbox mounts: every source is resolved from the host root
//! without symlinks and handed to Bubblewrap as a descriptor.

use crate::backend::Job;
use crate::bwrap;
use crate::bwrap::{
    Mount,
    MountArgument,
    MountArguments,
    MountKind,
    MountSource,
    Mounts,
    Source,
    CARGO_HOME_IN_SANDBOX,
    LAUNCHER_CONTEXT_CONTENT,
    LAUNCHER_DESTINATION,
};
use crate::flow;
use crate::flow::{Answer, Course, FileKind, Flow, Model, Pause, Query, Question, Stat};
use crate::os;
use crate::os::{OsText, PathText};
use crate::path;
use crate::plan;
use crate::plan::{BindMount, Layout, SandboxPlan};
use crate::text;
use crate::text::Compose;
use vstd::prelude::*;
use vstd::string::*;

verus! {

/// Calls `FdFlags::remove` of rustix with `FdFlags::CLOEXEC`, whose value is
/// `FD_CLOEXEC`, that is 1: the flags without that bit, and with every other
/// bit as it was.
#[verifier::external_body]
fn remove_close_on_exec(bits: u32) -> (rest: u32)
    ensures
        rest == bits & !1u32,
{
    let mut flags = rustix::io::FdFlags::from_bits_retain(bits);
    flags.remove(rustix::io::FdFlags::CLOEXEC);
    flags.bits()
}

/// The flags of a descriptor that Bubblewrap inherits.
pub fn inheritable_flags(bits: u32) -> (rest: u32)
    ensures
        rest == bits & !1u32,
{
    remove_close_on_exec(bits)
}

/// A descriptor of a mount source that Bubblewrap inherits.
#[verifier::opaque]
pub open spec fn opened_source(
    source: Seq<u8>,
    label: Seq<char>,
    log: Seq<Answer>,
    at: int,
) -> Course<i32> {
    if !path::absolute(source) || path::same_path(source, os::lit("/")) || path::has_parent_part(
        source,
    ) {
        Err(
            flow::refusal(
                source,
                label + " source must be an absolute non-root path without traversal"@,
                "use the canonical source path produced by the preflight validator"@,
                at,
            ),
        )
    } else {
        match flow::descriptor(Query::OpenRoot, log, at) {
            Err(pause) => Err(pause),
            Ok((Err(failure), at)) => Err(
                flow::setup_pause(
                    os::lossy_text(source),
                    "mount sources must be resolved from a stable host-root descriptor"@,
                    "run on a Linux kernel with openat2 support"@,
                    "could not open the host root for "@ + label + " source with openat2: "@
                        + failure.message,
                    at,
                ),
            ),
            Ok((Ok(root), at)) => match flow::descriptor(
                Query::OpenBeneath(root, path::below_root(source)),
                log,
                at,
            ) {
                Err(pause) => Err(pause),
                Ok((Err(failure), at)) => Err(
                    flow::setup_pause(
                        os::lossy_text(source),
                        "mount sources must be stable and symlink-free"@,
                        "remove the symlink or run on a Linux kernel with openat2 support"@,
                        "could not open "@ + label + " source with openat2: "@ + failure.message,
                        at,
                    ),
                ),
                Ok((Ok(fd), at)) => match flow::flags(Query::DescriptorFlags(fd), log, at) {
                    Err(pause) => Err(pause),
                    Ok((Err(failure), at)) => Err(
                        flow::setup_pause(
                            os::lossy_text(source),
                            "mount descriptors must be transferable only to Bubblewrap"@,
                            "use a working Linux fcntl implementation"@,
                            "could not inspect the "@ + label + " file descriptor: "@
                                + failure.message,
                            at,
                        ),
                    ),
                    Ok((Ok(bits), at)) => match flow::done(
                        Query::SetDescriptorFlags(fd, bits & !1u32),
                        log,
                        at,
                    ) {
                        Err(pause) => Err(pause),
                        Ok((Err(failure), at)) => Err(
                            flow::setup_pause(
                                os::lossy_text(source),
                                "Bubblewrap must receive the validated mount descriptor"@,
                                "use a working Linux fcntl implementation"@,
                                "could not prepare the "@ + label + " file descriptor: "@
                                    + failure.message,
                                at,
                            ),
                        ),
                        Ok((Ok(_), at)) => Ok((fd, at)),
                    },
                },
            },
        }
    }
}

/// Opens a mount source: absolute, not the root, without `..`, and resolved
/// below the host root without symlinks.
pub fn open_mount_source(source: &PathText, label: &str, log: &Vec<Answer>, at: usize) -> (opened:
    Flow<i32>)
    ensures
        flow::course(opened) == opened_source(source@, label@, log@, at as int),
{
    proof {
        reveal(opened_source);
    }
    if !source.is_absolute() || source.same_path(&OsText::new("/"))
        || source.has_parent_component() {
        return Err(
            flow::refuse(
                source,
                text::owned(label).with(
                    " source must be an absolute non-root path without traversal",
                ).as_str(),
                "use the canonical source path produced by the preflight validator",
                at,
            ),
        );
    }
    let subject = source.display();
    let (reply, at) = flow::ask_descriptor(Question::OpenRoot, log, at)?;
    let root: i32 = match reply {
        Ok(root) => root,
        Err(failure) => {
            let detail = text::owned("could not open the host root for ").with(label).with(
                " source with openat2: ",
            ).with(failure.message.as_str());
            return Err(
                flow::setup_halt(
                    subject.as_str(),
                    "mount sources must be resolved from a stable host-root descriptor",
                    "run on a Linux kernel with openat2 support",
                    detail.as_str(),
                    at,
                ),
            );
        },
    };
    let (reply, at) = flow::ask_descriptor(
        Question::OpenBeneath(root, source.below_root()),
        log,
        at,
    )?;
    let fd: i32 = match reply {
        Ok(fd) => fd,
        Err(failure) => {
            let detail = text::owned("could not open ").with(label).with(
                " source with openat2: ",
            ).with(failure.message.as_str());
            return Err(
                flow::setup_halt(
                    subject.as_str(),
                    "mount sources must be stable and symlink-free",
                    "remove the symlink or run on a Linux kernel with openat2 support",
                    detail.as_str(),
                    at,
                ),
            );
        },
    };
    let (reply, at) = flow::ask_flags(Question::DescriptorFlags(fd), log, at)?;
    let bits: u32 = match reply {
        Ok(bits) => bits,
        Err(failure) => {
            let detail = text::owned("could not inspect the ").with(label).with(
                " file descriptor: ",
            ).with(failure.message.as_str());
            return Err(
                flow::setup_halt(
                    subject.as_str(),
                    "mount descriptors must be transferable only to Bubblewrap",
                    "use a working Linux fcntl implementation",
                    detail.as_str(),
                    at,
                ),
            );
        },
    };
    let (reply, at) = flow::ask_done(
        Question::SetDescriptorFlags(fd, inheritable_flags(bits)),
        log,
        at,
    )?;
    match reply {
        Ok(_) => Ok((fd, at)),
        Err(failure) => {
            let detail = text::owned("could not prepare the ").with(label).with(
                " file descriptor: ",
            ).with(failure.message.as_str());
            Err(
                flow::setup_halt(
                    subject.as_str(),
                    "Bubblewrap must receive the validated mount descriptor",
                    "use a working Linux fcntl implementation",
                    detail.as_str(),
                    at,
                ),
            )
        },
    }
}

/// Whether what was opened is what the mount needs.
pub open spec fn kind_fits(kind: MountKind, stat: Stat) -> bool {
    match kind {
        MountKind::Directory => stat.kind == FileKind::Directory,
        MountKind::File => stat.kind == FileKind::File && stat.links == 1,
        MountKind::Executable => stat.kind == FileKind::File,
        MountKind::Special => stat.kind == FileKind::CharDevice,
    }
}

pub open spec fn kind_name(kind: MountKind) -> Seq<char> {
    match kind {
        MountKind::Directory => "directory"@,
        MountKind::File => "single-link regular file"@,
        MountKind::Executable => "regular executable file"@,
        MountKind::Special => "character device"@,
    }
}

/// The check of an opened source.
#[verifier::opaque]
pub open spec fn checked_kind(
    fd: i32,
    kind: MountKind,
    source: Seq<u8>,
    label: Seq<char>,
    log: Seq<Answer>,
    at: int,
) -> Course<()> {
    match flow::entry(Query::FollowDescriptor(fd), log, at) {
        Err(pause) => Err(pause),
        Ok((Err(failure), at)) => Err(
            flow::setup_pause(
                os::lossy_text(source),
                "the mounted FD type must match the validated path type"@,
                "retry with a stable regular file or directory"@,
                "could not verify the opened "@ + label + " source: "@ + failure.message,
                at,
            ),
        ),
        Ok((Ok(stat), at)) => if kind_fits(kind, stat) {
            Ok(((), at))
        } else {
            Err(
                flow::refusal(
                    source,
                    "the opened "@ + label + " source type is not the required "@ + kind_name(
                        kind,
                    ),
                    "restore the validated source type and retry the sandboxed operation"@,
                    at,
                ),
            )
        },
    }
}

pub fn validate_opened_mount_kind(
    fd: i32,
    kind: MountKind,
    source: &PathText,
    label: &str,
    log: &Vec<Answer>,
    at: usize,
) -> (checked: Flow<()>)
    ensures
        flow::course(checked) == checked_kind(fd, kind, source@, label@, log@, at as int),
{
    proof {
        reveal(checked_kind);
    }
    let (reply, at) = flow::ask_entry(Question::FollowDescriptor(fd), log, at)?;
    let stat = match reply {
        Ok(stat) => stat,
        Err(failure) => {
            let detail = text::owned("could not verify the opened ").with(label).with(
                " source: ",
            ).with(failure.message.as_str());
            return Err(
                flow::setup_halt(
                    source.display().as_str(),
                    "the mounted FD type must match the validated path type",
                    "retry with a stable regular file or directory",
                    detail.as_str(),
                    at,
                ),
            );
        },
    };
    let fits = match kind {
        MountKind::Directory => stat.is_dir(),
        MountKind::File => stat.is_file() && stat.links == 1,
        MountKind::Executable => stat.is_file(),
        MountKind::Special => stat.kind == FileKind::CharDevice,
    };
    if fits {
        return Ok(((), at));
    }
    let expected = match kind {
        MountKind::Directory => "directory",
        MountKind::File => "single-link regular file",
        MountKind::Executable => "regular executable file",
        MountKind::Special => "character device",
    };
    Err(
        flow::refuse(
            source,
            text::owned("the opened ").with(label).with(" source type is not the required ").with(
                expected,
            ).as_str(),
            "restore the validated source type and retry the sandboxed operation",
            at,
        ),
    )
}

/// One opened mount.
#[verifier::opaque]
pub open spec fn opened_mount(
    source: Seq<u8>,
    destination: Seq<u8>,
    kind: MountKind,
    label: Seq<char>,
    log: Seq<Answer>,
    at: int,
) -> Course<Mount> {
    match opened_source(source, label, log, at) {
        Err(pause) => Err(pause),
        Ok((fd, at)) => match checked_kind(fd, kind, source, label, log, at) {
            Err(pause) => Err(pause),
            Ok((_, at)) => Ok((Mount { source: Source::Fd(fd), destination, kind }, at)),
        },
    }
}

/// Opens a mount and checks what it is.
pub fn add_fd_mount(
    source: &PathText,
    destination: &PathText,
    kind: MountKind,
    label: &str,
    log: &Vec<Answer>,
    at: usize,
) -> (mount: Flow<MountArgument>)
    ensures
        flow::course(mount) == opened_mount(
            source@,
            destination@,
            kind,
            label@,
            log@,
            at as int,
        ),
{
    proof {
        reveal(opened_mount);
    }
    let (fd, at) = open_mount_source(source, label, log, at)?;
    let (_, at) = validate_opened_mount_kind(fd, kind, source, label, log, at)?;
    Ok(
        (
            MountArgument { source: MountSource::Fd(fd), destination: destination.clone(), kind },
            at,
        ),
    )
}

/// The mounts from `index` on, after `done`.
pub open spec fn opened_from(
    list: Seq<(Seq<u8>, Seq<u8>)>,
    kind: MountKind,
    label: Seq<char>,
    index: int,
    done: Seq<Mount>,
    log: Seq<Answer>,
    at: int,
) -> Course<Seq<Mount>>
    decreases list.len() - index,
{
    if index < 0 || index >= list.len() {
        Ok((done, at))
    } else {
        match opened_mount(list[index].0, list[index].1, kind, label, log, at) {
            Err(pause) => Err(pause),
            Ok((mount, at)) => opened_from(
                list,
                kind,
                label,
                index + 1,
                done.push(mount),
                log,
                at,
            ),
        }
    }
}

fn open_all(
    list: &Vec<(PathText, PathText)>,
    kind: MountKind,
    label: &str,
    log: &Vec<Answer>,
    at: usize,
) -> (opened: Flow<Vec<MountArgument>>)
    ensures
        flow::course(opened) == opened_from(
            os::pairs(list@),
            kind,
            label@,
            0,
            Seq::empty(),
            log@,
            at as int,
        ),
{
    let ghost all = os::pairs(list@);
    let mut done: Vec<MountArgument> = Vec::new();
    let mut index: usize = 0;
    let mut used: usize = at;
    assert(bwrap::mounts(done@) =~= Seq::empty());
    while index < list.len()
        invariant
            index <= list.len(),
            all == os::pairs(list@),
            opened_from(all, kind, label@, 0, Seq::empty(), log@, at as int) == opened_from(
                all,
                kind,
                label@,
                index as int,
                bwrap::mounts(done@),
                log@,
                used as int,
            ),
        decreases list.len() - index,
    {
        assert(all[index as int] == (list[index as int].0@, list[index as int].1@));
        let (mount, next) = add_fd_mount(
            &list[index].0,
            &list[index].1,
            kind,
            label,
            log,
            used,
        )?;
        bwrap::push_mount(&mut done, mount);
        used = next;
        index = index + 1;
    }
    Ok((done, used))
}

/// Paths that are mounted over themselves.
pub open spec fn doubled(list: Seq<Seq<u8>>) -> Seq<(Seq<u8>, Seq<u8>)> {
    list.map_values(|path: Seq<u8>| (path, path))
}

fn double(list: &Vec<PathText>) -> (pairs: Vec<(PathText, PathText)>)
    ensures
        os::pairs(pairs@) == doubled(os::texts(list@)),
{
    let ghost all = doubled(os::texts(list@));
    let mut pairs: Vec<(PathText, PathText)> = Vec::new();
    let mut index: usize = 0;
    while index < list.len()
        invariant
            index <= list.len(),
            all == doubled(os::texts(list@)),
            os::pairs(pairs@) == all.take(index as int),
        decreases list.len() - index,
    {
        os::push_pair(&mut pairs, list[index].clone(), list[index].clone());
        assert(all[index as int] == (list[index as int]@, list[index as int]@));
        index = index + 1;
        assert(os::pairs(pairs@) =~= all.take(index as int));
    }
    assert(all.take(index as int) =~= all);
    pairs
}

/// Where a cache appears inside the sandbox.
pub open spec fn cache_destination(source: Seq<u8>) -> Seq<u8> {
    path::join(os::lit(CARGO_HOME_IN_SANDBOX), path::file_name(source)->Some_0)
}

/// Whether every cache path ends in a name.
pub open spec fn caches_named(caches: Seq<Seq<u8>>) -> bool {
    forall|i: int| 0 <= i < caches.len() ==> path::file_name(#[trigger] caches[i]) is Some
}

pub open spec fn cache_pairs(caches: Seq<Seq<u8>>) -> Seq<(Seq<u8>, Seq<u8>)> {
    caches.map_values(|source: Seq<u8>| (source, cache_destination(source)))
}

fn list_cache_pairs(caches: &Vec<PathText>) -> (pairs: Vec<(PathText, PathText)>)
    requires
        caches_named(os::texts(caches@)),
    ensures
        os::pairs(pairs@) == cache_pairs(os::texts(caches@)),
{
    let ghost all = cache_pairs(os::texts(caches@));
    let inner = OsText::new(CARGO_HOME_IN_SANDBOX);
    let mut pairs: Vec<(PathText, PathText)> = Vec::new();
    let mut index: usize = 0;
    while index < caches.len()
        invariant
            index <= caches.len(),
            caches_named(os::texts(caches@)),
            inner@ == os::lit(CARGO_HOME_IN_SANDBOX),
            all == cache_pairs(os::texts(caches@)),
            os::pairs(pairs@) == all.take(index as int),
        decreases caches.len() - index,
    {
        assert(os::texts(caches@)[index as int] == caches[index as int]@);
        let destination = match caches[index].file_name() {
            Some(name) => inner.join(&name),
            None => inner.clone(),
        };
        os::push_pair(&mut pairs, caches[index].clone(), destination);
        assert(all[index as int] == (
            caches[index as int]@,
            cache_destination(caches[index as int]@),
        ));
        index = index + 1;
        assert(os::pairs(pairs@) =~= all.take(index as int));
    }
    assert(all.take(index as int) =~= all);
    pairs
}

/// Hidden files are covered by `/dev/null`.
pub open spec fn null_pairs(files: Seq<Seq<u8>>) -> Seq<(Seq<u8>, Seq<u8>)> {
    files.map_values(|path: Seq<u8>| (os::lit("/dev/null"), path))
}

fn list_null_pairs(files: &Vec<PathText>) -> (pairs: Vec<(PathText, PathText)>)
    ensures
        os::pairs(pairs@) == null_pairs(os::texts(files@)),
{
    let ghost all = null_pairs(os::texts(files@));
    let mut pairs: Vec<(PathText, PathText)> = Vec::new();
    let mut index: usize = 0;
    while index < files.len()
        invariant
            index <= files.len(),
            all == null_pairs(os::texts(files@)),
            os::pairs(pairs@) == all.take(index as int),
        decreases files.len() - index,
    {
        os::push_pair(&mut pairs, OsText::new("/dev/null"), files[index].clone());
        assert(all[index as int] == (os::lit("/dev/null"), files[index as int]@));
        index = index + 1;
        assert(os::pairs(pairs@) =~= all.take(index as int));
    }
    assert(all.take(index as int) =~= all);
    pairs
}

fn list_runtime_pairs(mounts: &Vec<BindMount>) -> (pairs: Vec<(PathText, PathText)>)
    ensures
        os::pairs(pairs@) == plan::binds(mounts@),
{
    let ghost all = plan::binds(mounts@);
    let mut pairs: Vec<(PathText, PathText)> = Vec::new();
    let mut index: usize = 0;
    while index < mounts.len()
        invariant
            index <= mounts.len(),
            all == plan::binds(mounts@),
            os::pairs(pairs@) == all.take(index as int),
        decreases mounts.len() - index,
    {
        os::push_pair(&mut pairs, mounts[index].source.clone(), mounts[index].destination.clone());
        assert(all[index as int] == (
            mounts[index as int].source@,
            mounts[index as int].destination@,
        ));
        index = index + 1;
        assert(os::pairs(pairs@) =~= all.take(index as int));
    }
    assert(all.take(index as int) =~= all);
    pairs
}

/// The kind of a writable mount.
pub open spec fn writable_kind(kind: FileKind) -> MountKind {
    if kind == FileKind::Directory {
        MountKind::Directory
    } else {
        MountKind::File
    }
}

/// The writable mounts from `index` on, after `done`.
pub open spec fn writable_from(
    list: Seq<Seq<u8>>,
    index: int,
    done: Seq<Mount>,
    log: Seq<Answer>,
    at: int,
) -> Course<Seq<Mount>>
    decreases list.len() - index,
{
    if index < 0 || index >= list.len() {
        Ok((done, at))
    } else {
        match flow::entry(Query::Inspect(list[index]), log, at) {
            Err(pause) => Err(pause),
            Ok((Err(failure), at)) => Err(
                flow::io_pause(
                    "could not inspect writable mount "@ + os::lossy_text(list[index]),
                    failure,
                    at,
                ),
            ),
            Ok((Ok(stat), at)) => match opened_mount(
                list[index],
                list[index],
                writable_kind(stat.kind),
                "writable mount"@,
                log,
                at,
            ) {
                Err(pause) => Err(pause),
                Ok((mount, at)) => writable_from(list, index + 1, done.push(mount), log, at),
            },
        }
    }
}

fn open_writable(list: &Vec<PathText>, log: &Vec<Answer>, at: usize) -> (opened: Flow<
    Vec<MountArgument>,
>)
    ensures
        flow::course(opened) == writable_from(
            os::texts(list@),
            0,
            Seq::empty(),
            log@,
            at as int,
        ),
{
    let ghost all = os::texts(list@);
    let mut done: Vec<MountArgument> = Vec::new();
    let mut index: usize = 0;
    let mut used: usize = at;
    assert(bwrap::mounts(done@) =~= Seq::empty());
    while index < list.len()
        invariant
            index <= list.len(),
            all == os::texts(list@),
            writable_from(all, 0, Seq::empty(), log@, at as int) == writable_from(
                all,
                index as int,
                bwrap::mounts(done@),
                log@,
                used as int,
            ),
        decreases list.len() - index,
    {
        assert(all[index as int] == list[index as int]@);
        let (reply, next) = flow::ask_entry(Question::Inspect(list[index].clone()), log, used)?;
        let stat = match reply {
            Ok(stat) => stat,
            Err(failure) => {
                let context = text::owned("could not inspect writable mount ").with(
                    list[index].display().as_str(),
                );
                return Err(flow::io_halt(context.as_str(), &failure, next));
            },
        };
        let kind = if stat.is_dir() {
            MountKind::Directory
        } else {
            MountKind::File
        };
        let (mount, next) = add_fd_mount(
            &list[index],
            &list[index],
            kind,
            "writable mount",
            log,
            next,
        )?;
        bwrap::push_mount(&mut done, mount);
        used = next;
        index = index + 1;
    }
    Ok((done, used))
}

/// The launcher's own mount.
#[verifier::opaque]
pub open spec fn launcher_mount(launcher: Seq<u8>, log: Seq<Answer>, at: int) -> Course<Mount> {
    match flow::entry(Query::Inspect(launcher), log, at) {
        Err(pause) => Err(pause),
        Ok((Err(failure), at)) => Err(
            flow::io_pause(
                "could not inspect cargo-cage launcher "@ + os::lossy_text(launcher),
                failure,
                at,
            ),
        ),
        Ok((Ok(stat), at)) => if stat.kind != FileKind::File {
            Err(
                flow::refusal(
                    launcher,
                    "the internal Landlock launcher must be a regular file"@,
                    "run cargo-cage from a real installed or freshly built executable"@,
                    at,
                ),
            )
        } else {
            opened_mount(
                launcher,
                os::lit(LAUNCHER_DESTINATION),
                MountKind::Executable,
                "Landlock launcher mount"@,
                log,
                at,
            )
        },
    }
}

fn open_launcher(launcher: &PathText, log: &Vec<Answer>, at: usize) -> (mount: Flow<MountArgument>)
    ensures
        flow::course(mount) == launcher_mount(launcher@, log@, at as int),
{
    proof {
        reveal(launcher_mount);
    }
    let (reply, at) = flow::ask_entry(Question::Inspect(launcher.clone()), log, at)?;
    match reply {
        Err(failure) => {
            let context = text::owned("could not inspect cargo-cage launcher ").with(
                launcher.display().as_str(),
            );
            Err(flow::io_halt(context.as_str(), &failure, at))
        },
        Ok(stat) => {
            if !stat.is_file() {
                return Err(
                    flow::refuse(
                        launcher,
                        "the internal Landlock launcher must be a regular file",
                        "run cargo-cage from a real installed or freshly built executable",
                        at,
                    ),
                );
            }
            add_fd_mount(
                launcher,
                &OsText::new(LAUNCHER_DESTINATION),
                MountKind::Executable,
                "Landlock launcher mount",
                log,
                at,
            )
        },
    }
}

/// All mounts of a layout, opened one after the other.
#[verifier::opaque]
pub open spec fn prepared_mounts(
    layout: Layout,
    launcher: Seq<u8>,
    log: Seq<Answer>,
    at: int,
) -> Course<Mounts> {
    match opened_from(
        layout.runtime_mounts,
        MountKind::Directory,
        "runtime mount"@,
        0,
        Seq::empty(),
        log,
        at,
    ) {
        Err(pause) => Err(pause),
        Ok((runtime, at)) => match opened_from(
            doubled(layout.read_only_paths),
            MountKind::Directory,
            "read-only mount"@,
            0,
            Seq::empty(),
            log,
            at,
        ) {
            Err(pause) => Err(pause),
            Ok((read_only, at)) => match opened_from(
                cache_pairs(layout.cargo_cache_paths),
                MountKind::Directory,
                "Cargo cache mount"@,
                0,
                Seq::empty(),
                log,
                at,
            ) {
                Err(pause) => Err(pause),
                Ok((caches, at)) => match opened_from(
                    null_pairs(
                        bwrap::hidden_files(
                            layout.hidden_paths,
                            layout.hidden_paths.len() as int,
                        ),
                    ),
                    MountKind::Special,
                    "hidden-file mask"@,
                    0,
                    Seq::empty(),
                    log,
                    at,
                ) {
                    Err(pause) => Err(pause),
                    Ok((hidden_files, at)) => match writable_from(
                        layout.writable_paths,
                        0,
                        Seq::empty(),
                        log,
                        at,
                    ) {
                        Err(pause) => Err(pause),
                        Ok((writable, at)) => match launcher_mount(launcher, log, at) {
                            Err(pause) => Err(pause),
                            Ok((own, at)) => Ok(
                                (
                                    Mounts {
                                        runtime,
                                        read_only,
                                        caches,
                                        hidden_files,
                                        writable,
                                        launcher: Some(own),
                                    },
                                    at,
                                ),
                            ),
                        },
                    },
                },
            },
        },
    }
}

/// The mounts of a sandbox, opened and ready to be handed over.
pub struct PreparedMounts {
    pub arguments: MountArguments,
}

impl Model for PreparedMounts {
    type M = Mounts;

    open spec fn model(&self) -> Mounts {
        self.arguments@
    }
}

impl PreparedMounts {
    /// Opens every mount of a plan. The descriptors belong to whoever answered
    /// the questions, and must stay open until Bubblewrap has started.
    pub fn open(plan: &SandboxPlan, launcher: &PathText, log: &Vec<Answer>, at: usize) -> (
    prepared: Flow<PreparedMounts>)
        requires
            caches_named(plan@.cargo_cache_paths),
        ensures
            flow::course(prepared) == prepared_mounts(plan@, launcher@, log@, at as int),
    {
        proof {
            reveal(prepared_mounts);
        }
        let (runtime, at) = open_all(
            &list_runtime_pairs(&plan.runtime_mounts),
            MountKind::Directory,
            "runtime mount",
            log,
            at,
        )?;
        let (read_only, at) = open_all(
            &double(&plan.read_only_paths),
            MountKind::Directory,
            "read-only mount",
            log,
            at,
        )?;
        let (caches, at) = open_all(
            &list_cache_pairs(&plan.cargo_cache_paths),
            MountKind::Directory,
            "Cargo cache mount",
            log,
            at,
        )?;
        let (hidden_files, at) = open_all(
            &list_null_pairs(&bwrap::list_hidden_files(&plan.hidden_paths)),
            MountKind::Special,
            "hidden-file mask",
            log,
            at,
        )?;
        let (writable, at) = open_writable(&plan.writable_paths, log, at)?;
        let (own, at) = open_launcher(launcher, log, at)?;
        let arguments = MountArguments {
            runtime,
            read_only,
            caches,
            hidden_files,
            writable,
            launcher: Some(own),
        };
        Ok((PreparedMounts { arguments }, at))
    }
}

// ---------------------------------------------------------------------------
// Mounts by path
// ---------------------------------------------------------------------------

/// Mounts by path: source, destination and kind.
pub open spec fn path_mounts(list: Seq<(Seq<u8>, Seq<u8>)>, kind: MountKind) -> Seq<Mount> {
    list.map_values(
        |pair: (Seq<u8>, Seq<u8>)| Mount {
            source: Source::Path(pair.0),
            destination: pair.1,
            kind,
        },
    )
}

fn list_path_mounts(list: &Vec<(PathText, PathText)>, kind: MountKind) -> (made: Vec<
    MountArgument,
>)
    ensures
        bwrap::mounts(made@) == path_mounts(os::pairs(list@), kind),
{
    let ghost all = path_mounts(os::pairs(list@), kind);
    let mut made: Vec<MountArgument> = Vec::new();
    let mut index: usize = 0;
    while index < list.len()
        invariant
            index <= list.len(),
            all == path_mounts(os::pairs(list@), kind),
            bwrap::mounts(made@) == all.take(index as int),
        decreases list.len() - index,
    {
        assert(os::pairs(list@)[index as int] == (list[index as int].0@, list[index as int].1@));
        bwrap::push_mount(
            &mut made,
            MountArgument {
                source: MountSource::Path(list[index].0.clone()),
                destination: list[index].1.clone(),
                kind,
            },
        );
        index = index + 1;
        assert(bwrap::mounts(made@) =~= all.take(index as int));
    }
    assert(all.take(index as int) =~= all);
    made
}

/// The writable mounts by path from `index` on; what cannot be inspected counts
/// as a directory.
pub open spec fn path_writable_from(
    list: Seq<Seq<u8>>,
    index: int,
    done: Seq<Mount>,
    log: Seq<Answer>,
    at: int,
) -> Course<Seq<Mount>>
    decreases list.len() - index,
{
    if index < 0 || index >= list.len() {
        Ok((done, at))
    } else {
        match flow::entry(Query::Inspect(list[index]), log, at) {
            Err(pause) => Err(pause),
            Ok((reply, at)) => path_writable_from(
                list,
                index + 1,
                done.push(
                    Mount {
                        source: Source::Path(list[index]),
                        destination: list[index],
                        kind: match reply {
                            Ok(stat) => writable_kind(stat.kind),
                            Err(_) => MountKind::Directory,
                        },
                    },
                ),
                log,
                at,
            ),
        }
    }
}

/// The kind of a writable path; what cannot be inspected counts as a directory.
pub fn writable_mount_kind(path: &PathText, log: &Vec<Answer>, at: usize) -> (kind: Flow<MountKind>)
    ensures
        flow::course(kind) == (match flow::entry(Query::Inspect(path@), log@, at as int) {
            Err(pause) => Err::<(MountKind, int), Pause>(pause),
            Ok((reply, at)) => Ok(
                (
                    match reply {
                        Ok(stat) => writable_kind(stat.kind),
                        Err(_) => MountKind::Directory,
                    },
                    at,
                ),
            ),
        }),
{
    let (reply, at) = flow::ask_entry(Question::Inspect(path.clone()), log, at)?;
    match reply {
        Ok(stat) => {
            if stat.is_dir() {
                Ok((MountKind::Directory, at))
            } else {
                Ok((MountKind::File, at))
            }
        },
        Err(_) => Ok((MountKind::Directory, at)),
    }
}

impl Model for MountKind {
    type M = MountKind;

    open spec fn model(&self) -> MountKind {
        *self
    }
}

fn list_path_writable(list: &Vec<PathText>, log: &Vec<Answer>, at: usize) -> (made: Flow<
    Vec<MountArgument>,
>)
    ensures
        flow::course(made) == path_writable_from(
            os::texts(list@),
            0,
            Seq::empty(),
            log@,
            at as int,
        ),
{
    let ghost all = os::texts(list@);
    let mut done: Vec<MountArgument> = Vec::new();
    let mut index: usize = 0;
    let mut used: usize = at;
    assert(bwrap::mounts(done@) =~= Seq::empty());
    while index < list.len()
        invariant
            index <= list.len(),
            all == os::texts(list@),
            path_writable_from(all, 0, Seq::empty(), log@, at as int) == path_writable_from(
                all,
                index as int,
                bwrap::mounts(done@),
                log@,
                used as int,
            ),
        decreases list.len() - index,
    {
        assert(all[index as int] == list[index as int]@);
        let (kind, next) = writable_mount_kind(&list[index], log, used)?;
        bwrap::push_mount(
            &mut done,
            MountArgument {
                source: MountSource::Path(list[index].clone()),
                destination: list[index].clone(),
                kind,
            },
        );
        used = next;
        index = index + 1;
    }
    Ok((done, used))
}

/// The mounts of a layout by path.
#[verifier::opaque]
pub open spec fn mounts_by_path(layout: Layout, log: Seq<Answer>, at: int) -> Course<Mounts> {
    match path_writable_from(layout.writable_paths, 0, Seq::empty(), log, at) {
        Err(pause) => Err(pause),
        Ok((writable, at)) => Ok(
            (
                Mounts {
                    runtime: path_mounts(layout.runtime_mounts, MountKind::Directory),
                    read_only: path_mounts(doubled(layout.read_only_paths), MountKind::Directory),
                    caches: path_mounts(
                        cache_pairs(layout.cargo_cache_paths),
                        MountKind::Directory,
                    ),
                    hidden_files: path_mounts(
                        null_pairs(
                            bwrap::hidden_files(
                                layout.hidden_paths,
                                layout.hidden_paths.len() as int,
                            ),
                        ),
                        MountKind::Special,
                    ),
                    writable,
                    launcher: Some(
                        Mount {
                            source: Source::Path(os::lit("/proc/self/exe")),
                            destination: os::lit(LAUNCHER_DESTINATION),
                            kind: MountKind::Executable,
                        },
                    ),
                },
                at,
            ),
        ),
    }
}

/// The mounts of a plan by path, for showing a command line without opening
/// anything.
pub fn path_mount_arguments(plan: &SandboxPlan, log: &Vec<Answer>, at: usize) -> (made: Flow<
    MountArguments,
>)
    requires
        caches_named(plan@.cargo_cache_paths),
    ensures
        flow::course(made) == mounts_by_path(plan@, log@, at as int),
{
    proof {
        reveal(mounts_by_path);
    }
    let (writable, at) = list_path_writable(&plan.writable_paths, log, at)?;
    let arguments = MountArguments {
        runtime: list_path_mounts(
            &list_runtime_pairs(&plan.runtime_mounts),
            MountKind::Directory,
        ),
        read_only: list_path_mounts(&double(&plan.read_only_paths), MountKind::Directory),
        caches: list_path_mounts(
            &list_cache_pairs(&plan.cargo_cache_paths),
            MountKind::Directory,
        ),
        hidden_files: list_path_mounts(
            &list_null_pairs(&bwrap::list_hidden_files(&plan.hidden_paths)),
            MountKind::Special,
        ),
        writable,
        launcher: Some(
            MountArgument {
                source: MountSource::Path(OsText::new("/proc/self/exe")),
                destination: OsText::new(LAUNCHER_DESTINATION),
                kind: MountKind::Executable,
            },
        ),
    };
    Ok((arguments, at))
}

// ---------------------------------------------------------------------------
// What opened mounts guarantee
// ---------------------------------------------------------------------------

proof fn lemma_writable_kinds(
    list: Seq<Seq<u8>>,
    index: int,
    done: Seq<Mount>,
    log: Seq<Answer>,
    at: int,
)
    requires
        0 <= index <= list.len(),
        bwrap::writable_kinds_fit(done),
        bwrap::destinations(done) == list.take(index),
        writable_from(list, index, done, log, at) is Ok,
    ensures
        bwrap::writable_kinds_fit(writable_from(list, index, done, log, at)->Ok_0.0),
        bwrap::destinations(writable_from(list, index, done, log, at)->Ok_0.0) == list,
    decreases list.len() - index,
{
    reveal(opened_mount);
    if index < list.len() {
        if let Ok((Ok(stat), next)) = flow::entry(Query::Inspect(list[index]), log, at) {
            if let Ok((mount, next)) = opened_mount(
                list[index],
                list[index],
                writable_kind(stat.kind),
                "writable mount"@,
                log,
                next,
            ) {
                assert(bwrap::destinations(done.push(mount)) =~= bwrap::destinations(done).push(
                    mount.destination,
                ));
                assert(list.take(index + 1) =~= list.take(index).push(list[index]));
                assert(mount.destination == list[index]);
                lemma_writable_kinds(list, index + 1, done.push(mount), log, next);
            }
        }
    } else {
        assert(list.take(index) =~= list);
    }
}

/// Opened mounts can always be turned into a command line: there is a launcher,
/// writable mounts are directories or files, and they are exactly the writable
/// paths of the plan.
pub proof fn opened_mounts_are_complete(
    layout: Layout,
    launcher: Seq<u8>,
    log: Seq<Answer>,
    at: int,
)
    requires
        prepared_mounts(layout, launcher, log, at) is Ok,
    ensures
        prepared_mounts(layout, launcher, log, at)->Ok_0.0.launcher is Some,
        bwrap::writable_kinds_fit(prepared_mounts(layout, launcher, log, at)->Ok_0.0.writable),
        bwrap::destinations(prepared_mounts(layout, launcher, log, at)->Ok_0.0.writable)
            == layout.writable_paths,
{
    reveal(prepared_mounts);
    assert(bwrap::destinations(Seq::<Mount>::empty()) =~= layout.writable_paths.take(0));
    assert forall|at: int| #[trigger]
        writable_from(layout.writable_paths, 0, Seq::empty(), log, at) is Ok implies {
        let made = writable_from(layout.writable_paths, 0, Seq::empty(), log, at)->Ok_0.0;
        bwrap::writable_kinds_fit(made) && bwrap::destinations(made) == layout.writable_paths
    } by {
        lemma_writable_kinds(layout.writable_paths, 0, Seq::empty(), log, at);
    }
}

/// The caches of a layout all have names.
pub proof fn planned_caches_have_names(job: Job, log: Seq<Answer>, at: int)
    requires
        plan::planned(job, log, at) is Ok,
    ensures
        caches_named(plan::planned(job, log, at)->Ok_0.0.cargo_cache_paths),
{
    reveal(plan::planned);
    assert forall|home: Option<Seq<u8>>, at: int|
        (#[trigger] plan::caches_from(
            plan::cache_candidates(home),
            0,
            Seq::empty(),
            log,
            at,
        )) is Ok implies caches_named(
        plan::caches_from(plan::cache_candidates(home), 0, Seq::empty(), log, at)->Ok_0.0,
    ) by {
        lemma_candidates_named(home);
        lemma_caches_named(plan::cache_candidates(home), 0, Seq::empty(), log, at);
    }
}

proof fn lemma_candidates_named(home: Option<Seq<u8>>)
    ensures
        caches_named(plan::cache_candidates(home)),
{
    if let Some(base) = home {
        reveal_strlit("registry");
        reveal_strlit("git");
        os::lemma_lit("registry");
        os::lemma_lit("git");
        assert(path::plain_name(os::lit("registry")));
        assert(path::plain_name(os::lit("git")));
        path::lemma_join_name(base, os::lit("registry"));
        path::lemma_join_name(base, os::lit("git"));
    }
}

proof fn lemma_caches_named(
    candidates: Seq<Seq<u8>>,
    index: int,
    done: Seq<Seq<u8>>,
    log: Seq<Answer>,
    at: int,
)
    requires
        caches_named(candidates),
        caches_named(done),
        0 <= index,
    ensures
        plan::caches_from(candidates, index, done, log, at) matches Ok((caches, _))
            ==> caches_named(caches),
    decreases candidates.len() - index,
{
    if index < candidates.len() {
        let cache = candidates[index];
        assert(caches_named(done.push(cache)));
        lemma_caches_named(candidates, index + 1, done, log, at + 1);
        lemma_caches_named(candidates, index + 1, done.push(cache), log, at + 1);
    }
}

// ---------------------------------------------------------------------------
// The marker of the launcher
// ---------------------------------------------------------------------------

pub const CONTEXT_TRANSFER_RULE: &'static str =
    "the launcher context descriptor must be transferable to Bubblewrap";

/// The descriptor of a marker file that has no name any more.
#[verifier::opaque]
pub open spec fn marker(log: Seq<Answer>, at: int) -> Course<i32> {
    match flow::place(Query::TemporaryDirectory, log, at) {
        Err(pause) => Err(pause),
        Ok((Err(failure), at)) => Err(
            flow::io_pause("could not determine the temporary directory"@, failure, at),
        ),
        Ok((Ok(directory), at)) => match flow::value(Query::FreshName, log, at) {
            Err(pause) => Err(pause),
            Ok((None, at)) => Err(
                flow::setup_pause(
                    os::lossy_text(directory),
                    "the launcher context must be created as a private regular file"@,
                    "make the system temporary directory writable and retry"@,
                    "no name for the launcher context is available"@,
                    at,
                ),
            ),
            Ok((Some(name), at)) => marker_file(
                path::join(directory, os::lit("cargo-cage-launcher-context-") + name),
                log,
                at,
            ),
        },
    }
}

/// The marker file at a path: created, written, made inheritable and unlinked.
#[verifier::opaque]
pub open spec fn marker_file(file: Seq<u8>, log: Seq<Answer>, at: int) -> Course<i32> {
    match flow::descriptor(Query::CreatePrivateFile(file), log, at) {
        Err(pause) => Err(pause),
        Ok((Err(failure), at)) => Err(
            flow::setup_pause(
                os::lossy_text(file),
                "the launcher context must be created as a private regular file"@,
                "make the system temporary directory writable and retry"@,
                "could not create the launcher context: "@ + failure.message,
                at,
            ),
        ),
        Ok((Ok(fd), at)) => match flow::done(
            Query::WriteDescriptor(fd, LAUNCHER_CONTEXT_CONTENT@),
            log,
            at,
        ) {
            Err(pause) => Err(pause),
            Ok((Err(failure), at)) => Err(
                flow::setup_pause(
                    os::lossy_text(file),
                    "the launcher context must contain the expected marker"@,
                    "retry with a working temporary filesystem"@,
                    "could not prepare the launcher context: "@ + failure.message,
                    at,
                ),
            ),
            Ok((Ok(_), at)) => match flow::flags(Query::DescriptorFlags(fd), log, at) {
                Err(pause) => Err(pause),
                Ok((Err(failure), at)) => Err(
                    flow::setup_pause(
                        os::lossy_text(file),
                        CONTEXT_TRANSFER_RULE@,
                        "use a working Linux fcntl implementation"@,
                        "could not inspect the launcher context descriptor: "@ + failure.message,
                        at,
                    ),
                ),
                Ok((Ok(bits), at)) => match flow::done(
                    Query::SetDescriptorFlags(fd, bits & !1u32),
                    log,
                    at,
                ) {
                    Err(pause) => Err(pause),
                    Ok((Err(failure), at)) => Err(
                        flow::setup_pause(
                            os::lossy_text(file),
                            CONTEXT_TRANSFER_RULE@,
                            "use a working Linux fcntl implementation"@,
                            "could not prepare the launcher context descriptor: "@
                                + failure.message,
                            at,
                        ),
                    ),
                    Ok((Ok(_), at)) => match flow::done(Query::RemoveFile(file), log, at) {
                        Err(pause) => Err(pause),
                        Ok((Err(failure), at)) => Err(
                            flow::setup_pause(
                                os::lossy_text(file),
                                "the launcher context source must not remain addressable by a host path"@,
                                "retry with a working temporary filesystem"@,
                                "could not unlink the temporary launcher context: "@
                                    + failure.message,
                                at,
                            ),
                        ),
                        Ok((Ok(_), at)) => Ok((fd, at)),
                    },
                },
            },
        },
    }
}

/// The marker that tells the launcher that it runs inside the sandbox.
#[derive(Debug)]
pub struct LauncherContext {
    pub descriptor: i32,
}

impl Model for LauncherContext {
    type M = i32;

    open spec fn model(&self) -> i32 {
        self.descriptor
    }
}

impl LauncherContext {
    /// Creates the marker as a private file without a name.
    pub fn new(log: &Vec<Answer>, at: usize) -> (context: Flow<LauncherContext>)
        ensures
            flow::course(context) == marker(log@, at as int),
    {
        proof {
            reveal(marker);
        }
        let (reply, at) = flow::ask_place(Question::TemporaryDirectory, log, at)?;
        let directory = match reply {
            Ok(directory) => directory,
            Err(failure) => {
                return Err(
                    flow::io_halt("could not determine the temporary directory", &failure, at),
                );
            },
        };
        let (name, at) = flow::ask_value(Question::FreshName, log, at)?;
        let name = match name {
            Some(name) => name,
            None => {
                return Err(
                    flow::setup_halt(
                        directory.display().as_str(),
                        "the launcher context must be created as a private regular file",
                        "make the system temporary directory writable and retry",
                        "no name for the launcher context is available",
                        at,
                    ),
                );
            },
        };
        let mut file_name = OsText::new("cargo-cage-launcher-context-");
        file_name.bytes.extend_from_slice(name.bytes.as_slice());
        assert(file_name@ =~= os::lit("cargo-cage-launcher-context-") + name@);
        Self::create(&directory.join(&file_name), log, at)
    }

    fn create(file: &PathText, log: &Vec<Answer>, at: usize) -> (context: Flow<LauncherContext>)
        ensures
            flow::course(context) == marker_file(file@, log@, at as int),
    {
        proof {
            reveal(marker_file);
        }
        let subject = file.display();
        let (reply, at) = flow::ask_descriptor(
            Question::CreatePrivateFile(file.clone()),
            log,
            at,
        )?;
        let fd: i32 = match reply {
            Ok(fd) => fd,
            Err(failure) => {
                let detail = text::owned("could not create the launcher context: ").with(
                    failure.message.as_str(),
                );
                return Err(
                    flow::setup_halt(
                        subject.as_str(),
                        "the launcher context must be created as a private regular file",
                        "make the system temporary directory writable and retry",
                        detail.as_str(),
                        at,
                    ),
                );
            },
        };
        let (reply, at) = flow::ask_done(
            Question::WriteDescriptor(fd, text::owned(LAUNCHER_CONTEXT_CONTENT)),
            log,
            at,
        )?;
        if let Err(failure) = reply {
            let detail = text::owned("could not prepare the launcher context: ").with(
                failure.message.as_str(),
            );
            return Err(
                flow::setup_halt(
                    subject.as_str(),
                    "the launcher context must contain the expected marker",
                    "retry with a working temporary filesystem",
                    detail.as_str(),
                    at,
                ),
            );
        }
        let (reply, at) = flow::ask_flags(Question::DescriptorFlags(fd), log, at)?;
        let bits: u32 = match reply {
            Ok(bits) => bits,
            Err(failure) => {
                let detail = text::owned("could not inspect the launcher context descriptor: ").with(
                    failure.message.as_str(),
                );
                return Err(
                    flow::setup_halt(
                        subject.as_str(),
                        CONTEXT_TRANSFER_RULE,
                        "use a working Linux fcntl implementation",
                        detail.as_str(),
                        at,
                    ),
                );
            },
        };
        let (reply, at) = flow::ask_done(
            Question::SetDescriptorFlags(fd, inheritable_flags(bits)),
            log,
            at,
        )?;
        if let Err(failure) = reply {
            let detail = text::owned("could not prepare the launcher context descriptor: ").with(
                failure.message.as_str(),
            );
            return Err(
                flow::setup_halt(
                    subject.as_str(),
                    CONTEXT_TRANSFER_RULE,
                    "use a working Linux fcntl implementation",
                    detail.as_str(),
                    at,
                ),
            );
        }
        let (reply, at) = flow::ask_done(Question::RemoveFile(file.clone()), log, at)?;
        if let Err(failure) = reply {
            let detail = text::owned("could not unlink the temporary launcher context: ").with(
                failure.message.as_str(),
            );
            return Err(
                flow::setup_halt(
                    subject.as_str(),
                    "the launcher context source must not remain addressable by a host path",
                    "retry with a working temporary filesystem",
                    detail.as_str(),
                    at,
                ),
            );
        }
        Ok((LauncherContext { descriptor: fd }, at))
    }

    pub fn raw_fd(&self) -> (fd: i32)
        ensures
            fd == self.descriptor,
    {
        self.descriptor
    }
}

} // verus!

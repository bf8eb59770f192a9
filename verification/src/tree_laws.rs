//! What a tree may hold that a sandbox shows.

use crate::flow;
use crate::flow::{Answer, Course, FileKind, Model, Query, Stat};
use crate::order;
use crate::os;
use crate::path;
use crate::plan::Layout;
use crate::scan;
use crate::talk;
use crate::tree;
use crate::tree::{Finding, Scanned, TreeKind};
use vstd::prelude::*;
use vstd::string::*;
use vstd::utf8::*;

verus! {

// ---------------------------------------------------------------------------
// Hardlinks
// ---------------------------------------------------------------------------

/// Whether a file that was found is the one with the given metadata.
pub open spec fn is_file(stat: Stat) -> spec_fn((Seq<u8>, Stat)) -> bool {
    |file: (Seq<u8>, Stat)| file.1.device == stat.device && file.1.inode == stat.inode
}

proof fn lemma_aliases(files: Seq<(Seq<u8>, Stat)>, stat: Stat, count: int)
    requires
        0 <= count <= files.len(),
    ensures
        tree::aliases(files, stat, count) == files.take(count).filter(is_file(stat)).len(),
    decreases count,
{
    reveal(Seq::filter);
    if count > 0 {
        lemma_aliases(files, stat, count - 1);
        let part = files.take(count);
        assert(part.drop_last() =~= files.take(count - 1));
        assert(part.last() == files[count - 1]);
    }
}

proof fn lemma_outside(files: Seq<(Seq<u8>, Stat)>, label: Seq<char>, index: int)
    requires
        0 <= index <= files.len(),
    ensures
        tree::outside_alias(files, label, index) is None <==> forall|i: int|
            index <= i < files.len() ==> (#[trigger] files[i]).1.links == files.filter(
                is_file(files[i].1),
            ).len(),
        tree::outside_alias(files, label, index) matches Some(fault) ==> fault is Policy,
    decreases files.len() - index,
{
    if index < files.len() {
        lemma_outside(files, label, index + 1);
        lemma_aliases(files, files[index].1, files.len() as int);
        assert(files.take(files.len() as int) =~= files);
    }
}

/// The files of a tree are accepted exactly if each has as many links as the
/// tree has names for it, so that none can be reached from outside.
pub proof fn files_are_accepted_if_all_their_names_are_found(
    files: Seq<(Seq<u8>, Stat)>,
    label: Seq<char>,
)
    ensures
        tree::outside_alias(files, label, 0) is None <==> forall|i: int|
            0 <= i < files.len() ==> (#[trigger] files[i]).1.links == files.filter(
                is_file(files[i].1),
            ).len(),
        tree::outside_alias(files, label, 0) matches Some(fault) ==> fault is Policy,
        files.len() == 1 ==> (tree::outside_alias(files, label, 0) is None <==> files[0].1.links
            == 1),
{
    lemma_outside(files, label, 0);
    if files.len() == 1 {
        lemma_outside(files, label, 1);
        reveal_with_fuel(tree::aliases, 2);
    }
}

// ---------------------------------------------------------------------------
// Mount tables
// ---------------------------------------------------------------------------

/// Whether a line of the mount table lets a tree be shown: an empty line, or one
/// whose fifth word names a mount point that is not inside the tree.
pub open spec fn harmless(line: Seq<char>, root: Seq<u8>) -> bool {
    line.len() == 0 || (scan::words(line).len() >= 5 && (tree::mount_point(
        scan::words(line)[4],
    ) matches Some(point) && (path::within(point, root) ==> path::same_path(point, root))))
}

proof fn lemma_harmless(
    lines: Seq<Seq<char>>,
    index: int,
    root: Seq<u8>,
    label: Seq<char>,
)
    requires
        0 <= index <= lines.len(),
    ensures
        tree::mount_conflict(lines, index, root, label) is None <==> forall|i: int|
            index <= i < lines.len() ==> harmless(#[trigger] lines[i], root),
        tree::mount_conflict(lines, index, root, label) matches Some(fault) ==> fault is Policy,
    decreases lines.len() - index,
{
    if index < lines.len() {
        lemma_harmless(lines, index + 1, root, label);
    }
}

/// The mount table is read, and a tree is accepted exactly if every line of the
/// table is harmless to it.
pub proof fn trees_hold_no_mounts(
    root: Seq<u8>,
    label: Seq<char>,
    log: Seq<Answer>,
    at: int,
)
    ensures
        ({
            let course = tree::unmounted(root, label, log, at);
            &&& talk::silent(log, at) ==> talk::asks(
                course,
                Query::ReadText(os::lit("/proc/self/mountinfo")),
            )
            &&& flow::given(log, at) matches Some(Answer::Content(Err(_))) ==> talk::breaks(course)
            &&& flow::given(log, at) matches Some(Answer::Content(Ok(table))) ==> {
                let lines = scan::lines(table@);
                let fine = forall|i: int|
                    0 <= i < lines.len() ==> harmless(#[trigger] lines[i], root);
                &&& fine ==> talk::gives(course, (), at + 1)
                &&& !fine ==> talk::refuses(course)
            }
        }),
{
    reveal(tree::unmounted);
    if let Some(Answer::Content(Ok(table))) = flow::given(log, at) {
        lemma_harmless(scan::lines(table@), 0, root, label);
    }
}

/// How a byte is spelled in the mount table when it needs to be escaped.
pub open spec fn escaped(byte: u8) -> Seq<u8> {
    seq![
        92u8,
        (48 + byte / 64) as u8,
        (48 + (byte / 8) % 8) as u8,
        (48 + byte % 8) as u8,
    ]
}

/// An escaped byte stands for itself wherever it comes; a backslash without
/// three digits is an error, and every other byte stands for itself.
pub proof fn escaped_bytes_are_read_back(bytes: Seq<u8>, index: int, before: Seq<u8>, byte: u8)
    requires
        0 <= index < bytes.len(),
    ensures
        bytes[index] != 92 ==> tree::unescaped_from(bytes, index, before) == tree::unescaped_from(
            bytes,
            index + 1,
            before.push(bytes[index]),
        ),
        index + 4 <= bytes.len() && bytes.subrange(index, index + 4) == escaped(byte)
            ==> tree::unescaped_from(bytes, index, before) == tree::unescaped_from(
            bytes,
            index + 4,
            before.push(byte),
        ),
        bytes[index] == 92 && index + 3 >= bytes.len() ==> tree::unescaped_from(
            bytes,
            index,
            before,
        ) is None,
        bytes[index] == 92 && index + 3 < bytes.len() && !(forall|i: int|
            index < i <= index + 3 ==> 48 <= #[trigger] bytes[i] <= 55) ==> tree::unescaped_from(
            bytes,
            index,
            before,
        ) is None,
        tree::unescaped_from(bytes, bytes.len() as int, before) == Some(before),
{
    if index + 4 <= bytes.len() && bytes.subrange(index, index + 4) == escaped(byte) {
        let part = bytes.subrange(index, index + 4);
        assert(part[0] == bytes[index]);
        assert(part[1] == bytes[index + 1]);
        assert(part[2] == bytes[index + 2]);
        assert(part[3] == bytes[index + 3]);
        assert(byte / 64 <= 3);
        assert((byte / 8) % 8 <= 7);
        assert(byte % 8 <= 7);
        assert((byte / 64) * 64 + ((byte / 8) % 8) * 8 + byte % 8 == byte);
    }
}

// ---------------------------------------------------------------------------
// Entries
// ---------------------------------------------------------------------------

/// What may be in a tree: regular files and directories. Symlinks may be in a
/// read-only tree if they lead into it, and are passed over there. What is left
/// out is not looked at.
pub proof fn trees_hold_files_and_directories(
    kind: TreeKind,
    root: Seq<u8>,
    excluded: Seq<Seq<u8>>,
    place: Seq<u8>,
    log: Seq<Answer>,
    at: int,
    destination: Seq<u8>,
)
    requires
        0 <= at,
    ensures
        ({
            let course = tree::inspected(kind, root, excluded, place, log, at);
            let out = exists|i: int|
                0 <= i < excluded.len() && (path::same_path(place, #[trigger] excluded[i])
                    || path::within(place, excluded[i]));
            &&& out ==> talk::gives(course, Finding::Skipped, at)
            &&& !out ==> {
                &&& talk::silent(log, at) ==> talk::asks(course, Query::Inspect(place))
                &&& talk::missing(log, at) || talk::unreadable(log, at) ==> talk::cannot_set_up(
                    course,
                )
                &&& talk::shows(log, at, FileKind::Directory) ==> talk::gives(
                    course,
                    Finding::Directory,
                    at + 1,
                )
                &&& flow::given(log, at) matches Some(Answer::Entry(Ok(stat))) ==> (stat.kind
                    == FileKind::File ==> talk::gives(course, Finding::File(stat), at + 1))
                &&& talk::shows(log, at, FileKind::CharDevice) || talk::shows(
                    log,
                    at,
                    FileKind::Other,
                ) ==> talk::refuses(course)
                &&& talk::shows(log, at, FileKind::Symlink) && kind != TreeKind::ReadOnly
                    ==> talk::refuses(course)
                &&& talk::shows(log, at, FileKind::Symlink) && kind == TreeKind::ReadOnly ==> {
                    &&& talk::silent(log, at + 1) ==> talk::asks(course, Query::Resolve(place))
                    &&& talk::nowhere(log, at + 1) ==> talk::cannot_set_up(course)
                    &&& talk::leads(log, at + 1, destination) && path::within(destination, root)
                        ==> talk::gives(course, Finding::Skipped, at + 2)
                    &&& talk::leads(log, at + 1, destination) && !path::within(destination, root)
                        ==> talk::refuses(course)
                }
            }
        }),
{
    reveal(tree::inspected);
}

/// A directory is read, and each of its names is looked at below it, in order: a
/// directory is kept to be read later, a file is kept with its metadata.
pub proof fn directories_are_read_to_their_end(
    kind: TreeKind,
    root: Seq<u8>,
    excluded: Seq<Seq<u8>>,
    directory: Seq<u8>,
    state: Scanned,
    log: Seq<Answer>,
    at: int,
)
    ensures
        ({
            let course = tree::directory_scanned(kind, root, excluded, directory, state, log, at);
            &&& talk::silent(log, at) ==> talk::asks(course, Query::ReadDirectory(directory))
            &&& flow::given(log, at) matches Some(Answer::Names(Err(_))) ==> talk::cannot_set_up(
                course,
            )
            &&& flow::given(log, at) matches Some(Answer::Names(Ok(list))) ==> {
                let walked = tree::names_from(
                    kind,
                    root,
                    excluded,
                    directory,
                    list.model().names,
                    0,
                    state,
                    log,
                    at + 1,
                );
                &&& walked matches Err(pause) ==> talk::pauses(course, pause)
                &&& walked matches Ok((now, next)) ==> if list.model().failure is Some {
                    talk::cannot_set_up(course)
                } else {
                    talk::gives(course, now, next)
                }
            }
        }),
{
    reveal(tree::directory_scanned);
}

/// Whether a name of a directory was looked at, and what it turned out to be is
/// kept.
pub open spec fn kept(
    kind: TreeKind,
    root: Seq<u8>,
    excluded: Seq<Seq<u8>>,
    place: Seq<u8>,
    state: Scanned,
    log: Seq<Answer>,
) -> bool {
    exists|at: int|
        held(place, #[trigger] tree::inspected(kind, root, excluded, place, log, at), state)
}

/// Whether what was found at a place is kept.
pub open spec fn held(place: Seq<u8>, found: Course<Finding>, state: Scanned) -> bool {
    match found {
        Err(_) => false,
        Ok((Finding::Skipped, _)) => true,
        Ok((Finding::Directory, _)) => state.directories.contains(place),
        Ok((Finding::File(stat), _)) => state.files.contains((place, stat)),
    }
}

proof fn lemma_held_on(place: Seq<u8>, found: Course<Finding>, state: Scanned, other: Seq<u8>, more: Finding)
    requires
        held(place, found, state),
    ensures
        held(place, found, state.with(other, more)),
{
    let after = state.with(other, more);
    match found {
        Ok((Finding::Directory, _)) => {
            let k = choose|k: int| 0 <= k < state.directories.len() && state.directories[k] == place;
            assert(after.directories[k] == place);
        },
        Ok((Finding::File(stat), _)) => {
            let k = choose|k: int| 0 <= k < state.files.len() && state.files[k] == (place, stat);
            assert(after.files[k] == (place, stat));
        },
        _ => {},
    }
}

/// No name of a directory is forgotten: each is looked at, and what is a
/// directory or a file is kept.
pub proof fn no_name_is_forgotten(
    kind: TreeKind,
    root: Seq<u8>,
    excluded: Seq<Seq<u8>>,
    directory: Seq<u8>,
    names: Seq<Seq<u8>>,
    index: int,
    state: Scanned,
    log: Seq<Answer>,
    at: int,
)
    requires
        0 <= index <= names.len(),
        forall|i: int|
            0 <= i < index ==> kept(
                kind,
                root,
                excluded,
                path::join(directory, #[trigger] names[i]),
                state,
                log,
            ),
    ensures
        tree::names_from(
            kind,
            root,
            excluded,
            directory,
            names,
            index,
            state,
            log,
            at,
        ) matches Ok((after, _)) ==> forall|i: int|
            0 <= i < names.len() ==> kept(
                kind,
                root,
                excluded,
                path::join(directory, #[trigger] names[i]),
                after,
                log,
            ),
        index < names.len() ==> (tree::inspected(
            kind,
            root,
            excluded,
            path::join(directory, names[index]),
            log,
            at,
        ) matches Err(pause) ==> talk::pauses(
            tree::names_from(kind, root, excluded, directory, names, index, state, log, at),
            pause,
        )),
    decreases names.len() - index,
{
    if index < names.len() {
        let place = path::join(directory, names[index]);
        let found = tree::inspected(kind, root, excluded, place, log, at);
        if let Ok((finding, next)) = found {
            let after = state.with(place, finding);
            match finding {
                Finding::Directory => {
                    assert(after.directories[after.directories.len() - 1] == place);
                },
                Finding::File(stat) => {
                    assert(after.files[after.files.len() - 1] == (place, stat));
                },
                _ => {},
            }
            assert(held(place, found, after));
            assert forall|i: int| 0 <= i < index + 1 implies kept(
                kind,
                root,
                excluded,
                path::join(directory, #[trigger] names[i]),
                after,
                log,
            ) by {
                let other = path::join(directory, names[i]);
                if i < index {
                    assert(kept(kind, root, excluded, other, state, log));
                    let here = choose|here: int|
                        held(
                            other,
                            #[trigger] tree::inspected(kind, root, excluded, other, log, here),
                            state,
                        );
                    lemma_held_on(
                        other,
                        tree::inspected(kind, root, excluded, other, log, here),
                        state,
                        place,
                        finding,
                    );
                } else {
                    assert(held(
                        other,
                        tree::inspected(kind, root, excluded, other, log, at),
                        after,
                    ));
                }
            }
            no_name_is_forgotten(
                kind,
                root,
                excluded,
                directory,
                names,
                index + 1,
                after,
                log,
                next,
            );
        }
    }
}

/// A walk reads the directory that was found last, and ends when none is left.
pub proof fn walks_end_when_no_directory_is_left(
    kind: TreeKind,
    root: Seq<u8>,
    excluded: Seq<Seq<u8>>,
    state: Scanned,
    log: Seq<Answer>,
    at: int,
)
    ensures
        ({
            let course = tree::scanned_from(kind, root, excluded, state, log, at);
            &&& state.directories.len() == 0 ==> talk::gives(course, state.files, at)
            &&& state.directories.len() > 0 ==> match tree::directory_scanned(
                kind,
                root,
                excluded,
                state.directories.last(),
                Scanned { directories: state.directories.drop_last(), files: state.files },
                log,
                at,
            ) {
                Err(pause) => talk::pauses(course, pause),
                Ok((now, next)) => course == tree::scanned_from(
                    kind,
                    root,
                    excluded,
                    now,
                    log,
                    next,
                ),
            }
        }),
{
    let rest = Scanned { directories: state.directories.drop_last(), files: state.files };
    if state.directories.len() > 0 {
        tree::lemma_directory_advances(
            kind,
            root,
            excluded,
            state.directories.last(),
            rest,
            log,
            at,
        );
    }
}

/// What the root of a tree may be: a directory, or a single file where the tree
/// is writable.
pub proof fn roots_are_real(
    root: Seq<u8>,
    kind: TreeKind,
    excluded: Seq<Seq<u8>>,
    log: Seq<Answer>,
    at: int,
)
    requires
        0 <= at,
    ensures
        ({
            let course = tree::sound_tree(root, kind, excluded, log, at);
            &&& talk::silent(log, at) ==> talk::asks(course, Query::Inspect(root))
            &&& talk::missing(log, at) || talk::unreadable(log, at) ==> talk::cannot_set_up(course)
            &&& talk::shows(log, at, FileKind::Symlink) || talk::shows(
                log,
                at,
                FileKind::CharDevice,
            ) || talk::shows(log, at, FileKind::Other) ==> talk::refuses(course)
            &&& talk::shows(log, at, FileKind::File) && kind != TreeKind::Writable
                ==> talk::refuses(course)
            &&& flow::given(log, at) matches Some(Answer::Entry(Ok(stat))) ==> (stat.kind
                == FileKind::File && kind == TreeKind::Writable ==> if stat.links == 1 {
                talk::gives(course, (), at + 1)
            } else {
                talk::refuses(course)
            })
            &&& talk::shows(log, at, FileKind::Directory) ==> course == tree::sound_directory(
                root,
                kind,
                excluded,
                log,
                at + 1,
            )
        }),
{
    reveal(tree::sound_tree);
    if let Some(Answer::Entry(Ok(stat))) = flow::given(log, at) {
        files_are_accepted_if_all_their_names_are_found(seq![(root, stat)], kind.name());
    }
}

/// A directory is sound if nothing is mounted in it, the walk through it comes
/// to its end, and no file that it found can be reached from outside.
pub proof fn directories_are_sound_to_their_last_file(
    root: Seq<u8>,
    kind: TreeKind,
    excluded: Seq<Seq<u8>>,
    log: Seq<Answer>,
    at: int,
)
    ensures
        ({
            let course = tree::sound_directory(root, kind, excluded, log, at);
            match tree::unmounted(root, kind.name(), log, at) {
                Err(pause) => talk::pauses(course, pause),
                Ok((_, next)) => match tree::scanned_from(
                    kind,
                    root,
                    excluded,
                    Scanned { directories: seq![root], files: Seq::empty() },
                    log,
                    next,
                ) {
                    Err(pause) => talk::pauses(course, pause),
                    Ok((files, last)) => {
                        let inside = forall|i: int|
                            0 <= i < files.len() ==> (#[trigger] files[i]).1.links == files.filter(
                                is_file(files[i].1),
                            ).len();
                        &&& inside ==> talk::gives(course, (), last)
                        &&& !inside ==> talk::refuses(course)
                    },
                },
            }
        }),
{
    reveal(tree::sound_directory);
    if let Ok((_, next)) = tree::unmounted(root, kind.name(), log, at) {
        if let Ok((files, _)) = tree::scanned_from(
            kind,
            root,
            excluded,
            Scanned { directories: seq![root], files: Seq::empty() },
            log,
            next,
        ) {
            files_are_accepted_if_all_their_names_are_found(files, kind.name());
        }
    }
}

// ---------------------------------------------------------------------------
// Layouts
// ---------------------------------------------------------------------------

/// The trees of a layout are its caches, its read-only paths without those
/// below others, and its writable paths, each as what it is; and only read-only
/// trees leave the writable paths out.
pub proof fn every_tree_of_a_layout_is_checked(layout: Layout, writable: Seq<Seq<u8>>)
    ensures
        forall|i: int|
            0 <= i < layout.cargo_cache_paths.len() ==> tree::plan_trees(layout).contains(
                (TreeKind::Cache, #[trigger] layout.cargo_cache_paths[i]),
            ),
        forall|i: int|
            0 <= i < order::unique_roots(layout.read_only_paths).len() ==> tree::plan_trees(
                layout,
            ).contains(
                (TreeKind::ReadOnly, #[trigger] order::unique_roots(layout.read_only_paths)[i]),
            ),
        forall|i: int|
            0 <= i < layout.writable_paths.len() ==> tree::plan_trees(layout).contains(
                (TreeKind::Writable, #[trigger] layout.writable_paths[i]),
            ),
        tree::left_out(TreeKind::ReadOnly, writable) == writable,
        tree::left_out(TreeKind::Writable, writable).len() == 0,
        tree::left_out(TreeKind::Cache, writable).len() == 0,
{
    let all = tree::plan_trees(layout);
    let caches = layout.cargo_cache_paths;
    let roots = order::unique_roots(layout.read_only_paths);
    assert forall|i: int| 0 <= i < caches.len() implies all.contains(
        (TreeKind::Cache, #[trigger] caches[i]),
    ) by {
        assert(all[i] == (TreeKind::Cache, caches[i]));
    }
    assert forall|i: int| 0 <= i < roots.len() implies all.contains(
        (TreeKind::ReadOnly, #[trigger] roots[i]),
    ) by {
        assert(all[caches.len() + i] == (TreeKind::ReadOnly, roots[i]));
    }
    assert forall|i: int| 0 <= i < layout.writable_paths.len() implies all.contains(
        (TreeKind::Writable, #[trigger] layout.writable_paths[i]),
    ) by {
        assert(all[caches.len() + roots.len() + i] == (
            TreeKind::Writable,
            layout.writable_paths[i],
        ));
    }
}

/// Whether a tree was checked and is sound.
pub open spec fn sound(
    item: (TreeKind, Seq<u8>),
    writable: Seq<Seq<u8>>,
    log: Seq<Answer>,
) -> bool {
    exists|at: int|
        (#[trigger] tree::sound_tree(
            item.1,
            item.0,
            tree::left_out(item.0, writable),
            log,
            at,
        )) is Ok
}

/// Trees are accepted only if each of them is sound.
pub proof fn accepted_trees_are_all_sound(
    trees: Seq<(TreeKind, Seq<u8>)>,
    writable: Seq<Seq<u8>>,
    index: int,
    log: Seq<Answer>,
    at: int,
)
    requires
        0 <= index <= trees.len(),
        forall|i: int| 0 <= i < index ==> sound(#[trigger] trees[i], writable, log),
    ensures
        tree::sound_from(trees, writable, index, log, at) is Ok ==> forall|i: int|
            0 <= i < trees.len() ==> sound(#[trigger] trees[i], writable, log),
        index < trees.len() ==> (tree::sound_tree(
            trees[index].1,
            trees[index].0,
            tree::left_out(trees[index].0, writable),
            log,
            at,
        ) matches Err(pause) ==> talk::pauses(
            tree::sound_from(trees, writable, index, log, at),
            pause,
        )),
    decreases trees.len() - index,
{
    if index < trees.len() {
        if let Ok((_, next)) = tree::sound_tree(
            trees[index].1,
            trees[index].0,
            tree::left_out(trees[index].0, writable),
            log,
            at,
        ) {
            assert(sound(trees[index], writable, log));
            accepted_trees_are_all_sound(trees, writable, index + 1, log, next);
        }
    }
}

} // verus!

//! Which programs a sandboxed request can start.

use crate::backend::{Job, OutputMode};
use crate::bubblewrap;
use crate::bubblewrap::Backend;
use crate::bwrap::{Mount, MountKind};
use crate::capture;
use crate::capture::{CapturedRun, Ended, Watch};
use crate::cgroup;
use crate::cgroup::{Group, GroupPlace};
use crate::budget::EffectiveResourceLimits;
use crate::error::IoFault;
use crate::flow;
use crate::flow::{Answer, Child, Course, Pause, Query, Timer};
use crate::mounts;
use crate::path;
use crate::plan;
use crate::plan::{Layout, Mask};
use crate::policy::ResourceLimits;
use crate::tree;
use crate::tree::{Scanned, TreeKind};
use crate::walk;
use vstd::prelude::*;

verus! {

/// Whether the next question, if there is one, starts no program.
pub open spec fn quiet<M>(course: Course<M>) -> bool {
    course matches Err(Pause::Ask(query)) ==> !query.starts_program()
}

/// Whether the next question, if there is one, starts no program but one.
pub open spec fn starts_only<M>(course: Course<M>, program: Seq<u8>) -> bool {
    course matches Err(Pause::Ask(query)) ==> (query.starts_program() ==> query is Spawn
        && query->Spawn_0.program == program)
}

proof fn existing_from_quiet(path: Seq<u8>, label: Seq<char>, index: int, log: Seq<Answer>, at: int)
    ensures
        quiet(walk::existing_from(path, label, index, log, at)),
    decreases path::parts(path).len() - index,
{
    if 0 <= index < path::parts(path).len() {
        existing_from_quiet(path, label, index + 1, log, at + 1);
    }
}

proof fn walks_quiet()
    ensures
        forall|path: Seq<u8>, label: Seq<char>, log: Seq<Answer>, at: int|
            quiet(#[trigger] walk::existing(path, label, log, at)),
{
    assert forall|path: Seq<u8>, label: Seq<char>, log: Seq<Answer>, at: int|
        quiet(#[trigger] walk::existing(path, label, log, at)) by {
        reveal(walk::existing);
        existing_from_quiet(path, label, 0, log, at);
    }
}

proof fn unlinked_from_quiet(path: Seq<u8>, label: Seq<char>, index: int, log: Seq<Answer>, at: int)
    ensures
        quiet(plan::unlinked_from(path, label, index, log, at)),
    decreases path::parts(path).len() - index,
{
    if 0 <= index < path::parts(path).len() {
        unlinked_from_quiet(path, label, index + 1, log, at + 1);
    }
}

proof fn directories_quiet()
    ensures
        forall|path: Seq<u8>, label: Seq<char>, log: Seq<Answer>, at: int|
            quiet(#[trigger] plan::existing_directory(path, label, log, at)),
        forall|path: Seq<u8>, log: Seq<Answer>, at: int|
            quiet(#[trigger] plan::mask_of(path, log, at)),
        forall|log: Seq<Answer>, at: int| quiet(#[trigger] plan::shell_present(log, at)),
        forall|log: Seq<Answer>, at: int| quiet(#[trigger] plan::cargo_home(log, at)),
{
    assert forall|path: Seq<u8>, label: Seq<char>, log: Seq<Answer>, at: int|
        quiet(#[trigger] plan::existing_directory(path, label, log, at)) by {
        reveal(plan::existing_directory);
    }
    assert forall|path: Seq<u8>, log: Seq<Answer>, at: int|
        quiet(#[trigger] plan::mask_of(path, log, at)) by {
        reveal(plan::mask_of);
    }
    assert forall|log: Seq<Answer>, at: int| quiet(#[trigger] plan::shell_present(log, at)) by {
        reveal(plan::shell_present);
    }
    assert forall|log: Seq<Answer>, at: int| quiet(#[trigger] plan::cargo_home(log, at)) by {
        reveal(plan::cargo_home);
    }
}

proof fn directories_from_quiet(
    list: Seq<Seq<u8>>,
    label: Seq<char>,
    index: int,
    done: Seq<Seq<u8>>,
    log: Seq<Answer>,
    at: int,
)
    ensures
        quiet(plan::directories_from(list, label, index, done, log, at)),
    decreases list.len() - index,
{
    directories_quiet();
    if 0 <= index < list.len() {
        if let Ok((canonical, next)) = plan::existing_directory(list[index], label, log, at) {
            directories_from_quiet(list, label, index + 1, done.push(canonical), log, next);
        }
    }
}

proof fn paths_from_quiet(
    list: Seq<Seq<u8>>,
    label: Seq<char>,
    index: int,
    done: Seq<Seq<u8>>,
    log: Seq<Answer>,
    at: int,
)
    ensures
        quiet(plan::paths_from(list, label, index, done, log, at)),
    decreases list.len() - index,
{
    if 0 <= index < list.len() {
        unlinked_from_quiet(list[index], label, 0, log, at);
        if let Ok((canonical, next)) = plan::unlinked_from(list[index], label, 0, log, at) {
            paths_from_quiet(list, label, index + 1, done.push(canonical), log, next);
        }
    }
}

proof fn masks_from_quiet(
    list: Seq<Seq<u8>>,
    index: int,
    private: Seq<Seq<u8>>,
    visible: Seq<Seq<u8>>,
    done: Seq<Mask>,
    log: Seq<Answer>,
    at: int,
)
    ensures
        quiet(plan::masks_from(list, index, private, visible, done, log, at)),
    decreases list.len() - index,
{
    directories_quiet();
    if 0 <= index < list.len() {
        if let Ok((mask, next)) = plan::mask_of(list[index], log, at) {
            masks_from_quiet(list, index + 1, private, visible, done, log, next);
            if let Some(found) = mask {
                masks_from_quiet(list, index + 1, private, visible, done.push(found), log, next);
            }
        }
    }
}

proof fn caches_from_quiet(
    candidates: Seq<Seq<u8>>,
    index: int,
    done: Seq<Seq<u8>>,
    log: Seq<Answer>,
    at: int,
)
    ensures
        quiet(plan::caches_from(candidates, index, done, log, at)),
    decreases candidates.len() - index,
{
    if 0 <= index < candidates.len() {
        caches_from_quiet(candidates, index + 1, done, log, at + 1);
        caches_from_quiet(candidates, index + 1, done.push(candidates[index]), log, at + 1);
    }
}

proof fn runtime_from_quiet(index: int, done: Seq<(Seq<u8>, Seq<u8>)>, log: Seq<Answer>, at: int)
    ensures
        quiet(plan::runtime_from(index, done, log, at)),
    decreases plan::runtime_places().len() - index,
{
    if 0 <= index < plan::runtime_places().len() {
        let place = plan::runtime_places()[index];
        runtime_from_quiet(index + 1, done, log, at + 1);
        if let Ok((Ok(canonical), _)) = flow::place(Query::Resolve(place), log, at) {
            runtime_from_quiet(index + 1, done.push((canonical, place)), log, at + 1);
        }
    }
}

proof fn grounds_quiet()
    ensures
        forall|job: Job, log: Seq<Answer>, at: int| quiet(#[trigger] plan::grounded(job, log, at)),
{
    directories_quiet();
    assert forall|job: Job, log: Seq<Answer>, at: int|
        quiet(#[trigger] plan::grounded(job, log, at)) by {
        reveal(plan::grounded);
        assert forall|list: Seq<Seq<u8>>, label: Seq<char>, at: int| quiet(
            #[trigger] plan::paths_from(list, label, 0, Seq::empty(), log, at),
        ) by {
            paths_from_quiet(list, label, 0, Seq::empty(), log, at);
        }
        assert forall|list: Seq<Seq<u8>>, label: Seq<char>, at: int| quiet(
            #[trigger] plan::directories_from(list, label, 0, Seq::empty(), log, at),
        ) by {
            directories_from_quiet(list, label, 0, Seq::empty(), log, at);
        }
        assert forall|list: Seq<Seq<u8>>, private: Seq<Seq<u8>>, visible: Seq<Seq<u8>>, at: int|
            quiet(
                #[trigger] plan::masks_from(list, 0, private, visible, Seq::empty(), log, at),
            ) by {
            masks_from_quiet(list, 0, private, visible, Seq::empty(), log, at);
        }
    }
}

proof fn plans_quiet()
    ensures
        forall|job: Job, log: Seq<Answer>, at: int| quiet(#[trigger] plan::planned(job, log, at)),
{
    directories_quiet();
    grounds_quiet();
    assert forall|job: Job, log: Seq<Answer>, at: int|
        quiet(#[trigger] plan::planned(job, log, at)) by {
        reveal(plan::planned);
        assert forall|candidates: Seq<Seq<u8>>, at: int| quiet(
            #[trigger] plan::caches_from(candidates, 0, Seq::empty(), log, at),
        ) by {
            caches_from_quiet(candidates, 0, Seq::empty(), log, at);
        }
        assert forall|at: int| quiet(#[trigger] plan::runtime_from(0, Seq::empty(), log, at)) by {
            runtime_from_quiet(0, Seq::empty(), log, at);
        }
    }
}

proof fn names_from_quiet(
    kind: TreeKind,
    root: Seq<u8>,
    excluded: Seq<Seq<u8>>,
    directory: Seq<u8>,
    names: Seq<Seq<u8>>,
    index: int,
    state: Scanned,
    log: Seq<Answer>,
    at: int,
)
    ensures
        quiet(tree::names_from(kind, root, excluded, directory, names, index, state, log, at)),
    decreases names.len() - index,
{
    if 0 <= index < names.len() {
        let path = path::join(directory, names[index]);
        reveal(tree::inspected);
        if let Ok((finding, next)) = tree::inspected(kind, root, excluded, path, log, at) {
            names_from_quiet(
                kind,
                root,
                excluded,
                directory,
                names,
                index + 1,
                state.with(path, finding),
                log,
                next,
            );
        }
    }
}

proof fn scanned_from_quiet(
    kind: TreeKind,
    root: Seq<u8>,
    excluded: Seq<Seq<u8>>,
    state: Scanned,
    log: Seq<Answer>,
    at: int,
)
    ensures
        quiet(tree::scanned_from(kind, root, excluded, state, log, at)),
    decreases log.len() - at,
{
    if state.directories.len() > 0 {
        let rest = Scanned { directories: state.directories.drop_last(), ..state };
        let directory = state.directories.last();
        reveal(tree::directory_scanned);
        if let Ok((Ok(list), next)) = flow::names(Query::ReadDirectory(directory), log, at) {
            names_from_quiet(kind, root, excluded, directory, list.names, 0, rest, log, next);
        }
        tree::lemma_directory_advances(kind, root, excluded, directory, rest, log, at);
        if let Ok((now, next)) = tree::directory_scanned(
            kind,
            root,
            excluded,
            directory,
            rest,
            log,
            at,
        ) {
            scanned_from_quiet(kind, root, excluded, now, log, next);
        }
    }
}

proof fn trees_quiet()
    ensures
        forall|root: Seq<u8>, kind: TreeKind, excluded: Seq<Seq<u8>>, log: Seq<Answer>, at: int|
            quiet(#[trigger] tree::sound_tree(root, kind, excluded, log, at)),
{
    assert forall|root: Seq<u8>, kind: TreeKind, excluded: Seq<Seq<u8>>, log: Seq<Answer>, at: int|
        quiet(#[trigger] tree::sound_tree(root, kind, excluded, log, at)) by {
        reveal(tree::sound_tree);
        reveal(tree::sound_directory);
        reveal(tree::unmounted);
        assert forall|state: Scanned, at: int| quiet(
            #[trigger] tree::scanned_from(kind, root, excluded, state, log, at),
        ) by {
            scanned_from_quiet(kind, root, excluded, state, log, at);
        }
    }
}

proof fn sound_from_quiet(
    trees: Seq<(TreeKind, Seq<u8>)>,
    writable: Seq<Seq<u8>>,
    index: int,
    log: Seq<Answer>,
    at: int,
)
    ensures
        quiet(tree::sound_from(trees, writable, index, log, at)),
    decreases trees.len() - index,
{
    trees_quiet();
    if 0 <= index < trees.len() {
        if let Ok((_, next)) = tree::sound_tree(
            trees[index].1,
            trees[index].0,
            tree::left_out(trees[index].0, writable),
            log,
            at,
        ) {
            sound_from_quiet(trees, writable, index + 1, log, next);
        }
    }
}

proof fn markers_from_quiet(index: int, done: Seq<Seq<u8>>, log: Seq<Answer>, at: int)
    ensures
        quiet(bubblewrap::markers_from(index, done, log, at)),
    decreases bubblewrap::namespace_names().len() - index,
{
    if 0 <= index < bubblewrap::namespace_names().len() {
        if let Ok((marker, next)) = bubblewrap::namespace_marker(
            bubblewrap::namespace_names()[index],
            log,
            at,
        ) {
            markers_from_quiet(index + 1, done.push(marker), log, next);
        }
    }
}

proof fn mount_parts_quiet()
    ensures
        forall|source: Seq<u8>, label: Seq<char>, log: Seq<Answer>, at: int|
            quiet(#[trigger] mounts::opened_source(source, label, log, at)),
        forall|
            fd: i32,
            kind: MountKind,
            source: Seq<u8>,
            label: Seq<char>,
            log: Seq<Answer>,
            at: int,
        |
            quiet(#[trigger] mounts::checked_kind(fd, kind, source, label, log, at)),
        forall|file: Seq<u8>, log: Seq<Answer>, at: int|
            quiet(#[trigger] mounts::marker_file(file, log, at)),
{
    assert forall|source: Seq<u8>, label: Seq<char>, log: Seq<Answer>, at: int|
        quiet(#[trigger] mounts::opened_source(source, label, log, at)) by {
        reveal(mounts::opened_source);
    }
    assert forall|
        fd: i32,
        kind: MountKind,
        source: Seq<u8>,
        label: Seq<char>,
        log: Seq<Answer>,
        at: int,
    |
        quiet(#[trigger] mounts::checked_kind(fd, kind, source, label, log, at)) by {
        reveal(mounts::checked_kind);
    }
    assert forall|file: Seq<u8>, log: Seq<Answer>, at: int|
        quiet(#[trigger] mounts::marker_file(file, log, at)) by {
        reveal(mounts::marker_file);
    }
}

proof fn single_mounts_quiet()
    ensures
        forall|
            source: Seq<u8>,
            destination: Seq<u8>,
            kind: MountKind,
            label: Seq<char>,
            log: Seq<Answer>,
            at: int,
        |
            quiet(#[trigger] mounts::opened_mount(source, destination, kind, label, log, at)),
        forall|log: Seq<Answer>, at: int| quiet(#[trigger] mounts::marker(log, at)),
{
    mount_parts_quiet();
    assert forall|
        source: Seq<u8>,
        destination: Seq<u8>,
        kind: MountKind,
        label: Seq<char>,
        log: Seq<Answer>,
        at: int,
    |
        quiet(#[trigger] mounts::opened_mount(source, destination, kind, label, log, at)) by {
        reveal(mounts::opened_mount);
    }
    assert forall|log: Seq<Answer>, at: int| quiet(#[trigger] mounts::marker(log, at)) by {
        reveal(mounts::marker);
    }
}

proof fn opened_from_quiet(
    list: Seq<(Seq<u8>, Seq<u8>)>,
    kind: MountKind,
    label: Seq<char>,
    index: int,
    done: Seq<Mount>,
    log: Seq<Answer>,
    at: int,
)
    ensures
        quiet(mounts::opened_from(list, kind, label, index, done, log, at)),
    decreases list.len() - index,
{
    single_mounts_quiet();
    if 0 <= index < list.len() {
        if let Ok((mount, next)) = mounts::opened_mount(
            list[index].0,
            list[index].1,
            kind,
            label,
            log,
            at,
        ) {
            opened_from_quiet(list, kind, label, index + 1, done.push(mount), log, next);
        }
    }
}

proof fn writable_from_quiet(
    list: Seq<Seq<u8>>,
    index: int,
    done: Seq<Mount>,
    log: Seq<Answer>,
    at: int,
)
    ensures
        quiet(mounts::writable_from(list, index, done, log, at)),
    decreases list.len() - index,
{
    single_mounts_quiet();
    if 0 <= index < list.len() {
        if let Ok((Ok(stat), next)) = flow::entry(Query::Inspect(list[index]), log, at) {
            if let Ok((mount, next)) = mounts::opened_mount(
                list[index],
                list[index],
                mounts::writable_kind(stat.kind),
                "writable mount"@,
                log,
                next,
            ) {
                writable_from_quiet(list, index + 1, done.push(mount), log, next);
            }
        }
    }
}

proof fn mounts_quiet()
    ensures
        forall|launcher: Seq<u8>, log: Seq<Answer>, at: int|
            quiet(#[trigger] mounts::launcher_mount(launcher, log, at)),
        forall|layout: Layout, launcher: Seq<u8>, log: Seq<Answer>, at: int|
            quiet(#[trigger] mounts::prepared_mounts(layout, launcher, log, at)),
{
    mount_parts_quiet();
    single_mounts_quiet();
    assert forall|launcher: Seq<u8>, log: Seq<Answer>, at: int|
        quiet(#[trigger] mounts::launcher_mount(launcher, log, at)) by {
        reveal(mounts::launcher_mount);
    }
    assert forall|layout: Layout, launcher: Seq<u8>, log: Seq<Answer>, at: int|
        quiet(#[trigger] mounts::prepared_mounts(layout, launcher, log, at)) by {
        reveal(mounts::prepared_mounts);
        reveal(mounts::launcher_mount);
        assert forall|
            list: Seq<(Seq<u8>, Seq<u8>)>,
            kind: MountKind,
            label: Seq<char>,
            at: int,
        | quiet(#[trigger] mounts::opened_from(list, kind, label, 0, Seq::empty(), log, at)) by {
            opened_from_quiet(list, kind, label, 0, Seq::empty(), log, at);
        }
        assert forall|list: Seq<Seq<u8>>, at: int| quiet(
            #[trigger] mounts::writable_from(list, 0, Seq::empty(), log, at),
        ) by {
            writable_from_quiet(list, 0, Seq::empty(), log, at);
        }
    }
}

proof fn listed_mount_quiet(lines: Seq<Seq<char>>, index: int, log: Seq<Answer>, at: int)
    ensures
        quiet(cgroup::listed_mount(lines, index, log, at)),
    decreases lines.len() - index,
{
    if 0 <= index < lines.len() {
        listed_mount_quiet(lines, index + 1, log, at);
        listed_mount_quiet(lines, index + 1, log, at + 1);
        listed_mount_quiet(lines, index + 1, log, at + 2);
    }
}

proof fn delegated_from_quiet(
    mount: Seq<u8>,
    restore: Seq<u8>,
    candidate: Seq<u8>,
    log: Seq<Answer>,
    at: int,
)
    ensures
        quiet(cgroup::delegated_from(mount, restore, candidate, log, at)),
    decreases path::parts(candidate).len(),
{
    reveal(cgroup::usable);
    if let Ok((false, next)) = cgroup::usable(candidate, log, at) {
        if let Some(above) = path::parent(candidate) {
            path::lemma_parent_parts(candidate);
            delegated_from_quiet(mount, restore, above, log, next);
        }
    }
}

proof fn child_group_from_quiet(parent: Seq<u8>, tries: int, log: Seq<Answer>, at: int)
    ensures
        quiet(cgroup::child_group_from(parent, tries, log, at)),
    decreases cgroup::NAME_ATTEMPTS - tries,
{
    if tries < cgroup::NAME_ATTEMPTS {
        child_group_from_quiet(parent, tries + 1, log, at + 2);
    }
}

proof fn emptied_from_quiet(group: Seq<u8>, log: Seq<Answer>, at: int)
    ensures
        quiet(cgroup::emptied_from(group, log, at)),
    decreases log.len() - at,
{
    if let Ok((false, seen)) = cgroup::empty_group(group, log, at) {
        if let Ok((false, asked)) = flow::holds(Query::TimerExpired(Timer::Cleanup), log, seen) {
            if let Ok((_, slept)) = flow::done(Query::Sleep(cgroup::CLEANUP_PAUSE), log, asked) {
                emptied_from_quiet(group, log, slept);
            }
        }
    }
}

proof fn kills_quiet()
    ensures
        forall|group: Seq<u8>, log: Seq<Answer>, at: int|
            quiet(#[trigger] cgroup::killed(group, log, at)),
{
    assert forall|group: Seq<u8>, log: Seq<Answer>, at: int|
        quiet(#[trigger] cgroup::killed(group, log, at)) by {
        reveal(cgroup::killed);
        emptied_from_quiet(group, log, at + 2);
    }
}

proof fn places_quiet()
    ensures
        forall|log: Seq<Answer>, at: int| quiet(#[trigger] cgroup::hierarchy(log, at)),
        forall|log: Seq<Answer>, at: int| quiet(#[trigger] cgroup::own_group(log, at)),
        forall|requested: u64, parent: Seq<u8>, log: Seq<Answer>, at: int|
            quiet(#[trigger] cgroup::memory_for(requested, parent, log, at)),
{
    assert forall|log: Seq<Answer>, at: int| quiet(#[trigger] cgroup::hierarchy(log, at)) by {
        reveal(cgroup::hierarchy);
        assert forall|lines: Seq<Seq<char>>, at: int| quiet(
            #[trigger] cgroup::listed_mount(lines, 0, log, at),
        ) by {
            listed_mount_quiet(lines, 0, log, at);
        }
    }
    assert forall|log: Seq<Answer>, at: int| quiet(#[trigger] cgroup::own_group(log, at)) by {
        reveal(cgroup::own_group);
    }
    assert forall|requested: u64, parent: Seq<u8>, log: Seq<Answer>, at: int|
        quiet(#[trigger] cgroup::memory_for(requested, parent, log, at)) by {
        reveal(cgroup::memory_for);
    }
}

proof fn placements_quiet()
    ensures
        forall|
            requested: ResourceLimits,
            mount: Seq<u8>,
            restore: Seq<u8>,
            log: Seq<Answer>,
            at: int,
        |
            quiet(#[trigger] cgroup::placed(requested, mount, restore, log, at)),
{
    places_quiet();
    assert forall|
        requested: ResourceLimits,
        mount: Seq<u8>,
        restore: Seq<u8>,
        log: Seq<Answer>,
        at: int,
    |
        quiet(#[trigger] cgroup::placed(requested, mount, restore, log, at)) by {
        reveal(cgroup::placed);
        assert forall|candidate: Seq<u8>, at: int| quiet(
            #[trigger] cgroup::delegated_from(mount, restore, candidate, log, at),
        ) by {
            delegated_from_quiet(mount, restore, candidate, log, at);
        }
    }
}

proof fn discoveries_quiet()
    ensures
        forall|requested: ResourceLimits, log: Seq<Answer>, at: int|
            quiet(#[trigger] cgroup::discovered(requested, log, at)),
{
    walks_quiet();
    places_quiet();
    placements_quiet();
    assert forall|requested: ResourceLimits, log: Seq<Answer>, at: int|
        quiet(#[trigger] cgroup::discovered(requested, log, at)) by {
        reveal(cgroup::discovered);
    }
}

proof fn configurations_quiet()
    ensures
        forall|group: Seq<u8>, log: Seq<Answer>, at: int|
            quiet(#[trigger] cgroup::required_controls(group, log, at)),
        forall|group: Seq<u8>, limits: EffectiveResourceLimits, log: Seq<Answer>, at: int|
            quiet(#[trigger] cgroup::limits_written(group, limits, log, at)),
{
    assert forall|group: Seq<u8>, log: Seq<Answer>, at: int|
        quiet(#[trigger] cgroup::required_controls(group, log, at)) by {
        reveal(cgroup::required_controls);
    }
    assert forall|group: Seq<u8>, limits: EffectiveResourceLimits, log: Seq<Answer>, at: int|
        quiet(#[trigger] cgroup::limits_written(group, limits, log, at)) by {
        reveal(cgroup::limits_written);
    }
}

proof fn preparations_quiet()
    ensures
        forall|place: GroupPlace, group: Seq<u8>, log: Seq<Answer>, at: int|
            quiet(#[trigger] cgroup::prepared_at(place, group, log, at)),
{
    configurations_quiet();
    assert forall|place: GroupPlace, group: Seq<u8>, log: Seq<Answer>, at: int|
        quiet(#[trigger] cgroup::prepared_at(place, group, log, at)) by {
        reveal(cgroup::prepared_at);
        reveal(cgroup::configured);
    }
}

proof fn groups_quiet()
    ensures
        forall|requested: ResourceLimits, log: Seq<Answer>, at: int|
            quiet(#[trigger] cgroup::prepared(requested, log, at)),
        forall|limits: EffectiveResourceLimits, log: Seq<Answer>, at: int|
            quiet(#[trigger] cgroup::inherited(limits, log, at)),
        forall|group: Group, log: Seq<Answer>, at: int|
            quiet(#[trigger] cgroup::discarded(group, log, at)),
        forall|group: Seq<u8>, log: Seq<Answer>, at: int|
            quiet(#[trigger] cgroup::cleared(group, log, at)),
        forall|group: Group, log: Seq<Answer>, at: int|
            quiet(#[trigger] cgroup::returned(group, log, at)),
{
    discoveries_quiet();
    preparations_quiet();
    kills_quiet();
    assert forall|requested: ResourceLimits, log: Seq<Answer>, at: int|
        quiet(#[trigger] cgroup::prepared(requested, log, at)) by {
        reveal(cgroup::prepared);
        assert forall|parent: Seq<u8>, at: int| quiet(
            #[trigger] cgroup::child_group_from(parent, 0, log, at),
        ) by {
            child_group_from_quiet(parent, 0, log, at);
        }
    }
    assert forall|limits: EffectiveResourceLimits, log: Seq<Answer>, at: int|
        quiet(#[trigger] cgroup::inherited(limits, log, at)) by {
        reveal(cgroup::inherited);
    }
    assert forall|group: Group, log: Seq<Answer>, at: int|
        quiet(#[trigger] cgroup::discarded(group, log, at)) by {
        reveal(cgroup::discarded);
    }
    assert forall|group: Seq<u8>, log: Seq<Answer>, at: int|
        quiet(#[trigger] cgroup::cleared(group, log, at)) by {
        reveal(cgroup::cleared);
    }
    assert forall|group: Group, log: Seq<Answer>, at: int|
        quiet(#[trigger] cgroup::returned(group, log, at)) by {
        reveal(cgroup::returned);
    }
}

proof fn ends_quiet()
    ensures
        forall|group: Group, log: Seq<Answer>, at: int|
            quiet(#[trigger] cgroup::finished(group, log, at)),
{
    groups_quiet();
    assert forall|group: Group, log: Seq<Answer>, at: int|
        quiet(#[trigger] cgroup::finished(group, log, at)) by {
        reveal(cgroup::finished);
    }
}

proof fn watch_parts_quiet()
    ensures
        forall|child: u32, group: Seq<u8>, log: Seq<Answer>, at: int|
            quiet(#[trigger] capture::timed_out(child, group, log, at)),
        forall|child: u32, group: Seq<u8>, failure: IoFault, log: Seq<Answer>, at: int|
            quiet(#[trigger] capture::unwatched(child, group, failure, log, at)),
        forall|child: u32, group: Seq<u8>, log: Seq<Answer>, at: int|
            quiet(#[trigger] capture::stopped(child, group, log, at)),
        forall|child: u32, ended: Ended, log: Seq<Answer>, at: int|
            quiet(#[trigger] capture::gathered(child, ended, log, at)),
{
    kills_quiet();
    assert forall|child: u32, group: Seq<u8>, log: Seq<Answer>, at: int|
        quiet(#[trigger] capture::timed_out(child, group, log, at)) by {
        reveal(capture::timed_out);
    }
    assert forall|child: u32, group: Seq<u8>, failure: IoFault, log: Seq<Answer>, at: int|
        quiet(#[trigger] capture::unwatched(child, group, failure, log, at)) by {
        reveal(capture::unwatched);
    }
    assert forall|child: u32, group: Seq<u8>, log: Seq<Answer>, at: int|
        quiet(#[trigger] capture::stopped(child, group, log, at)) by {
        reveal(capture::stopped);
    }
    assert forall|child: u32, ended: Ended, log: Seq<Answer>, at: int|
        quiet(#[trigger] capture::gathered(child, ended, log, at)) by {
        reveal(capture::gathered);
    }
}

proof fn guards_quiet()
    ensures
        forall|child: u32, group: Seq<u8>, state: Watch, log: Seq<Answer>, at: int|
            quiet(#[trigger] capture::guarded(child, group, state, log, at)),
{
    watch_parts_quiet();
    assert forall|child: u32, group: Seq<u8>, state: Watch, log: Seq<Answer>, at: int|
        quiet(#[trigger] capture::guarded(child, group, state, log, at)) by {
        reveal(capture::guarded);
    }
}

proof fn capture_lost_quiet(
    child: u32,
    group: Seq<u8>,
    context: Seq<char>,
    failure: IoFault,
    log: Seq<Answer>,
    at: int,
)
    ensures
        capture::capture_lost(child, group, context, failure, log, at) matches Pause::Ask(query)
            ==> !query.starts_program(),
{
    kills_quiet();
    reveal(capture::capture_lost);
}

proof fn watched_from_quiet(child: u32, group: Seq<u8>, log: Seq<Answer>, at: int)
    ensures
        quiet(capture::watched_from(child, group, log, at)),
    decreases log.len() - at,
{
    watch_parts_quiet();
    if let Ok((Ok(None), asked)) = flow::polled(Query::Poll(child), log, at) {
        if let Ok((false, told)) = flow::holds(Query::TimerExpired(Timer::Wall), log, asked) {
            if let Ok((_, slept)) = flow::done(Query::Sleep(capture::WATCH_PAUSE), log, told) {
                watched_from_quiet(child, group, log, slept);
            }
        }
    }
}

proof fn capturing_from_quiet(child: u32, group: Seq<u8>, state: Watch, log: Seq<Answer>, at: int)
    ensures
        quiet(capture::capturing_from(child, group, state, log, at)),
    decreases log.len() - at,
{
    watch_parts_quiet();
    guards_quiet();
    capture::lemma_guarded_advances(child, group, state, log, at);
    if let Ok((now, seen)) = capture::guarded(child, group, state, log, at) {
        if let Ok((Err(failure), next)) = flow::polled(Query::Poll(child), log, seen) {
            capture_lost_quiet(
                child,
                group,
                "could not monitor captured Bubblewrap output"@,
                failure,
                log,
                next,
            );
        }
        if let Ok((Ok(None), asked)) = flow::polled(Query::Poll(child), log, seen) {
            if let Ok((_, slept)) = flow::done(Query::Sleep(capture::CAPTURE_PAUSE), log, asked) {
                capturing_from_quiet(child, group, now, log, slept);
            }
        }
    }
}

proof fn follows_quiet()
    ensures
        forall|child: u32, group: Group, output: OutputMode, log: Seq<Answer>, at: int|
            quiet(#[trigger] bubblewrap::followed(child, group, output, log, at)),
{
    assert forall|child: u32, group: Group, output: OutputMode, log: Seq<Answer>, at: int|
        quiet(#[trigger] bubblewrap::followed(child, group, output, log, at)) by {
        reveal(bubblewrap::followed);
        reveal(capture::capturing);
        reveal(capture::watched);
        let path = group.path;
        assert forall|state: Watch, at: int| quiet(
            #[trigger] capture::capturing_from(child, path, state, log, at),
        ) by {
            capturing_from_quiet(child, path, state, log, at);
        }
        assert forall|at: int| quiet(#[trigger] capture::watched_from(child, path, log, at)) by {
            watched_from_quiet(child, path, log, at);
        }
        capture_lost_quiet(
            child,
            path,
            "captured Bubblewrap output pipes could not be prepared"@,
            IoFault::other("one or more output pipes were missing"@),
            log,
            at + 1,
        );
    }
}

proof fn stages_start_only(group: Group, command: Child, log: Seq<Answer>, at: int)
    ensures
        starts_only(bubblewrap::staged(group, command, log, at).1, command.program),
{
    groups_quiet();
    follows_quiet();
    reveal(bubblewrap::staged);
}

proof fn reports_quiet(group: Group, run: CapturedRun, log: Seq<Answer>, at: int)
    ensures
        quiet(bubblewrap::reported(group, run, log, at)),
{
    groups_quiet();
    ends_quiet();
    reveal(bubblewrap::reported);
}

proof fn grouped_start_only(command: Child, layout: Layout, log: Seq<Answer>, at: int)
    ensures
        starts_only(bubblewrap::grouped(command, layout, log, at), command.program),
{
    groups_quiet();
    reveal(bubblewrap::grouped);
    if let Ok((group, next)) = cgroup::prepared(layout.resources, log, at) {
        stages_start_only(group, command, log, next);
        if let (then, Ok((run, last))) = bubblewrap::staged(group, command, log, next) {
            reports_quiet(then, run, log, last);
        }
    }
}

proof fn confined_start_only(
    backend: Backend,
    layout: Layout,
    job: Job,
    program: Seq<u8>,
    args: Seq<Seq<u8>>,
    output: OutputMode,
    log: Seq<Answer>,
    at: int,
)
    ensures
        starts_only(
            bubblewrap::confined_run(backend, layout, job, program, args, output, log, at),
            backend.bwrap,
        ),
{
    mounts_quiet();
    single_mounts_quiet();
    reveal(bubblewrap::confined_run);
    assert forall|words: Seq<Seq<u8>>, at: int| starts_only(
        #[trigger] bubblewrap::grouped(
            bubblewrap::bwrap_child(backend, layout, job, words, output),
            layout,
            log,
            at,
        ),
        backend.bwrap,
    ) by {
        grouped_start_only(
            bubblewrap::bwrap_child(backend, layout, job, words, output),
            layout,
            log,
            at,
        );
    }
}

/// Whatever the host answers, a sandboxed request starts nothing but
/// Bubblewrap: there is no fallback to running the program itself.
pub proof fn requests_start_only_bubblewrap(
    backend: Backend,
    job: Job,
    log: Seq<Answer>,
    at: int,
)
    ensures
        starts_only(bubblewrap::sandboxed_run(backend, job, log, at), backend.bwrap),
{
    plans_quiet();
    reveal(bubblewrap::sandboxed_run);
    assert forall|trees: Seq<(TreeKind, Seq<u8>)>, writable: Seq<Seq<u8>>, at: int| quiet(
        #[trigger] tree::sound_from(trees, writable, 0, log, at),
    ) by {
        sound_from_quiet(trees, writable, 0, log, at);
    }
    assert forall|at: int| quiet(
        #[trigger] bubblewrap::markers_from(0, Seq::empty(), log, at),
    ) by {
        markers_from_quiet(0, Seq::empty(), log, at);
    }
    assert forall|
        layout: Layout,
        program: Seq<u8>,
        args: Seq<Seq<u8>>,
        output: OutputMode,
        at: int,
    | starts_only(
        #[trigger] bubblewrap::confined_run(
            backend,
            layout,
            job,
            program,
            args,
            output,
            log,
            at,
        ),
        backend.bwrap,
    ) by {
        confined_start_only(backend, layout, job, program, args, output, log, at);
    }
}

} // verus!

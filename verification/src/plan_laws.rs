//! What a layout takes from a request and from the host.

use crate::error::IoKind;
use crate::flow;
use crate::flow::{Answer, Course, FileKind, Query};
use crate::os;
use crate::path;
use crate::plan;
use crate::plan::{Ground, Layout, Mask};
use crate::backend::Job;
use crate::talk;
use crate::toolchain;
use vstd::prelude::*;

verus! {

// ---------------------------------------------------------------------------
// Paths of a policy
// ---------------------------------------------------------------------------

/// A directory is looked at, must be a real one, and is known by its canonical
/// path from then on.
pub proof fn directories_are_real_and_canonical(
    path: Seq<u8>,
    label: Seq<char>,
    log: Seq<Answer>,
    at: int,
    canonical: Seq<u8>,
)
    requires
        0 <= at,
    ensures
        talk::silent(log, at) ==> talk::asks(
            plan::existing_directory(path, label, log, at),
            Query::Inspect(path),
        ),
        talk::missing(log, at) || talk::unreadable(log, at) ==> talk::breaks(
            plan::existing_directory(path, label, log, at),
        ),
        talk::shown(log, at) && !talk::shows(log, at, FileKind::Directory) ==> talk::refuses(
            plan::existing_directory(path, label, log, at),
        ),
        talk::shows(log, at, FileKind::Directory) ==> {
            &&& talk::silent(log, at + 1) ==> talk::asks(
                plan::existing_directory(path, label, log, at),
                Query::Resolve(path),
            )
            &&& talk::leads(log, at + 1, canonical) ==> talk::gives(
                plan::existing_directory(path, label, log, at),
                canonical,
                at + 2,
            )
            &&& talk::nowhere(log, at + 1) ==> talk::breaks(
                plan::existing_directory(path, label, log, at),
            )
        },
{
    reveal(plan::existing_directory);
}

/// Whether the first `count` components of a path may be walked through.
pub open spec fn walked(path: Seq<u8>, count: int, log: Seq<Answer>, at: int) -> bool {
    forall|i: int|
        0 <= i < count ==> {
            &&& talk::shown(log, #[trigger] (at + i))
            &&& !talk::shows(log, at + i, FileKind::Symlink)
            &&& i + 1 < path::parts(path).len() ==> talk::shows(log, at + i, FileKind::Directory)
        }
}

proof fn lemma_walked(path: Seq<u8>, label: Seq<char>, count: int, log: Seq<Answer>, at: int)
    requires
        0 <= at,
        0 <= count <= path::parts(path).len(),
        walked(path, count, log, at),
    ensures
        plan::unlinked_from(path, label, 0, log, at) == plan::unlinked_from(
            path,
            label,
            count,
            log,
            at + count,
        ),
    decreases count,
{
    if count > 0 {
        lemma_walked(path, label, count - 1, log, at);
        assert(talk::shown(log, at + (count - 1)));
    }
}

/// A path that may be written to is walked component by component: each is
/// looked at in turn, none may be a symlink, all but the last must be
/// directories, and the whole is resolved at the end.
pub proof fn written_paths_hold_no_symlinks(
    path: Seq<u8>,
    label: Seq<char>,
    count: int,
    log: Seq<Answer>,
    at: int,
    canonical: Seq<u8>,
)
    requires
        0 <= at,
        0 <= count <= path::parts(path).len(),
        walked(path, count, log, at),
    ensures
        count < path::parts(path).len() ==> {
            &&& talk::silent(log, at + count) ==> talk::asks(
                plan::unlinked_from(path, label, 0, log, at),
                Query::Inspect(path::prefix(path::parts(path), count + 1)),
            )
            &&& talk::shows(log, at + count, FileKind::Symlink) ==> talk::refuses(
                plan::unlinked_from(path, label, 0, log, at),
            )
            &&& talk::shown(log, at + count) && !talk::shows(log, at + count, FileKind::Directory)
                && count + 1 < path::parts(path).len() ==> talk::refuses(
                plan::unlinked_from(path, label, 0, log, at),
            )
            &&& talk::missing(log, at + count) || talk::unreadable(log, at + count)
                ==> talk::breaks(plan::unlinked_from(path, label, 0, log, at))
        },
        count == path::parts(path).len() ==> {
            &&& talk::silent(log, at + count) ==> talk::asks(
                plan::unlinked_from(path, label, 0, log, at),
                Query::Resolve(path),
            )
            &&& talk::leads(log, at + count, canonical) ==> talk::gives(
                plan::unlinked_from(path, label, 0, log, at),
                canonical,
                at + count + 1,
            )
            &&& talk::nowhere(log, at + count) ==> talk::breaks(
                plan::unlinked_from(path, label, 0, log, at),
            )
        },
{
    lemma_walked(path, label, count, log, at);
}

/// Whether `canonical` stands for a directory that was looked at.
pub open spec fn stands_for_directory(
    canonical: Seq<u8>,
    path: Seq<u8>,
    label: Seq<char>,
    log: Seq<Answer>,
) -> bool {
    exists|at: int| #[trigger]
        plan::existing_directory(path, label, log, at) matches Ok((found, _)) && found == canonical
}

/// Whether `canonical` stands for a path that was walked.
pub open spec fn stands_for_path(
    canonical: Seq<u8>,
    path: Seq<u8>,
    label: Seq<char>,
    log: Seq<Answer>,
) -> bool {
    exists|at: int| #[trigger]
        plan::unlinked_from(path, label, 0, log, at) matches Ok((found, _)) && found == canonical
}

/// Directories stand for those of a list, one by one.
pub open spec fn stand_for_directories(
    list: Seq<Seq<u8>>,
    canonical: Seq<Seq<u8>>,
    label: Seq<char>,
    log: Seq<Answer>,
) -> bool {
    &&& canonical.len() == list.len()
    &&& forall|i: int|
        0 <= i < list.len() ==> stands_for_directory(#[trigger] canonical[i], list[i], label, log)
}

/// Paths stand for those of a list, one by one.
pub open spec fn stand_for_paths(
    list: Seq<Seq<u8>>,
    canonical: Seq<Seq<u8>>,
    label: Seq<char>,
    log: Seq<Answer>,
) -> bool {
    &&& canonical.len() == list.len()
    &&& forall|i: int|
        0 <= i < list.len() ==> stands_for_path(#[trigger] canonical[i], list[i], label, log)
}

proof fn lemma_directories(
    list: Seq<Seq<u8>>,
    label: Seq<char>,
    index: int,
    done: Seq<Seq<u8>>,
    log: Seq<Answer>,
    at: int,
)
    requires
        0 <= index <= list.len(),
        stand_for_directories(list.take(index), done, label, log),
    ensures
        plan::directories_from(list, label, index, done, log, at) matches Ok((canonical, _))
            ==> stand_for_directories(list, canonical, label, log),
    decreases list.len() - index,
{
    if index < list.len() {
        match plan::existing_directory(list[index], label, log, at) {
            Ok((canonical, next)) => {
                assert(stands_for_directory(canonical, list[index], label, log));
                let more = done.push(canonical);
                assert forall|i: int| 0 <= i < index + 1 implies stands_for_directory(
                    #[trigger] more[i],
                    list.take(index + 1)[i],
                    label,
                    log,
                ) by {
                    if i < index {
                        assert(stands_for_directory(done[i], list.take(index)[i], label, log));
                    }
                }
                lemma_directories(list, label, index + 1, more, log, next);
            },
            Err(_) => {},
        }
    } else {
        assert(list.take(index) =~= list);
    }
}

proof fn lemma_paths(
    list: Seq<Seq<u8>>,
    label: Seq<char>,
    index: int,
    done: Seq<Seq<u8>>,
    log: Seq<Answer>,
    at: int,
)
    requires
        0 <= index <= list.len(),
        stand_for_paths(list.take(index), done, label, log),
    ensures
        plan::paths_from(list, label, index, done, log, at) matches Ok((canonical, _))
            ==> stand_for_paths(list, canonical, label, log),
    decreases list.len() - index,
{
    if index < list.len() {
        match plan::unlinked_from(list[index], label, 0, log, at) {
            Ok((canonical, next)) => {
                assert(stands_for_path(canonical, list[index], label, log));
                let more = done.push(canonical);
                assert forall|i: int| 0 <= i < index + 1 implies stands_for_path(
                    #[trigger] more[i],
                    list.take(index + 1)[i],
                    label,
                    log,
                ) by {
                    if i < index {
                        assert(stands_for_path(done[i], list.take(index)[i], label, log));
                    }
                }
                lemma_paths(list, label, index + 1, more, log, next);
            },
            Err(_) => {},
        }
    } else {
        assert(list.take(index) =~= list);
    }
}

// ---------------------------------------------------------------------------
// Hidden paths
// ---------------------------------------------------------------------------

/// A hidden path that is not there needs no mask; one that is there is masked
/// at its canonical path, as a directory if it leads to one and as a file
/// otherwise. The root cannot be hidden.
pub proof fn hidden_paths_are_masked_where_they_lead(
    path: Seq<u8>,
    log: Seq<Answer>,
    at: int,
    canonical: Seq<u8>,
)
    requires
        0 <= at,
    ensures
        talk::silent(log, at) ==> talk::asks(plan::mask_of(path, log, at), Query::Inspect(path)),
        talk::missing(log, at) ==> talk::gives(plan::mask_of(path, log, at), None::<Mask>, at + 1),
        talk::unreadable(log, at) ==> talk::breaks(plan::mask_of(path, log, at)),
        talk::shown(log, at) && talk::silent(log, at + 1) ==> talk::asks(
            plan::mask_of(path, log, at),
            Query::Resolve(path),
        ),
        talk::shown(log, at) && talk::nowhere(log, at + 1) ==> talk::breaks(
            plan::mask_of(path, log, at),
        ),
        talk::shown(log, at) && talk::leads(log, at + 1, canonical) && path::same_path(
            canonical,
            os::lit("/"),
        ) ==> talk::refuses(plan::mask_of(path, log, at)),
        talk::shown(log, at) && talk::leads(log, at + 1, canonical) && !path::same_path(
            canonical,
            os::lit("/"),
        ) ==> {
            &&& talk::shows(log, at, FileKind::Directory) ==> talk::gives(
                plan::mask_of(path, log, at),
                Some(Mask::Directory(canonical)),
                at + 2,
            )
            &&& !talk::shows(log, at, FileKind::Directory) && !talk::shows(
                log,
                at,
                FileKind::Symlink,
            ) ==> talk::gives(plan::mask_of(path, log, at), Some(Mask::File(canonical)), at + 2)
            &&& talk::shows(log, at, FileKind::Symlink) ==> {
                &&& talk::silent(log, at + 2) ==> talk::asks(
                    plan::mask_of(path, log, at),
                    Query::Follow(canonical),
                )
                &&& talk::missing(log, at + 2) || talk::unreadable(log, at + 2) ==> talk::breaks(
                    plan::mask_of(path, log, at),
                )
                &&& talk::shows(log, at + 2, FileKind::Directory) ==> talk::gives(
                    plan::mask_of(path, log, at),
                    Some(Mask::Directory(canonical)),
                    at + 3,
                )
                &&& talk::shown(log, at + 2) && !talk::shows(log, at + 2, FileKind::Directory)
                    ==> talk::gives(
                    plan::mask_of(path, log, at),
                    Some(Mask::File(canonical)),
                    at + 3,
                )
            }
        },
{
    reveal(plan::mask_of);
}

/// A path shows what it holds unless a private path covers it and no visible
/// path uncovers it again.
pub open spec fn exposed(path: Seq<u8>, private: Seq<Seq<u8>>, visible: Seq<Seq<u8>>) -> bool {
    (exists|i: int| 0 <= i < visible.len() && path::within(path, #[trigger] visible[i])) || (forall|
        i: int,
    |
        0 <= i < private.len() ==> !path::within(path, #[trigger] private[i]))
}

/// Whether the mask of a hidden path, if it has one and would be exposed, is
/// among some masks.
pub open spec fn mask_is_there(
    path: Seq<u8>,
    private: Seq<Seq<u8>>,
    visible: Seq<Seq<u8>>,
    hidden: Seq<Mask>,
    log: Seq<Answer>,
) -> bool {
    exists|at: int|
        covered(#[trigger] plan::mask_of(path, log, at), private, visible, hidden)
}

/// Whether a mask that was found, and would be exposed, is among some masks.
pub open spec fn covered(
    found: Course<Option<Mask>>,
    private: Seq<Seq<u8>>,
    visible: Seq<Seq<u8>>,
    hidden: Seq<Mask>,
) -> bool {
    match found {
        Ok((Some(mask), _)) => exposed(mask.path(), private, visible) ==> hidden.contains(mask),
        Ok((None, _)) => true,
        Err(_) => false,
    }
}

proof fn lemma_masks(
    list: Seq<Seq<u8>>,
    index: int,
    private: Seq<Seq<u8>>,
    visible: Seq<Seq<u8>>,
    made: Seq<Mask>,
    log: Seq<Answer>,
    at: int,
)
    requires
        0 <= index <= list.len(),
        forall|i: int|
            0 <= i < index ==> mask_is_there(#[trigger] list[i], private, visible, made, log),
        forall|i: int|
            0 <= i < made.len() ==> exposed((#[trigger] made[i]).path(), private, visible),
    ensures
        plan::masks_from(list, index, private, visible, made, log, at) matches Ok((hidden, _)) ==> {
            &&& forall|i: int|
                0 <= i < list.len() ==> mask_is_there(
                    #[trigger] list[i],
                    private,
                    visible,
                    hidden,
                    log,
                )
            &&& forall|i: int|
                0 <= i < hidden.len() ==> exposed((#[trigger] hidden[i]).path(), private, visible)
        },
    decreases list.len() - index,
{
    if index < list.len() {
        match plan::mask_of(list[index], log, at) {
            Ok((found, next)) => {
                let more = match found {
                    Some(mask) => if plan::needs_mask(mask.path(), private, visible) {
                        made.push(mask)
                    } else {
                        made
                    },
                    None => made,
                };
                if let Some(mask) = found {
                    assert(exposed(mask.path(), private, visible) == plan::needs_mask(
                        mask.path(),
                        private,
                        visible,
                    ));
                    if exposed(mask.path(), private, visible) {
                        assert(more.last() == mask);
                    }
                }
                assert(covered(plan::mask_of(list[index], log, at), private, visible, more));
                assert forall|i: int| 0 <= i < index implies mask_is_there(
                    #[trigger] list[i],
                    private,
                    visible,
                    more,
                    log,
                ) by {
                    let here = choose|here: int|
                        covered(
                            #[trigger] plan::mask_of(list[i], log, here),
                            private,
                            visible,
                            made,
                        );
                    let found = plan::mask_of(list[i], log, here)->Ok_0.0;
                    if let Some(mask) = found {
                        if made.contains(mask) {
                            let k = choose|k: int| 0 <= k < made.len() && made[k] == mask;
                            assert(more[k] == mask);
                        }
                    }
                    assert(covered(plan::mask_of(list[i], log, here), private, visible, more));
                }
                lemma_masks(list, index + 1, private, visible, more, log, next);
            },
            Err(_) => {},
        }
    }
}

// ---------------------------------------------------------------------------
// Layouts
// ---------------------------------------------------------------------------

/// What a layout takes from a request: its directory, its writable, read-only
/// and private paths are those of the request, one by one and canonical; the
/// run directory of the host is always private; and every hidden path that
/// would show has its mask.
pub proof fn grounds_follow_the_request(job: Job, log: Seq<Answer>, at: int)
    ensures
        plan::grounded(job, log, at) matches Ok((ground, _)) ==> {
            &&& stands_for_directory(
                ground.current_dir,
                job.current_dir,
                "current directory"@,
                log,
            )
            &&& stand_for_paths(
                job.policy.writable_paths,
                ground.writable_paths,
                "writable path"@,
                log,
            )
            &&& stand_for_directories(
                job.policy.read_only_paths,
                ground.read_only_paths,
                "read-only path"@,
                log,
            )
            &&& private_as_requested(job, ground, log)
            &&& forall|i: int|
                0 <= i < job.policy.hidden_paths.len() ==> mask_is_there(
                    #[trigger] job.policy.hidden_paths[i],
                    ground.private_paths,
                    ground.read_only_paths,
                    ground.hidden_paths,
                    log,
                )
            &&& forall|i: int|
                0 <= i < ground.hidden_paths.len() ==> exposed(
                    (#[trigger] ground.hidden_paths[i]).path(),
                    ground.private_paths,
                    ground.read_only_paths,
                )
        },
        talk::silent(log, at) ==> talk::asks(
            plan::grounded(job, log, at),
            Query::Inspect(job.current_dir),
        ),
{
    reveal(plan::grounded);
    reveal(plan::existing_directory);
    if plan::grounded(job, log, at) is Ok {
        let ground = plan::grounded(job, log, at)->Ok_0.0;
        let first = plan::existing_directory(
            job.current_dir,
            "current directory"@,
            log,
            at,
        )->Ok_0;
        assert(stands_for_directory(first.0, job.current_dir, "current directory"@, log));
        lemma_paths(
            job.policy.writable_paths,
            "writable path"@,
            0,
            Seq::empty(),
            log,
            first.1,
        );
        let second = plan::paths_from(
            job.policy.writable_paths,
            "writable path"@,
            0,
            Seq::empty(),
            log,
            first.1,
        )->Ok_0;
        lemma_directories(
            job.policy.read_only_paths,
            "read-only path"@,
            0,
            Seq::empty(),
            log,
            second.1,
        );
        let third = plan::directories_from(
            job.policy.read_only_paths,
            "read-only path"@,
            0,
            Seq::empty(),
            log,
            second.1,
        )->Ok_0;
        lemma_directories(
            job.policy.private_paths,
            "private path"@,
            0,
            Seq::empty(),
            log,
            third.1,
        );
        let fourth = plan::directories_from(
            job.policy.private_paths,
            "private path"@,
            0,
            Seq::empty(),
            log,
            third.1,
        )->Ok_0;
        let run = plan::existing_directory(os::lit("/run"), "private path"@, log, fourth.1)->Ok_0;
        assert(stands_for_directory(run.0, os::lit("/run"), "private path"@, log));
        if toolchain::holds_path(fourth.0, run.0) {
            assert(ground.private_paths == fourth.0);
        } else {
            assert(path::same_path(run.0, run.0));
            assert(path::same_path(ground.private_paths.last(), run.0));
            assert(ground.private_paths.take(fourth.0.len() as int) =~= fourth.0);
        }
        assert(toolchain::holds_path(ground.private_paths, run.0));
        lemma_masks(
            job.policy.hidden_paths,
            0,
            ground.private_paths,
            ground.read_only_paths,
            Seq::empty(),
            log,
            run.1,
        );
    }
}

/// Whether the private paths are those of the request and, if it is not among
/// them, the run directory of the host.
pub open spec fn private_as_requested(job: Job, ground: Ground, log: Seq<Answer>) -> bool {
    &&& ground.private_paths.len() >= job.policy.private_paths.len()
    &&& ground.private_paths.len() <= job.policy.private_paths.len() + 1
    &&& stand_for_directories(
        job.policy.private_paths,
        ground.private_paths.take(job.policy.private_paths.len() as int),
        "private path"@,
        log,
    )
    &&& exists|run: Seq<u8>|
        stands_for_directory(run, os::lit("/run"), "private path"@, log) && #[trigger]
            toolchain::holds_path(ground.private_paths, run) && (ground.private_paths.len()
            == job.policy.private_paths.len() + 1 ==> ground.private_paths.last() == run)
}

proof fn lemma_names(names: Seq<Seq<u8>>, more: Seq<Seq<u8>>, count: int)
    requires
        0 <= count <= more.len(),
    ensures
        forall|name: Seq<u8>| #[trigger]
            plan::with_names(names, more, count).contains(name) <==> names.contains(name)
                || more.take(count).contains(name),
    decreases count,
{
    if count > 0 {
        lemma_names(names, more, count - 1);
        let before = plan::with_names(names, more, count - 1);
        let after = plan::with_names(names, more, count);
        assert forall|name: Seq<u8>| #[trigger] after.contains(name) <==> names.contains(name)
            || more.take(count).contains(name) by {
            assert(more.take(count) =~= more.take(count - 1).push(more[count - 1]));
            lemma_pushed(more.take(count - 1), more[count - 1], name);
            lemma_pushed(before, more[count - 1], name);
            assert(before.contains(name) <==> names.contains(name) || more.take(
                count - 1,
            ).contains(name));
        }
    } else {
        assert(more.take(count) =~= Seq::<Seq<u8>>::empty());
    }
}

proof fn lemma_pushed(list: Seq<Seq<u8>>, last: Seq<u8>, name: Seq<u8>)
    ensures
        list.push(last).contains(name) <==> list.contains(name) || name == last,
{
    if list.contains(name) {
        let k = choose|k: int| 0 <= k < list.len() && list[k] == name;
        assert(list.push(last)[k] == name);
    }
    if name == last {
        assert(list.push(last)[list.len() as int] == name);
    }
    if list.push(last).contains(name) {
        let k = choose|k: int| 0 <= k < list.push(last).len() && list.push(last)[k] == name;
        if k < list.len() {
            assert(list[k] == name);
        }
    }
}

/// A layout sets what the request sets, and removes what the request or its
/// policy removes.
pub proof fn layouts_remove_what_the_policy_removes(job: Job)
    ensures
        plan::merged(job).inherit == job.environment.inherit,
        plan::merged(job).set == job.environment.set,
        forall|name: Seq<u8>| #[trigger]
            plan::merged(job).remove.contains(name) <==> job.environment.remove.contains(name)
                || job.policy.remove_environment.contains(name),
{
    let more = job.policy.remove_environment;
    lemma_names(job.environment.remove, more, more.len() as int);
    assert(more.take(more.len() as int) =~= more);
}

/// Cargo's home is what CARGO_HOME says, or lies in the home directory; it must
/// be absolute and, if it is there, a directory.
pub proof fn the_home_of_cargo_is_where_it_is_named(
    log: Seq<Answer>,
    at: int,
    home: Seq<u8>,
    canonical: Seq<u8>,
)
    requires
        0 <= at,
    ensures
        talk::silent(log, at) ==> talk::asks(
            plan::cargo_home(log, at),
            Query::Variable(os::lit("CARGO_HOME")),
        ),
        talk::unset(log, at) && talk::silent(log, at + 1) ==> talk::asks(
            plan::cargo_home(log, at),
            Query::Variable(os::lit("HOME")),
        ),
        talk::unset(log, at) && talk::unset(log, at + 1) ==> talk::gives(
            plan::cargo_home(log, at),
            None::<Seq<u8>>,
            at + 2,
        ),
        talk::says(log, at, home) ==> home_checked(home, log, at, at + 1, canonical),
        talk::unset(log, at) && talk::says(log, at + 1, home) ==> home_checked(
            path::join(home, os::lit(".cargo")),
            log,
            at,
            at + 2,
            canonical,
        ),
{
    reveal(plan::cargo_home);
}

/// What becomes of a path that was named as Cargo's home.
pub open spec fn home_checked(
    home: Seq<u8>,
    log: Seq<Answer>,
    start: int,
    at: int,
    canonical: Seq<u8>,
) -> bool {
    let course = plan::cargo_home(log, start);
    &&& !path::absolute(home) ==> talk::refuses(course)
    &&& path::absolute(home) ==> {
        &&& talk::silent(log, at) ==> talk::asks(course, Query::Inspect(home))
        &&& talk::missing(log, at) ==> talk::gives(course, None::<Seq<u8>>, at + 1)
        &&& talk::unreadable(log, at) ==> talk::breaks(course)
        &&& talk::shown(log, at) && !talk::shows(log, at, FileKind::Directory) ==> talk::refuses(
            course,
        )
        &&& talk::shows(log, at, FileKind::Directory) ==> {
            &&& talk::silent(log, at + 1) ==> talk::asks(course, Query::Resolve(home))
            &&& talk::nowhere(log, at + 1) ==> talk::breaks(course)
            &&& talk::leads(log, at + 1, canonical) ==> talk::gives(
                course,
                Some(canonical),
                at + 2,
            )
        }
    }
}

/// What is looked for in Cargo's home: the registry first and then the Git
/// checkouts. Each is used if it is a real directory and passed over if it is
/// not there; anything else is refused.
pub proof fn caches_are_the_registry_and_git(home: Seq<u8>, log: Seq<Answer>, at: int)
    requires
        0 <= at,
    ensures
        ({
            let course = plan::caches_from(
                plan::cache_candidates(Some(home)),
                0,
                Seq::empty(),
                log,
                at,
            );
            let registry = path::join(home, os::lit("registry"));
            let git = path::join(home, os::lit("git"));
            &&& talk::silent(log, at) ==> talk::asks(course, Query::Inspect(registry))
            &&& talk::unreadable(log, at) ==> talk::breaks(course)
            &&& talk::shown(log, at) && !talk::shows(log, at, FileKind::Directory)
                ==> talk::refuses(course)
            &&& talk::missing(log, at) || talk::shows(log, at, FileKind::Directory) ==> {
                &&& talk::silent(log, at + 1) ==> talk::asks(course, Query::Inspect(git))
                &&& talk::unreadable(log, at + 1) ==> talk::breaks(course)
                &&& talk::shown(log, at + 1) && !talk::shows(log, at + 1, FileKind::Directory)
                    ==> talk::refuses(course)
            }
            &&& talk::shows(log, at, FileKind::Directory) && talk::shows(
                log,
                at + 1,
                FileKind::Directory,
            ) ==> talk::gives(course, seq![registry, git], at + 2)
            &&& talk::shows(log, at, FileKind::Directory) && talk::missing(log, at + 1)
                ==> talk::gives(course, seq![registry], at + 2)
            &&& talk::missing(log, at) && talk::shows(log, at + 1, FileKind::Directory)
                ==> talk::gives(course, seq![git], at + 2)
            &&& talk::missing(log, at) && talk::missing(log, at + 1) ==> talk::gives(
                course,
                Seq::empty(),
                at + 2,
            )
        }),
        talk::gives(
            plan::caches_from(plan::cache_candidates(None), 0, Seq::empty(), log, at),
            Seq::empty(),
            at,
        ),
{
    reveal_with_fuel(plan::caches_from, 3);
    let registry = path::join(home, os::lit("registry"));
    let git = path::join(home, os::lit("git"));
    assert(Seq::empty().push(registry) =~= seq![registry]);
    assert(Seq::empty().push(git) =~= seq![git]);
    assert(seq![registry].push(git) =~= seq![registry, git]);
}

/// The places of the runtime, in the order in which they are looked for.
pub open spec fn runtime_place(index: int) -> Seq<u8> {
    if index == 0 {
        os::lit("/usr")
    } else if index == 1 {
        os::lit("/bin")
    } else if index == 2 {
        os::lit("/sbin")
    } else if index == 3 {
        os::lit("/lib")
    } else if index == 4 {
        os::lit("/lib64")
    } else {
        os::lit("/etc/alternatives")
    }
}

/// Whether a place of the runtime was found or is not there.
pub open spec fn settled(log: Seq<Answer>, at: int) -> bool {
    match flow::given(log, at) {
        Some(Answer::Place(Ok(_))) => true,
        Some(Answer::Place(Err(failure))) => failure@.kind == IoKind::NotFound,
        _ => false,
    }
}

/// Whether the i-th place of the runtime was found, and where it leads.
pub open spec fn found_place(log: Seq<Answer>, at: int, i: int, place: Seq<u8>) -> bool {
    talk::leads(log, at + i, place)
}

/// Whether a mount shows a place that was found, at its own name.
pub open spec fn shows_place(
    mount: (Seq<u8>, Seq<u8>),
    count: int,
    log: Seq<Answer>,
    at: int,
) -> bool {
    exists|i: int|
        0 <= i < count && #[trigger] found_place(log, at, i, mount.0) && mount.1 == runtime_place(i)
}

/// Whether some mounts show each place that was found, at its own name, and
/// nothing else.
pub open spec fn shown_as_found(
    mounts: Seq<(Seq<u8>, Seq<u8>)>,
    count: int,
    log: Seq<Answer>,
    at: int,
) -> bool {
    &&& forall|i: int, place: Seq<u8>|
        0 <= i < count && #[trigger] found_place(log, at, i, place) ==> mounts.contains(
            (place, runtime_place(i)),
        )
    &&& forall|k: int|
        0 <= k < mounts.len() ==> shows_place(#[trigger] mounts[k], count, log, at)
}

proof fn lemma_runtime(count: int, log: Seq<Answer>, at: int)
    requires
        0 <= at,
        0 <= count <= 6,
        forall|i: int| 0 <= i < count ==> settled(log, #[trigger] (at + i)),
    ensures
        exists|mounts: Seq<(Seq<u8>, Seq<u8>)>|
            shown_as_found(mounts, count, log, at) && plan::runtime_from(0, Seq::empty(), log, at)
                == #[trigger] plan::runtime_from(count, mounts, log, at + count),
    decreases count,
{
    if count == 0 {
        let none = Seq::<(Seq<u8>, Seq<u8>)>::empty();
        assert(shown_as_found(none, 0, log, at));
        assert(plan::runtime_from(0, Seq::empty(), log, at) == plan::runtime_from(
            count,
            none,
            log,
            at + count,
        ));
    } else {
        lemma_runtime(count - 1, log, at);
        let mounts = choose|mounts: Seq<(Seq<u8>, Seq<u8>)>|
            shown_as_found(mounts, count - 1, log, at) && plan::runtime_from(
                0,
                Seq::empty(),
                log,
                at,
            ) == #[trigger] plan::runtime_from(count - 1, mounts, log, at + (count - 1));
        assert(settled(log, at + (count - 1)));
        assert(plan::runtime_places()[count - 1] == runtime_place(count - 1));
        let more = match flow::given(log, at + (count - 1)) {
            Some(Answer::Place(Ok(place))) => mounts.push((place@, runtime_place(count - 1))),
            _ => mounts,
        };
        assert forall|i: int, place: Seq<u8>|
            0 <= i < count && #[trigger] found_place(log, at, i, place) implies more.contains(
            (place, runtime_place(i)),
        ) by {
            if i < count - 1 {
                assert(mounts.contains((place, runtime_place(i))));
                let k = choose|k: int|
                    0 <= k < mounts.len() && mounts[k] == (place, runtime_place(i));
                assert(more[k] == (place, runtime_place(i)));
            } else {
                assert(more[more.len() - 1] == (place, runtime_place(i)));
            }
        }
        assert forall|k: int| 0 <= k < more.len() implies shows_place(
            #[trigger] more[k],
            count,
            log,
            at,
        ) by {
            if k < mounts.len() {
                assert(shows_place(mounts[k], count - 1, log, at));
                let i = choose|i: int|
                    0 <= i < count - 1 && #[trigger] found_place(log, at, i, mounts[k].0)
                        && mounts[k].1 == runtime_place(i);
                assert(found_place(log, at, i, more[k].0));
            } else {
                assert(found_place(log, at, count - 1, more[k].0));
            }
        }
        assert(shown_as_found(more, count, log, at));
        assert(plan::runtime_from(count - 1, mounts, log, at + (count - 1)) == plan::runtime_from(
            count,
            more,
            log,
            at + count,
        ));
    }
}

/// The runtime is looked for at six places, in order. Each that is found is
/// shown at its own name, and one that is not there is passed over.
pub proof fn the_runtime_is_shown_at_its_places(count: int, log: Seq<Answer>, at: int)
    requires
        0 <= at,
        0 <= count <= 6,
        forall|i: int| 0 <= i < count ==> settled(log, #[trigger] (at + i)),
    ensures
        ({
            let course = plan::runtime_from(0, Seq::empty(), log, at);
            &&& count < 6 && talk::silent(log, at + count) ==> talk::asks(
                course,
                Query::Resolve(runtime_place(count)),
            )
            &&& count < 6 && talk::nowhere(log, at + count) && !settled(log, at + count)
                ==> talk::breaks(course)
            &&& count == 6 ==> (course matches Ok((mounts, next)) && next == at + 6
                && shown_as_found(mounts, 6, log, at))
        }),
{
    lemma_runtime(count, log, at);
    let mounts = choose|mounts: Seq<(Seq<u8>, Seq<u8>)>|
        shown_as_found(mounts, count, log, at) && plan::runtime_from(0, Seq::empty(), log, at)
            == #[trigger] plan::runtime_from(count, mounts, log, at + count);
    if count < 6 {
        assert(plan::runtime_places()[count] == runtime_place(count));
    }
}

/// A sandbox needs the Bash of the host.
pub proof fn sandboxes_need_a_shell(log: Seq<Answer>, at: int)
    ensures
        talk::silent(log, at) ==> talk::asks(
            plan::shell_present(log, at),
            Query::Follow(os::lit("/bin/bash")),
        ),
        talk::shows(log, at, FileKind::File) ==> talk::gives(
            plan::shell_present(log, at),
            (),
            at + 1,
        ),
        talk::missing(log, at) || talk::unreadable(log, at) || (talk::shown(log, at)
            && !talk::shows(log, at, FileKind::File)) ==> talk::cannot_set_up(
            plan::shell_present(log, at),
        ),
{
    reveal(plan::shell_present);
}

/// A layout is what its parts say: the paths of the request, Cargo's home and
/// its caches, the runtime of a host with a shell, and the environment, network
/// and limits of the request.
pub proof fn layouts_follow_the_request(job: Job, log: Seq<Answer>, at: int)
    ensures
        plan::planned(job, log, at) matches Ok((layout, _)) ==> {
            &&& plan::grounded(job, log, at) matches Ok((ground, _)) && ground == (Ground {
                current_dir: layout.current_dir,
                writable_paths: layout.writable_paths,
                read_only_paths: layout.read_only_paths,
                private_paths: layout.private_paths,
                hidden_paths: layout.hidden_paths,
            })
            &&& layout.network == job.policy.network
            &&& layout.resources == job.policy.resources
            &&& layout.environment == plan::merged(job)
            &&& exists|here: int, there: int| #[trigger]
                homed(layout, log, here, there)
            &&& exists|here: int, there: int| #[trigger]
                equipped(layout, log, here, there)
        },
{
    reveal(plan::planned);
    if plan::planned(job, log, at) is Ok {
        let layout = plan::planned(job, log, at)->Ok_0.0;
        let here = plan::grounded(job, log, at)->Ok_0.1;
        let home = plan::cargo_home(log, here)->Ok_0;
        assert(homed(layout, log, here, home.1));
        let caches = plan::caches_from(
            plan::cache_candidates(home.0),
            0,
            Seq::empty(),
            log,
            home.1,
        )->Ok_0;
        let runtime = plan::runtime_from(0, Seq::empty(), log, caches.1)->Ok_0;
        assert(equipped(layout, log, caches.1, runtime.1));
    }
}

/// Whether a layout has the home that was found and the caches in it.
pub open spec fn homed(layout: Layout, log: Seq<Answer>, here: int, there: int) -> bool {
    &&& talk::gives(plan::cargo_home(log, here), layout.cargo_home, there)
    &&& plan::caches_from(
        plan::cache_candidates(layout.cargo_home),
        0,
        Seq::empty(),
        log,
        there,
    ) matches Ok((caches, _)) && caches == layout.cargo_cache_paths
}

/// Whether a layout has the runtime that was found, with a shell.
pub open spec fn equipped(layout: Layout, log: Seq<Answer>, here: int, there: int) -> bool {
    &&& talk::gives(
        plan::runtime_from(0, Seq::empty(), log, here),
        layout.runtime_mounts,
        there,
    )
    &&& plan::shell_present(log, there) is Ok
}

} // verus!

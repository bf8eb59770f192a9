//! Which directories a sandbox needs, and the order of its private paths.

use crate::order;
use crate::os;
use crate::path;
use crate::toolchain;
use vstd::prelude::*;

verus! {

// ---------------------------------------------------------------------------
// Private paths
// ---------------------------------------------------------------------------

proof fn lemma_without_repeats(list: Seq<Seq<u8>>, count: int)
    requires
        0 <= count <= list.len(),
    ensures
        ({
            let kept = order::without_repeats(list, count);
            &&& forall|i: int|
                0 <= i < count ==> toolchain::holds_path(kept, #[trigger] list[i])
            &&& forall|k: int| 0 <= k < kept.len() ==> list.contains(#[trigger] kept[k])
            &&& forall|k: int|
                0 < k < kept.len() ==> !path::same_path(kept[k - 1], #[trigger] kept[k])
            &&& count > 0 ==> kept.len() > 0 && path::same_path(kept.last(), list[count - 1])
        }),
    decreases count,
{
    if count > 0 {
        lemma_without_repeats(list, count - 1);
        let before = order::without_repeats(list, count - 1);
        let kept = order::without_repeats(list, count);
        assert forall|i: int| 0 <= i < count implies toolchain::holds_path(
            kept,
            #[trigger] list[i],
        ) by {
            if i < count - 1 {
                let k = choose|k: int|
                    0 <= k < before.len() && path::same_path(#[trigger] before[k], list[i]);
                assert(kept[k] == before[k]);
            } else {
                assert(path::same_path(kept[kept.len() - 1], list[i]));
            }
        }
        assert forall|k: int| 0 <= k < kept.len() implies list.contains(#[trigger] kept[k]) by {
            if k < before.len() {
                assert(kept[k] == before[k]);
            } else {
                assert(kept[k] == list[count - 1]);
            }
        }
        assert forall|k: int| 0 < k < kept.len() implies !path::same_path(
            kept[k - 1],
            #[trigger] kept[k],
        ) by {
            if k < before.len() {
                assert(kept[k] == before[k]);
                assert(kept[k - 1] == before[k - 1]);
            }
        }
    }
}

proof fn lemma_repeats_keep_depths(list: Seq<Seq<u8>>, count: int)
    requires
        0 <= count <= list.len(),
        forall|i: int, j: int|
            0 <= i <= j < list.len() ==> path::depth(#[trigger] list[i]) <= path::depth(
                #[trigger] list[j],
            ),
    ensures
        ({
            let kept = order::without_repeats(list, count);
            &&& forall|i: int, j: int|
                0 <= i <= j < kept.len() ==> path::depth(#[trigger] kept[i]) <= path::depth(
                    #[trigger] kept[j],
                )
            &&& forall|i: int|
                0 <= i < kept.len() && count > 0 ==> path::depth(#[trigger] kept[i])
                    <= path::depth(list[count - 1])
        }),
    decreases count,
{
    if count > 0 {
        lemma_repeats_keep_depths(list, count - 1);
        let before = order::without_repeats(list, count - 1);
        let kept = order::without_repeats(list, count);
        if count > 1 {
            assert(path::depth(list[count - 2]) <= path::depth(list[count - 1]));
        }
        assert forall|i: int| 0 <= i < kept.len() implies path::depth(#[trigger] kept[i])
            <= path::depth(list[count - 1]) by {
            if i < before.len() {
                assert(kept[i] == before[i]);
                if count == 1 {
                    assert(before.len() == 0);
                }
            }
        }
        assert forall|i: int, j: int| 0 <= i <= j < kept.len() implies path::depth(
            #[trigger] kept[i],
        ) <= path::depth(#[trigger] kept[j]) by {
            if j < before.len() {
                assert(kept[i] == before[i]);
                assert(kept[j] == before[j]);
            }
        }
    }
}

/// Private paths are mounted from the shallow ones to the deep ones. Each that
/// was listed is mounted, nothing else is, and none right after itself.
pub proof fn every_private_path_is_mounted(list: Seq<Seq<u8>>)
    ensures
        ({
            let ordered = order::private_order(list);
            &&& forall|i: int|
                0 <= i < list.len() ==> toolchain::holds_path(ordered, #[trigger] list[i])
            &&& forall|k: int| 0 <= k < ordered.len() ==> list.contains(#[trigger] ordered[k])
            &&& forall|i: int, j: int|
                0 <= i <= j < ordered.len() ==> path::depth(#[trigger] ordered[i]) <= path::depth(
                    #[trigger] ordered[j],
                )
            &&& forall|k: int|
                0 < k < ordered.len() ==> !path::same_path(ordered[k - 1], #[trigger] ordered[k])
        }),
{
    order::parents_come_first(list);
    let sorted = order::by_depth(list);
    let ordered = order::private_order(list);
    lemma_without_repeats(sorted, sorted.len() as int);
    lemma_repeats_keep_depths(sorted, sorted.len() as int);
    assert forall|i: int| 0 <= i < list.len() implies toolchain::holds_path(
        ordered,
        #[trigger] list[i],
    ) by {
        assert(list.contains(list[i]));
        assert(sorted.contains(list[i]));
        let k = choose|k: int| 0 <= k < sorted.len() && sorted[k] == list[i];
        assert(toolchain::holds_path(ordered, sorted[k]));
    }
    assert forall|k: int| 0 <= k < ordered.len() implies list.contains(#[trigger] ordered[k]) by {
        assert(sorted.contains(ordered[k]));
    }
}

// ---------------------------------------------------------------------------
// Directories
// ---------------------------------------------------------------------------

/// The path some steps above another.
pub open spec fn above(path: Seq<u8>, steps: nat) -> Option<Seq<u8>>
    decreases steps,
{
    if steps == 0 {
        Some(path)
    } else {
        match path::parent(path) {
            None => None,
            Some(directory) => above(directory, (steps - 1) as nat),
        }
    }
}

/// Whether a directory has to be created: it is not the root, and neither
/// blocked nor mounted itself.
pub open spec fn creatable(
    directory: Seq<u8>,
    blocked: Seq<Seq<u8>>,
    mounted: Seq<Seq<u8>>,
) -> bool {
    &&& !path::same_path(directory, os::lit("/"))
    &&& forall|i: int| 0 <= i < blocked.len() ==> !path::within(directory, #[trigger] blocked[i])
    &&& forall|i: int| 0 <= i < mounted.len() ==> !path::within(directory, #[trigger] mounted[i])
}

/// Whether every directory on the way up has to be created.
pub open spec fn clear(
    path: Seq<u8>,
    steps: nat,
    blocked: Seq<Seq<u8>>,
    mounted: Seq<Seq<u8>>,
) -> bool
    decreases steps,
{
    steps == 0 || (path::parent(path) matches Some(directory) && creatable(
        directory,
        blocked,
        mounted,
    ) && clear(directory, (steps - 1) as nat, blocked, mounted))
}

proof fn lemma_held_by_more(found: Seq<Seq<u8>>, more: Seq<u8>, place: Seq<u8>)
    requires
        toolchain::holds_path(found, place),
    ensures
        toolchain::holds_path(found.push(more), place),
{
    let k = choose|k: int| 0 <= k < found.len() && path::same_path(#[trigger] found[k], place);
    assert(found.push(more)[k] == found[k]);
}

proof fn lemma_climbed(
    path: Seq<u8>,
    blocked: Seq<Seq<u8>>,
    mounted: Seq<Seq<u8>>,
    found: Seq<Seq<u8>>,
)
    ensures
        ({
            let all = order::climbed(path, blocked, mounted, found);
            &&& forall|place: Seq<u8>| #[trigger]
                toolchain::holds_path(all, place) <== toolchain::holds_path(found, place)
            &&& forall|k: int|
                0 <= k < all.len() ==> found.contains(#[trigger] all[k]) || path::within(
                    path,
                    all[k],
                )
        }),
    decreases path::depth(path),
{
    if let Some(directory) = path::parent(path) {
        path::lemma_parent_parts(path);
        if !path::same_path(directory, os::lit("/")) && !order::is_blocked(
            directory,
            blocked,
            mounted,
        ) {
            let more = if toolchain::holds_path(found, directory) {
                found
            } else {
                found.push(directory)
            };
            let all = order::climbed(path, blocked, mounted, found);
            lemma_climbed(directory, blocked, mounted, more);
            assert(all == order::climbed(directory, blocked, mounted, more));
            assert forall|place: Seq<u8>| toolchain::holds_path(
                found,
                place,
            ) implies #[trigger] toolchain::holds_path(all, place) by {
                lemma_held_by_more(found, directory, place);
                assert(toolchain::holds_path(more, place));
            }
            assert forall|k: int| 0 <= k < all.len() implies found.contains(#[trigger] all[k])
                || path::within(path, all[k]) by {
                if more.contains(all[k]) {
                    let i = choose|i: int| 0 <= i < more.len() && more[i] == all[k];
                    if i < found.len() {
                        assert(found[i] == all[k]);
                    } else {
                        assert(all[k] == directory);
                    }
                } else {
                    assert(path::within(directory, all[k]));
                }
            }
        }
    }
}

proof fn lemma_climbs(
    path: Seq<u8>,
    steps: nat,
    blocked: Seq<Seq<u8>>,
    mounted: Seq<Seq<u8>>,
    found: Seq<Seq<u8>>,
)
    requires
        steps > 0,
        clear(path, steps, blocked, mounted),
    ensures
        above(path, steps) is Some,
        toolchain::holds_path(
            order::climbed(path, blocked, mounted, found),
            above(path, steps)->Some_0,
        ),
    decreases steps,
{
    let directory = path::parent(path)->Some_0;
    path::lemma_parent_parts(path);
    assert(!order::is_blocked(directory, blocked, mounted));
    let more = if toolchain::holds_path(found, directory) {
        found
    } else {
        found.push(directory)
    };
    if !toolchain::holds_path(found, directory) {
        assert(path::same_path(more[found.len() as int], directory));
    }
    assert(toolchain::holds_path(more, directory));
    lemma_climbed(directory, blocked, mounted, more);
    assert(order::climbed(path, blocked, mounted, found) == order::climbed(
        directory,
        blocked,
        mounted,
        more,
    ));
    assert(above(path, steps) == above(directory, (steps - 1) as nat));
    if steps == 1 {
        assert(above(directory, 0) == Some(directory));
    } else {
        lemma_climbs(directory, (steps - 1) as nat, blocked, mounted, more);
    }
}

proof fn lemma_above_all(
    paths: Seq<Seq<u8>>,
    blocked: Seq<Seq<u8>>,
    mounted: Seq<Seq<u8>>,
    count: int,
    index: int,
    steps: nat,
)
    requires
        0 <= index < count <= paths.len(),
        steps > 0,
        clear(paths[index], steps, blocked, mounted),
    ensures
        above(paths[index], steps) is Some,
        toolchain::holds_path(
            order::above_all(paths, blocked, mounted, count),
            above(paths[index], steps)->Some_0,
        ),
    decreases count,
{
    let before = order::above_all(paths, blocked, mounted, count - 1);
    lemma_climbed(paths[count - 1], blocked, mounted, before);
    if index == count - 1 {
        lemma_climbs(paths[index], steps, blocked, mounted, before);
    } else {
        lemma_above_all(paths, blocked, mounted, count - 1, index, steps);
    }
}

proof fn lemma_only_above(
    paths: Seq<Seq<u8>>,
    blocked: Seq<Seq<u8>>,
    mounted: Seq<Seq<u8>>,
    count: int,
)
    requires
        0 <= count <= paths.len(),
    ensures
        forall|k: int|
            0 <= k < order::above_all(paths, blocked, mounted, count).len() ==> holds_one(
                paths,
                #[trigger] order::above_all(paths, blocked, mounted, count)[k],
            ),
    decreases count,
{
    if count > 0 {
        lemma_only_above(paths, blocked, mounted, count - 1);
        let before = order::above_all(paths, blocked, mounted, count - 1);
        let all = order::above_all(paths, blocked, mounted, count);
        lemma_climbed(paths[count - 1], blocked, mounted, before);
        assert forall|k: int| 0 <= k < all.len() implies holds_one(paths, #[trigger] all[k]) by {
            if before.contains(all[k]) {
                let i = choose|i: int| 0 <= i < before.len() && before[i] == all[k];
                assert(holds_one(paths, before[i]));
            } else {
                assert(path::within(paths[count - 1], all[k]));
            }
        }
    }
}

/// Whether a directory holds one of some paths.
pub open spec fn holds_one(paths: Seq<Seq<u8>>, directory: Seq<u8>) -> bool {
    exists|i: int| 0 <= i < paths.len() && path::within(#[trigger] paths[i], directory)
}

/// Every directory above a path is created, up to the first that is there
/// already; and no directory that holds none of the paths.
pub proof fn every_directory_above_a_path_is_created(
    paths: Seq<Seq<u8>>,
    blocked: Seq<Seq<u8>>,
    mounted: Seq<Seq<u8>>,
)
    ensures
        forall|i: int, steps: nat|
            0 <= i < paths.len() && steps > 0 && #[trigger] clear(
                paths[i],
                steps,
                blocked,
                mounted,
            ) ==> (above(paths[i], steps) matches Some(directory) && toolchain::holds_path(
                order::needed_directories(paths, blocked, mounted),
                directory,
            )),
        forall|k: int|
            0 <= k < order::needed_directories(paths, blocked, mounted).len() ==> holds_one(
                paths,
                #[trigger] order::needed_directories(paths, blocked, mounted)[k],
            ),
{
    let found = order::above_all(paths, blocked, mounted, paths.len() as int);
    let needed = order::needed_directories(paths, blocked, mounted);
    order::parents_come_first(found);
    lemma_only_above(paths, blocked, mounted, paths.len() as int);
    assert forall|i: int, steps: nat|
        0 <= i < paths.len() && steps > 0 && #[trigger] clear(
            paths[i],
            steps,
            blocked,
            mounted,
        ) implies (above(paths[i], steps) matches Some(directory) && toolchain::holds_path(
        needed,
        directory,
    )) by {
        lemma_above_all(paths, blocked, mounted, paths.len() as int, i, steps);
        let directory = above(paths[i], steps)->Some_0;
        let k = choose|k: int|
            0 <= k < found.len() && path::same_path(#[trigger] found[k], directory);
        assert(found.contains(found[k]));
        assert(needed.contains(found[k]));
        let j = choose|j: int| 0 <= j < needed.len() && needed[j] == found[k];
        assert(path::same_path(needed[j], directory));
    }
    assert forall|k: int| 0 <= k < needed.len() implies holds_one(paths, #[trigger] needed[k]) by {
        assert(needed.contains(needed[k]));
        assert(found.contains(needed[k]));
        let i = choose|i: int| 0 <= i < found.len() && found[i] == needed[k];
        assert(holds_one(paths, found[i]));
    }
}

} // verus!

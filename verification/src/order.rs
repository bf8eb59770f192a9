//! Orders of paths: what must be mounted before what.

use crate::os;
use crate::os::{OsText, PathText};
use crate::path;
use crate::toolchain;
use vstd::prelude::*;

verus! {

/// Those of the first `count` paths that have `depth` components.
pub open spec fn of_depth(list: Seq<Seq<u8>>, depth: nat, count: int) -> Seq<Seq<u8>>
    decreases count,
{
    if count <= 0 {
        Seq::empty()
    } else if path::depth(list[count - 1]) == depth {
        of_depth(list, depth, count - 1).push(list[count - 1])
    } else {
        of_depth(list, depth, count - 1)
    }
}

/// The paths with fewer than `depth` components, the shorter ones first and
/// otherwise in their order.
pub open spec fn below_depth(list: Seq<Seq<u8>>, depth: nat) -> Seq<Seq<u8>>
    decreases depth,
{
    if depth == 0 {
        Seq::empty()
    } else {
        below_depth(list, (depth - 1) as nat) + of_depth(
            list,
            (depth - 1) as nat,
            list.len() as int,
        )
    }
}

/// The largest number of components among the first `count` paths.
pub open spec fn max_depth(list: Seq<Seq<u8>>, count: int) -> nat
    decreases count,
{
    if count <= 0 {
        0
    } else {
        let before = max_depth(list, count - 1);
        let last = path::depth(list[count - 1]);
        if last > before {
            last
        } else {
            before
        }
    }
}

/// The paths by the number of their components, otherwise in their order.
pub open spec fn by_depth(list: Seq<Seq<u8>>) -> Seq<Seq<u8>> {
    below_depth(list, max_depth(list, list.len() as int) + 1)
}

fn push_of_depth(ordered: &mut Vec<PathText>, list: &Vec<PathText>, depth: usize)
    ensures
        os::texts(final(ordered)@) == os::texts(old(ordered)@) + of_depth(
            os::texts(list@),
            depth as nat,
            list@.len() as int,
        ),
{
    let ghost all = os::texts(list@);
    let ghost before = os::texts(ordered@);
    let mut index: usize = 0;
    assert(os::texts(ordered@) =~= before + of_depth(all, depth as nat, 0));
    while index < list.len()
        invariant
            index <= list.len(),
            all == os::texts(list@),
            os::texts(ordered@) == before + of_depth(all, depth as nat, index as int),
        decreases list.len() - index,
    {
        assert(all[index as int] == list[index as int]@);
        if list[index].depth() == depth {
            os::push_text(ordered, &list[index]);
        }
        index = index + 1;
        assert(os::texts(ordered@) =~= before + of_depth(all, depth as nat, index as int));
    }
}

/// The paths by the number of their components, otherwise in their order.
pub fn sort_by_depth(list: &Vec<PathText>) -> (ordered: Vec<PathText>)
    ensures
        os::texts(ordered@) == by_depth(os::texts(list@)),
{
    let ghost all = os::texts(list@);
    let mut deepest: usize = 0;
    let mut index: usize = 0;
    while index < list.len()
        invariant
            index <= list.len(),
            all == os::texts(list@),
            deepest as nat == max_depth(all, index as int),
        decreases list.len() - index,
    {
        assert(all[index as int] == list[index as int]@);
        let depth = list[index].depth();
        if depth > deepest {
            deepest = depth;
        }
        index = index + 1;
    }
    let mut ordered: Vec<PathText> = Vec::new();
    let mut depth: usize = 0;
    assert(os::texts(ordered@) =~= below_depth(all, 0));
    while depth < deepest
        invariant
            depth <= deepest,
            all == os::texts(list@),
            os::texts(ordered@) == below_depth(all, depth as nat),
        decreases deepest - depth,
    {
        push_of_depth(&mut ordered, list, depth);
        depth = depth + 1;
    }
    push_of_depth(&mut ordered, list, depth);
    assert((depth as nat + 1 - 1) as nat == depth as nat);
    ordered
}

proof fn lemma_of_depth(list: Seq<Seq<u8>>, depth: nat, count: int)
    requires
        0 <= count <= list.len(),
    ensures
        forall|i: int|
            0 <= i < of_depth(list, depth, count).len() ==> path::depth(
                #[trigger] of_depth(list, depth, count)[i],
            ) == depth,
        forall|path: Seq<u8>|
            #[trigger] of_depth(list, depth, count).contains(path) <==> list.take(count).contains(
                path,
            ) && path::depth(path) == depth,
    decreases count,
{
    if count > 0 {
        lemma_of_depth(list, depth, count - 1);
        let before = of_depth(list, depth, count - 1);
        let after = of_depth(list, depth, count);
        let last = list[count - 1];
        let shorter = list.take(count - 1);
        let longer = list.take(count);
        assert(longer =~= shorter.push(last));
        assert forall|path: Seq<u8>| #[trigger] longer.contains(path) <==> shorter.contains(path)
            || path == last by {
            if shorter.contains(path) {
                let i = choose|i: int| 0 <= i < shorter.len() && shorter[i] == path;
                assert(longer[i] == path);
            }
            if path == last {
                assert(longer[count - 1] == path);
            }
        }
        assert forall|path: Seq<u8>| #[trigger] after.contains(path) <==> longer.contains(path)
            && path::depth(path) == depth by {
            if path::depth(last) == depth {
                assert(after == before.push(last));
                if before.contains(path) {
                    let i = choose|i: int| 0 <= i < before.len() && before[i] == path;
                    assert(after[i] == path);
                }
                if path == last {
                    assert(after[before.len() as int] == path);
                }
            }
        }
    }
}

proof fn lemma_below_depth(list: Seq<Seq<u8>>, depth: nat)
    ensures
        forall|i: int|
            0 <= i < below_depth(list, depth).len() ==> path::depth(
                #[trigger] below_depth(list, depth)[i],
            ) < depth,
        forall|i: int, j: int|
            0 <= i <= j < below_depth(list, depth).len() ==> path::depth(
                #[trigger] below_depth(list, depth)[i],
            ) <= path::depth(#[trigger] below_depth(list, depth)[j]),
        forall|path: Seq<u8>|
            #[trigger] below_depth(list, depth).contains(path) <==> list.contains(path)
                && path::depth(path) < depth,
    decreases depth,
{
    if depth > 0 {
        let level = (depth - 1) as nat;
        lemma_below_depth(list, level);
        lemma_of_depth(list, level, list.len() as int);
        assert(list.take(list.len() as int) =~= list);
        let head = below_depth(list, level);
        let tail = of_depth(list, level, list.len() as int);
        let all = below_depth(list, depth);
        assert(all == head + tail);
        assert forall|path: Seq<u8>| #[trigger] all.contains(path) <==> list.contains(path)
            && path::depth(path) < depth by {
            if head.contains(path) {
                let i = choose|i: int| 0 <= i < head.len() && head[i] == path;
                assert(all[i] == path);
            }
            if tail.contains(path) {
                let i = choose|i: int| 0 <= i < tail.len() && tail[i] == path;
                assert(all[head.len() + i] == path);
            }
            if all.contains(path) {
                let i = choose|i: int| 0 <= i < all.len() && all[i] == path;
                if i < head.len() {
                    assert(head[i] == path);
                } else {
                    assert(tail[i - head.len()] == path);
                }
            }
        }
    }
}

proof fn lemma_max_depth(list: Seq<Seq<u8>>, count: int)
    requires
        0 <= count <= list.len(),
    ensures
        forall|i: int|
            0 <= i < count ==> path::depth(#[trigger] list[i]) <= max_depth(list, count),
    decreases count,
{
    if count > 0 {
        lemma_max_depth(list, count - 1);
    }
}

/// Ordering by depth keeps exactly the same paths and puts no path before one
/// with fewer components; a directory therefore comes before what lies below
/// it.
pub proof fn parents_come_first(list: Seq<Seq<u8>>)
    ensures
        forall|i: int, j: int|
            0 <= i <= j < by_depth(list).len() ==> path::depth(#[trigger] by_depth(list)[i])
                <= path::depth(#[trigger] by_depth(list)[j]),
        forall|path: Seq<u8>| #[trigger] by_depth(list).contains(path) <==> list.contains(path),
        forall|i: int, j: int|
            0 <= i < by_depth(list).len() && 0 <= j < by_depth(list).len() && path::within(
                #[trigger] by_depth(list)[j],
                #[trigger] by_depth(list)[i],
            ) && !path::same_path(by_depth(list)[i], by_depth(list)[j]) ==> i < j,
{
    let bound = max_depth(list, list.len() as int) + 1;
    lemma_below_depth(list, bound);
    lemma_max_depth(list, list.len() as int);
    let ordered = by_depth(list);
    assert forall|path: Seq<u8>| #[trigger] ordered.contains(path) <==> list.contains(path) by {
        if list.contains(path) {
            let i = choose|i: int| 0 <= i < list.len() && list[i] == path;
            assert(path::depth(list[i]) < bound);
        }
    }
    assert forall|i: int, j: int|
        0 <= i < ordered.len() && 0 <= j < ordered.len() && path::within(
            #[trigger] ordered[j],
            #[trigger] ordered[i],
        ) && !path::same_path(ordered[i], ordered[j]) implies i < j by {
        let short = path::parts(ordered[i]);
        let long = path::parts(ordered[j]);
        if short.len() == long.len() {
            assert(short =~= long);
        }
        if j <= i {
            assert(path::depth(ordered[j]) <= path::depth(ordered[i]));
        }
    }
}

/// The first `count` paths without immediate repetitions.
pub open spec fn without_repeats(list: Seq<Seq<u8>>, count: int) -> Seq<Seq<u8>>
    decreases count,
{
    if count <= 0 {
        Seq::empty()
    } else {
        let before = without_repeats(list, count - 1);
        if before.len() > 0 && path::same_path(before.last(), list[count - 1]) {
            before
        } else {
            before.push(list[count - 1])
        }
    }
}

/// The order in which private filesystems are mounted.
pub open spec fn private_order(list: Seq<Seq<u8>>) -> Seq<Seq<u8>> {
    let ordered = by_depth(list);
    without_repeats(ordered, ordered.len() as int)
}

/// The order in which private filesystems are mounted: what contains others
/// comes first.
pub fn private_mount_order(paths: &Vec<PathText>) -> (ordered: Vec<PathText>)
    ensures
        os::texts(ordered@) == private_order(os::texts(paths@)),
{
    let sorted = sort_by_depth(paths);
    let ghost all = os::texts(sorted@);
    let mut kept: Vec<PathText> = Vec::new();
    let mut index: usize = 0;
    assert(os::texts(kept@) =~= Seq::empty());
    while index < sorted.len()
        invariant
            index <= sorted.len(),
            all == os::texts(sorted@),
            os::texts(kept@) == without_repeats(all, index as int),
        decreases sorted.len() - index,
    {
        assert(all[index as int] == sorted[index as int]@);
        let count = kept.len();
        assert(os::texts(kept@).len() == count);
        assert(count > 0 ==> os::texts(kept@).last() == kept[count - 1]@);
        let repeated = count > 0 && kept[count - 1].same_path(&sorted[index]);
        if !repeated {
            os::push_text(&mut kept, &sorted[index]);
        }
        index = index + 1;
    }
    kept
}

/// Whether a directory is created by something else: it lies below a blocked
/// path or below a mount of the runtime.
pub open spec fn is_blocked(
    directory: Seq<u8>,
    blocked: Seq<Seq<u8>>,
    mounted: Seq<Seq<u8>>,
) -> bool {
    toolchain::below_any(directory, blocked) || toolchain::below_any(directory, mounted)
}

/// The directories above a path, up to the root or to what is created by
/// something else, added to `found`.
pub open spec fn climbed(
    path: Seq<u8>,
    blocked: Seq<Seq<u8>>,
    mounted: Seq<Seq<u8>>,
    found: Seq<Seq<u8>>,
) -> Seq<Seq<u8>>
    decreases path::depth(path),
{
    match path::parent(path) {
        None => found,
        Some(directory) => if path::same_path(directory, os::lit("/")) || is_blocked(
            directory,
            blocked,
            mounted,
        ) {
            found
        } else {
            proof {
                path::lemma_parent_parts(path);
            }
            climbed(
                directory,
                blocked,
                mounted,
                if toolchain::holds_path(found, directory) {
                    found
                } else {
                    found.push(directory)
                },
            )
        },
    }
}

/// The directories above the first `count` paths.
pub open spec fn above_all(
    paths: Seq<Seq<u8>>,
    blocked: Seq<Seq<u8>>,
    mounted: Seq<Seq<u8>>,
    count: int,
) -> Seq<Seq<u8>>
    decreases count,
{
    if count <= 0 {
        Seq::empty()
    } else {
        climbed(
            paths[count - 1],
            blocked,
            mounted,
            above_all(paths, blocked, mounted, count - 1),
        )
    }
}

/// The directories to create before paths can be mounted.
pub open spec fn needed_directories(
    paths: Seq<Seq<u8>>,
    blocked: Seq<Seq<u8>>,
    mounted: Seq<Seq<u8>>,
) -> Seq<Seq<u8>> {
    by_depth(above_all(paths, blocked, mounted, paths.len() as int))
}

fn climb(
    path: &PathText,
    blocked: &Vec<PathText>,
    mounted: &Vec<PathText>,
    found: Vec<PathText>,
) -> (extended: Vec<PathText>)
    ensures
        os::texts(extended@) == climbed(
            path@,
            os::texts(blocked@),
            os::texts(mounted@),
            os::texts(found@),
        ),
{
    let root = OsText::new("/");
    let mut extended = found;
    let mut current = path.clone();
    loop
        invariant
            root@ == os::lit("/"),
            climbed(path@, os::texts(blocked@), os::texts(mounted@), os::texts(found@)) == climbed(
                current@,
                os::texts(blocked@),
                os::texts(mounted@),
                os::texts(extended@),
            ),
        decreases path::depth(current@),
    {
        let directory = match current.parent() {
            Some(directory) => directory,
            None => {
                return extended;
            },
        };
        if directory.same_path(&root) || toolchain::starts_with_any(&directory, blocked)
            || toolchain::starts_with_any(&directory, mounted) {
            return extended;
        }
        proof {
            path::lemma_parent_parts(current@);
        }
        if !toolchain::contains_path(&extended, &directory) {
            os::push_text(&mut extended, &directory);
        }
        current = directory;
    }
}

/// The directories to create before paths can be mounted, parents first.
pub fn collect_parent_directories(
    paths: &Vec<PathText>,
    blocked: &Vec<PathText>,
    mounted: &Vec<PathText>,
) -> (directories: Vec<PathText>)
    ensures
        os::texts(directories@) == needed_directories(
            os::texts(paths@),
            os::texts(blocked@),
            os::texts(mounted@),
        ),
{
    let ghost all = os::texts(paths@);
    let mut found: Vec<PathText> = Vec::new();
    let mut index: usize = 0;
    assert(os::texts(found@) =~= Seq::empty());
    while index < paths.len()
        invariant
            index <= paths.len(),
            all == os::texts(paths@),
            os::texts(found@) == above_all(
                all,
                os::texts(blocked@),
                os::texts(mounted@),
                index as int,
            ),
        decreases paths.len() - index,
    {
        assert(all[index as int] == paths[index as int]@);
        found = climb(&paths[index], blocked, mounted, found);
        index = index + 1;
    }
    sort_by_depth(&found)
}

proof fn lemma_climbed_unblocked(
    path: Seq<u8>,
    blocked: Seq<Seq<u8>>,
    mounted: Seq<Seq<u8>>,
    found: Seq<Seq<u8>>,
)
    requires
        forall|i: int|
            0 <= i < found.len() ==> !is_blocked(#[trigger] found[i], blocked, mounted)
                && !path::same_path(found[i], os::lit("/")),
    ensures
        forall|i: int|
            0 <= i < climbed(path, blocked, mounted, found).len() ==> !is_blocked(
                #[trigger] climbed(path, blocked, mounted, found)[i],
                blocked,
                mounted,
            ) && !path::same_path(climbed(path, blocked, mounted, found)[i], os::lit("/")),
    decreases path::depth(path),
{
    if let Some(directory) = path::parent(path) {
        if !(path::same_path(directory, os::lit("/")) || is_blocked(directory, blocked, mounted)) {
            path::lemma_parent_parts(path);
            let next = if toolchain::holds_path(found, directory) {
                found
            } else {
                found.push(directory)
            };
            lemma_climbed_unblocked(directory, blocked, mounted, next);
            assert(climbed(path, blocked, mounted, found) == climbed(
                directory,
                blocked,
                mounted,
                next,
            ));
        } else {
            assert(climbed(path, blocked, mounted, found) == found);
        }
    } else {
        assert(climbed(path, blocked, mounted, found) == found);
    }
}

proof fn lemma_above_all_unblocked(
    paths: Seq<Seq<u8>>,
    blocked: Seq<Seq<u8>>,
    mounted: Seq<Seq<u8>>,
    count: int,
)
    requires
        0 <= count <= paths.len(),
    ensures
        forall|i: int|
            0 <= i < above_all(paths, blocked, mounted, count).len() ==> !is_blocked(
                #[trigger] above_all(paths, blocked, mounted, count)[i],
                blocked,
                mounted,
            ) && !path::same_path(above_all(paths, blocked, mounted, count)[i], os::lit("/")),
    decreases count,
{
    if count > 0 {
        lemma_above_all_unblocked(paths, blocked, mounted, count - 1);
        lemma_climbed_unblocked(
            paths[count - 1],
            blocked,
            mounted,
            above_all(paths, blocked, mounted, count - 1),
        );
    }
}

/// No directory is created inside a private filesystem, inside the runtime, or
/// at the root.
pub proof fn created_directories_stay_clear(
    paths: Seq<Seq<u8>>,
    blocked: Seq<Seq<u8>>,
    mounted: Seq<Seq<u8>>,
)
    ensures
        forall|i: int|
            0 <= i < needed_directories(paths, blocked, mounted).len() ==> !is_blocked(
                #[trigger] needed_directories(paths, blocked, mounted)[i],
                blocked,
                mounted,
            ) && !path::same_path(needed_directories(paths, blocked, mounted)[i], os::lit("/")),
{
    let found = above_all(paths, blocked, mounted, paths.len() as int);
    lemma_above_all_unblocked(paths, blocked, mounted, paths.len() as int);
    parents_come_first(found);
    let ordered = needed_directories(paths, blocked, mounted);
    assert forall|i: int| 0 <= i < ordered.len() implies !is_blocked(
        #[trigger] ordered[i],
        blocked,
        mounted,
    ) && !path::same_path(ordered[i], os::lit("/")) by {
        assert(ordered.contains(ordered[i]));
        let j = choose|j: int| 0 <= j < found.len() && found[j] == ordered[i];
        assert(found[j] == ordered[i]);
    }
}

/// The first `count` paths without those below an earlier one.
pub open spec fn roots_of(list: Seq<Seq<u8>>, count: int) -> Seq<Seq<u8>>
    decreases count,
{
    if count <= 0 {
        Seq::empty()
    } else {
        let before = roots_of(list, count - 1);
        if toolchain::below_any(list[count - 1], before) {
            before
        } else {
            before.push(list[count - 1])
        }
    }
}

/// The paths that are not below others.
pub open spec fn unique_roots(list: Seq<Seq<u8>>) -> Seq<Seq<u8>> {
    roots_of(by_depth(list), by_depth(list).len() as int)
}

/// The paths that are not below others, the shorter ones first.
pub fn unique_mount_roots(paths: &Vec<PathText>) -> (roots: Vec<PathText>)
    ensures
        os::texts(roots@) == unique_roots(os::texts(paths@)),
{
    let sorted = sort_by_depth(paths);
    let ghost all = os::texts(sorted@);
    let mut roots: Vec<PathText> = Vec::new();
    let mut index: usize = 0;
    assert(os::texts(roots@) =~= Seq::empty());
    while index < sorted.len()
        invariant
            index <= sorted.len(),
            all == os::texts(sorted@),
            os::texts(roots@) == roots_of(all, index as int),
        decreases sorted.len() - index,
    {
        assert(all[index as int] == sorted[index as int]@);
        if !toolchain::starts_with_any(&sorted[index], &roots) {
            os::push_text(&mut roots, &sorted[index]);
        }
        index = index + 1;
    }
    roots
}

proof fn lemma_roots(list: Seq<Seq<u8>>, count: int)
    requires
        0 <= count <= list.len(),
        forall|i: int, j: int|
            0 <= i <= j < list.len() ==> path::depth(#[trigger] list[i]) <= path::depth(
                #[trigger] list[j],
            ),
    ensures
        forall|i: int|
            0 <= i < count ==> toolchain::below_any(#[trigger] list[i], roots_of(list, count)),
        forall|i: int, j: int|
            0 <= i < roots_of(list, count).len() && 0 <= j < roots_of(list, count).len() && i != j
                ==> !path::within(
                #[trigger] roots_of(list, count)[i],
                #[trigger] roots_of(list, count)[j],
            ),
        forall|i: int|
            0 <= i < roots_of(list, count).len() ==> list.contains(
                #[trigger] roots_of(list, count)[i],
            ),
        forall|i: int, j: int|
            0 <= i <= j < roots_of(list, count).len() ==> path::depth(
                #[trigger] roots_of(list, count)[i],
            ) <= path::depth(#[trigger] roots_of(list, count)[j]),
        count > 0 ==> forall|i: int|
            0 <= i < roots_of(list, count).len() ==> path::depth(
                #[trigger] roots_of(list, count)[i],
            ) <= path::depth(list[count - 1]),
    decreases count,
{
    if count > 0 {
        lemma_roots(list, count - 1);
        let before = roots_of(list, count - 1);
        let after = roots_of(list, count);
        let last = list[count - 1];
        if count > 1 {
            assert(path::depth(list[count - 2]) <= path::depth(last));
        }
        assert forall|i: int| 0 <= i < count implies toolchain::below_any(
            #[trigger] list[i],
            after,
        ) by {
            if i < count - 1 {
                let k = choose|k: int|
                    0 <= k < before.len() && path::within(list[i], #[trigger] before[k]);
                assert(after[k] == before[k]);
            } else if !toolchain::below_any(last, before) {
                assert(after[before.len() as int] == last);
                assert(path::within(last, after[before.len() as int]));
            }
        }
        if !toolchain::below_any(last, before) {
            assert(after == before.push(last));
            assert forall|i: int, j: int|
                0 <= i < after.len() && 0 <= j < after.len() && i != j implies !path::within(
                #[trigger] after[i],
                #[trigger] after[j],
            ) by {
                if i == before.len() {
                    assert(after[j] == before[j]);
                } else if j == before.len() {
                    assert(after[i] == before[i]);
                    if path::within(before[i], last) {
                        // A shorter path below a longer one is the same path.
                        assert(path::depth(before[i]) <= path::depth(last));
                        assert(path::parts(last) =~= path::parts(before[i]));
                        assert(path::within(last, before[i]));
                    }
                } else {
                    assert(after[i] == before[i] && after[j] == before[j]);
                }
            }
            assert forall|i: int, j: int| 0 <= i <= j < after.len() implies path::depth(
                #[trigger] after[i],
            ) <= path::depth(#[trigger] after[j]) by {
                if i < before.len() {
                    assert(after[i] == before[i]);
                }
                if j < before.len() {
                    assert(after[j] == before[j]);
                }
            }
            assert forall|i: int| 0 <= i < after.len() implies list.contains(
                #[trigger] after[i],
            ) by {
                if i == before.len() {
                    assert(list[count - 1] == after[i]);
                } else {
                    assert(after[i] == before[i]);
                }
            }
        }
    }
}

/// The roots cover every path, are among the paths, none of them lies below
/// another, and none comes before one with fewer components.
pub proof fn roots_cover_without_nesting(list: Seq<Seq<u8>>)
    ensures
        forall|i: int|
            0 <= i < list.len() ==> toolchain::below_any(#[trigger] list[i], unique_roots(list)),
        forall|i: int|
            0 <= i < unique_roots(list).len() ==> list.contains(#[trigger] unique_roots(list)[i]),
        forall|i: int, j: int|
            0 <= i < unique_roots(list).len() && 0 <= j < unique_roots(list).len() && i != j
                ==> !path::within(
                #[trigger] unique_roots(list)[i],
                #[trigger] unique_roots(list)[j],
            ),
        forall|i: int, j: int|
            0 <= i <= j < unique_roots(list).len() ==> path::depth(
                #[trigger] unique_roots(list)[i],
            ) <= path::depth(#[trigger] unique_roots(list)[j]),
{
    parents_come_first(list);
    let ordered = by_depth(list);
    lemma_roots(ordered, ordered.len() as int);
    let roots = unique_roots(list);
    assert forall|i: int| 0 <= i < list.len() implies toolchain::below_any(
        #[trigger] list[i],
        roots,
    ) by {
        assert(list.contains(list[i]));
        assert(ordered.contains(list[i]));
        let j = choose|j: int| 0 <= j < ordered.len() && ordered[j] == list[i];
        assert(toolchain::below_any(ordered[j], roots));
    }
    assert forall|i: int| 0 <= i < roots.len() implies list.contains(#[trigger] roots[i]) by {
        assert(ordered.contains(roots[i]));
    }
}

} // verus!

//! Walks over host paths that refuse to follow symlinks.

use crate::error::{Fault, IoFault};
use crate::flow;
use crate::flow::{Answer, Course, FileKind, Flow, Pause, Query, Question, Stat};
use crate::os;
use crate::os::{OsText, PathText};
use crate::path;
use crate::path::Component;
use crate::text;
use crate::text::Compose;
use vstd::prelude::*;
use vstd::string::*;

verus! {

/// The canonical form of a path, or an error that says what it is for.
pub open spec fn resolved(
    path: Seq<u8>,
    purpose: Seq<char>,
    log: Seq<Answer>,
    at: int,
) -> Course<Seq<u8>> {
    match flow::place(Query::Resolve(path), log, at) {
        Err(pause) => Err(pause),
        Ok((Ok(canonical), at)) => Ok((canonical, at)),
        Ok((Err(failure), at)) => Err(
            flow::io_pause(purpose + os::lossy_text(path), failure, at),
        ),
    }
}

/// Asks for the canonical form of `path`; `purpose` introduces it in errors.
pub fn resolve(path: &PathText, purpose: &str, log: &Vec<Answer>, at: usize) -> (canonical: Flow<
    PathText,
>)
    ensures
        flow::course(canonical) == resolved(path@, purpose@, log@, at as int),
{
    let (reply, at) = flow::ask_place(Question::Resolve(path.clone()), log, at)?;
    match reply {
        Ok(canonical) => Ok((canonical, at)),
        Err(failure) => {
            let context = text::owned(purpose).with(path.display().as_str());
            Err(flow::io_halt(context.as_str(), &failure, at))
        },
    }
}

/// The walk of `canonical_existing_path_without_symlinks` from component
/// `index` on: every component so far is a directory and not a symlink.
pub open spec fn existing_from(
    path: Seq<u8>,
    label: Seq<char>,
    index: int,
    log: Seq<Answer>,
    at: int,
) -> Course<Seq<u8>>
    decreases path::parts(path).len() - index,
{
    let all = path::parts(path);
    if index < 0 || index >= all.len() {
        resolved(path, "could not canonicalize "@ + label + " "@, log, at)
    } else {
        let current = path::prefix(all, index + 1);
        match flow::entry(Query::Inspect(current), log, at) {
            Err(pause) => Err(pause),
            Ok((Err(failure), at)) => Err(
                flow::io_pause(
                    "could not inspect "@ + label + " component "@ + os::lossy_text(current),
                    failure,
                    at,
                ),
            ),
            Ok((Ok(stat), at)) => if stat.kind == FileKind::Symlink {
                Err(
                    flow::refusal(
                        path,
                        "the "@ + label + " must not contain symlink components"@,
                        "replace the symlink component with a real path and retry"@,
                        at,
                    ),
                )
            } else if index + 1 < all.len() && stat.kind != FileKind::Directory {
                Err(
                    flow::refusal(
                        current,
                        label + " parent components must be directories"@,
                        "replace the conflicting file with a directory and retry"@,
                        at,
                    ),
                )
            } else {
                existing_from(path, label, index + 1, log, at)
            },
        }
    }
}

/// The canonical form of an absolute path without `..` whose components all
/// exist and are not symlinks.
#[verifier::opaque]
pub open spec fn existing(path: Seq<u8>, label: Seq<char>, log: Seq<Answer>, at: int) -> Course<
    Seq<u8>,
> {
    if !path::absolute(path) {
        Err(
            flow::refusal(
                path,
                "the "@ + label + " must be an absolute path"@,
                "pass an absolute path before starting the sandbox"@,
                at,
            ),
        )
    } else if path::has_parent_part(path) {
        Err(
            flow::refusal(
                path,
                "the "@ + label + " must not contain parent-directory traversal"@,
                "pass the canonical path without `..` components"@,
                at,
            ),
        )
    } else {
        existing_from(path, label, 0, log, at)
    }
}

/// Canonicalize an existing path without following any symlink component.
///
/// The caller still decides whether the resulting path is allowed by its
/// policy. This helper only provides the shared, fail-closed resolution rule so
/// Cargo integration and platform backends cannot accidentally disagree.
pub fn canonical_existing_path_without_symlinks(
    path: &PathText,
    label: &str,
    log: &Vec<Answer>,
    at: usize,
) -> (canonical: Flow<PathText>)
    ensures
        flow::course(canonical) == existing(path@, label@, log@, at as int),
{
    proof {
        reveal(existing);
    }
    if !path.is_absolute() {
        let rule = text::owned("the ").with(label).with(" must be an absolute path");
        return Err(
            flow::refuse(
                path,
                rule.as_str(),
                "pass an absolute path before starting the sandbox",
                at,
            ),
        );
    }
    if path.has_parent_component() {
        let rule = text::owned("the ").with(label).with(
            " must not contain parent-directory traversal",
        );
        return Err(
            flow::refuse(
                path,
                rule.as_str(),
                "pass the canonical path without `..` components",
                at,
            ),
        );
    }
    let components = path.components();
    let ghost all = path::parts(path@);
    let ghost start = at as int;
    let mut current = OsText { bytes: Vec::new() };
    let mut index: usize = 0;
    let mut used: usize = at;
    assert(current@ =~= path::prefix(all, 0));
    while index < components.len()
        invariant
            index <= components.len() == all.len(),
            all == path::parts(path@),
            components@.map_values(|component: Component| component@) == all,
            current@ == path::prefix(all, index as int),
            existing(path@, label@, log@, start) == existing_from(
                path@,
                label@,
                index as int,
                log@,
                used as int,
            ),
            start == at,
        decreases components.len() - index,
    {
        assert(all[index as int] == components[index as int]@);
        current = path::grow(&current, &components[index]);
        let (reply, next) = flow::ask_entry(Question::Inspect(current.clone()), log, used)?;
        match reply {
            Err(failure) => {
                let context = text::owned("could not inspect ").with(label).with(
                    " component ",
                ).with(current.display().as_str());
                return Err(flow::io_halt(context.as_str(), &failure, next));
            },
            Ok(stat) => {
                if stat.is_symlink() {
                    let rule = text::owned("the ").with(label).with(
                        " must not contain symlink components",
                    );
                    return Err(
                        flow::refuse(
                            path,
                            rule.as_str(),
                            "replace the symlink component with a real path and retry",
                            next,
                        ),
                    );
                }
                if index + 1 < components.len() && !stat.is_dir() {
                    let rule = text::owned(label).with(" parent components must be directories");
                    return Err(
                        flow::refuse(
                            &current,
                            rule.as_str(),
                            "replace the conflicting file with a directory and retry",
                            next,
                        ),
                    );
                }
            },
        }
        used = next;
        index = index + 1;
    }
    resolve(
        path,
        text::owned("could not canonicalize ").with(label).with(" ").as_str(),
        log,
        used,
    )
}

/// An accepted walk has seen every component, in order, as something other
/// than a symlink, and every component but the last as a directory; the result
/// is what the host then resolved the path to.
pub proof fn accepted_walk_saw_no_symlink(
    path: Seq<u8>,
    label: Seq<char>,
    log: Seq<Answer>,
    at: int,
)
    requires
        existing(path, label, log, at) is Ok,
        0 <= at,
    ensures
        path::absolute(path),
        !path::has_parent_part(path),
        at + path::parts(path).len() < log.len(),
        forall|i: int|
            0 <= i < path::parts(path).len() ==> {
                &&& (#[trigger] log[at + i]) is Entry
                &&& log[at + i]->Entry_0 is Ok
                &&& log[at + i]->Entry_0->Ok_0.kind != FileKind::Symlink
                &&& i + 1 < path::parts(path).len() ==> log[at + i]->Entry_0->Ok_0.kind
                    == FileKind::Directory
            },
        log[at + path::parts(path).len()] is Place,
        log[at + path::parts(path).len()]->Place_0 is Ok,
        existing(path, label, log, at)->Ok_0 == (
            log[at + path::parts(path).len()]->Place_0->Ok_0@,
            at + path::parts(path).len() + 1,
        ),
{
    reveal(existing);
    lemma_accepted_from(path, label, 0, log, at);
}

proof fn lemma_accepted_from(
    path: Seq<u8>,
    label: Seq<char>,
    index: int,
    log: Seq<Answer>,
    at: int,
)
    requires
        existing_from(path, label, index, log, at) is Ok,
        0 <= index <= path::parts(path).len(),
        0 <= at,
    ensures
        at + path::parts(path).len() - index < log.len(),
        forall|i: int|
            index <= i < path::parts(path).len() ==> {
                &&& (#[trigger] log[at - index + i]) is Entry
                &&& log[at - index + i]->Entry_0 is Ok
                &&& log[at - index + i]->Entry_0->Ok_0.kind != FileKind::Symlink
                &&& i + 1 < path::parts(path).len() ==> log[at - index + i]->Entry_0->Ok_0.kind
                    == FileKind::Directory
            },
        log[at + path::parts(path).len() - index] is Place,
        log[at + path::parts(path).len() - index]->Place_0 is Ok,
        existing_from(path, label, index, log, at)->Ok_0 == (
            log[at + path::parts(path).len() - index]->Place_0->Ok_0@,
            at + path::parts(path).len() - index + 1,
        ),
    decreases path::parts(path).len() - index,
{
    if index < path::parts(path).len() {
        lemma_accepted_from(path, label, index + 1, log, at + 1);
        assert forall|i: int| index <= i < path::parts(path).len() implies {
            &&& (#[trigger] log[at - index + i]) is Entry
            &&& log[at - index + i]->Entry_0 is Ok
            &&& log[at - index + i]->Entry_0->Ok_0.kind != FileKind::Symlink
            &&& i + 1 < path::parts(path).len() ==> log[at - index + i]->Entry_0->Ok_0.kind
                == FileKind::Directory
        } by {
            if i > index {
                assert(log[(at + 1) - (index + 1) + i] == log[at - index + i]);
            }
        }
    }
}

/// A path that is not absolute or climbs with `..` is refused at once, whatever
/// the host holds.
pub proof fn relative_and_climbing_paths_are_refused(
    path: Seq<u8>,
    label: Seq<char>,
    log: Seq<Answer>,
    at: int,
)
    requires
        !path::absolute(path) || path::has_parent_part(path),
    ensures
        existing(path, label, log, at) matches Err(Pause::Fail(fault, used)) && fault is Policy
            && used == at,
{
    reveal(existing);
}

/// A host that does not change: what stands at each path, and what each path
/// resolves to.
pub struct Tree {
    pub entries: spec_fn(Seq<u8>) -> Result<Stat, IoFault>,
    pub canonical: spec_fn(Seq<u8>) -> Result<Seq<u8>, IoFault>,
}

impl Tree {
    /// Whether every component is there and none is a symlink.
    pub open spec fn is_real(self, path: Seq<u8>) -> bool {
        forall|i: int|
            0 <= i < path::parts(path).len() ==> self.real_part(path::parts(path), i)
    }

    /// Whether component `index` is there and not a symlink.
    pub open spec fn real_part(self, all: Seq<path::Part>, index: int) -> bool {
        (self.entries)(path::prefix(all, index + 1)) matches Ok(stat) && stat.kind
            != FileKind::Symlink
    }

    /// What resolution means: the canonical form resolves to itself, and a path
    /// without `..` and without symlinks resolves to its own components.
    pub open spec fn sound(self) -> bool {
        &&& forall|path: Seq<u8>|
            (#[trigger] (self.canonical)(path)) is Ok ==> (self.canonical)(
                (self.canonical)(path)->Ok_0,
            ) == (self.canonical)(path)
        &&& forall|path: Seq<u8>|
            path::absolute(path) && !path::has_parent_part(path) && self.is_real(path) && (
            #[trigger] (self.canonical)(path)) is Ok ==> (self.canonical)(path)->Ok_0
                == path::prefix(path::parts(path), path::parts(path).len() as int)
    }

    /// Whether the answers from `at` on are the host's about the components of
    /// a path, in order, and then about where it resolves to.
    pub open spec fn answers(self, path: Seq<u8>, log: Seq<Answer>, at: int) -> bool {
        let all = path::parts(path);
        &&& forall|i: int| 0 <= i < all.len() ==> self.answers_part(all, i, log, at)
        &&& flow::place(Query::Resolve(path), log, at + all.len()) == Ok::<
            (Result<Seq<u8>, IoFault>, int),
            Pause,
        >(((self.canonical)(path), at + all.len() + 1))
    }

    /// Whether the host's answer about component `index` stands in its place.
    pub open spec fn answers_part(
        self,
        all: Seq<path::Part>,
        index: int,
        log: Seq<Answer>,
        at: int,
    ) -> bool {
        let current = path::prefix(all, index + 1);
        flow::entry(Query::Inspect(current), log, at + index) == Ok::<
            (Result<Stat, IoFault>, int),
            Pause,
        >(((self.entries)(current), at + index + 1))
    }
}

/// On a host that does not change, an accepted path has no symlink among its
/// components, its canonical form consists of the same components, and a second
/// walk over that form accepts it unchanged.
pub proof fn accepted_paths_are_accepted_again(
    tree: Tree,
    path: Seq<u8>,
    label: Seq<char>,
    log: Seq<Answer>,
    at: int,
)
    requires
        tree.sound(),
        tree.answers(path, log, at),
        existing(path, label, log, at) is Ok,
        tree.answers(
            existing(path, label, log, at)->Ok_0.0,
            log,
            existing(path, label, log, at)->Ok_0.1,
        ),
    ensures
        tree.is_real(path),
        (tree.canonical)(path) == Ok::<Seq<u8>, IoFault>(existing(path, label, log, at)->Ok_0.0),
        path::same_path(existing(path, label, log, at)->Ok_0.0, path),
        ({
            let (canonical, next) = existing(path, label, log, at)->Ok_0;
            existing(canonical, label, log, next) matches Ok((again, _)) && again == canonical
        }),
{
    reveal(existing);
    let all = path::parts(path);
    let (canonical, next) = existing(path, label, log, at)->Ok_0;
    lemma_walked(tree, path, label, 0, log, at);
    assert forall|i: int| 0 <= i < all.len() implies tree.real_part(all, i) by {
        assert(passable(tree, all, i));
    }
    path::lemma_parts_shape(path);
    assert forall|i: int| 0 < i < all.len() implies #[trigger] all[i] is Name by {
        assert(all[i] != path::Part::Parent);
    }
    assert(canonical == path::prefix(all, all.len() as int));
    path::lemma_rendered_parts(all, all.len() as int);
    assert(all.take(all.len() as int) =~= all);
    lemma_walks(tree, canonical, label, 0, log, next);
}

/// Whether component `index` of so many may stand on an accepted path.
spec fn passable(tree: Tree, all: Seq<path::Part>, index: int) -> bool {
    &&& tree.real_part(all, index)
    &&& index + 1 < all.len() ==> (tree.entries)(path::prefix(all, index + 1))->Ok_0.kind
        == FileKind::Directory
}

proof fn lemma_walked(
    tree: Tree,
    path: Seq<u8>,
    label: Seq<char>,
    index: int,
    log: Seq<Answer>,
    at: int,
)
    requires
        0 <= index <= path::parts(path).len(),
        tree.answers(path, log, at),
        existing_from(path, label, index, log, at + index) is Ok,
    ensures
        forall|i: int|
            index <= i < path::parts(path).len() ==> #[trigger] passable(
                tree,
                path::parts(path),
                i,
            ),
        (tree.canonical)(path) is Ok,
        existing_from(path, label, index, log, at + index)->Ok_0.0 == (tree.canonical)(path)->Ok_0,
    decreases path::parts(path).len() - index,
{
    let all = path::parts(path);
    if index < all.len() {
        assert(tree.answers_part(all, index, log, at));
        assert(passable(tree, all, index));
        lemma_walked(tree, path, label, index + 1, log, at);
    }
}

proof fn lemma_walks(
    tree: Tree,
    path: Seq<u8>,
    label: Seq<char>,
    index: int,
    log: Seq<Answer>,
    at: int,
)
    requires
        0 <= index <= path::parts(path).len(),
        tree.answers(path, log, at),
        forall|i: int|
            0 <= i < path::parts(path).len() ==> #[trigger] passable(tree, path::parts(path), i),
        (tree.canonical)(path) is Ok,
    ensures
        existing_from(path, label, index, log, at + index) is Ok,
        existing_from(path, label, index, log, at + index)->Ok_0.0 == (tree.canonical)(path)->Ok_0,
    decreases path::parts(path).len() - index,
{
    let all = path::parts(path);
    if index < all.len() {
        assert(tree.answers_part(all, index, log, at));
        assert(passable(tree, all, index));
        lemma_walks(tree, path, label, index + 1, log, at);
    }
}

} // verus!

//! The target directory and the lockfile: the only places that a build may
//! change.

use crate::error::IoKind;
use crate::flow;
use crate::flow::{Answer, Course, FileKind, Flow, Pause, Query, Question, Stat};
use crate::os;
use crate::os::{OsText, PathText};
use crate::path;
use crate::path::Component;
use crate::text;
use crate::text::Compose;
use crate::walk;
use vstd::prelude::*;
use vstd::string::*;

verus! {

pub const SYMLINK_RULE: &'static str =
    "the writable target path must not contain symlink components";

pub const SYMLINK_REMEDY: &'static str = "replace the symlink with a real directory";

pub const DIRECTORY_RULE: &'static str = "every target path component must be a directory";

pub const DIRECTORY_REMEDY: &'static str =
    "remove the conflicting file and retry with a directory path";

pub const OUTSIDE_RULE: &'static str =
    "the target directory must be inside the canonical workspace; paths outside the workspace are forbidden";

pub const OUTSIDE_REMEDY: &'static str = "choose --target-dir below the workspace directory";

pub open spec fn inspect_context(current: Seq<u8>) -> Seq<char> {
    "could not inspect target path "@ + os::lossy_text(current)
}

fn inspect_context_text(current: &PathText) -> (text: String)
    ensures
        text@ == inspect_context(current@),
{
    text::owned("could not inspect target path ").with(current.display().as_str())
}

/// The directory that holds a name; the root stands for itself.
pub open spec fn holder(current: Seq<u8>) -> Seq<u8> {
    match path::parent(current) {
        Some(above) => above,
        None => os::lit("/"),
    }
}

/// A symlink on the way to the target: allowed only where neither the place
/// that holds it nor what it leads to belongs to the workspace. The result says
/// whether it leads to a directory.
pub open spec fn outside_symlink(
    current: Seq<u8>,
    workspace: Seq<u8>,
    log: Seq<Answer>,
    at: int,
) -> Course<bool> {
    match walk::resolved(
        holder(current),
        "could not canonicalize target path parent "@,
        log,
        at,
    ) {
        Err(pause) => Err(pause),
        Ok((parent, at)) => match flow::place(Query::Resolve(current), log, at) {
            Err(pause) => Err(pause),
            Ok((Err(_), at)) => Err(
                flow::refusal(
                    current,
                    "the writable target path must not contain unresolved symlink components"@,
                    "replace the dangling symlink with a real directory"@,
                    at,
                ),
            ),
            Ok((Ok(destination), at)) => if path::within(parent, workspace) || path::within(
                destination,
                workspace,
            ) {
                Err(flow::refusal(current, SYMLINK_RULE@, SYMLINK_REMEDY@, at))
            } else {
                match flow::entry(Query::Follow(current), log, at) {
                    Err(pause) => Err(pause),
                    Ok((Err(failure), at)) => Err(
                        flow::io_pause(inspect_context(current), failure, at),
                    ),
                    Ok((Ok(stat), at)) => Ok((stat.kind == FileKind::Directory, at)),
                }
            },
        },
    }
}

/// The components from `index` on: what exists is a directory reached without
/// symlinks of the workspace, and nothing is checked behind what is missing.
pub open spec fn unlinked_from(
    path: Seq<u8>,
    workspace: Seq<u8>,
    index: int,
    log: Seq<Answer>,
    at: int,
) -> Course<()>
    decreases path::parts(path).len() - index,
{
    let all = path::parts(path);
    if index < 0 || index >= all.len() {
        Ok(((), at))
    } else {
        let current = path::prefix(all, index + 1);
        match flow::entry(Query::Inspect(current), log, at) {
            Err(pause) => Err(pause),
            Ok((Err(failure), at)) => if failure.kind == IoKind::NotFound {
                Ok(((), at))
            } else {
                Err(flow::io_pause(inspect_context(current), failure, at))
            },
            Ok((Ok(stat), at)) => {
                let directory: Course<bool> = if stat.kind == FileKind::Symlink {
                    outside_symlink(current, workspace, log, at)
                } else {
                    Ok((stat.kind == FileKind::Directory, at))
                };
                match directory {
                    Err(pause) => Err(pause),
                    Ok((directory, at)) => if index + 1 < all.len() && !directory {
                        Err(flow::refusal(current, DIRECTORY_RULE@, DIRECTORY_REMEDY@, at))
                    } else {
                        unlinked_from(path, workspace, index + 1, log, at)
                    },
                }
            },
        }
    }
}

fn check_outside_symlink(
    current: &PathText,
    workspace: &PathText,
    log: &Vec<Answer>,
    at: usize,
) -> (directory: Flow<bool>)
    ensures
        flow::course(directory) == outside_symlink(current@, workspace@, log@, at as int),
{
    let parent = match current.parent() {
        Some(above) => above,
        None => OsText::new("/"),
    };
    let (parent, at) = walk::resolve(
        &parent,
        "could not canonicalize target path parent ",
        log,
        at,
    )?;
    let (reply, at) = flow::ask_place(Question::Resolve(current.clone()), log, at)?;
    let destination = match reply {
        Ok(destination) => destination,
        Err(_) => {
            return Err(
                flow::refuse(
                    current,
                    "the writable target path must not contain unresolved symlink components",
                    "replace the dangling symlink with a real directory",
                    at,
                ),
            );
        },
    };
    if parent.starts_with(workspace) || destination.starts_with(workspace) {
        return Err(flow::refuse(current, SYMLINK_RULE, SYMLINK_REMEDY, at));
    }
    let (reply, at) = flow::ask_entry(Question::Follow(current.clone()), log, at)?;
    match reply {
        Ok(stat) => Ok((stat.is_dir(), at)),
        Err(failure) => Err(
            flow::io_halt(inspect_context_text(current).as_str(), &failure, at),
        ),
    }
}

/// Checks the components of a target path for symlinks of the workspace and
/// for names that are not directories.
pub fn validate_target_symlink_components(
    path: &PathText,
    workspace: &PathText,
    log: &Vec<Answer>,
    at: usize,
) -> (checked: Flow<()>)
    ensures
        flow::course(checked) == unlinked_from(path@, workspace@, 0, log@, at as int),
{
    let components = path.components();
    let ghost all = path::parts(path@);
    let mut current = OsText { bytes: Vec::new() };
    let mut index: usize = 0;
    let mut used: usize = at;
    assert(current@ =~= path::prefix(all, 0));
    while index < components.len()
        invariant
            index <= components.len() == all.len(),
            all == path::parts(path@),
            components@.map_values(|component: Component| component@) == all,
            current@ == path::prefix(all, index as int),
            unlinked_from(path@, workspace@, 0, log@, at as int) == unlinked_from(
                path@,
                workspace@,
                index as int,
                log@,
                used as int,
            ),
        decreases components.len() - index,
    {
        assert(all[index as int] == components[index as int]@);
        current = path::grow(&current, &components[index]);
        let (reply, next) = flow::ask_entry(Question::Inspect(current.clone()), log, used)?;
        let stat = match reply {
            Ok(stat) => stat,
            Err(failure) => {
                if failure.kind == IoKind::NotFound {
                    return Ok(((), next));
                }
                return Err(
                    flow::io_halt(inspect_context_text(&current).as_str(), &failure, next),
                );
            },
        };
        let (directory, next) = if stat.is_symlink() {
            check_outside_symlink(&current, workspace, log, next)?
        } else {
            (stat.is_dir(), next)
        };
        if index + 1 < components.len() && !directory {
            return Err(flow::refuse(&current, DIRECTORY_RULE, DIRECTORY_REMEDY, next));
        }
        used = next;
        index = index + 1;
    }
    Ok(((), used))
}

/// Creating the components from `index` on: what exists must be a directory
/// and not a symlink, and what is missing is created.
pub open spec fn created_from(
    path: Seq<u8>,
    index: int,
    log: Seq<Answer>,
    at: int,
) -> Course<()>
    decreases path::parts(path).len() - index,
{
    let all = path::parts(path);
    if index < 0 || index >= all.len() {
        Ok(((), at))
    } else {
        let current = path::prefix(all, index + 1);
        match flow::entry(Query::Inspect(current), log, at) {
            Err(pause) => Err(pause),
            Ok((Ok(stat), at)) => if stat.kind == FileKind::Symlink {
                Err(flow::refusal(current, SYMLINK_RULE@, SYMLINK_REMEDY@, at))
            } else if stat.kind != FileKind::Directory {
                Err(flow::refusal(current, DIRECTORY_RULE@, DIRECTORY_REMEDY@, at))
            } else {
                created_from(path, index + 1, log, at)
            },
            Ok((Err(failure), at)) => if failure.kind == IoKind::NotFound {
                match flow::done(Query::CreateDirectory(current), log, at) {
                    Err(pause) => Err(pause),
                    Ok((Err(failure), at)) => Err(
                        flow::io_pause(
                            "could not create target directory "@ + os::lossy_text(current),
                            failure,
                            at,
                        ),
                    ),
                    Ok((Ok(_), at)) => created_from(path, index + 1, log, at),
                }
            } else {
                Err(flow::io_pause(inspect_context(current), failure, at))
            },
        }
    }
}

/// Creates a directory and what is missing above it, without passing through
/// symlinks.
pub fn create_directory_without_symlinks(path: &PathText, log: &Vec<Answer>, at: usize) -> (made:
    Flow<()>)
    ensures
        flow::course(made) == created_from(path@, 0, log@, at as int),
{
    let components = path.components();
    let ghost all = path::parts(path@);
    let mut current = OsText { bytes: Vec::new() };
    let mut index: usize = 0;
    let mut used: usize = at;
    assert(current@ =~= path::prefix(all, 0));
    while index < components.len()
        invariant
            index <= components.len() == all.len(),
            all == path::parts(path@),
            components@.map_values(|component: Component| component@) == all,
            current@ == path::prefix(all, index as int),
            created_from(path@, 0, log@, at as int) == created_from(
                path@,
                index as int,
                log@,
                used as int,
            ),
        decreases components.len() - index,
    {
        assert(all[index as int] == components[index as int]@);
        current = path::grow(&current, &components[index]);
        let (reply, next) = flow::ask_entry(Question::Inspect(current.clone()), log, used)?;
        match reply {
            Ok(stat) => {
                if stat.is_symlink() {
                    return Err(flow::refuse(&current, SYMLINK_RULE, SYMLINK_REMEDY, next));
                }
                if !stat.is_dir() {
                    return Err(flow::refuse(&current, DIRECTORY_RULE, DIRECTORY_REMEDY, next));
                }
                used = next;
            },
            Err(failure) => {
                if failure.kind != IoKind::NotFound {
                    return Err(
                        flow::io_halt(inspect_context_text(&current).as_str(), &failure, next),
                    );
                }
                let (reply, next) = flow::ask_done(
                    Question::CreateDirectory(current.clone()),
                    log,
                    next,
                )?;
                if let Err(failure) = reply {
                    let context = text::owned("could not create target directory ").with(
                        current.display().as_str(),
                    );
                    return Err(flow::io_halt(context.as_str(), &failure, next));
                }
                used = next;
            },
        }
        index = index + 1;
    }
    Ok(((), used))
}

/// `base` followed by the names in `missing`, the last of them first.
pub open spec fn with_missing(base: Seq<u8>, missing: Seq<Seq<u8>>) -> Seq<u8>
    decreases missing.len(),
{
    if missing.len() == 0 {
        base
    } else {
        with_missing(path::join(base, missing.last()), missing.drop_last())
    }
}

/// The canonical form of the part of `path` that exists, followed by the names
/// that do not. `found` is what is left to look at, `missing` what was cut off.
pub open spec fn anchored_from(
    path: Seq<u8>,
    found: Seq<u8>,
    missing: Seq<Seq<u8>>,
    log: Seq<Answer>,
    at: int,
) -> Course<Seq<u8>>
    decreases path::depth(found),
{
    match flow::entry(Query::Inspect(found), log, at) {
        Err(pause) => Err(pause),
        Ok((Ok(stat), at)) => if stat.kind == FileKind::Symlink {
            Err(
                flow::refusal(
                    found,
                    "the target path must not contain unresolved symlink components"@,
                    "replace the dangling symlink with a real directory"@,
                    at,
                ),
            )
        } else {
            match walk::resolved(found, "could not canonicalize target parent "@, log, at) {
                Err(pause) => Err(pause),
                Ok((canonical, at)) => Ok((with_missing(canonical, missing), at)),
            }
        },
        Ok((Err(failure), at)) => if failure.kind == IoKind::NotFound {
            match path::file_name(found) {
                None => Err(
                    flow::refusal(
                        path,
                        "the target path must have an existing parent"@,
                        "create the workspace directory before running cargo-cage"@,
                        at,
                    ),
                ),
                Some(name) => {
                    proof {
                        path::lemma_named_has_parent(found);
                        path::lemma_parent_parts(found);
                    }
                    anchored_from(path, path::parent(found)->Some_0, missing.push(name), log, at)
                },
            }
        } else {
            Err(flow::io_pause(inspect_context(found), failure, at))
        },
    }
}

/// The canonical form of a path whose last components need not exist.
pub fn canonicalize_with_missing_components(path: &PathText, log: &Vec<Answer>, at: usize) -> (
canonical: Flow<PathText>)
    ensures
        flow::course(canonical) == anchored_from(path@, path@, Seq::empty(), log@, at as int),
{
    let mut found = path.clone();
    let mut missing: Vec<OsText> = Vec::new();
    let mut used: usize = at;
    assert(os::texts(missing@) =~= Seq::empty());
    loop
        invariant
            anchored_from(path@, path@, Seq::empty(), log@, at as int) == anchored_from(
                path@,
                found@,
                os::texts(missing@),
                log@,
                used as int,
            ),
        decreases path::depth(found@),
    {
        let (reply, next) = flow::ask_entry(Question::Inspect(found.clone()), log, used)?;
        match reply {
            Ok(stat) => {
                if stat.is_symlink() {
                    return Err(
                        flow::refuse(
                            &found,
                            "the target path must not contain unresolved symlink components",
                            "replace the dangling symlink with a real directory",
                            next,
                        ),
                    );
                }
                let (canonical, next) = walk::resolve(
                    &found,
                    "could not canonicalize target parent ",
                    log,
                    next,
                )?;
                return Ok((append_missing(canonical, &missing), next));
            },
            Err(failure) => {
                if failure.kind != IoKind::NotFound {
                    return Err(
                        flow::io_halt(inspect_context_text(&found).as_str(), &failure, next),
                    );
                }
                let name = match found.file_name() {
                    Some(name) => name,
                    None => {
                        return Err(
                            flow::refuse(
                                path,
                                "the target path must have an existing parent",
                                "create the workspace directory before running cargo-cage",
                                next,
                            ),
                        );
                    },
                };
                proof {
                    path::lemma_named_has_parent(found@);
                    path::lemma_parent_parts(found@);
                }
                os::push_text(&mut missing, &name);
                let above = found.parent();
                match above {
                    Some(above) => {
                        found = above;
                    },
                    None => {
                        assert(false);
                    },
                }
                used = next;
            },
        }
    }
}

fn append_missing(base: PathText, missing: &Vec<OsText>) -> (whole: PathText)
    ensures
        whole@ == with_missing(base@, os::texts(missing@)),
{
    let mut whole = base;
    let mut left: usize = missing.len();
    let ghost names = os::texts(missing@);
    assert(names.take(left as int) =~= names);
    while left > 0
        invariant
            left <= missing.len(),
            names == os::texts(missing@),
            with_missing(base@, names) == with_missing(whole@, names.take(left as int)),
        decreases left,
    {
        left = left - 1;
        assert(names.take(left + 1).last() == missing[left as int]@);
        assert(names.take(left + 1).drop_last() =~= names.take(left as int));
        whole = whole.join(&missing[left]);
    }
    whole
}

/// The canonical workspace.
pub open spec fn canonical_workspace(workspace: Seq<u8>, log: Seq<Answer>, at: int) -> Course<
    Seq<u8>,
> {
    walk::resolved(workspace, "could not canonicalize workspace "@, log, at)
}

/// Whether a path lies strictly below the workspace.
pub open spec fn strictly_inside(path: Seq<u8>, workspace: Seq<u8>) -> bool {
    path::within(path, workspace) && !path::same_path(path, workspace)
}

/// A target path that has been checked without changing anything.
#[verifier::opaque]
pub open spec fn validated_target(
    target: Seq<u8>,
    workspace: Seq<u8>,
    log: Seq<Answer>,
    at: int,
) -> Course<Seq<u8>> {
    if !path::absolute(target) {
        Err(
            flow::refusal(
                target,
                "the target directory must be absolute after resolution"@,
                "pass an absolute --target-dir or use a target directory inside the workspace"@,
                at,
            ),
        )
    } else {
        match canonical_workspace(workspace, log, at) {
            Err(pause) => Err(pause),
            Ok((workspace, at)) => {
                let normalized = path::normalized(target);
                match anchored_from(normalized, normalized, Seq::empty(), log, at) {
                    Err(pause) => Err(pause),
                    Ok((contained, at)) => if !strictly_inside(contained, workspace) {
                        Err(flow::refusal(contained, OUTSIDE_RULE@, OUTSIDE_REMEDY@, at))
                    } else {
                        match unlinked_from(target, workspace, 0, log, at) {
                            Err(pause) => Err(pause),
                            Ok((_, at)) => match unlinked_from(normalized, workspace, 0, log, at) {
                                Err(pause) => Err(pause),
                                Ok((_, at)) => Ok((contained, at)),
                            },
                        }
                    },
                }
            },
        }
    }
}

/// Validate a target path without creating or modifying anything.
///
/// Both component orders are inspected: the original order catches a symlink
/// hidden by `..`, the normalized order one that follows a missing component.
/// The containment check comes first, so that a path outside the workspace is
/// reported as such even behind a platform alias.
pub fn validate_target_dir(path: &PathText, workspace: &PathText, log: &Vec<Answer>, at: usize) -> (
validated: Flow<PathText>)
    ensures
        flow::course(validated) == validated_target(path@, workspace@, log@, at as int),
{
    proof {
        reveal(validated_target);
    }
    if !path.is_absolute() {
        return Err(
            flow::refuse(
                path,
                "the target directory must be absolute after resolution",
                "pass an absolute --target-dir or use a target directory inside the workspace",
                at,
            ),
        );
    }
    let (workspace, at) = walk::resolve(workspace, "could not canonicalize workspace ", log, at)?;
    let normalized = path::lexical_normalize(path);
    let (contained, at) = canonicalize_with_missing_components(&normalized, log, at)?;
    if contained.same_path(&workspace) || !contained.starts_with(&workspace) {
        return Err(flow::refuse(&contained, OUTSIDE_RULE, OUTSIDE_REMEDY, at));
    }
    let (_, at) = validate_target_symlink_components(path, &workspace, log, at)?;
    let (_, at) = validate_target_symlink_components(&normalized, &workspace, log, at)?;
    Ok((contained, at))
}

/// A target directory that has been checked and created.
#[verifier::opaque]
pub open spec fn prepared_target(
    target: Seq<u8>,
    workspace: Seq<u8>,
    log: Seq<Answer>,
    at: int,
) -> Course<Seq<u8>> {
    match validated_target(target, workspace, log, at) {
        Err(pause) => Err(pause),
        Ok((normalized, at)) => match created_from(normalized, 0, log, at) {
            Err(pause) => Err(pause),
            Ok((_, at)) => match walk::resolved(
                normalized,
                "could not canonicalize target directory "@,
                log,
                at,
            ) {
                Err(pause) => Err(pause),
                Ok((target, at)) => match canonical_workspace(workspace, log, at) {
                    Err(pause) => Err(pause),
                    Ok((workspace, at)) => if strictly_inside(target, workspace) {
                        Ok((target, at))
                    } else {
                        Err(flow::refusal(target, OUTSIDE_RULE@, OUTSIDE_REMEDY@, at))
                    },
                },
            },
        },
    }
}

/// Checks and creates a target directory.
pub fn prepare_target_dir(path: &PathText, workspace: &PathText, log: &Vec<Answer>, at: usize) -> (
prepared: Flow<PathText>)
    ensures
        flow::course(prepared) == prepared_target(path@, workspace@, log@, at as int),
{
    proof {
        reveal(prepared_target);
    }
    let (normalized, at) = validate_target_dir(path, workspace, log, at)?;
    let (_, at) = create_directory_without_symlinks(&normalized, log, at)?;
    let (target, at) = walk::resolve(
        &normalized,
        "could not canonicalize target directory ",
        log,
        at,
    )?;
    let (workspace, at) = walk::resolve(workspace, "could not canonicalize workspace ", log, at)?;
    if target.same_path(&workspace) || !target.starts_with(&workspace) {
        return Err(flow::refuse(&target, OUTSIDE_RULE, OUTSIDE_REMEDY, at));
    }
    Ok((target, at))
}

/// The lockfile of a workspace.
pub open spec fn lockfile(workspace: Seq<u8>) -> Seq<u8> {
    path::join(workspace, os::lit("Cargo.lock"))
}

/// Whether the lockfile exists; if it does, it is a regular file.
#[verifier::opaque]
pub open spec fn inspected_lockfile(workspace: Seq<u8>, log: Seq<Answer>, at: int) -> Course<bool> {
    let file = lockfile(workspace);
    match flow::entry(Query::Inspect(file), log, at) {
        Err(pause) => Err(pause),
        Ok((Ok(stat), at)) => if stat.kind == FileKind::Symlink {
            Err(
                flow::refusal(
                    file,
                    "the workspace Cargo.lock must not be a symlink"@,
                    "replace it with a regular file before running cargo-cage"@,
                    at,
                ),
            )
        } else if stat.kind != FileKind::File {
            Err(
                flow::refusal(
                    file,
                    "the workspace Cargo.lock must be a regular file"@,
                    "replace the lockfile with a regular file before running cargo-cage"@,
                    at,
                ),
            )
        } else {
            Ok((true, at))
        },
        Ok((Err(failure), at)) => if failure.kind == IoKind::NotFound {
            Ok((false, at))
        } else {
            Err(
                flow::io_pause(
                    "could not inspect workspace lockfile "@ + os::lossy_text(file),
                    failure,
                    at,
                ),
            )
        },
    }
}

/// Checks what a lockfile is.
pub fn validate_lockfile(path: &PathText, stat: &Stat, at: usize) -> (checked: Flow<()>)
    ensures
        match checked {
            Ok((_, used)) => used == at && stat.kind == FileKind::File,
            Err(halt) => if stat.kind == FileKind::Symlink {
                halt@ == flow::refusal(
                    path@,
                    "the workspace Cargo.lock must not be a symlink"@,
                    "replace it with a regular file before running cargo-cage"@,
                    at as int,
                )
            } else {
                &&& stat.kind != FileKind::File
                &&& halt@ == flow::refusal(
                    path@,
                    "the workspace Cargo.lock must be a regular file"@,
                    "replace the lockfile with a regular file before running cargo-cage"@,
                    at as int,
                )
            },
        },
{
    if stat.is_symlink() {
        return Err(
            flow::refuse(
                path,
                "the workspace Cargo.lock must not be a symlink",
                "replace it with a regular file before running cargo-cage",
                at,
            ),
        );
    }
    if !stat.is_file() {
        return Err(
            flow::refuse(
                path,
                "the workspace Cargo.lock must be a regular file",
                "replace the lockfile with a regular file before running cargo-cage",
                at,
            ),
        );
    }
    Ok(((), at))
}

/// Whether the lockfile exists; if it does, it must be a regular file.
pub fn inspect_lockfile(workspace: &PathText, log: &Vec<Answer>, at: usize) -> (present: Flow<bool>)
    ensures
        flow::course(present) == inspected_lockfile(workspace@, log@, at as int),
{
    proof {
        reveal(inspected_lockfile);
    }
    let file = workspace.join_text("Cargo.lock");
    let (reply, at) = flow::ask_entry(Question::Inspect(file.clone()), log, at)?;
    match reply {
        Ok(stat) => {
            let (_, at) = validate_lockfile(&file, &stat, at)?;
            Ok((true, at))
        },
        Err(failure) => {
            if failure.kind == IoKind::NotFound {
                return Ok((false, at));
            }
            let context = text::owned("could not inspect workspace lockfile ").with(
                file.display().as_str(),
            );
            Err(flow::io_halt(context.as_str(), &failure, at))
        },
    }
}

/// A lockfile that is there, created if it was missing.
#[verifier::opaque]
pub open spec fn prepared_lockfile(workspace: Seq<u8>, log: Seq<Answer>, at: int) -> Course<
    Seq<u8>,
> {
    let file = lockfile(workspace);
    match inspected_lockfile(workspace, log, at) {
        Err(pause) => Err(pause),
        Ok((true, at)) => Ok((file, at)),
        Ok((false, at)) => match flow::done(Query::CreateFile(file), log, at) {
            Err(pause) => Err(pause),
            Ok((Err(failure), at)) => Err(
                flow::io_pause(
                    "could not create workspace lockfile "@ + os::lossy_text(file),
                    failure,
                    at,
                ),
            ),
            Ok((Ok(_), at)) => match inspected_lockfile(workspace, log, at) {
                Err(pause) => Err(pause),
                Ok((_, at)) => Ok((file, at)),
            },
        },
    }
}

/// The lockfile of the workspace, created if it is missing.
pub fn prepare_lockfile(workspace: &PathText, log: &Vec<Answer>, at: usize) -> (prepared: Flow<
    PathText,
>)
    ensures
        flow::course(prepared) == prepared_lockfile(workspace@, log@, at as int),
{
    proof {
        reveal(prepared_lockfile);
    }
    let file = workspace.join_text("Cargo.lock");
    let (present, at) = inspect_lockfile(workspace, log, at)?;
    if present {
        return Ok((file, at));
    }
    let (reply, at) = flow::ask_done(Question::CreateFile(file.clone()), log, at)?;
    if let Err(failure) = reply {
        let context = text::owned("could not create workspace lockfile ").with(
            file.display().as_str(),
        );
        return Err(flow::io_halt(context.as_str(), &failure, at));
    }
    let (_, at) = inspect_lockfile(workspace, log, at)?;
    Ok((file, at))
}

/// A validated target lies strictly below the canonical workspace.
pub proof fn validated_target_is_inside(
    target: Seq<u8>,
    workspace: Seq<u8>,
    log: Seq<Answer>,
    at: int,
)
    requires
        validated_target(target, workspace, log, at) is Ok,
    ensures
        canonical_workspace(workspace, log, at) is Ok,
        strictly_inside(
            validated_target(target, workspace, log, at)->Ok_0.0,
            canonical_workspace(workspace, log, at)->Ok_0.0,
        ),
{
    reveal(validated_target);
}

/// A prepared target lies strictly below the workspace as the host resolves it
/// once the target is there.
pub proof fn prepared_targets_are_inside(
    target: Seq<u8>,
    workspace: Seq<u8>,
    log: Seq<Answer>,
    at: int,
)
    requires
        prepared_target(target, workspace, log, at) is Ok,
    ensures
        exists|later: int|
            (#[trigger] canonical_workspace(workspace, log, later)) is Ok && strictly_inside(
                prepared_target(target, workspace, log, at)->Ok_0.0,
                canonical_workspace(workspace, log, later)->Ok_0.0,
            ),
{
    reveal(prepared_target);
}

/// Validating a target never asks for a change of the filesystem.
pub proof fn validation_changes_nothing(
    target: Seq<u8>,
    workspace: Seq<u8>,
    log: Seq<Answer>,
    at: int,
)
    ensures
        validated_target(target, workspace, log, at) matches Err(Pause::Ask(query))
            ==> !query.changes_files(),
{
    reveal(validated_target);
    if path::absolute(target) {
        if let Ok((root, next)) = canonical_workspace(workspace, log, at) {
            let normalized = path::normalized(target);
            lemma_anchoring_only_reads(normalized, normalized, Seq::empty(), log, next);
            if let Ok((_, next)) = anchored_from(normalized, normalized, Seq::empty(), log, next) {
                lemma_checking_only_reads(target, root, 0, log, next);
                if let Ok((_, next)) = unlinked_from(target, root, 0, log, next) {
                    lemma_checking_only_reads(normalized, root, 0, log, next);
                }
            }
        }
    }
}

proof fn lemma_anchoring_only_reads(
    path: Seq<u8>,
    found: Seq<u8>,
    missing: Seq<Seq<u8>>,
    log: Seq<Answer>,
    at: int,
)
    ensures
        anchored_from(path, found, missing, log, at) matches Err(Pause::Ask(query))
            ==> !query.changes_files(),
    decreases path::depth(found),
{
    if let Some(name) = path::file_name(found) {
        path::lemma_named_has_parent(found);
        path::lemma_parent_parts(found);
        lemma_anchoring_only_reads(
            path,
            path::parent(found)->Some_0,
            missing.push(name),
            log,
            at + 1,
        );
    }
}

proof fn lemma_checking_only_reads(
    path: Seq<u8>,
    workspace: Seq<u8>,
    index: int,
    log: Seq<Answer>,
    at: int,
)
    ensures
        unlinked_from(path, workspace, index, log, at) matches Err(Pause::Ask(query))
            ==> !query.changes_files(),
    decreases path::parts(path).len() - index,
{
    if 0 <= index < path::parts(path).len() {
        lemma_checking_only_reads(path, workspace, index + 1, log, at + 1);
        lemma_checking_only_reads(path, workspace, index + 1, log, at + 4);
    }
}

} // verus!

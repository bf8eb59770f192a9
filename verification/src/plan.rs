//! From a request to the layout of a sandbox: every path canonical, and no
//! writable or visible path that would undo what is hidden or private.

use crate::backend::{Job, SandboxRequest};
use crate::cargo_args;
use crate::error;
use crate::error::{CageError, CageResult, Fault, IoKind};
use crate::flow;
use crate::flow::{Answer, Course, FileKind, Flow, Halt, Model, Pause, Query, Question};
use crate::os;
use crate::os::{OsText, PathText};
use crate::path;
use crate::path::Component;
use crate::policy::{Environment, EnvironmentRules, NetworkAccess, ResourceLimits};
use crate::text;
use crate::text::Compose;
use crate::toolchain;
use crate::walk;
use crate::workspace;
use vstd::prelude::*;
use vstd::string::*;

verus! {

/// A hidden path: directories are covered by an empty filesystem, files by
/// `/dev/null`.
#[derive(Debug)]
pub enum MaskPath {
    Directory(PathText),
    File(PathText),
}

/// What a `MaskPath` hides.
pub enum Mask {
    Directory(Seq<u8>),
    File(Seq<u8>),
}

impl Mask {
    pub open spec fn path(self) -> Seq<u8> {
        match self {
            Mask::Directory(path) => path,
            Mask::File(path) => path,
        }
    }
}

impl View for MaskPath {
    type V = Mask;

    open spec fn view(&self) -> Mask {
        match self {
            MaskPath::Directory(path) => Mask::Directory(path@),
            MaskPath::File(path) => Mask::File(path@),
        }
    }
}

impl Model for MaskPath {
    type M = Mask;

    open spec fn model(&self) -> Mask {
        self@
    }
}

impl Clone for MaskPath {
    fn clone(&self) -> (copy: Self)
        ensures
            copy@ == self@,
    {
        match self {
            MaskPath::Directory(path) => MaskPath::Directory(path.clone()),
            MaskPath::File(path) => MaskPath::File(path.clone()),
        }
    }
}

impl MaskPath {
    pub fn path(&self) -> (path: &PathText)
        ensures
            path@ == self@.path(),
    {
        match self {
            MaskPath::Directory(path) => path,
            MaskPath::File(path) => path,
        }
    }
}

pub open spec fn masks(list: Seq<MaskPath>) -> Seq<Mask> {
    list.map_values(|mask: MaskPath| mask@)
}

impl Model for Vec<MaskPath> {
    type M = Seq<Mask>;

    open spec fn model(&self) -> Seq<Mask> {
        masks(self@)
    }
}

fn push_mask(list: &mut Vec<MaskPath>, mask: MaskPath)
    ensures
        masks(final(list)@) == masks(old(list)@).push(mask@),
{
    list.push(mask);
    assert(masks(list@) =~= masks(old(list)@).push(mask@));
}

/// A host directory and the place where the sandbox shows it.
#[derive(Debug)]
pub struct BindMount {
    pub source: PathText,
    pub destination: PathText,
}

pub open spec fn binds(list: Seq<BindMount>) -> Seq<(Seq<u8>, Seq<u8>)> {
    list.map_values(|mount: BindMount| (mount.source@, mount.destination@))
}

impl Model for Vec<BindMount> {
    type M = Seq<(Seq<u8>, Seq<u8>)>;

    open spec fn model(&self) -> Seq<(Seq<u8>, Seq<u8>)> {
        binds(self@)
    }
}

fn push_bind(list: &mut Vec<BindMount>, source: PathText, destination: PathText)
    ensures
        binds(final(list)@) == binds(old(list)@).push((source@, destination@)),
{
    list.push(BindMount { source, destination });
    assert(binds(list@) =~= binds(old(list)@).push((source@, destination@)));
}

/// The validated layout of a sandbox.
#[derive(Debug)]
pub struct SandboxPlan {
    pub current_dir: PathText,
    pub writable_paths: Vec<PathText>,
    pub hidden_paths: Vec<MaskPath>,
    pub private_paths: Vec<PathText>,
    pub read_only_paths: Vec<PathText>,
    pub cargo_home: Option<PathText>,
    pub cargo_cache_paths: Vec<PathText>,
    pub runtime_mounts: Vec<BindMount>,
    pub environment: Environment,
    pub network: NetworkAccess,
    pub resources: ResourceLimits,
}

/// What a `SandboxPlan` lays out.
pub struct Layout {
    pub current_dir: Seq<u8>,
    pub writable_paths: Seq<Seq<u8>>,
    pub hidden_paths: Seq<Mask>,
    pub private_paths: Seq<Seq<u8>>,
    pub read_only_paths: Seq<Seq<u8>>,
    pub cargo_home: Option<Seq<u8>>,
    pub cargo_cache_paths: Seq<Seq<u8>>,
    pub runtime_mounts: Seq<(Seq<u8>, Seq<u8>)>,
    pub environment: EnvironmentRules,
    pub network: NetworkAccess,
    pub resources: ResourceLimits,
}

impl View for SandboxPlan {
    type V = Layout;

    open spec fn view(&self) -> Layout {
        Layout {
            current_dir: self.current_dir@,
            writable_paths: os::texts(self.writable_paths@),
            hidden_paths: masks(self.hidden_paths@),
            private_paths: os::texts(self.private_paths@),
            read_only_paths: os::texts(self.read_only_paths@),
            cargo_home: self.cargo_home.model(),
            cargo_cache_paths: os::texts(self.cargo_cache_paths@),
            runtime_mounts: binds(self.runtime_mounts@),
            environment: self.environment@,
            network: self.network,
            resources: self.resources,
        }
    }
}

impl Model for SandboxPlan {
    type M = Layout;

    open spec fn model(&self) -> Layout {
        self@
    }
}

/// A directory that is there and not a symlink, in canonical form.
#[verifier::opaque]
pub open spec fn existing_directory(
    path: Seq<u8>,
    label: Seq<char>,
    log: Seq<Answer>,
    at: int,
) -> Course<Seq<u8>> {
    match flow::entry(Query::Inspect(path), log, at) {
        Err(pause) => Err(pause),
        Ok((Err(failure), at)) => Err(
            flow::io_pause(
                "could not inspect "@ + label + " "@ + os::lossy_text(path),
                failure,
                at,
            ),
        ),
        Ok((Ok(stat), at)) => if stat.kind != FileKind::Directory {
            Err(
                flow::refusal(
                    path,
                    label + " must be a real directory"@,
                    "replace it with a real directory and retry"@,
                    at,
                ),
            )
        } else {
            walk::resolved(path, "could not canonicalize "@ + label + " "@, log, at)
        },
    }
}

pub fn canonical_existing_dir(path: &PathText, label: &str, log: &Vec<Answer>, at: usize) -> (
canonical: Flow<PathText>)
    ensures
        flow::course(canonical) == existing_directory(path@, label@, log@, at as int),
{
    proof {
        reveal(existing_directory);
    }
    let (reply, at) = flow::ask_entry(Question::Inspect(path.clone()), log, at)?;
    match reply {
        Err(failure) => {
            let context = text::owned("could not inspect ").with(label).with(" ").with(
                path.display().as_str(),
            );
            Err(flow::io_halt(context.as_str(), &failure, at))
        },
        Ok(stat) => {
            if !stat.is_dir() {
                return Err(
                    flow::refuse(
                        path,
                        text::owned(label).with(" must be a real directory").as_str(),
                        "replace it with a real directory and retry",
                        at,
                    ),
                );
            }
            walk::resolve(
                path,
                text::owned("could not canonicalize ").with(label).with(" ").as_str(),
                log,
                at,
            )
        },
    }
}

/// The walk of `canonical_path_without_symlink` from component `index` on.
pub open spec fn unlinked_from(
    path: Seq<u8>,
    label: Seq<char>,
    index: int,
    log: Seq<Answer>,
    at: int,
) -> Course<Seq<u8>>
    decreases path::parts(path).len() - index,
{
    let all = path::parts(path);
    if index < 0 || index >= all.len() {
        walk::resolved(path, "could not canonicalize "@ + label + " "@, log, at)
    } else {
        let current = path::prefix(all, index + 1);
        match flow::entry(Query::Inspect(current), log, at) {
            Err(pause) => Err(pause),
            Ok((Err(failure), at)) => Err(
                flow::io_pause(
                    "could not inspect "@ + label + " "@ + os::lossy_text(current),
                    failure,
                    at,
                ),
            ),
            Ok((Ok(stat), at)) => if stat.kind == FileKind::Symlink {
                Err(
                    flow::refusal(
                        path,
                        label + " must not contain symlink components"@,
                        "replace the symlink component with a real path and retry"@,
                        at,
                    ),
                )
            } else if index + 1 < all.len() && stat.kind != FileKind::Directory {
                Err(
                    flow::refusal(
                        current,
                        label + " parent is not a directory"@,
                        "replace the conflicting file with a directory and retry"@,
                        at,
                    ),
                )
            } else {
                unlinked_from(path, label, index + 1, log, at)
            },
        }
    }
}

pub fn canonical_path_without_symlink(
    path: &PathText,
    label: &str,
    log: &Vec<Answer>,
    at: usize,
) -> (canonical: Flow<PathText>)
    ensures
        flow::course(canonical) == unlinked_from(path@, label@, 0, log@, at as int),
{
    let components = path.components();
    let ghost all = path::parts(path@);
    let mut current = OsText { bytes: Vec::new() };
    let mut index: usize = 0;
    let mut used: usize = at;
    assert(current@ =~= path::prefix(all, 0));
    while index < components.len()
        invariant
            index <= components.len() == all.len(),
            all == path::parts(path@),
            components@.map_values(|component: Component| component@) == all,
            current@ == path::prefix(all, index as int),
            unlinked_from(path@, label@, 0, log@, at as int) == unlinked_from(
                path@,
                label@,
                index as int,
                log@,
                used as int,
            ),
        decreases components.len() - index,
    {
        assert(all[index as int] == components[index as int]@);
        current = path::grow(&current, &components[index]);
        let (reply, next) = flow::ask_entry(Question::Inspect(current.clone()), log, used)?;
        match reply {
            Err(failure) => {
                let context = text::owned("could not inspect ").with(label).with(" ").with(
                    current.display().as_str(),
                );
                return Err(flow::io_halt(context.as_str(), &failure, next));
            },
            Ok(stat) => {
                if stat.is_symlink() {
                    return Err(
                        flow::refuse(
                            path,
                            text::owned(label).with(
                                " must not contain symlink components",
                            ).as_str(),
                            "replace the symlink component with a real path and retry",
                            next,
                        ),
                    );
                }
                if index + 1 < components.len() && !stat.is_dir() {
                    return Err(
                        flow::refuse(
                            &current,
                            text::owned(label).with(" parent is not a directory").as_str(),
                            "replace the conflicting file with a directory and retry",
                            next,
                        ),
                    );
                }
            },
        }
        used = next;
        index = index + 1;
    }
    walk::resolve(
        path,
        text::owned("could not canonicalize ").with(label).with(" ").as_str(),
        log,
        used,
    )
}

/// The canonical forms of the directories from `index` on, after `done`.
pub open spec fn directories_from(
    list: Seq<Seq<u8>>,
    label: Seq<char>,
    index: int,
    done: Seq<Seq<u8>>,
    log: Seq<Answer>,
    at: int,
) -> Course<Seq<Seq<u8>>>
    decreases list.len() - index,
{
    if index < 0 || index >= list.len() {
        Ok((done, at))
    } else {
        match existing_directory(list[index], label, log, at) {
            Err(pause) => Err(pause),
            Ok((canonical, at)) => directories_from(
                list,
                label,
                index + 1,
                done.push(canonical),
                log,
                at,
            ),
        }
    }
}

fn canonical_directories(
    list: &Vec<PathText>,
    label: &str,
    log: &Vec<Answer>,
    at: usize,
) -> (canonical: Flow<Vec<PathText>>)
    ensures
        flow::course(canonical) == directories_from(
            os::texts(list@),
            label@,
            0,
            Seq::empty(),
            log@,
            at as int,
        ),
{
    let ghost all = os::texts(list@);
    let mut done: Vec<PathText> = Vec::new();
    let mut index: usize = 0;
    let mut used: usize = at;
    assert(os::texts(done@) =~= Seq::empty());
    while index < list.len()
        invariant
            index <= list.len(),
            all == os::texts(list@),
            directories_from(all, label@, 0, Seq::empty(), log@, at as int) == directories_from(
                all,
                label@,
                index as int,
                os::texts(done@),
                log@,
                used as int,
            ),
        decreases list.len() - index,
    {
        assert(all[index as int] == list[index as int]@);
        let (canonical, next) = canonical_existing_dir(&list[index], label, log, used)?;
        os::push_text(&mut done, &canonical);
        used = next;
        index = index + 1;
    }
    Ok((done, used))
}

/// The canonical forms of the paths from `index` on, after `done`.
pub open spec fn paths_from(
    list: Seq<Seq<u8>>,
    label: Seq<char>,
    index: int,
    done: Seq<Seq<u8>>,
    log: Seq<Answer>,
    at: int,
) -> Course<Seq<Seq<u8>>>
    decreases list.len() - index,
{
    if index < 0 || index >= list.len() {
        Ok((done, at))
    } else {
        match unlinked_from(list[index], label, 0, log, at) {
            Err(pause) => Err(pause),
            Ok((canonical, at)) => paths_from(
                list,
                label,
                index + 1,
                done.push(canonical),
                log,
                at,
            ),
        }
    }
}

fn canonical_paths(list: &Vec<PathText>, label: &str, log: &Vec<Answer>, at: usize) -> (canonical:
    Flow<Vec<PathText>>)
    ensures
        flow::course(canonical) == paths_from(
            os::texts(list@),
            label@,
            0,
            Seq::empty(),
            log@,
            at as int,
        ),
{
    let ghost all = os::texts(list@);
    let mut done: Vec<PathText> = Vec::new();
    let mut index: usize = 0;
    let mut used: usize = at;
    assert(os::texts(done@) =~= Seq::empty());
    while index < list.len()
        invariant
            index <= list.len(),
            all == os::texts(list@),
            paths_from(all, label@, 0, Seq::empty(), log@, at as int) == paths_from(
                all,
                label@,
                index as int,
                os::texts(done@),
                log@,
                used as int,
            ),
        decreases list.len() - index,
    {
        assert(all[index as int] == list[index as int]@);
        let (canonical, next) = canonical_path_without_symlink(&list[index], label, log, used)?;
        os::push_text(&mut done, &canonical);
        used = next;
        index = index + 1;
    }
    Ok((done, used))
}

/// What a hidden path stands for; a path that does not exist hides nothing.
#[verifier::opaque]
pub open spec fn mask_of(path: Seq<u8>, log: Seq<Answer>, at: int) -> Course<Option<Mask>> {
    match flow::entry(Query::Inspect(path), log, at) {
        Err(pause) => Err(pause),
        Ok((Err(failure), at)) => if failure.kind == IoKind::NotFound {
            Ok((None, at))
        } else {
            Err(
                flow::io_pause(
                    "could not inspect hidden path "@ + os::lossy_text(path),
                    failure,
                    at,
                ),
            )
        },
        Ok((Ok(stat), at)) => match walk::resolved(
            path,
            "could not canonicalize hidden path "@,
            log,
            at,
        ) {
            Err(pause) => Err(pause),
            Ok((canonical, at)) => if path::same_path(canonical, os::lit("/")) {
                Err(
                    flow::refusal(
                        path,
                        "hidden paths must not resolve to the filesystem root"@,
                        "hide a path below the filesystem root"@,
                        at,
                    ),
                )
            } else if stat.kind == FileKind::Symlink {
                match flow::entry(Query::Follow(canonical), log, at) {
                    Err(pause) => Err(pause),
                    Ok((Err(failure), at)) => Err(
                        flow::io_pause(
                            "could not inspect hidden path target "@ + os::lossy_text(canonical),
                            failure,
                            at,
                        ),
                    ),
                    Ok((Ok(stat), at)) => Ok((Some(mask_for(canonical, stat.kind)), at)),
                }
            } else {
                Ok((Some(mask_for(canonical, stat.kind)), at))
            },
        },
    }
}

pub open spec fn mask_for(path: Seq<u8>, kind: FileKind) -> Mask {
    if kind == FileKind::Directory {
        Mask::Directory(path)
    } else {
        Mask::File(path)
    }
}

pub fn make_mask(path: &PathText, log: &Vec<Answer>, at: usize) -> (mask: Flow<Option<MaskPath>>)
    ensures
        flow::course(mask) == mask_of(path@, log@, at as int),
{
    proof {
        reveal(mask_of);
    }
    let (reply, at) = flow::ask_entry(Question::Inspect(path.clone()), log, at)?;
    let stat = match reply {
        Ok(stat) => stat,
        Err(failure) => {
            if failure.kind == IoKind::NotFound {
                return Ok((None, at));
            }
            let context = text::owned("could not inspect hidden path ").with(
                path.display().as_str(),
            );
            return Err(flow::io_halt(context.as_str(), &failure, at));
        },
    };
    let (canonical, at) = walk::resolve(path, "could not canonicalize hidden path ", log, at)?;
    if canonical.same_path(&OsText::new("/")) {
        return Err(
            flow::refuse(
                path,
                "hidden paths must not resolve to the filesystem root",
                "hide a path below the filesystem root",
                at,
            ),
        );
    }
    let (stat, at) = if stat.is_symlink() {
        let (reply, at) = flow::ask_entry(Question::Follow(canonical.clone()), log, at)?;
        match reply {
            Ok(stat) => (stat, at),
            Err(failure) => {
                let context = text::owned("could not inspect hidden path target ").with(
                    canonical.display().as_str(),
                );
                return Err(flow::io_halt(context.as_str(), &failure, at));
            },
        }
    } else {
        (stat, at)
    };
    if stat.is_dir() {
        Ok((Some(MaskPath::Directory(canonical)), at))
    } else {
        Ok((Some(MaskPath::File(canonical)), at))
    }
}

/// Whether a hidden path needs a mask of its own: it does unless a private
/// filesystem covers it and nothing visible brings it back.
pub open spec fn needs_mask(
    path: Seq<u8>,
    private: Seq<Seq<u8>>,
    visible: Seq<Seq<u8>>,
) -> bool {
    !toolchain::below_any(path, private) || toolchain::below_any(path, visible)
}

/// The masks of the hidden paths from `index` on, after `done`.
pub open spec fn masks_from(
    list: Seq<Seq<u8>>,
    index: int,
    private: Seq<Seq<u8>>,
    visible: Seq<Seq<u8>>,
    done: Seq<Mask>,
    log: Seq<Answer>,
    at: int,
) -> Course<Seq<Mask>>
    decreases list.len() - index,
{
    if index < 0 || index >= list.len() {
        Ok((done, at))
    } else {
        match mask_of(list[index], log, at) {
            Err(pause) => Err(pause),
            Ok((mask, at)) => masks_from(
                list,
                index + 1,
                private,
                visible,
                match mask {
                    Some(mask) => if needs_mask(mask.path(), private, visible) {
                        done.push(mask)
                    } else {
                        done
                    },
                    None => done,
                },
                log,
                at,
            ),
        }
    }
}

fn make_masks(
    list: &Vec<PathText>,
    private: &Vec<PathText>,
    visible: &Vec<PathText>,
    log: &Vec<Answer>,
    at: usize,
) -> (made: Flow<Vec<MaskPath>>)
    ensures
        flow::course(made) == masks_from(
            os::texts(list@),
            0,
            os::texts(private@),
            os::texts(visible@),
            Seq::empty(),
            log@,
            at as int,
        ),
{
    let ghost all = os::texts(list@);
    let mut done: Vec<MaskPath> = Vec::new();
    let mut index: usize = 0;
    let mut used: usize = at;
    assert(masks(done@) =~= Seq::empty());
    while index < list.len()
        invariant
            index <= list.len(),
            all == os::texts(list@),
            masks_from(
                all,
                0,
                os::texts(private@),
                os::texts(visible@),
                Seq::empty(),
                log@,
                at as int,
            ) == masks_from(
                all,
                index as int,
                os::texts(private@),
                os::texts(visible@),
                masks(done@),
                log@,
                used as int,
            ),
        decreases list.len() - index,
    {
        assert(all[index as int] == list[index as int]@);
        let (mask, next) = make_mask(&list[index], log, used)?;
        if let Some(mask) = mask {
            let needed = !toolchain::starts_with_any(mask.path(), private)
                || toolchain::starts_with_any(mask.path(), visible);
            if needed {
                push_mask(&mut done, mask);
            }
        }
        used = next;
        index = index + 1;
    }
    Ok((done, used))
}

/// The first conflict between a writable path and the masks from `index` on.
pub open spec fn mask_conflict(writable: Seq<u8>, hidden: Seq<Mask>, index: int) -> Option<Fault>
    decreases hidden.len() - index,
{
    if index < 0 || index >= hidden.len() {
        None
    } else {
        let mask = hidden[index].path();
        if path::within(writable, mask) {
            Some(
                Fault::Policy {
                    subject: os::lossy_text(writable),
                    rule: "a writable path must not be hidden by policy"@,
                    remedy: "choose a writable path outside every hidden path"@,
                },
            )
        } else if path::within(mask, writable) {
            Some(
                Fault::Policy {
                    subject: os::lossy_text(writable),
                    rule: "the writable path would re-expose hidden path "@ + os::lossy_text(mask),
                    remedy: "choose a writable path that contains no hidden path"@,
                },
            )
        } else {
            mask_conflict(writable, hidden, index + 1)
        }
    }
}

/// The first conflict of the writable paths from `index` on.
pub open spec fn writable_conflict(
    paths: Seq<Seq<u8>>,
    hidden: Seq<Mask>,
    index: int,
) -> Option<Fault>
    decreases paths.len() - index,
{
    if index < 0 || index >= paths.len() {
        None
    } else if path::same_path(paths[index], os::lit("/")) {
        Some(
            Fault::Policy {
                subject: os::lossy_text(paths[index]),
                rule: "the filesystem root cannot be writable"@,
                remedy: "choose a writable path below the filesystem root"@,
            },
        )
    } else {
        match mask_conflict(paths[index], hidden, 0) {
            Some(fault) => Some(fault),
            None => writable_conflict(paths, hidden, index + 1),
        }
    }
}

/// A check without a value.
pub open spec fn check_outcome(result: CageResult<()>) -> Option<Fault> {
    match result {
        Ok(_) => None,
        Err(error) => Some(error@),
    }
}

fn check_masks(writable: &PathText, hidden: &Vec<MaskPath>) -> (checked: CageResult<()>)
    ensures
        check_outcome(checked) == mask_conflict(writable@, masks(hidden@), 0),
{
    let mut index: usize = 0;
    while index < hidden.len()
        invariant
            index <= hidden.len(),
            mask_conflict(writable@, masks(hidden@), 0) == mask_conflict(
                writable@,
                masks(hidden@),
                index as int,
            ),
        decreases hidden.len() - index,
    {
        assert(masks(hidden@)[index as int] == hidden[index as int]@);
        let mask = hidden[index].path();
        if writable.starts_with(mask) {
            return Err(
                CageError::policy(
                    writable.display().as_str(),
                    "a writable path must not be hidden by policy",
                    "choose a writable path outside every hidden path",
                ),
            );
        }
        if mask.starts_with(writable) {
            return Err(
                CageError::policy(
                    writable.display().as_str(),
                    text::owned("the writable path would re-expose hidden path ").with(
                        mask.display().as_str(),
                    ).as_str(),
                    "choose a writable path that contains no hidden path",
                ),
            );
        }
        index = index + 1;
    }
    Ok(())
}

/// Checks that no writable path is the root, is hidden, or contains something
/// hidden.
pub fn validate_writable_paths(paths: &Vec<PathText>, hidden: &Vec<MaskPath>) -> (checked:
    CageResult<()>)
    ensures
        check_outcome(checked) == writable_conflict(os::texts(paths@), masks(hidden@), 0),
{
    let root = OsText::new("/");
    let mut index: usize = 0;
    while index < paths.len()
        invariant
            index <= paths.len(),
            root@ == os::lit("/"),
            writable_conflict(os::texts(paths@), masks(hidden@), 0) == writable_conflict(
                os::texts(paths@),
                masks(hidden@),
                index as int,
            ),
        decreases paths.len() - index,
    {
        assert(os::texts(paths@)[index as int] == paths[index as int]@);
        if paths[index].same_path(&root) {
            return Err(
                CageError::policy(
                    paths[index].display().as_str(),
                    "the filesystem root cannot be writable",
                    "choose a writable path below the filesystem root",
                ),
            );
        }
        if let Err(error) = check_masks(&paths[index], hidden) {
            return Err(error);
        }
        index = index + 1;
    }
    Ok(())
}

/// The first visible path from `index` on that is also private.
pub open spec fn visible_conflict(
    paths: Seq<Seq<u8>>,
    private: Seq<Seq<u8>>,
    index: int,
) -> Option<Fault>
    decreases paths.len() - index,
{
    if index < 0 || index >= paths.len() {
        None
    } else if toolchain::holds_path(private, paths[index]) {
        Some(
            Fault::Policy {
                subject: os::lossy_text(paths[index]),
                rule: "a read-only path would disable its private filesystem"@,
                remedy: "choose a read-only path below or outside the private path"@,
            },
        )
    } else {
        visible_conflict(paths, private, index + 1)
    }
}

/// Checks that no visible path replaces a private filesystem.
pub fn validate_read_only_paths(paths: &Vec<PathText>, private: &Vec<PathText>) -> (checked:
    CageResult<()>)
    ensures
        check_outcome(checked) == visible_conflict(os::texts(paths@), os::texts(private@), 0),
{
    let mut index: usize = 0;
    while index < paths.len()
        invariant
            index <= paths.len(),
            visible_conflict(os::texts(paths@), os::texts(private@), 0) == visible_conflict(
                os::texts(paths@),
                os::texts(private@),
                index as int,
            ),
        decreases paths.len() - index,
    {
        assert(os::texts(paths@)[index as int] == paths[index as int]@);
        if toolchain::contains_path(private, &paths[index]) {
            return Err(
                CageError::policy(
                    paths[index].display().as_str(),
                    "a read-only path would disable its private filesystem",
                    "choose a read-only path below or outside the private path",
                ),
            );
        }
        index = index + 1;
    }
    Ok(())
}

/// Writable paths are accepted exactly when none of them is the root, lies
/// below a hidden path, or contains one.
pub proof fn accepted_writable_paths_expose_nothing(paths: Seq<Seq<u8>>, hidden: Seq<Mask>)
    ensures
        writable_conflict(paths, hidden, 0) is None <==> {
            &&& forall|i: int|
                0 <= i < paths.len() ==> !path::same_path(#[trigger] paths[i], os::lit("/"))
            &&& forall|i: int, j: int|
                0 <= i < paths.len() && 0 <= j < hidden.len() ==> !path::within(
                    #[trigger] paths[i],
                    (#[trigger] hidden[j]).path(),
                ) && !path::within(hidden[j].path(), paths[i])
        },
{
    lemma_writable_conflict(paths, hidden, 0);
}

proof fn lemma_mask_conflict(writable: Seq<u8>, hidden: Seq<Mask>, index: int)
    requires
        0 <= index <= hidden.len(),
    ensures
        mask_conflict(writable, hidden, index) is None <==> forall|j: int|
            index <= j < hidden.len() ==> !path::within(writable, (#[trigger] hidden[j]).path())
                && !path::within(hidden[j].path(), writable),
    decreases hidden.len() - index,
{
    if index < hidden.len() {
        lemma_mask_conflict(writable, hidden, index + 1);
    }
}

proof fn lemma_writable_conflict(paths: Seq<Seq<u8>>, hidden: Seq<Mask>, index: int)
    requires
        0 <= index <= paths.len(),
    ensures
        writable_conflict(paths, hidden, index) is None <==> {
            &&& forall|i: int|
                index <= i < paths.len() ==> !path::same_path(#[trigger] paths[i], os::lit("/"))
            &&& forall|i: int, j: int|
                index <= i < paths.len() && 0 <= j < hidden.len() ==> !path::within(
                    #[trigger] paths[i],
                    (#[trigger] hidden[j]).path(),
                ) && !path::within(hidden[j].path(), paths[i])
        },
    decreases paths.len() - index,
{
    if index < paths.len() {
        lemma_mask_conflict(paths[index], hidden, 0);
        lemma_writable_conflict(paths, hidden, index + 1);
    }
}

/// Visible paths are accepted exactly when none of them is a private path.
pub proof fn accepted_visible_paths_keep_privacy(paths: Seq<Seq<u8>>, private: Seq<Seq<u8>>)
    ensures
        visible_conflict(paths, private, 0) is None <==> forall|i: int|
            0 <= i < paths.len() ==> !toolchain::holds_path(private, #[trigger] paths[i]),
{
    lemma_visible_conflict(paths, private, 0);
}

proof fn lemma_visible_conflict(paths: Seq<Seq<u8>>, private: Seq<Seq<u8>>, index: int)
    requires
        0 <= index <= paths.len(),
    ensures
        visible_conflict(paths, private, index) is None <==> forall|i: int|
            index <= i < paths.len() ==> !toolchain::holds_path(private, #[trigger] paths[i]),
    decreases paths.len() - index,
{
    if index < paths.len() {
        lemma_visible_conflict(paths, private, index + 1);
    }
}

/// `names` with those of the first `count` further names that are not there.
pub open spec fn with_names(
    names: Seq<Seq<u8>>,
    more: Seq<Seq<u8>>,
    count: int,
) -> Seq<Seq<u8>>
    decreases count,
{
    if count <= 0 {
        names
    } else {
        let before = with_names(names, more, count - 1);
        if before.contains(more[count - 1]) {
            before
        } else {
            before.push(more[count - 1])
        }
    }
}

/// The environment of a request with the policy's removals.
pub open spec fn merged(job: Job) -> EnvironmentRules {
    EnvironmentRules {
        inherit: job.environment.inherit,
        set: job.environment.set,
        remove: with_names(
            job.environment.remove,
            job.policy.remove_environment,
            job.policy.remove_environment.len() as int,
        ),
    }
}

pub fn merged_environment(request: &SandboxRequest) -> (environment: Environment)
    ensures
        environment@ == merged(request@),
{
    let mut remove = os::copy_texts(&request.environment.remove);
    let more = &request.policy.remove_environment;
    let mut index: usize = 0;
    while index < more.len()
        invariant
            index <= more.len(),
            os::texts(remove@) == with_names(
                os::texts(request.environment.remove@),
                os::texts(more@),
                index as int,
            ),
        decreases more.len() - index,
    {
        assert(os::texts(more@)[index as int] == more[index as int]@);
        if !os::contains_text(&remove, &more[index]) {
            os::push_text(&mut remove, &more[index]);
        }
        index = index + 1;
    }
    Environment {
        inherit: request.environment.inherit,
        set: os::copy_pairs(&request.environment.set),
        remove,
    }
}

/// The host's Cargo home, if there is one.
#[verifier::opaque]
pub open spec fn cargo_home(log: Seq<Answer>, at: int) -> Course<Option<Seq<u8>>> {
    match workspace::host_cargo_home(log, at) {
        Err(pause) => Err(pause),
        Ok((None, at)) => Ok((None, at)),
        Ok((Some(home), at)) => if !path::absolute(home) {
            Err(
                flow::refusal(
                    home,
                    "CARGO_HOME must be absolute when it is set"@,
                    "set CARGO_HOME to an absolute path or leave it unset"@,
                    at,
                ),
            )
        } else {
            match flow::entry(Query::Inspect(home), log, at) {
                Err(pause) => Err(pause),
                Ok((Err(failure), at)) => if failure.kind == IoKind::NotFound {
                    Ok((None, at))
                } else {
                    Err(
                        flow::io_pause(
                            "could not inspect CARGO_HOME "@ + os::lossy_text(home),
                            failure,
                            at,
                        ),
                    )
                },
                Ok((Ok(stat), at)) => if stat.kind != FileKind::Directory {
                    Err(
                        flow::refusal(
                            home,
                            "CARGO_HOME must be a directory"@,
                            "replace CARGO_HOME with a real directory"@,
                            at,
                        ),
                    )
                } else {
                    match walk::resolved(home, "could not canonicalize CARGO_HOME "@, log, at) {
                        Err(pause) => Err(pause),
                        Ok((canonical, at)) => Ok((Some(canonical), at)),
                    }
                },
            }
        },
    }
}

pub fn host_cargo_home(log: &Vec<Answer>, at: usize) -> (found: Flow<Option<PathText>>)
    ensures
        flow::course(found) == cargo_home(log@, at as int),
{
    proof {
        reveal(cargo_home);
    }
    let (home, at) = workspace::ask_cargo_home(log, at)?;
    let home = match home {
        Some(home) => home,
        None => {
            return Ok((None, at));
        },
    };
    if !home.is_absolute() {
        return Err(
            flow::refuse(
                &home,
                "CARGO_HOME must be absolute when it is set",
                "set CARGO_HOME to an absolute path or leave it unset",
                at,
            ),
        );
    }
    let (reply, at) = flow::ask_entry(Question::Inspect(home.clone()), log, at)?;
    match reply {
        Err(failure) => {
            if failure.kind == IoKind::NotFound {
                return Ok((None, at));
            }
            let context = text::owned("could not inspect CARGO_HOME ").with(
                home.display().as_str(),
            );
            Err(flow::io_halt(context.as_str(), &failure, at))
        },
        Ok(stat) => {
            if !stat.is_dir() {
                return Err(
                    flow::refuse(
                        &home,
                        "CARGO_HOME must be a directory",
                        "replace CARGO_HOME with a real directory",
                        at,
                    ),
                );
            }
            let (canonical, at) = walk::resolve(
                &home,
                "could not canonicalize CARGO_HOME ",
                log,
                at,
            )?;
            Ok((Some(canonical), at))
        },
    }
}

/// Cargo's caches that are there: each a directory and not a symlink.
pub open spec fn caches_from(
    candidates: Seq<Seq<u8>>,
    index: int,
    done: Seq<Seq<u8>>,
    log: Seq<Answer>,
    at: int,
) -> Course<Seq<Seq<u8>>>
    decreases candidates.len() - index,
{
    if index < 0 || index >= candidates.len() {
        Ok((done, at))
    } else {
        let cache = candidates[index];
        match flow::entry(Query::Inspect(cache), log, at) {
            Err(pause) => Err(pause),
            Ok((Err(failure), at)) => if failure.kind == IoKind::NotFound {
                caches_from(candidates, index + 1, done, log, at)
            } else {
                Err(
                    flow::io_pause(
                        "could not inspect Cargo cache "@ + os::lossy_text(cache),
                        failure,
                        at,
                    ),
                )
            },
            Ok((Ok(stat), at)) => if stat.kind != FileKind::Directory {
                Err(
                    flow::refusal(
                        cache,
                        "Cargo caches must be real directories"@,
                        "replace the cache with a real directory before running cargo-cage"@,
                        at,
                    ),
                )
            } else {
                caches_from(candidates, index + 1, done.push(cache), log, at)
            },
        }
    }
}

/// The caches that a Cargo home can have.
pub open spec fn cache_candidates(home: Option<Seq<u8>>) -> Seq<Seq<u8>> {
    match home {
        Some(home) => seq![
            path::join(home, os::lit("registry")),
            path::join(home, os::lit("git")),
        ],
        None => Seq::empty(),
    }
}

fn find_caches(home: &Option<PathText>, log: &Vec<Answer>, at: usize) -> (caches: Flow<
    Vec<PathText>,
>)
    ensures
        flow::course(caches) == caches_from(
            cache_candidates(home.model()),
            0,
            Seq::empty(),
            log@,
            at as int,
        ),
{
    let mut candidates: Vec<PathText> = Vec::new();
    if let Some(home) = home {
        os::push_text(&mut candidates, &home.join_text("registry"));
        os::push_text(&mut candidates, &home.join_text("git"));
    }
    let ghost all = cache_candidates(home.model());
    assert(os::texts(candidates@) =~= all);
    let mut done: Vec<PathText> = Vec::new();
    let mut index: usize = 0;
    let mut used: usize = at;
    assert(os::texts(done@) =~= Seq::empty());
    while index < candidates.len()
        invariant
            index <= candidates.len(),
            all == os::texts(candidates@),
            all == cache_candidates(home.model()),
            caches_from(all, 0, Seq::empty(), log@, at as int) == caches_from(
                all,
                index as int,
                os::texts(done@),
                log@,
                used as int,
            ),
        decreases candidates.len() - index,
    {
        assert(all[index as int] == candidates[index as int]@);
        let (reply, next) = flow::ask_entry(
            Question::Inspect(candidates[index].clone()),
            log,
            used,
        )?;
        match reply {
            Err(failure) => {
                if failure.kind != IoKind::NotFound {
                    let context = text::owned("could not inspect Cargo cache ").with(
                        candidates[index].display().as_str(),
                    );
                    return Err(flow::io_halt(context.as_str(), &failure, next));
                }
            },
            Ok(stat) => {
                if !stat.is_dir() {
                    return Err(
                        flow::refuse(
                            &candidates[index],
                            "Cargo caches must be real directories",
                            "replace the cache with a real directory before running cargo-cage",
                            next,
                        ),
                    );
                }
                os::push_text(&mut done, &candidates[index]);
            },
        }
        used = next;
        index = index + 1;
    }
    Ok((done, used))
}

/// The directories of the host that make up the runtime.
pub open spec fn runtime_places() -> Seq<Seq<u8>> {
    seq![
        os::lit("/usr"),
        os::lit("/bin"),
        os::lit("/sbin"),
        os::lit("/lib"),
        os::lit("/lib64"),
        os::lit("/etc/alternatives"),
    ]
}

/// The mounts of the runtime directories from `index` on that are there.
pub open spec fn runtime_from(
    index: int,
    done: Seq<(Seq<u8>, Seq<u8>)>,
    log: Seq<Answer>,
    at: int,
) -> Course<Seq<(Seq<u8>, Seq<u8>)>>
    decreases runtime_places().len() - index,
{
    if index < 0 || index >= runtime_places().len() {
        Ok((done, at))
    } else {
        let place = runtime_places()[index];
        match flow::place(Query::Resolve(place), log, at) {
            Err(pause) => Err(pause),
            Ok((Ok(canonical), at)) => runtime_from(
                index + 1,
                done.push((canonical, place)),
                log,
                at,
            ),
            Ok((Err(failure), at)) => if failure.kind == IoKind::NotFound {
                runtime_from(index + 1, done, log, at)
            } else {
                Err(
                    flow::io_pause(
                        "could not canonicalize runtime directory "@ + os::lossy_text(place),
                        failure,
                        at,
                    ),
                )
            },
        }
    }
}

fn find_runtime(log: &Vec<Answer>, at: usize) -> (mounts: Flow<Vec<BindMount>>)
    ensures
        flow::course(mounts) == runtime_from(0, Seq::empty(), log@, at as int),
{
    let mut places: Vec<PathText> = Vec::new();
    os::push_lit(&mut places, "/usr");
    os::push_lit(&mut places, "/bin");
    os::push_lit(&mut places, "/sbin");
    os::push_lit(&mut places, "/lib");
    os::push_lit(&mut places, "/lib64");
    os::push_lit(&mut places, "/etc/alternatives");
    assert(os::texts(places@) =~= runtime_places());
    let mut done: Vec<BindMount> = Vec::new();
    let mut index: usize = 0;
    let mut used: usize = at;
    assert(binds(done@) =~= Seq::empty());
    while index < places.len()
        invariant
            index <= places.len(),
            os::texts(places@) == runtime_places(),
            runtime_from(0, Seq::empty(), log@, at as int) == runtime_from(
                index as int,
                binds(done@),
                log@,
                used as int,
            ),
        decreases places.len() - index,
    {
        assert(os::texts(places@)[index as int] == places[index as int]@);
        let (reply, next) = flow::ask_place(Question::Resolve(places[index].clone()), log, used)?;
        match reply {
            Ok(canonical) => {
                push_bind(&mut done, canonical, places[index].clone());
            },
            Err(failure) => {
                if failure.kind != IoKind::NotFound {
                    let context = text::owned("could not canonicalize runtime directory ").with(
                        places[index].display().as_str(),
                    );
                    return Err(flow::io_halt(context.as_str(), &failure, next));
                }
            },
        }
        used = next;
        index = index + 1;
    }
    Ok((done, used))
}

pub const SCRUBBER_SHELL: &'static str = "/bin/bash";

/// The shell that scrubs file descriptors must be there.
#[verifier::opaque]
pub open spec fn shell_present(log: Seq<Answer>, at: int) -> Course<()> {
    match cargo_args::leads_to(os::lit(SCRUBBER_SHELL), FileKind::File, log, at) {
        Err(pause) => Err(pause),
        Ok((true, at)) => Ok(((), at)),
        Ok((false, at)) => Err(
            flow::setup_pause(
                SCRUBBER_SHELL@,
                "the file-descriptor scrubber needs Bash inside the sandbox runtime"@,
                "install Bash at /bin/bash and retry"@,
                "the shell is missing or not a regular file"@,
                at,
            ),
        ),
    }
}

fn require_shell(log: &Vec<Answer>, at: usize) -> (checked: Flow<()>)
    ensures
        flow::course(checked) == shell_present(log@, at as int),
{
    proof {
        reveal(shell_present);
    }
    let (found, at) = cargo_args::leads_to_kind(
        &OsText::new(SCRUBBER_SHELL),
        FileKind::File,
        log,
        at,
    )?;
    if !found {
        return Err(
            flow::setup_halt(
                SCRUBBER_SHELL,
                "the file-descriptor scrubber needs Bash inside the sandbox runtime",
                "install Bash at /bin/bash and retry",
                "the shell is missing or not a regular file",
                at,
            ),
        );
    }
    Ok(((), at))
}

/// The paths of a layout in canonical form.
pub struct Ground {
    pub current_dir: Seq<u8>,
    pub writable_paths: Seq<Seq<u8>>,
    pub read_only_paths: Seq<Seq<u8>>,
    pub private_paths: Seq<Seq<u8>>,
    pub hidden_paths: Seq<Mask>,
}

/// The paths of a plan in canonical form.
pub struct GroundPaths {
    pub current_dir: PathText,
    pub writable_paths: Vec<PathText>,
    pub read_only_paths: Vec<PathText>,
    pub private_paths: Vec<PathText>,
    pub hidden_paths: Vec<MaskPath>,
}

impl Model for GroundPaths {
    type M = Ground;

    open spec fn model(&self) -> Ground {
        Ground {
            current_dir: self.current_dir@,
            writable_paths: os::texts(self.writable_paths@),
            read_only_paths: os::texts(self.read_only_paths@),
            private_paths: os::texts(self.private_paths@),
            hidden_paths: masks(self.hidden_paths@),
        }
    }
}

/// The private paths with `/run`, which is always private.
pub open spec fn with_run(private: Seq<Seq<u8>>, run: Seq<u8>) -> Seq<Seq<u8>> {
    if toolchain::holds_path(private, run) {
        private
    } else {
        private.push(run)
    }
}

#[verifier::opaque]
pub open spec fn grounded(job: Job, log: Seq<Answer>, at: int) -> Course<Ground> {
    match existing_directory(job.current_dir, "current directory"@, log, at) {
        Err(pause) => Err(pause),
        Ok((current_dir, at)) => match paths_from(
            job.policy.writable_paths,
            "writable path"@,
            0,
            Seq::empty(),
            log,
            at,
        ) {
            Err(pause) => Err(pause),
            Ok((writable_paths, at)) => match directories_from(
                job.policy.read_only_paths,
                "read-only path"@,
                0,
                Seq::empty(),
                log,
                at,
            ) {
                Err(pause) => Err(pause),
                Ok((read_only_paths, at)) => match directories_from(
                    job.policy.private_paths,
                    "private path"@,
                    0,
                    Seq::empty(),
                    log,
                    at,
                ) {
                    Err(pause) => Err(pause),
                    Ok((private, at)) => match existing_directory(
                        os::lit("/run"),
                        "private path"@,
                        log,
                        at,
                    ) {
                        Err(pause) => Err(pause),
                        Ok((run, at)) => {
                            let private_paths = with_run(private, run);
                            match masks_from(
                                job.policy.hidden_paths,
                                0,
                                private_paths,
                                read_only_paths,
                                Seq::empty(),
                                log,
                                at,
                            ) {
                                Err(pause) => Err(pause),
                                Ok((hidden_paths, at)) => Ok(
                                    (
                                        Ground {
                                            current_dir,
                                            writable_paths,
                                            read_only_paths,
                                            private_paths,
                                            hidden_paths,
                                        },
                                        at,
                                    ),
                                ),
                            }
                        },
                    },
                },
            },
        },
    }
}

fn find_ground(request: &SandboxRequest, log: &Vec<Answer>, at: usize) -> (ground: Flow<
    GroundPaths,
>)
    ensures
        flow::course(ground) == grounded(request@, log@, at as int),
{
    proof {
        reveal(grounded);
    }
    let (current_dir, at) = canonical_existing_dir(
        &request.current_dir,
        "current directory",
        log,
        at,
    )?;
    let (writable_paths, at) = canonical_paths(
        &request.policy.writable_paths,
        "writable path",
        log,
        at,
    )?;
    let (read_only_paths, at) = canonical_directories(
        &request.policy.read_only_paths,
        "read-only path",
        log,
        at,
    )?;
    let (private, at) = canonical_directories(
        &request.policy.private_paths,
        "private path",
        log,
        at,
    )?;
    let mut private_paths = private;
    let (run, at) = canonical_existing_dir(&OsText::new("/run"), "private path", log, at)?;
    if !toolchain::contains_path(&private_paths, &run) {
        os::push_text(&mut private_paths, &run);
    }
    let (hidden_paths, at) = make_masks(
        &request.policy.hidden_paths,
        &private_paths,
        &read_only_paths,
        log,
        at,
    )?;
    Ok(
        (
            GroundPaths {
                current_dir,
                writable_paths,
                read_only_paths,
                private_paths,
                hidden_paths,
            },
            at,
        ),
    )
}

/// The layout that a request leads to, or why there is none.
#[verifier::opaque]
pub open spec fn planned(job: Job, log: Seq<Answer>, at: int) -> Course<Layout> {
    match grounded(job, log, at) {
        Err(pause) => Err(pause),
        Ok((ground, at)) => match visible_conflict(
            ground.read_only_paths,
            ground.private_paths,
            0,
        ) {
            Some(fault) => Err(Pause::Fail(fault, at)),
            None => match writable_conflict(ground.writable_paths, ground.hidden_paths, 0) {
                Some(fault) => Err(Pause::Fail(fault, at)),
                None => match cargo_home(log, at) {
                    Err(pause) => Err(pause),
                    Ok((home, at)) => match caches_from(
                        cache_candidates(home),
                        0,
                        Seq::empty(),
                        log,
                        at,
                    ) {
                        Err(pause) => Err(pause),
                        Ok((caches, at)) => match runtime_from(0, Seq::empty(), log, at) {
                            Err(pause) => Err(pause),
                            Ok((runtime, at)) => match shell_present(log, at) {
                                Err(pause) => Err(pause),
                                Ok((_, at)) => Ok(
                                    (
                                        Layout {
                                            current_dir: ground.current_dir,
                                            writable_paths: ground.writable_paths,
                                            hidden_paths: ground.hidden_paths,
                                            private_paths: ground.private_paths,
                                            read_only_paths: ground.read_only_paths,
                                            cargo_home: home,
                                            cargo_cache_paths: caches,
                                            runtime_mounts: runtime,
                                            environment: merged(job),
                                            network: job.policy.network,
                                            resources: job.policy.resources,
                                        },
                                        at,
                                    ),
                                ),
                            },
                        },
                    },
                },
            },
        },
    }
}

impl SandboxPlan {
    /// The validated layout for a request.
    pub fn from_request(request: &SandboxRequest, log: &Vec<Answer>, at: usize) -> (plan: Flow<
        SandboxPlan,
    >)
        ensures
            flow::course(plan) == planned(request@, log@, at as int),
    {
        proof {
            reveal(planned);
        }
        let (ground, at) = find_ground(request, log, at)?;
        if let Err(error) = validate_read_only_paths(
            &ground.read_only_paths,
            &ground.private_paths,
        ) {
            return Err(Halt::Fail(error, at));
        }
        if let Err(error) = validate_writable_paths(&ground.writable_paths, &ground.hidden_paths) {
            return Err(Halt::Fail(error, at));
        }
        let (home, at) = host_cargo_home(log, at)?;
        let (caches, at) = find_caches(&home, log, at)?;
        let (runtime, at) = find_runtime(log, at)?;
        let (_, at) = require_shell(log, at)?;
        let plan = SandboxPlan {
            current_dir: ground.current_dir,
            writable_paths: ground.writable_paths,
            hidden_paths: ground.hidden_paths,
            private_paths: ground.private_paths,
            read_only_paths: ground.read_only_paths,
            cargo_home: home,
            cargo_cache_paths: caches,
            runtime_mounts: runtime,
            environment: merged_environment(request),
            network: request.policy.network,
            resources: request.policy.resources,
        };
        Ok((plan, at))
    }
}

/// A layout keeps what the policy of the request asks for: nothing writable is
/// the root or touches anything hidden, nothing visible replaces a private
/// filesystem, and the network is as requested.
pub proof fn layout_keeps_the_policy(job: Job, log: Seq<Answer>, at: int)
    requires
        planned(job, log, at) is Ok,
    ensures
        ({
            let layout = planned(job, log, at)->Ok_0.0;
            &&& layout.network == job.policy.network
            &&& layout.environment == merged(job)
            &&& forall|i: int|
                0 <= i < layout.writable_paths.len() ==> !path::same_path(
                    #[trigger] layout.writable_paths[i],
                    os::lit("/"),
                )
            &&& forall|i: int, j: int|
                0 <= i < layout.writable_paths.len() && 0 <= j < layout.hidden_paths.len()
                    ==> !path::within(
                    #[trigger] layout.writable_paths[i],
                    (#[trigger] layout.hidden_paths[j]).path(),
                ) && !path::within(layout.hidden_paths[j].path(), layout.writable_paths[i])
            &&& forall|i: int|
                0 <= i < layout.read_only_paths.len() ==> !toolchain::holds_path(
                    layout.private_paths,
                    #[trigger] layout.read_only_paths[i],
                )
        }),
{
    reveal(planned);
    let layout = planned(job, log, at)->Ok_0.0;
    accepted_writable_paths_expose_nothing(layout.writable_paths, layout.hidden_paths);
    accepted_visible_paths_keep_privacy(layout.read_only_paths, layout.private_paths);
}

proof fn lemma_caches_are_candidates(
    candidates: Seq<Seq<u8>>,
    index: int,
    done: Seq<Seq<u8>>,
    log: Seq<Answer>,
    at: int,
)
    requires
        caches_from(candidates, index, done, log, at) is Ok,
        forall|i: int| 0 <= i < done.len() ==> candidates.contains(#[trigger] done[i]),
    ensures
        ({
            let caches = caches_from(candidates, index, done, log, at)->Ok_0.0;
            forall|i: int| 0 <= i < caches.len() ==> candidates.contains(#[trigger] caches[i])
        }),
    decreases candidates.len() - index,
{
    if 0 <= index < candidates.len() {
        let cache = candidates[index];
        match flow::entry(Query::Inspect(cache), log, at) {
            Err(_) => {},
            Ok((Err(_), next)) => {
                lemma_caches_are_candidates(candidates, index + 1, done, log, next);
            },
            Ok((Ok(_), next)) => {
                lemma_caches_are_candidates(candidates, index + 1, done.push(cache), log, next);
            },
        }
    }
}

proof fn lemma_runtime_is_listed(
    index: int,
    done: Seq<(Seq<u8>, Seq<u8>)>,
    log: Seq<Answer>,
    at: int,
)
    requires
        runtime_from(index, done, log, at) is Ok,
        forall|i: int| 0 <= i < done.len() ==> runtime_places().contains((#[trigger] done[i]).1),
    ensures
        ({
            let mounts = runtime_from(index, done, log, at)->Ok_0.0;
            forall|i: int|
                0 <= i < mounts.len() ==> runtime_places().contains((#[trigger] mounts[i]).1)
        }),
    decreases runtime_places().len() - index,
{
    if 0 <= index < runtime_places().len() {
        let place = runtime_places()[index];
        match flow::place(Query::Resolve(place), log, at) {
            Err(_) => {},
            Ok((Ok(canonical), next)) => {
                lemma_runtime_is_listed(index + 1, done.push((canonical, place)), log, next);
            },
            Ok((Err(_), next)) => {
                lemma_runtime_is_listed(index + 1, done, log, next);
            },
        }
    }
}

/// A sandbox shows the host in pieces: the runtime appears at its listed places
/// only, none of which is the root, and of Cargo's home nothing appears but the
/// registry and Git caches.
pub proof fn only_listed_places_are_shown(job: Job, log: Seq<Answer>, at: int)
    requires
        planned(job, log, at) is Ok,
    ensures
        ({
            let layout = planned(job, log, at)->Ok_0.0;
            &&& forall|i: int|
                0 <= i < layout.runtime_mounts.len() ==> runtime_places().contains(
                    (#[trigger] layout.runtime_mounts[i]).1,
                )
            &&& forall|i: int|
                0 <= i < layout.cargo_cache_paths.len() ==> cache_candidates(
                    layout.cargo_home,
                ).contains(#[trigger] layout.cargo_cache_paths[i])
        }),
        !runtime_places().contains(os::lit("/")),
{
    reveal(planned);
    let ground = grounded(job, log, at)->Ok_0;
    let home = cargo_home(log, ground.1)->Ok_0;
    let candidates = cache_candidates(home.0);
    let caches = caches_from(candidates, 0, Seq::empty(), log, home.1)->Ok_0;
    lemma_caches_are_candidates(candidates, 0, Seq::empty(), log, home.1);
    lemma_runtime_is_listed(0, Seq::empty(), log, caches.1);
    lemma_root_is_no_runtime_place();
}

proof fn lemma_root_is_no_runtime_place()
    ensures
        !runtime_places().contains(os::lit("/")),
{
    reveal_strlit("/");
    reveal_strlit("/usr");
    reveal_strlit("/bin");
    reveal_strlit("/sbin");
    reveal_strlit("/lib");
    reveal_strlit("/lib64");
    reveal_strlit("/etc/alternatives");
    os::lemma_lit("/");
    os::lemma_lit("/usr");
    os::lemma_lit("/bin");
    os::lemma_lit("/sbin");
    os::lemma_lit("/lib");
    os::lemma_lit("/lib64");
    os::lemma_lit("/etc/alternatives");
    let places = runtime_places();
    assert forall|i: int| 0 <= i < places.len() implies #[trigger] places[i] != os::lit("/") by {
        assert(places[i].len() != 1);
    }
}

} // verus!

//! Trees of files that a sandbox makes visible: only real files and
//! directories, no mounts inside, and no file that is also reachable from
//! outside.

use crate::error::{CageError, CageResult, Fault};
use crate::flow;
use crate::flow::{Answer, Course, FileKind, Flow, Halt, Model, Pause, Query, Question, Stat};
use crate::order;
use crate::os;
use crate::os::{OsText, PathText};
use crate::path;
use crate::plan;
use crate::plan::{Layout, SandboxPlan};
use crate::scan;
use crate::text;
use crate::text::Compose;
use std::collections::HashMap;
use vstd::prelude::*;
use vstd::string::*;
use vstd::utf8::*;

verus! {

/// What a tree is for.
#[derive(Clone, Copy, Debug, PartialEq, Eq, Structural)]
pub enum TreeKind {
    Cache,
    ReadOnly,
    Writable,
}

impl TreeKind {
    /// What the tree is called in messages.
    pub open spec fn name(self) -> Seq<char> {
        match self {
            TreeKind::Cache => "Cargo cache"@,
            TreeKind::ReadOnly => "read-only"@,
            TreeKind::Writable => "writable"@,
        }
    }
}

pub fn tree_label(kind: TreeKind) -> (name: &'static str)
    ensures
        name@ == kind.name(),
{
    match kind {
        TreeKind::Cache => "Cargo cache",
        TreeKind::ReadOnly => "read-only",
        TreeKind::Writable => "writable",
    }
}

/// A tree that changed or cannot be read.
pub open spec fn tree_failure(path: Seq<u8>, kind: TreeKind, detail: Seq<char>, at: int) -> Pause {
    flow::setup_pause(
        os::lossy_text(path),
        kind.name() + " trees must remain real, present, and stable during validation"@,
        "stop concurrent changes to the validated tree and retry"@,
        detail,
        at,
    )
}

fn tree_setup_failure(path: &PathText, kind: TreeKind, detail: &str, at: usize) -> (halt: Halt)
    ensures
        halt@ == tree_failure(path@, kind, detail@, at as int),
{
    flow::setup_halt(
        path.display().as_str(),
        text::owned(tree_label(kind)).with(
            " trees must remain real, present, and stable during validation",
        ).as_str(),
        "stop concurrent changes to the validated tree and retry",
        detail,
        at,
    )
}

// ---------------------------------------------------------------------------
// Hardlinks
// ---------------------------------------------------------------------------

/// A file found in a tree.
#[derive(Debug)]
pub struct FoundFile {
    pub path: PathText,
    pub stat: Stat,
}

pub open spec fn found(list: Seq<FoundFile>) -> Seq<(Seq<u8>, Stat)> {
    list.map_values(|file: FoundFile| (file.path@, file.stat))
}

/// Whether two files are the same.
pub open spec fn same_file(left: Stat, right: Stat) -> bool {
    left.device == right.device && left.inode == right.inode
}

/// How many of the first `count` files are the same as another.
pub open spec fn aliases(files: Seq<(Seq<u8>, Stat)>, stat: Stat, count: int) -> nat
    decreases count,
{
    if count <= 0 {
        0
    } else {
        aliases(files, stat, count - 1) + if same_file(files[count - 1].1, stat) {
            1nat
        } else {
            0nat
        }
    }
}

/// How often a file occurs among all.
pub open spec fn alias_count(files: Seq<(Seq<u8>, Stat)>, stat: Stat) -> nat {
    aliases(files, stat, files.len() as int)
}

/// The first file from `index` on that has a name outside the list.
pub open spec fn outside_alias(files: Seq<(Seq<u8>, Stat)>, label: Seq<char>, index: int) -> Option<
    Fault,
>
    decreases files.len() - index,
{
    if index < 0 || index >= files.len() {
        None
    } else if files[index].1.links != alias_count(files, files[index].1) {
        Some(
            Fault::Policy {
                subject: os::lossy_text(files[index].0),
                rule: label + " contains a hardlink with an alias outside the validated tree"@,
                remedy:
                    "replace the hardlink with a copied regular file inside the validated tree"@,
            },
        )
    } else {
        outside_alias(files, label, index + 1)
    }
}

/// A file's device and inode as one number.
pub open spec fn identity(stat: Stat) -> int {
    stat.device * 18446744073709551616 + stat.inode
}

fn identify(stat: &Stat) -> (number: u128)
    ensures
        number as int == identity(*stat),
{
    (stat.device as u128) * 18446744073709551616 + stat.inode as u128
}

proof fn lemma_identity(left: Stat, right: Stat)
    ensures
        identity(left) == identity(right) <==> same_file(left, right),
        0 <= identity(left) <= u128::MAX,
{
}

proof fn lemma_alias_bound(files: Seq<(Seq<u8>, Stat)>, stat: Stat, count: int)
    requires
        0 <= count,
    ensures
        aliases(files, stat, count) <= count,
    decreases count,
{
    if count > 0 {
        lemma_alias_bound(files, stat, count - 1);
    }
}

/// Whether a table holds how often each of the first `count` files occurs.
pub open spec fn counted(
    table: Map<u128, u64>,
    files: Seq<(Seq<u8>, Stat)>,
    count: int,
) -> bool {
    forall|stat: Stat|
        {
            let key = #[trigger] identity(stat) as u128;
            if table.contains_key(key) {
                table[key] == aliases(files, stat, count)
            } else {
                aliases(files, stat, count) == 0
            }
        }
}

fn count_aliases(list: &Vec<FoundFile>) -> (table: HashMap<u128, u64>)
    ensures
        counted(table@, found(list@), list@.len() as int),
{
    broadcast use vstd::std_specs::hash::group_hash_axioms;

    let ghost files = found(list@);
    let mut table: HashMap<u128, u64> = HashMap::new();
    let mut index: usize = 0;
    while index < list.len()
        invariant
            index <= list.len(),
            files == found(list@),
            counted(table@, files, index as int),
        decreases list.len() - index,
    {
        broadcast use vstd::std_specs::hash::group_hash_axioms;

        let stat = list[index].stat;
        assert(files[index as int].1 == stat);
        let key: u128 = identify(&stat);
        let ghost before = table@;
        proof {
            lemma_identity(stat, stat);
            lemma_alias_bound(files, stat, index as int);
            assert(identity(stat) as u128 == key);
        }
        let seen: u64 = match table.get(&key) {
            Some(count) => *count,
            None => 0,
        };
        assert(seen as nat == aliases(files, stat, index as int));
        table.insert(key, seen + 1);
        index = index + 1;
        proof {
            assert forall|other: Stat|
                {
                    let place = #[trigger] identity(other) as u128;
                    if table@.contains_key(place) {
                        table@[place] == aliases(files, other, index as int)
                    } else {
                        aliases(files, other, index as int) == 0
                    }
                } by {
                lemma_identity(other, stat);
                lemma_identity(stat, other);
                let place = identity(other) as u128;
                assert(place == key <==> same_file(stat, other));
                assert(before.contains_key(place) ==> before[place] == aliases(
                    files,
                    other,
                    index - 1,
                ));
                assert(!before.contains_key(place) ==> aliases(files, other, index - 1) == 0);
                if same_file(stat, other) {
                    lemma_same_aliases(files, stat, other, index - 1);
                }
            }
        }
    }
    table
}

proof fn lemma_same_aliases(files: Seq<(Seq<u8>, Stat)>, left: Stat, right: Stat, count: int)
    requires
        same_file(left, right),
    ensures
        aliases(files, left, count) == aliases(files, right, count),
    decreases count,
{
    if count > 0 {
        lemma_same_aliases(files, left, right, count - 1);
    }
}

/// Refuses files that are also reachable by a name outside the list.
pub fn validate_hardlink_aliases(list: &Vec<FoundFile>, label: &str) -> (checked: CageResult<()>)
    ensures
        plan::check_outcome(checked) == outside_alias(found(list@), label@, 0),
{
    broadcast use vstd::std_specs::hash::group_hash_axioms;

    let table = count_aliases(list);
    let ghost files = found(list@);
    let mut index: usize = 0;
    while index < list.len()
        invariant
            index <= list.len(),
            files == found(list@),
            counted(table@, files, list@.len() as int),
            outside_alias(files, label@, 0) == outside_alias(files, label@, index as int),
        decreases list.len() - index,
    {
        broadcast use vstd::std_specs::hash::group_hash_axioms;

        let stat = list[index].stat;
        assert(files[index as int] == (list[index as int].path@, stat));
        let key: u128 = identify(&stat);
        proof {
            lemma_identity(stat, stat);
            assert(identity(stat) as u128 == key);
        }
        let count: u64 = match table.get(&key) {
            Some(count) => *count,
            None => 0,
        };
        assert(count as nat == alias_count(files, stat));
        if stat.links != count {
            return Err(
                CageError::policy(
                    list[index].path.display().as_str(),
                    text::owned(label).with(
                        " contains a hardlink with an alias outside the validated tree",
                    ).as_str(),
                    "replace the hardlink with a copied regular file inside the validated tree",
                ),
            );
        }
        index = index + 1;
    }
    Ok(())
}

// ---------------------------------------------------------------------------
// Mounts inside a tree
// ---------------------------------------------------------------------------

pub open spec fn is_octal(byte: u8) -> bool {
    48 <= byte <= 55
}

/// The number of three octal digits.
pub open spec fn octal(first: u8, second: u8, third: u8) -> int {
    (first - 48) * 64 + (second - 48) * 8 + (third - 48)
}

/// The bytes from `index` on, with octal escapes put back.
pub open spec fn unescaped_from(bytes: Seq<u8>, index: int, before: Seq<u8>) -> Option<Seq<u8>>
    decreases bytes.len() - index,
{
    if index < 0 || index >= bytes.len() {
        Some(before)
    } else if bytes[index] != 92 {
        unescaped_from(bytes, index + 1, before.push(bytes[index]))
    } else if index + 3 < bytes.len() && is_octal(bytes[index + 1]) && is_octal(bytes[index + 2])
        && is_octal(bytes[index + 3]) && octal(
        bytes[index + 1],
        bytes[index + 2],
        bytes[index + 3],
    ) <= 255 {
        unescaped_from(
            bytes,
            index + 4,
            before.push(octal(bytes[index + 1], bytes[index + 2], bytes[index + 3]) as u8),
        )
    } else {
        None
    }
}

/// A mount point as the mount table spells it. A spelling with a broken escape,
/// or that is not text, stands for nothing.
pub open spec fn mount_point(spelled: Seq<char>) -> Option<Seq<u8>> {
    match unescaped_from(encode_utf8(spelled), 0, Seq::empty()) {
        Some(bytes) => if valid_utf8(bytes) {
            Some(bytes)
        } else {
            None
        },
        None => None,
    }
}

/// The path that a mount table spells.
pub fn decode_mountinfo_path(encoded: &str) -> (decoded: Option<PathText>)
    ensures
        match decoded {
            Some(path) => mount_point(encoded@) == Some(path@),
            None => mount_point(encoded@) is None,
        },
{
    let bytes = encoded.as_bytes();
    let mut decoded: Vec<u8> = Vec::new();
    let mut index: usize = 0;
    assert(decoded@ =~= Seq::empty());
    while index < bytes.len()
        invariant
            index <= bytes.len(),
            bytes@ == encode_utf8(encoded@),
            unescaped_from(bytes@, 0, Seq::empty()) == unescaped_from(
                bytes@,
                index as int,
                decoded@,
            ),
        decreases bytes.len() - index,
    {
        if bytes[index] != 92 {
            decoded.push(bytes[index]);
            index = index + 1;
        } else {
            if bytes.len() - index <= 3 {
                return None;
            }
            let first = bytes[index + 1];
            let second = bytes[index + 2];
            let third = bytes[index + 3];
            if first < 48 || first > 55 || second < 48 || second > 55 || third < 48 || third > 55 {
                return None;
            }
            let value: u16 = (first as u16 - 48) * 64 + (second as u16 - 48) * 8 + (third as u16
                - 48);
            if value > 255 {
                return None;
            }
            decoded.push(value as u8);
            index = index + 4;
        }
    }
    let path = OsText { bytes: decoded };
    match path.as_text() {
        Some(_) => Some(path),
        None => None,
    }
}

/// The first line of a mount table from `index` on that speaks against a tree.
pub open spec fn mount_conflict(
    lines: Seq<Seq<char>>,
    index: int,
    root: Seq<u8>,
    label: Seq<char>,
) -> Option<Fault>
    decreases lines.len() - index,
{
    if index < 0 || index >= lines.len() {
        None
    } else if lines[index].len() == 0 {
        mount_conflict(lines, index + 1, root, label)
    } else {
        let words = scan::words(lines[index]);
        if words.len() < 5 {
            Some(
                Fault::Policy {
                    subject: os::lossy_text(root),
                    rule:
                        "the host mount table could not be parsed while validating a protected tree"@,
                    remedy: "retry on a Linux host with a readable /proc/self/mountinfo"@,
                },
            )
        } else {
            match mount_point(words[4]) {
                None => Some(
                    Fault::Policy {
                        subject: os::lossy_text(root),
                        rule: "the host mount table contained an invalid protected-tree path"@,
                        remedy: "retry after removing invalid mountpoint metadata"@,
                    },
                ),
                Some(point) => if !path::same_path(point, root) && path::within(point, root) {
                    Some(
                        Fault::Policy {
                            subject: os::lossy_text(point),
                            rule: label + " trees must not contain nested mountpoints"@,
                            remedy: "unmount the nested filesystem before running cargo-cage"@,
                        },
                    )
                } else {
                    mount_conflict(lines, index + 1, root, label)
                },
            }
        }
    }
}

fn check_mounts(list: &Vec<String>, root: &PathText, label: &str) -> (checked: CageResult<()>)
    ensures
        plan::check_outcome(checked) == mount_conflict(scan::strings(list@), 0, root@, label@),
{
    let ghost all = scan::strings(list@);
    let mut index: usize = 0;
    proof {
        reveal_strlit("");
    }
    while index < list.len()
        invariant
            index <= list.len(),
            all == scan::strings(list@),
            ""@.len() == 0,
            mount_conflict(all, 0, root@, label@) == mount_conflict(
                all,
                index as int,
                root@,
                label@,
            ),
        decreases list.len() - index,
    {
        assert(all[index as int] == list[index as int]@);
        if text::same_text(list[index].as_str(), "") {
            index = index + 1;
        } else {
            assert(list[index as int]@.len() != 0) by {
                if list[index as int]@.len() == 0 {
                    assert(list[index as int]@ =~= ""@);
                }
            }
            let words = scan::split_words(list[index].as_str());
            let ghost fields = scan::words(all[index as int]);
            assert(fields == scan::strings(words@));
            assert(fields.len() == words.len());
            if words.len() < 5 {
                return Err(
                    CageError::policy(
                        root.display().as_str(),
                        "the host mount table could not be parsed while validating a protected tree",
                        "retry on a Linux host with a readable /proc/self/mountinfo",
                    ),
                );
            }
            assert(fields[4] == words[4]@);
            let point = match decode_mountinfo_path(words[4].as_str()) {
                Some(point) => point,
                None => {
                    return Err(
                        CageError::policy(
                            root.display().as_str(),
                            "the host mount table contained an invalid protected-tree path",
                            "retry after removing invalid mountpoint metadata",
                        ),
                    );
                },
            };
            if !point.same_path(root) && point.starts_with(root) {
                return Err(
                    CageError::policy(
                        point.display().as_str(),
                        text::owned(label).with(
                            " trees must not contain nested mountpoints",
                        ).as_str(),
                        "unmount the nested filesystem before running cargo-cage",
                    ),
                );
            }
            index = index + 1;
        }
    }
    Ok(())
}

/// A tree without mounts inside.
#[verifier::opaque]
pub open spec fn unmounted(root: Seq<u8>, label: Seq<char>, log: Seq<Answer>, at: int) -> Course<
    (),
> {
    match flow::content(Query::ReadText(os::lit("/proc/self/mountinfo")), log, at) {
        Err(pause) => Err(pause),
        Ok((Err(failure), at)) => Err(
            flow::io_pause(
                "could not inspect mountpoints below "@ + os::lossy_text(root),
                failure,
                at,
            ),
        ),
        Ok((Ok(content), at)) => match mount_conflict(scan::lines(content), 0, root, label) {
            Some(fault) => flow::fail(fault, at),
            None => Ok(((), at)),
        },
    }
}

pub fn validate_no_nested_mounts(
    root: &PathText,
    label: &str,
    log: &Vec<Answer>,
    at: usize,
) -> (checked: Flow<()>)
    ensures
        flow::course(checked) == unmounted(root@, label@, log@, at as int),
{
    proof {
        reveal(unmounted);
    }
    let (reply, at) = flow::ask_content(
        Question::ReadText(OsText::new("/proc/self/mountinfo")),
        log,
        at,
    )?;
    let content = match reply {
        Ok(content) => content,
        Err(failure) => {
            return Err(
                flow::io_halt(
                    text::owned("could not inspect mountpoints below ").with(
                        root.display().as_str(),
                    ).as_str(),
                    &failure,
                    at,
                ),
            );
        },
    };
    match check_mounts(&scan::split_lines(content.as_str()), root, label) {
        Ok(_) => Ok(((), at)),
        Err(error) => Err(Halt::Fail(error, at)),
    }
}

// ---------------------------------------------------------------------------
// The walk
// ---------------------------------------------------------------------------

/// What a name in a tree turned out to be.
#[derive(Clone, Copy, Debug, PartialEq, Eq, Structural)]
pub enum Finding {
    Skipped,
    Directory,
    File(Stat),
}

impl Model for Finding {
    type M = Finding;

    open spec fn model(&self) -> Finding {
        *self
    }
}

/// Whether a path is excluded from a walk.
pub open spec fn is_excluded(path: Seq<u8>, excluded: Seq<Seq<u8>>) -> bool {
    exists|i: int|
        0 <= i < excluded.len() && (path::same_path(path, #[trigger] excluded[i]) || path::within(
            path,
            excluded[i],
        ))
}

fn check_excluded(path: &PathText, excluded: &Vec<PathText>) -> (yes: bool)
    ensures
        yes == is_excluded(path@, os::texts(excluded@)),
{
    let ghost all = os::texts(excluded@);
    let mut index: usize = 0;
    while index < excluded.len()
        invariant
            index <= excluded.len(),
            all == os::texts(excluded@),
            forall|i: int|
                0 <= i < index ==> !(path::same_path(path@, #[trigger] all[i]) || path::within(
                    path@,
                    all[i],
                )),
        decreases excluded.len() - index,
    {
        assert(all[index as int] == excluded[index as int]@);
        if path.same_path(&excluded[index]) || path.starts_with(&excluded[index]) {
            return true;
        }
        index = index + 1;
    }
    false
}

/// A symlink in a tree: tolerated only in a read-only tree, and only when it
/// leads back into it.
pub open spec fn inner_link(
    kind: TreeKind,
    root: Seq<u8>,
    path: Seq<u8>,
    log: Seq<Answer>,
    at: int,
) -> Course<Finding> {
    if kind == TreeKind::ReadOnly {
        match flow::place(Query::Resolve(path), log, at) {
            Err(pause) => Err(pause),
            Ok((Err(failure), at)) => Err(
                tree_failure(
                    path,
                    kind,
                    "could not resolve a read-only symlink: "@ + failure.message,
                    at,
                ),
            ),
            Ok((Ok(resolved), at)) => if path::within(resolved, root) {
                Ok((Finding::Skipped, at))
            } else {
                Err(
                    flow::refusal(
                        path,
                        "read-only tree symlinks must resolve inside the validated tree"@,
                        "replace the external symlink with a real file or an in-tree link"@,
                        at,
                    ),
                )
            },
        }
    } else {
        Err(
            flow::refusal(
                path,
                kind.name() + " trees must not contain symlinks"@,
                "remove the symlink before running cargo-cage"@,
                at,
            ),
        )
    }
}

/// What a name in a tree is.
#[verifier::opaque]
pub open spec fn inspected(
    kind: TreeKind,
    root: Seq<u8>,
    excluded: Seq<Seq<u8>>,
    path: Seq<u8>,
    log: Seq<Answer>,
    at: int,
) -> Course<Finding> {
    if is_excluded(path, excluded) {
        Ok((Finding::Skipped, at))
    } else {
        match flow::entry(Query::Inspect(path), log, at) {
            Err(pause) => Err(pause),
            Ok((Err(failure), at)) => Err(
                tree_failure(
                    path,
                    kind,
                    "could not inspect a tree entry: "@ + failure.message,
                    at,
                ),
            ),
            Ok((Ok(stat), at)) => match stat.kind {
                FileKind::Symlink => inner_link(kind, root, path, log, at),
                FileKind::Directory => Ok((Finding::Directory, at)),
                FileKind::File => Ok((Finding::File(stat), at)),
                _ => Err(
                    flow::refusal(
                        path,
                        kind.name() + " trees may contain only regular files and directories"@,
                        "remove the special file before running cargo-cage"@,
                        at,
                    ),
                ),
            },
        }
    }
}

fn follow_link(
    kind: TreeKind,
    root: &PathText,
    path: &PathText,
    log: &Vec<Answer>,
    at: usize,
) -> (finding: Flow<Finding>)
    ensures
        flow::course(finding) == inner_link(kind, root@, path@, log@, at as int),
{
    if kind != TreeKind::ReadOnly {
        return Err(
            flow::refuse(
                path,
                text::owned(tree_label(kind)).with(" trees must not contain symlinks").as_str(),
                "remove the symlink before running cargo-cage",
                at,
            ),
        );
    }
    let (reply, at) = flow::ask_place(Question::Resolve(path.clone()), log, at)?;
    match reply {
        Err(failure) => Err(
            tree_setup_failure(
                path,
                kind,
                text::owned("could not resolve a read-only symlink: ").with(
                    failure.message.as_str(),
                ).as_str(),
                at,
            ),
        ),
        Ok(resolved) => if resolved.starts_with(root) {
            Ok((Finding::Skipped, at))
        } else {
            Err(
                flow::refuse(
                    path,
                    "read-only tree symlinks must resolve inside the validated tree",
                    "replace the external symlink with a real file or an in-tree link",
                    at,
                ),
            )
        },
    }
}

fn inspect(
    kind: TreeKind,
    root: &PathText,
    excluded: &Vec<PathText>,
    path: &PathText,
    log: &Vec<Answer>,
    at: usize,
) -> (finding: Flow<Finding>)
    ensures
        flow::course(finding) == inspected(
            kind,
            root@,
            os::texts(excluded@),
            path@,
            log@,
            at as int,
        ),
{
    proof {
        reveal(inspected);
    }
    if check_excluded(path, excluded) {
        return Ok((Finding::Skipped, at));
    }
    let (reply, at) = flow::ask_entry(Question::Inspect(path.clone()), log, at)?;
    match reply {
        Err(failure) => Err(
            tree_setup_failure(
                path,
                kind,
                text::owned("could not inspect a tree entry: ").with(
                    failure.message.as_str(),
                ).as_str(),
                at,
            ),
        ),
        Ok(stat) => match stat.kind {
            FileKind::Symlink => follow_link(kind, root, path, log, at),
            FileKind::Directory => Ok((Finding::Directory, at)),
            FileKind::File => Ok((Finding::File(stat), at)),
            _ => Err(
                flow::refuse(
                    path,
                    text::owned(tree_label(kind)).with(
                        " trees may contain only regular files and directories",
                    ).as_str(),
                    "remove the special file before running cargo-cage",
                    at,
                ),
            ),
        },
    }
}

/// What a walk still has to visit, and the files that it found.
#[derive(Debug)]
pub struct TreeScan {
    pub directories: Vec<PathText>,
    pub files: Vec<FoundFile>,
}

/// What a `TreeScan` holds.
pub struct Scanned {
    pub directories: Seq<Seq<u8>>,
    pub files: Seq<(Seq<u8>, Stat)>,
}

impl View for TreeScan {
    type V = Scanned;

    open spec fn view(&self) -> Scanned {
        Scanned { directories: os::texts(self.directories@), files: found(self.files@) }
    }
}

impl Model for TreeScan {
    type M = Scanned;

    open spec fn model(&self) -> Scanned {
        self@
    }
}

impl Scanned {
    /// After one more name.
    pub open spec fn with(self, path: Seq<u8>, finding: Finding) -> Scanned {
        match finding {
            Finding::Skipped => self,
            Finding::Directory => Scanned { directories: self.directories.push(path), ..self },
            Finding::File(stat) => Scanned { files: self.files.push((path, stat)), ..self },
        }
    }
}

impl TreeScan {
    fn add_finding(&mut self, path: PathText, finding: Finding)
        ensures
            final(self)@ == old(self)@.with(path@, finding),
    {
        match finding {
            Finding::Skipped => {},
            Finding::Directory => {
                os::push_text(&mut self.directories, &path);
            },
            Finding::File(stat) => {
                let ghost before = found(self.files@);
                self.files.push(FoundFile { path, stat });
                assert(found(self.files@) =~= before.push((path@, stat)));
            },
        }
    }
}

/// The names of a directory from `index` on, looked at one by one.
pub open spec fn names_from(
    kind: TreeKind,
    root: Seq<u8>,
    excluded: Seq<Seq<u8>>,
    directory: Seq<u8>,
    names: Seq<Seq<u8>>,
    index: int,
    state: Scanned,
    log: Seq<Answer>,
    at: int,
) -> Course<Scanned>
    decreases names.len() - index,
{
    if index < 0 || index >= names.len() {
        Ok((state, at))
    } else {
        let path = path::join(directory, names[index]);
        match inspected(kind, root, excluded, path, log, at) {
            Err(pause) => Err(pause),
            Ok((finding, at)) => names_from(
                kind,
                root,
                excluded,
                directory,
                names,
                index + 1,
                state.with(path, finding),
                log,
                at,
            ),
        }
    }
}

#[verifier::loop_isolation(false)]
fn walk_names(
    kind: TreeKind,
    root: &PathText,
    excluded: &Vec<PathText>,
    directory: &PathText,
    names: &Vec<OsText>,
    state: TreeScan,
    log: &Vec<Answer>,
    at: usize,
) -> (next: Flow<TreeScan>)
    ensures
        flow::course(next) == names_from(
            kind,
            root@,
            os::texts(excluded@),
            directory@,
            os::texts(names@),
            0,
            state@,
            log@,
            at as int,
        ),
{
    let ghost all = os::texts(names@);
    let ghost out = os::texts(excluded@);
    let ghost start = at as int;
    let ghost first = state@;
    let mut state = state;
    let mut used: usize = at;
    let mut index: usize = 0;
    while index < names.len()
        invariant
            index <= names.len(),
            all == os::texts(names@),
            out == os::texts(excluded@),
            names_from(kind, root@, out, directory@, all, 0, first, log@, start) == names_from(
                kind,
                root@,
                out,
                directory@,
                all,
                index as int,
                state@,
                log@,
                used as int,
            ),
        decreases names.len() - index,
    {
        assert(all[index as int] == names[index as int]@);
        let path = directory.join(&names[index]);
        let (finding, next) = inspect(kind, root, excluded, &path, log, used)?;
        state.add_finding(path, finding);
        used = next;
        index = index + 1;
    }
    Ok((state, used))
}

/// One directory of a walk.
#[verifier::opaque]
pub open spec fn directory_scanned(
    kind: TreeKind,
    root: Seq<u8>,
    excluded: Seq<Seq<u8>>,
    directory: Seq<u8>,
    state: Scanned,
    log: Seq<Answer>,
    at: int,
) -> Course<Scanned> {
    match flow::names(Query::ReadDirectory(directory), log, at) {
        Err(pause) => Err(pause),
        Ok((Err(failure), at)) => Err(
            tree_failure(
                directory,
                kind,
                "could not read the directory: "@ + failure.message,
                at,
            ),
        ),
        Ok((Ok(list), at)) => match names_from(
            kind,
            root,
            excluded,
            directory,
            list.names,
            0,
            state,
            log,
            at,
        ) {
            Err(pause) => Err(pause),
            Ok((state, at)) => match list.failure {
                Some(failure) => Err(
                    tree_failure(
                        directory,
                        kind,
                        "could not read a directory entry: "@ + failure.message,
                        at,
                    ),
                ),
                None => Ok((state, at)),
            },
        },
    }
}

fn scan_directory(
    kind: TreeKind,
    root: &PathText,
    excluded: &Vec<PathText>,
    directory: &PathText,
    state: TreeScan,
    log: &Vec<Answer>,
    at: usize,
) -> (next: Flow<TreeScan>)
    ensures
        flow::course(next) == directory_scanned(
            kind,
            root@,
            os::texts(excluded@),
            directory@,
            state@,
            log@,
            at as int,
        ),
{
    proof {
        reveal(directory_scanned);
    }
    let (reply, at) = flow::ask_names(Question::ReadDirectory(directory.clone()), log, at)?;
    let list = match reply {
        Ok(list) => list,
        Err(failure) => {
            return Err(
                tree_setup_failure(
                    directory,
                    kind,
                    text::owned("could not read the directory: ").with(
                        failure.message.as_str(),
                    ).as_str(),
                    at,
                ),
            );
        },
    };
    let (state, at) = walk_names(kind, root, excluded, directory, &list.names, state, log, at)?;
    if let Some(failure) = &list.failure {
        return Err(
            tree_setup_failure(
                directory,
                kind,
                text::owned("could not read a directory entry: ").with(
                    failure.message.as_str(),
                ).as_str(),
                at,
            ),
        );
    }
    Ok((state, at))
}

proof fn lemma_inspected_advances(
    kind: TreeKind,
    root: Seq<u8>,
    excluded: Seq<Seq<u8>>,
    path: Seq<u8>,
    log: Seq<Answer>,
    at: int,
)
    ensures
        inspected(kind, root, excluded, path, log, at) matches Ok((_, next)) ==> at <= next <= if at
            <= log.len() {
            log.len() as int
        } else {
            at
        },
{
    reveal(inspected);
}

proof fn lemma_names_advance(
    kind: TreeKind,
    root: Seq<u8>,
    excluded: Seq<Seq<u8>>,
    directory: Seq<u8>,
    names: Seq<Seq<u8>>,
    index: int,
    state: Scanned,
    log: Seq<Answer>,
    at: int,
)
    ensures
        names_from(kind, root, excluded, directory, names, index, state, log, at) matches Ok((
            _,
            next,
        )) ==> at <= next <= if at <= log.len() {
            log.len() as int
        } else {
            at
        },
    decreases names.len() - index,
{
    if 0 <= index < names.len() {
        let path = path::join(directory, names[index]);
        lemma_inspected_advances(kind, root, excluded, path, log, at);
        if let Ok((finding, next)) = inspected(kind, root, excluded, path, log, at) {
            lemma_names_advance(
                kind,
                root,
                excluded,
                directory,
                names,
                index + 1,
                state.with(path, finding),
                log,
                next,
            );
        }
    }
}

/// Reading a directory uses up answers in order.
pub proof fn lemma_directory_advances(
    kind: TreeKind,
    root: Seq<u8>,
    excluded: Seq<Seq<u8>>,
    directory: Seq<u8>,
    state: Scanned,
    log: Seq<Answer>,
    at: int,
)
    ensures
        directory_scanned(kind, root, excluded, directory, state, log, at) matches Ok((
            _,
            next,
        )) ==> at < next <= log.len(),
{
    reveal(directory_scanned);
    if let Ok((Ok(list), next)) = flow::names(Query::ReadDirectory(directory), log, at) {
        lemma_names_advance(kind, root, excluded, directory, list.names, 0, state, log, next);
    }
}

/// All files of a tree, found directory by directory, the last one first.
pub open spec fn scanned_from(
    kind: TreeKind,
    root: Seq<u8>,
    excluded: Seq<Seq<u8>>,
    state: Scanned,
    log: Seq<Answer>,
    at: int,
) -> Course<Seq<(Seq<u8>, Stat)>>
    decreases log.len() - at,
{
    if state.directories.len() == 0 {
        Ok((state.files, at))
    } else {
        let rest = Scanned { directories: state.directories.drop_last(), ..state };
        match directory_scanned(kind, root, excluded, state.directories.last(), rest, log, at) {
            Err(pause) => Err(pause),
            Ok((now, next)) => {
                proof {
                    lemma_directory_advances(
                        kind,
                        root,
                        excluded,
                        state.directories.last(),
                        rest,
                        log,
                        at,
                    );
                }
                scanned_from(kind, root, excluded, now, log, next)
            },
        }
    }
}

/// The files that a walk found.
pub struct FileList {
    pub files: Vec<FoundFile>,
}

impl Model for FileList {
    type M = Seq<(Seq<u8>, Stat)>;

    open spec fn model(&self) -> Seq<(Seq<u8>, Stat)> {
        found(self.files@)
    }
}

fn scan_tree(
    kind: TreeKind,
    root: &PathText,
    excluded: &Vec<PathText>,
    log: &Vec<Answer>,
    at: usize,
) -> (files: Flow<FileList>)
    ensures
        flow::course(files) == scanned_from(
            kind,
            root@,
            os::texts(excluded@),
            Scanned { directories: seq![root@], files: Seq::empty() },
            log@,
            at as int,
        ),
{
    let ghost out = os::texts(excluded@);
    let ghost start = at as int;
    let ghost first = Scanned { directories: seq![root@], files: Seq::empty() };
    let mut directories: Vec<PathText> = Vec::new();
    os::push_text(&mut directories, root);
    let files: Vec<FoundFile> = Vec::new();
    let mut state = TreeScan { directories, files };
    assert(state@.directories =~= first.directories);
    assert(state@.files =~= first.files);
    let mut used: usize = at;
    while state.directories.len() > 0
        invariant
            out == os::texts(excluded@),
            start == at,
            first == (Scanned { directories: seq![root@], files: Seq::empty() }),
            scanned_from(kind, root@, out, first, log@, start) == scanned_from(
                kind,
                root@,
                out,
                state@,
                log@,
                used as int,
            ),
        decreases log.len() - used,
    {
        let ghost before = state@;
        let last = match state.directories.pop() {
            Some(last) => last,
            None => root.clone(),
        };
        let ghost rest = Scanned { directories: before.directories.drop_last(), ..before };
        assert(state@.directories =~= rest.directories);
        assert(last@ == before.directories.last());
        proof {
            lemma_directory_advances(kind, root@, out, last@, rest, log@, used as int);
        }
        let (now, next) = scan_directory(kind, root, excluded, &last, state, log, used)?;
        state = now;
        used = next;
    }
    Ok((FileList { files: state.files }, used))
}

/// A directory tree fit to be shown to a sandbox.
#[verifier::opaque]
pub open spec fn sound_directory(
    root: Seq<u8>,
    kind: TreeKind,
    excluded: Seq<Seq<u8>>,
    log: Seq<Answer>,
    at: int,
) -> Course<()> {
    match unmounted(root, kind.name(), log, at) {
        Err(pause) => Err(pause),
        Ok((_, at)) => match scanned_from(
            kind,
            root,
            excluded,
            Scanned { directories: seq![root], files: Seq::empty() },
            log,
            at,
        ) {
            Err(pause) => Err(pause),
            Ok((files, at)) => match outside_alias(files, kind.name(), 0) {
                Some(fault) => flow::fail(fault, at),
                None => Ok(((), at)),
            },
        },
    }
}

/// A tree fit to be shown to a sandbox: a directory, or a single file where it
/// is writable.
#[verifier::opaque]
pub open spec fn sound_tree(
    root: Seq<u8>,
    kind: TreeKind,
    excluded: Seq<Seq<u8>>,
    log: Seq<Answer>,
    at: int,
) -> Course<()> {
    match flow::entry(Query::Inspect(root), log, at) {
        Err(pause) => Err(pause),
        Ok((Err(failure), at)) => Err(
            tree_failure(
                root,
                kind,
                "could not inspect the tree root: "@ + failure.message,
                at,
            ),
        ),
        Ok((Ok(stat), at)) => match stat.kind {
            FileKind::Symlink => Err(
                flow::refusal(
                    root,
                    kind.name() + " roots must not be symlinks"@,
                    "replace the symlink with a real path before running cargo-cage"@,
                    at,
                ),
            ),
            FileKind::File => if kind == TreeKind::Writable {
                match outside_alias(seq![(root, stat)], kind.name(), 0) {
                    Some(fault) => flow::fail(fault, at),
                    None => Ok(((), at)),
                }
            } else {
                Err(
                    flow::refusal(
                        root,
                        kind.name() + " roots must be directories"@,
                        "replace the file with a real directory before running cargo-cage"@,
                        at,
                    ),
                )
            },
            FileKind::Directory => sound_directory(root, kind, excluded, log, at),
            _ => Err(
                flow::refusal(
                    root,
                    kind.name() + " trees may contain only regular files and directories"@,
                    "remove the special file before running cargo-cage"@,
                    at,
                ),
            ),
        },
    }
}

fn check_directory(
    root: &PathText,
    kind: TreeKind,
    excluded: &Vec<PathText>,
    log: &Vec<Answer>,
    at: usize,
) -> (checked: Flow<()>)
    ensures
        flow::course(checked) == sound_directory(
            root@,
            kind,
            os::texts(excluded@),
            log@,
            at as int,
        ),
{
    proof {
        reveal(sound_directory);
    }
    let (_, at) = validate_no_nested_mounts(root, tree_label(kind), log, at)?;
    let (list, at) = scan_tree(kind, root, excluded, log, at)?;
    match validate_hardlink_aliases(&list.files, tree_label(kind)) {
        Ok(_) => Ok(((), at)),
        Err(error) => Err(Halt::Fail(error, at)),
    }
}

/// Checks a tree before it is shown to a sandbox.
pub fn validate_tree(
    root: &PathText,
    kind: TreeKind,
    excluded: &Vec<PathText>,
    log: &Vec<Answer>,
    at: usize,
) -> (checked: Flow<()>)
    ensures
        flow::course(checked) == sound_tree(root@, kind, os::texts(excluded@), log@, at as int),
{
    proof {
        reveal(sound_tree);
    }
    let (reply, at) = flow::ask_entry(Question::Inspect(root.clone()), log, at)?;
    let stat = match reply {
        Ok(stat) => stat,
        Err(failure) => {
            return Err(
                tree_setup_failure(
                    root,
                    kind,
                    text::owned("could not inspect the tree root: ").with(
                        failure.message.as_str(),
                    ).as_str(),
                    at,
                ),
            );
        },
    };
    match stat.kind {
        FileKind::Symlink => Err(
            flow::refuse(
                root,
                text::owned(tree_label(kind)).with(" roots must not be symlinks").as_str(),
                "replace the symlink with a real path before running cargo-cage",
                at,
            ),
        ),
        FileKind::File => {
            if kind != TreeKind::Writable {
                return Err(
                    flow::refuse(
                        root,
                        text::owned(tree_label(kind)).with(" roots must be directories").as_str(),
                        "replace the file with a real directory before running cargo-cage",
                        at,
                    ),
                );
            }
            let mut files: Vec<FoundFile> = Vec::new();
            files.push(FoundFile { path: root.clone(), stat });
            assert(found(files@) =~= seq![(root@, stat)]);
            match validate_hardlink_aliases(&files, tree_label(kind)) {
                Ok(_) => Ok(((), at)),
                Err(error) => Err(Halt::Fail(error, at)),
            }
        },
        FileKind::Directory => check_directory(root, kind, excluded, log, at),
        _ => Err(
            flow::refuse(
                root,
                text::owned(tree_label(kind)).with(
                    " trees may contain only regular files and directories",
                ).as_str(),
                "remove the special file before running cargo-cage",
                at,
            ),
        ),
    }
}

pub fn validate_cache_tree(root: &PathText, log: &Vec<Answer>, at: usize) -> (checked: Flow<()>)
    ensures
        flow::course(checked) == sound_tree(
            root@,
            TreeKind::Cache,
            Seq::empty(),
            log@,
            at as int,
        ),
{
    let none: Vec<PathText> = Vec::new();
    assert(os::texts(none@) =~= Seq::empty());
    validate_tree(root, TreeKind::Cache, &none, log, at)
}

pub fn validate_writable_tree(root: &PathText, log: &Vec<Answer>, at: usize) -> (checked: Flow<()>)
    ensures
        flow::course(checked) == sound_tree(
            root@,
            TreeKind::Writable,
            Seq::empty(),
            log@,
            at as int,
        ),
{
    let none: Vec<PathText> = Vec::new();
    assert(os::texts(none@) =~= Seq::empty());
    validate_tree(root, TreeKind::Writable, &none, log, at)
}

pub fn validate_read_only_tree(
    root: &PathText,
    excluded: &Vec<PathText>,
    log: &Vec<Answer>,
    at: usize,
) -> (checked: Flow<()>)
    ensures
        flow::course(checked) == sound_tree(
            root@,
            TreeKind::ReadOnly,
            os::texts(excluded@),
            log@,
            at as int,
        ),
{
    validate_tree(root, TreeKind::ReadOnly, excluded, log, at)
}

// ---------------------------------------------------------------------------
// The trees of a sandbox
// ---------------------------------------------------------------------------

/// The same kind for each of some roots.
pub open spec fn trees_of(kind: TreeKind, roots: Seq<Seq<u8>>) -> Seq<(TreeKind, Seq<u8>)> {
    roots.map_values(|root: Seq<u8>| (kind, root))
}

/// The trees that a sandbox shows: caches, what stays readable, what is
/// writable.
pub open spec fn plan_trees(layout: Layout) -> Seq<(TreeKind, Seq<u8>)> {
    trees_of(TreeKind::Cache, layout.cargo_cache_paths) + trees_of(
        TreeKind::ReadOnly,
        order::unique_roots(layout.read_only_paths),
    ) + trees_of(TreeKind::Writable, layout.writable_paths)
}

/// What is left out when a tree is walked: what is writable is checked on its
/// own.
pub open spec fn left_out(kind: TreeKind, writable: Seq<Seq<u8>>) -> Seq<Seq<u8>> {
    if kind == TreeKind::ReadOnly {
        writable
    } else {
        Seq::empty()
    }
}

/// The trees from `index` on, all fit to be shown.
pub open spec fn sound_from(
    trees: Seq<(TreeKind, Seq<u8>)>,
    writable: Seq<Seq<u8>>,
    index: int,
    log: Seq<Answer>,
    at: int,
) -> Course<()>
    decreases trees.len() - index,
{
    if index < 0 || index >= trees.len() {
        Ok(((), at))
    } else {
        match sound_tree(
            trees[index].1,
            trees[index].0,
            left_out(trees[index].0, writable),
            log,
            at,
        ) {
            Err(pause) => Err(pause),
            Ok((_, at)) => sound_from(trees, writable, index + 1, log, at),
        }
    }
}

/// A tree to be checked.
struct Tree {
    kind: TreeKind,
    root: PathText,
}

spec fn tree_list(list: Seq<Tree>) -> Seq<(TreeKind, Seq<u8>)> {
    list.map_values(|tree: Tree| (tree.kind, tree.root@))
}

fn push_trees(list: &mut Vec<Tree>, kind: TreeKind, roots: &Vec<PathText>)
    ensures
        tree_list(final(list)@) == tree_list(old(list)@) + trees_of(kind, os::texts(roots@)),
{
    let ghost before = tree_list(list@);
    let ghost all = trees_of(kind, os::texts(roots@));
    let mut index: usize = 0;
    assert(tree_list(list@) =~= before + all.take(0));
    while index < roots.len()
        invariant
            index <= roots.len(),
            all == trees_of(kind, os::texts(roots@)),
            tree_list(list@) == before + all.take(index as int),
        decreases roots.len() - index,
    {
        assert(all[index as int] == (kind, roots[index as int]@));
        let ghost earlier = tree_list(list@);
        let root = roots[index].clone();
        list.push(Tree { kind, root });
        assert(tree_list(list@) =~= earlier.push((kind, root@)));
        index = index + 1;
        assert(tree_list(list@) =~= before + all.take(index as int));
    }
    assert(all.take(index as int) =~= all);
}

/// Checks every tree that a sandbox shows.
pub fn validate_trees(plan: &SandboxPlan, log: &Vec<Answer>, at: usize) -> (checked: Flow<()>)
    ensures
        flow::course(checked) == sound_from(
            plan_trees(plan@),
            plan@.writable_paths,
            0,
            log@,
            at as int,
        ),
{
    let mut list: Vec<Tree> = Vec::new();
    push_trees(&mut list, TreeKind::Cache, &plan.cargo_cache_paths);
    assert(tree_list(list@) =~= trees_of(TreeKind::Cache, plan@.cargo_cache_paths));
    push_trees(&mut list, TreeKind::ReadOnly, &order::unique_mount_roots(&plan.read_only_paths));
    push_trees(&mut list, TreeKind::Writable, &plan.writable_paths);
    let ghost trees = plan_trees(plan@);
    let ghost writable = plan@.writable_paths;
    let ghost start = at as int;
    let none: Vec<PathText> = Vec::new();
    assert(os::texts(none@) =~= Seq::empty());
    let mut used: usize = at;
    let mut index: usize = 0;
    while index < list.len()
        invariant
            index <= list.len(),
            trees == tree_list(list@),
            trees == plan_trees(plan@),
            writable == plan@.writable_paths,
            os::texts(none@) == Seq::<Seq<u8>>::empty(),
            start == at,
            sound_from(trees, writable, 0, log@, start) == sound_from(
                trees,
                writable,
                index as int,
                log@,
                used as int,
            ),
        decreases list.len() - index,
    {
        assert(trees[index as int] == (list[index as int].kind, list[index as int].root@));
        let kind = list[index].kind;
        let (_, next) = validate_tree(
            &list[index].root,
            kind,
            if kind == TreeKind::ReadOnly {
                &plan.writable_paths
            } else {
                &none
            },
            log,
            used,
        )?;
        used = next;
        index = index + 1;
    }
    Ok(((), used))
}

// ---------------------------------------------------------------------------
// Laws
// ---------------------------------------------------------------------------

/// In an accepted list of files every name of every file is in the list.
pub proof fn accepted_files_have_no_outside_names(
    files: Seq<(Seq<u8>, Stat)>,
    label: Seq<char>,
    index: int,
)
    requires
        outside_alias(files, label, 0) is None,
        0 <= index < files.len(),
    ensures
        files[index].1.links == alias_count(files, files[index].1),
{
    lemma_accepted_from(files, label, 0, index);
}

proof fn lemma_accepted_from(
    files: Seq<(Seq<u8>, Stat)>,
    label: Seq<char>,
    start: int,
    index: int,
)
    requires
        outside_alias(files, label, start) is None,
        0 <= start <= index < files.len(),
    ensures
        files[index].1.links == alias_count(files, files[index].1),
    decreases index - start,
{
    if start < index {
        lemma_accepted_from(files, label, start + 1, index);
    }
}

/// An accepted mount table has nothing mounted below the root of the tree.
pub proof fn accepted_trees_hold_no_mounts(
    lines: Seq<Seq<char>>,
    root: Seq<u8>,
    label: Seq<char>,
    index: int,
)
    requires
        mount_conflict(lines, 0, root, label) is None,
        0 <= index < lines.len(),
        lines[index].len() > 0,
    ensures
        scan::words(lines[index]).len() >= 5,
        mount_point(scan::words(lines[index])[4]) is Some,
        path::within(mount_point(scan::words(lines[index])[4])->0, root) ==> path::same_path(
            mount_point(scan::words(lines[index])[4])->0,
            root,
        ),
{
    lemma_no_conflict_from(lines, root, label, 0, index);
}

proof fn lemma_no_conflict_from(
    lines: Seq<Seq<char>>,
    root: Seq<u8>,
    label: Seq<char>,
    start: int,
    index: int,
)
    requires
        mount_conflict(lines, start, root, label) is None,
        0 <= start <= index < lines.len(),
        lines[index].len() > 0,
    ensures
        scan::words(lines[index]).len() >= 5,
        mount_point(scan::words(lines[index])[4]) is Some,
        path::within(mount_point(scan::words(lines[index])[4])->0, root) ==> path::same_path(
            mount_point(scan::words(lines[index])[4])->0,
            root,
        ),
    decreases index - start,
{
    if start < index {
        lemma_no_conflict_from(lines, root, label, start + 1, index);
    }
}

/// A mount point without a backslash is its own spelling.
pub proof fn plain_mount_points_are_unchanged(spelled: Seq<char>)
    requires
        !encode_utf8(spelled).contains(92u8),
    ensures
        mount_point(spelled) == Some(encode_utf8(spelled)),
{
    let bytes = encode_utf8(spelled);
    lemma_unescaped_plain(bytes, 0);
    assert(bytes.take(0) =~= Seq::empty());
    encode_utf8_valid_utf8(spelled);
}

proof fn lemma_unescaped_plain(bytes: Seq<u8>, index: int)
    requires
        !bytes.contains(92u8),
        0 <= index <= bytes.len(),
    ensures
        unescaped_from(bytes, index, bytes.take(index)) == Some(bytes),
    decreases bytes.len() - index,
{
    if index < bytes.len() {
        assert(bytes[index] != 92);
        lemma_unescaped_plain(bytes, index + 1);
        assert(bytes.take(index).push(bytes[index]) =~= bytes.take(index + 1));
    } else {
        assert(bytes.take(index) =~= bytes);
    }
}

/// Whether every file of a list was seen as a regular file.
pub open spec fn all_regular(files: Seq<(Seq<u8>, Stat)>) -> bool {
    forall|i: int| 0 <= i < files.len() ==> (#[trigger] files[i]).1.kind == FileKind::File
}

/// A walk that comes to an end has found nothing but regular files.
pub proof fn walks_find_regular_files(
    kind: TreeKind,
    root: Seq<u8>,
    excluded: Seq<Seq<u8>>,
    state: Scanned,
    log: Seq<Answer>,
    at: int,
)
    requires
        all_regular(state.files),
        scanned_from(kind, root, excluded, state, log, at) is Ok,
    ensures
        all_regular(scanned_from(kind, root, excluded, state, log, at)->Ok_0.0),
    decreases log.len() - at,
{
    if state.directories.len() > 0 {
        let rest = Scanned { directories: state.directories.drop_last(), ..state };
        let directory = state.directories.last();
        lemma_directory_advances(kind, root, excluded, directory, rest, log, at);
        reveal(directory_scanned);
        if let Ok((Ok(list), next)) = flow::names(Query::ReadDirectory(directory), log, at) {
            lemma_names_regular(kind, root, excluded, directory, list.names, 0, rest, log, next);
        }
        let (now, next) = directory_scanned(
            kind,
            root,
            excluded,
            directory,
            rest,
            log,
            at,
        )->Ok_0;
        walks_find_regular_files(kind, root, excluded, now, log, next);
    }
}

proof fn lemma_names_regular(
    kind: TreeKind,
    root: Seq<u8>,
    excluded: Seq<Seq<u8>>,
    directory: Seq<u8>,
    names: Seq<Seq<u8>>,
    index: int,
    state: Scanned,
    log: Seq<Answer>,
    at: int,
)
    requires
        all_regular(state.files),
    ensures
        names_from(kind, root, excluded, directory, names, index, state, log, at) matches Ok((
            next,
            _,
        )) ==> all_regular(next.files),
    decreases names.len() - index,
{
    if 0 <= index < names.len() {
        let path = path::join(directory, names[index]);
        reveal(inspected);
        if let Ok((finding, next)) = inspected(kind, root, excluded, path, log, at) {
            lemma_names_regular(
                kind,
                root,
                excluded,
                directory,
                names,
                index + 1,
                state.with(path, finding),
                log,
                next,
            );
        }
    }
}

} // verus!

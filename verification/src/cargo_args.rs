//! Cargo's own path options: where the manifest and the target directory are,
//! and how their arguments change inside the sandbox.

use crate::error::{CageError, CageResult, Fault};
use crate::flow;
use crate::flow::{Answer, Course, FileKind, Flow, Halt, Model, Pause, Query, Question};
use crate::os;
use crate::os::{OsText, PathText};
use crate::path;
use crate::text;
use crate::walk;
use vstd::prelude::*;
use vstd::string::*;
use vstd::utf8::*;

verus! {

/// What follows `prefix` in an argument that is text.
pub open spec fn stripped(arg: Seq<u8>, prefix: Seq<u8>) -> Option<Seq<u8>> {
    if valid_utf8(arg) && prefix.is_prefix_of(arg) {
        Some(arg.skip(prefix.len() as int))
    } else {
        None
    }
}

/// The last value of an option among the arguments from `index` up to `--`,
/// given as a separate argument or behind `=`.
pub open spec fn option_from(
    args: Seq<Seq<u8>>,
    option: Seq<u8>,
    prefix: Seq<u8>,
    missing: Seq<char>,
    index: int,
    found: Option<Seq<u8>>,
) -> Result<Option<Seq<u8>>, Fault>
    decreases args.len() - index,
{
    if index < 0 || index >= args.len() || args[index] == os::lit("--") {
        Ok(found)
    } else if args[index] == option {
        if index + 1 < args.len() {
            option_from(args, option, prefix, missing, index + 2, Some(args[index + 1]))
        } else {
            Err(Fault::InvalidInvocation(missing))
        }
    } else {
        let next = match stripped(args[index], prefix) {
            Some(value) => Some(value),
            None => found,
        };
        option_from(args, option, prefix, missing, index + 1, next)
    }
}

pub const MANIFEST_MISSING: &'static str = "--manifest-path needs a value";

pub const TARGET_MISSING: &'static str = "--target-dir needs a value";

/// The value of `--manifest-path`.
pub open spec fn manifest_option(args: Seq<Seq<u8>>) -> Result<Option<Seq<u8>>, Fault> {
    option_from(
        args,
        os::lit("--manifest-path"),
        os::lit("--manifest-path="),
        MANIFEST_MISSING@,
        0,
        None,
    )
}

/// The value of `--target-dir`.
pub open spec fn target_option(args: Seq<Seq<u8>>) -> Result<Option<Seq<u8>>, Fault> {
    option_from(
        args,
        os::lit("--target-dir"),
        os::lit("--target-dir="),
        TARGET_MISSING@,
        0,
        None,
    )
}

/// The value of an optional string, or the error.
pub open spec fn option_outcome(result: CageResult<Option<OsText>>) -> Result<
    Option<Seq<u8>>,
    Fault,
> {
    match result {
        Ok(value) => Ok(value.model()),
        Err(error) => Err(error@),
    }
}

fn option_value(args: &Vec<OsText>, option: &str, prefix: &str, missing: &str) -> (value:
    CageResult<Option<OsText>>)
    ensures
        option_outcome(value) == option_from(
            os::texts(args@),
            os::lit(option),
            os::lit(prefix),
            missing@,
            0,
            None,
        ),
{
    let ghost all = os::texts(args@);
    let mut found: Option<OsText> = None;
    let mut index: usize = 0;
    while index < args.len()
        invariant
            all == os::texts(args@),
            0 <= index,
            option_from(all, os::lit(option), os::lit(prefix), missing@, 0, None) == option_from(
                all,
                os::lit(option),
                os::lit(prefix),
                missing@,
                index as int,
                found.model(),
            ),
        decreases args.len() - index,
    {
        assert(all[index as int] == args[index as int]@);
        if args[index].is_text("--") {
            return Ok(found);
        }
        if args[index].is_text(option) {
            if args.len() - index < 2 {
                return Err(CageError::invalid(missing));
            }
            assert(all[index + 1] == args[index + 1]@);
            found = Some(args[index + 1].clone());
            index = index + 2;
        } else {
            if let Some(value) = args[index].strip_text_prefix(prefix) {
                found = Some(value);
            }
            index = index + 1;
        }
    }
    Ok(found)
}

/// The value of `--manifest-path`, the last one before `--`.
pub fn manifest_path_arg(args: &Vec<OsText>) -> (value: CageResult<Option<OsText>>)
    ensures
        option_outcome(value) == manifest_option(os::texts(args@)),
{
    option_value(args, "--manifest-path", "--manifest-path=", MANIFEST_MISSING)
}

/// A path taken relative to the current directory.
pub open spec fn anchored(path: Seq<u8>, current_dir: Seq<u8>) -> Seq<u8> {
    path::join(current_dir, path)
}

/// The target directory that the arguments, the environment or the workspace
/// name, in that order.
#[verifier::opaque]
pub open spec fn requested_target(
    args: Seq<Seq<u8>>,
    current_dir: Seq<u8>,
    workspace: Seq<u8>,
    log: Seq<Answer>,
    at: int,
) -> Course<Seq<u8>> {
    match target_option(args) {
        Err(fault) => Err(Pause::Fail(fault, at)),
        Ok(Some(target)) => Ok((anchored(target, current_dir), at)),
        Ok(None) => match flow::value(Query::Variable(os::lit("CARGO_TARGET_DIR")), log, at) {
            Err(pause) => Err(pause),
            Ok((Some(target), at)) => Ok((anchored(target, current_dir), at)),
            Ok((None, at)) => Ok(
                (anchored(path::join(workspace, os::lit("target")), current_dir), at),
            ),
        },
    }
}

/// The target directory that the build is asked to use.
pub fn target_dir_arg(
    args: &Vec<OsText>,
    current_dir: &PathText,
    workspace: &PathText,
    log: &Vec<Answer>,
    at: usize,
) -> (target: Flow<PathText>)
    ensures
        flow::course(target) == requested_target(
            os::texts(args@),
            current_dir@,
            workspace@,
            log@,
            at as int,
        ),
{
    proof {
        reveal(requested_target);
    }
    match option_value(args, "--target-dir", "--target-dir=", TARGET_MISSING) {
        Err(error) => Err(Halt::Fail(error, at)),
        Ok(Some(target)) => Ok((current_dir.join(&target), at)),
        Ok(None) => {
            let (variable, at) = flow::ask_value(
                Question::Variable(OsText::new("CARGO_TARGET_DIR")),
                log,
                at,
            )?;
            match variable {
                Some(target) => Ok((current_dir.join(&target), at)),
                None => Ok((current_dir.join(&workspace.join_text("target")), at)),
            }
        },
    }
}

/// The manifest that the arguments name, as an existing path without symlinks.
#[verifier::opaque]
pub open spec fn requested_manifest(
    args: Seq<Seq<u8>>,
    current_dir: Seq<u8>,
    log: Seq<Answer>,
    at: int,
) -> Course<Option<Seq<u8>>> {
    match manifest_option(args) {
        Err(fault) => Err(Pause::Fail(fault, at)),
        Ok(None) => Ok((None, at)),
        Ok(Some(manifest)) => match walk::existing(
            anchored(manifest, current_dir),
            "manifest path"@,
            log,
            at,
        ) {
            Err(pause) => Err(pause),
            Ok((canonical, at)) => Ok((Some(canonical), at)),
        },
    }
}

pub fn resolved_manifest_path(
    args: &Vec<OsText>,
    current_dir: &PathText,
    log: &Vec<Answer>,
    at: usize,
) -> (manifest: Flow<Option<PathText>>)
    ensures
        flow::course(manifest) == requested_manifest(
            os::texts(args@),
            current_dir@,
            log@,
            at as int,
        ),
{
    proof {
        reveal(requested_manifest);
    }
    match manifest_path_arg(args) {
        Err(error) => Err(Halt::Fail(error, at)),
        Ok(None) => Ok((None, at)),
        Ok(Some(manifest)) => {
            let (canonical, at) = walk::canonical_existing_path_without_symlinks(
                &current_dir.join(&manifest),
                "manifest path",
                log,
                at,
            )?;
            Ok((Some(canonical), at))
        },
    }
}

/// Whether the host says that a path leads to something of the given kind.
pub open spec fn leads_to(path: Seq<u8>, kind: FileKind, log: Seq<Answer>, at: int) -> Course<
    bool,
> {
    match flow::entry(Query::Follow(path), log, at) {
        Err(pause) => Err(pause),
        Ok((Ok(stat), at)) => Ok((stat.kind == kind, at)),
        Ok((Err(_), at)) => Ok((false, at)),
    }
}

pub fn leads_to_kind(path: &PathText, kind: FileKind, log: &Vec<Answer>, at: usize) -> (yes: Flow<
    bool,
>)
    ensures
        flow::course(yes) == leads_to(path@, kind, log@, at as int),
{
    let (reply, at) = flow::ask_entry(Question::Follow(path.clone()), log, at)?;
    match reply {
        Ok(stat) => Ok((stat.kind == kind, at)),
        Err(_) => Ok((false, at)),
    }
}

/// The directory of the manifest that the arguments name.
#[verifier::opaque]
pub open spec fn manifest_directory(
    args: Seq<Seq<u8>>,
    current_dir: Seq<u8>,
    log: Seq<Answer>,
    at: int,
) -> Course<Option<Seq<u8>>> {
    match requested_manifest(args, current_dir, log, at) {
        Err(pause) => Err(pause),
        Ok((None, at)) => Ok((None, at)),
        Ok((Some(manifest), at)) => match leads_to(manifest, FileKind::File, log, at) {
            Err(pause) => Err(pause),
            Ok((false, at)) => Err(
                flow::refusal(
                    manifest,
                    "the manifest path must be a regular file"@,
                    "pass an existing real Cargo.toml path"@,
                    at,
                ),
            ),
            Ok((true, at)) => Ok((path::parent(manifest), at)),
        },
    }
}

pub fn manifest_parent_path(
    args: &Vec<OsText>,
    current_dir: &PathText,
    log: &Vec<Answer>,
    at: usize,
) -> (directory: Flow<Option<PathText>>)
    ensures
        flow::course(directory) == manifest_directory(
            os::texts(args@),
            current_dir@,
            log@,
            at as int,
        ),
{
    proof {
        reveal(manifest_directory);
    }
    let (manifest, at) = resolved_manifest_path(args, current_dir, log, at)?;
    match manifest {
        None => Ok((None, at)),
        Some(manifest) => {
            let (regular, at) = leads_to_kind(&manifest, FileKind::File, log, at)?;
            if !regular {
                return Err(
                    flow::refuse(
                        &manifest,
                        "the manifest path must be a regular file",
                        "pass an existing real Cargo.toml path",
                        at,
                    ),
                );
            }
            Ok((manifest.parent(), at))
        },
    }
}

/// The directory that Cargo runs in: the current one where it belongs to the
/// workspace, else that of the manifest where it does, else the workspace.
#[verifier::opaque]
pub open spec fn working_directory(
    current_dir: Seq<u8>,
    workspace: Seq<u8>,
    args: Seq<Seq<u8>>,
    log: Seq<Answer>,
    at: int,
) -> Course<Seq<u8>> {
    if path::within(current_dir, workspace) {
        Ok((current_dir, at))
    } else {
        match manifest_directory(args, current_dir, log, at) {
            Err(pause) => Err(pause),
            Ok((Some(directory), at)) => if path::within(directory, workspace) {
                Ok((directory, at))
            } else {
                Ok((workspace, at))
            },
            Ok((None, at)) => Ok((workspace, at)),
        }
    }
}

pub fn sandbox_current_dir(
    current_dir: &PathText,
    workspace: &PathText,
    args: &Vec<OsText>,
    log: &Vec<Answer>,
    at: usize,
) -> (directory: Flow<PathText>)
    ensures
        flow::course(directory) == working_directory(
            current_dir@,
            workspace@,
            os::texts(args@),
            log@,
            at as int,
        ),
{
    proof {
        reveal(working_directory);
    }
    if current_dir.starts_with(workspace) {
        return Ok((current_dir.clone(), at));
    }
    let (directory, at) = manifest_parent_path(args, current_dir, log, at)?;
    if let Some(directory) = directory {
        if directory.starts_with(workspace) {
            return Ok((directory, at));
        }
    }
    Ok((workspace.clone(), at))
}

/// The working directory always belongs to the workspace.
pub proof fn working_directory_is_inside(
    current_dir: Seq<u8>,
    workspace: Seq<u8>,
    args: Seq<Seq<u8>>,
    log: Seq<Answer>,
    at: int,
)
    requires
        working_directory(current_dir, workspace, args, log, at) is Ok,
    ensures
        path::within(working_directory(current_dir, workspace, args, log, at)->Ok_0.0, workspace),
{
    reveal(working_directory);
    assert(path::within(workspace, workspace));
}

/// The manifest that an option which is present must name.
pub open spec fn needed_manifest(
    args: Seq<Seq<u8>>,
    current_dir: Seq<u8>,
    log: Seq<Answer>,
    at: int,
) -> Course<Seq<u8>> {
    match requested_manifest(args, current_dir, log, at) {
        Err(pause) => Err(pause),
        Ok((Some(manifest), at)) => Ok((manifest, at)),
        Ok((None, at)) => Err(Pause::Fail(Fault::InvalidInvocation(MANIFEST_MISSING@), at)),
    }
}

fn require_manifest(
    args: &Vec<OsText>,
    current_dir: &PathText,
    log: &Vec<Answer>,
    at: usize,
) -> (manifest: Flow<PathText>)
    ensures
        flow::course(manifest) == needed_manifest(
            os::texts(args@),
            current_dir@,
            log@,
            at as int,
        ),
{
    let (manifest, at) = resolved_manifest_path(args, current_dir, log, at)?;
    match manifest {
        Some(manifest) => Ok((manifest, at)),
        None => Err(Halt::Fail(CageError::invalid(MANIFEST_MISSING), at)),
    }
}

/// What the rewriting of arguments depends on.
pub struct Rewriting {
    pub args: Seq<Seq<u8>>,
    pub current_dir: Seq<u8>,
    pub moved: bool,
    pub target: Seq<u8>,
    pub forced: bool,
}

/// A target option after rewriting: relative values, or all of them where it
/// is forced, become the prepared target.
pub open spec fn rewritten_target(arg: Seq<u8>, rule: Rewriting) -> Seq<u8> {
    match stripped(arg, os::lit("--target-dir=")) {
        Some(value) => if value.len() > 0 && (rule.forced || !path::absolute(value)) {
            os::lit("--target-dir=") + rule.target
        } else {
            arg
        },
        None => arg,
    }
}

/// The arguments from `index` on, rewritten.
pub open spec fn rewritten_from(
    rule: Rewriting,
    list: Seq<Seq<u8>>,
    index: int,
    log: Seq<Answer>,
    at: int,
) -> Course<Seq<Seq<u8>>>
    decreases list.len() - index,
{
    if index < 0 || index >= list.len() || list[index] == os::lit("--") {
        Ok((list, at))
    } else if list[index] == os::lit("--manifest-path") {
        if index + 1 >= list.len() {
            Ok((list, at))
        } else if rule.moved && !path::absolute(list[index + 1]) {
            match needed_manifest(rule.args, rule.current_dir, log, at) {
                Err(pause) => Err(pause),
                Ok((manifest, at)) => rewritten_from(
                    rule,
                    list.update(index + 1, manifest),
                    index + 2,
                    log,
                    at,
                ),
            }
        } else {
            rewritten_from(rule, list, index + 2, log, at)
        }
    } else if list[index] == os::lit("--target-dir") {
        if index + 1 >= list.len() {
            Ok((list, at))
        } else if rule.forced || !path::absolute(list[index + 1]) {
            rewritten_from(rule, list.update(index + 1, rule.target), index + 2, log, at)
        } else {
            rewritten_from(rule, list, index + 2, log, at)
        }
    } else {
        match stripped(list[index], os::lit("--manifest-path=")) {
            Some(value) => if rule.moved && !path::absolute(value) {
                match needed_manifest(rule.args, rule.current_dir, log, at) {
                    Err(pause) => Err(pause),
                    Ok((manifest, at)) => rewritten_from(
                        rule,
                        list.update(index, os::lit("--manifest-path=") + manifest),
                        index + 1,
                        log,
                        at,
                    ),
                }
            } else {
                rewritten_from(rule, list, index + 1, log, at)
            },
            None => rewritten_from(
                rule,
                list.update(index, rewritten_target(list[index], rule)),
                index + 1,
                log,
                at,
            ),
        }
    }
}

/// Replaces one string of a list.
fn replace(list: &mut Vec<OsText>, index: usize, text: OsText)
    requires
        index < old(list).len(),
    ensures
        os::texts(final(list)@) == os::texts(old(list)@).update(index as int, text@),
        final(list).len() == old(list).len(),
{
    list.set(index, text);
    assert(os::texts(list@) =~= os::texts(old(list)@).update(index as int, text@));
}

/// A literal followed by the bytes of a path.
fn prefixed(prefix: &str, tail: &OsText) -> (joined: OsText)
    ensures
        joined@ == os::lit(prefix) + tail@,
{
    let mut joined = OsText::new(prefix);
    joined.bytes.extend_from_slice(tail.bytes.as_slice());
    joined
}

/// Cargo's arguments as they are inside the sandbox: relative manifest paths
/// become absolute where the working directory changes, and target directories
/// that are relative, or all of them where that is forced, become the prepared
/// target.
pub fn rewrite_relative_cargo_paths(
    args: &Vec<OsText>,
    current_dir: &PathText,
    sandbox_current_dir: &PathText,
    target_dir: &PathText,
    force_target_rewrite: bool,
    log: &Vec<Answer>,
    at: usize,
) -> (rewritten: Flow<Vec<OsText>>)
    ensures
        flow::course(rewritten) == rewritten_from(
            (Rewriting {
                args: os::texts(args@),
                current_dir: current_dir@,
                moved: !path::same_path(current_dir@, sandbox_current_dir@),
                target: target_dir@,
                forced: force_target_rewrite,
            }),
            os::texts(args@),
            0,
            log@,
            at as int,
        ),
{
    let moved = !current_dir.same_path(sandbox_current_dir);
    let ghost rule = Rewriting {
        args: os::texts(args@),
        current_dir: current_dir@,
        moved,
        target: target_dir@,
        forced: force_target_rewrite,
    };
    let mut list = os::copy_texts(args);
    let mut index: usize = 0;
    let mut used: usize = at;
    while index < list.len()
        invariant
            rule == (Rewriting {
                args: os::texts(args@),
                current_dir: current_dir@,
                moved,
                target: target_dir@,
                forced: force_target_rewrite,
            }),
            0 <= index,
            rewritten_from(rule, os::texts(args@), 0, log@, at as int) == rewritten_from(
                rule,
                os::texts(list@),
                index as int,
                log@,
                used as int,
            ),
            moved == !path::same_path(current_dir@, sandbox_current_dir@),
        decreases list.len() - index,
    {
        let ghost before = os::texts(list@);
        assert(before.len() == list.len());
        assert(before[index as int] == list[index as int]@);
        if list[index].is_text("--") {
            return Ok((list, used));
        }
        if list[index].is_text("--manifest-path") {
            if list.len() - index >= 2 {
                assert(before[index + 1] == list[index + 1]@);
                if moved && !list[index + 1].is_absolute() {
                    let (manifest, next) = require_manifest(args, current_dir, log, used)?;
                    replace(&mut list, index + 1, manifest);
                    used = next;
                }
                index = index + 2;
            } else {
                return Ok((list, used));
            }
        } else if list[index].is_text("--target-dir") {
            if list.len() - index >= 2 {
                assert(before[index + 1] == list[index + 1]@);
                if force_target_rewrite || !list[index + 1].is_absolute() {
                    replace(&mut list, index + 1, target_dir.clone());
                }
                index = index + 2;
            } else {
                return Ok((list, used));
            }
        } else {
            match list[index].strip_text_prefix("--manifest-path=") {
                Some(value) => {
                    if moved && !value.is_absolute() {
                        let (manifest, next) = require_manifest(args, current_dir, log, used)?;
                        replace(&mut list, index, prefixed("--manifest-path=", &manifest));
                        used = next;
                    }
                },
                None => {
                    let kept = match list[index].strip_text_prefix("--target-dir=") {
                        Some(value) => value.is_empty() || !(force_target_rewrite
                            || !value.is_absolute()),
                        None => true,
                    };
                    if kept {
                        assert(before.update(index as int, before[index as int]) =~= before);
                    } else {
                        replace(&mut list, index, prefixed("--target-dir=", target_dir));
                    }
                },
            }
            index = index + 1;
        }
    }
    Ok((list, used))
}

/// Rewriting keeps the number of arguments.
pub proof fn rewriting_keeps_the_length(
    rule: Rewriting,
    list: Seq<Seq<u8>>,
    index: int,
    log: Seq<Answer>,
    at: int,
)
    requires
        0 <= index,
        rewritten_from(rule, list, index, log, at) is Ok,
    ensures
        rewritten_from(rule, list, index, log, at)->Ok_0.0.len() == list.len(),
    decreases list.len() - index,
{
    if index < list.len() && list[index] != os::lit("--") {
        if list[index] == os::lit("--manifest-path") {
            if index + 1 >= list.len() {
            } else if rule.moved && !path::absolute(list[index + 1]) {
                if let Ok((manifest, next)) = needed_manifest(rule.args, rule.current_dir, log, at) {
                    rewriting_keeps_the_length(
                        rule,
                        list.update(index + 1, manifest),
                        index + 2,
                        log,
                        next,
                    );
                }
            } else {
                rewriting_keeps_the_length(rule, list, index + 2, log, at);
            }
        } else if list[index] == os::lit("--target-dir") {
            if index + 1 >= list.len() {
            } else if rule.forced || !path::absolute(list[index + 1]) {
                rewriting_keeps_the_length(
                    rule,
                    list.update(index + 1, rule.target),
                    index + 2,
                    log,
                    at,
                );
            } else {
                rewriting_keeps_the_length(rule, list, index + 2, log, at);
            }
        } else {
            match stripped(list[index], os::lit("--manifest-path=")) {
                Some(value) => {
                    if rule.moved && !path::absolute(value) {
                        if let Ok((manifest, next)) = needed_manifest(
                            rule.args,
                            rule.current_dir,
                            log,
                            at,
                        ) {
                            rewriting_keeps_the_length(
                                rule,
                                list.update(index, os::lit("--manifest-path=") + manifest),
                                index + 1,
                                log,
                                next,
                            );
                        }
                    } else {
                        rewriting_keeps_the_length(rule, list, index + 1, log, at);
                    }
                },
                None => {
                    rewriting_keeps_the_length(
                        rule,
                        list.update(index, rewritten_target(list[index], rule)),
                        index + 1,
                        log,
                        at,
                    );
                },
            }
        }
    }
}

// ---------------------------------------------------------------------------
// Laws
// ---------------------------------------------------------------------------

/// Whether the words up to `--` are read as options at `place`, when reading
/// has come to `from`: the word behind an option that takes a value is none.
pub open spec fn read_at(
    args: Seq<Seq<u8>>,
    takes_value: spec_fn(Seq<u8>) -> bool,
    from: int,
    place: int,
) -> bool
    decreases args.len() - from + 2,
{
    if from < 0 || from >= args.len() || args[from] == os::lit("--") {
        false
    } else if from == place {
        true
    } else if takes_value(args[from]) {
        read_at(args, takes_value, from + 2, place)
    } else {
        read_at(args, takes_value, from + 1, place)
    }
}

/// Whether a word is a given option.
pub open spec fn exactly(option: Seq<u8>) -> spec_fn(Seq<u8>) -> bool {
    |word: Seq<u8>| word == option
}

proof fn lemma_read_later(
    args: Seq<Seq<u8>>,
    takes_value: spec_fn(Seq<u8>) -> bool,
    from: int,
    place: int,
)
    requires
        read_at(args, takes_value, from, place),
    ensures
        0 <= from <= place < args.len(),
    decreases args.len() - from + 2,
{
    if from != place {
        if takes_value(args[from]) {
            lemma_read_later(args, takes_value, from + 2, place);
        } else {
            lemma_read_later(args, takes_value, from + 1, place);
        }
    }
}

/// What the word at `place` says about an option: the next word, or what
/// follows `=`.
pub open spec fn said_at(
    args: Seq<Seq<u8>>,
    option: Seq<u8>,
    prefix: Seq<u8>,
    place: int,
) -> Option<Seq<u8>> {
    if args[place] == option {
        if place + 1 < args.len() {
            Some(args[place + 1])
        } else {
            None
        }
    } else if valid_utf8(args[place]) && prefix.is_prefix_of(args[place]) {
        Some(args[place].skip(prefix.len() as int))
    } else {
        None
    }
}

proof fn lemma_last_value(
    args: Seq<Seq<u8>>,
    option: Seq<u8>,
    prefix: Seq<u8>,
    missing: Seq<char>,
    index: int,
    found: Option<Seq<u8>>,
)
    requires
        0 <= index,
    ensures
        ({
            let takes_value = exactly(option);
            match option_from(args, option, prefix, missing, index, found) {
                Err(fault) => fault == Fault::InvalidInvocation(missing) && args.len() > 0
                    && args.last() == option && read_at(
                    args,
                    takes_value,
                    index,
                    args.len() - 1,
                ),
                Ok(value) => {
                    ||| value == found && forall|place: int| #[trigger]
                        read_at(args, takes_value, index, place) ==> said_at(
                            args,
                            option,
                            prefix,
                            place,
                        ) is None && args[place] != option
                    ||| exists|place: int| #[trigger]
                        read_at(args, takes_value, index, place) && value is Some && said_at(
                            args,
                            option,
                            prefix,
                            place,
                        ) == value && forall|later: int| #[trigger]
                            read_at(args, takes_value, index, later) && later > place ==> said_at(
                                args,
                                option,
                                prefix,
                                later,
                            ) is None
                },
            }
        }),
    decreases args.len() - index,
{
    let takes_value = exactly(option);
    if index < args.len() && args[index] != os::lit("--") {
        let said = said_at(args, option, prefix, index);
        if args[index] == option && index + 1 >= args.len() {
        } else {
            let step: int = if args[index] == option {
                2
            } else {
                1
            };
            let next = if said is Some {
                said
            } else {
                found
            };
            lemma_last_value(args, option, prefix, missing, index + step, next);
            assert(option_from(args, option, prefix, missing, index, found) == option_from(
                args,
                option,
                prefix,
                missing,
                index + step,
                next,
            ));
            assert forall|place: int| #[trigger]
                read_at(args, takes_value, index, place) == (place == index || read_at(
                    args,
                    takes_value,
                    index + step,
                    place,
                )) by {}
            if let Ok(value) = option_from(args, option, prefix, missing, index, found) {
                if value == next && said is Some && forall|place: int| #[trigger]
                    read_at(args, takes_value, index + step, place) ==> said_at(
                        args,
                        option,
                        prefix,
                        place,
                    ) is None {
                    assert(read_at(args, takes_value, index, index));
                } else if exists|place: int| #[trigger]
                    read_at(args, takes_value, index + step, place) && value is Some && said_at(
                        args,
                        option,
                        prefix,
                        place,
                    ) == value && forall|later: int| #[trigger]
                        read_at(args, takes_value, index + step, later) && later > place
                            ==> said_at(args, option, prefix, later) is None {
                    let place = choose|place: int| #[trigger]
                        read_at(args, takes_value, index + step, place) && value is Some
                            && said_at(args, option, prefix, place) == value && forall|
                            later: int,
                        | #[trigger]
                            read_at(args, takes_value, index + step, later) && later > place
                                ==> said_at(args, option, prefix, later) is None;
                    lemma_read_later(args, takes_value, index + step, place);
                    assert(read_at(args, takes_value, index, place));
                }
            }
        }
    }
}

/// The value of an option is what the last word before `--` that names it says;
/// there is none where no word does, and it is missing exactly where the option
/// is the last word.
pub proof fn the_last_option_counts(args: Seq<Seq<u8>>)
    ensures
        last_value(args, os::lit("--target-dir"), os::lit("--target-dir="), target_option(args)),
        last_value(
            args,
            os::lit("--manifest-path"),
            os::lit("--manifest-path="),
            manifest_option(args),
        ),
{
    lemma_last_value(
        args,
        os::lit("--target-dir"),
        os::lit("--target-dir="),
        TARGET_MISSING@,
        0,
        None,
    );
    lemma_last_value(
        args,
        os::lit("--manifest-path"),
        os::lit("--manifest-path="),
        MANIFEST_MISSING@,
        0,
        None,
    );
}

/// Whether a result is the last value of an option.
pub open spec fn last_value(
    args: Seq<Seq<u8>>,
    option: Seq<u8>,
    prefix: Seq<u8>,
    result: Result<Option<Seq<u8>>, Fault>,
) -> bool {
    let takes_value = exactly(option);
    match result {
        Err(fault) => fault is InvalidInvocation && args.len() > 0 && args.last() == option
            && read_at(args, takes_value, 0, args.len() - 1),
        Ok(None) => forall|place: int| #[trigger]
            read_at(args, takes_value, 0, place) ==> said_at(args, option, prefix, place) is None
                && args[place] != option,
        Ok(Some(value)) => exists|place: int| #[trigger]
            read_at(args, takes_value, 0, place) && said_at(args, option, prefix, place) == Some(
                value,
            ) && forall|later: int| #[trigger]
                read_at(args, takes_value, 0, later) && later > place ==> said_at(
                    args,
                    option,
                    prefix,
                    later,
                ) is None,
    }
}

proof fn lemma_nothing_said(
    args: Seq<Seq<u8>>,
    option: Seq<u8>,
    prefix: Seq<u8>,
    missing: Seq<char>,
    index: int,
    end: int,
    found: Option<Seq<u8>>,
)
    requires
        0 <= index <= end <= args.len(),
        forall|i: int|
            index <= i < end ==> (#[trigger] args[i]) != option && !prefix.is_prefix_of(args[i])
                && args[i] != os::lit("--"),
    ensures
        option_from(args, option, prefix, missing, index, found) == option_from(
            args,
            option,
            prefix,
            missing,
            end,
            found,
        ),
    decreases end - index,
{
    if index < end {
        assert(stripped(args[index], prefix) is None);
        lemma_nothing_said(args, option, prefix, missing, index + 1, end, found);
    }
}

/// Whether no word names a target directory and none ends the options.
pub open spec fn without_target(args: Seq<Seq<u8>>) -> bool {
    forall|i: int|
        0 <= i < args.len() ==> (#[trigger] args[i]) != os::lit("--target-dir") && !os::lit(
            "--target-dir=",
        ).is_prefix_of(args[i]) && args[i] != os::lit("--")
}

/// Where the arguments name no target directory, the variable does; where that
/// is not set, it is `target` in the workspace. Relative ones are taken from
/// the current directory.
pub proof fn unnamed_targets_come_from_the_variable(
    args: Seq<Seq<u8>>,
    current_dir: Seq<u8>,
    workspace: Seq<u8>,
    log: Seq<Answer>,
    at: int,
)
    requires
        without_target(args),
    ensures
        match flow::given(log, at) {
            Some(Answer::Value(Some(value))) => requested_target(
                args,
                current_dir,
                workspace,
                log,
                at,
            ) == Ok::<(Seq<u8>, int), Pause>((path::join(current_dir, value@), at + 1)),
            Some(Answer::Value(None)) => requested_target(args, current_dir, workspace, log, at)
                == Ok::<(Seq<u8>, int), Pause>(
                (path::join(current_dir, path::join(workspace, os::lit("target"))), at + 1),
            ),
            _ => requested_target(args, current_dir, workspace, log, at) == Err::<
                (Seq<u8>, int),
                Pause,
            >(Pause::Ask(Query::Variable(os::lit("CARGO_TARGET_DIR")))),
        },
{
    reveal(requested_target);
    lemma_nothing_said(
        args,
        os::lit("--target-dir"),
        os::lit("--target-dir="),
        TARGET_MISSING@,
        0,
        args.len() as int,
        None,
    );
}

/// A target directory that the arguments name counts, in either spelling, and
/// nothing else is asked for. A relative one is taken from the current
/// directory.
pub proof fn named_targets_count(
    front: Seq<Seq<u8>>,
    value: Seq<u8>,
    back: Seq<Seq<u8>>,
    current_dir: Seq<u8>,
    workspace: Seq<u8>,
    log: Seq<Answer>,
    at: int,
)
    requires
        without_target(front),
        without_target(back),
    ensures
        requested_target(
            front + seq![os::lit("--target-dir"), value] + back,
            current_dir,
            workspace,
            log,
            at,
        ) == Ok::<(Seq<u8>, int), Pause>((path::join(current_dir, value), at)),
        valid_utf8(os::lit("--target-dir=") + value) ==> requested_target(
            front + seq![os::lit("--target-dir=") + value] + back,
            current_dir,
            workspace,
            log,
            at,
        ) == Ok::<(Seq<u8>, int), Pause>((path::join(current_dir, value), at)),
{
    reveal(requested_target);
    lemma_target_words();
    let option = os::lit("--target-dir");
    let prefix = os::lit("--target-dir=");
    let start = front.len() as int;
    let words = front + seq![option, value] + back;
    assert(forall|i: int| 0 <= i < front.len() ==> (#[trigger] words[i]) == front[i]);
    assert(forall|i: int|
        start + 2 <= i < words.len() ==> (#[trigger] words[i]) == back[i - start - 2]);
    lemma_nothing_said(words, option, prefix, TARGET_MISSING@, 0, start, None);
    assert(words[start] == option && words[start + 1] == value);
    lemma_nothing_said(
        words,
        option,
        prefix,
        TARGET_MISSING@,
        start + 2,
        words.len() as int,
        Some(value),
    );
    if valid_utf8(prefix + value) {
        let words = front + seq![prefix + value] + back;
        assert(forall|i: int| 0 <= i < front.len() ==> (#[trigger] words[i]) == front[i]);
        assert(forall|i: int|
            start + 1 <= i < words.len() ==> (#[trigger] words[i]) == back[i - start - 1]);
        lemma_nothing_said(words, option, prefix, TARGET_MISSING@, 0, start, None);
        assert(words[start] == prefix + value);
        assert((prefix + value).len() > option.len());
        assert((prefix + value).skip(prefix.len() as int) =~= value);
        assert(prefix.is_prefix_of(prefix + value)) by {
            assert((prefix + value).subrange(0, prefix.len() as int) =~= prefix);
        }
        lemma_nothing_said(
            words,
            option,
            prefix,
            TARGET_MISSING@,
            start + 1,
            words.len() as int,
            Some(value),
        );
    }
}

proof fn lemma_target_words()
    ensures
        os::lit("--target-dir").len() == 12,
        os::lit("--target-dir=").len() == 13,
        os::lit("--manifest-path").len() == 15,
        os::lit("--manifest-path=").len() == 16,
        os::lit("--").len() == 2,
        os::lit("--target-dir=")[2] == 't' as u8,
        os::lit("--manifest-path")[2] == 'm' as u8,
        os::lit("--manifest-path=")[2] == 'm' as u8,
{
    reveal_strlit("--target-dir");
    reveal_strlit("--target-dir=");
    reveal_strlit("--manifest-path");
    reveal_strlit("--manifest-path=");
    reveal_strlit("--");
    os::lemma_lit("--target-dir");
    os::lemma_lit("--target-dir=");
    os::lemma_lit("--manifest-path");
    os::lemma_lit("--manifest-path=");
    os::lemma_lit("--");
}

/// A manifest that the arguments name is looked up from the current directory
/// as an existing path without symlinks; where they name none, nothing is asked.
pub proof fn manifests_are_looked_up_from_the_current_directory(
    args: Seq<Seq<u8>>,
    current_dir: Seq<u8>,
    log: Seq<Answer>,
    at: int,
)
    ensures
        manifest_option(args) == Ok::<Option<Seq<u8>>, Fault>(None) ==> requested_manifest(
            args,
            current_dir,
            log,
            at,
        ) == Ok::<(Option<Seq<u8>>, int), Pause>((None, at)),
        manifest_option(args) matches Ok(Some(value)) ==> match walk::existing(
            path::join(current_dir, value),
            "manifest path"@,
            log,
            at,
        ) {
            Ok((canonical, next)) => requested_manifest(args, current_dir, log, at) == Ok::<
                (Option<Seq<u8>>, int),
                Pause,
            >((Some(canonical), next)),
            Err(pause) => requested_manifest(args, current_dir, log, at) == Err::<
                (Option<Seq<u8>>, int),
                Pause,
            >(pause),
        },
        manifest_directory(args, current_dir, log, at) matches Ok((Some(directory), _)) ==> {
            let manifest = requested_manifest(args, current_dir, log, at)->Ok_0;
            &&& manifest.0 is Some
            &&& path::parent(manifest.0->0) == Some(directory)
            &&& flow::given(log, manifest.1) matches Some(Answer::Entry(Ok(stat))) && stat.kind
                == FileKind::File
        },
{
    reveal(requested_manifest);
    reveal(manifest_directory);
}

/// Cargo stays where it was started if that belongs to the workspace, goes to
/// the directory of a manifest that belongs to it, and else to the workspace.
pub proof fn cargo_stays_where_it_may(
    current_dir: Seq<u8>,
    workspace: Seq<u8>,
    args: Seq<Seq<u8>>,
    log: Seq<Answer>,
    at: int,
)
    ensures
        path::within(current_dir, workspace) ==> working_directory(
            current_dir,
            workspace,
            args,
            log,
            at,
        ) == Ok::<(Seq<u8>, int), Pause>((current_dir, at)),
        !path::within(current_dir, workspace) ==> match manifest_directory(
            args,
            current_dir,
            log,
            at,
        ) {
            Ok((Some(directory), next)) => working_directory(current_dir, workspace, args, log, at)
                == Ok::<(Seq<u8>, int), Pause>(
                if path::within(directory, workspace) {
                    (directory, next)
                } else {
                    (workspace, next)
                },
            ),
            Ok((None, next)) => working_directory(current_dir, workspace, args, log, at) == Ok::<
                (Seq<u8>, int),
                Pause,
            >((workspace, next)),
            Err(pause) => working_directory(current_dir, workspace, args, log, at) == Err::<
                (Seq<u8>, int),
                Pause,
            >(pause),
        },
{
    reveal(working_directory);
}

/// Whether a word is an option that Cargo reads together with the next word.
pub open spec fn path_option() -> spec_fn(Seq<u8>) -> bool {
    |word: Seq<u8>| word == os::lit("--manifest-path") || word == os::lit("--target-dir")
}

/// Whether an argument came out of the rewriting as it must.
pub open spec fn rightly_rewritten(
    rule: Rewriting,
    list: Seq<Seq<u8>>,
    result: Seq<Seq<u8>>,
    log: Seq<Answer>,
    place: int,
) -> bool {
    let word = list[place];
    let manifest_prefix = os::lit("--manifest-path=");
    let target_prefix = os::lit("--target-dir=");
    if word == os::lit("--target-dir") {
        &&& result[place] == word
        &&& place + 1 < list.len() ==> result[place + 1] == if rule.forced || !path::absolute(
            list[place + 1],
        ) {
            rule.target
        } else {
            list[place + 1]
        }
    } else if word == os::lit("--manifest-path") {
        &&& result[place] == word
        &&& place + 1 < list.len() ==> if rule.moved && !path::absolute(list[place + 1]) {
            found_manifest(rule, log, result[place + 1])
        } else {
            result[place + 1] == list[place + 1]
        }
    } else if valid_utf8(word) && manifest_prefix.is_prefix_of(word) {
        if rule.moved && !path::absolute(word.skip(manifest_prefix.len() as int)) {
            exists|manifest: Seq<u8>| #[trigger]
                found_manifest(rule, log, manifest) && result[place] == manifest_prefix + manifest
        } else {
            result[place] == word
        }
    } else if valid_utf8(word) && target_prefix.is_prefix_of(word) {
        let value = word.skip(target_prefix.len() as int);
        result[place] == if value.len() > 0 && (rule.forced || !path::absolute(value)) {
            target_prefix + rule.target
        } else {
            word
        }
    } else {
        result[place] == word
    }
}

/// Whether a path is what the manifest of the arguments was found to be.
pub open spec fn found_manifest(rule: Rewriting, log: Seq<Answer>, path: Seq<u8>) -> bool {
    exists|at: int|
        (#[trigger] requested_manifest(rule.args, rule.current_dir, log, at)) matches Ok(
            (Some(manifest), _),
        ) && manifest == path
}

proof fn lemma_rewritten(
    rule: Rewriting,
    list: Seq<Seq<u8>>,
    index: int,
    log: Seq<Answer>,
    at: int,
)
    requires
        0 <= index,
        rewritten_from(rule, list, index, log, at) is Ok,
    ensures
        ({
            let result = rewritten_from(rule, list, index, log, at)->Ok_0.0;
            &&& result.len() == list.len()
            &&& forall|i: int| 0 <= i < index && i < list.len() ==> result[i] == list[i]
            &&& forall|place: int| #[trigger]
                read_at(list, path_option(), index, place) ==> rightly_rewritten(
                    rule,
                    list,
                    result,
                    log,
                    place,
                )
            &&& forall|i: int|
                index <= i < list.len() && ended(list, path_option(), index, i) ==> result[i]
                    == list[i]
        }),
    decreases list.len() - index,
{
    let result = rewritten_from(rule, list, index, log, at)->Ok_0.0;
    lemma_target_words();
    if index < list.len() && list[index] != os::lit("--") {
        let word = list[index];
        let takes = path_option()(word);
        let step: int = if takes {
            2
        } else {
            1
        };
        if takes && index + 1 >= list.len() {
            reveal_with_fuel(read_at, 2);
            reveal_with_fuel(ended, 2);
        } else {
            let next = lemma_rewritten_step(rule, list, index, log, at);
            let after = next.0;
            lemma_rewritten(rule, after, index + step, log, next.1);
            assert forall|place: int| #[trigger]
                read_at(list, path_option(), index, place) implies rightly_rewritten(
                rule,
                list,
                result,
                log,
                place,
            ) by {
                if place != index {
                    lemma_read_same(list, after, index + step, place);
                    lemma_read_later(list, path_option(), index + step, place);
                    assert(rightly_rewritten(rule, after, result, log, place));
                    assert(after[place] == list[place]);
                } else {
                    assert(result[index] == after[index]);
                    if takes {
                        assert(result[index + 1] == after[index + 1]);
                    }
                }
            }
            assert forall|i: int|
                index <= i < list.len() && ended(list, path_option(), index, i) implies result[i]
                == list[i] by {
                lemma_ended_same(list, after, index + step, i);
            }
        }
    }
}

/// Whether the word at `place` is `--` or stands behind the first one.
pub open spec fn ended(
    args: Seq<Seq<u8>>,
    takes_value: spec_fn(Seq<u8>) -> bool,
    from: int,
    place: int,
) -> bool
    decreases args.len() - from + 2,
{
    if from < 0 || from >= args.len() || from > place {
        false
    } else if args[from] == os::lit("--") {
        true
    } else if takes_value(args[from]) {
        ended(args, takes_value, from + 2, place)
    } else {
        ended(args, takes_value, from + 1, place)
    }
}

proof fn lemma_ended_same(left: Seq<Seq<u8>>, right: Seq<Seq<u8>>, from: int, place: int)
    requires
        left.len() == right.len(),
        0 <= from,
        forall|i: int| from <= i < left.len() ==> left[i] == right[i],
    ensures
        ended(left, path_option(), from, place) == ended(right, path_option(), from, place),
        ended(left, path_option(), from, place) ==> from <= place,
    decreases left.len() - from + 2,
{
    if from < left.len() {
        lemma_ended_same(left, right, from + 1, place);
        lemma_ended_same(left, right, from + 2, place);
    }
}

proof fn lemma_read_same(left: Seq<Seq<u8>>, right: Seq<Seq<u8>>, from: int, place: int)
    requires
        left.len() == right.len(),
        0 <= from,
        forall|i: int| from <= i < left.len() ==> left[i] == right[i],
    ensures
        read_at(left, path_option(), from, place) == read_at(right, path_option(), from, place),
    decreases left.len() - from + 2,
{
    if from < left.len() {
        lemma_read_same(left, right, from + 1, place);
        lemma_read_same(left, right, from + 2, place);
    }
}

/// One step of the rewriting: the list behind it, and the answers used.
proof fn lemma_rewritten_step(
    rule: Rewriting,
    list: Seq<Seq<u8>>,
    index: int,
    log: Seq<Answer>,
    at: int,
) -> (next: (Seq<Seq<u8>>, int))
    requires
        0 <= index < list.len(),
        list[index] != os::lit("--"),
        path_option()(list[index]) ==> index + 1 < list.len(),
        rewritten_from(rule, list, index, log, at) is Ok,
    ensures
        ({
            let step: int = if path_option()(list[index]) {
                2
            } else {
                1
            };
            &&& next.0.len() == list.len()
            &&& forall|i: int|
                0 <= i < index || index + step <= i < list.len() ==> next.0[i] == list[i]
            &&& rightly_rewritten(rule, list, next.0, log, index)
            &&& rewritten_from(rule, list, index, log, at) == rewritten_from(
                rule,
                next.0,
                index + step,
                log,
                next.1,
            )
        }),
{
    lemma_target_words();
    let word = list[index];
    if word == os::lit("--manifest-path") {
        if rule.moved && !path::absolute(list[index + 1]) {
            let (manifest, next) = needed_manifest(rule.args, rule.current_dir, log, at)->Ok_0;
            assert(requested_manifest(rule.args, rule.current_dir, log, at) is Ok);
            (list.update(index + 1, manifest), next)
        } else {
            (list, at)
        }
    } else if word == os::lit("--target-dir") {
        if rule.forced || !path::absolute(list[index + 1]) {
            (list.update(index + 1, rule.target), at)
        } else {
            (list, at)
        }
    } else if let Some(value) = stripped(word, os::lit("--manifest-path=")) {
        if rule.moved && !path::absolute(value) {
            let (manifest, next) = needed_manifest(rule.args, rule.current_dir, log, at)->Ok_0;
            assert(requested_manifest(rule.args, rule.current_dir, log, at) is Ok);
            assert(found_manifest(rule, log, manifest));
            (list.update(index, os::lit("--manifest-path=") + manifest), next)
        } else {
            (list, at)
        }
    } else {
        (list.update(index, rewritten_target(word, rule)), at)
    }
}

/// Rewriting changes what it has to and nothing else. Before `--`, a target
/// directory that is relative, and any where that is forced, becomes the
/// prepared target, in either spelling; a relative manifest becomes the path
/// that it was found to be where Cargo's directory changes. Every other word,
/// and all from `--` on, stays.
pub proof fn rewriting_changes_paths_only(rule: Rewriting, log: Seq<Answer>, at: int)
    requires
        rewritten_from(rule, rule.args, 0, log, at) is Ok,
    ensures
        ({
            let result = rewritten_from(rule, rule.args, 0, log, at)->Ok_0.0;
            &&& result.len() == rule.args.len()
            &&& forall|place: int| #[trigger]
                read_at(rule.args, path_option(), 0, place) ==> rightly_rewritten(
                    rule,
                    rule.args,
                    result,
                    log,
                    place,
                )
            &&& forall|i: int|
                0 <= i < rule.args.len() && ended(rule.args, path_option(), 0, i) ==> result[i]
                    == rule.args[i]
        }),
{
    lemma_rewritten(rule, rule.args, 0, log, at);
}

/// No argument before `--` keeps a relative target directory.
pub proof fn no_relative_target_is_kept(rule: Rewriting, log: Seq<Answer>, at: int, place: int)
    requires
        rewritten_from(rule, rule.args, 0, log, at) is Ok,
        path::absolute(rule.target),
        read_at(rule.args, path_option(), 0, place),
    ensures
        ({
            let result = rewritten_from(rule, rule.args, 0, log, at)->Ok_0.0;
            let prefix = os::lit("--target-dir=");
            &&& rule.args[place] == os::lit("--target-dir") && place + 1 < result.len()
                ==> path::absolute(result[place + 1])
            &&& valid_utf8(rule.args[place]) && prefix.is_prefix_of(rule.args[place])
                && rule.args[place].len() > prefix.len() ==> path::absolute(
                result[place].skip(prefix.len() as int),
            )
        }),
{
    lemma_rewritten(rule, rule.args, 0, log, at);
    lemma_target_words();
    let prefix = os::lit("--target-dir=");
    let other = os::lit("--manifest-path=");
    let word = rule.args[place];
    lemma_read_later(rule.args, path_option(), 0, place);
    assert((prefix + rule.target).skip(prefix.len() as int) =~= rule.target);
    if prefix.is_prefix_of(word) {
        assert(word[2] == prefix[2]);
    }
    if prefix.is_prefix_of(word) && other.is_prefix_of(word) {
        assert(word[2] == prefix[2] && word[2] == other[2]);
    }
}

} // verus!

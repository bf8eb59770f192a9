//! Throwaway copies of fixture projects.

use crate::error::{IoFailure, IoFault, IoKind};
use crate::flow;
use crate::flow::{Answer, Course, FileKind, Flow, Model, Names, Pause, Query, Question};
use crate::os;
use crate::os::{OsText, PathText};
use crate::path;
use crate::text;
use crate::text::Compose;
use crate::toolchain;
use vstd::prelude::*;
use vstd::string::*;
use vstd::utf8::*;

verus! {

/// A copy of a fixture project, and what else has to be removed with it.
#[derive(Debug)]
pub struct Fixture {
    pub root: PathText,
    pub cleanup_paths: Vec<PathText>,
}

/// What a `Fixture` holds.
pub struct Copied {
    pub root: Seq<u8>,
    pub cleanup: Seq<Seq<u8>>,
}

impl View for Fixture {
    type V = Copied;

    open spec fn view(&self) -> Copied {
        Copied { root: self.root@, cleanup: os::texts(self.cleanup_paths@) }
    }
}

impl Model for Fixture {
    type M = Copied;

    open spec fn model(&self) -> Copied {
        self@
    }
}

/// A directory beside a fixture, outside the project itself.
pub open spec fn beside(root: Seq<u8>, name: Seq<char>) -> Result<Seq<u8>, IoFault> {
    match path::file_name(root) {
        None => Err(IoFault::other("fixture root has no file name"@)),
        Some(own) => match path::parent(root) {
            None => Err(IoFault::other("fixture root has no parent"@)),
            Some(above) => Ok(
                path::join(above, encode_utf8(os::lossy_text(own) + "-"@ + name)),
            ),
        },
    }
}

/// What has to be removed after one more directory.
pub open spec fn with_cleanup(cleanup: Seq<Seq<u8>>, directory: Seq<u8>) -> Seq<Seq<u8>> {
    if toolchain::holds_path(cleanup, directory) {
        cleanup
    } else {
        cleanup.push(directory)
    }
}

/// A directory beside a fixture, created where it is missing.
pub open spec fn created_beside(
    root: Seq<u8>,
    name: Seq<char>,
    log: Seq<Answer>,
    at: int,
) -> Course<
    Result<Seq<u8>, IoFault>,
> {
    match beside(root, name) {
        Err(fault) => Ok((Err(fault), at)),
        Ok(directory) => match flow::done(Query::CreateDirectories(directory), log, at) {
            Err(pause) => Err(pause),
            Ok((Err(fault), at)) => Ok((Err(fault), at)),
            Ok((Ok(_), at)) => Ok((Ok(directory), at)),
        },
    }
}

fn find_beside(root: &PathText, name: &str) -> (directory: Result<PathText, IoFailure>)
    ensures
        directory.model() == beside(root@, name@),
{
    let own = match root.file_name() {
        Some(own) => own,
        None => return Err(IoFailure::other("fixture root has no file name")),
    };
    let above = match root.parent() {
        Some(above) => above,
        None => return Err(IoFailure::other("fixture root has no parent")),
    };
    let full = own.display().with("-").with(name);
    Ok(above.join(&OsText::new(full.as_str())))
}

impl Fixture {
    pub fn path(&self) -> (root: &PathText)
        ensures
            root@ == self@.root,
    {
        &self.root
    }

    /// A file of the fixture.
    pub fn file(&self, name: &PathText) -> (file: PathText)
        ensures
            file@ == path::join(self@.root, name@),
    {
        self.root.join(name)
    }

    /// Creates a temporary directory beside the fixture, outside the workspace
    /// that will be mounted read-only by cargo-cage.
    pub fn temporary_dir(&mut self, name: &str, log: &Vec<Answer>, at: usize) -> (directory: Flow<
        Result<PathText, IoFailure>,
    >)
        ensures
            flow::course(directory) == created_beside(old(self)@.root, name@, log@, at as int),
            match flow::course(directory) {
                Ok((Ok(made), _)) => final(self)@ == (Copied {
                    cleanup: with_cleanup(old(self)@.cleanup, made),
                    ..old(self)@
                }),
                _ => final(self)@ == old(self)@,
            },
    {
        let directory = match find_beside(&self.root, name) {
            Ok(directory) => directory,
            Err(failure) => return Ok((Err(failure), at)),
        };
        let (reply, at) = flow::ask_done(
            Question::CreateDirectories(directory.clone()),
            log,
            at,
        )?;
        if let Err(failure) = reply {
            return Ok((Err(failure), at));
        }
        if !toolchain::contains_path(&self.cleanup_paths, &directory) {
            os::push_text(&mut self.cleanup_paths, &directory);
        }
        Ok((Ok(directory), at))
    }

    /// Everything that has to be removed when the fixture is no longer needed.
    pub fn leftovers(&self) -> (paths: Vec<PathText>)
        ensures
            os::texts(paths@) == self@.cleanup.push(self@.root),
    {
        let mut paths = os::copy_texts(&self.cleanup_paths);
        os::push_text(&mut paths, &self.root);
        paths
    }
}

/// The entries of a directory from `index` on, copied into another.
pub open spec fn copied_names(
    source: Seq<u8>,
    destination: Seq<u8>,
    names: Seq<Seq<u8>>,
    index: int,
    log: Seq<Answer>,
    at: int,
) -> Course<Result<(), IoFault>>
    decreases log.len() - at,
{
    if index < 0 || index >= names.len() {
        Ok((Ok(()), at))
    } else {
        let from = path::join(source, names[index]);
        let to = path::join(destination, names[index]);
        match flow::entry(Query::Inspect(from), log, at) {
            Err(pause) => Err(pause),
            Ok((Err(fault), at)) => Ok((Err(fault), at)),
            Ok((Ok(stat), seen)) => match stat.kind {
                FileKind::Directory => match flow::done(Query::CreateDirectory(to), log, seen) {
                    Err(pause) => Err(pause),
                    Ok((Err(fault), at)) => Ok((Err(fault), at)),
                    Ok((Ok(_), made)) => match copied_tree(from, to, log, made) {
                        Err(pause) => Err(pause),
                        Ok((Err(fault), at)) => Ok((Err(fault), at)),
                        Ok((Ok(_), next)) => if at < next <= log.len() {
                            copied_names(source, destination, names, index + 1, log, next)
                        } else {
                            Ok((Ok(()), next))
                        },
                    },
                },
                FileKind::File => match flow::done(Query::CopyFile(from, to), log, seen) {
                    Err(pause) => Err(pause),
                    Ok((Err(fault), at)) => Ok((Err(fault), at)),
                    Ok((Ok(_), next)) => copied_names(
                        source,
                        destination,
                        names,
                        index + 1,
                        log,
                        next,
                    ),
                },
                _ => Ok(
                    (
                        Err(
                            IoFault {
                                kind: IoKind::Unsupported,
                                message: "unsupported fixture entry: "@ + os::lossy_text(from),
                            },
                        ),
                        seen,
                    ),
                ),
            },
        }
    }
}

/// A directory copied into another that is already there.
pub open spec fn copied_tree(
    source: Seq<u8>,
    destination: Seq<u8>,
    log: Seq<Answer>,
    at: int,
) -> Course<Result<(), IoFault>>
    decreases log.len() - at,
{
    match flow::names(Query::ReadDirectory(source), log, at) {
        Err(pause) => Err(pause),
        Ok((Err(fault), at)) => Ok((Err(fault), at)),
        Ok((Ok(list), listed)) => match copied_names(
            source,
            destination,
            list.names,
            0,
            log,
            listed,
        ) {
            Err(pause) => Err(pause),
            Ok((Err(fault), at)) => Ok((Err(fault), at)),
            Ok((Ok(_), at)) => match list.failure {
                Some(fault) => Ok((Err(fault), at)),
                None => Ok((Ok(()), at)),
            },
        },
    }
}

/// Copies a directory into another that is already there.
pub fn copy_directory(
    source: &PathText,
    destination: &PathText,
    log: &Vec<Answer>,
    at: usize,
) -> (done: Flow<Result<(), IoFailure>>)
    ensures
        flow::course(done) == copied_tree(source@, destination@, log@, at as int),
        done is Ok ==> at < done->Ok_0.1 <= log.len(),
    decreases log.len() - at,
{
    let (reply, listed) = flow::ask_names(Question::ReadDirectory(source.clone()), log, at)?;
    let list = match reply {
        Ok(list) => list,
        Err(failure) => return Ok((Err(failure), listed)),
    };
    let ghost all = os::texts(list.names@);
    let mut used: usize = listed;
    let mut index: usize = 0;
    while index < list.names.len()
        invariant
            index <= list.names.len(),
            all == os::texts(list.names@),
            at < listed <= used <= log.len(),
            flow::names(Query::ReadDirectory(source@), log@, at as int) == Ok::<
                (Result<Names, IoFault>, int),
                Pause,
            >((Ok(list.model()), listed as int)),
            copied_names(source@, destination@, all, 0, log@, listed as int) == copied_names(
                source@,
                destination@,
                all,
                index as int,
                log@,
                used as int,
            ),
        decreases list.names.len() - index,
    {
        assert(all[index as int] == list.names[index as int]@);
        let from = source.join(&list.names[index]);
        let to = destination.join(&list.names[index]);
        let (reply, next) = flow::ask_entry(Question::Inspect(from.clone()), log, used)?;
        let stat = match reply {
            Ok(stat) => stat,
            Err(failure) => return Ok((Err(failure), next)),
        };
        match stat.kind {
            FileKind::Directory => {
                let (reply, next) = flow::ask_done(Question::CreateDirectory(to.clone()), log, next)?;
                if let Err(failure) = reply {
                    return Ok((Err(failure), next));
                }
                let (reply, next) = copy_directory(&from, &to, log, next)?;
                if let Err(failure) = reply {
                    return Ok((Err(failure), next));
                }
                used = next;
            },
            FileKind::File => {
                let (reply, next) = flow::ask_done(Question::CopyFile(from, to), log, next)?;
                if let Err(failure) = reply {
                    return Ok((Err(failure), next));
                }
                used = next;
            },
            _ => {
                return Ok(
                    (
                        Err(
                            IoFailure {
                                kind: IoKind::Unsupported,
                                message: text::owned("unsupported fixture entry: ").with(
                                    from.display().as_str(),
                                ),
                            },
                        ),
                        next,
                    ),
                );
            },
        }
        index = index + 1;
    }
    match list.failure {
        Some(failure) => Ok((Err(failure), used)),
        None => Ok((Ok(()), used)),
    }
}

/// A fixture copied to a fresh place.
#[verifier::opaque]
pub open spec fn materialized(
    manifest_dir: Seq<u8>,
    name: Seq<char>,
    log: Seq<Answer>,
    at: int,
) -> Course<Result<Copied, IoFault>> {
    let source = path::join(path::join(manifest_dir, os::lit("fixtures")), encode_utf8(name));
    match flow::entry(Query::Follow(source), log, at) {
        Err(pause) => Err(pause),
        Ok((reply, at)) => if !(reply is Ok && reply->Ok_0.kind == FileKind::Directory) {
            Ok(
                (
                    Err(
                        IoFault {
                            kind: IoKind::NotFound,
                            message: "fixture does not exist: "@ + os::lossy_text(source),
                        },
                    ),
                    at,
                ),
            )
        } else {
            match flow::place(Query::TemporaryDirectory, log, at) {
                Err(pause) => Err(pause),
                Ok((Err(fault), at)) => Ok((Err(fault), at)),
                Ok((Ok(directory), at)) => match flow::value(Query::FreshName, log, at) {
                    Err(pause) => Err(pause),
                    Ok((None, at)) => Ok((Err(IoFault::other("no name for the fixture is available"@)), at)),
                    Ok((Some(fresh), at)) => placed(
                        source,
                        path::join(directory, os::lit("cargo-cage-fixture-") + fresh),
                        log,
                        at,
                    ),
                },
            }
        },
    }
}

/// A fixture copied to a directory that is created for it.
#[verifier::opaque]
pub open spec fn placed(
    source: Seq<u8>,
    destination: Seq<u8>,
    log: Seq<Answer>,
    at: int,
) -> Course<Result<Copied, IoFault>> {
    match flow::done(Query::CreateDirectory(destination), log, at) {
        Err(pause) => Err(pause),
        Ok((Err(fault), at)) => Ok((Err(fault), at)),
        Ok((Ok(_), at)) => match copied_tree(source, destination, log, at) {
            Err(pause) => Err(pause),
            Ok((Err(fault), at)) => Ok((Err(fault), at)),
            Ok((Ok(_), at)) => Ok((Ok(Copied { root: destination, cleanup: Seq::empty() }), at)),
        },
    }
}

fn place_fixture(source: &PathText, destination: PathText, log: &Vec<Answer>, at: usize) -> (
    fixture: Flow<Result<Fixture, IoFailure>>)
    ensures
        flow::course(fixture) == placed(source@, destination@, log@, at as int),
{
    proof {
        reveal(placed);
    }
    let (reply, at) = flow::ask_done(Question::CreateDirectory(destination.clone()), log, at)?;
    if let Err(failure) = reply {
        return Ok((Err(failure), at));
    }
    let (reply, at) = copy_directory(source, &destination, log, at)?;
    if let Err(failure) = reply {
        return Ok((Err(failure), at));
    }
    let cleanup_paths: Vec<PathText> = Vec::new();
    assert(os::texts(cleanup_paths@) =~= Seq::empty());
    Ok((Ok(Fixture { root: destination, cleanup_paths }), at))
}

/// Copies a fixture to a fresh place.
pub fn materialize(manifest_dir: &PathText, name: &str, log: &Vec<Answer>, at: usize) -> (fixture:
    Flow<Result<Fixture, IoFailure>>)
    ensures
        flow::course(fixture) == materialized(manifest_dir@, name@, log@, at as int),
{
    proof {
        reveal(materialized);
    }
    let source = manifest_dir.join_text("fixtures").join(&OsText::new(name));
    let (reply, at) = flow::ask_entry(Question::Follow(source.clone()), log, at)?;
    let there = match reply {
        Ok(stat) => stat.is_dir(),
        Err(_) => false,
    };
    if !there {
        let failure = IoFailure {
            kind: IoKind::NotFound,
            message: text::owned("fixture does not exist: ").with(source.display().as_str()),
        };
        return Ok((Err(failure), at));
    }
    let (reply, at) = flow::ask_place(Question::TemporaryDirectory, log, at)?;
    let directory = match reply {
        Ok(directory) => directory,
        Err(failure) => return Ok((Err(failure), at)),
    };
    let (fresh, at) = flow::ask_value(Question::FreshName, log, at)?;
    let fresh = match fresh {
        Some(fresh) => fresh,
        None => {
            return Ok((Err(IoFailure::other("no name for the fixture is available")), at));
        },
    };
    let mut file_name = OsText::new("cargo-cage-fixture-");
    file_name.bytes.extend_from_slice(fresh.bytes.as_slice());
    assert(file_name@ =~= os::lit("cargo-cage-fixture-") + fresh@);
    place_fixture(&source, directory.join(&file_name), log, at)
}

/// A directory beside a fixture is never inside it, so that it is not part of
/// what a sandbox mounts read-only.
pub proof fn directories_beside_are_outside(root: Seq<u8>, name: Seq<char>)
    requires
        beside(root, name) is Ok,
        path::plain_name(encode_utf8(os::lossy_text(path::file_name(root)->0) + "-"@ + name)),
        encode_utf8(os::lossy_text(path::file_name(root)->0) + "-"@ + name) != path::file_name(
            root,
        )->0,
    ensures
        !path::within(beside(root, name)->Ok_0, root),
{
    let above = path::parent(root)->0;
    let full = encode_utf8(os::lossy_text(path::file_name(root)->0) + "-"@ + name);
    path::lemma_join_name(above, full);
    path::lemma_parent_parts(root);
    let made = beside(root, name)->Ok_0;
    if path::within(made, root) {
        let last = path::parts(root).len() - 1;
        assert(path::parts(made).len() == path::parts(root).len());
        assert(path::parts(made)[last] == path::parts(root)[last]);
    }
}

} // verus!

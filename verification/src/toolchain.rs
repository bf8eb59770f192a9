//! Finding the Rust toolchain on the host and what of it the sandbox mounts.

use crate::cargo_args;
use crate::error;
use crate::error::{CageError, Fault};
use crate::flow;
use crate::flow::{
    Answer, Course, FileKind, Flow, Halt, Model, Pause, Query, Question, Said, Tool, ToolCommand,
    ToolOutput,
};
use crate::os;
use crate::os::{OsText, PathText};
use crate::path;
use crate::scan;
use crate::text;
use crate::text::Compose;
use crate::walk;
use vstd::prelude::*;
use vstd::slice::*;
use vstd::string::*;
use vstd::utf8::*;

verus! {

pub const LIST_SEPARATOR: u8 = 58;

/// The toolchain that a build uses.
#[derive(Debug)]
pub struct Toolchain {
    pub cargo: PathText,
    pub rustc: PathText,
    pub rustdoc: Option<PathText>,
    pub sysroot: PathText,
    pub home: PathText,
    pub path: OsText,
    pub read_only_paths: Vec<PathText>,
}

/// What a `Toolchain` holds.
pub struct Kit {
    pub cargo: Seq<u8>,
    pub rustc: Seq<u8>,
    pub rustdoc: Option<Seq<u8>>,
    pub sysroot: Seq<u8>,
    pub home: Seq<u8>,
    pub path: Seq<u8>,
    pub read_only_paths: Seq<Seq<u8>>,
}

impl View for Toolchain {
    type V = Kit;

    open spec fn view(&self) -> Kit {
        Kit {
            cargo: self.cargo@,
            rustc: self.rustc@,
            rustdoc: self.rustdoc.model(),
            sysroot: self.sysroot@,
            home: self.home@,
            path: self.path@,
            read_only_paths: os::texts(self.read_only_paths@),
        }
    }
}

impl Model for Toolchain {
    type M = Kit;

    open spec fn model(&self) -> Kit {
        self@
    }
}

/// What a tool printed on its error stream, for the end of a message.
pub open spec fn detail(bytes: Seq<u8>) -> Seq<char> {
    let said = scan::trimmed(os::lossy_text(bytes));
    if bytes.len() == 0 || said.len() == 0 {
        Seq::empty()
    } else {
        ": "@ + said
    }
}

/// What a tool printed on its error stream, for the end of a message.
pub fn output_detail(bytes: &Vec<u8>) -> (text: String)
    ensures
        text@ == detail(bytes@),
{
    proof {
        reveal_strlit("");
    }
    assert(""@ =~= Seq::<char>::empty());
    if bytes.len() == 0 {
        return text::owned("");
    }
    let said = scan::trim(os::lossy(bytes.as_slice()).as_str());
    if text::same_text(said.as_str(), "") {
        text::owned("")
    } else {
        assert(said@.len() != 0) by {
            if said@.len() == 0 {
                assert(said@ =~= ""@);
            }
        }
        text::owned(": ").with(said.as_str())
    }
}

/// The one line that a tool printed, if it is exactly one.
pub open spec fn single_line(bytes: Seq<u8>) -> Option<Seq<char>> {
    let line = scan::trimmed(os::lossy_text(bytes));
    if line.len() == 0 || line.contains('\n') || line.contains('\r') {
        None
    } else {
        Some(line)
    }
}

fn holds_break(characters: &Vec<char>) -> (found: bool)
    ensures
        found == (characters@.contains('\n') || characters@.contains('\r')),
{
    let mut index: usize = 0;
    while index < characters.len()
        invariant
            index <= characters.len(),
            forall|i: int|
                0 <= i < index ==> characters@[i] != '\n' && characters@[i] != '\r',
        decreases characters.len() - index,
    {
        if characters[index] == '\n' || characters[index] == '\r' {
            assert(characters@[index as int] == '\n' || characters@[index as int] == '\r');
            return true;
        }
        index = index + 1;
    }
    false
}

/// The one line that a tool printed, if it is exactly one.
pub fn single_line_text(bytes: &Vec<u8>) -> (line: Option<String>)
    ensures
        match line {
            Some(line) => single_line(bytes@) == Some(line@),
            None => single_line(bytes@) is None,
        },
{
    let line = scan::trim(os::lossy(bytes.as_slice()).as_str());
    let characters = text::characters(line.as_str());
    if characters.len() == 0 || holds_break(&characters) {
        None
    } else {
        Some(line)
    }
}

/// A path list from `index` on, split at colons.
pub open spec fn pieces_from(list: Seq<u8>, start: int, index: int) -> Seq<Seq<u8>>
    decreases list.len() - index,
{
    if index < 0 || index >= list.len() {
        seq![list.subrange(start, list.len() as int)]
    } else if list[index] == LIST_SEPARATOR {
        seq![list.subrange(start, index)] + pieces_from(list, index + 1, index + 1)
    } else {
        pieces_from(list, start, index + 1)
    }
}

/// The directories of a path list.
pub open spec fn pieces(list: Seq<u8>) -> Seq<Seq<u8>> {
    pieces_from(list, 0, 0)
}

/// The directories of a path list.
pub fn split_paths(list: &OsText) -> (directories: Vec<PathText>)
    ensures
        os::texts(directories@) == pieces(list@),
{
    let bytes = &list.bytes;
    let mut directories: Vec<PathText> = Vec::new();
    let mut start: usize = 0;
    let mut index: usize = 0;
    assert(os::texts(directories@) + pieces_from(list@, 0, 0) =~= pieces(list@));
    while index < bytes.len()
        invariant
            bytes@ == list@,
            start <= index <= bytes.len(),
            os::texts(directories@) + pieces_from(list@, start as int, index as int) == pieces(
                list@,
            ),
        decreases bytes.len() - index,
    {
        if bytes[index] == LIST_SEPARATOR {
            let piece = OsText::from_bytes(slice_subrange(bytes.as_slice(), start, index));
            let ghost before = os::texts(directories@);
            os::push_text(&mut directories, &piece);
            let ghost rest = pieces_from(list@, index + 1, index + 1);
            assert(before.push(piece@) + rest =~= before + (seq![piece@] + rest));
            start = index + 1;
        }
        index = index + 1;
    }
    let piece = OsText::from_bytes(slice_subrange(bytes.as_slice(), start, bytes.len()));
    let ghost before = os::texts(directories@);
    os::push_text(&mut directories, &piece);
    assert(os::texts(directories@) =~= before + seq![piece@]);
    directories
}

/// The first `count` directories, joined by colons.
pub open spec fn joined(list: Seq<Seq<u8>>, count: int) -> Seq<u8>
    decreases count,
{
    if count <= 0 {
        Seq::empty()
    } else if count == 1 {
        list[0]
    } else {
        joined(list, count - 1).push(LIST_SEPARATOR) + list[count - 1]
    }
}

/// Whether no directory holds a colon.
pub open spec fn joinable(list: Seq<Seq<u8>>) -> bool {
    forall|i: int| 0 <= i < list.len() ==> !(#[trigger] list[i]).contains(LIST_SEPARATOR)
}

fn holds_separator(path: &PathText) -> (found: bool)
    ensures
        found == path@.contains(LIST_SEPARATOR),
{
    let mut index: usize = 0;
    while index < path.bytes.len()
        invariant
            index <= path.bytes.len(),
            forall|i: int| 0 <= i < index ==> path@[i] != LIST_SEPARATOR,
        decreases path.bytes.len() - index,
    {
        if path.bytes[index] == LIST_SEPARATOR {
            assert(path@[index as int] == LIST_SEPARATOR);
            return true;
        }
        index = index + 1;
    }
    false
}

/// A path list, unless a directory itself holds a colon.
pub fn join_paths(directories: &Vec<PathText>) -> (list: Option<OsText>)
    ensures
        list is Some <==> joinable(os::texts(directories@)),
        list is Some ==> list->0@ == joined(os::texts(directories@), directories@.len() as int),
{
    let ghost all = os::texts(directories@);
    let mut bytes: Vec<u8> = Vec::new();
    let mut index: usize = 0;
    assert(bytes@ =~= joined(all, 0));
    while index < directories.len()
        invariant
            index <= directories.len(),
            all == os::texts(directories@),
            bytes@ == joined(all, index as int),
            forall|i: int| 0 <= i < index ==> !(#[trigger] all[i]).contains(LIST_SEPARATOR),
        decreases directories.len() - index,
    {
        assert(all[index as int] == directories[index as int]@);
        if holds_separator(&directories[index]) {
            return None;
        }
        if index > 0 {
            bytes.push(LIST_SEPARATOR);
        }
        bytes.extend_from_slice(directories[index].bytes.as_slice());
        index = index + 1;
        assert(bytes@ =~= joined(all, index as int));
    }
    Some(OsText { bytes })
}

/// Whether a list holds a path with the same components.
pub open spec fn holds_path(list: Seq<Seq<u8>>, path: Seq<u8>) -> bool {
    exists|i: int| 0 <= i < list.len() && path::same_path(#[trigger] list[i], path)
}

/// Whether a list holds a path with the same components.
pub fn contains_path(list: &Vec<PathText>, path: &PathText) -> (found: bool)
    ensures
        found == holds_path(os::texts(list@), path@),
{
    let ghost all = os::texts(list@);
    let mut index: usize = 0;
    while index < list.len()
        invariant
            index <= list.len(),
            all == os::texts(list@),
            forall|i: int| 0 <= i < index ==> !path::same_path(#[trigger] all[i], path@),
        decreases list.len() - index,
    {
        assert(all[index as int] == list[index as int]@);
        if list[index].same_path(path) {
            return true;
        }
        index = index + 1;
    }
    false
}

/// The directories of the system runtime.
pub open spec fn runtime_directories() -> Seq<Seq<u8>> {
    seq![
        os::lit("/usr/bin"),
        os::lit("/usr/local/bin"),
        os::lit("/usr/sbin"),
        os::lit("/usr/local/sbin"),
        os::lit("/bin"),
        os::lit("/sbin"),
    ]
}

fn list_runtime_directories() -> (list: Vec<PathText>)
    ensures
        os::texts(list@) == runtime_directories(),
{
    let mut list: Vec<PathText> = Vec::new();
    os::push_lit(&mut list, "/usr/bin");
    os::push_lit(&mut list, "/usr/local/bin");
    os::push_lit(&mut list, "/usr/sbin");
    os::push_lit(&mut list, "/usr/local/sbin");
    os::push_lit(&mut list, "/bin");
    os::push_lit(&mut list, "/sbin");
    assert(os::texts(list@) =~= runtime_directories());
    list
}

/// Whether a path lies below one of a list.
pub open spec fn below_any(path: Seq<u8>, list: Seq<Seq<u8>>) -> bool {
    exists|i: int| 0 <= i < list.len() && path::within(path, #[trigger] list[i])
}

/// Whether a path lies below one of a list.
pub fn starts_with_any(path: &PathText, list: &Vec<PathText>) -> (found: bool)
    ensures
        found == below_any(path@, os::texts(list@)),
{
    let ghost all = os::texts(list@);
    let mut index: usize = 0;
    while index < list.len()
        invariant
            index <= list.len(),
            all == os::texts(list@),
            forall|i: int| 0 <= i < index ==> !path::within(path@, #[trigger] all[i]),
        decreases list.len() - index,
    {
        assert(all[index as int] == list[index as int]@);
        if path.starts_with(&list[index]) {
            return true;
        }
        index = index + 1;
    }
    false
}

/// Whether a path belongs to the system runtime.
pub open spec fn standard_runtime(path: Seq<u8>) -> bool {
    below_any(path, runtime_directories())
}

pub fn is_standard_runtime_path(path: &PathText) -> (yes: bool)
    ensures
        yes == standard_runtime(path@),
{
    starts_with_any(path, &list_runtime_directories())
}

/// Whether the sandbox hides a path behind a private filesystem.
pub open spec fn private_host(path: Seq<u8>, home: Seq<u8>) -> bool {
    path::within(path, home) || below_any(
        path,
        seq![os::lit("/tmp"), os::lit("/var/tmp"), os::lit("/run")],
    )
}

pub fn is_private_host_path(path: &PathText, home: &PathText) -> (yes: bool)
    ensures
        yes == private_host(path@, home@),
{
    let mut list: Vec<PathText> = Vec::new();
    os::push_lit(&mut list, "/tmp");
    os::push_lit(&mut list, "/var/tmp");
    os::push_lit(&mut list, "/run");
    assert(os::texts(list@) =~= seq![os::lit("/tmp"), os::lit("/var/tmp"), os::lit("/run")]);
    path.starts_with(home) || starts_with_any(path, &list)
}

/// Whether a compiler that rustup selected may be used.
pub open spec fn trusted_compiler(path: Seq<u8>, toolchains: Seq<u8>) -> bool {
    standard_runtime(path) || path::within(path, toolchains)
}

pub fn is_trusted_rustup_compiler(path: &PathText, toolchains: &PathText) -> (yes: bool)
    ensures
        yes == trusted_compiler(path@, toolchains@),
{
    is_standard_runtime_path(path) || path.starts_with(toolchains)
}

/// An executable: its canonical path, or the given path where it is a rustup
/// proxy, which acts by the name it is called under.
pub open spec fn executable(file: Seq<u8>, log: Seq<Answer>, at: int) -> Course<Seq<u8>> {
    match walk::resolved(file, "could not resolve executable "@, log, at) {
        Err(pause) => Err(pause),
        Ok((canonical, at)) => match cargo_args::leads_to(canonical, FileKind::File, log, at) {
            Err(pause) => Err(pause),
            Ok((false, at)) => Err(
                flow::unavailable_pause(
                    "executable "@ + os::lossy_text(file)
                        + " is not a regular file; select a trusted executable"@,
                    at,
                ),
            ),
            Ok((true, at)) => if path::file_name(canonical) == Some(os::lit("rustup")) {
                Ok((file, at))
            } else {
                Ok((canonical, at))
            },
        },
    }
}

fn named_rustup(path: &PathText) -> (yes: bool)
    ensures
        yes == (path::file_name(path@) == Some(os::lit("rustup"))),
{
    match path.file_name() {
        Some(name) => name.is_text("rustup"),
        None => false,
    }
}

pub fn validate_executable_path(file: &PathText, log: &Vec<Answer>, at: usize) -> (validated: Flow<
    PathText,
>)
    ensures
        flow::course(validated) == executable(file@, log@, at as int),
{
    let (canonical, at) = walk::resolve(file, "could not resolve executable ", log, at)?;
    let (regular, at) = cargo_args::leads_to_kind(&canonical, FileKind::File, log, at)?;
    if !regular {
        let message = text::owned("executable ").with(file.display().as_str()).with(
            " is not a regular file; select a trusted executable",
        );
        return Err(flow::unavailable_halt(message.as_str(), at));
    }
    if named_rustup(&canonical) {
        Ok((file.clone(), at))
    } else {
        Ok((canonical, at))
    }
}

/// The first directory from `index` on that holds the program.
pub open spec fn searched_from(
    directories: Seq<Seq<u8>>,
    index: int,
    program: Seq<u8>,
    current_dir: Seq<u8>,
    otherwise: Seq<char>,
    log: Seq<Answer>,
    at: int,
) -> Course<Seq<u8>>
    decreases directories.len() - index,
{
    if index < 0 || index >= directories.len() {
        Err(flow::unavailable_pause(otherwise, at))
    } else {
        let candidate = path::join(path::join(current_dir, directories[index]), program);
        match cargo_args::leads_to(candidate, FileKind::File, log, at) {
            Err(pause) => Err(pause),
            Ok((true, at)) => executable(candidate, log, at),
            Ok((false, at)) => searched_from(
                directories,
                index + 1,
                program,
                current_dir,
                otherwise,
                log,
                at,
            ),
        }
    }
}

fn search(
    directories: &Vec<PathText>,
    program: &PathText,
    current_dir: &PathText,
    otherwise: &str,
    log: &Vec<Answer>,
    at: usize,
) -> (found: Flow<PathText>)
    ensures
        flow::course(found) == searched_from(
            os::texts(directories@),
            0,
            program@,
            current_dir@,
            otherwise@,
            log@,
            at as int,
        ),
{
    let ghost all = os::texts(directories@);
    let mut index: usize = 0;
    let mut used: usize = at;
    while index < directories.len()
        invariant
            index <= directories.len(),
            all == os::texts(directories@),
            searched_from(all, 0, program@, current_dir@, otherwise@, log@, at as int)
                == searched_from(
                all,
                index as int,
                program@,
                current_dir@,
                otherwise@,
                log@,
                used as int,
            ),
        decreases directories.len() - index,
    {
        assert(all[index as int] == directories[index as int]@);
        let candidate = current_dir.join(&directories[index]).join(program);
        let (found, next) = cargo_args::leads_to_kind(&candidate, FileKind::File, log, used)?;
        if found {
            return validate_executable_path(&candidate, log, next);
        }
        used = next;
        index = index + 1;
    }
    Err(flow::unavailable_halt(otherwise, used))
}

/// A program: the one that a variable names, or the first on `PATH`.
#[verifier::opaque]
pub open spec fn program(
    name: &str,
    variable: &str,
    current_dir: Seq<u8>,
    log: Seq<Answer>,
    at: int,
) -> Course<Seq<u8>> {
    match flow::value(Query::Variable(os::lit(variable)), log, at) {
        Err(pause) => Err(pause),
        Ok((chosen, at)) => {
            let requested = match chosen {
                Some(chosen) => chosen,
                None => os::lit(name),
            };
            if path::absolute(requested) || path::depth(requested) > 1 {
                executable(path::join(current_dir, requested), log, at)
            } else {
                match flow::value(Query::Variable(os::lit("PATH")), log, at) {
                    Err(pause) => Err(pause),
                    Ok((None, at)) => Err(
                        flow::unavailable_pause(
                            variable@ + " is not set and PATH is unavailable; set PATH or "@
                                + variable@ + " to a trusted "@ + name@ + " executable"@,
                            at,
                        ),
                    ),
                    Ok((Some(list), at)) => searched_from(
                        pieces(list),
                        0,
                        requested,
                        current_dir,
                        "could not find "@ + name@ + " executable `"@ + os::lossy_text(requested)
                            + "`; install "@ + name@ + " or set "@ + variable@
                            + " to a trusted executable"@,
                        log,
                        at,
                    ),
                }
            }
        },
    }
}

pub fn resolve_program(
    name: &str,
    variable: &str,
    current_dir: &PathText,
    log: &Vec<Answer>,
    at: usize,
) -> (found: Flow<PathText>)
    ensures
        flow::course(found) == program(name, variable, current_dir@, log@, at as int),
{
    proof {
        reveal(program);
    }
    let (chosen, at) = flow::ask_value(Question::Variable(OsText::new(variable)), log, at)?;
    let requested = match chosen {
        Some(chosen) => chosen,
        None => OsText::new(name),
    };
    if requested.is_absolute() || requested.depth() > 1 {
        return validate_executable_path(&current_dir.join(&requested), log, at);
    }
    let (list, at) = flow::ask_value(Question::Variable(OsText::new("PATH")), log, at)?;
    match list {
        None => {
            let message = text::owned(variable).with(
                " is not set and PATH is unavailable; set PATH or ",
            ).with(variable).with(" to a trusted ").with(name).with(" executable");
            Err(flow::unavailable_halt(message.as_str(), at))
        },
        Some(list) => {
            let otherwise = text::owned("could not find ").with(name).with(" executable `").with(
                requested.display().as_str(),
            ).with("`; install ").with(name).with(" or set ").with(variable).with(
                " to a trusted executable",
            );
            search(&split_paths(&list), &requested, current_dir, otherwise.as_str(), log, at)
        },
    }
}

/// The Cargo executable.
pub fn resolve_cargo(current_dir: &PathText, log: &Vec<Answer>, at: usize) -> (found: Flow<PathText>)
    ensures
        flow::course(found) == program("cargo", "CARGO", current_dir@, log@, at as int),
{
    resolve_program("cargo", "CARGO", current_dir, log, at)
}

/// Whether a program is a rustup proxy.
pub open spec fn rustup_proxy(file: Seq<u8>, log: Seq<Answer>, at: int) -> Course<bool> {
    match flow::place(Query::Resolve(file), log, at) {
        Err(pause) => Err(pause),
        Ok((Ok(canonical), at)) => Ok((path::file_name(canonical) == Some(os::lit("rustup")), at)),
        Ok((Err(_), at)) => Ok((false, at)),
    }
}

pub fn is_rustup_proxy(file: &PathText, log: &Vec<Answer>, at: usize) -> (yes: Flow<bool>)
    ensures
        flow::course(yes) == rustup_proxy(file@, log@, at as int),
{
    let (reply, at) = flow::ask_place(Question::Resolve(file.clone()), log, at)?;
    match reply {
        Ok(canonical) => Ok((named_rustup(&canonical), at)),
        Err(_) => Ok((false, at)),
    }
}

/// A directory named by a variable: absolute, not the root, real, and reached
/// without symlinks.
pub open spec fn real_home(
    home: Seq<u8>,
    variable: &str,
    remedies: [&str; 3],
    label: &str,
    log: Seq<Answer>,
    at: int,
) -> Course<Seq<u8>> {
    if !path::absolute(home) {
        Err(
            flow::refusal(
                home,
                variable@ + " must be an absolute path"@,
                remedies[0]@,
                at,
            ),
        )
    } else if path::same_path(home, os::lit("/")) {
        Err(
            flow::refusal(
                home,
                variable@ + " must not be the filesystem root"@,
                remedies[1]@,
                at,
            ),
        )
    } else {
        match flow::entry(Query::Inspect(home), log, at) {
            Err(pause) => Err(pause),
            Ok((Err(failure), at)) => Err(
                flow::io_pause(
                    "could not inspect "@ + label@ + " "@ + os::lossy_text(home),
                    failure,
                    at,
                ),
            ),
            Ok((Ok(stat), at)) => if stat.kind != FileKind::Directory {
                Err(
                    flow::refusal(
                        home,
                        variable@
                            + " must be an existing real directory without symlink resolution"@,
                        remedies[2]@,
                        at,
                    ),
                )
            } else {
                walk::existing(home, label@, log, at)
            },
        }
    }
}

fn check_home(
    home: &PathText,
    variable: &str,
    remedies: [&str; 3],
    label: &str,
    log: &Vec<Answer>,
    at: usize,
) -> (canonical: Flow<PathText>)
    ensures
        flow::course(canonical) == real_home(home@, variable, remedies, label, log@, at as int),
{
    if !home.is_absolute() {
        return Err(
            flow::refuse(
                home,
                text::owned(variable).with(" must be an absolute path").as_str(),
                remedies[0],
                at,
            ),
        );
    }
    if home.same_path(&OsText::new("/")) {
        return Err(
            flow::refuse(
                home,
                text::owned(variable).with(" must not be the filesystem root").as_str(),
                remedies[1],
                at,
            ),
        );
    }
    let (reply, at) = flow::ask_entry(Question::Inspect(home.clone()), log, at)?;
    match reply {
        Err(failure) => {
            let context = text::owned("could not inspect ").with(label).with(" ").with(
                home.display().as_str(),
            );
            Err(flow::io_halt(context.as_str(), &failure, at))
        },
        Ok(stat) => {
            if !stat.is_dir() {
                return Err(
                    flow::refuse(
                        home,
                        text::owned(variable).with(
                            " must be an existing real directory without symlink resolution",
                        ).as_str(),
                        remedies[2],
                        at,
                    ),
                );
            }
            walk::canonical_existing_path_without_symlinks(home, label, log, at)
        },
    }
}

/// What to do about a `HOME` that is relative, the root, or not a real
/// directory.
pub open spec fn home_remedies() -> [&'static str; 3] {
    [
        "set HOME to the absolute path of the user home directory",
        "set HOME to a real user home directory",
        "set HOME to an existing real user home directory",
    ]
}

/// What to do about a `RUSTUP_HOME` that is relative, the root, or not a real
/// directory.
pub open spec fn rustup_remedies() -> [&'static str; 3] {
    [
        "set RUSTUP_HOME to the absolute path of a real Rustup directory",
        "set RUSTUP_HOME to a real Rustup directory",
        "set RUSTUP_HOME to an existing real Rustup directory",
    ]
}

/// The user's home directory.
#[verifier::opaque]
pub open spec fn user_home(log: Seq<Answer>, at: int) -> Course<Seq<u8>> {
    match flow::value(Query::Variable(os::lit("HOME")), log, at) {
        Err(pause) => Err(pause),
        Ok((None, at)) => Err(
            Pause::Fail(
                Fault::Policy {
                    subject: "HOME"@,
                    rule: "HOME must be set to construct the sandbox environment"@,
                    remedy: "set HOME to an absolute user home directory before running cargo-cage"@,
                },
                at,
            ),
        ),
        Ok((Some(home), at)) => real_home(
            home,
            "HOME",
            home_remedies(),
            "home directory",
            log,
            at,
        ),
    }
}

pub fn canonical_home(log: &Vec<Answer>, at: usize) -> (home: Flow<PathText>)
    ensures
        flow::course(home) == user_home(log@, at as int),
{
    proof {
        reveal(user_home);
    }
    let (home, at) = flow::ask_value(Question::Variable(OsText::new("HOME")), log, at)?;
    match home {
        None => Err(
            Halt::Fail(
                CageError::policy(
                    "HOME",
                    "HOME must be set to construct the sandbox environment",
                    "set HOME to an absolute user home directory before running cargo-cage",
                ),
                at,
            ),
        ),
        Some(home) => check_home(
            &home,
            "HOME",
            [
                "set HOME to the absolute path of the user home directory",
                "set HOME to a real user home directory",
                "set HOME to an existing real user home directory",
            ],
            "home directory",
            log,
            at,
        ),
    }
}

/// Rustup's home directory.
#[verifier::opaque]
pub open spec fn rustup_home(home: Seq<u8>, log: Seq<Answer>, at: int) -> Course<Seq<u8>> {
    match flow::value(Query::Variable(os::lit("RUSTUP_HOME")), log, at) {
        Err(pause) => Err(pause),
        Ok((chosen, at)) => real_home(
            match chosen {
                Some(chosen) => chosen,
                None => path::join(home, os::lit(".rustup")),
            },
            "RUSTUP_HOME",
            rustup_remedies(),
            "Rustup home",
            log,
            at,
        ),
    }
}

pub fn canonical_rustup_home(home: &PathText, log: &Vec<Answer>, at: usize) -> (found: Flow<
    PathText,
>)
    ensures
        flow::course(found) == rustup_home(home@, log@, at as int),
{
    proof {
        reveal(rustup_home);
    }
    let (chosen, at) = flow::ask_value(Question::Variable(OsText::new("RUSTUP_HOME")), log, at)?;
    let directory = match chosen {
        Some(chosen) => chosen,
        None => home.join_text(".rustup"),
    };
    check_home(
        &directory,
        "RUSTUP_HOME",
        [
            "set RUSTUP_HOME to the absolute path of a real Rustup directory",
            "set RUSTUP_HOME to a real Rustup directory",
            "set RUSTUP_HOME to an existing real Rustup directory",
        ],
        "Rustup home",
        log,
        at,
    )
}

/// A program of the sysroot, or the fallback where the sysroot lacks it and it
/// is not a proxy.
#[verifier::opaque]
pub open spec fn selected_program(
    name: &str,
    fallback: Seq<u8>,
    sysroot_bin: Seq<u8>,
    required: bool,
    log: Seq<Answer>,
    at: int,
) -> Course<Seq<u8>> {
    let candidate = path::join(sysroot_bin, os::lit(name));
    match cargo_args::leads_to(candidate, FileKind::File, log, at) {
        Err(pause) => Err(pause),
        Ok((true, at)) => executable(candidate, log, at),
        Ok((false, at)) => if !required {
            Ok((fallback, at))
        } else {
            match rustup_proxy(fallback, log, at) {
                Err(pause) => Err(pause),
                Ok((true, at)) => Err(
                    flow::unavailable_pause(
                        "the selected Rust sysroot has no "@ + name@
                            + " executable; install the complete Rust toolchain or select a system toolchain"@,
                        at,
                    ),
                ),
                Ok((false, at)) => executable(fallback, log, at),
            }
        },
    }
}

pub fn select_toolchain_program(
    name: &str,
    fallback: &PathText,
    sysroot_bin: &PathText,
    required: bool,
    log: &Vec<Answer>,
    at: usize,
) -> (selected: Flow<PathText>)
    ensures
        flow::course(selected) == selected_program(
            name,
            fallback@,
            sysroot_bin@,
            required,
            log@,
            at as int,
        ),
{
    proof {
        reveal(selected_program);
    }
    let candidate = sysroot_bin.join_text(name);
    let (found, at) = cargo_args::leads_to_kind(&candidate, FileKind::File, log, at)?;
    if found {
        return validate_executable_path(&candidate, log, at);
    }
    if !required {
        return Ok((fallback.clone(), at));
    }
    let (proxy, at) = is_rustup_proxy(fallback, log, at)?;
    if proxy {
        let message = text::owned("the selected Rust sysroot has no ").with(name).with(
            " executable; install the complete Rust toolchain or select a system toolchain",
        );
        return Err(flow::unavailable_halt(message.as_str(), at));
    }
    validate_executable_path(fallback, log, at)
}

/// The variables of a rustup call, with the chosen toolchain if there is one.
pub open spec fn with_variable(
    environment: Seq<(Seq<u8>, Seq<u8>)>,
    name: &str,
    value: Option<Seq<u8>>,
) -> Seq<(Seq<u8>, Seq<u8>)> {
    match value {
        Some(value) => environment.push((os::lit(name), value)),
        None => environment,
    }
}

fn push_variable(environment: &mut Vec<(OsText, OsText)>, name: &str, value: &Option<OsText>)
    ensures
        os::pairs(final(environment)@) == with_variable(
            os::pairs(old(environment)@),
            name,
            value.model(),
        ),
{
    if let Some(value) = value {
        os::push_pair(environment, OsText::new(name), value.clone());
    }
}

/// The call that asks rustup for the compiler.
pub open spec fn which_rustc(
    rustup: Seq<u8>,
    home: Seq<u8>,
    rustup_home: Seq<u8>,
    toolchain: Option<Seq<u8>>,
    current_dir: Seq<u8>,
) -> Tool {
    Tool {
        program: rustup,
        args: seq![os::lit("which"), os::lit("rustc")],
        inherit: false,
        environment: with_variable(
            seq![
                (os::lit("HOME"), home),
                (os::lit("RUSTUP_HOME"), rustup_home),
                (os::lit("RUSTUP_AUTO_INSTALL"), os::lit("0")),
            ],
            "RUSTUP_TOOLCHAIN",
            toolchain,
        ),
        current_dir: Some(current_dir),
    }
}

fn which_rustc_command(
    rustup: &PathText,
    home: &PathText,
    rustup_home: &PathText,
    toolchain: &Option<OsText>,
    current_dir: &PathText,
) -> (command: ToolCommand)
    ensures
        command@ == which_rustc(
            rustup@,
            home@,
            rustup_home@,
            toolchain.model(),
            current_dir@,
        ),
{
    let mut args: Vec<OsText> = Vec::new();
    os::push_lit(&mut args, "which");
    os::push_lit(&mut args, "rustc");
    assert(os::texts(args@) =~= seq![os::lit("which"), os::lit("rustc")]);
    let mut environment: Vec<(OsText, OsText)> = Vec::new();
    os::push_pair(&mut environment, OsText::new("HOME"), home.clone());
    os::push_pair(&mut environment, OsText::new("RUSTUP_HOME"), rustup_home.clone());
    os::push_pair(&mut environment, OsText::new("RUSTUP_AUTO_INSTALL"), OsText::new("0"));
    assert(os::pairs(environment@) =~= seq![
        (os::lit("HOME"), home@),
        (os::lit("RUSTUP_HOME"), rustup_home@),
        (os::lit("RUSTUP_AUTO_INSTALL"), os::lit("0")),
    ]);
    push_variable(&mut environment, "RUSTUP_TOOLCHAIN", toolchain);
    ToolCommand {
        program: rustup.clone(),
        args,
        inherit: false,
        environment,
        current_dir: Some(current_dir.clone()),
    }
}

/// The compiler that rustup's answer names, if it may be used.
pub open spec fn rustup_compiler(
    said: Said,
    rustup_home: Seq<u8>,
    log: Seq<Answer>,
    at: int,
) -> Course<Seq<u8>> {
    if said.status.code != Some(0i32) {
        Err(
            flow::unavailable_pause(
                "rustup could not resolve a preinstalled rustc"@ + detail(said.stderr)
                    + "; install the selected toolchain before running cargo-cage"@,
                at,
            ),
        )
    } else {
        match single_line(said.stdout) {
            None => Err(
                flow::unavailable_pause(
                    "rustup returned an invalid rustc path; select a preinstalled Rust toolchain"@,
                    at,
                ),
            ),
            Some(line) => match walk::existing(
                encode_utf8(line),
                "Rustup-selected rustc"@,
                log,
                at,
            ) {
                Err(pause) => Err(pause),
                Ok((compiler, at)) => match cargo_args::leads_to(
                    compiler,
                    FileKind::File,
                    log,
                    at,
                ) {
                    Err(pause) => Err(pause),
                    Ok((false, at)) => Err(
                        flow::refusal(
                            compiler,
                            "the Rustup-selected compiler must be a regular file"@,
                            "install a complete preinstalled Rust toolchain and retry"@,
                            at,
                        ),
                    ),
                    Ok((true, at)) => if trusted_compiler(
                        compiler,
                        path::join(rustup_home, os::lit("toolchains")),
                    ) {
                        Ok((compiler, at))
                    } else {
                        Err(
                            flow::refusal(
                                compiler,
                                "a project Rust toolchain must resolve inside the trusted Rustup toolchains or system runtime"@,
                                "remove the project path override and select an installed toolchain under RUSTUP_HOME"@,
                                at,
                            ),
                        )
                    },
                },
            },
        }
    }
}

fn check_rustup_compiler(
    output: &ToolOutput,
    rustup_home: &PathText,
    log: &Vec<Answer>,
    at: usize,
) -> (compiler: Flow<PathText>)
    ensures
        flow::course(compiler) == rustup_compiler(
            output.model(),
            rustup_home@,
            log@,
            at as int,
        ),
{
    if !output.status.successfully_exited() {
        let message = text::owned("rustup could not resolve a preinstalled rustc").with(
            output_detail(&output.stderr).as_str(),
        ).with("; install the selected toolchain before running cargo-cage");
        return Err(flow::unavailable_halt(message.as_str(), at));
    }
    let line = match single_line_text(&output.stdout) {
        Some(line) => line,
        None => {
            return Err(
                flow::unavailable_halt(
                    "rustup returned an invalid rustc path; select a preinstalled Rust toolchain",
                    at,
                ),
            );
        },
    };
    let (compiler, at) = walk::canonical_existing_path_without_symlinks(
        &OsText::new(line.as_str()),
        "Rustup-selected rustc",
        log,
        at,
    )?;
    let (regular, at) = cargo_args::leads_to_kind(&compiler, FileKind::File, log, at)?;
    if !regular {
        return Err(
            flow::refuse(
                &compiler,
                "the Rustup-selected compiler must be a regular file",
                "install a complete preinstalled Rust toolchain and retry",
                at,
            ),
        );
    }
    if !is_trusted_rustup_compiler(&compiler, &rustup_home.join_text("toolchains")) {
        return Err(
            flow::refuse(
                &compiler,
                "a project Rust toolchain must resolve inside the trusted Rustup toolchains or system runtime",
                "remove the project path override and select an installed toolchain under RUSTUP_HOME",
                at,
            ),
        );
    }
    Ok((compiler, at))
}

/// The compiler behind a rustup proxy; any other compiler stands for itself.
#[verifier::opaque]
pub open spec fn real_rustc(
    host_rustc: Seq<u8>,
    home: Seq<u8>,
    current_dir: Seq<u8>,
    log: Seq<Answer>,
    at: int,
) -> Course<Seq<u8>> {
    match rustup_proxy(host_rustc, log, at) {
        Err(pause) => Err(pause),
        Ok((false, at)) => Ok((host_rustc, at)),
        Ok((true, at)) => match walk::resolved(
            host_rustc,
            "could not resolve the rustup executable "@,
            log,
            at,
        ) {
            Err(pause) => Err(pause),
            Ok((rustup, at)) => match rustup_home(home, log, at) {
                Err(pause) => Err(pause),
                Ok((directory, at)) => match flow::value(
                    Query::Variable(os::lit("RUSTUP_TOOLCHAIN")),
                    log,
                    at,
                ) {
                    Err(pause) => Err(pause),
                    Ok((chosen, at)) => match flow::output(
                        Query::RunTool(which_rustc(rustup, home, directory, chosen, current_dir)),
                        log,
                        at,
                    ) {
                        Err(pause) => Err(pause),
                        Ok((Err(failure), at)) => Err(
                            Pause::Fail(
                                Fault::ProcessSpawn { program: rustup, source: failure },
                                at,
                            ),
                        ),
                        Ok((Ok(said), at)) => rustup_compiler(said, directory, log, at),
                    },
                },
            },
        },
    }
}

pub fn resolve_rustup_rustc(
    host_rustc: &PathText,
    home: &PathText,
    current_dir: &PathText,
    log: &Vec<Answer>,
    at: usize,
) -> (rustc: Flow<PathText>)
    ensures
        flow::course(rustc) == real_rustc(host_rustc@, home@, current_dir@, log@, at as int),
{
    proof {
        reveal(real_rustc);
    }
    let (proxy, at) = is_rustup_proxy(host_rustc, log, at)?;
    if !proxy {
        return Ok((host_rustc.clone(), at));
    }
    let (rustup, at) = walk::resolve(
        host_rustc,
        "could not resolve the rustup executable ",
        log,
        at,
    )?;
    let (directory, at) = canonical_rustup_home(home, log, at)?;
    let (chosen, at) = flow::ask_value(
        Question::Variable(OsText::new("RUSTUP_TOOLCHAIN")),
        log,
        at,
    )?;
    let command = which_rustc_command(&rustup, home, &directory, &chosen, current_dir);
    let (reply, at) = flow::ask_output(Question::RunTool(command), log, at)?;
    match reply {
        Err(failure) => Err(
            Halt::Fail(CageError::ProcessSpawn { program: rustup, source: failure }, at),
        ),
        Ok(output) => check_rustup_compiler(&output, &directory, log, at),
    }
}

/// The call that asks the compiler for its sysroot.
pub open spec fn print_sysroot(
    rustc: Seq<u8>,
    home: Seq<u8>,
    rustup_home: Option<Seq<u8>>,
    toolchain: Option<Seq<u8>>,
    current_dir: Seq<u8>,
) -> Tool {
    Tool {
        program: rustc,
        args: seq![os::lit("--print"), os::lit("sysroot")],
        inherit: false,
        environment: with_variable(
            with_variable(
                seq![
                    (os::lit("HOME"), home),
                    (os::lit("RUSTUP_AUTO_INSTALL"), os::lit("0")),
                ],
                "RUSTUP_HOME",
                rustup_home,
            ),
            "RUSTUP_TOOLCHAIN",
            toolchain,
        ),
        current_dir: Some(current_dir),
    }
}

fn print_sysroot_command(
    rustc: &PathText,
    home: &PathText,
    rustup_home: &Option<OsText>,
    toolchain: &Option<OsText>,
    current_dir: &PathText,
) -> (command: ToolCommand)
    ensures
        command@ == print_sysroot(
            rustc@,
            home@,
            rustup_home.model(),
            toolchain.model(),
            current_dir@,
        ),
{
    let mut args: Vec<OsText> = Vec::new();
    os::push_lit(&mut args, "--print");
    os::push_lit(&mut args, "sysroot");
    assert(os::texts(args@) =~= seq![os::lit("--print"), os::lit("sysroot")]);
    let mut environment: Vec<(OsText, OsText)> = Vec::new();
    os::push_pair(&mut environment, OsText::new("HOME"), home.clone());
    os::push_pair(&mut environment, OsText::new("RUSTUP_AUTO_INSTALL"), OsText::new("0"));
    assert(os::pairs(environment@) =~= seq![
        (os::lit("HOME"), home@),
        (os::lit("RUSTUP_AUTO_INSTALL"), os::lit("0")),
    ]);
    push_variable(&mut environment, "RUSTUP_HOME", rustup_home);
    push_variable(&mut environment, "RUSTUP_TOOLCHAIN", toolchain);
    ToolCommand {
        program: rustc.clone(),
        args,
        inherit: false,
        environment,
        current_dir: Some(current_dir.clone()),
    }
}

/// The sysroot that the compiler's answer names.
pub open spec fn named_sysroot(
    said: Said,
    rustc: Seq<u8>,
    log: Seq<Answer>,
    at: int,
) -> Course<Seq<u8>> {
    if said.status.code != Some(0i32) {
        Err(
            flow::unavailable_pause(
                os::lossy_text(rustc) + " --print sysroot failed with "@ + error::code_text(
                    said.status.code,
                ) + "; install or select a working Rust toolchain"@,
                at,
            ),
        )
    } else {
        match single_line(said.stdout) {
            None => Err(
                flow::unavailable_pause(
                    "Rust returned an invalid sysroot path; select a working Rust toolchain"@,
                    at,
                ),
            ),
            Some(line) => {
                let sysroot = encode_utf8(line);
                if !path::absolute(sysroot) {
                    Err(
                        flow::unavailable_pause(
                            "Rust returned a relative sysroot "@ + os::lossy_text(sysroot)
                                + "; select a working Rust toolchain"@,
                            at,
                        ),
                    )
                } else {
                    match walk::existing(sysroot, "Rust sysroot"@, log, at) {
                        Err(pause) => Err(pause),
                        Ok((sysroot, at)) => match cargo_args::leads_to(
                            sysroot,
                            FileKind::Directory,
                            log,
                            at,
                        ) {
                            Err(pause) => Err(pause),
                            Ok((true, at)) => Ok((sysroot, at)),
                            Ok((false, at)) => Err(
                                flow::unavailable_pause(
                                    "Rust sysroot "@ + os::lossy_text(sysroot)
                                        + " is not a directory; select a working Rust toolchain"@,
                                    at,
                                ),
                            ),
                        },
                    }
                }
            },
        }
    }
}

fn check_sysroot(output: &ToolOutput, rustc: &PathText, log: &Vec<Answer>, at: usize) -> (sysroot:
    Flow<PathText>)
    ensures
        flow::course(sysroot) == named_sysroot(output.model(), rustc@, log@, at as int),
{
    if !output.status.successfully_exited() {
        let message = rustc.display().with(" --print sysroot failed with ").with(
            error::show_code(output.status.code).as_str(),
        ).with("; install or select a working Rust toolchain");
        return Err(flow::unavailable_halt(message.as_str(), at));
    }
    let line = match single_line_text(&output.stdout) {
        Some(line) => line,
        None => {
            return Err(
                flow::unavailable_halt(
                    "Rust returned an invalid sysroot path; select a working Rust toolchain",
                    at,
                ),
            );
        },
    };
    let sysroot = OsText::new(line.as_str());
    if !sysroot.is_absolute() {
        let message = text::owned("Rust returned a relative sysroot ").with(
            sysroot.display().as_str(),
        ).with("; select a working Rust toolchain");
        return Err(flow::unavailable_halt(message.as_str(), at));
    }
    let (sysroot, at) = walk::canonical_existing_path_without_symlinks(
        &sysroot,
        "Rust sysroot",
        log,
        at,
    )?;
    let (directory, at) = cargo_args::leads_to_kind(&sysroot, FileKind::Directory, log, at)?;
    if !directory {
        let message = text::owned("Rust sysroot ").with(sysroot.display().as_str()).with(
            " is not a directory; select a working Rust toolchain",
        );
        return Err(flow::unavailable_halt(message.as_str(), at));
    }
    Ok((sysroot, at))
}

/// The sysroot of a compiler.
#[verifier::opaque]
pub open spec fn sysroot_of(
    rustc: Seq<u8>,
    home: Seq<u8>,
    current_dir: Seq<u8>,
    log: Seq<Answer>,
    at: int,
) -> Course<Seq<u8>> {
    match flow::value(Query::Variable(os::lit("RUSTUP_HOME")), log, at) {
        Err(pause) => Err(pause),
        Ok((directory, at)) => match flow::value(
            Query::Variable(os::lit("RUSTUP_TOOLCHAIN")),
            log,
            at,
        ) {
            Err(pause) => Err(pause),
            Ok((chosen, at)) => match flow::output(
                Query::RunTool(print_sysroot(rustc, home, directory, chosen, current_dir)),
                log,
                at,
            ) {
                Err(pause) => Err(pause),
                Ok((Err(failure), at)) => Err(
                    Pause::Fail(Fault::ProcessSpawn { program: rustc, source: failure }, at),
                ),
                Ok((Ok(said), at)) => named_sysroot(said, rustc, log, at),
            },
        },
    }
}

pub fn query_sysroot(
    rustc: &PathText,
    home: &PathText,
    current_dir: &PathText,
    log: &Vec<Answer>,
    at: usize,
) -> (sysroot: Flow<PathText>)
    ensures
        flow::course(sysroot) == sysroot_of(rustc@, home@, current_dir@, log@, at as int),
{
    proof {
        reveal(sysroot_of);
    }
    let (directory, at) = flow::ask_value(Question::Variable(OsText::new("RUSTUP_HOME")), log, at)?;
    let (chosen, at) = flow::ask_value(
        Question::Variable(OsText::new("RUSTUP_TOOLCHAIN")),
        log,
        at,
    )?;
    let command = print_sysroot_command(rustc, home, &directory, &chosen, current_dir);
    let (reply, at) = flow::ask_output(Question::RunTool(command), log, at)?;
    match reply {
        Err(failure) => Err(
            Halt::Fail(CageError::ProcessSpawn { program: rustc.clone(), source: failure }, at),
        ),
        Ok(output) => check_sysroot(&output, rustc, log, at),
    }
}

/// The directories of the executables from `index` on, added to `mounts` where
/// they are neither the root, nor part of the runtime, nor there already.
pub open spec fn mounts_from(
    executables: Seq<Seq<u8>>,
    index: int,
    mounts: Seq<Seq<u8>>,
    log: Seq<Answer>,
    at: int,
) -> Course<Seq<Seq<u8>>>
    decreases executables.len() - index,
{
    if index < 0 || index >= executables.len() {
        Ok((mounts, at))
    } else {
        match path::parent(executables[index]) {
            None => Err(
                flow::unavailable_pause(
                    "toolchain executable "@ + os::lossy_text(executables[index])
                        + " has no parent directory"@,
                    at,
                ),
            ),
            Some(directory) => match walk::resolved(
                directory,
                "could not canonicalize toolchain directory "@,
                log,
                at,
            ) {
                Err(pause) => Err(pause),
                Ok((directory, at)) => match cargo_args::leads_to(
                    directory,
                    FileKind::Directory,
                    log,
                    at,
                ) {
                    Err(pause) => Err(pause),
                    Ok((false, at)) => Err(
                        flow::unavailable_pause(
                            "toolchain path "@ + os::lossy_text(directory)
                                + " is not a directory; select a working Rust toolchain"@,
                            at,
                        ),
                    ),
                    Ok((true, at)) => {
                        let wanted = !path::same_path(directory, os::lit("/"))
                            && !standard_runtime(directory) && !holds_path(mounts, directory);
                        mounts_from(
                            executables,
                            index + 1,
                            if wanted {
                                mounts.push(directory)
                            } else {
                                mounts
                            },
                            log,
                            at,
                        )
                    },
                },
            },
        }
    }
}

/// What of the toolchain is mounted: the sysroot and the directories of the
/// executables.
#[verifier::opaque]
pub open spec fn mount_paths(
    sysroot: Seq<u8>,
    executables: Seq<Seq<u8>>,
    log: Seq<Answer>,
    at: int,
) -> Course<Seq<Seq<u8>>> {
    mounts_from(
        executables,
        0,
        if path::same_path(sysroot, os::lit("/")) {
            Seq::empty()
        } else {
            seq![sysroot]
        },
        log,
        at,
    )
}

pub fn toolchain_mount_paths(
    sysroot: &PathText,
    executables: &Vec<PathText>,
    log: &Vec<Answer>,
    at: usize,
) -> (mounts: Flow<Vec<PathText>>)
    ensures
        flow::course(mounts) == mount_paths(
            sysroot@,
            os::texts(executables@),
            log@,
            at as int,
        ),
{
    proof {
        reveal(mount_paths);
    }
    let root = OsText::new("/");
    let mut mounts: Vec<PathText> = Vec::new();
    assert(os::texts(mounts@) =~= Seq::empty());
    if !sysroot.same_path(&root) {
        os::push_text(&mut mounts, sysroot);
        assert(os::texts(mounts@) =~= seq![sysroot@]);
    }
    let ghost all = os::texts(executables@);
    let mut index: usize = 0;
    let mut used: usize = at;
    while index < executables.len()
        invariant
            index <= executables.len(),
            all == os::texts(executables@),
            root@ == os::lit("/"),
            mount_paths(sysroot@, all, log@, at as int) == mounts_from(
                all,
                index as int,
                os::texts(mounts@),
                log@,
                used as int,
            ),
        decreases executables.len() - index,
    {
        assert(all[index as int] == executables[index as int]@);
        let directory = match executables[index].parent() {
            Some(directory) => directory,
            None => {
                let message = text::owned("toolchain executable ").with(
                    executables[index].display().as_str(),
                ).with(" has no parent directory");
                return Err(flow::unavailable_halt(message.as_str(), used));
            },
        };
        let (directory, next) = walk::resolve(
            &directory,
            "could not canonicalize toolchain directory ",
            log,
            used,
        )?;
        let (usable, next) = cargo_args::leads_to_kind(&directory, FileKind::Directory, log, next)?;
        if !usable {
            let message = text::owned("toolchain path ").with(directory.display().as_str()).with(
                " is not a directory; select a working Rust toolchain",
            );
            return Err(flow::unavailable_halt(message.as_str(), next));
        }
        if !directory.same_path(&root) && !is_standard_runtime_path(&directory) && !contains_path(
            &mounts,
            &directory,
        ) {
            os::push_text(&mut mounts, &directory);
        }
        used = next;
        index = index + 1;
    }
    Ok((mounts, used))
}

/// The directories of the executables from `index` on that can be resolved.
pub open spec fn required_from(
    executables: Seq<Seq<u8>>,
    index: int,
    current_dir: Seq<u8>,
    found: Seq<Seq<u8>>,
    log: Seq<Answer>,
    at: int,
) -> Course<Seq<Seq<u8>>>
    decreases executables.len() - index,
{
    if index < 0 || index >= executables.len() {
        Ok((found, at))
    } else {
        match path::parent(executables[index]) {
            None => required_from(executables, index + 1, current_dir, found, log, at),
            Some(directory) => match flow::place(
                Query::Resolve(path::join(current_dir, directory)),
                log,
                at,
            ) {
                Err(pause) => Err(pause),
                Ok((Ok(directory), at)) => required_from(
                    executables,
                    index + 1,
                    current_dir,
                    found.push(directory),
                    log,
                    at,
                ),
                Ok((Err(_), at)) => required_from(
                    executables,
                    index + 1,
                    current_dir,
                    found,
                    log,
                    at,
                ),
            },
        }
    }
}

fn required_directories(
    executables: &Vec<PathText>,
    current_dir: &PathText,
    log: &Vec<Answer>,
    at: usize,
) -> (found: Flow<Vec<PathText>>)
    ensures
        flow::course(found) == required_from(
            os::texts(executables@),
            0,
            current_dir@,
            Seq::empty(),
            log@,
            at as int,
        ),
{
    let ghost all = os::texts(executables@);
    let mut found: Vec<PathText> = Vec::new();
    let mut index: usize = 0;
    let mut used: usize = at;
    assert(os::texts(found@) =~= Seq::empty());
    while index < executables.len()
        invariant
            index <= executables.len(),
            all == os::texts(executables@),
            required_from(all, 0, current_dir@, Seq::empty(), log@, at as int) == required_from(
                all,
                index as int,
                current_dir@,
                os::texts(found@),
                log@,
                used as int,
            ),
        decreases executables.len() - index,
    {
        assert(all[index as int] == executables[index as int]@);
        if let Some(directory) = executables[index].parent() {
            let (reply, next) = flow::ask_place(
                Question::Resolve(current_dir.join(&directory)),
                log,
                used,
            )?;
            if let Ok(directory) = reply {
                os::push_text(&mut found, &directory);
            }
            used = next;
        }
        index = index + 1;
    }
    Ok((found, used))
}

/// Which host directories may be on the sandbox's `PATH`.
pub enum Admission {
    /// The runtime itself.
    Runtime,
    /// Directories of the host's `PATH`: those that executables need, and those
    /// of the runtime that are not private.
    Host { home: Seq<u8>, required: Seq<Seq<u8>> },
}

impl Admission {
    pub open spec fn admits(self, directory: Seq<u8>) -> bool {
        match self {
            Admission::Runtime => true,
            Admission::Host { home, required } => holds_path(required, directory) || (
            standard_runtime(directory) && !private_host(directory, home)),
        }
    }
}

/// The candidates from `index` on, added to `list` where they are admitted
/// directories that are not there already.
pub open spec fn admitted_from(
    candidates: Seq<Seq<u8>>,
    index: int,
    admission: Admission,
    list: Seq<Seq<u8>>,
    log: Seq<Answer>,
    at: int,
) -> Course<Seq<Seq<u8>>>
    decreases candidates.len() - index,
{
    if index < 0 || index >= candidates.len() {
        Ok((list, at))
    } else {
        match flow::place(Query::Resolve(candidates[index]), log, at) {
            Err(pause) => Err(pause),
            Ok((Err(_), at)) => admitted_from(candidates, index + 1, admission, list, log, at),
            Ok((Ok(directory), at)) => match cargo_args::leads_to(
                directory,
                FileKind::Directory,
                log,
                at,
            ) {
                Err(pause) => Err(pause),
                Ok((usable, at)) => {
                    let wanted = usable && admission.admits(directory) && !holds_path(
                        list,
                        directory,
                    );
                    admitted_from(
                        candidates,
                        index + 1,
                        admission,
                        if wanted {
                            list.push(directory)
                        } else {
                            list
                        },
                        log,
                        at,
                    )
                },
            },
        }
    }
}

fn add_runtime_directories(list: Vec<PathText>, log: &Vec<Answer>, at: usize) -> (extended: Flow<
    Vec<PathText>,
>)
    ensures
        flow::course(extended) == admitted_from(
            runtime_directories(),
            0,
            Admission::Runtime,
            os::texts(list@),
            log@,
            at as int,
        ),
{
    let candidates = list_runtime_directories();
    let mut extended = list;
    let mut index: usize = 0;
    let mut used: usize = at;
    while index < candidates.len()
        invariant
            index <= candidates.len(),
            os::texts(candidates@) == runtime_directories(),
            admitted_from(
                runtime_directories(),
                0,
                Admission::Runtime,
                os::texts(list@),
                log@,
                at as int,
            ) == admitted_from(
                runtime_directories(),
                index as int,
                Admission::Runtime,
                os::texts(extended@),
                log@,
                used as int,
            ),
        decreases candidates.len() - index,
    {
        assert(os::texts(candidates@)[index as int] == candidates[index as int]@);
        let (reply, next) = flow::ask_place(
            Question::Resolve(candidates[index].clone()),
            log,
            used,
        )?;
        used = next;
        if let Ok(directory) = reply {
            let (usable, next) = cargo_args::leads_to_kind(
                &directory,
                FileKind::Directory,
                log,
                used,
            )?;
            if usable && !contains_path(&extended, &directory) {
                os::push_text(&mut extended, &directory);
            }
            used = next;
        }
        index = index + 1;
    }
    Ok((extended, used))
}

/// The directories of the host's `PATH`, relative to the current directory.
pub open spec fn host_candidates(list: Seq<u8>, current_dir: Seq<u8>) -> Seq<Seq<u8>> {
    pieces(list).map_values(|piece: Seq<u8>| path::join(current_dir, piece))
}

fn add_host_directories(
    list: Vec<PathText>,
    host_path: &OsText,
    home: &PathText,
    current_dir: &PathText,
    required: &Vec<PathText>,
    log: &Vec<Answer>,
    at: usize,
) -> (extended: Flow<Vec<PathText>>)
    ensures
        flow::course(extended) == admitted_from(
            host_candidates(host_path@, current_dir@),
            0,
            (Admission::Host { home: home@, required: os::texts(required@) }),
            os::texts(list@),
            log@,
            at as int,
        ),
{
    let directories = split_paths(host_path);
    let ghost candidates = host_candidates(host_path@, current_dir@);
    let ghost admission = Admission::Host { home: home@, required: os::texts(required@) };
    let mut extended = list;
    let mut index: usize = 0;
    let mut used: usize = at;
    while index < directories.len()
        invariant
            index <= directories.len() == candidates.len(),
            os::texts(directories@) == pieces(host_path@),
            candidates == host_candidates(host_path@, current_dir@),
            admission == (Admission::Host { home: home@, required: os::texts(required@) }),
            admitted_from(candidates, 0, admission, os::texts(list@), log@, at as int)
                == admitted_from(
                candidates,
                index as int,
                admission,
                os::texts(extended@),
                log@,
                used as int,
            ),
        decreases directories.len() - index,
    {
        assert(os::texts(directories@)[index as int] == directories[index as int]@);
        let candidate = current_dir.join(&directories[index]);
        assert(candidate@ == candidates[index as int]);
        let (reply, next) = flow::ask_place(Question::Resolve(candidate), log, used)?;
        used = next;
        if let Ok(directory) = reply {
            let (usable, next) = cargo_args::leads_to_kind(
                &directory,
                FileKind::Directory,
                log,
                used,
            )?;
            let admitted = contains_path(required, &directory) || (is_standard_runtime_path(
                &directory,
            ) && !is_private_host_path(&directory, home));
            if usable && admitted && !contains_path(&extended, &directory) {
                os::push_text(&mut extended, &directory);
            }
            used = next;
        }
        index = index + 1;
    }
    Ok((extended, used))
}

/// A path list and its directories.
pub open spec fn listed(directories: Seq<Seq<u8>>, at: int) -> Course<(Seq<u8>, Seq<Seq<u8>>)> {
    if directories.len() == 0 {
        Err(
            flow::unavailable_pause(
                "could not construct a safe PATH for the Rust toolchain; set PATH to existing toolchain directories"@,
                at,
            ),
        )
    } else if !joinable(directories) {
        Err(
            flow::unavailable_pause(
                "could not construct a safe toolchain PATH: path segment contains separator `:`"@,
                at,
            ),
        )
    } else {
        Ok(((joined(directories, directories.len() as int), directories), at))
    }
}

/// The sandbox's `PATH`: the directories of the executables, the runtime, and
/// what of the host's `PATH` is admitted.
#[verifier::opaque]
pub open spec fn safe_path(
    home: Seq<u8>,
    current_dir: Seq<u8>,
    executables: Seq<Seq<u8>>,
    log: Seq<Answer>,
    at: int,
) -> Course<(Seq<u8>, Seq<Seq<u8>>)> {
    match required_from(executables, 0, current_dir, Seq::empty(), log, at) {
        Err(pause) => Err(pause),
        Ok((required, at)) => match admitted_from(
            runtime_directories(),
            0,
            Admission::Runtime,
            required,
            log,
            at,
        ) {
            Err(pause) => Err(pause),
            Ok((list, at)) => match flow::value(Query::Variable(os::lit("PATH")), log, at) {
                Err(pause) => Err(pause),
                Ok((None, at)) => listed(list, at),
                Ok((Some(host_path), at)) => match admitted_from(
                    host_candidates(host_path, current_dir),
                    0,
                    Admission::Host { home, required },
                    list,
                    log,
                    at,
                ) {
                    Err(pause) => Err(pause),
                    Ok((list, at)) => listed(list, at),
                },
            },
        },
    }
}

/// A path list with its directories.
pub struct SearchPath {
    pub list: OsText,
    pub directories: Vec<PathText>,
}

impl Model for SearchPath {
    type M = (Seq<u8>, Seq<Seq<u8>>);

    open spec fn model(&self) -> (Seq<u8>, Seq<Seq<u8>>) {
        (self.list@, os::texts(self.directories@))
    }
}

pub fn sandbox_path(
    home: &PathText,
    current_dir: &PathText,
    executables: &Vec<PathText>,
    log: &Vec<Answer>,
    at: usize,
) -> (search_path: Flow<SearchPath>)
    ensures
        flow::course(search_path) == safe_path(
            home@,
            current_dir@,
            os::texts(executables@),
            log@,
            at as int,
        ),
{
    proof {
        reveal(safe_path);
    }
    let (required, at) = required_directories(executables, current_dir, log, at)?;
    let (list, at) = add_runtime_directories(os::copy_texts(&required), log, at)?;
    let (host_path, at) = flow::ask_value(Question::Variable(OsText::new("PATH")), log, at)?;
    let (list, at) = match host_path {
        Some(host_path) => add_host_directories(
            list,
            &host_path,
            home,
            current_dir,
            &required,
            log,
            at,
        )?,
        None => (list, at),
    };
    if list.len() == 0 {
        return Err(
            flow::unavailable_halt(
                "could not construct a safe PATH for the Rust toolchain; set PATH to existing toolchain directories",
                at,
            ),
        );
    }
    match join_paths(&list) {
        Some(joined) => Ok((SearchPath { list: joined, directories: list }, at)),
        None => Err(
            flow::unavailable_halt(
                "could not construct a safe toolchain PATH: path segment contains separator `:`",
                at,
            ),
        ),
    }
}

/// The documentation tool, where the sysroot has one or one is needed.
#[verifier::opaque]
pub open spec fn rustdoc_of(
    sysroot_bin: Seq<u8>,
    current_dir: Seq<u8>,
    needed: bool,
    log: Seq<Answer>,
    at: int,
) -> Course<Option<Seq<u8>>> {
    let own = path::join(sysroot_bin, os::lit("rustdoc"));
    match cargo_args::leads_to(own, FileKind::File, log, at) {
        Err(pause) => Err(pause),
        Ok((true, at)) => match selected_program("rustdoc", own, sysroot_bin, true, log, at) {
            Err(pause) => Err(pause),
            Ok((rustdoc, at)) => Ok((Some(rustdoc), at)),
        },
        Ok((false, at)) => if !needed {
            Ok((None, at))
        } else {
            match program("rustdoc", "RUSTDOC", current_dir, log, at) {
                Err(pause) => Err(pause),
                Ok((host, at)) => match selected_program(
                    "rustdoc",
                    host,
                    sysroot_bin,
                    true,
                    log,
                    at,
                ) {
                    Err(pause) => Err(pause),
                    Ok((rustdoc, at)) => Ok((Some(rustdoc), at)),
                },
            }
        },
    }
}

fn resolve_rustdoc(
    sysroot_bin: &PathText,
    current_dir: &PathText,
    needed: bool,
    log: &Vec<Answer>,
    at: usize,
) -> (rustdoc: Flow<Option<PathText>>)
    ensures
        flow::course(rustdoc) == rustdoc_of(
            sysroot_bin@,
            current_dir@,
            needed,
            log@,
            at as int,
        ),
{
    proof {
        reveal(rustdoc_of);
    }
    let own = sysroot_bin.join_text("rustdoc");
    let (found, at) = cargo_args::leads_to_kind(&own, FileKind::File, log, at)?;
    if found {
        let (rustdoc, at) = select_toolchain_program("rustdoc", &own, sysroot_bin, true, log, at)?;
        return Ok((Some(rustdoc), at));
    }
    if !needed {
        return Ok((None, at));
    }
    let (host, at) = resolve_program("rustdoc", "RUSTDOC", current_dir, log, at)?;
    let (rustdoc, at) = select_toolchain_program("rustdoc", &host, sysroot_bin, true, log, at)?;
    Ok((Some(rustdoc), at))
}

/// The Cargo of the sysroot behind a proxy; any other Cargo stands for itself.
#[verifier::opaque]
pub open spec fn cargo_of(
    cargo: Seq<u8>,
    sysroot_bin: Seq<u8>,
    log: Seq<Answer>,
    at: int,
) -> Course<Seq<u8>> {
    match rustup_proxy(cargo, log, at) {
        Err(pause) => Err(pause),
        Ok((true, at)) => selected_program("cargo", cargo, sysroot_bin, true, log, at),
        Ok((false, at)) => Ok((cargo, at)),
    }
}

fn select_cargo(cargo: &PathText, sysroot_bin: &PathText, log: &Vec<Answer>, at: usize) -> (
selected: Flow<PathText>)
    ensures
        flow::course(selected) == cargo_of(cargo@, sysroot_bin@, log@, at as int),
{
    proof {
        reveal(cargo_of);
    }
    let (proxy, at) = is_rustup_proxy(cargo, log, at)?;
    if proxy {
        select_toolchain_program("cargo", cargo, sysroot_bin, true, log, at)
    } else {
        Ok((cargo.clone(), at))
    }
}

/// The executables of a toolchain.
pub open spec fn executables(cargo: Seq<u8>, rustc: Seq<u8>, rustdoc: Option<Seq<u8>>) -> Seq<
    Seq<u8>,
> {
    match rustdoc {
        Some(rustdoc) => seq![cargo, rustc, rustdoc],
        None => seq![cargo, rustc],
    }
}

fn list_executables(cargo: &PathText, rustc: &PathText, rustdoc: &Option<PathText>) -> (list: Vec<
    PathText,
>)
    ensures
        os::texts(list@) == executables(cargo@, rustc@, rustdoc.model()),
{
    let mut list: Vec<PathText> = Vec::new();
    os::push_text(&mut list, cargo);
    os::push_text(&mut list, rustc);
    if let Some(rustdoc) = rustdoc {
        os::push_text(&mut list, rustdoc);
    }
    assert(os::texts(list@) =~= executables(cargo@, rustc@, rustdoc.model()));
    list
}

/// `mounts` with those of the first `count` directories that are neither part
/// of the runtime nor there already.
pub open spec fn with_directories(
    mounts: Seq<Seq<u8>>,
    directories: Seq<Seq<u8>>,
    count: int,
) -> Seq<Seq<u8>>
    decreases count,
{
    if count <= 0 {
        mounts
    } else {
        let before = with_directories(mounts, directories, count - 1);
        let directory = directories[count - 1];
        if standard_runtime(directory) || holds_path(before, directory) {
            before
        } else {
            before.push(directory)
        }
    }
}

fn add_directories(mounts: Vec<PathText>, directories: &Vec<PathText>) -> (extended: Vec<PathText>)
    ensures
        os::texts(extended@) == with_directories(
            os::texts(mounts@),
            os::texts(directories@),
            directories@.len() as int,
        ),
{
    let mut extended = mounts;
    let mut index: usize = 0;
    while index < directories.len()
        invariant
            index <= directories.len(),
            os::texts(extended@) == with_directories(
                os::texts(mounts@),
                os::texts(directories@),
                index as int,
            ),
        decreases directories.len() - index,
    {
        assert(os::texts(directories@)[index as int] == directories[index as int]@);
        if !is_standard_runtime_path(&directories[index]) && !contains_path(
            &extended,
            &directories[index],
        ) {
            os::push_text(&mut extended, &directories[index]);
        }
        index = index + 1;
    }
    extended
}

/// The toolchain around its chosen executables.
#[verifier::opaque]
pub open spec fn assembled(
    cargo: Seq<u8>,
    rustc: Seq<u8>,
    rustdoc: Option<Seq<u8>>,
    sysroot: Seq<u8>,
    home: Seq<u8>,
    current_dir: Seq<u8>,
    log: Seq<Answer>,
    at: int,
) -> Course<Kit> {
    let programs = executables(cargo, rustc, rustdoc);
    match safe_path(home, current_dir, programs, log, at) {
        Err(pause) => Err(pause),
        Ok(((list, directories), at)) => match mount_paths(sysroot, programs, log, at) {
            Err(pause) => Err(pause),
            Ok((mounts, at)) => Ok(
                (
                    Kit {
                        cargo,
                        rustc,
                        rustdoc,
                        sysroot,
                        home,
                        path: list,
                        read_only_paths: with_directories(
                            mounts,
                            directories,
                            directories.len() as int,
                        ),
                    },
                    at,
                ),
            ),
        },
    }
}

fn assemble(
    cargo: PathText,
    rustc: PathText,
    rustdoc: Option<PathText>,
    sysroot: PathText,
    home: PathText,
    current_dir: &PathText,
    log: &Vec<Answer>,
    at: usize,
) -> (toolchain: Flow<Toolchain>)
    ensures
        flow::course(toolchain) == assembled(
            cargo@,
            rustc@,
            rustdoc.model(),
            sysroot@,
            home@,
            current_dir@,
            log@,
            at as int,
        ),
{
    proof {
        reveal(assembled);
    }
    let programs = list_executables(&cargo, &rustc, &rustdoc);
    let (search_path, at) = sandbox_path(&home, current_dir, &programs, log, at)?;
    let (mounts, at) = toolchain_mount_paths(&sysroot, &programs, log, at)?;
    let read_only_paths = add_directories(mounts, &search_path.directories);
    Ok(
        (
            Toolchain {
                cargo,
                rustc,
                rustdoc,
                sysroot,
                home,
                path: search_path.list,
                read_only_paths,
            },
            at,
        ),
    )
}

/// The toolchain that the host offers for a given Cargo.
#[verifier::opaque]
pub open spec fn toolchain_for(
    cargo: Seq<u8>,
    current_dir: Seq<u8>,
    require_rustdoc: bool,
    log: Seq<Answer>,
    at: int,
) -> Course<Kit> {
    match user_home(log, at) {
        Err(pause) => Err(pause),
        Ok((home, at)) => match program("rustc", "RUSTC", current_dir, log, at) {
            Err(pause) => Err(pause),
            Ok((host_rustc, at)) => match real_rustc(host_rustc, home, current_dir, log, at) {
                Err(pause) => Err(pause),
                Ok((compiler, at)) => match sysroot_of(compiler, home, current_dir, log, at) {
                    Err(pause) => Err(pause),
                    Ok((sysroot, at)) => {
                        let sysroot_bin = path::join(sysroot, os::lit("bin"));
                        match selected_program("rustc", compiler, sysroot_bin, true, log, at) {
                            Err(pause) => Err(pause),
                            Ok((rustc, at)) => match rustdoc_of(
                                sysroot_bin,
                                current_dir,
                                require_rustdoc,
                                log,
                                at,
                            ) {
                                Err(pause) => Err(pause),
                                Ok((rustdoc, at)) => match cargo_of(cargo, sysroot_bin, log, at) {
                                    Err(pause) => Err(pause),
                                    Ok((cargo, at)) => assembled(
                                        cargo,
                                        rustc,
                                        rustdoc,
                                        sysroot,
                                        home,
                                        current_dir,
                                        log,
                                        at,
                                    ),
                                },
                            },
                        }
                    },
                },
            },
        },
    }
}

pub fn resolve_toolchain(
    cargo: &PathText,
    current_dir: &PathText,
    require_rustdoc: bool,
    log: &Vec<Answer>,
    at: usize,
) -> (toolchain: Flow<Toolchain>)
    ensures
        flow::course(toolchain) == toolchain_for(
            cargo@,
            current_dir@,
            require_rustdoc,
            log@,
            at as int,
        ),
{
    proof {
        reveal(toolchain_for);
    }
    let (home, at) = canonical_home(log, at)?;
    let (host_rustc, at) = resolve_program("rustc", "RUSTC", current_dir, log, at)?;
    let (compiler, at) = resolve_rustup_rustc(&host_rustc, &home, current_dir, log, at)?;
    let (sysroot, at) = query_sysroot(&compiler, &home, current_dir, log, at)?;
    let sysroot_bin = sysroot.join_text("bin");
    let (rustc, at) = select_toolchain_program("rustc", &compiler, &sysroot_bin, true, log, at)?;
    let (rustdoc, at) = resolve_rustdoc(&sysroot_bin, current_dir, require_rustdoc, log, at)?;
    let (cargo, at) = select_cargo(cargo, &sysroot_bin, log, at)?;
    assemble(cargo, rustc, rustdoc, sysroot, home, current_dir, log, at)
}

/// A compiler that rustup selects is used only where it belongs to rustup's own
/// toolchains or to the system runtime.
pub proof fn rustup_compilers_are_trusted(
    said: Said,
    rustup_home: Seq<u8>,
    log: Seq<Answer>,
    at: int,
)
    requires
        rustup_compiler(said, rustup_home, log, at) is Ok,
    ensures
        trusted_compiler(
            rustup_compiler(said, rustup_home, log, at)->Ok_0.0,
            path::join(rustup_home, os::lit("toolchains")),
        ),
{
}

} // verus!

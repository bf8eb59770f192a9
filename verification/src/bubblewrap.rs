//! The Linux backend: Bubblewrap is found and checked, and every request runs
//! behind a preflight of the same sandbox.

use crate::backend::{Job, OutputMode, ProcessStatus, SandboxOutcome, SandboxRequest};
use crate::bwrap;
use crate::capture;
use crate::capture::{CapturedOutput, CapturedRun};
use crate::cgroup;
use crate::cgroup::{Group, ResourceGroup};
use crate::error;
use crate::error::{CageError, Fault};
use crate::flow;
use crate::flow::{
    Answer, Child, ChildCommand, Course, FileKind, Flow, Halt, Model, Pause, Query, Question, Said,
    Tool, ToolCommand,
};
use crate::mounts;
use crate::mounts::{LauncherContext, PreparedMounts};
use crate::os;
use crate::os::{OsText, PathText};
use crate::path;
use crate::plan;
use crate::plan::{Layout, SandboxPlan};
use crate::policy::NetworkAccess;
use crate::scan;
use crate::text;
use crate::text::Compose;
use crate::tree;
use vstd::prelude::*;
use vstd::string::*;
use vstd::utf8::*;

verus! {

pub const MIN_BWRAP_MAJOR: u32 = 0;

pub const MIN_BWRAP_MINOR: u32 = 12;

/// The program that runs inside Bubblewrap, next to `cargo-cage` itself.
pub const LAUNCHER_NAME: &'static str = "cargo-cage-landlock-launcher";

/// What a preflight prints when nothing that it checks is missing.
pub const NAMESPACE_PREFLIGHT_OUTPUT: &'static str = "cargo-cage-namespace-preflight-ok\n";

/// Compares the namespaces inside with those outside, and checks that no
/// capability is left, that no new privilege can be had, that the session began
/// inside (one from outside has the number 0 there) and that Bubblewrap was told
/// to end with its parent.
pub const NAMESPACE_PREFLIGHT: &'static str =
    "set -eu\n[ -x /usr/bin/readlink ]\n[ -x /usr/bin/tr ]\nmnt=$(/usr/bin/readlink /proc/self/ns/mnt)\nuser=$(/usr/bin/readlink /proc/self/ns/user)\npid=$(/usr/bin/readlink /proc/self/ns/pid)\nipc=$(/usr/bin/readlink /proc/self/ns/ipc)\nuts=$(/usr/bin/readlink /proc/self/ns/uts)\nnet=$(/usr/bin/readlink /proc/self/ns/net)\n[ -n \"$mnt\" ] && [ \"$mnt\" != \"$1\" ]\n[ -n \"$user\" ] && [ \"$user\" != \"$2\" ]\n[ -n \"$pid\" ] && [ \"$pid\" != \"$3\" ]\n[ -n \"$ipc\" ] && [ \"$ipc\" != \"$4\" ]\n[ -n \"$uts\" ] && [ \"$uts\" != \"$5\" ]\nif [ -n \"${6:-}\" ]; then\n  [ -n \"$net\" ] && [ \"$net\" != \"$6\" ]\nfi\neffective=\npermitted=\nprivileges=\nwhile read -r name value rest; do\n  case \"$name\" in\n    CapEff:) effective=$value ;;\n    CapPrm:) permitted=$value ;;\n    NoNewPrivs:) privileges=$value ;;\n  esac\ndone < /proc/self/status\n[ \"$effective\" = 0000000000000000 ]\n[ \"$permitted\" = 0000000000000000 ]\n[ \"$privileges\" = 1 ]\nread -r line < /proc/self/stat\nset -- ${line##*) }\n[ \"$4\" -gt 0 ]\noptions=$(/usr/bin/tr '\\0\\n' '\\n ' < /proc/1/cmdline)\ncase \"\n$options\n\" in\n  *\"\n--die-with-parent\n\"*) ;;\n  *) exit 1 ;;\nesac\nprintf '%s\\n' cargo-cage-namespace-preflight-ok\n";

// ---------------------------------------------------------------------------
// Versions
// ---------------------------------------------------------------------------

/// The places of the dots in a word, and its end.
pub open spec fn dot_from(s: Seq<char>, index: int) -> int
    decreases s.len() - index,
{
    if 0 <= index < s.len() && s[index] != '.' {
        dot_from(s, index + 1)
    } else {
        index
    }
}

/// The place behind the letters that may introduce a version.
pub open spec fn version_start(s: Seq<char>, index: int) -> int
    decreases s.len() - index,
{
    if 0 <= index < s.len() && (s[index] == 'v' || s[index] == 'V') {
        version_start(s, index + 1)
    } else {
        index
    }
}

/// The place behind the digits from `index` on.
pub open spec fn digits_end(s: Seq<char>, index: int) -> int
    decreases s.len() - index,
{
    if 0 <= index < s.len() && scan::is_digit(s[index]) {
        digits_end(s, index + 1)
    } else {
        index
    }
}

/// A number of a version.
pub open spec fn version_number(s: Seq<char>) -> Option<u32> {
    match scan::number(s, u32::MAX as nat) {
        Ok(value) => Some(value as u32),
        Err(_) => None,
    }
}

/// The third number of a version: what digits the part begins with, or zero.
pub open spec fn patch_number(s: Seq<char>) -> u32 {
    version_number(s.take(digits_end(s, 0))).unwrap_or(0)
}

/// The version that a word states: two numbers and, where there is one, a
/// third.
pub open spec fn word_version(word: Seq<char>) -> Option<(u32, u32, u32)> {
    let s = word.skip(version_start(word, 0));
    let first = dot_from(s, 0);
    if first >= s.len() {
        None
    } else {
        let second = dot_from(s, first + 1);
        match (version_number(s.take(first)), version_number(s.subrange(first + 1, second))) {
            (Some(major), Some(minor)) => Some(
                (
                    major,
                    minor,
                    if second < s.len() {
                        patch_number(s.subrange(second + 1, dot_from(s, second + 1)))
                    } else {
                        0
                    },
                ),
            ),
            _ => None,
        }
    }
}

/// The version that the first word from `index` on states.
pub open spec fn version_from(words: Seq<Seq<char>>, index: int) -> Option<(u32, u32, u32)>
    decreases words.len() - index,
{
    if index < 0 || index >= words.len() {
        None
    } else {
        match word_version(words[index]) {
            Some(version) => Some(version),
            None => version_from(words, index + 1),
        }
    }
}

/// The version that an output states.
pub open spec fn stated_version(output: Seq<u8>) -> Option<(u32, u32, u32)> {
    version_from(scan::words(os::shown(output)), 0)
}

fn find_dot(characters: &Vec<char>, from: usize) -> (place: usize)
    requires
        from <= characters.len(),
    ensures
        place as int == dot_from(characters@, from as int),
        from <= place <= characters.len(),
{
    let mut index: usize = from;
    while index < characters.len() && characters[index] != '.'
        invariant
            from <= index <= characters.len(),
            dot_from(characters@, from as int) == dot_from(characters@, index as int),
        decreases characters.len() - index,
    {
        index = index + 1;
    }
    index
}

fn number_between(characters: &Vec<char>, from: usize, to: usize) -> (number: Option<u32>)
    requires
        from <= to <= characters.len(),
    ensures
        number == version_number(characters@.subrange(from as int, to as int)),
{
    let part = text::text_of(characters, from, to);
    match scan::parse_number(part.as_str(), u32::MAX as u64) {
        Ok(value) => Some(value as u32),
        Err(_) => None,
    }
}

fn patch_between(characters: &Vec<char>, from: usize, to: usize) -> (number: u32)
    requires
        from <= to <= characters.len(),
    ensures
        number == patch_number(characters@.subrange(from as int, to as int)),
{
    let ghost part = characters@.subrange(from as int, to as int);
    let mut index: usize = from;
    while index < to && '0' <= characters[index] && characters[index] <= '9'
        invariant
            from <= index <= to <= characters.len(),
            part == characters@.subrange(from as int, to as int),
            digits_end(part, 0) == digits_end(part, index - from),
        decreases to - index,
    {
        assert(part[index - from] == characters[index as int]);
        index = index + 1;
    }
    assert(index < to ==> part[index - from] == characters[index as int]);
    assert(digits_end(part, 0) == index - from);
    assert(characters@.subrange(from as int, index as int) =~= part.take(index - from));
    match number_between(characters, from, index) {
        Some(number) => number,
        None => 0,
    }
}

fn parse_word(word: &str) -> (version: Option<(u32, u32, u32)>)
    ensures
        version == word_version(word@),
{
    let all = text::characters(word);
    let mut start: usize = 0;
    while start < all.len() && (all[start] == 'v' || all[start] == 'V')
        invariant
            start <= all.len(),
            version_start(all@, 0) == version_start(all@, start as int),
        decreases all.len() - start,
    {
        start = start + 1;
    }
    let rest = text::text_of(&all, start, all.len());
    let characters = text::characters(rest.as_str());
    let ghost s = word@.skip(version_start(word@, 0));
    assert(characters@ =~= s);
    let first: usize = find_dot(&characters, 0);
    if first >= characters.len() {
        return None;
    }
    let second: usize = find_dot(&characters, first + 1);
    assert(s.take(first as int) =~= s.subrange(0, first as int));
    let major: u32 = match number_between(&characters, 0, first) {
        Some(major) => major,
        None => return None,
    };
    let minor: u32 = match number_between(&characters, first + 1, second) {
        Some(minor) => minor,
        None => return None,
    };
    let patch: u32 = if second < characters.len() {
        let end = find_dot(&characters, second + 1);
        patch_between(&characters, second + 1, end)
    } else {
        0
    };
    Some((major, minor, patch))
}

/// Finds the version that the output of `bwrap --version` states.
pub fn parse_version(output: &[u8]) -> (version: Option<(u32, u32, u32)>)
    ensures
        version == stated_version(output@),
{
    let shown = os::lossy(output);
    let list = scan::split_words(shown.as_str());
    let ghost all = scan::words(os::shown(output@));
    let mut index: usize = 0;
    while index < list.len()
        invariant
            index <= list.len(),
            all == scan::strings(list@),
            stated_version(output@) == version_from(all, index as int),
        decreases list.len() - index,
    {
        assert(all[index as int] == list[index as int]@);
        if let Some(version) = parse_word(list[index].as_str()) {
            return Some(version);
        }
        index = index + 1;
    }
    None
}

/// Whether a version is no older than another.
pub open spec fn no_older(actual: (u32, u32, u32), required: (u32, u32, u32)) -> bool {
    actual.0 > required.0 || (actual.0 == required.0 && (actual.1 > required.1 || (actual.1
        == required.1 && actual.2 >= required.2)))
}

pub fn version_at_least(actual: (u32, u32, u32), required: (u32, u32, u32)) -> (yes: bool)
    ensures
        yes == no_older(actual, required),
{
    actual.0 > required.0 || (actual.0 == required.0 && (actual.1 > required.1 || (actual.1
        == required.1 && actual.2 >= required.2)))
}

/// Output behind a colon, where there is any.
pub open spec fn output_text(output: Seq<u8>) -> Seq<char> {
    let inner = scan::trimmed(os::lossy_text(output));
    if inner.len() == 0 {
        Seq::empty()
    } else {
        ": "@ + inner
    }
}

pub fn format_output(output: &[u8]) -> (text: String)
    ensures
        text@ == output_text(output@),
{
    let inner = scan::trim(os::lossy(output).as_str());
    proof {
        reveal_strlit("");
    }
    if text::same_text(inner.as_str(), "") {
        assert(""@ =~= Seq::empty());
        text::owned("")
    } else {
        assert(inner@.len() != 0) by {
            if inner@.len() == 0 {
                assert(inner@ =~= ""@);
            }
        }
        text::owned(": ").with(inner.as_str())
    }
}

// ---------------------------------------------------------------------------
// Finding Bubblewrap
// ---------------------------------------------------------------------------

/// A Bubblewrap executable as the host resolves it.
#[verifier::opaque]
pub open spec fn resolved_bwrap(file: Seq<u8>, log: Seq<Answer>, at: int) -> Course<Seq<u8>> {
    match flow::place(Query::Resolve(file), log, at) {
        Err(pause) => Err(pause),
        Ok((Err(failure), at)) => Err(
            flow::io_pause(
                "could not resolve Bubblewrap executable "@ + os::lossy_text(file),
                failure,
                at,
            ),
        ),
        Ok((Ok(canonical), at)) => match flow::entry(Query::Follow(canonical), log, at) {
            Err(pause) => Err(pause),
            Ok((reply, at)) => if reply is Ok && reply->Ok_0.kind == FileKind::File {
                Ok((canonical, at))
            } else {
                Err(
                    flow::unavailable_pause(
                        "Bubblewrap path "@ + os::lossy_text(canonical)
                            + " is not a regular file"@,
                        at,
                    ),
                )
            },
        },
    }
}

pub fn validate_bwrap_path(file: &PathText, log: &Vec<Answer>, at: usize) -> (checked: Flow<
    PathText,
>)
    ensures
        flow::course(checked) == resolved_bwrap(file@, log@, at as int),
{
    proof {
        reveal(resolved_bwrap);
    }
    let (reply, at) = flow::ask_place(Question::Resolve(file.clone()), log, at)?;
    let canonical = match reply {
        Ok(canonical) => canonical,
        Err(failure) => {
            return Err(
                flow::io_halt(
                    text::owned("could not resolve Bubblewrap executable ").with(
                        file.display().as_str(),
                    ).as_str(),
                    &failure,
                    at,
                ),
            );
        },
    };
    let (reply, at) = flow::ask_entry(Question::Follow(canonical.clone()), log, at)?;
    if let Ok(stat) = reply {
        if stat.is_file() {
            return Ok((canonical, at));
        }
    }
    Err(
        flow::unavailable_halt(
            text::owned("Bubblewrap path ").with(canonical.display().as_str()).with(
                " is not a regular file",
            ).as_str(),
            at,
        ),
    )
}

/// Whether a name leads to a regular file.
pub open spec fn file_there(file: Seq<u8>, log: Seq<Answer>, at: int) -> Course<bool> {
    match flow::entry(Query::Follow(file), log, at) {
        Err(pause) => Err(pause),
        Ok((reply, at)) => Ok((reply is Ok && reply->Ok_0.kind == FileKind::File, at)),
    }
}

fn is_file_there(file: &PathText, log: &Vec<Answer>, at: usize) -> (yes: Flow<bool>)
    ensures
        flow::course(yes) == file_there(file@, log@, at as int),
{
    let (reply, at) = flow::ask_entry(Question::Follow(file.clone()), log, at)?;
    match reply {
        Ok(stat) => Ok((stat.is_file(), at)),
        Err(_) => Ok((false, at)),
    }
}

/// Bubblewrap where the user says, or at one of its usual places.
#[verifier::opaque]
pub open spec fn found_bwrap(log: Seq<Answer>, at: int) -> Course<Seq<u8>> {
    match flow::value(Query::Variable(os::lit("CARGO_CAGE_BWRAP")), log, at) {
        Err(pause) => Err(pause),
        Ok((Some(requested), at)) => if path::absolute(requested) {
            resolved_bwrap(requested, log, at)
        } else {
            Err(flow::unavailable_pause("CARGO_CAGE_BWRAP must be an absolute path"@, at))
        },
        Ok((None, at)) => match file_there(os::lit("/usr/bin/bwrap"), log, at) {
            Err(pause) => Err(pause),
            Ok((true, at)) => resolved_bwrap(os::lit("/usr/bin/bwrap"), log, at),
            Ok((false, at)) => match file_there(os::lit("/bin/bwrap"), log, at) {
                Err(pause) => Err(pause),
                Ok((true, at)) => resolved_bwrap(os::lit("/bin/bwrap"), log, at),
                Ok((false, at)) => Err(
                    flow::unavailable_pause(
                        "Bubblewrap was not found; install the `bubblewrap` package or set CARGO_CAGE_BWRAP"@,
                        at,
                    ),
                ),
            },
        },
    }
}

pub fn find_bwrap(log: &Vec<Answer>, at: usize) -> (bwrap: Flow<PathText>)
    ensures
        flow::course(bwrap) == found_bwrap(log@, at as int),
{
    proof {
        reveal(found_bwrap);
    }
    let (requested, at) = flow::ask_value(
        Question::Variable(OsText::new("CARGO_CAGE_BWRAP")),
        log,
        at,
    )?;
    if let Some(requested) = requested {
        if !requested.is_absolute() {
            return Err(
                flow::unavailable_halt("CARGO_CAGE_BWRAP must be an absolute path", at),
            );
        }
        return validate_bwrap_path(&requested, log, at);
    }
    let first = OsText::new("/usr/bin/bwrap");
    let (yes, at) = is_file_there(&first, log, at)?;
    if yes {
        return validate_bwrap_path(&first, log, at);
    }
    let second = OsText::new("/bin/bwrap");
    let (yes, at) = is_file_there(&second, log, at)?;
    if yes {
        return validate_bwrap_path(&second, log, at);
    }
    Err(
        flow::unavailable_halt(
            "Bubblewrap was not found; install the `bubblewrap` package or set CARGO_CAGE_BWRAP",
            at,
        ),
    )
}

/// A version number.
#[derive(Clone, Copy, Debug, PartialEq, Eq, Structural)]
pub struct Version {
    pub major: u32,
    pub minor: u32,
    pub patch: u32,
}

impl Model for Version {
    type M = (u32, u32, u32);

    open spec fn model(&self) -> (u32, u32, u32) {
        (self.major, self.minor, self.patch)
    }
}

/// The command that asks Bubblewrap for its version.
pub open spec fn version_tool(bwrap: Seq<u8>) -> Tool {
    Tool {
        program: bwrap,
        args: seq![os::lit("--version")],
        inherit: true,
        environment: Seq::empty(),
        current_dir: None,
    }
}

/// The version that Bubblewrap states.
#[verifier::opaque]
pub open spec fn asked_version(bwrap: Seq<u8>, log: Seq<Answer>, at: int) -> Course<
    (u32, u32, u32),
> {
    match flow::output(Query::RunTool(version_tool(bwrap)), log, at) {
        Err(pause) => Err(pause),
        Ok((Err(failure), at)) => flow::fail(
            Fault::ProcessSpawn { program: bwrap, source: failure },
            at,
        ),
        Ok((Ok(said), at)) => if said.status.code != Some(0i32) {
            Err(
                flow::unavailable_pause(
                    os::lossy_text(bwrap) + " --version failed with "@ + error::code_text(
                        said.status.code,
                    ),
                    at,
                ),
            )
        } else {
            match stated_version(said.stdout) {
                Some(version) => Ok((version, at)),
                None => Err(
                    flow::unavailable_pause(
                        "could not parse Bubblewrap version from "@ + scan::trimmed(
                            os::lossy_text(said.stdout),
                        ),
                        at,
                    ),
                ),
            }
        },
    }
}

pub fn bwrap_version(bwrap: &PathText, log: &Vec<Answer>, at: usize) -> (version: Flow<Version>)
    ensures
        flow::course(version) == asked_version(bwrap@, log@, at as int),
{
    proof {
        reveal(asked_version);
    }
    let mut args: Vec<OsText> = Vec::new();
    os::push_lit(&mut args, "--version");
    let environment: Vec<(OsText, OsText)> = Vec::new();
    let command = ToolCommand {
        program: bwrap.clone(),
        args,
        inherit: true,
        environment,
        current_dir: None,
    };
    proof {
        assert(os::texts(args@) =~= seq![os::lit("--version")]);
        assert(os::pairs(environment@) =~= Seq::empty());
    }
    let (reply, at) = flow::ask_output(Question::RunTool(command), log, at)?;
    let output = match reply {
        Ok(output) => output,
        Err(failure) => {
            return Err(
                Halt::Fail(CageError::ProcessSpawn { program: bwrap.clone(), source: failure }, at),
            );
        },
    };
    if !output.status.successfully_exited() {
        return Err(
            flow::unavailable_halt(
                bwrap.display().with(" --version failed with ").with(
                    error::show_code(output.status.code).as_str(),
                ).as_str(),
                at,
            ),
        );
    }
    match parse_version(output.stdout.as_slice()) {
        Some((major, minor, patch)) => Ok((Version { major, minor, patch }, at)),
        None => Err(
            flow::unavailable_halt(
                text::owned("could not parse Bubblewrap version from ").with(
                    scan::trim(os::lossy(output.stdout.as_slice()).as_str()).as_str(),
                ).as_str(),
                at,
            ),
        ),
    }
}

/// The Bubblewrap backend.
#[derive(Debug)]
pub struct LinuxSandbox {
    pub bwrap: PathText,
    pub launcher: PathText,
}

/// What a `LinuxSandbox` runs.
pub struct Backend {
    pub bwrap: Seq<u8>,
    pub launcher: Seq<u8>,
}

impl View for LinuxSandbox {
    type V = Backend;

    open spec fn view(&self) -> Backend {
        Backend { bwrap: self.bwrap@, launcher: self.launcher@ }
    }
}

impl Model for LinuxSandbox {
    type M = Backend;

    open spec fn model(&self) -> Backend {
        self@
    }
}

/// A backend with a launcher: Bubblewrap must be there and recent enough.
#[verifier::opaque]
pub open spec fn backend_with(launcher: Seq<u8>, log: Seq<Answer>, at: int) -> Course<Backend> {
    match found_bwrap(log, at) {
        Err(pause) => Err(pause),
        Ok((bwrap, at)) => match asked_version(bwrap, log, at) {
            Err(pause) => Err(pause),
            Ok((version, at)) => if no_older(version, (MIN_BWRAP_MAJOR, MIN_BWRAP_MINOR, 0)) {
                Ok((Backend { bwrap, launcher }, at))
            } else {
                Err(
                    flow::unavailable_pause(
                        os::lossy_text(bwrap)
                            + " is too old; Bubblewrap >= 0.12.0 is required"@,
                        at,
                    ),
                )
            },
        },
    }
}

/// The launcher installed next to an executable.
pub open spec fn launcher_beside(executable: Seq<u8>) -> Seq<u8> {
    match path::parent(executable) {
        Some(directory) => path::join(directory, os::lit(LAUNCHER_NAME)),
        None => os::lit(LAUNCHER_NAME),
    }
}

/// A backend with the launcher installed next to this program.
#[verifier::opaque]
pub open spec fn backend(log: Seq<Answer>, at: int) -> Course<Backend> {
    match flow::place(Query::CurrentExecutable, log, at) {
        Err(pause) => Err(pause),
        Ok((Err(failure), at)) => Err(
            flow::io_pause("could not locate the cargo-cage executable"@, failure, at),
        ),
        Ok((Ok(executable), at)) => backend_with(launcher_beside(executable), log, at),
    }
}

impl LinuxSandbox {
    /// Finds and checks Bubblewrap; the launcher is the one installed next to
    /// this program.
    pub fn new(log: &Vec<Answer>, at: usize) -> (made: Flow<LinuxSandbox>)
        ensures
            flow::course(made) == backend(log@, at as int),
    {
        proof {
            reveal(backend);
        }
        let (reply, at) = flow::ask_place(Question::CurrentExecutable, log, at)?;
        let executable = match reply {
            Ok(executable) => executable,
            Err(failure) => {
                return Err(
                    flow::io_halt("could not locate the cargo-cage executable", &failure, at),
                );
            },
        };
        let launcher = match executable.parent() {
            Some(directory) => directory.join_text(LAUNCHER_NAME),
            None => OsText::new(LAUNCHER_NAME),
        };
        Self::with_launcher(&launcher, log, at)
    }

    /// Finds and checks Bubblewrap.
    pub fn with_launcher(launcher: &PathText, log: &Vec<Answer>, at: usize) -> (made: Flow<
        LinuxSandbox,
    >)
        ensures
            flow::course(made) == backend_with(launcher@, log@, at as int),
    {
        proof {
            reveal(backend_with);
        }
        let (bwrap, at) = find_bwrap(log, at)?;
        let (version, at) = bwrap_version(&bwrap, log, at)?;
        if !version_at_least(
            (version.major, version.minor, version.patch),
            (MIN_BWRAP_MAJOR, MIN_BWRAP_MINOR, 0),
        ) {
            return Err(
                flow::unavailable_halt(
                    bwrap.display().with(
                        " is too old; Bubblewrap >= 0.12.0 is required",
                    ).as_str(),
                    at,
                ),
            );
        }
        Ok((LinuxSandbox { bwrap, launcher: launcher.clone() }, at))
    }
}

// ---------------------------------------------------------------------------
// The preflight
// ---------------------------------------------------------------------------

/// The kinds of namespace that a preflight compares.
pub open spec fn namespace_names() -> Seq<Seq<char>> {
    seq!["mnt"@, "user"@, "pid"@, "ipc"@, "uts"@, "net"@]
}

/// A namespace of this process.
pub open spec fn namespace_marker(name: Seq<char>, log: Seq<Answer>, at: int) -> Course<Seq<u8>> {
    match flow::place(Query::ReadLink(encode_utf8("/proc/self/ns/"@ + name)), log, at) {
        Err(pause) => Err(pause),
        Ok((Ok(marker), at)) => Ok((encode_utf8(os::lossy_text(marker)), at)),
        Ok((Err(failure), at)) => Err(
            flow::io_pause(
                "could not inspect the parent "@ + name + " namespace"@,
                failure,
                at,
            ),
        ),
    }
}

/// The namespaces of this process from `index` on.
pub open spec fn markers_from(index: int, done: Seq<Seq<u8>>, log: Seq<Answer>, at: int) -> Course<
    Seq<Seq<u8>>,
>
    decreases namespace_names().len() - index,
{
    if index < 0 || index >= namespace_names().len() {
        Ok((done, at))
    } else {
        match namespace_marker(namespace_names()[index], log, at) {
            Err(pause) => Err(pause),
            Ok((marker, at)) => markers_from(index + 1, done.push(marker), log, at),
        }
    }
}

fn read_marker(name: &str, log: &Vec<Answer>, at: usize) -> (marker: Flow<OsText>)
    ensures
        flow::course(marker) == namespace_marker(name@, log@, at as int),
{
    let link = OsText::new(text::owned("/proc/self/ns/").with(name).as_str());
    let (reply, at) = flow::ask_place(Question::ReadLink(link), log, at)?;
    match reply {
        Ok(marker) => Ok((OsText::new(marker.display().as_str()), at)),
        Err(failure) => Err(
            flow::io_halt(
                text::owned("could not inspect the parent ").with(name).with(
                    " namespace",
                ).as_str(),
                &failure,
                at,
            ),
        ),
    }
}

/// Reads the namespaces of this process.
pub fn parent_namespace_markers(log: &Vec<Answer>, at: usize) -> (markers: Flow<Vec<OsText>>)
    ensures
        flow::course(markers) == markers_from(0, Seq::empty(), log@, at as int),
{
    let names: [&str; 6] = ["mnt", "user", "pid", "ipc", "uts", "net"];
    let ghost all = namespace_names();
    let ghost start = at as int;
    proof {
        let list = names@;
        assert(list[0]@ == all[0] && list[1]@ == all[1] && list[2]@ == all[2]);
        assert(list[3]@ == all[3] && list[4]@ == all[4] && list[5]@ == all[5]);
        assert(forall|i: int| 0 <= i < 6 ==> (#[trigger] names@[i])@ == all[i]);
    }
    let mut markers: Vec<OsText> = Vec::new();
    let mut used: usize = at;
    let mut index: usize = 0;
    assert(os::texts(markers@) =~= Seq::empty());
    while index < 6
        invariant
            index <= 6,
            all == namespace_names(),
            start == at,
            forall|i: int| 0 <= i < 6 ==> (#[trigger] names@[i])@ == all[i],
            markers_from(0, Seq::empty(), log@, start) == markers_from(
                index as int,
                os::texts(markers@),
                log@,
                used as int,
            ),
        decreases 6 - index,
    {
        let (marker, next) = read_marker(names[index], log, used)?;
        os::push_text(&mut markers, &marker);
        used = next;
        index = index + 1;
    }
    Ok((markers, used))
}

/// The arguments of the preflight shell. An allowed network is not compared.
pub open spec fn preflight_args(markers: Seq<Seq<u8>>, network: NetworkAccess) -> Seq<Seq<u8>> {
    seq![
        os::lit("-c"),
        os::lit(NAMESPACE_PREFLIGHT),
        os::lit("cargo-cage-namespace-preflight"),
    ] + if network == NetworkAccess::Allow && markers.len() > 5 {
        markers.update(5, Seq::empty())
    } else {
        markers
    }
}

fn build_preflight_args(markers: &Vec<OsText>, network: NetworkAccess) -> (args: Vec<OsText>)
    ensures
        os::texts(args@) == preflight_args(os::texts(markers@), network),
{
    let mut args: Vec<OsText> = Vec::new();
    os::push_lit(&mut args, "-c");
    os::push_lit(&mut args, NAMESPACE_PREFLIGHT);
    os::push_lit(&mut args, "cargo-cage-namespace-preflight");
    let ghost head = os::texts(args@);
    let ghost kept = if network == NetworkAccess::Allow && markers.len() > 5 {
        os::texts(markers@).update(5, Seq::empty())
    } else {
        os::texts(markers@)
    };
    let mut index: usize = 0;
    assert(os::texts(args@) =~= head + kept.take(0));
    while index < markers.len()
        invariant
            index <= markers.len(),
            kept == (if network == NetworkAccess::Allow && markers.len() > 5 {
                os::texts(markers@).update(5, Seq::empty())
            } else {
                os::texts(markers@)
            }),
            os::texts(args@) == head + kept.take(index as int),
        decreases markers.len() - index,
    {
        if index == 5 && network == NetworkAccess::Allow {
            let nothing = OsText { bytes: Vec::new() };
            assert(nothing@ =~= Seq::empty());
            os::push_text(&mut args, &nothing);
        } else {
            os::push_text(&mut args, &markers[index]);
        }
        index = index + 1;
        assert(os::texts(args@) =~= head + kept.take(index as int));
    }
    assert(os::texts(args@) =~= preflight_args(os::texts(markers@), network));
    args
}

/// Whether a preflight found nothing missing.
pub open spec fn preflight_passed(said: Said) -> bool {
    said.status.code == Some(0i32) && said.stdout == os::lit(NAMESPACE_PREFLIGHT_OUTPUT)
}

/// What a failed preflight says.
pub open spec fn preflight_fault(said: Said) -> Fault {
    Fault::SandboxSetup {
        subject: "Bubblewrap"@,
        rule:
            "Bubblewrap must activate the requested policy and complete its namespace preflight"@,
        remedy: "enable unprivileged user namespaces and a supported Bubblewrap, then retry"@,
        detail: "Bubblewrap could not activate the requested policy or complete its namespace preflight"@
            + output_text(said.stderr),
    }
}

/// Refuses a sandbox whose preflight failed.
pub fn check_preflight(outcome: &SandboxOutcome) -> (error: Option<CageError>)
    ensures
        match error {
            None => preflight_passed(outcome.model()),
            Some(error) => !preflight_passed(outcome.model()) && error@ == preflight_fault(
                outcome.model(),
            ),
        },
{
    let expected = OsText::new(NAMESPACE_PREFLIGHT_OUTPUT);
    if outcome.status.successfully_exited() && text::same_bytes(
        outcome.stdout.as_slice(),
        expected.bytes.as_slice(),
    ) {
        return None;
    }
    Some(
        CageError::sandbox_setup(
            "Bubblewrap",
            "Bubblewrap must activate the requested policy and complete its namespace preflight",
            "enable unprivileged user namespaces and a supported Bubblewrap, then retry",
            text::owned(
                "Bubblewrap could not activate the requested policy or complete its namespace preflight",
            ).with(format_output(outcome.stderr.as_slice()).as_str()).as_str(),
        ),
    )
}

// ---------------------------------------------------------------------------
// Running
// ---------------------------------------------------------------------------

/// A child watched in the way its output asks for.
#[verifier::opaque]
pub open spec fn followed(
    child: u32,
    group: Group,
    output: OutputMode,
    log: Seq<Answer>,
    at: int,
) -> Course<CapturedRun> {
    match output {
        OutputMode::Capture => capture::capturing(
            child,
            group.path,
            group.limits.max_wall_time,
            log,
            at,
        ),
        OutputMode::Inherit => match capture::watched(
            child,
            group.path,
            group.limits.max_wall_time,
            log,
            at,
        ) {
            Err(pause) => Err(pause),
            Ok((ended, at)) => Ok(
                (
                    CapturedRun {
                        exit: ended.exit,
                        stdout: Seq::empty(),
                        stderr: Seq::empty(),
                        expired: ended.expired,
                    },
                    at,
                ),
            ),
        },
    }
}

fn follow(
    child: u32,
    group: &ResourceGroup,
    output: OutputMode,
    log: &Vec<Answer>,
    at: usize,
) -> (run: Flow<CapturedOutput>)
    ensures
        flow::course(run) == followed(child, group@, output, log@, at as int),
{
    proof {
        reveal(followed);
    }
    match output {
        OutputMode::Capture => capture::capture_child_output(
            child,
            group,
            group.limits.max_wall_time,
            log,
            at,
        ),
        OutputMode::Inherit => {
            let (ended, at) = capture::wait_for_child(
                child,
                group,
                group.limits.max_wall_time,
                log,
                at,
            )?;
            let run = CapturedOutput {
                exit: ended.exit,
                stdout: Vec::new(),
                stderr: Vec::new(),
                expired: ended.expired,
            };
            assert(run.stdout@ =~= Seq::empty());
            Ok((run, at))
        },
    }
}

/// A command run in a group, and the group as it is then: this process enters
/// it, takes over the limits, starts the command and leaves again.
#[verifier::opaque]
pub open spec fn staged(
    group: Group,
    command: Child,
    log: Seq<Answer>,
    at: int,
) -> (Group, Course<CapturedRun>) {
    match cgroup::process_moved(
        path::join(group.path, os::lit("cgroup.procs")),
        "enter the resource cgroup"@,
        log,
        at,
    ) {
        Err(pause) => (group, Err(pause)),
        Ok((_, at)) => {
            let inside = Group { entered: true, ..group };
            match cgroup::inherited(inside.limits, log, at) {
                Err(pause) => (
                    Group { limits: cgroup::limits_so_far(inside.limits, log, at), ..inside },
                    Err(pause),
                ),
                Ok((limits, at)) => {
                    let limited = Group { limits, ..inside };
                    match flow::spawned(Query::Spawn(command), log, at) {
                        Err(pause) => (limited, Err(pause)),
                        Ok((Err(failure), at)) => (
                            limited,
                            flow::fail(
                                Fault::ProcessSpawn { program: command.program, source: failure },
                                at,
                            ),
                        ),
                        Ok((Ok(child), at)) => match cgroup::process_moved(
                            path::join(limited.restore, os::lit("cgroup.procs")),
                            "restore the cargo-cage supervisor"@,
                            log,
                            at,
                        ) {
                            Err(pause) => (limited, Err(pause)),
                            Ok((_, at)) => {
                                let outside = Group { entered: false, ..limited };
                                (outside, followed(child, outside, command.output, log, at))
                            },
                        },
                    }
                },
            }
        },
    }
}

fn stage(group: &mut ResourceGroup, command: ChildCommand, log: &Vec<Answer>, at: usize) -> (run:
    Flow<CapturedOutput>)
    ensures
        staged(old(group)@, command@, log@, at as int) == (final(group)@, flow::course(run)),
{
    proof {
        reveal(staged);
    }
    let program = command.program.clone();
    let output = command.output;
    let (_, at) = group.enter_current_process(log, at)?;
    let (_, at) = group.apply_inherited_limits(log, at)?;
    let (reply, at) = flow::ask_spawned(Question::Spawn(command), log, at)?;
    let child: u32 = match reply {
        Ok(child) => child,
        Err(failure) => {
            return Err(Halt::Fail(CageError::ProcessSpawn { program, source: failure }, at));
        },
    };
    let (_, at) = group.restore_current_process(log, at)?;
    follow(child, group, output, log, at)
}

/// A failure after which a group is given up.
pub open spec fn given_up<M>(group: Group, fault: Fault, log: Seq<Answer>, at: int) -> Course<M> {
    match cgroup::discarded(group, log, at) {
        Err(pause) => Err(pause),
        Ok((_, at)) => flow::fail(fault, at),
    }
}

fn give_up(group: ResourceGroup, error: CageError, log: &Vec<Answer>, at: usize) -> (halt: Halt)
    ensures
        Err::<(Said, int), Pause>(halt@) == given_up::<Said>(group@, error@, log@, at as int),
{
    match group.discard(log, at) {
        Ok((_, at)) => Halt::Fail(error, at),
        Err(halt) => halt,
    }
}

/// What a run came to, once its group is over: a limit that was exceeded is
/// reported in place of its output.
#[verifier::opaque]
pub open spec fn reported(group: Group, run: CapturedRun, log: Seq<Answer>, at: int) -> Course<
    Said,
> {
    match cgroup::finished(group, log, at) {
        Err(Pause::Ask(query)) => Err(Pause::Ask(query)),
        Err(Pause::Fail(fault, at)) => given_up(group, fault, log, at),
        Ok((report, at)) => match report.fault(run.exit, run.expired) {
            Some(fault) => flow::fail(fault, at),
            None => Ok(
                (
                    Said {
                        status: ProcessStatus { code: run.exit.code },
                        stdout: run.stdout,
                        stderr: run.stderr,
                    },
                    at,
                ),
            ),
        },
    }
}

fn report(group: ResourceGroup, run: CapturedOutput, log: &Vec<Answer>, at: usize) -> (outcome:
    Flow<SandboxOutcome>)
    requires
        !group@.entered,
    ensures
        flow::course(outcome) == reported(group@, run.model(), log@, at as int),
{
    proof {
        reveal(reported);
    }
    let copy = group.clone();
    let (report, at) = match group.finish(log, at) {
        Ok(done) => done,
        Err(Halt::Ask(question)) => return Err(Halt::Ask(question)),
        Err(Halt::Fail(error, at)) => return Err(give_up(copy, error, log, at)),
    };
    match report.resource_error(&run.exit, run.expired) {
        Some(error) => Err(Halt::Fail(error, at)),
        None => Ok(
            (
                SandboxOutcome {
                    status: ProcessStatus { code: run.exit.code },
                    stdout: run.stdout,
                    stderr: run.stderr,
                },
                at,
            ),
        ),
    }
}

/// The process that a sandboxed command starts with.
pub open spec fn bwrap_child(
    backend: Backend,
    layout: Layout,
    job: Job,
    words: Seq<Seq<u8>>,
    output: OutputMode,
) -> Child {
    Child {
        program: backend.bwrap,
        args: words,
        set: job.environment.set,
        remove: job.environment.remove + job.policy.remove_environment,
        current_dir: layout.current_dir,
        output,
    }
}

/// A command run in a group of its own.
#[verifier::opaque]
pub open spec fn grouped(
    command: Child,
    layout: Layout,
    log: Seq<Answer>,
    at: int,
) -> Course<Said> {
    match cgroup::prepared(layout.resources, log, at) {
        Err(pause) => Err(pause),
        Ok((group, at)) => match staged(group, command, log, at) {
            (_, Err(Pause::Ask(query))) => Err(Pause::Ask(query)),
            (group, Err(Pause::Fail(fault, at))) => given_up(group, fault, log, at),
            (group, Ok((run, at))) => reported(group, run, log, at),
        },
    }
}

fn run_grouped(command: ChildCommand, plan: &SandboxPlan, log: &Vec<Answer>, at: usize) -> (outcome:
    Flow<SandboxOutcome>)
    ensures
        flow::course(outcome) == grouped(command@, plan@, log@, at as int),
{
    proof {
        reveal(grouped);
    }
    let (group, at) = ResourceGroup::prepare(&plan.resources, log, at)?;
    let mut group = group;
    let (run, at) = match stage(&mut group, command, log, at) {
        Ok(done) => done,
        Err(Halt::Ask(question)) => return Err(Halt::Ask(question)),
        Err(Halt::Fail(error, at)) => return Err(give_up(group, error, log, at)),
    };
    proof {
        reveal(staged);
    }
    report(group, run, log, at)
}

/// A program run in the sandbox that a layout describes.
#[verifier::opaque]
pub open spec fn confined_run(
    backend: Backend,
    layout: Layout,
    job: Job,
    program: Seq<u8>,
    args: Seq<Seq<u8>>,
    output: OutputMode,
    log: Seq<Answer>,
    at: int,
) -> Course<Said> {
    match mounts::prepared_mounts(layout, backend.launcher, log, at) {
        Err(pause) => Err(pause),
        Ok((opened, at)) => match mounts::marker(log, at) {
            Err(pause) => Err(pause),
            Ok((descriptor, at)) => match bwrap::mounted_args(
                layout,
                opened,
                program,
                args,
                Some(descriptor),
            ) {
                Err(fault) => flow::fail(fault, at),
                Ok(words) => grouped(
                    bwrap_child(backend, layout, job, words, output),
                    layout,
                    log,
                    at,
                ),
            },
        },
    }
}

/// A request: planned, its trees checked, its sandbox tried out, and only then
/// run.
#[verifier::opaque]
pub open spec fn sandboxed_run(backend: Backend, job: Job, log: Seq<Answer>, at: int) -> Course<
    Said,
> {
    match plan::planned(job, log, at) {
        Err(pause) => Err(pause),
        Ok((layout, at)) => match tree::sound_from(
            tree::plan_trees(layout),
            layout.writable_paths,
            0,
            log,
            at,
        ) {
            Err(pause) => Err(pause),
            Ok((_, at)) => match markers_from(0, Seq::empty(), log, at) {
                Err(pause) => Err(pause),
                Ok((markers, at)) => match confined_run(
                    backend,
                    layout,
                    job,
                    os::lit("/bin/sh"),
                    preflight_args(markers, layout.network),
                    OutputMode::Capture,
                    log,
                    at,
                ) {
                    Err(pause) => Err(pause),
                    Ok((said, at)) => if preflight_passed(said) {
                        confined_run(
                            backend,
                            layout,
                            job,
                            job.program,
                            job.args,
                            job.output,
                            log,
                            at,
                        )
                    } else {
                        flow::fail(preflight_fault(said), at)
                    },
                },
            },
        },
    }
}

impl LinuxSandbox {
    fn run_inner(
        &self,
        request: &SandboxRequest,
        plan: &SandboxPlan,
        program: &PathText,
        args: &Vec<OsText>,
        output: OutputMode,
        log: &Vec<Answer>,
        at: usize,
    ) -> (outcome: Flow<SandboxOutcome>)
        requires
            mounts::caches_named(plan@.cargo_cache_paths),
        ensures
            flow::course(outcome) == confined_run(
                self@,
                plan@,
                request@,
                program@,
                os::texts(args@),
                output,
                log@,
                at as int,
            ),
    {
        proof {
            reveal(confined_run);
        }
        let ghost start = at as int;
        let (opened, at) = PreparedMounts::open(plan, &self.launcher, log, at)?;
        proof {
            mounts::opened_mounts_are_complete(plan@, self.launcher@, log@, start);
        }
        let (context, at) = LauncherContext::new(log, at)?;
        let words = match bwrap::build_bwrap_args_with_mounts(
            plan,
            &opened.arguments,
            program,
            args,
            Some(context.raw_fd()),
        ) {
            Ok(words) => words,
            Err(error) => return Err(Halt::Fail(error, at)),
        };
        let mut remove: Vec<OsText> = os::copy_texts(&request.environment.remove);
        os::push_texts(&mut remove, &request.policy.remove_environment);
        let command = ChildCommand {
            program: self.bwrap.clone(),
            args: words,
            set: os::copy_pairs(&request.environment.set),
            remove,
            current_dir: plan.current_dir.clone(),
            output,
        };
        run_grouped(command, plan, log, at)
    }

    /// Runs a request in the sandbox, after a preflight of the same sandbox.
    pub fn run(&self, request: &SandboxRequest, log: &Vec<Answer>, at: usize) -> (outcome: Flow<
        SandboxOutcome,
    >)
        ensures
            flow::course(outcome) == sandboxed_run(self@, request@, log@, at as int),
    {
        proof {
            reveal(sandboxed_run);
        }
        let ghost start = at as int;
        let (plan, at) = SandboxPlan::from_request(request, log, at)?;
        proof {
            mounts::planned_caches_have_names(request@, log@, start);
        }
        let (_, at) = tree::validate_trees(&plan, log, at)?;
        let (markers, at) = parent_namespace_markers(log, at)?;
        let args = build_preflight_args(&markers, plan.network);
        let (preflight, at) = self.run_inner(
            request,
            &plan,
            &OsText::new("/bin/sh"),
            &args,
            OutputMode::Capture,
            log,
            at,
        )?;
        if let Some(error) = check_preflight(&preflight) {
            return Err(Halt::Fail(error, at));
        }
        self.run_inner(
            request,
            &plan,
            &request.program,
            &request.args,
            request.output,
            log,
            at,
        )
    }
}

// ---------------------------------------------------------------------------
// Laws
// ---------------------------------------------------------------------------

/// A backend exists only where Bubblewrap states a version that is recent
/// enough.
pub proof fn old_versions_are_refused(launcher: Seq<u8>, log: Seq<Answer>, at: int)
    requires
        backend_with(launcher, log, at) is Ok,
    ensures
        found_bwrap(log, at) is Ok,
        ({
            let (bwrap, next) = found_bwrap(log, at)->Ok_0;
            &&& asked_version(bwrap, log, next) is Ok
            &&& no_older(asked_version(bwrap, log, next)->Ok_0.0, (0, 12, 0))
            &&& backend_with(launcher, log, at)->Ok_0.0 == (Backend { bwrap, launcher })
        }),
{
    reveal(backend_with);
}

/// Versions are compared number by number, the first one first.
pub proof fn versions_are_ordered(
    left: (u32, u32, u32),
    middle: (u32, u32, u32),
    right: (u32, u32, u32),
)
    ensures
        no_older(left, left),
        no_older(left, right) || no_older(right, left),
        no_older(left, right) && no_older(right, left) ==> left == right,
        no_older(left, middle) && no_older(middle, right) ==> no_older(left, right),
{
}

/// Whatever the host answers, a request goes as far as its first failure: in
/// the plan, in the trees, in the namespaces of the parent or in a preflight in
/// a sandbox of the same layout. Only behind a preflight that passed is the
/// program itself run.
pub proof fn requests_run_only_after_a_preflight(
    backend: Backend,
    job: Job,
    log: Seq<Answer>,
    at: int,
)
    ensures
        plan::planned(job, log, at) matches Err(pause) ==> sandboxed_run(backend, job, log, at)
            == Err::<(Said, int), Pause>(pause),
        plan::planned(job, log, at) matches Ok((layout, planned)) ==> {
            let whole = sandboxed_run(backend, job, log, at);
            let sound = tree::sound_from(
                tree::plan_trees(layout),
                layout.writable_paths,
                0,
                log,
                planned,
            );
            let markers = markers_from(0, Seq::empty(), log, sound->Ok_0.1);
            let preflight = confined_run(
                backend,
                layout,
                job,
                os::lit("/bin/sh"),
                preflight_args(markers->Ok_0.0, layout.network),
                OutputMode::Capture,
                log,
                markers->Ok_0.1,
            );
            if sound is Err {
                whole == Err::<(Said, int), Pause>(sound->Err_0)
            } else if markers is Err {
                whole == Err::<(Said, int), Pause>(markers->Err_0)
            } else if preflight is Err {
                whole == Err::<(Said, int), Pause>(preflight->Err_0)
            } else if !preflight_passed(preflight->Ok_0.0) {
                whole == Err::<(Said, int), Pause>(
                    Pause::Fail(preflight_fault(preflight->Ok_0.0), preflight->Ok_0.1),
                )
            } else {
                whole == confined_run(
                    backend,
                    layout,
                    job,
                    job.program,
                    job.args,
                    job.output,
                    log,
                    preflight->Ok_0.1,
                )
            }
        },
{
    reveal(sandboxed_run);
}

} // verus!

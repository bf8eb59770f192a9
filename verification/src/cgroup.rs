//! The control group that a sandbox runs in: found, created, configured,
//! watched and removed.

use crate::budget;
use crate::budget::{
    EffectiveResourceLimits, EventCounters, ResourceReport, CPU_PERIOD_MICROS, MIN_MEMORY_BYTES,
};
use crate::error::{CageError, Fault, IoFailure, IoFault, IoKind};
use crate::flow;
use crate::flow::{
    Answer, Course, FileKind, Flow, Halt, LimitedResource, Model, Pause, Query, Question, Timer,
};
use crate::os;
use crate::os::{OsText, PathText};
use crate::path;
use crate::policy::{ResourceLimits, TimeSpan};
use crate::scan;
use crate::text;
use crate::text::Compose;
use crate::walk;
use vstd::prelude::*;
use vstd::string::*;
use vstd::utf8::*;

verus! {

/// How long all processes of a group may take to die, in nanoseconds.
pub const CLEANUP_TIMEOUT: u128 = 2000000000;

/// The pause between two looks at a group, in milliseconds.
pub const CLEANUP_PAUSE: u64 = 10;

/// How many names are tried for a group.
pub const NAME_ATTEMPTS: u64 = 32;

// ---------------------------------------------------------------------------
// Control files
// ---------------------------------------------------------------------------

/// The text of a control file.
pub open spec fn control_text(file: Seq<u8>, log: Seq<Answer>, at: int) -> Course<Seq<char>> {
    match flow::content(Query::ReadText(file), log, at) {
        Err(pause) => Err(pause),
        Ok((Ok(content), at)) => Ok((content, at)),
        Ok((Err(failure), at)) => Err(
            flow::setup_pause(
                os::lossy_text(file),
                "the cgroup control file must be readable"@,
                "enable a working delegated cgroup v2 hierarchy"@,
                failure.message,
                at,
            ),
        ),
    }
}

fn read_text(file: &PathText, log: &Vec<Answer>, at: usize) -> (content: Flow<String>)
    ensures
        flow::course(content) == control_text(file@, log@, at as int),
        content is Ok ==> content->Ok_0.1 == at + 1 <= log.len(),
{
    let (reply, at) = flow::ask_content(Question::ReadText(file.clone()), log, at)?;
    match reply {
        Ok(content) => Ok((content, at)),
        Err(failure) => Err(
            flow::setup_halt(
                file.display().as_str(),
                "the cgroup control file must be readable",
                "enable a working delegated cgroup v2 hierarchy",
                failure.message.as_str(),
                at,
            ),
        ),
    }
}

/// Whether a name leads to anything.
pub open spec fn present(file: Seq<u8>, log: Seq<Answer>, at: int) -> Course<bool> {
    match flow::entry(Query::Follow(file), log, at) {
        Err(pause) => Err(pause),
        Ok((reply, at)) => Ok((reply is Ok, at)),
    }
}

fn is_present(file: &PathText, log: &Vec<Answer>, at: usize) -> (found: Flow<bool>)
    ensures
        flow::course(found) == present(file@, log@, at as int),
{
    let (reply, at) = flow::ask_entry(Question::Follow(file.clone()), log, at)?;
    match reply {
        Ok(_) => Ok((true, at)),
        Err(_) => Ok((false, at)),
    }
}

/// Whether every line is blank.
pub open spec fn blank(lines: Seq<Seq<char>>) -> bool {
    forall|i: int| 0 <= i < lines.len() ==> scan::trimmed(#[trigger] lines[i]).len() == 0
}

fn is_blank(content: &str) -> (yes: bool)
    ensures
        yes == blank(scan::lines(content@)),
{
    let list = scan::split_lines(content);
    let ghost all = scan::lines(content@);
    let mut index: usize = 0;
    proof {
        reveal_strlit("");
    }
    while index < list.len()
        invariant
            index <= list.len(),
            all == scan::strings(list@),
            all == scan::lines(content@),
            ""@.len() == 0,
            forall|i: int| 0 <= i < index ==> scan::trimmed(#[trigger] all[i]).len() == 0,
        decreases list.len() - index,
    {
        assert(all[index as int] == list[index as int]@);
        let inner = scan::trim(list[index].as_str());
        if !text::same_text(inner.as_str(), "") {
            assert(inner@.len() != 0) by {
                if inner@.len() == 0 {
                    assert(inner@ =~= ""@);
                }
            }
            return false;
        }
        index = index + 1;
    }
    true
}

/// Whether a group has no processes.
pub open spec fn empty_group(group: Seq<u8>, log: Seq<Answer>, at: int) -> Course<bool> {
    match control_text(path::join(group, os::lit("cgroup.procs")), log, at) {
        Err(pause) => Err(pause),
        Ok((content, at)) => Ok((blank(scan::lines(content)), at)),
    }
}

pub fn cgroup_is_empty(group: &PathText, log: &Vec<Answer>, at: usize) -> (empty: Flow<bool>)
    ensures
        flow::course(empty) == empty_group(group@, log@, at as int),
        empty is Ok ==> empty->Ok_0.1 == at + 1 <= log.len(),
{
    let (content, at) = read_text(&group.join_text("cgroup.procs"), log, at)?;
    Ok((is_blank(content.as_str()), at))
}

/// The counters in the event files of a group.
pub open spec fn counters(memory: Seq<char>, pids: Seq<char>, group: Seq<u8>) -> Result<
    EventCounters,
    IoFault,
> {
    let memory_file = path::join(group, os::lit("memory.events"));
    let pids_file = path::join(group, os::lit("pids.events"));
    match budget::counter(memory, "max"@, memory_file) {
        Err(fault) => Err(fault),
        Ok(memory_max) => match budget::counter(memory, "oom_kill"@, memory_file) {
            Err(fault) => Err(fault),
            Ok(memory_oom_kill) => match budget::counter(pids, "max"@, pids_file) {
                Err(fault) => Err(fault),
                Ok(pids_max) => Ok(
                    EventCounters {
                        memory_max: memory_max as u64,
                        memory_oom_kill: memory_oom_kill as u64,
                        pids_max: pids_max as u64,
                    },
                ),
            },
        },
    }
}

/// The event counters of a group, or why they cannot be had.
pub open spec fn events(group: Seq<u8>, log: Seq<Answer>, at: int) -> Course<
    Result<EventCounters, IoFault>,
> {
    match flow::content(
        Query::ReadText(path::join(group, os::lit("memory.events"))),
        log,
        at,
    ) {
        Err(pause) => Err(pause),
        Ok((Err(failure), at)) => Ok((Err(failure), at)),
        Ok((Ok(memory), at)) => match flow::content(
            Query::ReadText(path::join(group, os::lit("pids.events"))),
            log,
            at,
        ) {
            Err(pause) => Err(pause),
            Ok((Err(failure), at)) => Ok((Err(failure), at)),
            Ok((Ok(pids), at)) => Ok((counters(memory, pids, group), at)),
        },
    }
}

fn parse_events(memory: &str, pids: &str, group: &PathText) -> (parsed: Result<
    EventCounters,
    IoFailure,
>)
    ensures
        parsed.model() == counters(memory@, pids@, group@),
{
    let memory_file = group.join_text("memory.events");
    let pids_file = group.join_text("pids.events");
    let memory_max = budget::parse_counter(memory, "max", &memory_file)?;
    let memory_oom_kill = budget::parse_counter(memory, "oom_kill", &memory_file)?;
    let pids_max = budget::parse_counter(pids, "max", &pids_file)?;
    Ok(EventCounters { memory_max, memory_oom_kill, pids_max })
}

pub fn read_events(group: &PathText, log: &Vec<Answer>, at: usize) -> (read: Flow<
    Result<EventCounters, IoFailure>,
>)
    ensures
        flow::course(read) == events(group@, log@, at as int),
{
    let (reply, at) = flow::ask_content(
        Question::ReadText(group.join_text("memory.events")),
        log,
        at,
    )?;
    let memory = match reply {
        Ok(memory) => memory,
        Err(failure) => return Ok((Err(failure), at)),
    };
    let (reply, at) = flow::ask_content(
        Question::ReadText(group.join_text("pids.events")),
        log,
        at,
    )?;
    let pids = match reply {
        Ok(pids) => pids,
        Err(failure) => return Ok((Err(failure), at)),
    };
    Ok((parse_events(memory.as_str(), pids.as_str(), group), at))
}

/// A limit written to a control file of a group.
pub open spec fn control_written(
    group: Seq<u8>,
    name: &str,
    value: Seq<char>,
    log: Seq<Answer>,
    at: int,
) -> Course<()> {
    match flow::done(
        Query::WriteText(path::join(group, os::lit(name)), value + "\n"@),
        log,
        at,
    ) {
        Err(pause) => Err(pause),
        Ok((Ok(_), at)) => Ok(((), at)),
        Ok((Err(failure), at)) => Err(
            flow::setup_pause(
                os::lossy_text(group),
                name@ + " must accept the requested resource limit"@,
                "run inside a user-delegated cgroup v2 subtree with cpu, memory, and pids enabled"@,
                failure.message,
                at,
            ),
        ),
    }
}

pub fn write_control(
    group: &PathText,
    name: &str,
    value: &str,
    log: &Vec<Answer>,
    at: usize,
) -> (written: Flow<()>)
    ensures
        flow::course(written) == control_written(group@, name, value@, log@, at as int),
{
    let (reply, at) = flow::ask_done(
        Question::WriteText(group.join_text(name), text::owned(value).with("\n")),
        log,
        at,
    )?;
    match reply {
        Ok(_) => Ok(((), at)),
        Err(failure) => Err(
            flow::setup_halt(
                group.display().as_str(),
                text::owned(name).with(" must accept the requested resource limit").as_str(),
                "run inside a user-delegated cgroup v2 subtree with cpu, memory, and pids enabled",
                failure.message.as_str(),
                at,
            ),
        ),
    }
}

/// A file that can be written to.
pub open spec fn writable_file(
    file: Seq<u8>,
    subject: Seq<char>,
    log: Seq<Answer>,
    at: int,
) -> Course<()> {
    match flow::done(Query::OpenForWriting(file), log, at) {
        Err(pause) => Err(pause),
        Ok((Ok(_), at)) => Ok(((), at)),
        Ok((Err(failure), at)) => Err(
            flow::setup_pause(
                os::lossy_text(file),
                subject + " must be writable without changing the host hierarchy"@,
                "run under a user-delegated cgroup v2 subtree"@,
                failure.message,
                at,
            ),
        ),
    }
}

pub fn require_writable(
    file: &PathText,
    subject: &str,
    log: &Vec<Answer>,
    at: usize,
) -> (checked: Flow<()>)
    ensures
        flow::course(checked) == writable_file(file@, subject@, log@, at as int),
{
    let (reply, at) = flow::ask_done(Question::OpenForWriting(file.clone()), log, at)?;
    match reply {
        Ok(_) => Ok(((), at)),
        Err(failure) => Err(
            flow::setup_halt(
                file.display().as_str(),
                text::owned(subject).with(
                    " must be writable without changing the host hierarchy",
                ).as_str(),
                "run under a user-delegated cgroup v2 subtree",
                failure.message.as_str(),
                at,
            ),
        ),
    }
}

/// This process put into a group.
pub open spec fn process_moved(
    file: Seq<u8>,
    action: Seq<char>,
    log: Seq<Answer>,
    at: int,
) -> Course<()> {
    match flow::identity(Query::ProcessId, log, at) {
        Err(pause) => Err(pause),
        Ok((process, at)) => match flow::done(
            Query::WriteText(file, text::decimal(process as nat) + "\n"@),
            log,
            at,
        ) {
            Err(pause) => Err(pause),
            Ok((Ok(_), at)) => Ok(((), at)),
            Ok((Err(failure), at)) => Err(
                flow::setup_pause(
                    os::lossy_text(file),
                    "the supervisor must be able to "@ + action + " safely"@,
                    "run under a user-delegated cgroup v2 subtree with writable cgroup.procs"@,
                    failure.message,
                    at,
                ),
            ),
        },
    }
}

pub fn write_pid(file: &PathText, action: &str, log: &Vec<Answer>, at: usize) -> (moved: Flow<()>)
    ensures
        flow::course(moved) == process_moved(file@, action@, log@, at as int),
{
    let (process, at) = flow::ask_identity(Question::ProcessId, log, at)?;
    let (reply, at) = flow::ask_done(
        Question::WriteText(file.clone(), text::decimal_text(process as u64).with("\n")),
        log,
        at,
    )?;
    match reply {
        Ok(_) => Ok(((), at)),
        Err(failure) => Err(
            flow::setup_halt(
                file.display().as_str(),
                text::owned("the supervisor must be able to ").with(action).with(
                    " safely",
                ).as_str(),
                "run under a user-delegated cgroup v2 subtree with writable cgroup.procs",
                failure.message.as_str(),
                at,
            ),
        ),
    }
}

// ---------------------------------------------------------------------------
// Finding a place
// ---------------------------------------------------------------------------

/// Whether a directory is the root of a unified hierarchy.
pub open spec fn unified_mount(mount: Seq<u8>, log: Seq<Answer>, at: int) -> Course<bool> {
    match flow::entry(Query::Follow(mount), log, at) {
        Err(pause) => Err(pause),
        Ok((Err(_), at)) => Ok((false, at)),
        Ok((Ok(stat), at)) => if stat.kind == FileKind::Directory {
            present(path::join(mount, os::lit("cgroup.controllers")), log, at)
        } else {
            Ok((false, at))
        },
    }
}

pub fn is_cgroup2_mount(mount: &PathText, log: &Vec<Answer>, at: usize) -> (yes: Flow<bool>)
    ensures
        flow::course(yes) == unified_mount(mount@, log@, at as int),
{
    let (reply, at) = flow::ask_entry(Question::Follow(mount.clone()), log, at)?;
    match reply {
        Err(_) => Ok((false, at)),
        Ok(stat) => if stat.is_dir() {
            is_present(&mount.join_text("cgroup.controllers"), log, at)
        } else {
            Ok((false, at))
        },
    }
}

/// The first line of the mount table from `index` on that leads to a unified
/// hierarchy.
pub open spec fn listed_mount(
    lines: Seq<Seq<char>>,
    index: int,
    log: Seq<Answer>,
    at: int,
) -> Course<Seq<u8>>
    decreases lines.len() - index,
{
    if index < 0 || index >= lines.len() {
        Err(
            flow::setup_pause(
                "/sys/fs/cgroup"@,
                "a unified cgroup v2 hierarchy is required"@,
                "boot Linux with cgroup v2 mounted and retry"@,
                "no cgroup2 mount was found"@,
                at,
            ),
        )
    } else {
        match budget::cgroup2_point(lines[index]) {
            None => listed_mount(lines, index + 1, log, at),
            Some(point) => match unified_mount(encode_utf8(point), log, at) {
                Err(pause) => Err(pause),
                Ok((true, at)) => Ok((encode_utf8(point), at)),
                Ok((false, at)) => listed_mount(lines, index + 1, log, at),
            },
        }
    }
}

fn search_mounts(list: &Vec<String>, log: &Vec<Answer>, at: usize) -> (mount: Flow<PathText>)
    ensures
        flow::course(mount) == listed_mount(scan::strings(list@), 0, log@, at as int),
{
    let ghost all = scan::strings(list@);
    let ghost start = at as int;
    let mut used: usize = at;
    let mut index: usize = 0;
    while index < list.len()
        invariant
            index <= list.len(),
            all == scan::strings(list@),
            listed_mount(all, 0, log@, start) == listed_mount(all, index as int, log@, used as int),
            start == at,
        decreases list.len() - index,
    {
        assert(all[index as int] == list[index as int]@);
        if let Some(point) = budget::find_cgroup2_point(list[index].as_str()) {
            let mount = OsText::new(point.as_str());
            let (yes, next) = is_cgroup2_mount(&mount, log, used)?;
            used = next;
            if yes {
                return Ok((mount, used));
            }
        }
        index = index + 1;
    }
    Err(
        flow::setup_halt(
            "/sys/fs/cgroup",
            "a unified cgroup v2 hierarchy is required",
            "boot Linux with cgroup v2 mounted and retry",
            "no cgroup2 mount was found",
            used,
        ),
    )
}

/// Where the unified hierarchy is mounted: at its usual place, or where the
/// mount table says.
#[verifier::opaque]
pub open spec fn hierarchy(log: Seq<Answer>, at: int) -> Course<Seq<u8>> {
    match unified_mount(os::lit("/sys/fs/cgroup"), log, at) {
        Err(pause) => Err(pause),
        Ok((true, at)) => Ok((os::lit("/sys/fs/cgroup"), at)),
        Ok((false, at)) => match flow::content(
            Query::ReadText(os::lit("/proc/self/mountinfo")),
            log,
            at,
        ) {
            Err(pause) => Err(pause),
            Ok((Err(failure), at)) => Err(
                flow::setup_pause(
                    "/proc/self/mountinfo"@,
                    "the cgroup v2 mount must be discoverable"@,
                    "enable a unified cgroup v2 hierarchy and retry"@,
                    failure.message,
                    at,
                ),
            ),
            Ok((Ok(content), at)) => listed_mount(scan::lines(content), 0, log, at),
        },
    }
}

pub fn find_cgroup2_mount(log: &Vec<Answer>, at: usize) -> (mount: Flow<PathText>)
    ensures
        flow::course(mount) == hierarchy(log@, at as int),
{
    proof {
        reveal(hierarchy);
    }
    let conventional = OsText::new("/sys/fs/cgroup");
    let (yes, at) = is_cgroup2_mount(&conventional, log, at)?;
    if yes {
        return Ok((conventional, at));
    }
    let (reply, at) = flow::ask_content(
        Question::ReadText(OsText::new("/proc/self/mountinfo")),
        log,
        at,
    )?;
    match reply {
        Ok(content) => search_mounts(&scan::split_lines(content.as_str()), log, at),
        Err(failure) => Err(
            flow::setup_halt(
                "/proc/self/mountinfo",
                "the cgroup v2 mount must be discoverable",
                "enable a unified cgroup v2 hierarchy and retry",
                failure.message.as_str(),
                at,
            ),
        ),
    }
}

/// The group of this process within the unified hierarchy.
#[verifier::opaque]
pub open spec fn own_group(log: Seq<Answer>, at: int) -> Course<Seq<u8>> {
    match flow::content(Query::ReadText(os::lit("/proc/self/cgroup")), log, at) {
        Err(pause) => Err(pause),
        Ok((Err(failure), at)) => Err(
            flow::setup_pause(
                "/proc/self/cgroup"@,
                "the current cgroup must be identifiable before spawning Bubblewrap"@,
                "run with readable procfs and a unified cgroup v2 hierarchy"@,
                failure.message,
                at,
            ),
        ),
        Ok((Ok(content), at)) => match budget::unified_entry(scan::lines(content), 0) {
            None => Err(
                flow::setup_pause(
                    "/proc/self/cgroup"@,
                    "the current process must belong to a unified cgroup v2 hierarchy"@,
                    "run under cgroup v2 and enable a user-delegated subtree"@,
                    "the cgroup v2 entry 0:: was missing"@,
                    at,
                ),
            ),
            Some(entry) => {
                let group = encode_utf8(entry);
                if !path::absolute(group) || path::has_parent_part(group) {
                    Err(
                        flow::setup_pause(
                            os::lossy_text(group),
                            "the current cgroup path must be absolute and traversal-free"@,
                            "run under a normal cgroup v2 hierarchy"@,
                            "the kernel returned an unsafe cgroup path"@,
                            at,
                        ),
                    )
                } else {
                    Ok((group, at))
                }
            },
        },
    }
}

pub fn current_cgroup_path(log: &Vec<Answer>, at: usize) -> (group: Flow<PathText>)
    ensures
        flow::course(group) == own_group(log@, at as int),
{
    proof {
        reveal(own_group);
    }
    let (reply, at) = flow::ask_content(
        Question::ReadText(OsText::new("/proc/self/cgroup")),
        log,
        at,
    )?;
    let content = match reply {
        Ok(content) => content,
        Err(failure) => {
            return Err(
                flow::setup_halt(
                    "/proc/self/cgroup",
                    "the current cgroup must be identifiable before spawning Bubblewrap",
                    "run with readable procfs and a unified cgroup v2 hierarchy",
                    failure.message.as_str(),
                    at,
                ),
            );
        },
    };
    let entry = match budget::find_unified_entry(content.as_str()) {
        Some(entry) => entry,
        None => {
            return Err(
                flow::setup_halt(
                    "/proc/self/cgroup",
                    "the current process must belong to a unified cgroup v2 hierarchy",
                    "run under cgroup v2 and enable a user-delegated subtree",
                    "the cgroup v2 entry 0:: was missing",
                    at,
                ),
            );
        },
    };
    let group = OsText::new(entry.as_str());
    if !group.is_absolute() || group.has_parent_component() {
        return Err(
            flow::setup_halt(
                group.display().as_str(),
                "the current cgroup path must be absolute and traversal-free",
                "run under a normal cgroup v2 hierarchy",
                "the kernel returned an unsafe cgroup path",
                at,
            ),
        );
    }
    Ok((group, at))
}

/// Whether all controllers that a sandbox needs are listed.
pub open spec fn controllers_listed(available: Seq<char>, enabled: Seq<char>) -> bool {
    budget::lists_word(available, "cpu"@) && budget::lists_word(enabled, "cpu"@)
        && budget::lists_word(available, "memory"@) && budget::lists_word(enabled, "memory"@)
        && budget::lists_word(available, "pids"@) && budget::lists_word(enabled, "pids"@)
}

/// Whether a group passes on the controllers that a sandbox needs.
pub open spec fn controllers(group: Seq<u8>, log: Seq<Answer>, at: int) -> Course<bool> {
    match control_text(path::join(group, os::lit("cgroup.controllers")), log, at) {
        Err(pause) => Err(pause),
        Ok((available, at)) => match control_text(
            path::join(group, os::lit("cgroup.subtree_control")),
            log,
            at,
        ) {
            Err(pause) => Err(pause),
            Ok((enabled, at)) => Ok((controllers_listed(available, enabled), at)),
        },
    }
}

pub fn has_required_controllers(group: &PathText, log: &Vec<Answer>, at: usize) -> (yes: Flow<bool>)
    ensures
        flow::course(yes) == controllers(group@, log@, at as int),
{
    let (available, at) = read_text(&group.join_text("cgroup.controllers"), log, at)?;
    let (enabled, at) = read_text(&group.join_text("cgroup.subtree_control"), log, at)?;
    let listed = budget::has_word(available.as_str(), "cpu") && budget::has_word(
        enabled.as_str(),
        "cpu",
    ) && budget::has_word(available.as_str(), "memory") && budget::has_word(
        enabled.as_str(),
        "memory",
    ) && budget::has_word(available.as_str(), "pids") && budget::has_word(
        enabled.as_str(),
        "pids",
    );
    Ok((listed, at))
}

/// Whether this process may create groups below another.
pub open spec fn may_create(group: Seq<u8>, log: Seq<Answer>, at: int) -> Course<bool> {
    match flow::done(
        Query::OpenForWriting(path::join(group, os::lit("cgroup.procs"))),
        log,
        at,
    ) {
        Err(pause) => Err(pause),
        Ok((Ok(_), at)) => Ok((true, at)),
        Ok((Err(failure), at)) => if failure.kind == IoKind::PermissionDenied {
            Ok((false, at))
        } else {
            Err(
                flow::setup_pause(
                    os::lossy_text(group),
                    "the delegated ancestor cgroup process file must be writable"@,
                    "delegate cgroup.procs and child creation to the current user"@,
                    failure.message,
                    at,
                ),
            )
        },
    }
}

pub fn can_create_child(group: &PathText, log: &Vec<Answer>, at: usize) -> (yes: Flow<bool>)
    ensures
        flow::course(yes) == may_create(group@, log@, at as int),
{
    let (reply, at) = flow::ask_done(
        Question::OpenForWriting(group.join_text("cgroup.procs")),
        log,
        at,
    )?;
    match reply {
        Ok(_) => Ok((true, at)),
        Err(failure) => if failure.kind == IoKind::PermissionDenied {
            Ok((false, at))
        } else {
            Err(
                flow::setup_halt(
                    group.display().as_str(),
                    "the delegated ancestor cgroup process file must be writable",
                    "delegate cgroup.procs and child creation to the current user",
                    failure.message.as_str(),
                    at,
                ),
            )
        },
    }
}

/// Whether a sandbox's group can be created below a group.
#[verifier::opaque]
pub open spec fn usable(group: Seq<u8>, log: Seq<Answer>, at: int) -> Course<bool> {
    match controllers(group, log, at) {
        Err(pause) => Err(pause),
        Ok((false, at)) => Ok((false, at)),
        Ok((true, at)) => may_create(group, log, at),
    }
}

fn is_usable(group: &PathText, log: &Vec<Answer>, at: usize) -> (yes: Flow<bool>)
    ensures
        flow::course(yes) == usable(group@, log@, at as int),
{
    proof {
        reveal(usable);
    }
    let (yes, at) = has_required_controllers(group, log, at)?;
    if yes {
        can_create_child(group, log, at)
    } else {
        Ok((false, at))
    }
}

/// No group up to the mount could be used.
pub open spec fn nothing_delegated(mount: Seq<u8>, restore: Seq<u8>, at: int) -> Pause {
    flow::setup_pause(
        os::lossy_text(restore),
        "an ancestor cgroup must delegate cpu, memory, and pids to a private child"@,
        "run inside a user-delegated cgroup subtree with those controllers enabled on its parent"@,
        "no usable delegated ancestor was found between "@ + os::lossy_text(restore) + " and "@
            + os::lossy_text(mount),
        at,
    )
}

/// The first usable group from `candidate` up to the mount.
pub open spec fn delegated_from(
    mount: Seq<u8>,
    restore: Seq<u8>,
    candidate: Seq<u8>,
    log: Seq<Answer>,
    at: int,
) -> Course<Seq<u8>>
    decreases path::parts(candidate).len(),
{
    match usable(candidate, log, at) {
        Err(pause) => Err(pause),
        Ok((true, at)) => Ok((candidate, at)),
        Ok((false, at)) => if path::same_path(candidate, mount) {
            Err(nothing_delegated(mount, restore, at))
        } else {
            match path::parent(candidate) {
                None => Err(nothing_delegated(mount, restore, at)),
                Some(above) => {
                    proof {
                        path::lemma_parent_parts(candidate);
                    }
                    delegated_from(mount, restore, above, log, at)
                },
            }
        },
    }
}

pub fn find_delegated_parent(
    mount: &PathText,
    restore: &PathText,
    log: &Vec<Answer>,
    at: usize,
) -> (group: Flow<PathText>)
    ensures
        flow::course(group) == delegated_from(mount@, restore@, restore@, log@, at as int),
{
    let ghost start = at as int;
    let mut candidate = restore.clone();
    let mut used: usize = at;
    loop
        invariant
            delegated_from(mount@, restore@, restore@, log@, start) == delegated_from(
                mount@,
                restore@,
                candidate@,
                log@,
                used as int,
            ),
            start == at,
        decreases path::parts(candidate@).len(),
    {
        let (yes, next) = is_usable(&candidate, log, used)?;
        used = next;
        if yes {
            return Ok((candidate, used));
        }
        let above = if candidate.same_path(mount) {
            None
        } else {
            candidate.parent()
        };
        match above {
            Some(above) => {
                proof {
                    path::lemma_parent_parts(candidate@);
                }
                candidate = above;
            },
            None => {
                return Err(
                    flow::setup_halt(
                        restore.display().as_str(),
                        "an ancestor cgroup must delegate cpu, memory, and pids to a private child",
                        "run inside a user-delegated cgroup subtree with those controllers enabled on its parent",
                        text::owned("no usable delegated ancestor was found between ").with(
                            restore.display().as_str(),
                        ).with(" and ").with(mount.display().as_str()).as_str(),
                        used,
                    ),
                );
            },
        }
    }
}

/// The memory of the host in bytes.
pub open spec fn host_memory(log: Seq<Answer>, at: int) -> Course<u64> {
    match flow::content(Query::ReadText(os::lit("/proc/meminfo")), log, at) {
        Err(pause) => Err(pause),
        Ok((Err(failure), at)) => Err(
            flow::setup_pause(
                "/proc/meminfo"@,
                "host memory must be measurable before selecting the sandbox budget"@,
                "run on a Linux host with readable procfs"@,
                failure.message,
                at,
            ),
        ),
        Ok((Ok(content), at)) => match budget::total_memory(content) {
            Some(bytes) => Ok((bytes as u64, at)),
            None => Err(
                flow::setup_pause(
                    "/proc/meminfo"@,
                    "MemTotal must be a positive, representable value"@,
                    "run on a normal Linux host with readable MemTotal"@,
                    "MemTotal was missing or invalid"@,
                    at,
                ),
            ),
        },
    }
}

pub fn host_memory_bytes(log: &Vec<Answer>, at: usize) -> (bytes: Flow<u64>)
    ensures
        flow::course(bytes) == host_memory(log@, at as int),
{
    let (reply, at) = flow::ask_content(
        Question::ReadText(OsText::new("/proc/meminfo")),
        log,
        at,
    )?;
    let content = match reply {
        Ok(content) => content,
        Err(failure) => {
            return Err(
                flow::setup_halt(
                    "/proc/meminfo",
                    "host memory must be measurable before selecting the sandbox budget",
                    "run on a Linux host with readable procfs",
                    failure.message.as_str(),
                    at,
                ),
            );
        },
    };
    match budget::parse_total_memory(content.as_str()) {
        Some(bytes) => Ok((bytes, at)),
        None => Err(
            flow::setup_halt(
                "/proc/meminfo",
                "MemTotal must be a positive, representable value",
                "run on a normal Linux host with readable MemTotal",
                "MemTotal was missing or invalid",
                at,
            ),
        ),
    }
}

/// A limit that a control file holds.
pub open spec fn optional_control(file: Seq<u8>, log: Seq<Answer>, at: int) -> Course<Option<u64>> {
    match control_text(file, log, at) {
        Err(pause) => Err(pause),
        Ok((content, at)) => match budget::optional_limit(content, file) {
            Ok(limit) => Ok((limit, at)),
            Err(fault) => flow::fail(fault, at),
        },
    }
}

pub fn read_optional_limit(file: &PathText, log: &Vec<Answer>, at: usize) -> (limit: Flow<
    Option<u64>,
>)
    ensures
        flow::course(limit) == optional_control(file@, log@, at as int),
{
    let (content, at) = read_text(file, log, at)?;
    match budget::parse_optional_limit(content.as_str(), file) {
        Ok(limit) => Ok((limit, at)),
        Err(error) => Err(Halt::Fail(error, at)),
    }
}

/// Where a sandbox's group goes, where this process returns to, and the limits.
#[derive(Debug)]
pub struct CgroupContext {
    pub parent: PathText,
    pub restore: PathText,
    pub limits: EffectiveResourceLimits,
}

/// What a `CgroupContext` holds.
pub struct GroupPlace {
    pub parent: Seq<u8>,
    pub restore: Seq<u8>,
    pub limits: EffectiveResourceLimits,
}

impl Model for CgroupContext {
    type M = GroupPlace;

    open spec fn model(&self) -> GroupPlace {
        GroupPlace { parent: self.parent@, restore: self.restore@, limits: self.limits }
    }
}

/// A group of the hierarchy as a path of the host.
pub open spec fn host_path(mount: Seq<u8>, group: Seq<u8>) -> Seq<u8> {
    if path::same_path(group, os::lit("/")) {
        mount
    } else {
        path::join(mount, path::below_root(group))
    }
}

/// The memory that a sandbox below a group can have.
#[verifier::opaque]
pub open spec fn memory_for(
    requested: u64,
    parent: Seq<u8>,
    log: Seq<Answer>,
    at: int,
) -> Course<u64> {
    match host_memory(log, at) {
        Err(pause) => Err(pause),
        Ok((memory, at)) => match budget::host_share(memory) {
            None => Err(
                flow::setup_pause(
                    "/proc/meminfo"@,
                    "the host memory budget must be representable safely"@,
                    "run on a Linux host with a normal MemTotal value"@,
                    "memory budget arithmetic overflowed"@,
                    at,
                ),
            ),
            Some(host) => match optional_control(
                path::join(parent, os::lit("memory.max")),
                log,
                at,
            ) {
                Err(pause) => Err(pause),
                Ok((limit, at)) => {
                    let bytes = budget::memory_budget(requested, host, limit);
                    if bytes < MIN_MEMORY_BYTES {
                        Err(
                            flow::setup_pause(
                                os::lossy_text(parent),
                                "the effective memory budget must be at least 1 GiB"@,
                                "run on a host with more memory or configure a larger delegated parent budget"@,
                                "effective memory budget is "@ + budget::bytes_text(bytes),
                                at,
                            ),
                        )
                    } else {
                        Ok((bytes, at))
                    }
                },
            },
        },
    }
}

fn find_memory(requested: u64, parent: &PathText, log: &Vec<Answer>, at: usize) -> (bytes: Flow<
    u64,
>)
    ensures
        flow::course(bytes) == memory_for(requested, parent@, log@, at as int),
{
    proof {
        reveal(memory_for);
    }
    let (memory, at) = host_memory_bytes(log, at)?;
    let host: u64 = match budget::host_budget(memory) {
        Some(host) => host,
        None => {
            return Err(
                flow::setup_halt(
                    "/proc/meminfo",
                    "the host memory budget must be representable safely",
                    "run on a Linux host with a normal MemTotal value",
                    "memory budget arithmetic overflowed",
                    at,
                ),
            );
        },
    };
    let (limit, at) = read_optional_limit(&parent.join_text("memory.max"), log, at)?;
    let bytes: u64 = budget::select_memory_budget(requested, host, limit);
    if bytes < MIN_MEMORY_BYTES {
        return Err(
            flow::setup_halt(
                parent.display().as_str(),
                "the effective memory budget must be at least 1 GiB",
                "run on a host with more memory or configure a larger delegated parent budget",
                text::owned("effective memory budget is ").with(
                    budget::format_bytes(bytes).as_str(),
                ).as_str(),
                at,
            ),
        );
    }
    Ok((bytes, at))
}

/// Where a sandbox with a requested budget goes.
#[verifier::opaque]
pub open spec fn discovered(requested: ResourceLimits, log: Seq<Answer>, at: int) -> Course<
    GroupPlace,
> {
    if !requested.valid() {
        Err(
            flow::setup_pause(
                "ResourceLimits"@,
                "every resource limit must be positive and within the fixed cargo-cage profile"@,
                "use positive limits no larger than the documented cargo-cage defaults"@,
                "the requested resource profile is invalid or attempts to raise a hard limit"@,
                at,
            ),
        )
    } else {
        match hierarchy(log, at) {
            Err(pause) => Err(pause),
            Ok((mount, at)) => match own_group(log, at) {
                Err(pause) => Err(pause),
                Ok((group, at)) => match walk::existing(
                    host_path(mount, group),
                    "current cgroup"@,
                    log,
                    at,
                ) {
                    Err(pause) => Err(pause),
                    Ok((restore, at)) => placed(requested, mount, restore, log, at),
                },
            },
        }
    }
}

/// The place for a sandbox once the current group is known.
#[verifier::opaque]
pub open spec fn placed(
    requested: ResourceLimits,
    mount: Seq<u8>,
    restore: Seq<u8>,
    log: Seq<Answer>,
    at: int,
) -> Course<GroupPlace> {
    match writable_file(
        path::join(restore, os::lit("cgroup.procs")),
        "restoring the cargo-cage supervisor"@,
        log,
        at,
    ) {
        Err(pause) => Err(pause),
        Ok((_, at)) => match delegated_from(mount, restore, restore, log, at) {
            Err(pause) => Err(pause),
            Ok((parent, at)) => match memory_for(requested.max_memory_bytes, parent, log, at) {
                Err(pause) => Err(pause),
                Ok((bytes, at)) => Ok(
                    (
                        GroupPlace {
                            parent,
                            restore,
                            limits: budget::effective_limits(requested, bytes),
                        },
                        at,
                    ),
                ),
            },
        },
    }
}

impl CgroupContext {
    /// Finds where a sandbox with a requested budget can go.
    pub fn discover(requested: &ResourceLimits, log: &Vec<Answer>, at: usize) -> (context: Flow<
        CgroupContext,
    >)
        ensures
            flow::course(context) == discovered(*requested, log@, at as int),
    {
        proof {
            reveal(discovered);
        }
        if !requested.validate() {
            return Err(
                flow::setup_halt(
                    "ResourceLimits",
                    "every resource limit must be positive and within the fixed cargo-cage profile",
                    "use positive limits no larger than the documented cargo-cage defaults",
                    "the requested resource profile is invalid or attempts to raise a hard limit",
                    at,
                ),
            );
        }
        let (mount, at) = find_cgroup2_mount(log, at)?;
        let (group, at) = current_cgroup_path(log, at)?;
        let current = if group.same_path(&OsText::new("/")) {
            mount.clone()
        } else {
            mount.join(&group.below_root())
        };
        let (restore, at) = walk::canonical_existing_path_without_symlinks(
            &current,
            "current cgroup",
            log,
            at,
        )?;
        Self::place(requested, &mount, restore, log, at)
    }

    fn place(
        requested: &ResourceLimits,
        mount: &PathText,
        restore: PathText,
        log: &Vec<Answer>,
        at: usize,
    ) -> (context: Flow<CgroupContext>)
        ensures
            flow::course(context) == placed(*requested, mount@, restore@, log@, at as int),
    {
        proof {
            reveal(placed);
        }
        let (_, at) = require_writable(
            &restore.join_text("cgroup.procs"),
            "restoring the cargo-cage supervisor",
            log,
            at,
        )?;
        let (parent, at) = find_delegated_parent(mount, &restore, log, at)?;
        let (bytes, at) = find_memory(requested.max_memory_bytes, &parent, log, at)?;
        let limits = budget::select_limits(requested, bytes);
        Ok((CgroupContext { parent, restore, limits }, at))
    }
}

// ---------------------------------------------------------------------------
// A sandbox's own group
// ---------------------------------------------------------------------------

/// A new group that must be a real directory.
pub open spec fn real_group(group: Seq<u8>, log: Seq<Answer>, at: int) -> Course<Seq<u8>> {
    match flow::entry(Query::Inspect(group), log, at) {
        Err(pause) => Err(pause),
        Ok((Err(failure), at)) => Err(
            flow::setup_pause(
                os::lossy_text(group),
                "the resource cgroup must be a real directory"@,
                "remove the conflicting cgroup entry and retry"@,
                failure.message,
                at,
            ),
        ),
        Ok((Ok(stat), at)) => if stat.kind != FileKind::Directory {
            Err(
                flow::setup_pause(
                    os::lossy_text(group),
                    "the resource cgroup must not be a symlink or special file"@,
                    "remove the conflicting cgroup entry and retry"@,
                    "created cgroup had an unexpected file type"@,
                    at,
                ),
            )
        } else {
            Ok((group, at))
        },
    }
}

/// The group of a name directly below another.
pub open spec fn child_group(parent: Seq<u8>, name: Seq<u8>) -> Seq<u8> {
    path::join(parent, os::lit("cargo-cage-") + name)
}

/// A new group below another, after `tries` names that were taken.
pub open spec fn child_group_from(
    parent: Seq<u8>,
    tries: int,
    log: Seq<Answer>,
    at: int,
) -> Course<Seq<u8>>
    decreases NAME_ATTEMPTS - tries,
{
    if tries >= NAME_ATTEMPTS {
        Err(no_name_left(parent, at))
    } else {
        match flow::value(Query::FreshName, log, at) {
            Err(pause) => Err(pause),
            Ok((None, at)) => Err(no_name_left(parent, at)),
            Ok((Some(name), at)) => {
                let group = child_group(parent, name);
                match flow::done(Query::CreateDirectory(group), log, at) {
                    Err(pause) => Err(pause),
                    Ok((Ok(_), at)) => real_group(group, log, at),
                    Ok((Err(failure), at)) => if failure.kind == IoKind::AlreadyExists {
                        child_group_from(parent, tries + 1, log, at)
                    } else {
                        Err(
                            flow::setup_pause(
                                os::lossy_text(parent),
                                "a private child cgroup must be creatable in the delegated subtree"@,
                                "delegate cpu, memory, and pids controllers to the current user"@,
                                failure.message,
                                at,
                            ),
                        )
                    },
                }
            },
        }
    }
}

pub open spec fn no_name_left(parent: Seq<u8>, at: int) -> Pause {
    flow::setup_pause(
        os::lossy_text(parent),
        "the child cgroup name must be collision-free"@,
        "remove stale cargo-cage cgroups and retry"@,
        "could not allocate a unique cgroup name"@,
        at,
    )
}

fn refuse_names(parent: &PathText, at: usize) -> (halt: Halt)
    ensures
        halt@ == no_name_left(parent@, at as int),
{
    flow::setup_halt(
        parent.display().as_str(),
        "the child cgroup name must be collision-free",
        "remove stale cargo-cage cgroups and retry",
        "could not allocate a unique cgroup name",
        at,
    )
}

fn require_real_group(group: PathText, log: &Vec<Answer>, at: usize) -> (checked: Flow<PathText>)
    ensures
        flow::course(checked) == real_group(group@, log@, at as int),
{
    let (reply, at) = flow::ask_entry(Question::Inspect(group.clone()), log, at)?;
    match reply {
        Err(failure) => Err(
            flow::setup_halt(
                group.display().as_str(),
                "the resource cgroup must be a real directory",
                "remove the conflicting cgroup entry and retry",
                failure.message.as_str(),
                at,
            ),
        ),
        Ok(stat) => if !stat.is_dir() {
            Err(
                flow::setup_halt(
                    group.display().as_str(),
                    "the resource cgroup must not be a symlink or special file",
                    "remove the conflicting cgroup entry and retry",
                    "created cgroup had an unexpected file type",
                    at,
                ),
            )
        } else {
            Ok((group, at))
        },
    }
}

pub fn create_child_cgroup(parent: &PathText, log: &Vec<Answer>, at: usize) -> (group: Flow<
    PathText,
>)
    ensures
        flow::course(group) == child_group_from(parent@, 0, log@, at as int),
{
    let ghost start = at as int;
    let mut used: usize = at;
    let mut tries: u64 = 0;
    while tries < NAME_ATTEMPTS
        invariant
            tries <= NAME_ATTEMPTS,
            child_group_from(parent@, 0, log@, start) == child_group_from(
                parent@,
                tries as int,
                log@,
                used as int,
            ),
            start == at,
        decreases NAME_ATTEMPTS - tries,
    {
        let (name, next) = flow::ask_value(Question::FreshName, log, used)?;
        let name = match name {
            Some(name) => name,
            None => return Err(refuse_names(parent, next)),
        };
        let mut file_name = OsText::new("cargo-cage-");
        file_name.bytes.extend_from_slice(name.bytes.as_slice());
        assert(file_name@ =~= os::lit("cargo-cage-") + name@);
        let group = parent.join(&file_name);
        let (reply, next) = flow::ask_done(Question::CreateDirectory(group.clone()), log, next)?;
        match reply {
            Ok(_) => return require_real_group(group, log, next),
            Err(failure) => {
                if failure.kind != IoKind::AlreadyExists {
                    return Err(
                        flow::setup_halt(
                            parent.display().as_str(),
                            "a private child cgroup must be creatable in the delegated subtree",
                            "delegate cpu, memory, and pids controllers to the current user",
                            failure.message.as_str(),
                            next,
                        ),
                    );
                }
            },
        }
        used = next;
        tries = tries + 1;
    }
    Err(refuse_names(parent, used))
}

/// A control file that a group must have.
pub open spec fn required_control(
    group: Seq<u8>,
    name: &str,
    log: Seq<Answer>,
    at: int,
) -> Course<()> {
    let file = path::join(group, os::lit(name));
    match present(file, log, at) {
        Err(pause) => Err(pause),
        Ok((true, at)) => Ok(((), at)),
        Ok((false, at)) => Err(
            flow::setup_pause(
                os::lossy_text(group),
                name@ + " must be available for fail-closed resource enforcement"@,
                "use a current Linux kernel with cgroup v2 process and memory controls"@,
                "missing "@ + os::lossy_text(file),
                at,
            ),
        ),
    }
}

fn require_control(group: &PathText, name: &str, log: &Vec<Answer>, at: usize) -> (checked: Flow<
    (),
>)
    ensures
        flow::course(checked) == required_control(group@, name, log@, at as int),
{
    let file = group.join_text(name);
    let (found, at) = is_present(&file, log, at)?;
    if found {
        return Ok(((), at));
    }
    Err(
        flow::setup_halt(
            group.display().as_str(),
            text::owned(name).with(
                " must be available for fail-closed resource enforcement",
            ).as_str(),
            "use a current Linux kernel with cgroup v2 process and memory controls",
            text::owned("missing ").with(file.display().as_str()).as_str(),
            at,
        ),
    )
}

/// All control files that a group must have.
#[verifier::opaque]
pub open spec fn required_controls(group: Seq<u8>, log: Seq<Answer>, at: int) -> Course<()> {
    match required_control(group, "cgroup.kill", log, at) {
        Err(pause) => Err(pause),
        Ok((_, at)) => match required_control(group, "memory.events", log, at) {
            Err(pause) => Err(pause),
            Ok((_, at)) => required_control(group, "pids.events", log, at),
        },
    }
}

fn require_controls(group: &PathText, log: &Vec<Answer>, at: usize) -> (checked: Flow<()>)
    ensures
        flow::course(checked) == required_controls(group@, log@, at as int),
{
    proof {
        reveal(required_controls);
    }
    let (_, at) = require_control(group, "cgroup.kill", log, at)?;
    let (_, at) = require_control(group, "memory.events", log, at)?;
    require_control(group, "pids.events", log, at)
}

/// The CPU limit as the kernel takes it: time and period.
pub open spec fn cpu_limit(cores: u32) -> Seq<char> {
    text::decimal((cores * CPU_PERIOD_MICROS) as nat) + " "@ + text::decimal(
        CPU_PERIOD_MICROS as nat,
    )
}

/// The limits written to a group: processes, memory, no swap, all or nothing
/// when memory runs out, and CPU time.
#[verifier::opaque]
pub open spec fn limits_written(
    group: Seq<u8>,
    limits: EffectiveResourceLimits,
    log: Seq<Answer>,
    at: int,
) -> Course<()> {
    match control_written(
        group,
        "pids.max",
        text::decimal(limits.max_processes as nat),
        log,
        at,
    ) {
        Err(pause) => Err(pause),
        Ok((_, at)) => match control_written(
            group,
            "memory.max",
            text::decimal(limits.max_memory_bytes as nat),
            log,
            at,
        ) {
            Err(pause) => Err(pause),
            Ok((_, at)) => match control_written(group, "memory.swap.max", "0"@, log, at) {
                Err(pause) => Err(pause),
                Ok((_, at)) => match control_written(group, "memory.oom.group", "1"@, log, at) {
                    Err(pause) => Err(pause),
                    Ok((_, at)) => control_written(
                        group,
                        "cpu.max",
                        cpu_limit(limits.max_cpu_cores),
                        log,
                        at,
                    ),
                },
            },
        },
    }
}

fn write_limits(
    group: &PathText,
    limits: &EffectiveResourceLimits,
    log: &Vec<Answer>,
    at: usize,
) -> (written: Flow<()>)
    ensures
        flow::course(written) == limits_written(group@, *limits, log@, at as int),
{
    proof {
        reveal(limits_written);
    }
    let (_, at) = write_control(
        group,
        "pids.max",
        text::decimal_text(limits.max_processes).as_str(),
        log,
        at,
    )?;
    let (_, at) = write_control(
        group,
        "memory.max",
        text::decimal_text(limits.max_memory_bytes).as_str(),
        log,
        at,
    )?;
    let (_, at) = write_control(group, "memory.swap.max", "0", log, at)?;
    let (_, at) = write_control(group, "memory.oom.group", "1", log, at)?;
    let quota: u64 = match budget::cpu_quota_micros(limits.max_cpu_cores) {
        Some(quota) => quota,
        None => {
            return Err(
                flow::setup_halt(
                    group.display().as_str(),
                    "the CPU quota must be representable safely",
                    "use a positive CPU budget within the supported range",
                    "CPU quota arithmetic overflowed",
                    at,
                ),
            );
        },
    };
    write_control(
        group,
        "cpu.max",
        text::decimal_text(quota).with(" ").with(
            text::decimal_text(CPU_PERIOD_MICROS).as_str(),
        ).as_str(),
        log,
        at,
    )
}

/// A group with everything that a sandbox needs, and its limits set.
#[verifier::opaque]
pub open spec fn configured(
    group: Seq<u8>,
    limits: EffectiveResourceLimits,
    log: Seq<Answer>,
    at: int,
) -> Course<()> {
    match required_controls(group, log, at) {
        Err(pause) => Err(pause),
        Ok((_, at)) => limits_written(group, limits, log, at),
    }
}

pub fn configure_cgroup(
    group: &PathText,
    limits: &EffectiveResourceLimits,
    log: &Vec<Answer>,
    at: usize,
) -> (done: Flow<()>)
    ensures
        flow::course(done) == configured(group@, *limits, log@, at as int),
{
    proof {
        reveal(configured);
    }
    let (_, at) = require_controls(group, log, at)?;
    write_limits(group, limits, log, at)
}

/// A failure after which a group is removed, whatever comes of that.
pub open spec fn abandoned<M>(group: Seq<u8>, fault: Fault, log: Seq<Answer>, at: int) -> Course<
    M,
> {
    match flow::done(Query::RemoveDirectory(group), log, at) {
        Err(pause) => Err(pause),
        Ok((_, at)) => flow::fail(fault, at),
    }
}

fn abandon(group: &PathText, error: CageError, log: &Vec<Answer>, at: usize) -> (halt: Halt)
    ensures
        Err::<(Group, int), Pause>(halt@) == abandoned::<Group>(group@, error@, log@, at as int),
{
    match flow::ask_done(Question::RemoveDirectory(group.clone()), log, at) {
        Err(halt) => halt,
        Ok((_, at)) => Halt::Fail(error, at),
    }
}

/// The group that a sandbox runs in.
#[derive(Debug)]
pub struct ResourceGroup {
    pub restore: PathText,
    pub path: PathText,
    pub limits: EffectiveResourceLimits,
    pub before: EventCounters,
    pub entered: bool,
}

/// What a `ResourceGroup` is.
pub struct Group {
    pub restore: Seq<u8>,
    pub path: Seq<u8>,
    pub limits: EffectiveResourceLimits,
    pub before: EventCounters,
    pub entered: bool,
}

impl View for ResourceGroup {
    type V = Group;

    open spec fn view(&self) -> Group {
        Group {
            restore: self.restore@,
            path: self.path@,
            limits: self.limits,
            before: self.before,
            entered: self.entered,
        }
    }
}

impl Clone for ResourceGroup {
    fn clone(&self) -> (copy: Self)
        ensures
            copy@ == self@,
    {
        ResourceGroup {
            restore: self.restore.clone(),
            path: self.path.clone(),
            limits: self.limits,
            before: self.before,
            entered: self.entered,
        }
    }
}

impl Model for ResourceGroup {
    type M = Group;

    open spec fn model(&self) -> Group {
        self@
    }
}

/// A group made at a place, or nothing left of it.
#[verifier::opaque]
pub open spec fn prepared_at(
    place: GroupPlace,
    group: Seq<u8>,
    log: Seq<Answer>,
    at: int,
) -> Course<
    Group,
> {
    match configured(group, place.limits, log, at) {
        Err(Pause::Ask(query)) => Err(Pause::Ask(query)),
        Err(Pause::Fail(fault, at)) => abandoned(group, fault, log, at),
        Ok((_, at)) => match events(group, log, at) {
            Err(pause) => Err(pause),
            Ok((Err(failure), at)) => abandoned(
                group,
                Fault::SandboxSetup {
                    subject: os::lossy_text(group),
                    rule: "resource event counters must be readable before the child starts"@,
                    remedy:
                        "use a delegated cgroup v2 subtree with readable memory.events and pids.events"@,
                    detail: failure.message,
                },
                log,
                at,
            ),
            Ok((Ok(before), at)) => Ok(
                (
                    Group {
                        restore: place.restore,
                        path: group,
                        limits: place.limits,
                        before,
                        entered: false,
                    },
                    at,
                ),
            ),
        },
    }
}

/// A group for a sandbox with a requested budget.
#[verifier::opaque]
pub open spec fn prepared(requested: ResourceLimits, log: Seq<Answer>, at: int) -> Course<Group> {
    match discovered(requested, log, at) {
        Err(pause) => Err(pause),
        Ok((place, at)) => match child_group_from(place.parent, 0, log, at) {
            Err(pause) => Err(pause),
            Ok((group, at)) => prepared_at(place, group, log, at),
        },
    }
}

/// A resource limit that this process passes on.
pub open spec fn resource_limited(
    resource: LimitedResource,
    requested: u64,
    label: Seq<char>,
    log: Seq<Answer>,
    at: int,
) -> Course<u64> {
    match flow::limit(Query::HardLimit(resource), log, at) {
        Err(pause) => Err(pause),
        Ok((hard, at)) => match budget::lowered_limit(requested, hard, label) {
            Err(fault) => flow::fail(fault, at),
            Ok(limit) => match flow::done(Query::SetLimit(resource, limit), log, at) {
                Err(pause) => Err(pause),
                Ok((Ok(_), at)) => Ok((limit, at)),
                Ok((Err(failure), at)) => Err(
                    flow::setup_pause(
                        "current cargo-cage process"@,
                        label + " must be lowered before Bubblewrap starts"@,
                        "run with resource limits that the current user is allowed to set"@,
                        failure.message,
                        at,
                    ),
                ),
            },
        },
    }
}

pub fn set_lower_limit(
    resource: LimitedResource,
    requested: u64,
    label: &str,
    log: &Vec<Answer>,
    at: usize,
) -> (limit: Flow<u64>)
    ensures
        flow::course(limit) == resource_limited(resource, requested, label@, log@, at as int),
{
    let (hard, at) = flow::ask_limit(Question::HardLimit(resource), log, at)?;
    let limit: u64 = match budget::lower_limit(requested, hard, label) {
        Ok(limit) => limit,
        Err(error) => return Err(Halt::Fail(error, at)),
    };
    let (reply, at) = flow::ask_done(Question::SetLimit(resource, limit), log, at)?;
    match reply {
        Ok(_) => Ok((limit, at)),
        Err(failure) => Err(
            flow::setup_halt(
                "current cargo-cage process",
                text::owned(label).with(" must be lowered before Bubblewrap starts").as_str(),
                "run with resource limits that the current user is allowed to set",
                failure.message.as_str(),
                at,
            ),
        ),
    }
}

/// The limits after this process took over those that it passes on: file size,
/// open files and no core dumps.
#[verifier::opaque]
pub open spec fn inherited(limits: EffectiveResourceLimits, log: Seq<Answer>, at: int) -> Course<
    EffectiveResourceLimits,
> {
    match resource_limited(
        LimitedResource::FileSize,
        limits.max_file_size_bytes,
        "RLIMIT_FSIZE"@,
        log,
        at,
    ) {
        Err(pause) => Err(pause),
        Ok((file_size, at)) => match resource_limited(
            LimitedResource::OpenFiles,
            limits.max_open_files,
            "RLIMIT_NOFILE"@,
            log,
            at,
        ) {
            Err(pause) => Err(pause),
            Ok((open_files, at)) => match resource_limited(
                LimitedResource::CoreSize,
                0,
                "RLIMIT_CORE"@,
                log,
                at,
            ) {
                Err(pause) => Err(pause),
                Ok((_, at)) => Ok(
                    (
                        EffectiveResourceLimits {
                            max_file_size_bytes: file_size,
                            max_open_files: open_files,
                            ..limits
                        },
                        at,
                    ),
                ),
            },
        },
    }
}

/// The limits that are known while this process takes over those that it passes
/// on: each one as soon as it holds, also where a later one fails.
#[verifier::opaque]
pub open spec fn limits_so_far(
    limits: EffectiveResourceLimits,
    log: Seq<Answer>,
    at: int,
) -> EffectiveResourceLimits {
    match resource_limited(
        LimitedResource::FileSize,
        limits.max_file_size_bytes,
        "RLIMIT_FSIZE"@,
        log,
        at,
    ) {
        Err(_) => limits,
        Ok((file_size, at)) => {
            let lowered = EffectiveResourceLimits { max_file_size_bytes: file_size, ..limits };
            match resource_limited(
                LimitedResource::OpenFiles,
                limits.max_open_files,
                "RLIMIT_NOFILE"@,
                log,
                at,
            ) {
                Err(_) => lowered,
                Ok((open_files, _)) => EffectiveResourceLimits {
                    max_open_files: open_files,
                    ..lowered
                },
            }
        },
    }
}

/// A group that is empty before the cleanup time is over.
pub open spec fn emptied_from(group: Seq<u8>, log: Seq<Answer>, at: int) -> Course<()>
    decreases log.len() - at,
{
    match empty_group(group, log, at) {
        Err(pause) => Err(pause),
        Ok((true, at)) => Ok(((), at)),
        Ok((false, seen)) => match flow::holds(Query::TimerExpired(Timer::Cleanup), log, seen) {
            Err(pause) => Err(pause),
            Ok((true, at)) => Err(
                flow::setup_pause(
                    os::lossy_text(group),
                    "all sandbox descendants must exit during resource cleanup"@,
                    "terminate the remaining process tree and retry on a working cgroup v2 host"@,
                    "cgroup remained populated after cgroup.kill"@,
                    at,
                ),
            ),
            Ok((false, asked)) => match flow::done(Query::Sleep(CLEANUP_PAUSE), log, asked) {
                Err(pause) => Err(pause),
                Ok((_, slept)) => emptied_from(group, log, slept),
            },
        },
    }
}

fn wait_until_empty(group: &PathText, log: &Vec<Answer>, at: usize) -> (emptied: Flow<()>)
    ensures
        flow::course(emptied) == emptied_from(group@, log@, at as int),
{
    let ghost start = at as int;
    let mut used: usize = at;
    loop
        invariant
            emptied_from(group@, log@, start) == emptied_from(group@, log@, used as int),
            start == at,
        decreases log.len() - used,
    {
        let (empty, next) = cgroup_is_empty(group, log, used)?;
        if empty {
            return Ok(((), next));
        }
        let (expired, next) = flow::ask_holds(Question::TimerExpired(Timer::Cleanup), log, next)?;
        if expired {
            return Err(
                flow::setup_halt(
                    group.display().as_str(),
                    "all sandbox descendants must exit during resource cleanup",
                    "terminate the remaining process tree and retry on a working cgroup v2 host",
                    "cgroup remained populated after cgroup.kill",
                    next,
                ),
            );
        }
        let (_, next) = flow::ask_done(Question::Sleep(CLEANUP_PAUSE), log, next)?;
        used = next;
    }
}

/// Every process of a group killed and gone.
#[verifier::opaque]
pub open spec fn killed(group: Seq<u8>, log: Seq<Answer>, at: int) -> Course<()> {
    match flow::done(
        Query::WriteText(path::join(group, os::lit("cgroup.kill")), "1\n"@),
        log,
        at,
    ) {
        Err(pause) => Err(pause),
        Ok((Err(failure), at)) => Err(
            flow::setup_pause(
                os::lossy_text(group),
                "the entire sandbox process tree must be killable through cgroup.kill"@,
                "use a delegated Linux cgroup v2 subtree with cgroup.kill support"@,
                failure.message,
                at,
            ),
        ),
        Ok((Ok(_), at)) => match flow::done(
            Query::StartTimer(Timer::Cleanup, TimeSpan { nanoseconds: CLEANUP_TIMEOUT }),
            log,
            at,
        ) {
            Err(pause) => Err(pause),
            Ok((_, at)) => emptied_from(group, log, at),
        },
    }
}

/// A group without processes.
#[verifier::opaque]
pub open spec fn cleared(group: Seq<u8>, log: Seq<Answer>, at: int) -> Course<()> {
    match empty_group(group, log, at) {
        Err(pause) => Err(pause),
        Ok((true, at)) => Ok(((), at)),
        Ok((false, at)) => killed(group, log, at),
    }
}

/// This process back in its own group, if it had left it.
#[verifier::opaque]
pub open spec fn returned(group: Group, log: Seq<Answer>, at: int) -> Course<()> {
    if group.entered {
        process_moved(
            path::join(group.restore, os::lit("cgroup.procs")),
            "restore the cargo-cage supervisor"@,
            log,
            at,
        )
    } else {
        Ok(((), at))
    }
}

/// What a group reports when it is over.
#[verifier::opaque]
pub open spec fn finished(group: Group, log: Seq<Answer>, at: int) -> Course<ResourceReport> {
    match returned(group, log, at) {
        Err(pause) => Err(pause),
        Ok((_, at)) => match cleared(group.path, log, at) {
            Err(pause) => Err(pause),
            Ok((_, at)) => match events(group.path, log, at) {
                Err(pause) => Err(pause),
                Ok((Err(failure), at)) => Err(
                    flow::setup_pause(
                        os::lossy_text(group.path),
                        "resource event counters must remain readable after the child exits"@,
                        "use a delegated cgroup v2 subtree with readable event files"@,
                        failure.message,
                        at,
                    ),
                ),
                Ok((Ok(after), at)) => match flow::done(
                    Query::RemoveDirectory(group.path),
                    log,
                    at,
                ) {
                    Err(pause) => Err(pause),
                    Ok((Err(failure), at)) => Err(
                        flow::setup_pause(
                            os::lossy_text(group.path),
                            "the empty resource cgroup must be removable after the child exits"@,
                            "remove stale child processes from the delegated cgroup and retry"@,
                            failure.message,
                            at,
                        ),
                    ),
                    Ok((Ok(_), at)) => Ok(
                        (ResourceReport { limits: group.limits, before: group.before, after }, at),
                    ),
                },
            },
        },
    }
}

/// A group given up before its time: this process leaves it, its processes are
/// killed unless this one is still among them, and it is removed, as far as
/// each of these succeeds.
#[verifier::opaque]
pub open spec fn discarded(group: Group, log: Seq<Answer>, at: int) -> Course<()> {
    let left = if group.entered {
        match process_moved(
            path::join(group.restore, os::lit("cgroup.procs")),
            "restore the supervisor"@,
            log,
            at,
        ) {
            Ok((_, at)) => Ok((true, at)),
            Err(Pause::Fail(_, at)) => Ok((false, at)),
            Err(Pause::Ask(query)) => Err(Pause::Ask(query)),
        }
    } else {
        Ok((true, at))
    };
    match left {
        Err(pause) => Err(pause),
        Ok((restored, at)) => match (if restored {
            flow::attempt(killed(group.path, log, at))
        } else {
            Ok(((), at))
        }) {
            Err(pause) => Err(pause),
            Ok((_, at)) => match flow::done(Query::RemoveDirectory(group.path), log, at) {
                Err(pause) => Err(pause),
                Ok((_, at)) => Ok(((), at)),
            },
        },
    }
}

impl ResourceGroup {
    /// Creates and configures a group for a sandbox.
    pub fn prepare(requested: &ResourceLimits, log: &Vec<Answer>, at: usize) -> (group: Flow<
        ResourceGroup,
    >)
        ensures
            flow::course(group) == prepared(*requested, log@, at as int),
    {
        proof {
            reveal(prepared);
        }
        let (context, at) = CgroupContext::discover(requested, log, at)?;
        let (path, at) = create_child_cgroup(&context.parent, log, at)?;
        Self::prepare_at(context, path, log, at)
    }

    fn prepare_at(context: CgroupContext, path: PathText, log: &Vec<Answer>, at: usize) -> (group:
        Flow<ResourceGroup>)
        ensures
            flow::course(group) == prepared_at(context.model(), path@, log@, at as int),
    {
        proof {
            reveal(prepared_at);
        }
        let at: usize = match configure_cgroup(&path, &context.limits, log, at) {
            Ok((_, at)) => at,
            Err(Halt::Ask(question)) => return Err(Halt::Ask(question)),
            Err(Halt::Fail(error, at)) => return Err(abandon(&path, error, log, at)),
        };
        let (reply, at) = read_events(&path, log, at)?;
        match reply {
            Err(failure) => {
                let error = CageError::sandbox_setup(
                    path.display().as_str(),
                    "resource event counters must be readable before the child starts",
                    "use a delegated cgroup v2 subtree with readable memory.events and pids.events",
                    failure.message.as_str(),
                );
                Err(abandon(&path, error, log, at))
            },
            Ok(before) => Ok(
                (
                    ResourceGroup {
                        restore: context.restore,
                        path,
                        limits: context.limits,
                        before,
                        entered: false,
                    },
                    at,
                ),
            ),
        }
    }

    pub fn limits(&self) -> (limits: EffectiveResourceLimits)
        ensures
            limits == self@.limits,
    {
        self.limits
    }

    /// Lowers the limits that this process passes on. Each one is noted as soon
    /// as it holds.
    pub fn apply_inherited_limits(&mut self, log: &Vec<Answer>, at: usize) -> (done: Flow<()>)
        ensures
            match inherited(old(self)@.limits, log@, at as int) {
                Ok((limits, next)) => flow::course(done) == Ok::<((), int), Pause>(((), next))
                    && limits == final(self)@.limits,
                Err(pause) => flow::course(done) == Err::<((), int), Pause>(pause),
            },
            final(self)@ == (Group {
                limits: limits_so_far(old(self)@.limits, log@, at as int),
                ..old(self)@
            }),
    {
        proof {
            reveal(inherited);
            reveal(limits_so_far);
        }
        let (file_size, at) = set_lower_limit(
            LimitedResource::FileSize,
            self.limits.max_file_size_bytes,
            "RLIMIT_FSIZE",
            log,
            at,
        )?;
        self.limits.max_file_size_bytes = file_size;
        let (open_files, at) = set_lower_limit(
            LimitedResource::OpenFiles,
            self.limits.max_open_files,
            "RLIMIT_NOFILE",
            log,
            at,
        )?;
        self.limits.max_open_files = open_files;
        let (_, at) = set_lower_limit(LimitedResource::CoreSize, 0, "RLIMIT_CORE", log, at)?;
        Ok(((), at))
    }

    /// Moves this process into the group.
    pub fn enter_current_process(&mut self, log: &Vec<Answer>, at: usize) -> (done: Flow<()>)
        ensures
            flow::course(done) == process_moved(
                path::join(old(self)@.path, os::lit("cgroup.procs")),
                "enter the resource cgroup"@,
                log@,
                at as int,
            ),
            final(self)@ == (Group { entered: old(self)@.entered || done is Ok, ..old(self)@ }),
    {
        let moved = write_pid(
            &self.path.join_text("cgroup.procs"),
            "enter the resource cgroup",
            log,
            at,
        );
        if moved.is_ok() {
            self.entered = true;
        }
        moved
    }

    /// Moves this process back to its own group.
    pub fn restore_current_process(&mut self, log: &Vec<Answer>, at: usize) -> (done: Flow<()>)
        ensures
            flow::course(done) == process_moved(
                path::join(old(self)@.restore, os::lit("cgroup.procs")),
                "restore the cargo-cage supervisor"@,
                log@,
                at as int,
            ),
            final(self)@ == (Group { entered: old(self)@.entered && done is Err, ..old(self)@ }),
    {
        let moved = write_pid(
            &self.restore.join_text("cgroup.procs"),
            "restore the cargo-cage supervisor",
            log,
            at,
        );
        if moved.is_ok() {
            self.entered = false;
        }
        moved
    }

    /// Kills every process of the group and waits until they are gone.
    pub fn kill_all(&self, log: &Vec<Answer>, at: usize) -> (done: Flow<()>)
        ensures
            flow::course(done) == killed(self@.path, log@, at as int),
    {
        proof {
            reveal(killed);
        }
        let (reply, at) = flow::ask_done(
            Question::WriteText(self.path.join_text("cgroup.kill"), text::owned("1\n")),
            log,
            at,
        )?;
        if let Err(failure) = reply {
            return Err(
                flow::setup_halt(
                    self.path.display().as_str(),
                    "the entire sandbox process tree must be killable through cgroup.kill",
                    "use a delegated Linux cgroup v2 subtree with cgroup.kill support",
                    failure.message.as_str(),
                    at,
                ),
            );
        }
        let (_, at) = flow::ask_done(
            Question::StartTimer(Timer::Cleanup, TimeSpan { nanoseconds: CLEANUP_TIMEOUT }),
            log,
            at,
        )?;
        wait_until_empty(&self.path, log, at)
    }

    fn clear(&self, log: &Vec<Answer>, at: usize) -> (done: Flow<()>)
        ensures
            flow::course(done) == cleared(self@.path, log@, at as int),
    {
        proof {
            reveal(cleared);
        }
        let (empty, at) = cgroup_is_empty(&self.path, log, at)?;
        if empty {
            Ok(((), at))
        } else {
            self.kill_all(log, at)
        }
    }

    /// Ends the group and reports what happened in it.
    pub fn finish(self, log: &Vec<Answer>, at: usize) -> (report: Flow<ResourceReport>)
        ensures
            flow::course(report) == finished(self@, log@, at as int),
    {
        proof {
            reveal(finished);
            reveal(returned);
        }
        let mut group = self;
        let at: usize = if group.entered {
            let (_, at) = group.restore_current_process(log, at)?;
            at
        } else {
            at
        };
        let (_, at) = group.clear(log, at)?;
        let (reply, at) = read_events(&group.path, log, at)?;
        let after = match reply {
            Ok(after) => after,
            Err(failure) => {
                return Err(
                    flow::setup_halt(
                        group.path.display().as_str(),
                        "resource event counters must remain readable after the child exits",
                        "use a delegated cgroup v2 subtree with readable event files",
                        failure.message.as_str(),
                        at,
                    ),
                );
            },
        };
        let (reply, at) = flow::ask_done(Question::RemoveDirectory(group.path.clone()), log, at)?;
        if let Err(failure) = reply {
            return Err(
                flow::setup_halt(
                    group.path.display().as_str(),
                    "the empty resource cgroup must be removable after the child exits",
                    "remove stale child processes from the delegated cgroup and retry",
                    failure.message.as_str(),
                    at,
                ),
            );
        }
        Ok((ResourceReport { limits: group.limits, before: group.before, after }, at))
    }

    /// Gives the group up before its time.
    pub fn discard(self, log: &Vec<Answer>, at: usize) -> (done: Flow<()>)
        ensures
            flow::course(done) == discarded(self@, log@, at as int),
    {
        proof {
            reveal(discarded);
        }
        let mut restored = true;
        let mut used: usize = at;
        if self.entered {
            match write_pid(
                &self.restore.join_text("cgroup.procs"),
                "restore the supervisor",
                log,
                at,
            ) {
                Ok((_, next)) => {
                    used = next;
                },
                Err(Halt::Fail(_, next)) => {
                    used = next;
                    restored = false;
                },
                Err(Halt::Ask(question)) => return Err(Halt::Ask(question)),
            }
        }
        if restored {
            let (_, next) = flow::try_flow(self.kill_all(log, used))?;
            used = next;
        }
        let (_, next) = flow::ask_done(Question::RemoveDirectory(self.path.clone()), log, used)?;
        Ok(((), next))
    }
}

proof fn lemma_emptied_advances(group: Seq<u8>, log: Seq<Answer>, at: int)
    ensures
        match emptied_from(group, log, at) {
            Ok((_, next)) => at <= next,
            Err(Pause::Fail(_, next)) => at <= next,
            Err(Pause::Ask(_)) => true,
        },
    decreases log.len() - at,
{
    if let Ok((false, seen)) = empty_group(group, log, at) {
        if let Ok((false, asked)) = flow::holds(Query::TimerExpired(Timer::Cleanup), log, seen) {
            if let Ok((_, slept)) = flow::done(Query::Sleep(CLEANUP_PAUSE), log, asked) {
                lemma_emptied_advances(group, log, slept);
            }
        }
    }
}

/// Killing a group uses up answers in order.
pub proof fn lemma_killed_advances(group: Seq<u8>, log: Seq<Answer>, at: int)
    ensures
        match killed(group, log, at) {
            Ok((_, next)) => at <= next,
            Err(Pause::Fail(_, next)) => at <= next,
            Err(Pause::Ask(_)) => true,
        },
{
    reveal(killed);
    lemma_emptied_advances(group, log, at + 2);
}

// ---------------------------------------------------------------------------
// Laws
// ---------------------------------------------------------------------------

/// The group of a sandbox never has more than was requested, and always enough
/// memory to work with.
pub proof fn groups_stay_within_the_request(requested: ResourceLimits, log: Seq<Answer>, at: int)
    requires
        discovered(requested, log, at) is Ok,
    ensures
        requested.valid(),
        ({
            let limits = discovered(requested, log, at)->Ok_0.0.limits;
            &&& limits.max_memory_bytes <= requested.max_memory_bytes
            &&& limits.max_memory_bytes >= MIN_MEMORY_BYTES
            &&& limits == budget::effective_limits(requested, limits.max_memory_bytes)
        }),
{
    reveal(discovered);
    reveal(placed);
    reveal(memory_for);
}

proof fn lemma_child_group_is_named(parent: Seq<u8>, tries: int, log: Seq<Answer>, at: int)
    requires
        child_group_from(parent, tries, log, at) is Ok,
    ensures
        exists|name: Seq<u8>|
            child_group_from(parent, tries, log, at)->Ok_0.0 == #[trigger] child_group(parent, name),
    decreases NAME_ATTEMPTS - tries,
{
    if let Ok((Some(name), next)) = flow::value(Query::FreshName, log, at) {
        let group = child_group(parent, name);
        if let Ok((Err(_), next)) = flow::done(Query::CreateDirectory(group), log, next) {
            lemma_child_group_is_named(parent, tries + 1, log, next);
        }
    }
}

/// A group that is prepared stands directly below the place found for it, under
/// a name of cargo-cage, with the limits found for it, and this process is not
/// in it.
pub proof fn prepared_groups_are_fresh(requested: ResourceLimits, log: Seq<Answer>, at: int)
    requires
        prepared(requested, log, at) is Ok,
    ensures
        !prepared(requested, log, at)->Ok_0.0.entered,
        discovered(requested, log, at) is Ok,
        exists|name: Seq<u8>|
            prepared(requested, log, at)->Ok_0.0.path == #[trigger] child_group(
                discovered(requested, log, at)->Ok_0.0.parent,
                name,
            ),
        prepared(requested, log, at)->Ok_0.0.limits == discovered(
            requested,
            log,
            at,
        )->Ok_0.0.limits,
        prepared(requested, log, at)->Ok_0.0.restore == discovered(
            requested,
            log,
            at,
        )->Ok_0.0.restore,
{
    reveal(prepared);
    reveal(prepared_at);
    let place = discovered(requested, log, at)->Ok_0;
    lemma_child_group_is_named(place.0.parent, 0, log, place.1);
}

} // verus!

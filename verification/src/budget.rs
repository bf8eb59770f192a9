//! The resource budget of a sandbox: limits, event counters and what the
//! kernel's text files say about them.

use crate::backend::ProcessStatus;
use crate::error;
use crate::error::{CageError, CageResult, Fault, IoFailure, IoFault};
use crate::flow::{Exit, Model};
use crate::os;
use crate::os::PathText;
use crate::policy::{ResourceLimitKind, ResourceLimits, TimeSpan};
use crate::scan;
use crate::text;
use crate::text::Compose;
use vstd::prelude::*;
use vstd::string::*;

verus! {

/// The least memory that a sandbox can run with.
pub const MIN_MEMORY_BYTES: u64 = 1073741824;

/// The period of the CPU quota in microseconds.
pub const CPU_PERIOD_MICROS: u64 = 100000;

/// The signal of a process that exceeded its file size limit.
pub const SIGXFSZ: i32 = 25;

/// The limits that a sandbox runs with.
#[derive(Clone, Copy, Debug, PartialEq, Eq, Structural)]
pub struct EffectiveResourceLimits {
    pub max_processes: u64,
    pub max_memory_bytes: u64,
    pub max_cpu_cores: u32,
    pub max_wall_time: TimeSpan,
    pub max_file_size_bytes: u64,
    pub max_open_files: u64,
}

/// How often the kernel enforced a limit.
#[derive(Clone, Copy, Debug, PartialEq, Eq, Structural)]
pub struct EventCounters {
    pub memory_max: u64,
    pub memory_oom_kill: u64,
    pub pids_max: u64,
}

impl Default for EventCounters {
    fn default() -> (counters: Self)
        ensures
            counters == (EventCounters { memory_max: 0, memory_oom_kill: 0, pids_max: 0 }),
    {
        EventCounters { memory_max: 0, memory_oom_kill: 0, pids_max: 0 }
    }
}

impl Model for EventCounters {
    type M = EventCounters;

    open spec fn model(&self) -> EventCounters {
        *self
    }
}

/// What a run did to its budget.
#[derive(Clone, Copy, Debug, PartialEq, Eq, Structural)]
pub struct ResourceReport {
    pub limits: EffectiveResourceLimits,
    pub before: EventCounters,
    pub after: EventCounters,
}

impl Model for ResourceReport {
    type M = ResourceReport;

    open spec fn model(&self) -> ResourceReport {
        *self
    }
}

/// A number of bytes for a message, in GiB where it is a whole number of them.
pub open spec fn bytes_text(value: u64) -> Seq<char> {
    if value % 1073741824 == 0 {
        text::decimal((value / 1073741824) as nat) + " GiB"@
    } else {
        text::decimal(value as nat) + " bytes"@
    }
}

pub fn format_bytes(value: u64) -> (text: String)
    ensures
        text@ == bytes_text(value),
{
    if value % 1073741824 == 0 {
        text::decimal_text(value / 1073741824).with(" GiB")
    } else {
        text::decimal_text(value).with(" bytes")
    }
}

/// A length of time for a message.
pub open spec fn duration_text(span: TimeSpan) -> Seq<char> {
    let seconds = span.seconds();
    if seconds == 0 {
        text::decimal(span.milliseconds()) + " ms"@
    } else if seconds % 60 == 0 {
        text::decimal(seconds / 60) + " minutes"@
    } else {
        text::decimal(seconds) + " seconds"@
    }
}

pub fn format_duration(span: TimeSpan) -> (text: String)
    ensures
        text@ == duration_text(span),
{
    let seconds: u128 = span.as_secs();
    if seconds == 0 {
        text::wide_decimal_text(span.as_millis()).with(" ms")
    } else if seconds % 60 == 0 {
        text::wide_decimal_text(seconds / 60).with(" minutes")
    } else {
        text::wide_decimal_text(seconds).with(" seconds")
    }
}

fn resource_limit_error(
    kind: ResourceLimitKind,
    limit: String,
    exit: &Exit,
    detail: &str,
    remedy: &str,
) -> (error: CageError)
    ensures
        error@ == (Fault::ResourceLimitExceeded {
            kind,
            limit: limit@,
            status: Some(ProcessStatus { code: exit.code }),
            remedy: remedy@,
            detail: detail@,
        }),
{
    CageError::ResourceLimitExceeded {
        kind,
        limit,
        status: Some(ProcessStatus { code: exit.code }),
        remedy: text::owned(remedy),
        detail: text::owned(detail),
    }
}

impl ResourceReport {
    /// The limit that ended a run, if one did: the clock first, then memory,
    /// then processes, then file size.
    pub open spec fn exceeded(self, exit: Exit, wall_time_expired: bool) -> Option<
        ResourceLimitKind,
    > {
        if wall_time_expired {
            Some(ResourceLimitKind::WallTime)
        } else if self.after.memory_oom_kill > self.before.memory_oom_kill || self.after.memory_max
            > self.before.memory_max {
            Some(ResourceLimitKind::Memory)
        } else if self.after.pids_max > self.before.pids_max {
            Some(ResourceLimitKind::Processes)
        } else if exit.signal == Some(SIGXFSZ) || exit.code == Some(153i32) {
            Some(ResourceLimitKind::FileSize)
        } else {
            None
        }
    }

    /// The limit of a kind, as diagnostics print it.
    pub open spec fn limit_text(self, kind: ResourceLimitKind) -> Seq<char> {
        match kind {
            ResourceLimitKind::WallTime => duration_text(self.limits.max_wall_time),
            ResourceLimitKind::Memory => bytes_text(self.limits.max_memory_bytes),
            ResourceLimitKind::Processes => text::decimal(self.limits.max_processes as nat),
            ResourceLimitKind::FileSize => bytes_text(self.limits.max_file_size_bytes),
        }
    }

    /// What a run over its budget reports.
    pub open spec fn fault(self, exit: Exit, wall_time_expired: bool) -> Option<Fault> {
        match self.exceeded(exit, wall_time_expired) {
            None => None,
            Some(kind) => Some(
                Fault::ResourceLimitExceeded {
                    kind,
                    limit: self.limit_text(kind),
                    status: Some(ProcessStatus { code: exit.code }),
                    remedy: remedy_for(kind),
                    detail: detail_for(kind),
                },
            ),
        }
    }

    pub fn resource_error(&self, exit: &Exit, wall_time_expired: bool) -> (error: Option<CageError>)
        ensures
            match error {
                Some(error) => self.fault(*exit, wall_time_expired) == Some(error@),
                None => self.fault(*exit, wall_time_expired) is None,
            },
    {
        if wall_time_expired {
            return Some(
                resource_limit_error(
                    ResourceLimitKind::WallTime,
                    format_duration(self.limits.max_wall_time),
                    exit,
                    "the sandbox watchdog terminated the process tree after the wall-clock budget expired",
                    "split the build, reduce its workload, or run it in a trusted environment",
                ),
            );
        }
        if self.after.memory_oom_kill > self.before.memory_oom_kill || self.after.memory_max
            > self.before.memory_max {
            return Some(
                resource_limit_error(
                    ResourceLimitKind::Memory,
                    format_bytes(self.limits.max_memory_bytes),
                    exit,
                    "the cgroup memory controller reported a memory limit event",
                    "reduce parallelism or build size, or run the workload in a trusted environment",
                ),
            );
        }
        if self.after.pids_max > self.before.pids_max {
            return Some(
                resource_limit_error(
                    ResourceLimitKind::Processes,
                    text::decimal_text(self.limits.max_processes),
                    exit,
                    "the cgroup process controller reported that pids.max was reached",
                    "reduce child-process parallelism or run the workload in a trusted environment",
                ),
            );
        }
        let signalled = match exit.signal {
            Some(signal) => signal == SIGXFSZ,
            None => false,
        };
        let reported = match exit.code {
            Some(code) => code == 128 + SIGXFSZ,
            None => false,
        };
        if signalled || reported {
            return Some(
                resource_limit_error(
                    ResourceLimitKind::FileSize,
                    format_bytes(self.limits.max_file_size_bytes),
                    exit,
                    "the process was terminated after exceeding RLIMIT_FSIZE",
                    "reduce generated file sizes or run the workload in a trusted environment",
                ),
            );
        }
        None
    }
}

pub open spec fn detail_for(kind: ResourceLimitKind) -> Seq<char> {
    match kind {
        ResourceLimitKind::WallTime =>
        "the sandbox watchdog terminated the process tree after the wall-clock budget expired"@,
        ResourceLimitKind::Memory => "the cgroup memory controller reported a memory limit event"@,
        ResourceLimitKind::Processes =>
        "the cgroup process controller reported that pids.max was reached"@,
        ResourceLimitKind::FileSize => "the process was terminated after exceeding RLIMIT_FSIZE"@,
    }
}

pub open spec fn remedy_for(kind: ResourceLimitKind) -> Seq<char> {
    match kind {
        ResourceLimitKind::WallTime =>
        "split the build, reduce its workload, or run it in a trusted environment"@,
        ResourceLimitKind::Memory =>
        "reduce parallelism or build size, or run the workload in a trusted environment"@,
        ResourceLimitKind::Processes =>
        "reduce child-process parallelism or run the workload in a trusted environment"@,
        ResourceLimitKind::FileSize =>
        "reduce generated file sizes or run the workload in a trusted environment"@,
    }
}

// ---------------------------------------------------------------------------
// Control files
// ---------------------------------------------------------------------------

/// Whether a word stands in a list of controllers, with or without a plus sign.
pub open spec fn lists_word(content: Seq<char>, word: Seq<char>) -> bool {
    scan::words(content).contains(word) || scan::words(content).contains("+"@ + word)
}

pub fn has_word(content: &str, word: &str) -> (found: bool)
    ensures
        found == lists_word(content@, word@),
{
    let list = scan::split_words(content);
    let marked = text::owned("+").with(word);
    let ghost all = scan::words(content@);
    let mut index: usize = 0;
    while index < list.len()
        invariant
            index <= list.len(),
            all == scan::strings(list@),
            all == scan::words(content@),
            marked@ == "+"@ + word@,
            forall|i: int| 0 <= i < index ==> all[i] != word@ && all[i] != marked@,
        decreases list.len() - index,
    {
        assert(all[index as int] == list[index as int]@);
        if text::same_text(list[index].as_str(), word) || text::same_text(
            list[index].as_str(),
            marked.as_str(),
        ) {
            return true;
        }
        index = index + 1;
    }
    false
}

/// The number behind a key: that of the first line which begins with it.
pub open spec fn keyed_number(lines: Seq<Seq<char>>, index: int, key: Seq<char>) -> Option<nat>
    decreases lines.len() - index,
{
    if index < 0 || index >= lines.len() {
        None
    } else {
        let words = scan::words(lines[index]);
        if words.len() > 0 && words[0] == key {
            if words.len() > 1 {
                match scan::number(words[1], u64::MAX as nat) {
                    Ok(value) => Some(value),
                    Err(_) => None,
                }
            } else {
                None
            }
        } else {
            keyed_number(lines, index + 1, key)
        }
    }
}

fn find_keyed_number(content: &str, key: &str) -> (found: Option<u64>)
    ensures
        match found {
            Some(value) => keyed_number(scan::lines(content@), 0, key@) == Some(value as nat),
            None => keyed_number(scan::lines(content@), 0, key@) is None,
        },
{
    let list = scan::split_lines(content);
    let ghost all = scan::lines(content@);
    let mut index: usize = 0;
    while index < list.len()
        invariant
            index <= list.len(),
            all == scan::strings(list@),
            all == scan::lines(content@),
            keyed_number(all, 0, key@) == keyed_number(all, index as int, key@),
        decreases list.len() - index,
    {
        assert(all[index as int] == list[index as int]@);
        let fields = scan::split_words(list[index].as_str());
        let ghost words = scan::words(all[index as int]);
        assert(words == scan::strings(fields@));
        if fields.len() > 0 {
            assert(words[0] == fields[0]@);
            if text::same_text(fields[0].as_str(), key) {
                if fields.len() < 2 {
                    return None;
                }
                assert(words[1] == fields[1]@);
                return match scan::parse_number(fields[1].as_str(), u64::MAX) {
                    Ok(value) => Some(value),
                    Err(_) => None,
                };
            }
        }
        index = index + 1;
    }
    None
}

/// A counter of an event file.
pub open spec fn counter(content: Seq<char>, key: Seq<char>, path: Seq<u8>) -> Result<
    nat,
    IoFault,
> {
    match keyed_number(scan::lines(content), 0, key) {
        Some(value) => Ok(value),
        None => Err(
            IoFault::other(key + " was missing from "@ + os::lossy_text(path)),
        ),
    }
}

pub fn parse_counter(content: &str, key: &str, path: &PathText) -> (parsed: Result<u64, IoFailure>)
    ensures
        match parsed {
            Ok(value) => counter(content@, key@, path@) == Ok::<nat, IoFault>(value as nat),
            Err(failure) => counter(content@, key@, path@) == Err::<nat, IoFault>(failure@),
        },
{
    match find_keyed_number(content, key) {
        Some(value) => Ok(value),
        None => Err(
            IoFailure::other(
                text::owned(key).with(" was missing from ").with(
                    path.display().as_str(),
                ).as_str(),
            ),
        ),
    }
}

/// A limit that may be unbounded.
pub open spec fn optional_limit(content: Seq<char>, path: Seq<u8>) -> Result<Option<u64>, Fault> {
    let inner = scan::trimmed(content);
    if inner == "max"@ {
        Ok(None)
    } else {
        match scan::number(inner, u64::MAX as nat) {
            Ok(value) => Ok(Some(value as u64)),
            Err(fault) => Err(
                Fault::SandboxSetup {
                    subject: os::lossy_text(path),
                    rule: "the parent cgroup memory limit must be numeric or max"@,
                    remedy: "repair the delegated cgroup v2 memory.max value"@,
                    detail: fault.message(),
                },
            ),
        }
    }
}

pub open spec fn limit_outcome(result: CageResult<Option<u64>>) -> Result<Option<u64>, Fault> {
    match result {
        Ok(limit) => Ok(limit),
        Err(error) => Err(error@),
    }
}

pub fn parse_optional_limit(content: &str, path: &PathText) -> (limit: CageResult<Option<u64>>)
    ensures
        limit_outcome(limit) == optional_limit(content@, path@),
{
    let inner = scan::trim(content);
    if text::same_text(inner.as_str(), "max") {
        return Ok(None);
    }
    match scan::parse_number(inner.as_str(), u64::MAX) {
        Ok(value) => Ok(Some(value)),
        Err(fault) => Err(
            CageError::sandbox_setup(
                path.display().as_str(),
                "the parent cgroup memory limit must be numeric or max",
                "repair the delegated cgroup v2 memory.max value",
                fault.as_str(),
            ),
        ),
    }
}

/// The CPU time in one period that a number of cores amounts to.
pub fn cpu_quota_micros(cores: u32) -> (quota: Option<u64>)
    ensures
        quota == Some((cores * CPU_PERIOD_MICROS) as u64),
        cores * CPU_PERIOD_MICROS <= u64::MAX,
{
    assert(cores * CPU_PERIOD_MICROS <= u64::MAX) by (nonlinear_arith)
        requires
            cores <= u32::MAX,
            CPU_PERIOD_MICROS == 100000,
    ;
    (cores as u64).checked_mul(CPU_PERIOD_MICROS)
}

/// The memory of the host in bytes, as `/proc/meminfo` gives it in kilobytes.
pub open spec fn total_memory(content: Seq<char>) -> Option<nat> {
    match keyed_number(scan::lines(content), 0, "MemTotal:"@) {
        Some(kilobytes) => if kilobytes * 1024 <= u64::MAX {
            Some(kilobytes * 1024)
        } else {
            None
        },
        None => None,
    }
}

pub fn parse_total_memory(content: &str) -> (bytes: Option<u64>)
    ensures
        match bytes {
            Some(bytes) => total_memory(content@) == Some(bytes as nat),
            None => total_memory(content@) is None,
        },
{
    match find_keyed_number(content, "MemTotal:") {
        Some(kilobytes) => kilobytes.checked_mul(1024),
        None => None,
    }
}

/// Three quarters of the host's memory, if that can be computed.
pub open spec fn host_share(memory: u64) -> Option<u64> {
    if memory * 3 <= u64::MAX {
        Some((memory * 3 / 4) as u64)
    } else {
        None
    }
}

pub fn host_budget(memory: u64) -> (budget: Option<u64>)
    ensures
        budget == host_share(memory),
{
    match memory.checked_mul(3) {
        Some(tripled) => Some(tripled / 4),
        None => None,
    }
}

pub open spec fn lesser(left: u64, right: u64) -> u64 {
    if left <= right {
        left
    } else {
        right
    }
}

/// The memory budget: what was requested, as far as the host and the parent
/// group have it.
pub open spec fn memory_budget(requested: u64, host: u64, parent: Option<u64>) -> u64 {
    lesser(lesser(requested, host), parent.unwrap_or(u64::MAX))
}

pub fn select_memory_budget(requested: u64, host: u64, parent: Option<u64>) -> (budget: u64)
    ensures
        budget == memory_budget(requested, host, parent),
{
    let shared: u64 = if requested <= host {
        requested
    } else {
        host
    };
    let bound: u64 = match parent {
        Some(limit) => limit,
        None => u64::MAX,
    };
    if shared <= bound {
        shared
    } else {
        bound
    }
}

/// The limits of a run: what was requested, with the memory budget of the
/// host.
pub open spec fn effective_limits(
    requested: ResourceLimits,
    memory: u64,
) -> EffectiveResourceLimits {
    EffectiveResourceLimits {
        max_processes: requested.max_processes,
        max_memory_bytes: memory,
        max_cpu_cores: requested.max_cpu_cores,
        max_wall_time: requested.max_wall_time,
        max_file_size_bytes: requested.max_file_size_bytes,
        max_open_files: requested.max_open_files,
    }
}

pub fn select_limits(requested: &ResourceLimits, memory: u64) -> (limits: EffectiveResourceLimits)
    ensures
        limits == effective_limits(*requested, memory),
{
    EffectiveResourceLimits {
        max_processes: requested.max_processes,
        max_memory_bytes: memory,
        max_cpu_cores: requested.max_cpu_cores,
        max_wall_time: requested.max_wall_time,
        max_file_size_bytes: requested.max_file_size_bytes,
        max_open_files: requested.max_open_files,
    }
}

/// The limit that a process can set itself when it may not exceed a hard one.
pub open spec fn lowered(requested: u64, hard: Option<u64>) -> u64 {
    lesser(requested, hard.unwrap_or(requested))
}

/// The limit that a process sets itself; nothing may come out as zero that was
/// not requested so.
pub open spec fn lowered_limit(requested: u64, hard: Option<u64>, label: Seq<char>) -> Result<
    u64,
    Fault,
> {
    if requested > 0 && lowered(requested, hard) == 0 {
        Err(
            Fault::SandboxSetup {
                subject: "current cargo-cage process"@,
                rule: label + " must allow a positive inherited limit"@,
                remedy: "raise the current user's hard resource limit and retry"@,
                detail: "the host hard limit is zero"@,
            },
        )
    } else {
        Ok(lowered(requested, hard))
    }
}

pub open spec fn number_outcome(result: CageResult<u64>) -> Result<u64, Fault> {
    match result {
        Ok(value) => Ok(value),
        Err(error) => Err(error@),
    }
}

pub fn lower_limit(requested: u64, hard: Option<u64>, label: &str) -> (limit: CageResult<u64>)
    ensures
        number_outcome(limit) == lowered_limit(requested, hard, label@),
{
    let effective: u64 = match hard {
        Some(hard) => if requested <= hard {
            requested
        } else {
            hard
        },
        None => requested,
    };
    if requested > 0 && effective == 0 {
        return Err(
            CageError::sandbox_setup(
                "current cargo-cage process",
                text::owned(label).with(" must allow a positive inherited limit").as_str(),
                "raise the current user's hard resource limit and retry",
                "the host hard limit is zero",
            ),
        );
    }
    Ok(effective)
}

/// A mount point as the mount table spells it, with blanks, tabs, line breaks
/// and backslashes put back.
pub open spec fn decoded(value: Seq<char>) -> Seq<char> {
    let blanks = scan::replaced_from(value, "\\040"@, " "@, 0);
    let tabs = scan::replaced_from(blanks, "\\011"@, "\t"@, 0);
    let breaks = scan::replaced_from(tabs, "\\012"@, "\n"@, 0);
    scan::replaced_from(breaks, "\\134"@, "\\"@, 0)
}

pub fn decode_mountinfo_path(value: &str) -> (path: String)
    ensures
        path@ == decoded(value@),
{
    proof {
        reveal_strlit("\\040");
        reveal_strlit("\\011");
        reveal_strlit("\\012");
        reveal_strlit("\\134");
    }
    let blanks = scan::replace_all(value, "\\040", " ");
    let tabs = scan::replace_all(blanks.as_str(), "\\011", "\t");
    let breaks = scan::replace_all(tabs.as_str(), "\\012", "\n");
    scan::replace_all(breaks.as_str(), "\\134", "\\")
}

/// The path of the first entry of the unified hierarchy in a list of control
/// groups.
pub open spec fn unified_entry(lines: Seq<Seq<char>>, index: int) -> Option<Seq<char>>
    decreases lines.len() - index,
{
    if index < 0 || index >= lines.len() {
        None
    } else {
        match scan::split_first(lines[index], "::"@) {
            Some((hierarchy, path)) => if hierarchy == "0"@ {
                Some(path)
            } else {
                unified_entry(lines, index + 1)
            },
            None => unified_entry(lines, index + 1),
        }
    }
}

pub fn find_unified_entry(content: &str) -> (path: Option<String>)
    ensures
        match path {
            Some(path) => unified_entry(scan::lines(content@), 0) == Some(path@),
            None => unified_entry(scan::lines(content@), 0) is None,
        },
{
    let list = scan::split_lines(content);
    let ghost all = scan::lines(content@);
    let mut index: usize = 0;
    while index < list.len()
        invariant
            index <= list.len(),
            all == scan::strings(list@),
            all == scan::lines(content@),
            unified_entry(all, 0) == unified_entry(all, index as int),
        decreases list.len() - index,
    {
        assert(all[index as int] == list[index as int]@);
        if let Some((hierarchy, path)) = scan::split_once(list[index].as_str(), "::") {
            if text::same_text(hierarchy.as_str(), "0") {
                return Some(path);
            }
        }
        index = index + 1;
    }
    None
}

/// The mount point in a line of the mount table that describes a unified
/// control group hierarchy.
pub open spec fn cgroup2_point(line: Seq<char>) -> Option<Seq<char>> {
    match scan::split_first(line, " - "@) {
        None => None,
        Some((left, right)) => {
            let kinds = scan::words(right);
            let fields = scan::words(left);
            if kinds.len() > 0 && kinds[0] == "cgroup2"@ && fields.len() >= 5 {
                Some(decoded(fields[4]))
            } else {
                None
            }
        },
    }
}

pub fn find_cgroup2_point(line: &str) -> (point: Option<String>)
    ensures
        match point {
            Some(point) => cgroup2_point(line@) == Some(point@),
            None => cgroup2_point(line@) is None,
        },
{
    let (left, right) = match scan::split_once(line, " - ") {
        Some(halves) => halves,
        None => return None,
    };
    let kinds = scan::split_words(right.as_str());
    let fields = scan::split_words(left.as_str());
    assert(scan::words(right@) == scan::strings(kinds@));
    assert(scan::words(left@) == scan::strings(fields@));
    if kinds.len() == 0 {
        return None;
    }
    assert(scan::words(right@)[0] == kinds[0]@);
    if !text::same_text(kinds[0].as_str(), "cgroup2") {
        return None;
    }
    if fields.len() < 5 {
        return None;
    }
    assert(scan::words(left@)[4] == fields[4]@);
    Some(decode_mountinfo_path(fields[4].as_str()))
}

// ---------------------------------------------------------------------------
// Laws
// ---------------------------------------------------------------------------

/// A memory budget never exceeds what was requested, what the host has or what
/// the parent group allows, and is one of the three.
pub proof fn memory_budgets_never_grow(requested: u64, host: u64, parent: Option<u64>)
    ensures
        memory_budget(requested, host, parent) <= requested,
        memory_budget(requested, host, parent) <= host,
        parent matches Some(limit) ==> memory_budget(requested, host, parent) <= limit,
        memory_budget(requested, host, parent) == requested || memory_budget(
            requested,
            host,
            parent,
        ) == host || Some(memory_budget(requested, host, parent)) == parent,
{
}

/// An inherited limit never exceeds what was requested or the hard limit, and
/// is positive where a positive one was requested.
pub proof fn inherited_limits_never_grow(requested: u64, hard: Option<u64>, label: Seq<char>)
    requires
        lowered_limit(requested, hard, label) is Ok,
    ensures
        lowered_limit(requested, hard, label)->Ok_0 <= requested,
        hard matches Some(limit) ==> lowered_limit(requested, hard, label)->Ok_0 <= limit,
        requested > 0 ==> lowered_limit(requested, hard, label)->Ok_0 > 0,
{
}

/// A run that stayed within its budget is not reported, whatever its exit code
/// apart from that of the file size signal.
pub proof fn runs_within_budget_are_not_reported(report: ResourceReport, exit: Exit)
    requires
        report.after == report.before,
        exit.signal != Some(SIGXFSZ),
        exit.code != Some(153i32),
    ensures
        report.fault(exit, false) is None,
{
}

/// A mount point without a backslash is its own spelling.
pub proof fn plain_mount_points_are_unchanged(value: Seq<char>)
    requires
        !value.contains('\\'),
    ensures
        decoded(value) == value,
{
    reveal_strlit("\\040");
    reveal_strlit("\\011");
    reveal_strlit("\\012");
    reveal_strlit("\\134");
    lemma_without_backslash(value, "\\040"@);
    lemma_without_backslash(value, "\\011"@);
    lemma_without_backslash(value, "\\012"@);
    lemma_without_backslash(value, "\\134"@);
    scan::lemma_replace_nothing(value, "\\040"@, " "@);
    scan::lemma_replace_nothing(value, "\\011"@, "\t"@);
    scan::lemma_replace_nothing(value, "\\012"@, "\n"@);
    scan::lemma_replace_nothing(value, "\\134"@, "\\"@);
}

proof fn lemma_without_backslash(value: Seq<char>, pattern: Seq<char>)
    requires
        !value.contains('\\'),
        pattern.len() > 0,
        pattern[0] == '\\',
    ensures
        !scan::occurs(value, pattern),
{
    if scan::occurs(value, pattern) {
        let index = choose|index: int| scan::occurs_at(value, pattern, index);
        let part = value.subrange(index, index + pattern.len());
        assert(part[0] == pattern[0]);
        assert(value[index] == '\\');
    }
}

} // verus!

//! What a resource budget comes to: which limits a sandbox runs with, how they
//! are enforced, and what is reported of them.

use crate::budget;
use crate::budget::{EffectiveResourceLimits, ResourceReport};
use crate::cgroup;
use crate::cgroup::Group;
use crate::flow;
use crate::flow::{Answer, Exit, LimitedResource, Pause, Query, Timer};
use crate::os;
use crate::path;
use crate::policy::{ResourceLimitKind, ResourceLimits, TimeSpan};
use crate::scan;
use crate::text;
use vstd::prelude::*;
use vstd::string::*;
use vstd::utf8::*;

verus! {

// ---------------------------------------------------------------------------
// The limits of a run
// ---------------------------------------------------------------------------

/// A group is given what was requested, limit by limit; only the memory can be
/// less, and then it is the host's share or what the group above allows.
pub proof fn requested_limits_are_kept(requested: ResourceLimits, log: Seq<Answer>, at: int)
    ensures
        cgroup::discovered(requested, log, at) matches Ok((place, _)) ==> {
            &&& place.limits.max_processes == requested.max_processes
            &&& place.limits.max_cpu_cores == requested.max_cpu_cores
            &&& place.limits.max_wall_time == requested.max_wall_time
            &&& place.limits.max_file_size_bytes == requested.max_file_size_bytes
            &&& place.limits.max_open_files == requested.max_open_files
            &&& 1024 * 1024 * 1024 <= place.limits.max_memory_bytes <= requested.max_memory_bytes
        },
        cgroup::prepared(requested, log, at) matches Ok((group, _)) ==> {
            &&& group.limits.max_processes == requested.max_processes
            &&& group.limits.max_cpu_cores == requested.max_cpu_cores
            &&& group.limits.max_wall_time == requested.max_wall_time
            &&& group.limits.max_file_size_bytes == requested.max_file_size_bytes
            &&& group.limits.max_open_files == requested.max_open_files
            &&& 1024 * 1024 * 1024 <= group.limits.max_memory_bytes <= requested.max_memory_bytes
        },
        !requested.valid() ==> cgroup::discovered(requested, log, at) is Err,
{
    if cgroup::prepared(requested, log, at) is Ok {
        cgroup::prepared_groups_are_fresh(requested, log, at);
    }
    reveal(cgroup::discovered);
    reveal(cgroup::placed);
    reveal(cgroup::memory_for);
}

/// The memory of a run is the least of what was requested, three quarters of
/// the host's memory and what the group above allows, and at least 1 GiB; with
/// less there is no run.
pub proof fn memory_is_the_least_of_three(
    requested: u64,
    parent: Seq<u8>,
    log: Seq<Answer>,
    at: int,
    host: u64,
    next: int,
    limit: Option<u64>,
    after: int,
)
    requires
        cgroup::host_memory(log, at) == Ok::<(u64, int), Pause>((host, next)),
        host * 3 <= u64::MAX,
        cgroup::optional_control(path::join(parent, os::lit("memory.max")), log, next) == Ok::<
            (Option<u64>, int),
            Pause,
        >((limit, after)),
    ensures
        ({
            let share = host * 3 / 4;
            let enough = {
                &&& requested >= 1024 * 1024 * 1024
                &&& share >= 1024 * 1024 * 1024
                &&& limit matches Some(bytes) ==> bytes >= 1024 * 1024 * 1024
            };
            match cgroup::memory_for(requested, parent, log, at) {
                Ok((bytes, used)) => {
                    &&& enough
                    &&& used == after
                    &&& bytes <= requested && bytes <= share
                    &&& limit matches Some(most) ==> bytes <= most
                    &&& bytes == requested || bytes == share || limit == Some(bytes)
                },
                Err(pause) => !enough && pause is Fail,
            }
        }),
{
    reveal(cgroup::memory_for);
}

/// The host's memory is the number of kilobytes that stands behind `MemTotal:`
/// in the first line that begins with it.
pub proof fn host_memory_is_what_the_kernel_says(content: Seq<char>, place: int, value: nat)
    requires
        0 <= place < scan::lines(content).len(),
        scan::words(scan::lines(content)[place]).len() > 1,
        scan::words(scan::lines(content)[place])[0] == "MemTotal:"@,
        scan::words(scan::lines(content)[place])[1] == text::decimal(value),
        forall|i: int|
            0 <= i < place ==> {
                let words = scan::words(#[trigger] scan::lines(content)[i]);
                words.len() == 0 || words[0] != "MemTotal:"@
            },
        value * 1024 <= u64::MAX,
    ensures
        budget::total_memory(content) == Some((value * 1024) as nat),
{
    lemma_keyed(scan::lines(content), 0, place, "MemTotal:"@, value);
}

proof fn lemma_keyed(lines: Seq<Seq<char>>, index: int, place: int, key: Seq<char>, value: nat)
    requires
        0 <= index <= place < lines.len(),
        scan::words(lines[place]).len() > 1,
        scan::words(lines[place])[0] == key,
        scan::words(lines[place])[1] == text::decimal(value),
        forall|i: int|
            index <= i < place ==> {
                let words = scan::words(#[trigger] lines[i]);
                words.len() == 0 || words[0] != key
            },
        value <= u64::MAX,
    ensures
        budget::keyed_number(lines, index, key) == Some(value),
    decreases place - index,
{
    if index < place {
        assert(scan::words(lines[index]).len() == 0 || scan::words(lines[index])[0] != key);
        lemma_keyed(lines, index + 1, place, key, value);
    } else {
        numbers_are_read_as_written(value, u64::MAX as nat);
    }
}

/// A counter is the number behind its key in the first line that begins with
/// the key.
pub proof fn counters_are_found_by_their_key(
    content: Seq<char>,
    key: Seq<char>,
    file: Seq<u8>,
    place: int,
    value: nat,
)
    requires
        0 <= place < scan::lines(content).len(),
        scan::words(scan::lines(content)[place]).len() > 1,
        scan::words(scan::lines(content)[place])[0] == key,
        scan::words(scan::lines(content)[place])[1] == text::decimal(value),
        forall|i: int|
            0 <= i < place ==> {
                let words = scan::words(#[trigger] scan::lines(content)[i]);
                words.len() == 0 || words[0] != key
            },
        value <= u64::MAX,
    ensures
        budget::counter(content, key, file) == Ok::<nat, crate::error::IoFault>(value),
{
    lemma_keyed(scan::lines(content), 0, place, key, value);
}

/// Reading a number that was written in decimal gives the number back.
pub proof fn numbers_are_read_as_written(value: nat, max: nat)
    requires
        value <= max,
    ensures
        scan::number(text::decimal(value), max) == Ok::<nat, scan::NumberFault>(value),
{
    lemma_decimal_digits(value);
    lemma_number_read(value, max, text::decimal(value).len() as int);
    let digits = text::decimal(value);
    assert(digits.take(digits.len() as int) =~= digits);
}

/// The number that the first digits of a decimal stand for.
pub open spec fn leading(digits: Seq<char>, count: int) -> nat
    decreases count,
{
    if count <= 0 {
        0
    } else {
        leading(digits, count - 1) * 10 + (digits[count - 1] as u32 - '0' as u32) as nat
    }
}

pub proof fn lemma_decimal_digits(value: nat)
    ensures
        text::decimal(value).len() > 0,
        forall|i: int|
            0 <= i < text::decimal(value).len() ==> '0' <= #[trigger] text::decimal(value)[i]
                <= '9',
        leading(text::decimal(value), text::decimal(value).len() as int) == value,
    decreases value,
{
    let digits = text::decimal(value);
    if value < 10 {
        assert(digits =~= seq![text::digit(value)]);
        reveal_with_fuel(leading, 2);
    } else {
        lemma_decimal_digits(value / 10);
        let before = text::decimal(value / 10);
        assert(digits =~= before.push(text::digit(value % 10)));
        lemma_leading_same(before, digits, before.len() as int);
    }
}

proof fn lemma_leading_same(left: Seq<char>, right: Seq<char>, count: int)
    requires
        0 <= count <= left.len(),
        count <= right.len(),
        forall|i: int| 0 <= i < count ==> left[i] == right[i],
    ensures
        leading(left, count) == leading(right, count),
    decreases count,
{
    if count > 0 {
        lemma_leading_same(left, right, count - 1);
    }
}

proof fn lemma_leading_grows(digits: Seq<char>, count: int)
    requires
        0 <= count <= digits.len(),
        forall|i: int| 0 <= i < digits.len() ==> '0' <= #[trigger] digits[i] <= '9',
    ensures
        leading(digits, count) <= leading(digits, digits.len() as int),
    decreases digits.len() - count,
{
    if count < digits.len() {
        lemma_leading_grows(digits, count + 1);
        assert(leading(digits, count + 1) >= leading(digits, count) * 10);
    }
}

proof fn lemma_number_read(value: nat, max: nat, count: int)
    requires
        value <= max,
        0 <= count <= text::decimal(value).len(),
    ensures
        scan::number(text::decimal(value), max) == scan::number_from(
            text::decimal(value),
            count,
            leading(text::decimal(value), count),
            max,
        ),
        count == text::decimal(value).len() ==> scan::number(text::decimal(value), max) == Ok::<
            nat,
            scan::NumberFault,
        >(value),
    decreases count,
{
    let digits = text::decimal(value);
    lemma_decimal_digits(value);
    if count > 0 {
        lemma_number_read(value, max, count - 1);
        lemma_leading_grows(digits, count);
    } else {
        assert(digits[0] != '+');
    }
}

/// The limit of a group above is unlimited where it says `max`, and else the
/// number that it says.
pub proof fn parent_limits_are_numbers_or_max(content: Seq<char>, file: Seq<u8>, value: u64)
    ensures
        scan::trimmed(content) == "max"@ ==> budget::optional_limit(content, file) == Ok::<
            Option<u64>,
            crate::error::Fault,
        >(None),
        scan::trimmed(content) == text::decimal(value as nat) && scan::trimmed(content) != "max"@
            ==> budget::optional_limit(content, file) == Ok::<Option<u64>, crate::error::Fault>(
            Some(value),
        ),
{
    numbers_are_read_as_written(value as nat, u64::MAX as nat);
}

// ---------------------------------------------------------------------------
// How limits are enforced
// ---------------------------------------------------------------------------

/// Whether every answer from `at` on is that an order was carried out.
pub open spec fn all_done(log: Seq<Answer>, at: int) -> bool {
    &&& 0 <= at <= log.len()
    &&& forall|i: int| at <= i < log.len() ==> (#[trigger] log[i]) is Done && log[i]->Done_0 is Ok
}

/// A group is limited by writing, one after another, the number of processes,
/// the bytes of memory, no swap, that it is killed as a whole, and the share of
/// the processors: as many tenths of a second in each as there are cores.
pub proof fn limits_are_written_one_after_another(
    group: Seq<u8>,
    limits: EffectiveResourceLimits,
    log: Seq<Answer>,
    at: int,
)
    requires
        all_done(log, at),
    ensures
        ({
            let course = cgroup::limits_written(group, limits, log, at);
            let given = log.len() - at;
            &&& given == 0 ==> course == Err::<((), int), Pause>(
                Pause::Ask(
                    Query::WriteText(
                        path::join(group, os::lit("pids.max")),
                        text::decimal(limits.max_processes as nat) + "\n"@,
                    ),
                ),
            )
            &&& given == 1 ==> course == Err::<((), int), Pause>(
                Pause::Ask(
                    Query::WriteText(
                        path::join(group, os::lit("memory.max")),
                        text::decimal(limits.max_memory_bytes as nat) + "\n"@,
                    ),
                ),
            )
            &&& given == 2 ==> course == Err::<((), int), Pause>(
                Pause::Ask(
                    Query::WriteText(path::join(group, os::lit("memory.swap.max")), "0"@ + "\n"@),
                ),
            )
            &&& given == 3 ==> course == Err::<((), int), Pause>(
                Pause::Ask(
                    Query::WriteText(path::join(group, os::lit("memory.oom.group")), "1"@ + "\n"@),
                ),
            )
            &&& given == 4 ==> course == Err::<((), int), Pause>(
                Pause::Ask(
                    Query::WriteText(
                        path::join(group, os::lit("cpu.max")),
                        text::decimal((limits.max_cpu_cores * 100000) as nat) + " "@
                            + text::decimal(100000) + "\n"@,
                    ),
                ),
            )
            &&& given >= 5 ==> course == Ok::<((), int), Pause>(((), at + 5))
        }),
{
    reveal(cgroup::limits_written);
    assert(forall|i: int|
        at <= i < log.len() ==> #[trigger] flow::given(log, i) == Some(log[i]) && log[i] is Done
            && log[i]->Done_0 is Ok);
}

/// Before a group is limited, it must have the files with which it is killed
/// and with which its events are counted; and no limit may be left unwritten.
pub proof fn groups_are_checked_before_they_are_limited(
    group: Seq<u8>,
    limits: EffectiveResourceLimits,
    log: Seq<Answer>,
    at: int,
)
    requires
        0 <= at,
    ensures
        ({
            let course = cgroup::configured(group, limits, log, at);
            &&& flow::given(log, at) is None ==> course == Err::<((), int), Pause>(
                Pause::Ask(Query::Follow(path::join(group, os::lit("cgroup.kill")))),
            )
            &&& flow::given(log, at) matches Some(Answer::Entry(Err(_))) ==> (course matches Err(
                Pause::Fail(fault, _),
            ) && fault is SandboxSetup)
            &&& flow::given(log, at) matches Some(Answer::Entry(Ok(_))) ==> {
                &&& flow::given(log, at + 1) is None ==> course == Err::<((), int), Pause>(
                    Pause::Ask(Query::Follow(path::join(group, os::lit("memory.events")))),
                )
                &&& flow::given(log, at + 1) matches Some(Answer::Entry(Err(_))) ==> (
                course matches Err(Pause::Fail(fault, _)) && fault is SandboxSetup)
                &&& flow::given(log, at + 1) matches Some(Answer::Entry(Ok(_))) ==> {
                    &&& flow::given(log, at + 2) is None ==> course == Err::<((), int), Pause>(
                        Pause::Ask(Query::Follow(path::join(group, os::lit("pids.events")))),
                    )
                    &&& flow::given(log, at + 2) matches Some(Answer::Entry(Err(_))) ==> (
                    course matches Err(Pause::Fail(fault, _)) && fault is SandboxSetup)
                    &&& flow::given(log, at + 2) matches Some(Answer::Entry(Ok(_)))
                        ==> course == cgroup::limits_written(group, limits, log, at + 3)
                }
            }
        }),
{
    reveal(cgroup::configured);
    reveal(cgroup::required_controls);
}

/// A limit of the process itself is set to what was requested, or to the hard
/// limit where that is less.
pub proof fn process_limits_are_set_to_the_lesser(
    resource: LimitedResource,
    requested: u64,
    label: Seq<char>,
    log: Seq<Answer>,
    at: int,
)
    requires
        0 <= at,
    ensures
        ({
            let course = cgroup::resource_limited(resource, requested, label, log, at);
            &&& flow::given(log, at) is None ==> course == Err::<(u64, int), Pause>(
                Pause::Ask(Query::HardLimit(resource)),
            )
            &&& flow::given(log, at) matches Some(Answer::Limit(hard)) ==> {
                let least = match hard {
                    Some(most) => if most < requested {
                        most
                    } else {
                        requested
                    },
                    None => requested,
                };
                &&& requested > 0 && least == 0 ==> course is Err && course->Err_0 is Fail
                &&& (requested == 0 || least > 0) && flow::given(log, at + 1) is None ==> course
                    == Err::<(u64, int), Pause>(Pause::Ask(Query::SetLimit(resource, least)))
                &&& (requested == 0 || least > 0) ==> (flow::given(log, at + 1) matches Some(
                    Answer::Done(Ok(_)),
                ) ==> course == Ok::<(u64, int), Pause>((least, at + 2)))
                &&& (requested == 0 || least > 0) ==> (flow::given(log, at + 1) matches Some(
                    Answer::Done(Err(_)),
                ) ==> (course matches Err(Pause::Fail(fault, _)) && fault is SandboxSetup))
            }
        }),
{
}

/// The process passes on its limits of file size and open files, and no core
/// dumps; the other limits stay as they are.
pub proof fn three_limits_are_passed_on(
    limits: EffectiveResourceLimits,
    log: Seq<Answer>,
    at: int,
    sizes: u64,
    first: int,
    files: u64,
    second: int,
    cores: u64,
    third: int,
)
    requires
        cgroup::resource_limited(
            LimitedResource::FileSize,
            limits.max_file_size_bytes,
            "RLIMIT_FSIZE"@,
            log,
            at,
        ) == Ok::<(u64, int), Pause>((sizes, first)),
        cgroup::resource_limited(
            LimitedResource::OpenFiles,
            limits.max_open_files,
            "RLIMIT_NOFILE"@,
            log,
            first,
        ) == Ok::<(u64, int), Pause>((files, second)),
        cgroup::resource_limited(LimitedResource::CoreSize, 0, "RLIMIT_CORE"@, log, second) == Ok::<
            (u64, int),
            Pause,
        >((cores, third)),
    ensures
        cgroup::inherited(limits, log, at) matches Ok((lowered, used)) && {
            &&& used == third
            &&& lowered.max_file_size_bytes == sizes
            &&& lowered.max_open_files == files
            &&& lowered.max_processes == limits.max_processes
            &&& lowered.max_memory_bytes == limits.max_memory_bytes
            &&& lowered.max_cpu_cores == limits.max_cpu_cores
            &&& lowered.max_wall_time == limits.max_wall_time
        },
{
    reveal(cgroup::inherited);
}

/// A process moves to a group by writing its own number there.
pub proof fn processes_move_by_their_number(
    file: Seq<u8>,
    action: Seq<char>,
    log: Seq<Answer>,
    at: int,
)
    requires
        0 <= at,
    ensures
        ({
            let course = cgroup::process_moved(file, action, log, at);
            &&& flow::given(log, at) is None ==> course == Err::<((), int), Pause>(
                Pause::Ask(Query::ProcessId),
            )
            &&& flow::given(log, at) matches Some(Answer::Identity(process)) ==> {
                &&& flow::given(log, at + 1) is None ==> course == Err::<((), int), Pause>(
                    Pause::Ask(
                        Query::WriteText(file, text::decimal(process as nat) + "\n"@),
                    ),
                )
                &&& flow::given(log, at + 1) matches Some(Answer::Done(Ok(_))) ==> course == Ok::<
                    ((), int),
                    Pause,
                >(((), at + 2))
                &&& flow::given(log, at + 1) matches Some(Answer::Done(Err(_))) ==> course is Err
                    && course->Err_0 is Fail
            }
        }),
{
}

/// A group is killed as a whole; then its processes have two seconds to be
/// gone.
pub proof fn groups_are_killed_as_a_whole(group: Seq<u8>, log: Seq<Answer>, at: int)
    requires
        0 <= at,
    ensures
        ({
            let course = cgroup::killed(group, log, at);
            &&& flow::given(log, at) is None ==> course == Err::<((), int), Pause>(
                Pause::Ask(
                    Query::WriteText(path::join(group, os::lit("cgroup.kill")), "1\n"@),
                ),
            )
            &&& flow::given(log, at) matches Some(Answer::Done(Err(_))) ==> (course matches Err(
                Pause::Fail(fault, _),
            ) && fault is SandboxSetup)
            &&& flow::given(log, at) matches Some(Answer::Done(Ok(_))) ==> {
                &&& flow::given(log, at + 1) is None ==> course == Err::<((), int), Pause>(
                    Pause::Ask(
                        Query::StartTimer(Timer::Cleanup, TimeSpan { nanoseconds: 2000000000 }),
                    ),
                )
                &&& flow::given(log, at + 1) matches Some(Answer::Done(_)) ==> {
                    &&& flow::given(log, at + 2) is None ==> course == Err::<((), int), Pause>(
                        Pause::Ask(Query::ReadText(path::join(group, os::lit("cgroup.procs")))),
                    )
                    &&& flow::given(log, at + 2) matches Some(Answer::Content(Ok(content)))
                        ==> {
                        let empty = forall|i: int|
                            0 <= i < scan::lines(content@).len() ==> scan::trimmed(
                                #[trigger] scan::lines(content@)[i],
                            ).len() == 0;
                        &&& empty ==> course == Ok::<((), int), Pause>(((), at + 3))
                        &&& !empty && flow::given(log, at + 3) is None ==> course == Err::<
                            ((), int),
                            Pause,
                        >(Pause::Ask(Query::TimerExpired(Timer::Cleanup)))
                        &&& !empty ==> (flow::given(log, at + 3) matches Some(Answer::Holds(true))
                            ==> (course matches Err(Pause::Fail(fault, _)) && fault
                            is SandboxSetup))
                    }
                }
            }
        }),
{
    reveal(cgroup::killed);
}

/// When a run is over, the process leaves the group, the group is emptied, its
/// events are read, it is removed, and what it was and what happened is
/// reported.
pub proof fn finished_groups_are_removed_and_reported(
    group: Group,
    log: Seq<Answer>,
    at: int,
    left: int,
    empty: int,
)
    requires
        0 <= at,
        group.entered ==> cgroup::process_moved(
            path::join(group.restore, os::lit("cgroup.procs")),
            "restore the cargo-cage supervisor"@,
            log,
            at,
        ) == Ok::<((), int), Pause>(((), left)),
        !group.entered ==> left == at,
        cgroup::cleared(group.path, log, left) == Ok::<((), int), Pause>(((), empty)),
    ensures
        cgroup::events(group.path, log, empty) matches Ok((Ok(after), read)) ==> {
            let course = cgroup::finished(group, log, at);
            &&& flow::given(log, read) is None ==> course == Err::<(ResourceReport, int), Pause>(
                Pause::Ask(Query::RemoveDirectory(group.path)),
            )
            &&& flow::given(log, read) matches Some(Answer::Done(Ok(_))) ==> course == Ok::<
                (ResourceReport, int),
                Pause,
            >((ResourceReport { limits: group.limits, before: group.before, after }, read + 1))
            &&& flow::given(log, read) matches Some(Answer::Done(Err(_))) ==> course is Err
                && course->Err_0 is Fail
        },
        cgroup::events(group.path, log, empty) matches Ok((Err(_), _)) ==> cgroup::finished(
            group,
            log,
            at,
        ) is Err,
{
    reveal(cgroup::finished);
    reveal(cgroup::returned);
}

/// A group that holds no process is left alone, any other is killed.
pub proof fn only_populated_groups_are_killed(group: Seq<u8>, log: Seq<Answer>, at: int)
    ensures
        cgroup::empty_group(group, log, at) matches Ok((true, next)) ==> cgroup::cleared(
            group,
            log,
            at,
        ) == Ok::<((), int), Pause>(((), next)),
        cgroup::empty_group(group, log, at) matches Ok((false, next)) ==> cgroup::cleared(
            group,
            log,
            at,
        ) == cgroup::killed(group, log, next),
{
    reveal(cgroup::cleared);
}

// ---------------------------------------------------------------------------
// Where a group may be
// ---------------------------------------------------------------------------

/// Three controllers have to be available and passed on: a group that lacks any
/// of them is of no use.
pub proof fn all_controllers_are_needed(available: Seq<char>, enabled: Seq<char>)
    ensures
        cgroup::controllers_listed(available, enabled) <==> {
            &&& budget::lists_word(available, "cpu"@) && budget::lists_word(enabled, "cpu"@)
            &&& budget::lists_word(available, "memory"@) && budget::lists_word(enabled, "memory"@)
            &&& budget::lists_word(available, "pids"@) && budget::lists_word(enabled, "pids"@)
        },
        forall|word: Seq<char>| #[trigger]
            budget::lists_word(available, word) <==> scan::words(available).contains(word)
                || scan::words(available).contains(seq!['+'] + word),
{
    reveal_strlit("+");
    assert("+"@ =~= seq!['+']);
}

/// The group that a run is placed below is the nearest one that can be used,
/// going up from the process's own group: it contains that one.
pub proof fn delegated_groups_contain_the_process(
    mount: Seq<u8>,
    restore: Seq<u8>,
    candidate: Seq<u8>,
    log: Seq<Answer>,
    at: int,
)
    requires
        path::within(restore, candidate),
    ensures
        cgroup::delegated_from(mount, restore, candidate, log, at) matches Ok((parent, _))
            ==> path::within(restore, parent),
        cgroup::usable(candidate, log, at) matches Ok((true, next)) ==> cgroup::delegated_from(
            mount,
            restore,
            candidate,
            log,
            at,
        ) == Ok::<(Seq<u8>, int), Pause>((candidate, next)),
        cgroup::usable(candidate, log, at) matches Ok((false, next)) ==> {
            &&& path::same_path(candidate, mount) ==> cgroup::delegated_from(
                mount,
                restore,
                candidate,
                log,
                at,
            ) is Err
            &&& !path::same_path(candidate, mount) ==> (path::parent(candidate) matches Some(above)
                ==> cgroup::delegated_from(mount, restore, candidate, log, at)
                == cgroup::delegated_from(mount, restore, above, log, next))
        },
    decreases path::parts(candidate).len(),
{
    if let Ok((false, next)) = cgroup::usable(candidate, log, at) {
        if let Some(above) = path::parent(candidate) {
            path::lemma_parent_parts(candidate);
            let all = path::parts(restore);
            assert(path::parts(above) =~= all.subrange(0, path::parts(above).len() as int)) by {
                assert(path::parts(candidate) =~= all.subrange(
                    0,
                    path::parts(candidate).len() as int,
                ));
                assert forall|i: int| 0 <= i < path::parts(above).len() implies path::parts(
                    above,
                )[i] == all[i] by {
                    assert(path::parts(above)[i] == path::parts(candidate)[i]);
                    assert(path::parts(candidate)[i] == all[i]);
                }
            }
            delegated_groups_contain_the_process(mount, restore, above, log, next);
        }
    }
}

/// What is asked to find the hierarchy, the process's group and the memory of
/// the host.
pub proof fn the_kernel_is_asked_in_its_own_files(log: Seq<Answer>, at: int)
    requires
        flow::given(log, at) is None,
    ensures
        cgroup::hierarchy(log, at) == Err::<(Seq<u8>, int), Pause>(
            Pause::Ask(Query::Follow(os::lit("/sys/fs/cgroup"))),
        ),
        cgroup::own_group(log, at) == Err::<(Seq<u8>, int), Pause>(
            Pause::Ask(Query::ReadText(os::lit("/proc/self/cgroup"))),
        ),
        cgroup::host_memory(log, at) == Err::<(u64, int), Pause>(
            Pause::Ask(Query::ReadText(os::lit("/proc/meminfo"))),
        ),
{
    reveal(cgroup::hierarchy);
    reveal(cgroup::own_group);
}

// ---------------------------------------------------------------------------
// What is reported
// ---------------------------------------------------------------------------

/// A run that was ended by a limit is reported with that limit: the clock
/// first, then memory, then processes, then file size. Nothing else is.
pub proof fn exceeded_limits_are_reported(report: ResourceReport, exit: Exit, expired: bool)
    ensures
        ({
            let memory = report.after.memory_max > report.before.memory_max
                || report.after.memory_oom_kill > report.before.memory_oom_kill;
            let processes = report.after.pids_max > report.before.pids_max;
            let size = exit.signal == Some(25i32) || exit.code == Some(153i32);
            let kind = if expired {
                Some(ResourceLimitKind::WallTime)
            } else if memory {
                Some(ResourceLimitKind::Memory)
            } else if processes {
                Some(ResourceLimitKind::Processes)
            } else if size {
                Some(ResourceLimitKind::FileSize)
            } else {
                None
            };
            match report.fault(exit, expired) {
                None => kind is None,
                Some(crate::error::Fault::ResourceLimitExceeded {
                    kind: reported,
                    limit,
                    status,
                    remedy,
                    detail,
                }) => {
                    &&& kind == Some(reported)
                    &&& status == Some(crate::backend::ProcessStatus { code: exit.code })
                    &&& reported == ResourceLimitKind::Processes ==> limit == text::decimal(
                        report.limits.max_processes as nat,
                    )
                    &&& reported == ResourceLimitKind::WallTime ==> limit == budget::duration_text(
                        report.limits.max_wall_time,
                    )
                    &&& reported == ResourceLimitKind::Memory ==> limit == budget::bytes_text(
                        report.limits.max_memory_bytes,
                    )
                    &&& reported == ResourceLimitKind::FileSize ==> limit == budget::bytes_text(
                        report.limits.max_file_size_bytes,
                    )
                },
                Some(_) => false,
            }
        }),
{
}

/// Amounts are shown in the largest unit that they are a whole number of:
/// bytes or GiB; milliseconds below a second, else minutes or seconds.
pub proof fn amounts_are_shown_in_whole_units(bytes: u64, span: TimeSpan, count: nat)
    ensures
        bytes == count * 1073741824 ==> budget::bytes_text(bytes) == text::decimal(count)
            + " GiB"@,
        bytes as nat % (1024 * 1024 * 1024) != 0 ==> budget::bytes_text(bytes) == text::decimal(
            bytes as nat,
        ) + " bytes"@,
        span.nanoseconds < 1000000000 ==> budget::duration_text(span) == text::decimal(
            (span.nanoseconds / 1000000) as nat,
        ) + " ms"@,
        count > 0 && span.seconds() == 60 * count ==> budget::duration_text(span) == text::decimal(
            count,
        ) + " minutes"@,
        span.seconds() % 60 != 0 ==> budget::duration_text(span) == text::decimal(span.seconds())
            + " seconds"@,
{
}

} // verus!

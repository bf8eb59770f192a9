//! How Bubblewrap is found and tried out, and how a program is started in it.

use crate::backend::{Job, OutputMode, ProcessStatus};
use crate::bubblewrap;
use crate::bubblewrap::Backend;
use crate::budget_laws;
use crate::bwrap;
use crate::capture;
use crate::capture::CapturedRun;
use crate::cgroup;
use crate::cgroup::Group;
use crate::error::Fault;
use crate::flow;
use crate::flow::{Answer, Child, FileKind, Pause, Query, Said, Tool};
use crate::mounts;
use crate::os;
use crate::path;
use crate::plan::Layout;
use crate::policy::NetworkAccess;
use crate::text;
use vstd::prelude::*;
use vstd::string::*;
use vstd::utf8::*;

verus! {

// ---------------------------------------------------------------------------
// Versions
// ---------------------------------------------------------------------------

proof fn lemma_dot(s: Seq<char>, index: int, place: int)
    requires
        0 <= index <= place <= s.len(),
        forall|i: int| index <= i < place ==> s[i] != '.',
        place == s.len() || s[place] == '.',
    ensures
        bubblewrap::dot_from(s, index) == place,
    decreases place - index,
{
    if index < place {
        lemma_dot(s, index + 1, place);
    }
}

proof fn lemma_all_digits(s: Seq<char>, index: int)
    requires
        0 <= index <= s.len(),
        forall|i: int| 0 <= i < s.len() ==> '0' <= #[trigger] s[i] <= '9',
    ensures
        bubblewrap::digits_end(s, index) == s.len(),
    decreases s.len() - index,
{
    if index < s.len() {
        lemma_all_digits(s, index + 1);
    }
}

/// A word that spells three numbers between dots is read as that version, with
/// or without a `v` before it.
pub proof fn versions_are_read_as_written(major: u32, minor: u32, patch: u32)
    ensures
        ({
            let word = text::decimal(major as nat) + seq!['.'] + text::decimal(minor as nat)
                + seq!['.'] + text::decimal(patch as nat);
            &&& bubblewrap::word_version(word) == Some((major, minor, patch))
            &&& bubblewrap::word_version(seq!['v'] + word) == Some((major, minor, patch))
        }),
{
    let a = text::decimal(major as nat);
    let b = text::decimal(minor as nat);
    let c = text::decimal(patch as nat);
    let word = a + seq!['.'] + b + seq!['.'] + c;
    budget_laws::lemma_decimal_digits(major as nat);
    budget_laws::lemma_decimal_digits(minor as nat);
    budget_laws::lemma_decimal_digits(patch as nat);
    budget_laws::numbers_are_read_as_written(major as nat, u32::MAX as nat);
    budget_laws::numbers_are_read_as_written(minor as nat, u32::MAX as nat);
    budget_laws::numbers_are_read_as_written(patch as nat, u32::MAX as nat);
    let first = a.len() as int;
    let second = first + 1 + b.len();
    assert forall|i: int| 0 <= i < first implies #[trigger] word[i] != '.' by {
        assert(word[i] == a[i]);
    }
    assert(word[first] == '.' && word[second] == '.');
    assert forall|i: int| first < i < second implies #[trigger] word[i] != '.' by {
        assert(word[i] == b[i - first - 1]);
    }
    assert forall|i: int| second < i < word.len() implies #[trigger] word[i] != '.' by {
        assert(word[i] == c[i - second - 1]);
    }
    lemma_dot(word, 0, first);
    lemma_dot(word, first + 1, second);
    lemma_dot(word, second + 1, word.len() as int);
    lemma_all_digits(c, 0);
    assert(word.take(first) =~= a);
    assert(word.subrange(first + 1, second) =~= b);
    assert(word.subrange(second + 1, word.len() as int) =~= c);
    assert(c.take(c.len() as int) =~= c);
    assert(word[0] == a[0]);
    assert(bubblewrap::version_start(word, 0) == 0);
    assert(word.skip(0) =~= word);
    let marked = seq!['v'] + word;
    assert(marked[0] == 'v' && marked[1] == word[0]);
    assert(bubblewrap::version_start(marked, 1) == 1);
    assert(bubblewrap::version_start(marked, 0) == 1);
    assert(marked.skip(1) =~= word);
}

/// The version that a program states is the first word of its output that is
/// one.
pub proof fn the_first_version_counts(
    words: Seq<Seq<char>>,
    index: int,
    place: int,
    version: (u32, u32, u32),
)
    requires
        0 <= index <= place < words.len(),
        forall|i: int| index <= i < place ==> bubblewrap::word_version(#[trigger] words[i]) is None,
        bubblewrap::word_version(words[place]) == Some(version),
    ensures
        bubblewrap::version_from(words, index) == Some(version),
    decreases place - index,
{
    if index < place {
        the_first_version_counts(words, index + 1, place, version);
    }
}

/// Bubblewrap has to be of version 0.12.0 or later, by its first number first.
pub proof fn versions_from_0_12_on_are_accepted(
    launcher: Seq<u8>,
    log: Seq<Answer>,
    at: int,
    file: Seq<u8>,
    found: int,
    version: (u32, u32, u32),
    next: int,
)
    requires
        bubblewrap::found_bwrap(log, at) == Ok::<(Seq<u8>, int), Pause>((file, found)),
        bubblewrap::asked_version(file, log, found) == Ok::<((u32, u32, u32), int), Pause>(
            (version, next),
        ),
    ensures
        version.0 > 0 || version.1 >= 12 ==> bubblewrap::backend_with(launcher, log, at) == Ok::<
            (Backend, int),
            Pause,
        >((Backend { bwrap: file, launcher }, next)),
        version.0 == 0 && version.1 < 12 ==> (bubblewrap::backend_with(
            launcher,
            log,
            at,
        ) matches Err(Pause::Fail(fault, _)) && fault is BackendUnavailable),
{
    reveal(bubblewrap::backend_with);
}

/// A program states its version when it is run with `--version`, in its own
/// environment; only a run that succeeds counts.
pub proof fn the_version_is_asked_for(file: Seq<u8>, log: Seq<Answer>, at: int)
    ensures
        flow::given(log, at) is None ==> bubblewrap::asked_version(file, log, at) == Err::<
            ((u32, u32, u32), int),
            Pause,
        >(
            Pause::Ask(
                Query::RunTool(
                    Tool {
                        program: file,
                        args: seq![os::lit("--version")],
                        inherit: true,
                        environment: Seq::empty(),
                        current_dir: None,
                    },
                ),
            ),
        ),
        flow::output(Query::FreshName, log, at) matches Ok((Ok(said), next)) ==> {
            &&& said.status.code != Some(0i32) ==> bubblewrap::asked_version(file, log, at) is Err
            &&& said.status.code == Some(0i32) ==> (bubblewrap::stated_version(
                said.stdout,
            ) matches Some(version) ==> bubblewrap::asked_version(file, log, at) == Ok::<
                ((u32, u32, u32), int),
                Pause,
            >((version, next)))
            &&& bubblewrap::stated_version(said.stdout) is None ==> bubblewrap::asked_version(
                file,
                log,
                at,
            ) is Err
        },
        flow::output(Query::FreshName, log, at) matches Ok((Err(failure), next))
            ==> bubblewrap::asked_version(file, log, at) == Err::<((u32, u32, u32), int), Pause>(
            Pause::Fail(Fault::ProcessSpawn { program: file, source: failure }, next),
        ),
{
    reveal(bubblewrap::asked_version);
}

/// Bubblewrap is what `CARGO_CAGE_BWRAP` names by an absolute path; without the
/// variable it is looked for in `/usr/bin`, then in `/bin`. It has to be a
/// regular file.
pub proof fn bubblewrap_is_where_it_is_named(log: Seq<Answer>, at: int)
    requires
        0 <= at,
    ensures
        flow::given(log, at) is None ==> bubblewrap::found_bwrap(log, at) == Err::<
            (Seq<u8>, int),
            Pause,
        >(Pause::Ask(Query::Variable(os::lit("CARGO_CAGE_BWRAP")))),
        flow::given(log, at) matches Some(Answer::Value(Some(named))) ==> {
            &&& path::absolute(named@) ==> bubblewrap::found_bwrap(log, at)
                == bubblewrap::resolved_bwrap(named@, log, at + 1)
            &&& !path::absolute(named@) ==> (bubblewrap::found_bwrap(log, at) matches Err(
                Pause::Fail(fault, _),
            ) && fault is BackendUnavailable)
        },
        flow::given(log, at) matches Some(Answer::Value(None)) ==> {
            &&& flow::given(log, at + 1) is None ==> bubblewrap::found_bwrap(log, at) == Err::<
                (Seq<u8>, int),
                Pause,
            >(Pause::Ask(Query::Follow(os::lit("/usr/bin/bwrap"))))
            &&& flow::given(log, at + 1) matches Some(Answer::Entry(Ok(stat))) ==> (stat.kind
                == FileKind::File ==> bubblewrap::found_bwrap(log, at)
                == bubblewrap::resolved_bwrap(os::lit("/usr/bin/bwrap"), log, at + 2))
            &&& flow::given(log, at + 1) matches Some(Answer::Entry(Err(_))) ==> {
                &&& flow::given(log, at + 2) is None ==> bubblewrap::found_bwrap(log, at) == Err::<
                    (Seq<u8>, int),
                    Pause,
                >(Pause::Ask(Query::Follow(os::lit("/bin/bwrap"))))
                &&& flow::given(log, at + 2) matches Some(Answer::Entry(Ok(stat))) ==> (stat.kind
                    == FileKind::File ==> bubblewrap::found_bwrap(log, at)
                    == bubblewrap::resolved_bwrap(os::lit("/bin/bwrap"), log, at + 3))
                &&& flow::given(log, at + 2) matches Some(Answer::Entry(Err(_))) ==> (
                bubblewrap::found_bwrap(log, at) matches Err(Pause::Fail(fault, _)) && fault
                    is BackendUnavailable)
            }
        },
        forall|file: Seq<u8>|
            (#[trigger] bubblewrap::resolved_bwrap(file, log, at)) matches Ok((canonical, next))
                ==> next == at + 2 && (flow::given(log, at) matches Some(Answer::Place(Ok(place)))
                && place@ == canonical) && (flow::given(log, at + 1) matches Some(
                Answer::Entry(Ok(stat)),
            ) && stat.kind == FileKind::File),
{
    reveal(bubblewrap::found_bwrap);
    reveal(bubblewrap::resolved_bwrap);
}

/// The launcher is looked for beside the program itself.
pub proof fn the_launcher_lies_beside_the_program(log: Seq<Answer>, at: int, directory: Seq<u8>)
    ensures
        flow::given(log, at) is None ==> bubblewrap::backend(log, at) == Err::<
            (Backend, int),
            Pause,
        >(Pause::Ask(Query::CurrentExecutable)),
        flow::given(log, at) matches Some(Answer::Place(Ok(executable))) ==> (path::parent(
            executable@,
        ) == Some(directory) ==> bubblewrap::backend(log, at) == bubblewrap::backend_with(
            path::join(directory, os::lit("cargo-cage-landlock-launcher")),
            log,
            at + 1,
        )),
{
    reveal(bubblewrap::backend);
}

// ---------------------------------------------------------------------------
// The preflight
// ---------------------------------------------------------------------------

/// What the parent's namespace of a kind is called by the kernel.
pub open spec fn namespace_link(index: int) -> Seq<u8> {
    encode_utf8(
        "/proc/self/ns/"@ + if index == 0 {
            "mnt"@
        } else if index == 1 {
            "user"@
        } else if index == 2 {
            "pid"@
        } else if index == 3 {
            "ipc"@
        } else if index == 4 {
            "uts"@
        } else {
            "net"@
        },
    )
}

/// The six namespaces of the parent are noted one after another: mount, user,
/// process, IPC, host name and network.
pub proof fn the_parents_namespaces_are_noted(
    index: int,
    done: Seq<Seq<u8>>,
    log: Seq<Answer>,
    at: int,
)
    requires
        0 <= index <= 6,
        0 <= at,
        forall|i: int|
            at <= i < log.len() ==> (#[trigger] log[i]) is Place && log[i]->Place_0 is Ok,
    ensures
        ({
            let course = bubblewrap::markers_from(index, done, log, at);
            let missing = 6 - index;
            &&& 0 <= log.len() - at < missing ==> course == Err::<(Seq<Seq<u8>>, int), Pause>(
                Pause::Ask(Query::ReadLink(namespace_link(index + log.len() - at))),
            )
            &&& log.len() - at >= missing ==> {
                &&& course is Ok
                &&& course->Ok_0.1 == at + missing
                &&& course->Ok_0.0.len() == done.len() + missing
                &&& forall|i: int|
                    0 <= i < done.len() ==> #[trigger] course->Ok_0.0[i] == done[i]
                &&& forall|i: int|
                    0 <= i < missing ==> course->Ok_0.0[done.len() + i] == encode_utf8(
                        os::lossy_text((#[trigger] log[at + i])->Place_0->Ok_0@),
                    )
            }
        }),
    decreases 6 - index,
{
    let names = bubblewrap::namespace_names();
    assert(names.len() == 6);
    if index < 6 && at < log.len() {
        let marker = encode_utf8(os::lossy_text(log[at]->Place_0->Ok_0@));
        the_parents_namespaces_are_noted(index + 1, done.push(marker), log, at + 1);
        let course = bubblewrap::markers_from(index, done, log, at);
        let missing = 6 - index;
        assert(course == bubblewrap::markers_from(index + 1, done.push(marker), log, at + 1));
        if log.len() - at >= missing {
            let list = course->Ok_0.0;
            assert forall|i: int| 0 <= i < done.len() implies #[trigger] list[i] == done[i] by {
                assert(list[i] == done.push(marker)[i]);
            }
            assert forall|i: int| 0 <= i < missing implies list[done.len() + i] == encode_utf8(
                os::lossy_text((#[trigger] log[at + i])->Place_0->Ok_0@),
            ) by {
                if i == 0 {
                    assert(list[done.len() as int] == done.push(marker)[done.len() as int]);
                } else {
                    assert(log[(at + 1) + (i - 1)] == log[at + i]);
                }
            }
        }
    }
}

/// The preflight compares every namespace that it is told, leaves out the
/// network where that is allowed, and counts as passed only when it ends well
/// and says so.
pub proof fn preflights_are_told_the_parents_namespaces(
    markers: Seq<Seq<u8>>,
    network: NetworkAccess,
    said: Said,
)
    requires
        markers.len() == 6,
    ensures
        ({
            let args = bubblewrap::preflight_args(markers, network);
            &&& args.len() == 9
            &&& args[0] == os::lit("-c")
            &&& args[1] == os::lit(
                "set -eu\n[ -x /usr/bin/readlink ]\n[ -x /usr/bin/tr ]\nmnt=$(/usr/bin/readlink /proc/self/ns/mnt)\nuser=$(/usr/bin/readlink /proc/self/ns/user)\npid=$(/usr/bin/readlink /proc/self/ns/pid)\nipc=$(/usr/bin/readlink /proc/self/ns/ipc)\nuts=$(/usr/bin/readlink /proc/self/ns/uts)\nnet=$(/usr/bin/readlink /proc/self/ns/net)\n[ -n \"$mnt\" ] && [ \"$mnt\" != \"$1\" ]\n[ -n \"$user\" ] && [ \"$user\" != \"$2\" ]\n[ -n \"$pid\" ] && [ \"$pid\" != \"$3\" ]\n[ -n \"$ipc\" ] && [ \"$ipc\" != \"$4\" ]\n[ -n \"$uts\" ] && [ \"$uts\" != \"$5\" ]\nif [ -n \"${6:-}\" ]; then\n  [ -n \"$net\" ] && [ \"$net\" != \"$6\" ]\nfi\neffective=\npermitted=\nprivileges=\nwhile read -r name value rest; do\n  case \"$name\" in\n    CapEff:) effective=$value ;;\n    CapPrm:) permitted=$value ;;\n    NoNewPrivs:) privileges=$value ;;\n  esac\ndone < /proc/self/status\n[ \"$effective\" = 0000000000000000 ]\n[ \"$permitted\" = 0000000000000000 ]\n[ \"$privileges\" = 1 ]\nread -r line < /proc/self/stat\nset -- ${line##*) }\n[ \"$4\" -gt 0 ]\noptions=$(/usr/bin/tr '\\0\\n' '\\n ' < /proc/1/cmdline)\ncase \"\n$options\n\" in\n  *\"\n--die-with-parent\n\"*) ;;\n  *) exit 1 ;;\nesac\nprintf '%s\\n' cargo-cage-namespace-preflight-ok\n",
            )
            &&& args[2] == os::lit("cargo-cage-namespace-preflight")
            &&& forall|i: int| 0 <= i < 5 ==> #[trigger] args[3 + i] == markers[i]
            &&& args[8] == if network == NetworkAccess::Allow {
                Seq::empty()
            } else {
                markers[5]
            }
        }),
        bubblewrap::preflight_passed(said) <==> said.status.code == Some(0i32) && said.stdout
            == os::lit("cargo-cage-namespace-preflight-ok\n"),
{
}

// ---------------------------------------------------------------------------
// Starting a program
// ---------------------------------------------------------------------------

/// A program is started inside its group, with the limits that it inherits,
/// and the supervisor leaves the group before it watches.
pub proof fn programs_start_inside_their_group(
    group: Group,
    command: Child,
    log: Seq<Answer>,
    at: int,
    entered: int,
    limits: crate::budget::EffectiveResourceLimits,
    limited: int,
)
    requires
        0 <= limited,
        cgroup::process_moved(
            path::join(group.path, os::lit("cgroup.procs")),
            "enter the resource cgroup"@,
            log,
            at,
        ) == Ok::<((), int), Pause>(((), entered)),
        cgroup::inherited(group.limits, log, entered) == Ok::<
            (crate::budget::EffectiveResourceLimits, int),
            Pause,
        >((limits, limited)),
    ensures
        ({
            let (after, course) = bubblewrap::staged(group, command, log, at);
            &&& after.limits == limits
            &&& after.path == group.path && after.restore == group.restore && after.before
                == group.before
            &&& flow::given(log, limited) is None ==> after.entered && course == Err::<
                (CapturedRun, int),
                Pause,
            >(Pause::Ask(Query::Spawn(command)))
            &&& flow::given(log, limited) matches Some(Answer::Spawned(Err(failure)))
                ==> after.entered && course == Err::<(CapturedRun, int), Pause>(
                Pause::Fail(
                    Fault::ProcessSpawn { program: command.program, source: failure@ },
                    limited + 1,
                ),
            )
            &&& flow::given(log, limited) matches Some(Answer::Spawned(Ok(child))) ==> (
            cgroup::process_moved(
                path::join(group.restore, os::lit("cgroup.procs")),
                "restore the cargo-cage supervisor"@,
                log,
                limited + 1,
            ) matches Ok((_, left)) ==> !after.entered && course == bubblewrap::followed(
                child,
                after,
                command.output,
                log,
                left,
            ))
        }),
{
    reveal(bubblewrap::staged);
}

/// A process whose output is captured is captured, any other is only watched;
/// either has the time that its group allows.
pub proof fn processes_have_the_time_of_their_group(
    child: u32,
    group: Group,
    log: Seq<Answer>,
    at: int,
)
    ensures
        bubblewrap::followed(child, group, OutputMode::Capture, log, at) == capture::capturing(
            child,
            group.path,
            group.limits.max_wall_time,
            log,
            at,
        ),
        match capture::watched(child, group.path, group.limits.max_wall_time, log, at) {
            Ok((ended, next)) => bubblewrap::followed(child, group, OutputMode::Inherit, log, at)
                matches Ok((run, used)) && {
                &&& used == next
                &&& run.exit == ended.exit && run.expired == ended.expired
                &&& run.stdout.len() == 0 && run.stderr.len() == 0
            },
            Err(pause) => bubblewrap::followed(child, group, OutputMode::Inherit, log, at) == Err::<
                (CapturedRun, int),
                Pause,
            >(pause),
        },
{
    reveal(bubblewrap::followed);
}

/// What a run comes to: its exit code and its output, unless a limit ended it,
/// which is then the failure.
pub proof fn runs_come_to_their_exit(
    group: Group,
    run: CapturedRun,
    log: Seq<Answer>,
    at: int,
    report: crate::budget::ResourceReport,
    next: int,
)
    requires
        cgroup::finished(group, log, at) == Ok::<(crate::budget::ResourceReport, int), Pause>(
            (report, next),
        ),
    ensures
        match report.fault(run.exit, run.expired) {
            Some(fault) => bubblewrap::reported(group, run, log, at) == Err::<(Said, int), Pause>(
                Pause::Fail(fault, next),
            ),
            None => bubblewrap::reported(group, run, log, at) == Ok::<(Said, int), Pause>(
                (
                    Said {
                        status: ProcessStatus { code: run.exit.code },
                        stdout: run.stdout,
                        stderr: run.stderr,
                    },
                    next,
                ),
            ),
        },
{
    reveal(bubblewrap::reported);
}

/// What is started for a request is Bubblewrap, with the command line of the
/// sandbox that was prepared, in the requested directory; the variables of the
/// request are set and removed for it.
pub proof fn bubblewrap_is_started_for_the_request(
    backend: Backend,
    layout: Layout,
    job: Job,
    program: Seq<u8>,
    args: Seq<Seq<u8>>,
    output: OutputMode,
    log: Seq<Answer>,
    at: int,
    opened: bwrap::Mounts,
    next: int,
    descriptor: i32,
    ready: int,
)
    requires
        mounts::prepared_mounts(layout, backend.launcher, log, at) == Ok::<
            (bwrap::Mounts, int),
            Pause,
        >((opened, next)),
        mounts::marker(log, next) == Ok::<(i32, int), Pause>((descriptor, ready)),
    ensures
        match bwrap::mounted_args(layout, opened, program, args, Some(descriptor)) {
            Err(fault) => bubblewrap::confined_run(
                backend,
                layout,
                job,
                program,
                args,
                output,
                log,
                at,
            ) == Err::<(Said, int), Pause>(Pause::Fail(fault, ready)),
            Ok(words) => exists|command: Child| #[trigger]
                bubblewrap::grouped(command, layout, log, ready) == bubblewrap::confined_run(
                    backend,
                    layout,
                    job,
                    program,
                    args,
                    output,
                    log,
                    at,
                ) && command.program == backend.bwrap && command.args == words && command.set
                    == job.environment.set && command.remove == job.environment.remove
                    + job.policy.remove_environment && command.current_dir == layout.current_dir
                    && command.output == output,
        },
{
    reveal(bubblewrap::confined_run);
    if let Ok(words) = bwrap::mounted_args(layout, opened, program, args, Some(descriptor)) {
        let command = bubblewrap::bwrap_child(backend, layout, job, words, output);
        assert(bubblewrap::grouped(command, layout, log, ready) == bubblewrap::confined_run(
            backend,
            layout,
            job,
            program,
            args,
            output,
            log,
            at,
        ));
    }
}

/// A run is staged in a group prepared for the limits of its layout; whatever
/// fails there, the group is discarded before the failure is reported.
pub proof fn failed_runs_discard_their_group(
    command: Child,
    layout: Layout,
    log: Seq<Answer>,
    at: int,
    group: Group,
    next: int,
)
    requires
        cgroup::prepared(layout.resources, log, at) == Ok::<(Group, int), Pause>((group, next)),
    ensures
        match bubblewrap::staged(group, command, log, next) {
            (_, Err(Pause::Ask(query))) => bubblewrap::grouped(command, layout, log, at) == Err::<
                (Said, int),
                Pause,
            >(Pause::Ask(query)),
            (left, Err(Pause::Fail(fault, used))) => match cgroup::discarded(left, log, used) {
                Ok((_, done)) => bubblewrap::grouped(command, layout, log, at) == Err::<
                    (Said, int),
                    Pause,
                >(Pause::Fail(fault, done)),
                Err(pause) => bubblewrap::grouped(command, layout, log, at) == Err::<
                    (Said, int),
                    Pause,
                >(pause),
            },
            (left, Ok((run, used))) => bubblewrap::grouped(command, layout, log, at)
                == bubblewrap::reported(left, run, log, used),
        },
{
    reveal(bubblewrap::grouped);
}

} // verus!

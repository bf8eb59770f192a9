//! Watching a child process: its end, its clock and its output.

use crate::cgroup;
use crate::cgroup::ResourceGroup;
use crate::error::{IoFailure, IoFault};
use crate::flow;
use crate::flow::{
    Answer, Capture, Captured, ChildCommand, Course, Exit, Flow, Halt, Model, Pause, Query,
    Question, Stream, Timer,
};
use crate::policy::TimeSpan;
use crate::text;
use crate::text::Compose;
use vstd::prelude::*;
use vstd::slice::*;
use vstd::string::*;

verus! {

/// How much of an output stream is kept.
pub const MAX_CAPTURED_OUTPUT: usize = 1048576;

/// The pause between two looks at a child, in milliseconds.
pub const WATCH_PAUSE: u64 = 10;

/// The pause between two looks at a child whose output is captured, in
/// milliseconds.
pub const CAPTURE_PAUSE: u64 = 5;

// ---------------------------------------------------------------------------
// Reading with a limit
// ---------------------------------------------------------------------------

/// What has been read of a stream: its beginning, and whether there was more.
#[derive(Debug)]
pub struct CappedOutput {
    pub output: Vec<u8>,
    pub over_limit: bool,
}

/// What `CappedOutput` holds.
#[verifier::ext_equal]
pub struct Capped {
    pub output: Seq<u8>,
    pub over_limit: bool,
}

impl View for CappedOutput {
    type V = Capped;

    open spec fn view(&self) -> Capped {
        Capped { output: self.output@, over_limit: self.over_limit }
    }
}

impl Capped {
    /// Nothing read yet.
    pub open spec fn start() -> Capped {
        Capped { output: Seq::empty(), over_limit: false }
    }

    /// After another chunk: as much of it as still fits.
    pub open spec fn after(self, chunk: Seq<u8>) -> Capped {
        let remaining = if self.output.len() < MAX_CAPTURED_OUTPUT {
            MAX_CAPTURED_OUTPUT - self.output.len()
        } else {
            0
        };
        Capped {
            output: if chunk.len() > remaining {
                self.output + chunk.take(remaining)
            } else {
                self.output + chunk
            },
            over_limit: self.over_limit || chunk.len() > remaining,
        }
    }
}

impl CappedOutput {
    pub fn new() -> (capped: Self)
        ensures
            capped@ == Capped::start(),
    {
        let capped = CappedOutput { output: Vec::new(), over_limit: false };
        assert(capped@.output =~= Seq::empty());
        capped
    }

    /// Takes another chunk.
    pub fn read_capped(&mut self, chunk: &[u8])
        ensures
            final(self)@ == old(self)@.after(chunk@),
    {
        let remaining: usize = if self.output.len() < MAX_CAPTURED_OUTPUT {
            MAX_CAPTURED_OUTPUT - self.output.len()
        } else {
            0
        };
        if chunk.len() > remaining {
            let kept = slice_subrange(chunk, 0, remaining);
            assert(kept@ =~= chunk@.take(remaining as int));
            self.output.extend_from_slice(kept);
            self.over_limit = true;
        } else {
            self.output.extend_from_slice(chunk);
        }
        assert(self.output@ =~= old(self)@.after(chunk@).output);
    }

    /// Notes that the stream could not be read to its end.
    pub fn fail(&mut self)
        ensures
            final(self)@ == (Capped { over_limit: true, ..old(self)@ }),
    {
        self.over_limit = true;
    }
}

/// What is kept of a list of chunks.
pub open spec fn capped_all(chunks: Seq<Seq<u8>>) -> Capped
    decreases chunks.len(),
{
    if chunks.len() == 0 {
        Capped::start()
    } else {
        capped_all(chunks.drop_last()).after(chunks.last())
    }
}

/// All chunks in a row.
pub open spec fn joined(chunks: Seq<Seq<u8>>) -> Seq<u8>
    decreases chunks.len(),
{
    if chunks.len() == 0 {
        Seq::empty()
    } else {
        joined(chunks.drop_last()) + chunks.last()
    }
}

/// However a stream is cut into chunks, exactly its beginning up to the limit
/// is kept, and it counts as over the limit exactly when there was more.
pub proof fn capture_keeps_the_beginning(chunks: Seq<Seq<u8>>)
    ensures
        capped_all(chunks).output.len() <= MAX_CAPTURED_OUTPUT,
        capped_all(chunks).output.is_prefix_of(joined(chunks)),
        capped_all(chunks).over_limit <==> joined(chunks).len() > MAX_CAPTURED_OUTPUT,
        !capped_all(chunks).over_limit ==> capped_all(chunks).output == joined(chunks),
        capped_all(chunks).over_limit ==> capped_all(chunks).output.len() == MAX_CAPTURED_OUTPUT,
    decreases chunks.len(),
{
    if chunks.len() > 0 {
        let before = capped_all(chunks.drop_last());
        let all = joined(chunks);
        let earlier = joined(chunks.drop_last());
        capture_keeps_the_beginning(chunks.drop_last());
        let after = capped_all(chunks);
        if !before.over_limit {
            if after.over_limit {
                assert(after.output =~= all.take(MAX_CAPTURED_OUTPUT as int));
            } else {
                assert(after.output =~= all);
            }
        } else {
            assert(chunks.last().take(0) =~= Seq::empty());
            assert(after.output =~= before.output);
            assert(before.output =~= earlier.take(before.output.len() as int));
        }
        assert(after.output =~= all.take(after.output.len() as int));
    }
}

// ---------------------------------------------------------------------------
// Waiting
// ---------------------------------------------------------------------------

/// How a watched child ended, and whether its time was over.
#[derive(Clone, Copy, Debug, PartialEq, Eq, Structural)]
pub struct Ended {
    pub exit: Exit,
    pub expired: bool,
}

impl Model for Ended {
    type M = Ended;

    open spec fn model(&self) -> Ended {
        *self
    }
}

/// A child whose time is over: its whole group is killed first.
#[verifier::opaque]
pub open spec fn timed_out(child: u32, group: Seq<u8>, log: Seq<Answer>, at: int) -> Course<Ended> {
    match cgroup::killed(group, log, at) {
        Err(pause) => Err(pause),
        Ok((_, at)) => match flow::exited(Query::Await(child), log, at) {
            Err(pause) => Err(pause),
            Ok((Ok(exit), at)) => Ok((Ended { exit, expired: true }, at)),
            Ok((Err(failure), at)) => Err(
                flow::io_pause(
                    "could not wait for the timed-out Bubblewrap process"@,
                    failure,
                    at,
                ),
            ),
        },
    }
}

/// A child that cannot be watched: everything is killed, and the failure
/// reported.
#[verifier::opaque]
pub open spec fn unwatched(
    child: u32,
    group: Seq<u8>,
    failure: IoFault,
    log: Seq<Answer>,
    at: int,
) -> Course<Ended> {
    match flow::attempt(cgroup::killed(group, log, at)) {
        Err(pause) => Err(pause),
        Ok((_, at)) => match flow::exited(Query::Await(child), log, at) {
            Err(pause) => Err(pause),
            Ok((_, at)) => Err(
                flow::io_pause("could not monitor the Bubblewrap process"@, failure, at),
            ),
        },
    }
}

/// A child watched until it ends or its time is over.
pub open spec fn watched_from(
    child: u32,
    group: Seq<u8>,
    log: Seq<Answer>,
    at: int,
) -> Course<Ended>
    decreases log.len() - at,
{
    match flow::polled(Query::Poll(child), log, at) {
        Err(pause) => Err(pause),
        Ok((Err(failure), at)) => unwatched(child, group, failure, log, at),
        Ok((Ok(Some(exit)), at)) => Ok((Ended { exit, expired: false }, at)),
        Ok((Ok(None), asked)) => match flow::holds(Query::TimerExpired(Timer::Wall), log, asked) {
            Err(pause) => Err(pause),
            Ok((true, at)) => timed_out(child, group, log, at),
            Ok((false, told)) => match flow::done(Query::Sleep(WATCH_PAUSE), log, told) {
                Err(pause) => Err(pause),
                Ok((_, slept)) => watched_from(child, group, log, slept),
            },
        },
    }
}

/// A child watched for no longer than its time.
#[verifier::opaque]
pub open spec fn watched(
    child: u32,
    group: Seq<u8>,
    wall_time: TimeSpan,
    log: Seq<Answer>,
    at: int,
) -> Course<Ended> {
    match flow::done(Query::StartTimer(Timer::Wall, wall_time), log, at) {
        Err(pause) => Err(pause),
        Ok((_, at)) => watched_from(child, group, log, at),
    }
}

fn time_out(child: u32, group: &ResourceGroup, log: &Vec<Answer>, at: usize) -> (ended: Flow<Ended>)
    ensures
        flow::course(ended) == timed_out(child, group@.path, log@, at as int),
{
    proof {
        reveal(timed_out);
    }
    let (_, at) = group.kill_all(log, at)?;
    let (reply, at) = flow::ask_exit(Question::Await(child), log, at)?;
    match reply {
        Ok(exit) => Ok((Ended { exit, expired: true }, at)),
        Err(failure) => Err(
            flow::io_halt("could not wait for the timed-out Bubblewrap process", &failure, at),
        ),
    }
}

fn give_up_watching(
    child: u32,
    group: &ResourceGroup,
    failure: &IoFailure,
    log: &Vec<Answer>,
    at: usize,
) -> (ended: Flow<Ended>)
    ensures
        flow::course(ended) == unwatched(child, group@.path, failure@, log@, at as int),
{
    proof {
        reveal(unwatched);
    }
    let (_, at) = flow::try_flow(group.kill_all(log, at))?;
    let (_, at) = flow::ask_exit(Question::Await(child), log, at)?;
    Err(flow::io_halt("could not monitor the Bubblewrap process", failure, at))
}

/// Waits for a child, but kills its group when its time is over.
pub fn wait_for_child(
    child: u32,
    group: &ResourceGroup,
    wall_time: TimeSpan,
    log: &Vec<Answer>,
    at: usize,
) -> (ended: Flow<Ended>)
    ensures
        flow::course(ended) == watched(child, group@.path, wall_time, log@, at as int),
{
    proof {
        reveal(watched);
    }
    let (_, at) = flow::ask_done(Question::StartTimer(Timer::Wall, wall_time), log, at)?;
    watch(child, group, log, at)
}

fn watch(child: u32, group: &ResourceGroup, log: &Vec<Answer>, at: usize) -> (ended: Flow<Ended>)
    ensures
        flow::course(ended) == watched_from(child, group@.path, log@, at as int),
{
    let ghost start = at as int;
    let mut used: usize = at;
    loop
        invariant
            watched_from(child, group@.path, log@, start) == watched_from(
                child,
                group@.path,
                log@,
                used as int,
            ),
            start == at,
        decreases log.len() - used,
    {
        let (reply, next) = flow::ask_polled(Question::Poll(child), log, used)?;
        match reply {
            Err(failure) => return give_up_watching(child, group, &failure, log, next),
            Ok(Some(exit)) => return Ok((Ended { exit, expired: false }, next)),
            Ok(None) => {},
        }
        let (expired, next) = flow::ask_holds(Question::TimerExpired(Timer::Wall), log, next)?;
        if expired {
            return time_out(child, group, log, next);
        }
        let (_, next) = flow::ask_done(Question::Sleep(WATCH_PAUSE), log, next)?;
        used = next;
    }
}

// ---------------------------------------------------------------------------
// Capturing
// ---------------------------------------------------------------------------

/// What a captured child left behind.
#[derive(Debug)]
pub struct CapturedOutput {
    pub exit: Exit,
    pub stdout: Vec<u8>,
    pub stderr: Vec<u8>,
    pub expired: bool,
}

/// What a `CapturedOutput` holds.
pub struct CapturedRun {
    pub exit: Exit,
    pub stdout: Seq<u8>,
    pub stderr: Seq<u8>,
    pub expired: bool,
}

impl Model for CapturedOutput {
    type M = CapturedRun;

    open spec fn model(&self) -> CapturedRun {
        CapturedRun {
            exit: self.exit,
            stdout: self.stdout@,
            stderr: self.stderr@,
            expired: self.expired,
        }
    }
}

/// Whether a captured child was stopped, and whether because of its time.
#[derive(Clone, Copy, Debug, PartialEq, Eq, Structural)]
pub struct Watch {
    pub stopped: bool,
    pub expired: bool,
}

impl Model for Watch {
    type M = Watch;

    open spec fn model(&self) -> Watch {
        *self
    }
}

/// The name of a stream in messages.
pub open spec fn stream_name(stream: Stream) -> Seq<char> {
    match stream {
        Stream::Stdout => "stdout"@,
        Stream::Stderr => "stderr"@,
    }
}

fn stream_label(stream: Stream) -> (name: &'static str)
    ensures
        name@ == stream_name(stream),
{
    match stream {
        Stream::Stdout => "stdout",
        Stream::Stderr => "stderr",
    }
}

/// What was captured of a stream.
pub open spec fn collected(
    child: u32,
    stream: Stream,
    log: Seq<Answer>,
    at: int,
) -> Course<Seq<u8>> {
    match flow::captured(Query::Collect(child, stream), log, at) {
        Err(pause) => Err(pause),
        Ok((Captured::Read(bytes), at)) => Ok((bytes, at)),
        Ok((Captured::Failed(failure), at)) => Err(
            flow::io_pause(
                "could not read captured Bubblewrap "@ + stream_name(stream),
                failure,
                at,
            ),
        ),
        Ok((Captured::Panicked, at)) => Err(
            flow::io_pause(
                "captured Bubblewrap "@ + stream_name(stream) + " reader panicked"@,
                IoFault::other(stream_name(stream) + " reader thread panicked"@),
                at,
            ),
        ),
    }
}

/// Bytes of a stream.
pub struct Bytes {
    pub bytes: Vec<u8>,
}

impl Model for Bytes {
    type M = Seq<u8>;

    open spec fn model(&self) -> Seq<u8> {
        self.bytes@
    }
}

fn collect(child: u32, stream: Stream, log: &Vec<Answer>, at: usize) -> (bytes: Flow<Bytes>)
    ensures
        flow::course(bytes) == collected(child, stream, log@, at as int),
{
    let (reply, at) = flow::ask_captured(Question::Collect(child, stream), log, at)?;
    match reply {
        Capture::Read(bytes) => Ok((Bytes { bytes }, at)),
        Capture::Failed(failure) => Err(
            flow::io_halt(
                text::owned("could not read captured Bubblewrap ").with(
                    stream_label(stream),
                ).as_str(),
                &failure,
                at,
            ),
        ),
        Capture::Panicked => {
            let failure = IoFailure::other(
                text::owned(stream_label(stream)).with(" reader thread panicked").as_str(),
            );
            Err(
                flow::io_halt(
                    text::owned("captured Bubblewrap ").with(stream_label(stream)).with(
                        " reader panicked",
                    ).as_str(),
                    &failure,
                    at,
                ),
            )
        },
    }
}

/// The output of a captured child that has ended; too much of it is an error.
#[verifier::opaque]
pub open spec fn gathered(child: u32, ended: Ended, log: Seq<Answer>, at: int) -> Course<
    CapturedRun,
> {
    match collected(child, Stream::Stdout, log, at) {
        Err(pause) => Err(pause),
        Ok((stdout, at)) => match collected(child, Stream::Stderr, log, at) {
            Err(pause) => Err(pause),
            Ok((stderr, at)) => match flow::holds(Query::OverLimit(child), log, at) {
                Err(pause) => Err(pause),
                Ok((true, at)) => Err(
                    flow::setup_pause(
                        "Bubblewrap discovery output"@,
                        "captured discovery output must stay below the safety limit"@,
                        "fix the discovery command or retry with a normal Bubblewrap setup"@,
                        limit_message(),
                        at,
                    ),
                ),
                Ok((false, at)) => Ok(
                    (CapturedRun { exit: ended.exit, stdout, stderr, expired: ended.expired }, at),
                ),
            },
        },
    }
}

pub open spec fn limit_message() -> Seq<char> {
    "captured Bubblewrap output exceeded the "@ + text::decimal(MAX_CAPTURED_OUTPUT as nat)
        + " byte safety limit"@
}

fn limit_text() -> (message: String)
    ensures
        message@ == limit_message(),
{
    text::owned("captured Bubblewrap output exceeded the ").with(
        text::decimal_text(MAX_CAPTURED_OUTPUT as u64).as_str(),
    ).with(" byte safety limit")
}

fn gather(child: u32, ended: Ended, log: &Vec<Answer>, at: usize) -> (output: Flow<CapturedOutput>)
    ensures
        flow::course(output) == gathered(child, ended, log@, at as int),
{
    proof {
        reveal(gathered);
    }
    let (stdout, at) = collect(child, Stream::Stdout, log, at)?;
    let (stderr, at) = collect(child, Stream::Stderr, log, at)?;
    let (over, at) = flow::ask_holds(Question::OverLimit(child), log, at)?;
    if over {
        return Err(
            flow::setup_halt(
                "Bubblewrap discovery output",
                "captured discovery output must stay below the safety limit",
                "fix the discovery command or retry with a normal Bubblewrap setup",
                limit_text().as_str(),
                at,
            ),
        );
    }
    Ok(
        (
            CapturedOutput {
                exit: ended.exit,
                stdout: stdout.bytes,
                stderr: stderr.bytes,
                expired: ended.expired,
            },
            at,
        ),
    )
}

/// A child stopped with its whole group.
#[verifier::opaque]
pub open spec fn stopped(child: u32, group: Seq<u8>, log: Seq<Answer>, at: int) -> Course<()> {
    match cgroup::killed(group, log, at) {
        Err(pause) => Err(pause),
        Ok((_, at)) => match flow::done(Query::Kill(child), log, at) {
            Err(pause) => Err(pause),
            Ok((_, at)) => Ok(((), at)),
        },
    }
}

fn stop(child: u32, group: &ResourceGroup, log: &Vec<Answer>, at: usize) -> (done: Flow<()>)
    ensures
        flow::course(done) == stopped(child, group@.path, log@, at as int),
{
    proof {
        reveal(stopped);
    }
    let (_, at) = group.kill_all(log, at)?;
    let (_, at) = flow::ask_done(Question::Kill(child), log, at)?;
    Ok(((), at))
}

/// A captured child stopped once, when it wrote too much or took too long.
#[verifier::opaque]
pub open spec fn guarded(
    child: u32,
    group: Seq<u8>,
    state: Watch,
    log: Seq<Answer>,
    at: int,
) -> Course<Watch> {
    match flow::holds(Query::OverLimit(child), log, at) {
        Err(pause) => Err(pause),
        Ok((over, at)) => if state.stopped {
            Ok((state, at))
        } else if over {
            match stopped(child, group, log, at) {
                Err(pause) => Err(pause),
                Ok((_, at)) => Ok((Watch { stopped: true, ..state }, at)),
            }
        } else {
            match flow::holds(Query::TimerExpired(Timer::Wall), log, at) {
                Err(pause) => Err(pause),
                Ok((false, at)) => Ok((state, at)),
                Ok((true, at)) => match stopped(child, group, log, at) {
                    Err(pause) => Err(pause),
                    Ok((_, at)) => Ok((Watch { stopped: true, expired: true }, at)),
                },
            }
        },
    }
}

fn guard(
    child: u32,
    group: &ResourceGroup,
    state: Watch,
    log: &Vec<Answer>,
    at: usize,
) -> (next: Flow<Watch>)
    ensures
        flow::course(next) == guarded(child, group@.path, state, log@, at as int),
{
    proof {
        reveal(guarded);
    }
    let (over, at) = flow::ask_holds(Question::OverLimit(child), log, at)?;
    if state.stopped {
        return Ok((state, at));
    }
    if over {
        let (_, at) = stop(child, group, log, at)?;
        return Ok((Watch { stopped: true, expired: state.expired }, at));
    }
    let (expired, at) = flow::ask_holds(Question::TimerExpired(Timer::Wall), log, at)?;
    if !expired {
        return Ok((state, at));
    }
    let (_, at) = stop(child, group, log, at)?;
    Ok((Watch { stopped: true, expired: true }, at))
}

/// Guarding a child uses up answers in order.
pub proof fn lemma_guarded_advances(
    child: u32,
    group: Seq<u8>,
    state: Watch,
    log: Seq<Answer>,
    at: int,
)
    ensures
        guarded(child, group, state, log, at) matches Ok((_, next)) ==> at < next,
{
    reveal(guarded);
    reveal(stopped);
    cgroup::lemma_killed_advances(group, log, at + 1);
    cgroup::lemma_killed_advances(group, log, at + 2);
}

/// A captured child that cannot be watched.
#[verifier::opaque]
pub open spec fn capture_lost(
    child: u32,
    group: Seq<u8>,
    context: Seq<char>,
    failure: IoFault,
    log: Seq<Answer>,
    at: int,
) -> Pause {
    match flow::attempt(cgroup::killed(group, log, at)) {
        Err(pause) => pause,
        Ok((_, at)) => match flow::done(Query::Kill(child), log, at) {
            Err(pause) => pause,
            Ok((_, at)) => match flow::exited(Query::Await(child), log, at) {
                Err(pause) => pause,
                Ok((_, at)) => flow::io_pause(context, failure, at),
            },
        },
    }
}

fn lose_capture(
    child: u32,
    group: &ResourceGroup,
    context: &str,
    failure: &IoFailure,
    log: &Vec<Answer>,
    at: usize,
) -> (halt: Halt)
    ensures
        halt@ == capture_lost(child, group@.path, context@, failure@, log@, at as int),
{
    proof {
        reveal(capture_lost);
    }
    let at: usize = match flow::try_flow(group.kill_all(log, at)) {
        Ok((_, at)) => at,
        Err(halt) => return halt,
    };
    let at: usize = match flow::ask_done(Question::Kill(child), log, at) {
        Ok((_, at)) => at,
        Err(halt) => return halt,
    };
    let at: usize = match flow::ask_exit(Question::Await(child), log, at) {
        Ok((_, at)) => at,
        Err(halt) => return halt,
    };
    flow::io_halt(context, failure, at)
}

/// A captured child watched until it ends.
pub open spec fn capturing_from(
    child: u32,
    group: Seq<u8>,
    state: Watch,
    log: Seq<Answer>,
    at: int,
) -> Course<CapturedRun>
    decreases log.len() - at,
{
    match guarded(child, group, state, log, at) {
        Err(pause) => Err(pause),
        Ok((now, seen)) => match flow::polled(Query::Poll(child), log, seen) {
            Err(pause) => Err(pause),
            Ok((Err(failure), at)) => Err(
                capture_lost(
                    child,
                    group,
                    "could not monitor captured Bubblewrap output"@,
                    failure,
                    log,
                    at,
                ),
            ),
            Ok((Ok(Some(exit)), at)) => gathered(
                child,
                Ended { exit, expired: now.expired },
                log,
                at,
            ),
            Ok((Ok(None), asked)) => match flow::done(Query::Sleep(CAPTURE_PAUSE), log, asked) {
                Err(pause) => Err(pause),
                Ok((_, slept)) => {
                    proof {
                        lemma_guarded_advances(child, group, state, log, at);
                    }
                    capturing_from(child, group, now, log, slept)
                },
            },
        },
    }
}

/// The output of a child, captured for no longer than its time.
#[verifier::opaque]
pub open spec fn capturing(
    child: u32,
    group: Seq<u8>,
    wall_time: TimeSpan,
    log: Seq<Answer>,
    at: int,
) -> Course<CapturedRun> {
    match flow::holds(Query::Piped(child), log, at) {
        Err(pause) => Err(pause),
        Ok((false, at)) => Err(
            capture_lost(
                child,
                group,
                "captured Bubblewrap output pipes could not be prepared"@,
                IoFault::other("one or more output pipes were missing"@),
                log,
                at,
            ),
        ),
        Ok((true, at)) => match flow::done(Query::StartTimer(Timer::Wall, wall_time), log, at) {
            Err(pause) => Err(pause),
            Ok((_, at)) => capturing_from(
                child,
                group,
                Watch { stopped: false, expired: false },
                log,
                at,
            ),
        },
    }
}

fn watch_capture(child: u32, group: &ResourceGroup, log: &Vec<Answer>, at: usize) -> (output: Flow<
    CapturedOutput,
>)
    ensures
        flow::course(output) == capturing_from(
            child,
            group@.path,
            Watch { stopped: false, expired: false },
            log@,
            at as int,
        ),
{
    let ghost start = at as int;
    let ghost first = Watch { stopped: false, expired: false };
    let mut state = Watch { stopped: false, expired: false };
    let mut used: usize = at;
    loop
        invariant
            capturing_from(child, group@.path, first, log@, start) == capturing_from(
                child,
                group@.path,
                state,
                log@,
                used as int,
            ),
            start == at,
            first == (Watch { stopped: false, expired: false }),
        decreases log.len() - used,
    {
        proof {
            lemma_guarded_advances(child, group@.path, state, log@, used as int);
        }
        let (next_state, next) = guard(child, group, state, log, used)?;
        let (reply, next) = flow::ask_polled(Question::Poll(child), log, next)?;
        match reply {
            Err(failure) => {
                return Err(
                    lose_capture(
                        child,
                        group,
                        "could not monitor captured Bubblewrap output",
                        &failure,
                        log,
                        next,
                    ),
                );
            },
            Ok(Some(exit)) => {
                return gather(child, Ended { exit, expired: next_state.expired }, log, next);
            },
            Ok(None) => {},
        }
        let (_, next) = flow::ask_done(Question::Sleep(CAPTURE_PAUSE), log, next)?;
        state = next_state;
        used = next;
    }
}

/// Captures the output of a child. The child and its group are killed once when
/// it writes too much or takes too long.
pub fn capture_child_output(
    child: u32,
    group: &ResourceGroup,
    wall_time: TimeSpan,
    log: &Vec<Answer>,
    at: usize,
) -> (output: Flow<CapturedOutput>)
    ensures
        flow::course(output) == capturing(child, group@.path, wall_time, log@, at as int),
{
    proof {
        reveal(capturing);
    }
    let (piped, at) = flow::ask_holds(Question::Piped(child), log, at)?;
    if !piped {
        let failure = IoFailure::other("one or more output pipes were missing");
        return Err(
            lose_capture(
                child,
                group,
                "captured Bubblewrap output pipes could not be prepared",
                &failure,
                log,
                at,
            ),
        );
    }
    let (_, at) = flow::ask_done(Question::StartTimer(Timer::Wall, wall_time), log, at)?;
    watch_capture(child, group, log, at)
}

// ---------------------------------------------------------------------------
// Capturing without a group
// ---------------------------------------------------------------------------

/// A captured run, or the host failure that prevented it.
pub open spec fn plainly_collected(child: u32, stream: Stream, log: Seq<Answer>, at: int) -> Course<
    Result<Seq<u8>, IoFault>,
> {
    match flow::captured(Query::Collect(child, stream), log, at) {
        Err(pause) => Err(pause),
        Ok((Captured::Read(bytes), at)) => Ok((Ok(bytes), at)),
        Ok((Captured::Failed(failure), at)) => Ok((Err(failure), at)),
        Ok((Captured::Panicked, at)) => Ok(
            (Err(IoFault::other(stream_name(stream) + " reader thread panicked"@)), at),
        ),
    }
}

fn collect_plainly(child: u32, stream: Stream, log: &Vec<Answer>, at: usize) -> (bytes: Flow<
    Result<Bytes, IoFailure>,
>)
    ensures
        flow::course(bytes) == plainly_collected(child, stream, log@, at as int),
{
    let (reply, at) = flow::ask_captured(Question::Collect(child, stream), log, at)?;
    match reply {
        Capture::Read(bytes) => Ok((Ok(Bytes { bytes }), at)),
        Capture::Failed(failure) => Ok((Err(failure), at)),
        Capture::Panicked => Ok(
            (
                Err(
                    IoFailure::other(
                        text::owned(stream_label(stream)).with(" reader thread panicked").as_str(),
                    ),
                ),
                at,
            ),
        ),
    }
}

/// The output of a child that has ended.
#[verifier::opaque]
pub open spec fn plainly_gathered(child: u32, exit: Exit, log: Seq<Answer>, at: int) -> Course<
    Result<CapturedRun, IoFault>,
> {
    match plainly_collected(child, Stream::Stdout, log, at) {
        Err(pause) => Err(pause),
        Ok((Err(failure), at)) => Ok((Err(failure), at)),
        Ok((Ok(stdout), at)) => match plainly_collected(child, Stream::Stderr, log, at) {
            Err(pause) => Err(pause),
            Ok((Err(failure), at)) => Ok((Err(failure), at)),
            Ok((Ok(stderr), at)) => match flow::holds(Query::OverLimit(child), log, at) {
                Err(pause) => Err(pause),
                Ok((true, at)) => Ok((Err(IoFault::other(limit_message())), at)),
                Ok((false, at)) => Ok(
                    (Ok(CapturedRun { exit, stdout, stderr, expired: false }), at),
                ),
            },
        },
    }
}

fn gather_plainly(child: u32, exit: Exit, log: &Vec<Answer>, at: usize) -> (output: Flow<
    Result<CapturedOutput, IoFailure>,
>)
    ensures
        flow::course(output) == plainly_gathered(child, exit, log@, at as int),
{
    proof {
        reveal(plainly_gathered);
    }
    let (reply, at) = collect_plainly(child, Stream::Stdout, log, at)?;
    let stdout = match reply {
        Ok(stdout) => stdout.bytes,
        Err(failure) => return Ok((Err(failure), at)),
    };
    let (reply, at) = collect_plainly(child, Stream::Stderr, log, at)?;
    let stderr = match reply {
        Ok(stderr) => stderr.bytes,
        Err(failure) => return Ok((Err(failure), at)),
    };
    let (over, at) = flow::ask_holds(Question::OverLimit(child), log, at)?;
    if over {
        return Ok((Err(IoFailure::other(limit_text().as_str())), at));
    }
    Ok((Ok(CapturedOutput { exit, stdout, stderr, expired: false }), at))
}

/// A child killed if it wrote too much and has not ended yet.
#[verifier::opaque]
pub open spec fn capped_child(child: u32, log: Seq<Answer>, at: int) -> Course<
    Result<(), IoFault>,
> {
    match flow::holds(Query::OverLimit(child), log, at) {
        Err(pause) => Err(pause),
        Ok((false, at)) => Ok((Ok(()), at)),
        Ok((true, at)) => match flow::polled(Query::Poll(child), log, at) {
            Err(pause) => Err(pause),
            Ok((Err(failure), at)) => Ok((Err(failure), at)),
            Ok((Ok(Some(_)), at)) => Ok((Ok(()), at)),
            Ok((Ok(None), at)) => match flow::done(Query::Kill(child), log, at) {
                Err(pause) => Err(pause),
                Ok((_, at)) => Ok((Ok(()), at)),
            },
        },
    }
}

fn cap_child(child: u32, log: &Vec<Answer>, at: usize) -> (done: Flow<Result<(), IoFailure>>)
    ensures
        flow::course(done) == capped_child(child, log@, at as int),
{
    proof {
        reveal(capped_child);
    }
    let (over, at) = flow::ask_holds(Question::OverLimit(child), log, at)?;
    if !over {
        return Ok((Ok(()), at));
    }
    let (reply, at) = flow::ask_polled(Question::Poll(child), log, at)?;
    match reply {
        Err(failure) => Ok((Err(failure), at)),
        Ok(Some(_)) => Ok((Ok(()), at)),
        Ok(None) => {
            let (_, at) = flow::ask_done(Question::Kill(child), log, at)?;
            Ok((Ok(()), at))
        },
    }
}

/// Capping a child uses up answers in order.
pub proof fn lemma_capped_advances(child: u32, log: Seq<Answer>, at: int)
    ensures
        capped_child(child, log, at) matches Ok((_, next)) ==> at < next,
{
    reveal(capped_child);
}

/// A child watched until it ends.
pub open spec fn plainly_captured_from(child: u32, log: Seq<Answer>, at: int) -> Course<
    Result<CapturedRun, IoFault>,
>
    decreases log.len() - at,
{
    match capped_child(child, log, at) {
        Err(pause) => Err(pause),
        Ok((Err(failure), at)) => Ok((Err(failure), at)),
        Ok((Ok(_), seen)) => match flow::polled(Query::Poll(child), log, seen) {
            Err(pause) => Err(pause),
            Ok((Err(failure), at)) => Ok((Err(failure), at)),
            Ok((Ok(Some(exit)), at)) => plainly_gathered(child, exit, log, at),
            Ok((Ok(None), asked)) => match flow::done(Query::Sleep(CAPTURE_PAUSE), log, asked) {
                Err(pause) => Err(pause),
                Ok((_, slept)) => {
                    proof {
                        lemma_capped_advances(child, log, at);
                    }
                    plainly_captured_from(child, log, slept)
                },
            },
        },
    }
}

fn watch_plainly(child: u32, log: &Vec<Answer>, at: usize) -> (output: Flow<
    Result<CapturedOutput, IoFailure>,
>)
    ensures
        flow::course(output) == plainly_captured_from(child, log@, at as int),
{
    let ghost start = at as int;
    let mut used: usize = at;
    loop
        invariant
            plainly_captured_from(child, log@, start) == plainly_captured_from(
                child,
                log@,
                used as int,
            ),
            start == at,
        decreases log.len() - used,
    {
        proof {
            lemma_capped_advances(child, log@, used as int);
        }
        let (reply, next) = cap_child(child, log, used)?;
        if let Err(failure) = reply {
            return Ok((Err(failure), next));
        }
        let (reply, next) = flow::ask_polled(Question::Poll(child), log, next)?;
        match reply {
            Err(failure) => return Ok((Err(failure), next)),
            Ok(Some(exit)) => return gather_plainly(child, exit, log, next),
            Ok(None) => {},
        }
        let (_, next) = flow::ask_done(Question::Sleep(CAPTURE_PAUSE), log, next)?;
        used = next;
    }
}

/// The output of a command without a group or a clock.
#[verifier::opaque]
pub open spec fn command_output(command: flow::Child, log: Seq<Answer>, at: int) -> Course<
    Result<CapturedRun, IoFault>,
> {
    match flow::spawned(Query::Spawn(command), log, at) {
        Err(pause) => Err(pause),
        Ok((Err(failure), at)) => Ok((Err(failure), at)),
        Ok((Ok(child), at)) => match flow::holds(Query::Piped(child), log, at) {
            Err(pause) => Err(pause),
            Ok((true, at)) => plainly_captured_from(child, log, at),
            Ok((false, at)) => match flow::done(Query::Kill(child), log, at) {
                Err(pause) => Err(pause),
                Ok((_, at)) => match flow::exited(Query::Await(child), log, at) {
                    Err(pause) => Err(pause),
                    Ok((_, at)) => Ok(
                        (Err(IoFault::other("captured output pipes were not created"@)), at),
                    ),
                },
            },
        },
    }
}

/// Captures the output of a command, and kills it when it writes too much.
pub fn capture_command_output(command: ChildCommand, log: &Vec<Answer>, at: usize) -> (output: Flow<
    Result<CapturedOutput, IoFailure>,
>)
    ensures
        flow::course(output) == command_output(command@, log@, at as int),
{
    proof {
        reveal(command_output);
    }
    let (reply, at) = flow::ask_spawned(Question::Spawn(command), log, at)?;
    let child: u32 = match reply {
        Ok(child) => child,
        Err(failure) => return Ok((Err(failure), at)),
    };
    let (piped, at) = flow::ask_holds(Question::Piped(child), log, at)?;
    if piped {
        return watch_plainly(child, log, at);
    }
    let (_, at) = flow::ask_done(Question::Kill(child), log, at)?;
    let (_, at) = flow::ask_exit(Question::Await(child), log, at)?;
    Ok((Err(IoFailure::other("captured output pipes were not created")), at))
}

} // verus!

//! Host interaction as data. A flow never touches the host itself: it is a
//! function of the answers received so far, and it either finishes or asks the
//! next question. Whoever drives it performs the question, appends the answer
//! and calls it again.

use crate::access::LandlockSupport;
use crate::backend::{Job, OutputMode, ProcessStatus, SandboxOutcome, SandboxRequest};
use crate::error::{CageError, Fault, IoFailure, IoFault};
use crate::launcher::{Restrictions, Ruleset};
use crate::os;
use crate::os::{OsText, PathText};
use crate::policy::TimeSpan;
use crate::text;
use vstd::prelude::*;

verus! {

/// The mathematical value of an executable one.
pub trait Model {
    type M;

    spec fn model(&self) -> Self::M;
}

impl Model for () {
    type M = ();

    open spec fn model(&self) -> () {
        ()
    }
}

impl Model for bool {
    type M = bool;

    open spec fn model(&self) -> bool {
        *self
    }
}

impl Model for i32 {
    type M = i32;

    open spec fn model(&self) -> i32 {
        *self
    }
}

impl Model for u32 {
    type M = u32;

    open spec fn model(&self) -> u32 {
        *self
    }
}

impl Model for u64 {
    type M = u64;

    open spec fn model(&self) -> u64 {
        *self
    }
}

impl Model for String {
    type M = Seq<char>;

    open spec fn model(&self) -> Seq<char> {
        self@
    }
}

impl Model for OsText {
    type M = Seq<u8>;

    open spec fn model(&self) -> Seq<u8> {
        self@
    }
}

impl Model for Vec<OsText> {
    type M = Seq<Seq<u8>>;

    open spec fn model(&self) -> Seq<Seq<u8>> {
        os::texts(self@)
    }
}

impl Model for Vec<(OsText, OsText)> {
    type M = Seq<(Seq<u8>, Seq<u8>)>;

    open spec fn model(&self) -> Seq<(Seq<u8>, Seq<u8>)> {
        os::pairs(self@)
    }
}

impl<T: Model> Model for Option<T> {
    type M = Option<T::M>;

    open spec fn model(&self) -> Option<T::M> {
        match self {
            Some(value) => Some(value.model()),
            None => None,
        }
    }
}

impl<T: Model> Model for Result<T, IoFailure> {
    type M = Result<T::M, IoFault>;

    open spec fn model(&self) -> Result<T::M, IoFault> {
        match self {
            Ok(value) => Ok(value.model()),
            Err(failure) => Err(failure@),
        }
    }
}

impl Model for Result<(), String> {
    type M = Result<(), Seq<char>>;

    open spec fn model(&self) -> Result<(), Seq<char>> {
        match self {
            Ok(_) => Ok(()),
            Err(message) => Err(message@),
        }
    }
}

/// What a name in the filesystem stands for.
#[derive(Clone, Copy, Debug, PartialEq, Eq, Structural)]
pub enum FileKind {
    Directory,
    File,
    Symlink,
    CharDevice,
    Other,
}

/// The metadata that decisions depend on.
#[derive(Clone, Copy, Debug, PartialEq, Eq, Structural)]
pub struct Stat {
    pub kind: FileKind,
    pub device: u64,
    pub inode: u64,
    pub links: u64,
}

impl Model for Stat {
    type M = Stat;

    open spec fn model(&self) -> Stat {
        *self
    }
}

impl Stat {
    pub fn is_dir(&self) -> (yes: bool)
        ensures
            yes == (self.kind == FileKind::Directory),
    {
        self.kind == FileKind::Directory
    }

    pub fn is_file(&self) -> (yes: bool)
        ensures
            yes == (self.kind == FileKind::File),
    {
        self.kind == FileKind::File
    }

    pub fn is_symlink(&self) -> (yes: bool)
        ensures
            yes == (self.kind == FileKind::Symlink),
    {
        self.kind == FileKind::Symlink
    }
}

/// A host program to run outside the sandbox. Its environment is the caller's
/// or empty, with the listed variables added.
#[derive(Debug)]
pub struct ToolCommand {
    pub program: PathText,
    pub args: Vec<OsText>,
    pub inherit: bool,
    pub environment: Vec<(OsText, OsText)>,
    pub current_dir: Option<PathText>,
}

/// What a `ToolCommand` runs.
pub struct Tool {
    pub program: Seq<u8>,
    pub args: Seq<Seq<u8>>,
    pub inherit: bool,
    pub environment: Seq<(Seq<u8>, Seq<u8>)>,
    pub current_dir: Option<Seq<u8>>,
}

impl View for ToolCommand {
    type V = Tool;

    open spec fn view(&self) -> Tool {
        Tool {
            program: self.program@,
            args: os::texts(self.args@),
            inherit: self.inherit,
            environment: os::pairs(self.environment@),
            current_dir: self.current_dir.model(),
        }
    }
}

/// What a process left behind.
#[derive(Debug)]
pub struct ToolOutput {
    pub status: ProcessStatus,
    pub stdout: Vec<u8>,
    pub stderr: Vec<u8>,
}

/// What an exited process says.
pub struct Said {
    pub status: ProcessStatus,
    pub stdout: Seq<u8>,
    pub stderr: Seq<u8>,
}

impl Model for ToolOutput {
    type M = Said;

    open spec fn model(&self) -> Said {
        Said { status: self.status, stdout: self.stdout@, stderr: self.stderr@ }
    }
}

impl Clone for ToolOutput {
    fn clone(&self) -> (copy: Self)
        ensures
            copy.model() == self.model(),
    {
        ToolOutput {
            status: self.status,
            stdout: self.stdout.clone(),
            stderr: self.stderr.clone(),
        }
    }
}

impl Model for SandboxOutcome {
    type M = Said;

    open spec fn model(&self) -> Said {
        Said { status: self.status, stdout: self.stdout@, stderr: self.stderr@ }
    }
}

impl Clone for SandboxOutcome {
    fn clone(&self) -> (copy: Self)
        ensures
            copy.model() == self.model(),
    {
        SandboxOutcome {
            status: self.status,
            stdout: self.stdout.clone(),
            stderr: self.stderr.clone(),
        }
    }
}

/// How far a restriction took hold.
#[derive(Clone, Copy, Debug, PartialEq, Eq, Structural)]
pub struct Enforcement {
    pub fully_enforced: bool,
    pub no_new_privs: bool,
}

/// How a process ended: with a code, or by a signal.
#[derive(Clone, Copy, Debug, PartialEq, Eq, Structural)]
pub struct Exit {
    pub code: Option<i32>,
    pub signal: Option<i32>,
}

impl Model for Exit {
    type M = Exit;

    open spec fn model(&self) -> Exit {
        *self
    }
}

impl Model for LandlockSupport {
    type M = LandlockSupport;

    open spec fn model(&self) -> LandlockSupport {
        *self
    }
}

impl Model for Enforcement {
    type M = Enforcement;

    open spec fn model(&self) -> Enforcement {
        *self
    }
}

/// The clocks that bound a run and its cleanup.
#[derive(Clone, Copy, Debug, PartialEq, Eq, Structural)]
pub enum Timer {
    Wall,
    Cleanup,
}

/// The resources that a process passes on to its children.
#[derive(Clone, Copy, Debug, PartialEq, Eq, Structural)]
pub enum LimitedResource {
    FileSize,
    OpenFiles,
    CoreSize,
}

/// The output streams of a process.
#[derive(Clone, Copy, Debug, PartialEq, Eq, Structural)]
pub enum Stream {
    Stdout,
    Stderr,
}

/// The names of a directory, up to a failure to read further.
#[derive(Debug)]
pub struct DirectoryNames {
    pub names: Vec<OsText>,
    pub failure: Option<IoFailure>,
}

/// What `DirectoryNames` list.
pub struct Names {
    pub names: Seq<Seq<u8>>,
    pub failure: Option<IoFault>,
}

impl Model for DirectoryNames {
    type M = Names;

    open spec fn model(&self) -> Names {
        Names {
            names: os::texts(self.names@),
            failure: match self.failure {
                Some(failure) => Some(failure@),
                None => None,
            },
        }
    }
}

impl Clone for DirectoryNames {
    fn clone(&self) -> (copy: Self)
        ensures
            copy.model() == self.model(),
    {
        DirectoryNames {
            names: os::copy_texts(&self.names),
            failure: match &self.failure {
                Some(failure) => Some(failure.clone()),
                None => None,
            },
        }
    }
}

/// What a reader captured.
#[derive(Debug)]
pub enum Capture {
    Read(Vec<u8>),
    Failed(IoFailure),
    Panicked,
}

/// What a `Capture` holds.
pub enum Captured {
    Read(Seq<u8>),
    Failed(IoFault),
    Panicked,
}

impl Model for Capture {
    type M = Captured;

    open spec fn model(&self) -> Captured {
        match self {
            Capture::Read(bytes) => Captured::Read(bytes@),
            Capture::Failed(failure) => Captured::Failed(failure@),
            Capture::Panicked => Captured::Panicked,
        }
    }
}

impl Clone for Capture {
    fn clone(&self) -> (copy: Self)
        ensures
            copy.model() == self.model(),
    {
        match self {
            Capture::Read(bytes) => Capture::Read(bytes.clone()),
            Capture::Failed(failure) => Capture::Failed(failure.clone()),
            Capture::Panicked => Capture::Panicked,
        }
    }
}

/// A process to start: with the environment of this process, some variables
/// set and some removed.
#[derive(Debug)]
pub struct ChildCommand {
    pub program: PathText,
    pub args: Vec<OsText>,
    pub set: Vec<(OsText, OsText)>,
    pub remove: Vec<OsText>,
    pub current_dir: PathText,
    pub output: OutputMode,
}

/// What a `ChildCommand` starts.
pub struct Child {
    pub program: Seq<u8>,
    pub args: Seq<Seq<u8>>,
    pub set: Seq<(Seq<u8>, Seq<u8>)>,
    pub remove: Seq<Seq<u8>>,
    pub current_dir: Seq<u8>,
    pub output: OutputMode,
}

impl View for ChildCommand {
    type V = Child;

    open spec fn view(&self) -> Child {
        Child {
            program: self.program@,
            args: os::texts(self.args@),
            set: os::pairs(self.set@),
            remove: os::texts(self.remove@),
            current_dir: self.current_dir@,
            output: self.output,
        }
    }
}

/// A program to run in a directory, with another search path where there is
/// one.
#[derive(Debug)]
pub struct StepCommand {
    pub program: PathText,
    pub args: Vec<OsText>,
    pub current_dir: PathText,
    pub search_path: Option<OsText>,
}

/// What a `StepCommand` runs.
pub struct Step {
    pub program: Seq<u8>,
    pub args: Seq<Seq<u8>>,
    pub current_dir: Seq<u8>,
    pub search_path: Option<Seq<u8>>,
}

impl View for StepCommand {
    type V = Step;

    open spec fn view(&self) -> Step {
        Step {
            program: self.program@,
            args: os::texts(self.args@),
            current_dir: self.current_dir@,
            search_path: self.search_path.model(),
        }
    }
}

/// One thing to ask of the host.
#[derive(Debug)]
pub enum Question {
    /// The metadata of a name, without following a final symlink.
    Inspect(PathText),
    /// The metadata of what a name leads to.
    Follow(PathText),
    /// The canonical form of an existing path.
    Resolve(PathText),
    /// What a symlink holds.
    ReadLink(PathText),
    /// The text of a file.
    ReadText(PathText),
    /// Whether a name leads to a regular file that may be executed.
    Runnable(PathText),
    /// Whether a file can be opened for writing.
    OpenForWriting(PathText),
    /// Replace the text of an existing control file.
    WriteText(PathText, String),
    /// Create a directory that does not exist yet.
    CreateDirectory(PathText),
    /// Create a directory and whatever is missing above it.
    CreateDirectories(PathText),
    /// Copy a file.
    CopyFile(PathText, PathText),
    /// Create an empty file that does not exist yet.
    CreateFile(PathText),
    /// Remove an empty directory.
    RemoveDirectory(PathText),
    /// The current directory of the process.
    CurrentDirectory,
    /// The executable file of the process.
    CurrentExecutable,
    /// The value of a variable of the process.
    Variable(OsText),
    /// All variables of the process.
    Variables,
    /// A name that no earlier run of this process has received.
    FreshName,
    /// Start a timer that runs out after some time.
    StartTimer(Timer, TimeSpan),
    /// Whether a timer has run out.
    TimerExpired(Timer),
    /// Sleep for some milliseconds.
    Sleep(u64),
    /// The identity of this process.
    ProcessId,
    /// The most that a resource of this process may be raised to.
    HardLimit(LimitedResource),
    /// Limit a resource of this process and its children for good.
    SetLimit(LimitedResource, u64),
    /// The names in a directory.
    ReadDirectory(PathText),
    /// The directory for temporary files.
    TemporaryDirectory,
    /// A descriptor of the host root, opened without following symlinks.
    OpenRoot,
    /// A descriptor of a path below another descriptor, opened without leaving
    /// it and without following symlinks.
    OpenBeneath(i32, PathText),
    /// The metadata of what a descriptor stands for.
    FollowDescriptor(i32),
    /// The flags of a descriptor.
    DescriptorFlags(i32),
    /// Replace the flags of a descriptor.
    SetDescriptorFlags(i32, u32),
    /// Create a file that only its owner can read, and open it.
    CreatePrivateFile(PathText),
    /// Write text to a descriptor and go back to its start.
    WriteDescriptor(i32, String),
    /// Remove a file.
    RemoveFile(PathText),
    /// Run a host program and capture its output.
    RunTool(ToolCommand),
    /// Run a request in the sandbox.
    RunSandbox(SandboxRequest),
    /// Start a process.
    Spawn(ChildCommand),
    /// Whether the output of a process can be captured.
    Piped(u32),
    /// How a process ended, if it has.
    Poll(u32),
    /// Wait for a process to end.
    Await(u32),
    /// Kill a process.
    Kill(u32),
    /// Whether a stream of a process has produced more than is captured, or
    /// could not be read.
    OverLimit(u32),
    /// What was captured of a stream of a process that has ended.
    Collect(u32, Stream),
    /// What the running kernel can enforce.
    Support,
    /// Confine this process and all it starts, for good.
    Restrict(Restrictions),
    /// Run a program to its end with the streams of this process.
    RunProgram(PathText, Vec<OsText>),
    /// Run a program to its end in a directory, with the streams and the
    /// environment of this process.
    RunStep(StepCommand),
    /// Tell the user something.
    Tell(String),
}

/// What a `Question` asks.
pub enum Query {
    Inspect(Seq<u8>),
    Follow(Seq<u8>),
    Resolve(Seq<u8>),
    ReadLink(Seq<u8>),
    ReadText(Seq<u8>),
    Runnable(Seq<u8>),
    OpenForWriting(Seq<u8>),
    WriteText(Seq<u8>, Seq<char>),
    CreateDirectory(Seq<u8>),
    CreateDirectories(Seq<u8>),
    CopyFile(Seq<u8>, Seq<u8>),
    CreateFile(Seq<u8>),
    RemoveDirectory(Seq<u8>),
    CurrentDirectory,
    CurrentExecutable,
    Variable(Seq<u8>),
    Variables,
    FreshName,
    StartTimer(Timer, TimeSpan),
    TimerExpired(Timer),
    Sleep(u64),
    ProcessId,
    HardLimit(LimitedResource),
    SetLimit(LimitedResource, u64),
    ReadDirectory(Seq<u8>),
    TemporaryDirectory,
    OpenRoot,
    OpenBeneath(i32, Seq<u8>),
    FollowDescriptor(i32),
    DescriptorFlags(i32),
    SetDescriptorFlags(i32, u32),
    CreatePrivateFile(Seq<u8>),
    WriteDescriptor(i32, Seq<char>),
    RemoveFile(Seq<u8>),
    RunTool(Tool),
    RunSandbox(Job),
    Spawn(Child),
    Piped(u32),
    Poll(u32),
    Await(u32),
    Kill(u32),
    OverLimit(u32),
    Collect(u32, Stream),
    Support,
    Restrict(Ruleset),
    RunProgram(Seq<u8>, Seq<Seq<u8>>),
    RunStep(Step),
    Tell(Seq<char>),
}

impl Query {
    /// Whether the question changes the filesystem by itself.
    pub open spec fn changes_files(self) -> bool {
        self is WriteText || self is CreateDirectory || self is CreateDirectories
            || self is CopyFile || self is CreateFile
            || self is RemoveDirectory || self is CreatePrivateFile || self is WriteDescriptor
            || self is RemoveFile
    }
}

impl Query {
    /// Whether the question starts a program.
    pub open spec fn starts_program(self) -> bool {
        self is RunTool || self is RunSandbox || self is Spawn || self is RunProgram
            || self is RunStep
    }
}

impl View for Question {
    type V = Query;

    open spec fn view(&self) -> Query {
        match self {
            Question::Inspect(path) => Query::Inspect(path@),
            Question::Follow(path) => Query::Follow(path@),
            Question::Resolve(path) => Query::Resolve(path@),
            Question::ReadLink(path) => Query::ReadLink(path@),
            Question::ReadText(path) => Query::ReadText(path@),
            Question::Runnable(path) => Query::Runnable(path@),
            Question::OpenForWriting(path) => Query::OpenForWriting(path@),
            Question::WriteText(path, content) => Query::WriteText(path@, content@),
            Question::CreateDirectory(path) => Query::CreateDirectory(path@),
            Question::CreateDirectories(path) => Query::CreateDirectories(path@),
            Question::CopyFile(from, to) => Query::CopyFile(from@, to@),
            Question::CreateFile(path) => Query::CreateFile(path@),
            Question::RemoveDirectory(path) => Query::RemoveDirectory(path@),
            Question::CurrentDirectory => Query::CurrentDirectory,
            Question::CurrentExecutable => Query::CurrentExecutable,
            Question::Variable(name) => Query::Variable(name@),
            Question::Variables => Query::Variables,
            Question::FreshName => Query::FreshName,
            Question::StartTimer(timer, time) => Query::StartTimer(*timer, *time),
            Question::TimerExpired(timer) => Query::TimerExpired(*timer),
            Question::Sleep(time) => Query::Sleep(*time),
            Question::ProcessId => Query::ProcessId,
            Question::HardLimit(resource) => Query::HardLimit(*resource),
            Question::SetLimit(resource, limit) => Query::SetLimit(*resource, *limit),
            Question::ReadDirectory(path) => Query::ReadDirectory(path@),
            Question::TemporaryDirectory => Query::TemporaryDirectory,
            Question::OpenRoot => Query::OpenRoot,
            Question::OpenBeneath(root, path) => Query::OpenBeneath(*root, path@),
            Question::FollowDescriptor(descriptor) => Query::FollowDescriptor(*descriptor),
            Question::DescriptorFlags(descriptor) => Query::DescriptorFlags(*descriptor),
            Question::SetDescriptorFlags(descriptor, flags) => Query::SetDescriptorFlags(
                *descriptor,
                *flags,
            ),
            Question::CreatePrivateFile(path) => Query::CreatePrivateFile(path@),
            Question::WriteDescriptor(descriptor, content) => Query::WriteDescriptor(
                *descriptor,
                content@,
            ),
            Question::RemoveFile(path) => Query::RemoveFile(path@),
            Question::RunTool(command) => Query::RunTool(command@),
            Question::RunSandbox(request) => Query::RunSandbox(request@),
            Question::Spawn(command) => Query::Spawn(command@),
            Question::Piped(child) => Query::Piped(*child),
            Question::Poll(child) => Query::Poll(*child),
            Question::Await(child) => Query::Await(*child),
            Question::Kill(child) => Query::Kill(*child),
            Question::OverLimit(child) => Query::OverLimit(*child),
            Question::Collect(child, stream) => Query::Collect(*child, *stream),
            Question::Support => Query::Support,
            Question::Restrict(restrictions) => Query::Restrict(restrictions@),
            Question::RunProgram(program, args) => Query::RunProgram(program@, os::texts(args@)),
            Question::RunStep(command) => Query::RunStep(command@),
            Question::Tell(message) => Query::Tell(message@),
        }
    }
}

/// What the host replied.
#[derive(Debug)]
pub enum Answer {
    Entry(Result<Stat, IoFailure>),
    Place(Result<PathText, IoFailure>),
    Content(Result<String, IoFailure>),
    Done(Result<(), IoFailure>),
    Value(Option<OsText>),
    Listing(Vec<(OsText, OsText)>),
    Holds(bool),
    Descriptor(Result<i32, IoFailure>),
    Flags(Result<u32, IoFailure>),
    Output(Result<ToolOutput, IoFailure>),
    Sandboxed(Result<SandboxOutcome, CageError>),
    Identity(u32),
    Limit(Option<u64>),
    Names(Result<DirectoryNames, IoFailure>),
    Spawned(Result<u32, IoFailure>),
    Polled(Result<Option<Exit>, IoFailure>),
    Captured(Capture),
    Supported(LandlockSupport),
    Restricted(Result<Enforcement, CageError>),
    Exited(Result<Exit, IoFailure>),
}

/// Why a flow stopped: it needs an answer, or it failed after using some.
#[derive(Debug)]
pub enum Halt {
    Ask(Question),
    Fail(CageError, usize),
}

/// What a `Halt` says.
pub enum Pause {
    Ask(Query),
    Fail(Fault, int),
}

impl View for Halt {
    type V = Pause;

    open spec fn view(&self) -> Pause {
        match self {
            Halt::Ask(question) => Pause::Ask(question@),
            Halt::Fail(error, at) => Pause::Fail(error@, *at as int),
        }
    }
}

/// A value and the number of answers used so far, or the reason for stopping.
pub type Flow<T> = Result<(T, usize), Halt>;

/// The mathematical counterpart of `Flow`.
pub type Course<M> = Result<(M, int), Pause>;

/// What a flow came to.
pub open spec fn course<T: Model>(flow: Flow<T>) -> Course<T::M> {
    match flow {
        Ok((value, at)) => Ok((value.model(), at as int)),
        Err(halt) => Err(halt@),
    }
}

/// The answer at a place, if it has been given.
pub open spec fn given(log: Seq<Answer>, at: int) -> Option<Answer> {
    if 0 <= at < log.len() {
        Some(log[at])
    } else {
        None
    }
}

/// The reply to a question about metadata.
pub open spec fn entry(query: Query, log: Seq<Answer>, at: int) -> Course<Result<Stat, IoFault>> {
    match given(log, at) {
        Some(Answer::Entry(reply)) => Ok((reply.model(), at + 1)),
        _ => Err(Pause::Ask(query)),
    }
}

/// The reply to a question about a path.
pub open spec fn place(query: Query, log: Seq<Answer>, at: int) -> Course<
    Result<Seq<u8>, IoFault>,
> {
    match given(log, at) {
        Some(Answer::Place(reply)) => Ok((reply.model(), at + 1)),
        _ => Err(Pause::Ask(query)),
    }
}

/// The reply to a question about the text of a file.
pub open spec fn content(query: Query, log: Seq<Answer>, at: int) -> Course<
    Result<Seq<char>, IoFault>,
> {
    match given(log, at) {
        Some(Answer::Content(reply)) => Ok((reply.model(), at + 1)),
        _ => Err(Pause::Ask(query)),
    }
}

/// The reply to an order.
pub open spec fn done(query: Query, log: Seq<Answer>, at: int) -> Course<Result<(), IoFault>> {
    match given(log, at) {
        Some(Answer::Done(reply)) => Ok((reply.model(), at + 1)),
        _ => Err(Pause::Ask(query)),
    }
}

/// The reply to a question about one value.
pub open spec fn value(query: Query, log: Seq<Answer>, at: int) -> Course<Option<Seq<u8>>> {
    match given(log, at) {
        Some(Answer::Value(reply)) => Ok((reply.model(), at + 1)),
        _ => Err(Pause::Ask(query)),
    }
}

/// The reply to the question about all variables.
pub open spec fn listing(query: Query, log: Seq<Answer>, at: int) -> Course<
    Seq<(Seq<u8>, Seq<u8>)>,
> {
    match given(log, at) {
        Some(Answer::Listing(reply)) => Ok((reply.model(), at + 1)),
        _ => Err(Pause::Ask(query)),
    }
}

/// The reply to a yes-or-no question.
pub open spec fn holds(query: Query, log: Seq<Answer>, at: int) -> Course<bool> {
    match given(log, at) {
        Some(Answer::Holds(reply)) => Ok((reply, at + 1)),
        _ => Err(Pause::Ask(query)),
    }
}

/// The reply to opening something.
pub open spec fn descriptor(query: Query, log: Seq<Answer>, at: int) -> Course<
    Result<i32, IoFault>,
> {
    match given(log, at) {
        Some(Answer::Descriptor(reply)) => Ok((reply.model(), at + 1)),
        _ => Err(Pause::Ask(query)),
    }
}

/// The reply to a question about the flags of a descriptor.
pub open spec fn flags(query: Query, log: Seq<Answer>, at: int) -> Course<Result<u32, IoFault>> {
    match given(log, at) {
        Some(Answer::Flags(reply)) => Ok((reply.model(), at + 1)),
        _ => Err(Pause::Ask(query)),
    }
}

/// The reply of a host program.
pub open spec fn output(query: Query, log: Seq<Answer>, at: int) -> Course<Result<Said, IoFault>> {
    match given(log, at) {
        Some(Answer::Output(reply)) => Ok((reply.model(), at + 1)),
        _ => Err(Pause::Ask(query)),
    }
}

/// The reply of the sandbox; its failure ends the flow.
pub open spec fn sandboxed(query: Query, log: Seq<Answer>, at: int) -> Course<Said> {
    match given(log, at) {
        Some(Answer::Sandboxed(Ok(reply))) => Ok((reply.model(), at + 1)),
        Some(Answer::Sandboxed(Err(error))) => Err(Pause::Fail(error@, at + 1)),
        _ => Err(Pause::Ask(query)),
    }
}

/// The reply to the question about the kernel.
pub open spec fn supported(query: Query, log: Seq<Answer>, at: int) -> Course<LandlockSupport> {
    match given(log, at) {
        Some(Answer::Supported(reply)) => Ok((reply, at + 1)),
        _ => Err(Pause::Ask(query)),
    }
}

/// The reply to a restriction; its failure ends the flow.
pub open spec fn restricted(query: Query, log: Seq<Answer>, at: int) -> Course<Enforcement> {
    match given(log, at) {
        Some(Answer::Restricted(Ok(reply))) => Ok((reply, at + 1)),
        Some(Answer::Restricted(Err(error))) => Err(Pause::Fail(error@, at + 1)),
        _ => Err(Pause::Ask(query)),
    }
}

/// The reply to running a program.
pub open spec fn exited(query: Query, log: Seq<Answer>, at: int) -> Course<Result<Exit, IoFault>> {
    match given(log, at) {
        Some(Answer::Exited(reply)) => Ok((reply.model(), at + 1)),
        _ => Err(Pause::Ask(query)),
    }
}

/// The reply to the question about this process.
pub open spec fn identity(query: Query, log: Seq<Answer>, at: int) -> Course<u32> {
    match given(log, at) {
        Some(Answer::Identity(reply)) => Ok((reply, at + 1)),
        _ => Err(Pause::Ask(query)),
    }
}

/// The reply to a question about a limit.
pub open spec fn limit(query: Query, log: Seq<Answer>, at: int) -> Course<Option<u64>> {
    match given(log, at) {
        Some(Answer::Limit(reply)) => Ok((reply, at + 1)),
        _ => Err(Pause::Ask(query)),
    }
}

/// The reply to reading a directory.
pub open spec fn names(query: Query, log: Seq<Answer>, at: int) -> Course<Result<Names, IoFault>> {
    match given(log, at) {
        Some(Answer::Names(reply)) => Ok((reply.model(), at + 1)),
        _ => Err(Pause::Ask(query)),
    }
}

/// The reply to starting a process.
pub open spec fn spawned(query: Query, log: Seq<Answer>, at: int) -> Course<Result<u32, IoFault>> {
    match given(log, at) {
        Some(Answer::Spawned(reply)) => Ok((reply.model(), at + 1)),
        _ => Err(Pause::Ask(query)),
    }
}

/// The reply to the question how a process ended.
pub open spec fn polled(query: Query, log: Seq<Answer>, at: int) -> Course<
    Result<Option<Exit>, IoFault>,
> {
    match given(log, at) {
        Some(Answer::Polled(reply)) => Ok((reply.model(), at + 1)),
        _ => Err(Pause::Ask(query)),
    }
}

/// The reply to the question what was captured.
pub open spec fn captured(query: Query, log: Seq<Answer>, at: int) -> Course<Captured> {
    match given(log, at) {
        Some(Answer::Captured(reply)) => Ok((reply.model(), at + 1)),
        _ => Err(Pause::Ask(query)),
    }
}

/// A course whose failure does not matter.
pub open spec fn attempt<M>(course: Course<M>) -> Course<()> {
    match course {
        Ok((_, at)) => Ok(((), at)),
        Err(Pause::Fail(_, at)) => Ok(((), at)),
        Err(Pause::Ask(query)) => Err(Pause::Ask(query)),
    }
}

/// A failure after `at` answers.
pub open spec fn fail<M>(fault: Fault, at: int) -> Course<M> {
    Err(Pause::Fail(fault, at))
}

/// A policy refusal about a path after `at` answers.
pub open spec fn refusal(path: Seq<u8>, rule: Seq<char>, remedy: Seq<char>, at: int) -> Pause {
    Pause::Fail(Fault::Policy { subject: os::lossy_text(path), rule, remedy }, at)
}

/// A failed host operation after `at` answers.
pub open spec fn io_pause(context: Seq<char>, failure: IoFault, at: int) -> Pause {
    Pause::Fail(Fault::Io { context, source: failure }, at)
}

/// A setup failure after `at` answers.
pub open spec fn setup_pause(
    subject: Seq<char>,
    rule: Seq<char>,
    remedy: Seq<char>,
    detail: Seq<char>,
    at: int,
) -> Pause {
    Pause::Fail(Fault::SandboxSetup { subject, rule, remedy, detail }, at)
}

/// A missing or unusable tool after `at` answers.
pub open spec fn unavailable_pause(message: Seq<char>, at: int) -> Pause {
    Pause::Fail(Fault::BackendUnavailable(message), at)
}

pub fn refuse(path: &PathText, rule: &str, remedy: &str, at: usize) -> (halt: Halt)
    ensures
        halt@ == refusal(path@, rule@, remedy@, at as int),
{
    Halt::Fail(CageError::policy(path.display().as_str(), rule, remedy), at)
}

pub fn io_halt(context: &str, failure: &IoFailure, at: usize) -> (halt: Halt)
    ensures
        halt@ == io_pause(context@, failure@, at as int),
{
    Halt::Fail(CageError::io(context, failure), at)
}

pub fn setup_halt(subject: &str, rule: &str, remedy: &str, detail: &str, at: usize) -> (halt: Halt)
    ensures
        halt@ == setup_pause(subject@, rule@, remedy@, detail@, at as int),
{
    Halt::Fail(CageError::sandbox_setup(subject, rule, remedy, detail), at)
}

pub fn unavailable_halt(message: &str, at: usize) -> (halt: Halt)
    ensures
        halt@ == unavailable_pause(message@, at as int),
{
    Halt::Fail(CageError::unavailable(message), at)
}

pub fn ask_entry(question: Question, log: &Vec<Answer>, at: usize) -> (reply: Flow<
    Result<Stat, IoFailure>,
>)
    ensures
        course(reply) == entry(question@, log@, at as int),
        reply is Ok ==> reply->Ok_0.1 == at + 1 <= log.len(),
{
    if at < log.len() {
        if let Answer::Entry(reply) = &log[at] {
            let copy = match reply {
                Ok(stat) => Ok(*stat),
                Err(failure) => Err(failure.clone()),
            };
            return Ok((copy, at + 1));
        }
    }
    Err(Halt::Ask(question))
}

pub fn ask_place(question: Question, log: &Vec<Answer>, at: usize) -> (reply: Flow<
    Result<PathText, IoFailure>,
>)
    ensures
        course(reply) == place(question@, log@, at as int),
        reply is Ok ==> reply->Ok_0.1 == at + 1 <= log.len(),
{
    if at < log.len() {
        if let Answer::Place(reply) = &log[at] {
            let copy = match reply {
                Ok(path) => Ok(path.clone()),
                Err(failure) => Err(failure.clone()),
            };
            return Ok((copy, at + 1));
        }
    }
    Err(Halt::Ask(question))
}

pub fn ask_content(question: Question, log: &Vec<Answer>, at: usize) -> (reply: Flow<
    Result<String, IoFailure>,
>)
    ensures
        course(reply) == content(question@, log@, at as int),
        reply is Ok ==> reply->Ok_0.1 == at + 1 <= log.len(),
{
    if at < log.len() {
        if let Answer::Content(reply) = &log[at] {
            let copy = match reply {
                Ok(text) => Ok(text.clone()),
                Err(failure) => Err(failure.clone()),
            };
            return Ok((copy, at + 1));
        }
    }
    Err(Halt::Ask(question))
}

pub fn ask_done(question: Question, log: &Vec<Answer>, at: usize) -> (reply: Flow<
    Result<(), IoFailure>,
>)
    ensures
        course(reply) == done(question@, log@, at as int),
        reply is Ok ==> reply->Ok_0.1 == at + 1 <= log.len(),
{
    if at < log.len() {
        if let Answer::Done(reply) = &log[at] {
            let copy = match reply {
                Ok(_) => Ok(()),
                Err(failure) => Err(failure.clone()),
            };
            return Ok((copy, at + 1));
        }
    }
    Err(Halt::Ask(question))
}

pub fn ask_value(question: Question, log: &Vec<Answer>, at: usize) -> (reply: Flow<Option<OsText>>)
    ensures
        course(reply) == value(question@, log@, at as int),
        reply is Ok ==> reply->Ok_0.1 == at + 1 <= log.len(),
{
    if at < log.len() {
        if let Answer::Value(reply) = &log[at] {
            let copy = match reply {
                Some(text) => Some(text.clone()),
                None => None,
            };
            return Ok((copy, at + 1));
        }
    }
    Err(Halt::Ask(question))
}

pub fn ask_listing(question: Question, log: &Vec<Answer>, at: usize) -> (reply: Flow<
    Vec<(OsText, OsText)>,
>)
    ensures
        course(reply) == listing(question@, log@, at as int),
        reply is Ok ==> reply->Ok_0.1 == at + 1 <= log.len(),
{
    if at < log.len() {
        if let Answer::Listing(reply) = &log[at] {
            return Ok((os::copy_pairs(reply), at + 1));
        }
    }
    Err(Halt::Ask(question))
}

pub fn ask_holds(question: Question, log: &Vec<Answer>, at: usize) -> (reply: Flow<bool>)
    ensures
        course(reply) == holds(question@, log@, at as int),
        reply is Ok ==> reply->Ok_0.1 == at + 1 <= log.len(),
{
    if at < log.len() {
        if let Answer::Holds(reply) = &log[at] {
            return Ok((*reply, at + 1));
        }
    }
    Err(Halt::Ask(question))
}

pub fn ask_descriptor(question: Question, log: &Vec<Answer>, at: usize) -> (reply: Flow<
    Result<i32, IoFailure>,
>)
    ensures
        course(reply) == descriptor(question@, log@, at as int),
        reply is Ok ==> reply->Ok_0.1 == at + 1 <= log.len(),
{
    if at < log.len() {
        if let Answer::Descriptor(reply) = &log[at] {
            let copy = match reply {
                Ok(descriptor) => Ok(*descriptor),
                Err(failure) => Err(failure.clone()),
            };
            return Ok((copy, at + 1));
        }
    }
    Err(Halt::Ask(question))
}

pub fn ask_flags(question: Question, log: &Vec<Answer>, at: usize) -> (reply: Flow<
    Result<u32, IoFailure>,
>)
    ensures
        course(reply) == flags(question@, log@, at as int),
        reply is Ok ==> reply->Ok_0.1 == at + 1 <= log.len(),
{
    if at < log.len() {
        if let Answer::Flags(reply) = &log[at] {
            let copy = match reply {
                Ok(flags) => Ok(*flags),
                Err(failure) => Err(failure.clone()),
            };
            return Ok((copy, at + 1));
        }
    }
    Err(Halt::Ask(question))
}

pub fn ask_output(question: Question, log: &Vec<Answer>, at: usize) -> (reply: Flow<
    Result<ToolOutput, IoFailure>,
>)
    ensures
        course(reply) == output(question@, log@, at as int),
        reply is Ok ==> reply->Ok_0.1 == at + 1 <= log.len(),
{
    if at < log.len() {
        if let Answer::Output(reply) = &log[at] {
            let copy = match reply {
                Ok(output) => Ok(output.clone()),
                Err(failure) => Err(failure.clone()),
            };
            return Ok((copy, at + 1));
        }
    }
    Err(Halt::Ask(question))
}

pub fn ask_sandbox(question: Question, log: &Vec<Answer>, at: usize) -> (reply: Flow<
    SandboxOutcome,
>)
    ensures
        course(reply) == sandboxed(question@, log@, at as int),
        reply is Ok ==> reply->Ok_0.1 == at + 1 <= log.len(),
{
    if at < log.len() {
        if let Answer::Sandboxed(reply) = &log[at] {
            return match reply {
                Ok(outcome) => Ok((outcome.clone(), at + 1)),
                Err(error) => Err(Halt::Fail(error.clone(), at + 1)),
            };
        }
    }
    Err(Halt::Ask(question))
}

pub fn ask_support(log: &Vec<Answer>, at: usize) -> (reply: Flow<LandlockSupport>)
    ensures
        course(reply) == supported(Query::Support, log@, at as int),
        reply is Ok ==> reply->Ok_0.1 == at + 1 <= log.len(),
{
    if at < log.len() {
        if let Answer::Supported(reply) = &log[at] {
            return Ok((*reply, at + 1));
        }
    }
    Err(Halt::Ask(Question::Support))
}

pub fn ask_restriction(question: Question, log: &Vec<Answer>, at: usize) -> (reply: Flow<
    Enforcement,
>)
    ensures
        course(reply) == restricted(question@, log@, at as int),
        reply is Ok ==> reply->Ok_0.1 == at + 1 <= log.len(),
{
    if at < log.len() {
        if let Answer::Restricted(reply) = &log[at] {
            return match reply {
                Ok(enforcement) => Ok((*enforcement, at + 1)),
                Err(error) => Err(Halt::Fail(error.clone(), at + 1)),
            };
        }
    }
    Err(Halt::Ask(question))
}

pub fn ask_exit(question: Question, log: &Vec<Answer>, at: usize) -> (reply: Flow<
    Result<Exit, IoFailure>,
>)
    ensures
        course(reply) == exited(question@, log@, at as int),
        reply is Ok ==> reply->Ok_0.1 == at + 1 <= log.len(),
{
    if at < log.len() {
        if let Answer::Exited(reply) = &log[at] {
            let copy = match reply {
                Ok(exit) => Ok(*exit),
                Err(failure) => Err(failure.clone()),
            };
            return Ok((copy, at + 1));
        }
    }
    Err(Halt::Ask(question))
}

pub fn ask_identity(question: Question, log: &Vec<Answer>, at: usize) -> (reply: Flow<
    u32,
>)
    ensures
        course(reply) == identity(question@, log@, at as int),
        reply is Ok ==> reply->Ok_0.1 == at + 1 <= log.len(),
{
    if at < log.len() {
        if let Answer::Identity(reply) = &log[at] {
            return Ok((*reply, at + 1));
        }
    }
    Err(Halt::Ask(question))
}

pub fn ask_limit(question: Question, log: &Vec<Answer>, at: usize) -> (reply: Flow<
    Option<u64>,
>)
    ensures
        course(reply) == limit(question@, log@, at as int),
        reply is Ok ==> reply->Ok_0.1 == at + 1 <= log.len(),
{
    if at < log.len() {
        if let Answer::Limit(reply) = &log[at] {
            return Ok((*reply, at + 1));
        }
    }
    Err(Halt::Ask(question))
}

pub fn ask_names(question: Question, log: &Vec<Answer>, at: usize) -> (reply: Flow<
    Result<DirectoryNames, IoFailure>,
>)
    ensures
        course(reply) == names(question@, log@, at as int),
        reply is Ok ==> reply->Ok_0.1 == at + 1 <= log.len(),
{
    if at < log.len() {
        if let Answer::Names(reply) = &log[at] {
            return Ok((match reply {
                    Ok(value) => Ok(value.clone()),
                    Err(failure) => Err(failure.clone()),
                }, at + 1));
        }
    }
    Err(Halt::Ask(question))
}

pub fn ask_spawned(question: Question, log: &Vec<Answer>, at: usize) -> (reply: Flow<
    Result<u32, IoFailure>,
>)
    ensures
        course(reply) == spawned(question@, log@, at as int),
        reply is Ok ==> reply->Ok_0.1 == at + 1 <= log.len(),
{
    if at < log.len() {
        if let Answer::Spawned(reply) = &log[at] {
            return Ok((match reply {
                    Ok(value) => Ok(*value),
                    Err(failure) => Err(failure.clone()),
                }, at + 1));
        }
    }
    Err(Halt::Ask(question))
}

pub fn ask_polled(question: Question, log: &Vec<Answer>, at: usize) -> (reply: Flow<
    Result<Option<Exit>, IoFailure>,
>)
    ensures
        course(reply) == polled(question@, log@, at as int),
        reply is Ok ==> reply->Ok_0.1 == at + 1 <= log.len(),
{
    if at < log.len() {
        if let Answer::Polled(reply) = &log[at] {
            return Ok((match reply {
                    Ok(value) => Ok(*value),
                    Err(failure) => Err(failure.clone()),
                }, at + 1));
        }
    }
    Err(Halt::Ask(question))
}

pub fn ask_captured(question: Question, log: &Vec<Answer>, at: usize) -> (reply: Flow<
    Capture,
>)
    ensures
        course(reply) == captured(question@, log@, at as int),
        reply is Ok ==> reply->Ok_0.1 == at + 1 <= log.len(),
{
    if at < log.len() {
        if let Answer::Captured(reply) = &log[at] {
            return Ok((reply.clone(), at + 1));
        }
    }
    Err(Halt::Ask(question))
}

/// Goes on after a flow whose failure does not matter.
pub fn try_flow<T: Model>(flow: Flow<T>) -> (reply: Flow<()>)
    ensures
        course(reply) == attempt(course(flow)),
{
    match flow {
        Ok((_, at)) => Ok(((), at)),
        Err(Halt::Fail(_, at)) => Ok(((), at)),
        Err(Halt::Ask(question)) => Err(Halt::Ask(question)),
    }
}

} // verus!

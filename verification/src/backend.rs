//! The command that a sandbox runs and what comes of it.

use crate::error::CageResult;
use crate::os;
use crate::os::{OsText, PathText};
use crate::policy::{Environment, EnvironmentRules, PolicyRules, SandboxPolicy};
use vstd::prelude::*;

verus! {

/// How a sandboxed process should be connected to the caller's stdio.
#[derive(Clone, Copy, Debug, PartialEq, Eq, Structural)]
pub enum OutputMode {
    /// Keep the normal Cargo terminal behaviour.
    Inherit,
    /// Capture stdout and stderr for discovery commands.
    Capture,
}

/// The part of a child exit status that is portable across backends.
#[derive(Clone, Copy, Debug, PartialEq, Eq, Structural)]
pub struct ProcessStatus {
    pub code: Option<i32>,
}

impl Default for ProcessStatus {
    fn default() -> (status: Self)
        ensures
            status.code is None,
    {
        ProcessStatus { code: None }
    }
}

impl ProcessStatus {
    pub fn success() -> (status: Self)
        ensures
            status == (ProcessStatus { code: Some(0i32) }),
    {
        ProcessStatus { code: Some(0) }
    }

    pub fn successfully_exited(self) -> (yes: bool)
        ensures
            yes == (self.code == Some(0i32)),
    {
        match self.code {
            Some(code) => code == 0,
            None => false,
        }
    }
}

/// Result of running a process through a sandbox backend.
#[derive(Debug)]
pub struct SandboxOutcome {
    pub status: ProcessStatus,
    pub stdout: Vec<u8>,
    pub stderr: Vec<u8>,
}

impl Default for SandboxOutcome {
    fn default() -> (outcome: Self)
        ensures
            outcome.status.code is None,
            outcome.stdout@.len() == 0,
            outcome.stderr@.len() == 0,
    {
        SandboxOutcome {
            status: ProcessStatus::default(),
            stdout: Vec::new(),
            stderr: Vec::new(),
        }
    }
}

/// A command and policy to execute inside a sandbox.
#[derive(Debug)]
pub struct SandboxRequest {
    pub program: PathText,
    pub args: Vec<OsText>,
    pub current_dir: PathText,
    pub environment: Environment,
    pub policy: SandboxPolicy,
    pub output: OutputMode,
}

/// What a `SandboxRequest` asks for.
pub struct Job {
    pub program: Seq<u8>,
    pub args: Seq<Seq<u8>>,
    pub current_dir: Seq<u8>,
    pub environment: EnvironmentRules,
    pub policy: PolicyRules,
    pub output: OutputMode,
}

impl View for SandboxRequest {
    type V = Job;

    open spec fn view(&self) -> Job {
        Job {
            program: self.program@,
            args: os::texts(self.args@),
            current_dir: self.current_dir@,
            environment: self.environment@,
            policy: self.policy@,
            output: self.output,
        }
    }
}

impl Clone for SandboxRequest {
    fn clone(&self) -> (copy: Self)
        ensures
            copy@ == self@,
    {
        SandboxRequest {
            program: self.program.clone(),
            args: os::copy_texts(&self.args),
            current_dir: self.current_dir.clone(),
            environment: self.environment.clone(),
            policy: self.policy.clone(),
            output: self.output,
        }
    }
}

impl SandboxRequest {
    /// A request without arguments, with a clean environment and the default
    /// policy, connected to the terminal.
    pub fn new(program: &PathText, current_dir: &PathText) -> (request: Self)
        ensures
            request@ == (Job {
                program: program@,
                args: Seq::empty(),
                current_dir: current_dir@,
                environment: EnvironmentRules::clean(),
                policy: PolicyRules::standard(),
                output: OutputMode::Inherit,
            }),
    {
        let request = SandboxRequest {
            program: program.clone(),
            args: Vec::new(),
            current_dir: current_dir.clone(),
            environment: Environment::clean(),
            policy: SandboxPolicy::default(),
            output: OutputMode::Inherit,
        };
        assert(os::texts(request.args@) =~= Seq::empty());
        request
    }

    /// The request with one more argument.
    pub fn arg(self, arg: &OsText) -> (request: Self)
        ensures
            request@ == (Job { args: self@.args.push(arg@), ..self@ }),
    {
        let mut request = self;
        os::push_text(&mut request.args, arg);
        request
    }
}

/// OS-specific implementation of the process sandbox.
pub trait SandboxBackend {
    fn run(&self, request: &SandboxRequest) -> CageResult<SandboxOutcome>;
}

} // verus!

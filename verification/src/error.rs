//! Diagnostics: every refusal names what it is about, the rule that was broken
//! and a remedy.

use crate::backend::ProcessStatus;
use crate::os;
use crate::os::PathText;
use crate::policy::ResourceLimitKind;
use crate::text;
use crate::text::Compose;
use vstd::prelude::*;
use vstd::string::*;

verus! {

pub type CageResult<T> = Result<T, CageError>;

/// The kinds of host failure that are told apart.
#[derive(Clone, Copy, Debug, PartialEq, Eq, Structural)]
pub enum IoKind {
    NotFound,
    PermissionDenied,
    AlreadyExists,
    Unsupported,
    Other,
}

/// A failed host operation: its kind and its text.
#[derive(Debug, PartialEq, Eq)]
pub struct IoFailure {
    pub kind: IoKind,
    pub message: String,
}

/// What an `IoFailure` holds.
pub struct IoFault {
    pub kind: IoKind,
    pub message: Seq<char>,
}

impl View for IoFailure {
    type V = IoFault;

    open spec fn view(&self) -> IoFault {
        IoFault { kind: self.kind, message: self.message@ }
    }
}

impl IoFault {
    /// A failure without a kind of its own.
    pub open spec fn other(message: Seq<char>) -> IoFault {
        IoFault { kind: IoKind::Other, message }
    }
}

impl IoFailure {
    /// A failure without a kind of its own.
    pub fn other(message: &str) -> (failure: IoFailure)
        ensures
            failure@ == IoFault::other(message@),
    {
        IoFailure { kind: IoKind::Other, message: text::owned(message) }
    }
}

impl Clone for IoFailure {
    fn clone(&self) -> (copy: Self)
        ensures
            copy@ == self@,
    {
        IoFailure { kind: self.kind, message: self.message.clone() }
    }
}

#[derive(Debug)]
pub struct PolicyViolation {
    pub subject: String,
    pub rule: String,
    pub remedy: String,
}

impl PolicyViolation {
    pub fn new(subject: &str, rule: &str, remedy: &str) -> (violation: Self)
        ensures
            violation.subject@ == subject@,
            violation.rule@ == rule@,
            violation.remedy@ == remedy@,
    {
        PolicyViolation {
            subject: text::owned(subject),
            rule: text::owned(rule),
            remedy: text::owned(remedy),
        }
    }
}

/// Structured diagnostics for failures that happen while constructing or
/// activating a sandbox, before the child process is allowed to run.
#[derive(Debug)]
pub struct SetupFailure {
    pub subject: String,
    pub rule: String,
    pub remedy: String,
    pub detail: String,
}

impl SetupFailure {
    pub fn new(subject: &str, rule: &str, remedy: &str, detail: &str) -> (failure: Self)
        ensures
            failure.subject@ == subject@,
            failure.rule@ == rule@,
            failure.remedy@ == remedy@,
            failure.detail@ == detail@,
    {
        SetupFailure {
            subject: text::owned(subject),
            rule: text::owned(rule),
            remedy: text::owned(remedy),
            detail: text::owned(detail),
        }
    }
}

#[derive(Debug)]
#[allow(inconsistent_fields)]
pub enum CageError {
    InvalidInvocation(String),
    Policy(PolicyViolation),
    UnsupportedPlatform,
    BackendUnavailable(String),
    SandboxSetup(SetupFailure),
    ProcessSpawn { program: PathText, source: IoFailure },
    ProcessFailed { status: ProcessStatus, detail: String },
    ResourceLimitExceeded {
        kind: ResourceLimitKind,
        limit: String,
        status: Option<ProcessStatus>,
        remedy: String,
        detail: String,
    },
    Io { context: String, source: IoFailure },
}

/// What a `CageError` says, as mathematical values.
#[allow(inconsistent_fields)]
pub enum Fault {
    InvalidInvocation(Seq<char>),
    Policy { subject: Seq<char>, rule: Seq<char>, remedy: Seq<char> },
    UnsupportedPlatform,
    BackendUnavailable(Seq<char>),
    SandboxSetup { subject: Seq<char>, rule: Seq<char>, remedy: Seq<char>, detail: Seq<char> },
    ProcessSpawn { program: Seq<u8>, source: IoFault },
    ProcessFailed { status: ProcessStatus, detail: Seq<char> },
    ResourceLimitExceeded {
        kind: ResourceLimitKind,
        limit: Seq<char>,
        status: Option<ProcessStatus>,
        remedy: Seq<char>,
        detail: Seq<char>,
    },
    Io { context: Seq<char>, source: IoFault },
}

impl View for CageError {
    type V = Fault;

    open spec fn view(&self) -> Fault {
        match self {
            CageError::InvalidInvocation(message) => Fault::InvalidInvocation(message@),
            CageError::Policy(violation) => Fault::Policy {
                subject: violation.subject@,
                rule: violation.rule@,
                remedy: violation.remedy@,
            },
            CageError::UnsupportedPlatform => Fault::UnsupportedPlatform,
            CageError::BackendUnavailable(message) => Fault::BackendUnavailable(message@),
            CageError::SandboxSetup(failure) => Fault::SandboxSetup {
                subject: failure.subject@,
                rule: failure.rule@,
                remedy: failure.remedy@,
                detail: failure.detail@,
            },
            CageError::ProcessSpawn { program, source } => Fault::ProcessSpawn {
                program: program@,
                source: source@,
            },
            CageError::ProcessFailed { status, detail } => Fault::ProcessFailed {
                status: *status,
                detail: detail@,
            },
            CageError::ResourceLimitExceeded { kind, limit, status, remedy, detail } =>
            Fault::ResourceLimitExceeded {
                kind: *kind,
                limit: limit@,
                status: *status,
                remedy: remedy@,
                detail: detail@,
            },
            CageError::Io { context, source } => Fault::Io { context: context@, source: source@ },
        }
    }
}

impl Clone for CageError {
    fn clone(&self) -> (copy: Self)
        ensures
            copy@ == self@,
    {
        match self {
            CageError::InvalidInvocation(message) => CageError::InvalidInvocation(message.clone()),
            CageError::Policy(violation) => CageError::policy(
                violation.subject.as_str(),
                violation.rule.as_str(),
                violation.remedy.as_str(),
            ),
            CageError::UnsupportedPlatform => CageError::UnsupportedPlatform,
            CageError::BackendUnavailable(message) => CageError::BackendUnavailable(
                message.clone(),
            ),
            CageError::SandboxSetup(failure) => CageError::sandbox_setup(
                failure.subject.as_str(),
                failure.rule.as_str(),
                failure.remedy.as_str(),
                failure.detail.as_str(),
            ),
            CageError::ProcessSpawn { program, source } => CageError::ProcessSpawn {
                program: program.clone(),
                source: source.clone(),
            },
            CageError::ProcessFailed { status, detail } => CageError::ProcessFailed {
                status: *status,
                detail: detail.clone(),
            },
            CageError::ResourceLimitExceeded { kind, limit, status, remedy, detail } =>
            CageError::ResourceLimitExceeded {
                kind: *kind,
                limit: limit.clone(),
                status: *status,
                remedy: remedy.clone(),
                detail: detail.clone(),
            },
            CageError::Io { context, source } => CageError::Io {
                context: context.clone(),
                source: source.clone(),
            },
        }
    }
}

/// What a result holds.
pub open spec fn outcome<T: View>(result: CageResult<T>) -> Result<T::V, Fault> {
    match result {
        Ok(value) => Ok(value@),
        Err(error) => Err(error@),
    }
}

/// An exit code as diagnostics print it.
pub open spec fn code_text(code: Option<i32>) -> Seq<char> {
    match code {
        Some(code) => "Some("@ + text::signed_decimal(code as int) + ")"@,
        None => "None"@,
    }
}

/// An exit code as diagnostics print it.
pub fn show_code(code: Option<i32>) -> (text: String)
    ensures
        text@ == code_text(code),
{
    match code {
        Some(code) => text::owned("Some(").with(text::signed_text(code).as_str()).with(")"),
        None => text::owned("None"),
    }
}

impl Fault {
    /// The message shown to the user.
    pub open spec fn message(self) -> Seq<char> {
        match self {
            Fault::InvalidInvocation(message) => "invalid invocation: "@ + message,
            Fault::Policy { subject, rule, remedy } => "sandbox policy error for "@ + subject
                + ": "@ + rule + "; remedy: "@ + remedy,
            Fault::UnsupportedPlatform => "cargo-cage currently supports Linux only"@,
            Fault::BackendUnavailable(message) => "Linux sandbox backend unavailable: "@ + message,
            Fault::SandboxSetup { subject, rule, remedy, detail } => {
                let head = "sandbox setup failed for "@ + subject + ": "@ + rule + "; remedy: "@
                    + remedy;
                if detail.len() == 0 {
                    head
                } else {
                    head + " ("@ + detail + ")"@
                }
            },
            Fault::ProcessSpawn { program, source } => "could not start "@ + os::lossy_text(program)
                + ": "@ + source.message,
            Fault::ProcessFailed { status, detail } => "sandboxed process failed with "@
                + code_text(status.code) + ": "@ + detail,
            Fault::ResourceLimitExceeded { kind, limit, status, remedy, detail } => {
                let head = "sandbox resource limit exceeded for "@ + kind.label()
                    + " (limit "@ + limit + ")"@;
                let middle = match status {
                    Some(status) => head + " with "@ + code_text(status.code),
                    None => head,
                };
                middle + ": "@ + detail + "; remedy: "@ + remedy
            },
            Fault::Io { context, source } => context + ": "@ + source.message,
        }
    }
}

impl CageError {
    pub fn policy(subject: &str, rule: &str, remedy: &str) -> (error: Self)
        ensures
            error@ == (Fault::Policy { subject: subject@, rule: rule@, remedy: remedy@ }),
    {
        CageError::Policy(PolicyViolation::new(subject, rule, remedy))
    }

    pub fn sandbox_setup(subject: &str, rule: &str, remedy: &str, detail: &str) -> (error: Self)
        ensures
            error@ == (Fault::SandboxSetup {
                subject: subject@,
                rule: rule@,
                remedy: remedy@,
                detail: detail@,
            }),
    {
        CageError::SandboxSetup(SetupFailure::new(subject, rule, remedy, detail))
    }

    pub fn io(context: &str, source: &IoFailure) -> (error: Self)
        ensures
            error@ == (Fault::Io { context: context@, source: source@ }),
    {
        CageError::Io { context: text::owned(context), source: source.clone() }
    }

    pub fn invalid(message: &str) -> (error: Self)
        ensures
            error@ == Fault::InvalidInvocation(message@),
    {
        CageError::InvalidInvocation(text::owned(message))
    }

    pub fn unavailable(message: &str) -> (error: Self)
        ensures
            error@ == Fault::BackendUnavailable(message@),
    {
        CageError::BackendUnavailable(text::owned(message))
    }

    /// The host failure behind the error, if there is one.
    pub fn source(&self) -> (source: Option<&IoFailure>)
        ensures
            match self@ {
                Fault::ProcessSpawn { source: inner, .. } => source is Some && source->0@ == inner,
                Fault::Io { source: inner, .. } => source is Some && source->0@ == inner,
                _ => source is None,
            },
    {
        match self {
            CageError::ProcessSpawn { source, .. } => Some(source),
            CageError::Io { source, .. } => Some(source),
            _ => None,
        }
    }

    /// The message shown to the user.
    pub fn to_string(&self) -> (text: String)
        ensures
            text@ == self@.message(),
    {
        match self {
            CageError::InvalidInvocation(message) => text::owned("invalid invocation: ").with(
                message.as_str(),
            ),
            CageError::Policy(violation) => text::owned("sandbox policy error for ").with(
                violation.subject.as_str(),
            ).with(": ").with(violation.rule.as_str()).with("; remedy: ").with(
                violation.remedy.as_str(),
            ),
            CageError::UnsupportedPlatform => text::owned(
                "cargo-cage currently supports Linux only",
            ),
            CageError::BackendUnavailable(message) => text::owned(
                "Linux sandbox backend unavailable: ",
            ).with(message.as_str()),
            CageError::SandboxSetup(failure) => {
                let head = text::owned("sandbox setup failed for ").with(
                    failure.subject.as_str(),
                ).with(": ").with(failure.rule.as_str()).with("; remedy: ").with(
                    failure.remedy.as_str(),
                );
                proof {
                    reveal_strlit("");
                }
                if text::same_text(failure.detail.as_str(), "") {
                    head
                } else {
                    assert(failure.detail@.len() != 0) by {
                        if failure.detail@.len() == 0 {
                            assert(failure.detail@ =~= ""@);
                        }
                    }
                    head.with(" (").with(failure.detail.as_str()).with(")")
                }
            },
            CageError::ProcessSpawn { program, source } => text::owned("could not start ").with(
                program.display().as_str(),
            ).with(": ").with(source.message.as_str()),
            CageError::ProcessFailed { status, detail } => text::owned(
                "sandboxed process failed with ",
            ).with(show_code(status.code).as_str()).with(": ").with(detail.as_str()),
            CageError::ResourceLimitExceeded { kind, limit, status, remedy, detail } => {
                let head = text::owned("sandbox resource limit exceeded for ").with(
                    kind.as_str(),
                ).with(" (limit ").with(limit.as_str()).with(")");
                let middle = match status {
                    Some(status) => head.with(" with ").with(show_code(status.code).as_str()),
                    None => head,
                };
                middle.with(": ").with(detail.as_str()).with("; remedy: ").with(remedy.as_str())
            },
            CageError::Io { context, source } => context.clone().with(": ").with(
                source.message.as_str(),
            ),
        }
    }
}

} // verus!

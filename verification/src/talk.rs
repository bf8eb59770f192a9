//! How a flow goes on after the answers that it was given.

use crate::flow;
use crate::flow::{Answer, Course, FileKind, Pause, Query};
use vstd::prelude::*;

verus! {

/// A flow needs the answer to a question.
pub open spec fn asks<M>(course: Course<M>, query: Query) -> bool {
    course == Err::<(M, int), Pause>(Pause::Ask(query))
}

/// A flow has come to a result.
pub open spec fn gives<M>(course: Course<M>, value: M, at: int) -> bool {
    course == Ok::<(M, int), Pause>((value, at))
}

/// A flow has failed because of what the user asked for.
pub open spec fn refuses<M>(course: Course<M>) -> bool {
    course matches Err(Pause::Fail(fault, _)) && fault is Policy
}

/// A flow has failed because the host could not do something.
pub open spec fn breaks<M>(course: Course<M>) -> bool {
    course matches Err(Pause::Fail(fault, _)) && fault is Io
}

/// A flow has failed because the sandbox cannot be set up.
pub open spec fn cannot_set_up<M>(course: Course<M>) -> bool {
    course matches Err(Pause::Fail(fault, _)) && fault is SandboxSetup
}

/// A flow has failed because a tool is missing or cannot be used.
pub open spec fn unavailable<M>(course: Course<M>) -> bool {
    course matches Err(Pause::Fail(fault, _)) && fault is BackendUnavailable
}

/// A flow pauses as a part of it does.
pub open spec fn pauses<M>(course: Course<M>, pause: Pause) -> bool {
    course == Err::<(M, int), Pause>(pause)
}

/// The answer after `at` others is still missing.
pub open spec fn silent(log: Seq<Answer>, at: int) -> bool {
    flow::given(log, at) is None
}

/// The answer after `at` others is the metadata of something of a kind.
pub open spec fn shows(log: Seq<Answer>, at: int, kind: FileKind) -> bool {
    flow::given(log, at) matches Some(Answer::Entry(Ok(stat))) && stat.kind == kind
}

/// The answer after `at` others is the metadata of something.
pub open spec fn shown(log: Seq<Answer>, at: int) -> bool {
    flow::given(log, at) matches Some(Answer::Entry(Ok(_)))
}

/// The answer after `at` others says that nothing is there.
pub open spec fn missing(log: Seq<Answer>, at: int) -> bool {
    flow::given(log, at) matches Some(Answer::Entry(Err(failure))) && failure@.kind
        == crate::error::IoKind::NotFound
}

/// The answer after `at` others says that no metadata could be had, though
/// something may be there.
pub open spec fn unreadable(log: Seq<Answer>, at: int) -> bool {
    flow::given(log, at) matches Some(Answer::Entry(Err(failure))) && failure@.kind
        != crate::error::IoKind::NotFound
}

/// The answer after `at` others is a path.
pub open spec fn leads(log: Seq<Answer>, at: int, path: Seq<u8>) -> bool {
    flow::given(log, at) matches Some(Answer::Place(Ok(place))) && place@ == path
}

/// The answer after `at` others is that there is no such path.
pub open spec fn nowhere(log: Seq<Answer>, at: int) -> bool {
    flow::given(log, at) matches Some(Answer::Place(Err(_)))
}

/// The answer after `at` others is that something was done.
pub open spec fn done(log: Seq<Answer>, at: int) -> bool {
    flow::given(log, at) matches Some(Answer::Done(Ok(_)))
}

/// The answer after `at` others is that something could not be done.
pub open spec fn undone(log: Seq<Answer>, at: int) -> bool {
    flow::given(log, at) matches Some(Answer::Done(Err(_)))
}

/// The answer after `at` others is the value of a variable.
pub open spec fn says(log: Seq<Answer>, at: int, value: Seq<u8>) -> bool {
    flow::given(log, at) matches Some(Answer::Value(Some(said))) && said@ == value
}

/// The answer after `at` others is that a variable is not set.
pub open spec fn unset(log: Seq<Answer>, at: int) -> bool {
    flow::given(log, at) matches Some(Answer::Value(None))
}

/// The answer after `at` others is a descriptor.
pub open spec fn opened(log: Seq<Answer>, at: int, descriptor: i32) -> bool {
    flow::given(log, at) matches Some(Answer::Descriptor(Ok(fd))) && fd == descriptor
}

/// The answer after `at` others is that nothing could be opened.
pub open spec fn unopened(log: Seq<Answer>, at: int) -> bool {
    flow::given(log, at) matches Some(Answer::Descriptor(Err(_)))
}

/// The answer after `at` others is the flags of a descriptor.
pub open spec fn flagged(log: Seq<Answer>, at: int, flags: u32) -> bool {
    flow::given(log, at) matches Some(Answer::Flags(Ok(bits))) && bits == flags
}

/// The answer after `at` others is whether something holds.
pub open spec fn holds(log: Seq<Answer>, at: int, yes: bool) -> bool {
    flow::given(log, at) == Some(Answer::Holds(yes))
}

} // verus!

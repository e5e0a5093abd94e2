//! The error type of the sandbox.

use vstd::prelude::*;

verus! {

/// What can go wrong between the parent and the sandboxed child.
#[derive(Debug)]
pub enum SandboxError {
    /// The channel to the child failed, or carried something unexpected.
    Ipc(String),
    /// The child could not be forked.
    Fork(String),
    /// A command could not be executed inside the child.
    Exec(String),
    /// A lock was left behind by a thread that panicked.
    MutexPoisoned(String),
}

impl SandboxError {
    /// The text of the error.
    pub open spec fn message(self) -> Seq<char> {
        match self {
            SandboxError::Ipc(m) => m@,
            SandboxError::Fork(m) => m@,
            SandboxError::Exec(m) => m@,
            SandboxError::MutexPoisoned(m) => m@,
        }
    }

    /// Whether this is a channel error with the given text.
    pub open spec fn is_ipc(self, text: Seq<char>) -> bool {
        self is Ipc && self.message() == text
    }

    /// The text of the error.
    pub fn to_string(&self) -> (s: String)
        ensures
            s@ == self.message(),
    {
        match self {
            SandboxError::Ipc(m) => m.clone(),
            SandboxError::Fork(m) => m.clone(),
            SandboxError::Exec(m) => m.clone(),
            SandboxError::MutexPoisoned(m) => m.clone(),
        }
    }
}

/// A channel error made of a label and a reason.
pub fn ipc_error(label: &str, reason: &str) -> (e: SandboxError)
    ensures
        e.is_ipc(label@ + reason@),
{
    let mut m = label.to_owned();
    m.append(reason);
    SandboxError::Ipc(m)
}

/// The text of an error is the one that it was made with, and only a channel error is one.
pub proof fn law_error_keeps_its_text(text: String, other: Seq<char>)
    ensures
        SandboxError::Ipc(text).message() == text@,
        SandboxError::Fork(text).message() == text@,
        SandboxError::Exec(text).message() == text@,
        SandboxError::MutexPoisoned(text).message() == text@,
        SandboxError::Ipc(text).is_ipc(other) <==> text@ == other,
        !SandboxError::Fork(text).is_ipc(other),
        !SandboxError::Exec(text).is_ipc(other),
        !SandboxError::MutexPoisoned(text).is_ipc(other),
{
}

} // verus!

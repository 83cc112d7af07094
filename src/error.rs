//! The errors an invocation can end in.

use vstd::prelude::*;
use crate::args::ArgumentError;
use crate::checks::CheckFailure;

verus! {

/// Stage of the pipeline at which an error arose.
#[derive(Clone, Copy, Debug, PartialEq, Eq, Structural)]
pub enum ErrorStage {
    Setup,
    Check,
    Parse,
    Execution,
}

/// An error of an invocation, or of setup.
#[derive(Clone, Debug)]
pub enum FrameworkError<E> {
    /// Fatal: the framework could not start.
    Setup(E),
    /// A check rejected the invocation.
    CheckFailed(CheckFailure),
    /// A check predicate itself failed.
    CheckErrored(E),
    /// The command is cooling down; retry after this many milliseconds.
    CooldownActive { remaining_ms: u64 },
    /// The arguments did not coerce.
    Argument(ArgumentError),
    /// The command's action returned an error.
    Command(E),
}

impl<E> FrameworkError<E> {
    /// The stage the error belongs to.
    pub fn stage(&self) -> (r: ErrorStage)
        ensures
            r == match *self {
                FrameworkError::Setup(_) => ErrorStage::Setup,
                FrameworkError::CheckFailed(_) => ErrorStage::Check,
                FrameworkError::CheckErrored(_) => ErrorStage::Check,
                FrameworkError::CooldownActive { .. } => ErrorStage::Check,
                FrameworkError::Argument(_) => ErrorStage::Parse,
                FrameworkError::Command(_) => ErrorStage::Execution,
            },
    {
        match self {
            FrameworkError::Setup(_) => ErrorStage::Setup,
            FrameworkError::CheckFailed(_) => ErrorStage::Check,
            FrameworkError::CheckErrored(_) => ErrorStage::Check,
            FrameworkError::CooldownActive { .. } => ErrorStage::Check,
            FrameworkError::Argument(_) => ErrorStage::Parse,
            FrameworkError::Command(_) => ErrorStage::Execution,
        }
    }

    /// Only setup errors end the process; the others end one invocation.
    pub fn is_fatal(&self) -> (r: bool)
        ensures
            r == (*self is Setup),
    {
        match self {
            FrameworkError::Setup(_) => true,
            _ => false,
        }
    }
}

/// The error for a cooldown verdict, if it rejects.
pub fn cooldown_error<E>(verdict: Result<(), u64>) -> (r: Option<FrameworkError<E>>)
    ensures
        match verdict {
            Ok(()) => r is None,
            Err(w) => r == Some(FrameworkError::<E>::CooldownActive { remaining_ms: w }),
        },
{
    match verdict {
        Ok(()) => None,
        Err(w) => Some(FrameworkError::CooldownActive { remaining_ms: w }),
    }
}

} // verus!

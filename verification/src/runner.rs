//! Classification of an external command's outcome.
//!
//! The application runs the executable under a deadline and reports
//! what happened as plain values; the classification into the three
//! failure kinds — and the decision which text a caller sees — is made
//! here.

use vstd::prelude::*;

verus! {

/// Why a command produced no usable output.
#[derive(Clone, Debug)]
pub enum CommandFailure {
    /// The executable was missing or could not be launched.
    Unavailable,
    /// The command ran but exited non-zero; carries its standard error.
    Failed(Vec<u8>),
    /// The command exceeded its deadline and was killed.
    TimedOut,
}

/// The outcome of one command invocation: captured standard output on
/// success, a classified failure otherwise. A timeout outranks every
/// other observation, and an unlaunched command has no exit status.
pub fn classify_command_result(
    timed_out: bool,
    launched: bool,
    success: bool,
    stdout: Vec<u8>,
    stderr: Vec<u8>,
) -> (r: Result<Vec<u8>, CommandFailure>)
    ensures
        timed_out ==> r == Result::<Vec<u8>, CommandFailure>::Err(CommandFailure::TimedOut),
        !timed_out && !launched ==> r == Result::<Vec<u8>, CommandFailure>::Err(
            CommandFailure::Unavailable,
        ),
        !timed_out && launched && success ==> r == Result::<Vec<u8>, CommandFailure>::Ok(stdout),
        !timed_out && launched && !success ==> r == Result::<Vec<u8>, CommandFailure>::Err(
            CommandFailure::Failed(stderr),
        ),
{
    if timed_out {
        Err(CommandFailure::TimedOut)
    } else if !launched {
        Err(CommandFailure::Unavailable)
    } else if success {
        Ok(stdout)
    } else {
        Err(CommandFailure::Failed(stderr))
    }
}

} // verus!

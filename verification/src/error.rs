//! How an invocation fails.

use solana_program::program_error::ProgramError;
use vstd::prelude::*;

verus! {

/// The host's error type, `solana_program::program_error::ProgramError`,
/// carried through unread: nothing is claimed of what a value of it holds.
#[verifier::external_type_specification]
#[verifier::external_body]
pub struct ExProgramError(ProgramError);

/// Why an invocation was turned down. Whatever the reason, the accounts are
/// left as they were.
#[derive(Debug, PartialEq, Eq)]
pub enum ProcessError {
    /// The account list ends before an account that the instruction names.
    NotEnoughAccountKeys,
    /// The first account is not owned by the executing program.
    IncorrectProgramId,
    /// The payload is empty, or its opcode selects no handler.
    InvalidInstructionData,
    /// The authority account did not sign the invocation.
    MissingRequiredSignature,
    /// The record buffer is not exactly as wide as a record.
    InvalidAccountData,
    /// The version counter is at its maximum and cannot advance.
    ArithmeticOverflow,
    /// The host could not supply the time; its own error is kept.
    Clock(ProgramError),
}

} // verus!

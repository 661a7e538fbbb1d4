//! The dispatcher and the three handlers.

use crate::account::{account_views, Account};
use crate::clock::TimeSource;
use crate::error::ProcessError;
use crate::model::{
    computation_outcome, initialize_outcome, process_outcome, update_outcome, with_record,
    Outcome, OP_EXECUTE_COMPUTATION, OP_INITIALIZE, OP_UPDATE_PARAMETERS,
};
use crate::pubkey::{same_key, Pubkey};
use crate::state::NetworkState;
use solana_program::program_error::ProgramError;
use vstd::prelude::*;
use vstd::slice::slice_subrange;

verus! {

/// Runs one invocation against the host's clock.
///
/// The invocation ends as `process_outcome` says for whatever the host
/// answered, if it was asked at all.
pub fn process_instruction(
    program_id: &Pubkey,
    accounts: &mut [Account],
    instruction_data: &[u8],
) -> (result: Result<(), ProcessError>)
    ensures
        final(accounts)@.len() == old(accounts)@.len(),
        exists|answer: Result<i64, ProgramError>| #[trigger]
            process_outcome(
                program_id@,
                account_views(old(accounts)@),
                instruction_data@,
                answer,
            ) == (Outcome { result, accounts: account_views(final(accounts)@) }),
{
    process_instruction_with(program_id, accounts, instruction_data, TimeSource::Host)
}

/// Runs one invocation against `clock`: makes sure that the first account is
/// owned by `program_id`, then hands over to the handler that the first byte
/// of `instruction_data` selects.
///
/// The invocation ends as `process_outcome` says for an answer that `clock`
/// may give: for a fixed or an unavailable clock that is one outcome.
pub fn process_instruction_with(
    program_id: &Pubkey,
    accounts: &mut [Account],
    instruction_data: &[u8],
    clock: TimeSource,
) -> (result: Result<(), ProcessError>)
    ensures
        final(accounts)@.len() == old(accounts)@.len(),
        exists|answer: Result<i64, ProgramError>| #[trigger]
            clock.may_answer(answer) && process_outcome(
                program_id@,
                account_views(old(accounts)@),
                instruction_data@,
                answer,
            ) == (Outcome { result, accounts: account_views(final(accounts)@) }),
{
    proof {
        clock.lemma_may_answer();
    }
    if accounts.len() == 0 {
        return Err(ProcessError::NotEnoughAccountKeys);
    }
    if !same_key(&accounts[0].owner, program_id) {
        return Err(ProcessError::IncorrectProgramId);
    }
    if instruction_data.len() == 0 {
        return Err(ProcessError::InvalidInstructionData);
    }
    let opcode: u8 = instruction_data[0];
    let data = slice_subrange(instruction_data, 1, instruction_data.len());
    if opcode == OP_INITIALIZE {
        process_initialize_network(accounts, data, clock)
    } else if opcode == OP_UPDATE_PARAMETERS {
        process_update_parameters(accounts, data, clock)
    } else if opcode == OP_EXECUTE_COMPUTATION {
        process_neural_computation(accounts, data)
    } else {
        Err(ProcessError::InvalidInstructionData)
    }
}

/// Handles Initialize. `_data` is what follows the opcode; it is not read.
pub fn process_initialize_network(
    accounts: &mut [Account],
    _data: &[u8],
    clock: TimeSource,
) -> (result: Result<(), ProcessError>)
    ensures
        final(accounts)@.len() == old(accounts)@.len(),
        exists|answer: Result<i64, ProgramError>| #[trigger]
            clock.may_answer(answer) && initialize_outcome(
                account_views(old(accounts)@),
                answer,
            ) == (Outcome { result, accounts: account_views(final(accounts)@) }),
{
    let ghost before = account_views(accounts@);
    proof {
        clock.lemma_may_answer();
    }
    if accounts.len() < 2 {
        return Err(ProcessError::NotEnoughAccountKeys);
    }
    if !accounts[1].is_signer {
        return Err(ProcessError::MissingRequiredSignature);
    }
    let mut network_data = match NetworkState::unpack_from_slice(accounts[0].data.as_slice()) {
        Ok(state) => state,
        Err(error) => {
            return Err(error);
        },
    };
    network_data.is_initialized = true;
    network_data.authority = accounts[1].key;
    network_data.model_version = 1;
    match clock.read() {
        Err(error) => Err(ProcessError::Clock(error)),
        Ok(now) => {
            network_data.last_update = now;
            network_data.pack_into_slice(accounts[0].data.as_mut_slice());
            proof {
                assert(account_views(accounts@) =~= with_record(before, network_data@));
            }
            Ok(())
        },
    }
}

/// Handles UpdateParameters. `_data` is what follows the opcode; it is not
/// read.
pub fn process_update_parameters(
    accounts: &mut [Account],
    _data: &[u8],
    clock: TimeSource,
) -> (result: Result<(), ProcessError>)
    ensures
        final(accounts)@.len() == old(accounts)@.len(),
        exists|answer: Result<i64, ProgramError>| #[trigger]
            clock.may_answer(answer) && update_outcome(account_views(old(accounts)@), answer)
                == (Outcome { result, accounts: account_views(final(accounts)@) }),
{
    let ghost before = account_views(accounts@);
    proof {
        clock.lemma_may_answer();
    }
    if accounts.len() < 2 {
        return Err(ProcessError::NotEnoughAccountKeys);
    }
    if !accounts[1].is_signer {
        return Err(ProcessError::MissingRequiredSignature);
    }
    let mut network_data = match NetworkState::unpack_from_slice(accounts[0].data.as_slice()) {
        Ok(state) => state,
        Err(error) => {
            return Err(error);
        },
    };
    network_data.model_version = match network_data.model_version.checked_add(1) {
        Some(next) => next,
        None => {
            return Err(ProcessError::ArithmeticOverflow);
        },
    };
    match clock.read() {
        Err(error) => Err(ProcessError::Clock(error)),
        Ok(now) => {
            network_data.last_update = now;
            network_data.pack_into_slice(accounts[0].data.as_mut_slice());
            proof {
                assert(account_views(accounts@) =~= with_record(before, network_data@));
            }
            Ok(())
        },
    }
}

/// Handles ExecuteComputation. `_data` is what follows the opcode; it is not
/// read. The record is decoded and nothing is done with it.
pub fn process_neural_computation(accounts: &[Account], _data: &[u8]) -> (result: Result<
    (),
    ProcessError,
>)
    ensures
        computation_outcome(account_views(accounts@)) == (Outcome {
            result,
            accounts: account_views(accounts@),
        }),
{
    if accounts.len() < 2 {
        return Err(ProcessError::NotEnoughAccountKeys);
    }
    match NetworkState::unpack_from_slice(accounts[0].data.as_slice()) {
        Ok(_) => Ok(()),
        Err(error) => Err(error),
    }
}

} // verus!

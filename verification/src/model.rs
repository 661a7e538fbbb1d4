//! What an invocation does, as mathematics.
//!
//! Each handler, and the dispatcher before them, is a function from the
//! accounts as they were, the payload and the clock's answer to an
//! [`Outcome`]. The laws that follow the definitions hold of every input.

use crate::account::AccountView;
use crate::error::ProcessError;
use crate::state::{
    decode, encode, lemma_decode_encode, lemma_encode_len, NetworkStateView, STATE_LEN,
};
use solana_program::program_error::ProgramError;
use vstd::prelude::*;

verus! {

/// Opcode of the instruction that formats a record.
pub const OP_INITIALIZE: u8 = 0;

/// Opcode of the instruction that advances a record's version.
pub const OP_UPDATE_PARAMETERS: u8 = 1;

/// Opcode of the instruction that inspects a record.
pub const OP_EXECUTE_COMPUTATION: u8 = 2;

/// How an invocation ends: what it reports, and the accounts as it leaves them.
pub struct Outcome {
    pub result: Result<(), ProcessError>,
    pub accounts: Seq<AccountView>,
}

/// The invocation fails with `error` and leaves `accounts` as they were.
pub open spec fn rejected(accounts: Seq<AccountView>, error: ProcessError) -> Outcome {
    Outcome { result: Err(error), accounts }
}

/// The invocation succeeds and leaves `accounts`.
pub open spec fn accepted(accounts: Seq<AccountView>) -> Outcome {
    Outcome { result: Ok(()), accounts }
}

/// `accounts` with the bytes of the first replaced by those that store `state`.
pub open spec fn with_record(
    accounts: Seq<AccountView>,
    state: NetworkStateView,
) -> Seq<AccountView> {
    accounts.update(0, AccountView { data: encode(state), ..accounts[0] })
}

/// The record that Initialize writes for `authority` at time `now`.
pub open spec fn fresh_record(authority: Seq<u8>, now: i64) -> NetworkStateView {
    NetworkStateView { is_initialized: true, authority, model_version: 1, last_update: now }
}

/// The record that UpdateParameters writes over `state` at time `now`.
pub open spec fn advanced_record(state: NetworkStateView, now: i64) -> NetworkStateView {
    NetworkStateView {
        model_version: (state.model_version + 1) as u64,
        last_update: now,
        ..state
    }
}

/// What Initialize does: the second account must have signed and the first
/// must hold a buffer of a record's width, whatever is in it; the buffer then
/// stores a fresh record under the signer's key, at version 1, stamped with
/// the clock's answer. A record that was initialised before is overwritten
/// like any other content: there is no guard against a second Initialize.
pub open spec fn initialize_outcome(
    accounts: Seq<AccountView>,
    answer: Result<i64, ProgramError>,
) -> Outcome {
    if accounts.len() < 2 {
        rejected(accounts, ProcessError::NotEnoughAccountKeys)
    } else if !accounts[1].is_signer {
        rejected(accounts, ProcessError::MissingRequiredSignature)
    } else if accounts[0].data.len() != STATE_LEN {
        rejected(accounts, ProcessError::InvalidAccountData)
    } else {
        match answer {
            Err(error) => rejected(accounts, ProcessError::Clock(error)),
            Ok(now) => accepted(with_record(accounts, fresh_record(accounts[1].key, now))),
        }
    }
}

/// What UpdateParameters does: the second account must have signed, and the
/// first must hold a record whose version can still advance; the version then
/// goes up by one and the record is stamped with the clock's answer. Flag and
/// authority stay. The signer's key is not compared with the stored
/// authority: any signer advances the version.
pub open spec fn update_outcome(
    accounts: Seq<AccountView>,
    answer: Result<i64, ProgramError>,
) -> Outcome {
    if accounts.len() < 2 {
        rejected(accounts, ProcessError::NotEnoughAccountKeys)
    } else if !accounts[1].is_signer {
        rejected(accounts, ProcessError::MissingRequiredSignature)
    } else if accounts[0].data.len() != STATE_LEN {
        rejected(accounts, ProcessError::InvalidAccountData)
    } else if decode(accounts[0].data).model_version == u64::MAX {
        rejected(accounts, ProcessError::ArithmeticOverflow)
    } else {
        match answer {
            Err(error) => rejected(accounts, ProcessError::Clock(error)),
            Ok(now) => accepted(
                with_record(accounts, advanced_record(decode(accounts[0].data), now)),
            ),
        }
    }
}

/// What ExecuteComputation does: it wants two accounts and a buffer of a
/// record's width in the first, and changes nothing.
pub open spec fn computation_outcome(accounts: Seq<AccountView>) -> Outcome {
    if accounts.len() < 2 {
        rejected(accounts, ProcessError::NotEnoughAccountKeys)
    } else if accounts[0].data.len() != STATE_LEN {
        rejected(accounts, ProcessError::InvalidAccountData)
    } else {
        accepted(accounts)
    }
}

/// What an invocation does: the first account must be there and be owned by
/// the executing program; then the payload's first byte selects the handler.
/// The bytes after the first are not read.
pub open spec fn process_outcome(
    program_id: Seq<u8>,
    accounts: Seq<AccountView>,
    instruction_data: Seq<u8>,
    answer: Result<i64, ProgramError>,
) -> Outcome {
    if accounts.len() == 0 {
        rejected(accounts, ProcessError::NotEnoughAccountKeys)
    } else if accounts[0].owner != program_id {
        rejected(accounts, ProcessError::IncorrectProgramId)
    } else if instruction_data.len() == 0 {
        rejected(accounts, ProcessError::InvalidInstructionData)
    } else if instruction_data[0] == OP_INITIALIZE {
        initialize_outcome(accounts, answer)
    } else if instruction_data[0] == OP_UPDATE_PARAMETERS {
        update_outcome(accounts, answer)
    } else if instruction_data[0] == OP_EXECUTE_COMPUTATION {
        computation_outcome(accounts)
    } else {
        rejected(accounts, ProcessError::InvalidInstructionData)
    }
}

/// The accounts after one successful UpdateParameters for each entry of
/// `times`, in order, each stamped with its entry.
pub open spec fn after_updates(accounts: Seq<AccountView>, times: Seq<i64>) -> Seq<AccountView>
    decreases times.len(),
{
    if times.len() == 0 {
        accounts
    } else {
        update_outcome(after_updates(accounts, times.drop_last()), Ok(times.last())).accounts
    }
}

/// Whether each of those updates succeeds.
pub open spec fn updates_succeed(accounts: Seq<AccountView>, times: Seq<i64>) -> bool
    decreases times.len(),
{
    times.len() == 0 || (updates_succeed(accounts, times.drop_last()) && update_outcome(
        after_updates(accounts, times.drop_last()),
        Ok(times.last()),
    ).result is Ok)
}

/// An invocation that fails changes nothing.
pub proof fn lemma_failure_changes_nothing(
    program_id: Seq<u8>,
    accounts: Seq<AccountView>,
    instruction_data: Seq<u8>,
    answer: Result<i64, ProgramError>,
)
    ensures
        process_outcome(program_id, accounts, instruction_data, answer).result is Err
            ==> process_outcome(program_id, accounts, instruction_data, answer).accounts
            == accounts,
{
}

/// An invocation changes at most the bytes of the first account: the list
/// keeps its length, every other account stays as it was, and the first keeps
/// its key, its owner, its signer flag and the width of its buffer.
pub proof fn lemma_only_record_changes(
    program_id: Seq<u8>,
    accounts: Seq<AccountView>,
    instruction_data: Seq<u8>,
    answer: Result<i64, ProgramError>,
)
    requires
        forall|i: int| 0 <= i < accounts.len() ==> (#[trigger] accounts[i]).valid(),
    ensures
        ({
            let after = process_outcome(program_id, accounts, instruction_data, answer).accounts;
            &&& after.len() == accounts.len()
            &&& forall|i: int| 1 <= i < accounts.len() ==> after[i] == accounts[i]
            &&& accounts.len() > 0 ==> after[0] == (AccountView {
                data: after[0].data,
                ..accounts[0]
            })
            &&& accounts.len() > 0 ==> after[0].data.len() == accounts[0].data.len()
        }),
{
    if accounts.len() >= 2 && accounts[0].data.len() == STATE_LEN {
        match answer {
            Ok(now) => {
                lemma_encode_len(fresh_record(accounts[1].key, now));
                lemma_encode_len(advanced_record(decode(accounts[0].data), now));
            },
            Err(_) => {},
        }
    }
}

/// An invocation whose first account is owned by another program fails with
/// `IncorrectProgramId` and changes nothing, whatever the payload, the other
/// accounts and the clock.
pub proof fn lemma_owner_gating(
    program_id: Seq<u8>,
    accounts: Seq<AccountView>,
    instruction_data: Seq<u8>,
    answer: Result<i64, ProgramError>,
)
    requires
        accounts.len() > 0,
        accounts[0].owner != program_id,
    ensures
        process_outcome(program_id, accounts, instruction_data, answer) == rejected(
            accounts,
            ProcessError::IncorrectProgramId,
        ),
{
}

/// Once the first account has been found to belong to the program, a payload
/// whose opcode is none of the three fails with `InvalidInstructionData` and
/// changes nothing, whatever follows the opcode.
pub proof fn lemma_unknown_opcode_rejected(
    program_id: Seq<u8>,
    accounts: Seq<AccountView>,
    instruction_data: Seq<u8>,
    answer: Result<i64, ProgramError>,
)
    requires
        accounts.len() > 0,
        accounts[0].owner == program_id,
        instruction_data.len() > 0,
        instruction_data[0] != OP_INITIALIZE,
        instruction_data[0] != OP_UPDATE_PARAMETERS,
        instruction_data[0] != OP_EXECUTE_COMPUTATION,
    ensures
        process_outcome(program_id, accounts, instruction_data, answer) == rejected(
            accounts,
            ProcessError::InvalidInstructionData,
        ),
{
}

/// Whatever the accounts, a payload whose opcode is none of the three never
/// succeeds and changes nothing.
pub proof fn lemma_unknown_opcode_never_succeeds(
    program_id: Seq<u8>,
    accounts: Seq<AccountView>,
    instruction_data: Seq<u8>,
    answer: Result<i64, ProgramError>,
)
    requires
        instruction_data.len() > 0,
        instruction_data[0] != OP_INITIALIZE,
        instruction_data[0] != OP_UPDATE_PARAMETERS,
        instruction_data[0] != OP_EXECUTE_COMPUTATION,
    ensures
        process_outcome(program_id, accounts, instruction_data, answer).result is Err,
        process_outcome(program_id, accounts, instruction_data, answer).accounts == accounts,
{
}

/// Initialize and UpdateParameters fail with `MissingRequiredSignature`, and
/// change nothing, when the second account has not signed: whatever the
/// accounts hold and whatever the clock says. Neither takes the payload into
/// account, so this holds of every payload.
pub proof fn lemma_signer_gating(accounts: Seq<AccountView>, answer: Result<i64, ProgramError>)
    requires
        accounts.len() >= 2,
        !accounts[1].is_signer,
    ensures
        initialize_outcome(accounts, answer) == rejected(
            accounts,
            ProcessError::MissingRequiredSignature,
        ),
        update_outcome(accounts, answer) == rejected(
            accounts,
            ProcessError::MissingRequiredSignature,
        ),
{
}

/// The same through the dispatcher: once the first account has been found to
/// belong to the program, an Initialize or UpdateParameters payload fails
/// with `MissingRequiredSignature` when the second account has not signed,
/// whatever follows the opcode.
pub proof fn lemma_signer_gating_dispatched(
    program_id: Seq<u8>,
    accounts: Seq<AccountView>,
    instruction_data: Seq<u8>,
    answer: Result<i64, ProgramError>,
)
    requires
        accounts.len() >= 2,
        accounts[0].owner == program_id,
        !accounts[1].is_signer,
        instruction_data.len() > 0,
        instruction_data[0] == OP_INITIALIZE || instruction_data[0] == OP_UPDATE_PARAMETERS,
    ensures
        process_outcome(program_id, accounts, instruction_data, answer) == rejected(
            accounts,
            ProcessError::MissingRequiredSignature,
        ),
{
}

/// An Initialize that succeeds leaves a record that is initialised, names the
/// second account as its authority, is at version 1 and carries the clock's
/// answer.
pub proof fn lemma_initialize_sets_record(
    accounts: Seq<AccountView>,
    answer: Result<i64, ProgramError>,
)
    requires
        initialize_outcome(accounts, answer).result is Ok,
        accounts[1].valid(),
    ensures
        answer is Ok,
        decode(initialize_outcome(accounts, answer).accounts[0].data) == fresh_record(
            accounts[1].key,
            answer->Ok_0,
        ),
{
    lemma_decode_encode(fresh_record(accounts[1].key, answer->Ok_0));
}

/// An UpdateParameters that succeeds leaves a record whose version is
/// exactly one more than before and whose time is the clock's answer; flag
/// and authority are as before.
pub proof fn lemma_update_advances_version(
    accounts: Seq<AccountView>,
    answer: Result<i64, ProgramError>,
)
    requires
        update_outcome(accounts, answer).result is Ok,
    ensures
        answer is Ok,
        decode(update_outcome(accounts, answer).accounts[0].data) == advanced_record(
            decode(accounts[0].data),
            answer->Ok_0,
        ),
        decode(update_outcome(accounts, answer).accounts[0].data).model_version == decode(
            accounts[0].data,
        ).model_version + 1,
{
    lemma_decode_encode(advanced_record(decode(accounts[0].data), answer->Ok_0));
}

/// Along any run of successful updates of one record the version goes up by
/// one per update, so it never goes down; flag and authority never change.
pub proof fn lemma_updates_count_up(accounts: Seq<AccountView>, times: Seq<i64>)
    requires
        updates_succeed(accounts, times),
    ensures
        decode(after_updates(accounts, times)[0].data).model_version == decode(
            accounts[0].data,
        ).model_version + times.len(),
        decode(after_updates(accounts, times)[0].data).authority == decode(
            accounts[0].data,
        ).authority,
        decode(after_updates(accounts, times)[0].data).is_initialized == decode(
            accounts[0].data,
        ).is_initialized,
    decreases times.len(),
{
    if times.len() > 0 {
        lemma_updates_count_up(accounts, times.drop_last());
        lemma_update_advances_version(
            after_updates(accounts, times.drop_last()),
            Ok(times.last()),
        );
    }
}

} // verus!

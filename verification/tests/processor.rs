use galactic_neural_network::model::{
    OP_EXECUTE_COMPUTATION, OP_INITIALIZE, OP_UPDATE_PARAMETERS,
};
use galactic_neural_network::{
    process_initialize_network, process_instruction, process_instruction_with,
    process_neural_computation, process_update_parameters, Account, NetworkState, ProcessError,
    Pubkey, TimeSource,
};
use solana_program::program_error::ProgramError;

const PROGRAM: Pubkey = [0x47; 32];
const STRANGER: Pubkey = [0x48; 32];
const AUTHORITY: Pubkey = [0xa1; 32];
const OTHER_SIGNER: Pubkey = [0xb2; 32];

fn record_account(data: Vec<u8>) -> Account {
    Account { key: [0x01; 32], owner: PROGRAM, is_signer: false, data }
}

fn second_account(key: Pubkey, is_signer: bool) -> Account {
    Account { key, owner: [0u8; 32], is_signer, data: Vec::new() }
}

fn stored(state: &NetworkState) -> Vec<u8> {
    let mut buffer: Vec<u8> = vec![0u8; 50];
    state.pack_into_slice(&mut buffer);
    buffer
}

fn record_at_version(version: u64) -> NetworkState {
    NetworkState {
        is_initialized: true,
        authority: AUTHORITY,
        model_version: version,
        last_update: 1_000,
    }
}

fn read_record(accounts: &[Account]) -> NetworkState {
    NetworkState::unpack_from_slice(&accounts[0].data).unwrap()
}

#[test]
fn opcodes_are_zero_one_two() {
    assert_eq!(OP_INITIALIZE, 0);
    assert_eq!(OP_UPDATE_PARAMETERS, 1);
    assert_eq!(OP_EXECUTE_COMPUTATION, 2);
}

#[test]
fn initialize_formats_an_all_zero_buffer() {
    let mut accounts = vec![record_account(vec![0u8; 50]), second_account(AUTHORITY, true)];
    let result =
        process_instruction_with(&PROGRAM, &mut accounts, &[0], TimeSource::Fixed(1_700_000_000));
    assert_eq!(result, Ok(()));
    assert_eq!(
        read_record(&accounts),
        NetworkState {
            is_initialized: true,
            authority: AUTHORITY,
            model_version: 1,
            last_update: 1_700_000_000,
        }
    );
    assert_eq!(accounts[0].data.len(), 50);
    assert_eq!(accounts[0].key, [0x01; 32]);
    assert_eq!(accounts[0].owner, PROGRAM);
    assert_eq!(accounts[1], second_account(AUTHORITY, true));
}

#[test]
fn initialize_tolerates_garbage_of_the_right_width() {
    let mut accounts = vec![record_account(vec![0xeeu8; 50]), second_account(AUTHORITY, true)];
    assert_eq!(
        process_initialize_network(&mut accounts, &[], TimeSource::Fixed(-5)),
        Ok(())
    );
    assert_eq!(
        read_record(&accounts),
        NetworkState {
            is_initialized: true,
            authority: AUTHORITY,
            model_version: 1,
            last_update: -5,
        }
    );
    assert_eq!(accounts[0].data[49], 0);
}

#[test]
fn initialize_again_overwrites_authority_and_resets_version() {
    let mut accounts =
        vec![record_account(stored(&record_at_version(9))), second_account(OTHER_SIGNER, true)];
    assert_eq!(
        process_instruction_with(&PROGRAM, &mut accounts, &[0, 1, 2, 3], TimeSource::Fixed(2_000)),
        Ok(())
    );
    assert_eq!(
        read_record(&accounts),
        NetworkState {
            is_initialized: true,
            authority: OTHER_SIGNER,
            model_version: 1,
            last_update: 2_000,
        }
    );
}

#[test]
fn update_advances_version_four_to_five() {
    let mut accounts =
        vec![record_account(stored(&record_at_version(4))), second_account(AUTHORITY, true)];
    let result = process_instruction_with(&PROGRAM, &mut accounts, &[1], TimeSource::Fixed(2_500));
    assert_eq!(result, Ok(()));
    assert_eq!(
        read_record(&accounts),
        NetworkState {
            is_initialized: true,
            authority: AUTHORITY,
            model_version: 5,
            last_update: 2_500,
        }
    );
}

#[test]
fn update_adds_exactly_one_each_time() {
    let mut accounts = vec![record_account(vec![0u8; 50]), second_account(AUTHORITY, true)];
    assert_eq!(
        process_instruction_with(&PROGRAM, &mut accounts, &[0], TimeSource::Fixed(10)),
        Ok(())
    );
    let mut expected: u64 = 1;
    let mut now: i64 = 11;
    while expected < 40 {
        assert_eq!(read_record(&accounts).model_version, expected);
        assert_eq!(
            process_instruction_with(&PROGRAM, &mut accounts, &[1], TimeSource::Fixed(now)),
            Ok(())
        );
        expected += 1;
        let record = read_record(&accounts);
        assert_eq!(record.model_version, expected);
        assert_eq!(record.last_update, now);
        assert_eq!(record.authority, AUTHORITY);
        assert!(record.is_initialized);
        now += 7;
    }
}

#[test]
fn update_does_not_compare_the_signer_with_the_authority() {
    let mut accounts =
        vec![record_account(stored(&record_at_version(4))), second_account(OTHER_SIGNER, true)];
    assert_eq!(
        process_update_parameters(&mut accounts, &[], TimeSource::Fixed(3_000)),
        Ok(())
    );
    let record = read_record(&accounts);
    assert_eq!(record.model_version, 5);
    assert_eq!(record.authority, AUTHORITY);
    assert_eq!(record.last_update, 3_000);
}

#[test]
fn update_keeps_an_unset_flag() {
    let before = NetworkState {
        is_initialized: false,
        authority: [0u8; 32],
        model_version: 0,
        last_update: 0,
    };
    let mut accounts = vec![record_account(stored(&before)), second_account(AUTHORITY, true)];
    assert_eq!(process_update_parameters(&mut accounts, &[9, 9], TimeSource::Fixed(1)), Ok(()));
    assert_eq!(
        read_record(&accounts),
        NetworkState {
            is_initialized: false,
            authority: [0u8; 32],
            model_version: 1,
            last_update: 1,
        }
    );
}

#[test]
fn update_at_the_last_version_overflows() {
    let data = stored(&record_at_version(u64::MAX));
    let mut accounts = vec![record_account(data.clone()), second_account(AUTHORITY, true)];
    assert_eq!(
        process_instruction_with(&PROGRAM, &mut accounts, &[1], TimeSource::Fixed(1)),
        Err(ProcessError::ArithmeticOverflow)
    );
    assert_eq!(accounts[0].data, data);
    let mut accounts = vec![
        record_account(stored(&record_at_version(u64::MAX - 1))),
        second_account(AUTHORITY, true),
    ];
    assert_eq!(
        process_instruction_with(&PROGRAM, &mut accounts, &[1], TimeSource::Fixed(1)),
        Ok(())
    );
    assert_eq!(read_record(&accounts).model_version, u64::MAX);
}

#[test]
fn update_without_signature_fails_and_leaves_the_buffer() {
    let data = stored(&record_at_version(4));
    let mut accounts = vec![record_account(data.clone()), second_account(AUTHORITY, false)];
    let before = accounts.clone();
    assert_eq!(
        process_instruction_with(&PROGRAM, &mut accounts, &[1], TimeSource::Fixed(2_500)),
        Err(ProcessError::MissingRequiredSignature)
    );
    assert_eq!(accounts[0].data, data);
    assert_eq!(accounts, before);
}

#[test]
fn missing_signature_does_not_depend_on_the_payload() {
    let payloads: [&[u8]; 4] = [&[], &[0], &[1, 2, 3], &[0xff; 64]];
    for payload in payloads.iter() {
        let mut accounts = vec![record_account(vec![0u8; 50]), second_account(AUTHORITY, false)];
        let before = accounts.clone();
        assert_eq!(
            process_initialize_network(&mut accounts, payload, TimeSource::Fixed(1)),
            Err(ProcessError::MissingRequiredSignature)
        );
        assert_eq!(accounts, before);
        assert_eq!(
            process_update_parameters(&mut accounts, payload, TimeSource::Fixed(1)),
            Err(ProcessError::MissingRequiredSignature)
        );
        assert_eq!(accounts, before);
        let mut with_opcode: Vec<u8> = vec![0u8];
        with_opcode.extend_from_slice(payload);
        assert_eq!(
            process_instruction_with(&PROGRAM, &mut accounts, &with_opcode, TimeSource::Fixed(1)),
            Err(ProcessError::MissingRequiredSignature)
        );
        with_opcode[0] = 1;
        assert_eq!(
            process_instruction_with(&PROGRAM, &mut accounts, &with_opcode, TimeSource::Fixed(1)),
            Err(ProcessError::MissingRequiredSignature)
        );
        assert_eq!(accounts, before);
    }
}

#[test]
fn missing_signature_comes_before_the_buffer_is_read() {
    let mut accounts = vec![record_account(vec![0u8; 3]), second_account(AUTHORITY, false)];
    assert_eq!(
        process_instruction_with(&PROGRAM, &mut accounts, &[0], TimeSource::Fixed(1)),
        Err(ProcessError::MissingRequiredSignature)
    );
    assert_eq!(
        process_instruction_with(&PROGRAM, &mut accounts, &[1], TimeSource::Fixed(1)),
        Err(ProcessError::MissingRequiredSignature)
    );
}

#[test]
fn foreign_owner_is_rejected_whatever_the_opcode() {
    let payloads: [&[u8]; 6] = [&[0], &[1], &[2], &[7], &[255, 0], &[]];
    for payload in payloads.iter() {
        let mut accounts =
            vec![record_account(stored(&record_at_version(4))), second_account(AUTHORITY, true)];
        accounts[0].owner = STRANGER;
        let before = accounts.clone();
        assert_eq!(
            process_instruction_with(&PROGRAM, &mut accounts, payload, TimeSource::Fixed(1)),
            Err(ProcessError::IncorrectProgramId)
        );
        assert_eq!(accounts, before);
        assert_eq!(
            process_instruction(&PROGRAM, &mut accounts, payload),
            Err(ProcessError::IncorrectProgramId)
        );
        assert_eq!(accounts, before);
    }
}

#[test]
fn owner_differing_in_one_byte_is_foreign() {
    let mut owner = PROGRAM;
    owner[31] ^= 1;
    let mut accounts = vec![record_account(vec![0u8; 50]), second_account(AUTHORITY, true)];
    accounts[0].owner = owner;
    assert_eq!(
        process_instruction_with(&PROGRAM, &mut accounts, &[2], TimeSource::Fixed(1)),
        Err(ProcessError::IncorrectProgramId)
    );
}

#[test]
fn only_the_first_account_is_held_to_the_owner() {
    let mut accounts =
        vec![record_account(stored(&record_at_version(1))), second_account(AUTHORITY, true)];
    accounts[1].owner = STRANGER;
    assert_eq!(
        process_instruction_with(&PROGRAM, &mut accounts, &[1], TimeSource::Fixed(1)),
        Ok(())
    );
}

#[test]
fn opcode_seven_is_invalid() {
    let mut accounts =
        vec![record_account(stored(&record_at_version(4))), second_account(AUTHORITY, true)];
    let before = accounts.clone();
    assert_eq!(
        process_instruction_with(&PROGRAM, &mut accounts, &[7], TimeSource::Fixed(1)),
        Err(ProcessError::InvalidInstructionData)
    );
    assert_eq!(accounts, before);
    assert_eq!(
        process_instruction(&PROGRAM, &mut accounts, &[7]),
        Err(ProcessError::InvalidInstructionData)
    );
    assert_eq!(accounts, before);
}

#[test]
fn every_opcode_above_two_is_invalid() {
    let mut opcode: u8 = 3;
    loop {
        let mut accounts =
            vec![record_account(stored(&record_at_version(4))), second_account(AUTHORITY, true)];
        let before = accounts.clone();
        assert_eq!(
            process_instruction_with(
                &PROGRAM,
                &mut accounts,
                &[opcode, 0, 1],
                TimeSource::Fixed(1)
            ),
            Err(ProcessError::InvalidInstructionData)
        );
        assert_eq!(accounts, before);
        if opcode == u8::MAX {
            break;
        }
        opcode += 1;
    }
}

#[test]
fn empty_payload_is_invalid() {
    let mut accounts =
        vec![record_account(stored(&record_at_version(4))), second_account(AUTHORITY, true)];
    let before = accounts.clone();
    assert_eq!(
        process_instruction_with(&PROGRAM, &mut accounts, &[], TimeSource::Fixed(1)),
        Err(ProcessError::InvalidInstructionData)
    );
    assert_eq!(accounts, before);
}

#[test]
fn no_account_at_all_is_too_few() {
    let mut accounts: Vec<Account> = Vec::new();
    let payloads: [&[u8]; 5] = [&[0], &[1], &[2], &[7], &[]];
    for payload in payloads.iter() {
        assert_eq!(
            process_instruction_with(&PROGRAM, &mut accounts, payload, TimeSource::Fixed(1)),
            Err(ProcessError::NotEnoughAccountKeys)
        );
    }
    assert!(accounts.is_empty());
}

#[test]
fn one_account_is_too_few_for_every_handler() {
    let mut accounts = vec![record_account(stored(&record_at_version(4)))];
    let before = accounts.clone();
    let mut opcode: u8 = 0;
    while opcode < 3 {
        assert_eq!(
            process_instruction_with(&PROGRAM, &mut accounts, &[opcode], TimeSource::Fixed(1)),
            Err(ProcessError::NotEnoughAccountKeys)
        );
        opcode += 1;
    }
    assert_eq!(
        process_initialize_network(&mut accounts, &[], TimeSource::Fixed(1)),
        Err(ProcessError::NotEnoughAccountKeys)
    );
    assert_eq!(
        process_update_parameters(&mut accounts, &[], TimeSource::Fixed(1)),
        Err(ProcessError::NotEnoughAccountKeys)
    );
    assert_eq!(process_neural_computation(&accounts, &[]), Err(ProcessError::NotEnoughAccountKeys));
    assert_eq!(accounts, before);
    assert_eq!(
        process_instruction_with(&PROGRAM, &mut accounts, &[7], TimeSource::Fixed(1)),
        Err(ProcessError::InvalidInstructionData)
    );
}

#[test]
fn buffer_of_another_width_is_malformed() {
    let widths: [usize; 5] = [0, 1, 49, 51, 100];
    for width in widths.iter() {
        let mut opcode: u8 = 0;
        while opcode < 3 {
            let mut accounts =
                vec![record_account(vec![0u8; *width]), second_account(AUTHORITY, true)];
            let before = accounts.clone();
            assert_eq!(
                process_instruction_with(&PROGRAM, &mut accounts, &[opcode], TimeSource::Fixed(1)),
                Err(ProcessError::InvalidAccountData)
            );
            assert_eq!(accounts, before);
            opcode += 1;
        }
    }
}

#[test]
fn computation_inspects_and_changes_nothing() {
    let mut accounts =
        vec![record_account(stored(&record_at_version(4))), second_account(STRANGER, false)];
    let before = accounts.clone();
    assert_eq!(
        process_instruction_with(&PROGRAM, &mut accounts, &[2], TimeSource::Fixed(99)),
        Ok(())
    );
    assert_eq!(accounts, before);
    assert_eq!(process_neural_computation(&accounts, &[1, 2, 3]), Ok(()));
    let mut garbage = vec![record_account(vec![0xeeu8; 50]), second_account(STRANGER, false)];
    assert_eq!(
        process_instruction_with(&PROGRAM, &mut garbage, &[2], TimeSource::Fixed(99)),
        Ok(())
    );
    assert_eq!(garbage[0].data, vec![0xeeu8; 50]);
}

#[test]
fn computation_never_reads_the_clock() {
    let mut accounts =
        vec![record_account(stored(&record_at_version(4))), second_account(STRANGER, false)];
    assert_eq!(
        process_instruction_with(
            &PROGRAM,
            &mut accounts,
            &[2],
            TimeSource::Unavailable(ProgramError::UnsupportedSysvar)
        ),
        Ok(())
    );
    assert_eq!(process_instruction(&PROGRAM, &mut accounts, &[2]), Ok(()));
}

#[test]
fn unreadable_clock_fails_the_mutating_handlers() {
    let mut opcode: u8 = 0;
    while opcode < 2 {
        let mut accounts =
            vec![record_account(stored(&record_at_version(4))), second_account(AUTHORITY, true)];
        let before = accounts.clone();
        assert_eq!(
            process_instruction_with(
                &PROGRAM,
                &mut accounts,
                &[opcode],
                TimeSource::Unavailable(ProgramError::Custom(17))
            ),
            Err(ProcessError::Clock(ProgramError::Custom(17)))
        );
        assert_eq!(accounts, before);
        opcode += 1;
    }
}

#[test]
fn earlier_failures_win_over_an_unreadable_clock() {
    let mut accounts = vec![record_account(vec![0u8; 50]), second_account(AUTHORITY, false)];
    assert_eq!(
        process_instruction_with(
            &PROGRAM,
            &mut accounts,
            &[0],
            TimeSource::Unavailable(ProgramError::UnsupportedSysvar)
        ),
        Err(ProcessError::MissingRequiredSignature)
    );
    let mut accounts =
        vec![record_account(stored(&record_at_version(u64::MAX))), second_account(AUTHORITY, true)];
    assert_eq!(
        process_instruction_with(
            &PROGRAM,
            &mut accounts,
            &[1],
            TimeSource::Unavailable(ProgramError::UnsupportedSysvar)
        ),
        Err(ProcessError::ArithmeticOverflow)
    );
}

#[test]
fn host_clock_off_chain_is_unsupported() {
    let mut opcode: u8 = 0;
    while opcode < 2 {
        let mut accounts =
            vec![record_account(stored(&record_at_version(4))), second_account(AUTHORITY, true)];
        let before = accounts.clone();
        assert_eq!(
            process_instruction(&PROGRAM, &mut accounts, &[opcode]),
            Err(ProcessError::Clock(ProgramError::UnsupportedSysvar))
        );
        assert_eq!(accounts, before);
        opcode += 1;
    }
    assert_eq!(TimeSource::Host.read(), Err(ProgramError::UnsupportedSysvar));
}

#[test]
fn host_clock_is_not_asked_after_a_refusal() {
    let mut accounts = vec![record_account(vec![0u8; 50]), second_account(AUTHORITY, false)];
    assert_eq!(
        process_instruction(&PROGRAM, &mut accounts, &[0]),
        Err(ProcessError::MissingRequiredSignature)
    );
    assert_eq!(
        process_instruction(&PROGRAM, &mut accounts, &[1]),
        Err(ProcessError::MissingRequiredSignature)
    );
    let mut short = vec![record_account(vec![0u8; 49]), second_account(AUTHORITY, true)];
    assert_eq!(
        process_instruction(&PROGRAM, &mut short, &[1]),
        Err(ProcessError::InvalidAccountData)
    );
}

#[test]
fn fixed_and_unavailable_clocks_answer_as_told() {
    assert_eq!(TimeSource::Fixed(42).read(), Ok(42));
    assert_eq!(TimeSource::Fixed(i64::MIN).read(), Ok(i64::MIN));
    assert_eq!(
        TimeSource::Unavailable(ProgramError::InvalidArgument).read(),
        Err(ProgramError::InvalidArgument)
    );
}

#[test]
fn further_accounts_are_left_alone() {
    let mut accounts = vec![
        record_account(vec![0u8; 50]),
        second_account(AUTHORITY, true),
        Account { key: [3u8; 32], owner: STRANGER, is_signer: false, data: vec![1, 2, 3] },
    ];
    let others: Vec<Account> = accounts[1..].to_vec();
    assert_eq!(
        process_instruction_with(&PROGRAM, &mut accounts, &[0], TimeSource::Fixed(8)),
        Ok(())
    );
    assert_eq!(accounts.len(), 3);
    assert_eq!(&accounts[1..], &others[..]);
}

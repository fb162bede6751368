use tlv_state::error::{AccountResolutionError, ProgramError};
use tlv_state::resolution::account::{
    AccountMeta, AccountSnapshot, ExtraAccountMeta, Instruction,
};
use tlv_state::resolution::seeds::Seed;
use tlv_state::resolution::state::ExtraAccountMetaList;
use tlv_state::state::Pubkey;
use tlv_state::tlv::SplDiscriminate;

pub struct TestInstruction;
impl SplDiscriminate for TestInstruction {
    const SPL_DISCRIMINATOR: [u8; 8] = [1; 8];
}

pub struct TestOtherInstruction;
impl SplDiscriminate for TestOtherInstruction {
    const SPL_DISCRIMINATOR: [u8; 8] = [2; 8];
}

fn new_unique() -> Pubkey {
    Pubkey::new_from_array(solana_program::pubkey::Pubkey::new_unique().to_bytes())
}

fn find_program_address(seeds: &[&[u8]], program_id: &Pubkey) -> (Pubkey, u8) {
    let (key, bump) = solana_program::pubkey::Pubkey::find_program_address(
        seeds,
        &solana_program::pubkey::Pubkey::new_from_array(program_id.to_bytes()),
    );
    (Pubkey::new_from_array(key.to_bytes()), bump)
}

fn account_info(key: &Pubkey, is_signer: bool, is_writable: bool, data: &[u8]) -> AccountSnapshot {
    AccountSnapshot {
        key: *key,
        is_signer,
        is_writable,
        data: data.to_vec(),
    }
}

fn account_info_to_meta(account_info: &AccountSnapshot) -> AccountMeta {
    AccountMeta {
        pubkey: account_info.key,
        is_signer: account_info.is_signer,
        is_writable: account_info.is_writable,
    }
}

fn new_with_bytes(program_id: Pubkey, data: &[u8], accounts: Vec<AccountMeta>) -> Instruction {
    Instruction {
        program_id,
        accounts,
        data: data.to_vec(),
    }
}

#[test]
fn init_with_metas() {
    let metas = [
        ExtraAccountMeta::from_account_meta(&AccountMeta::new(new_unique(), false)),
        ExtraAccountMeta::from_account_meta(&AccountMeta::new(new_unique(), true)),
        ExtraAccountMeta::from_account_meta(&AccountMeta::new_readonly(new_unique(), true)),
        ExtraAccountMeta::from_account_meta(&AccountMeta::new_readonly(new_unique(), false)),
    ];
    let account_size = ExtraAccountMetaList::size_of(metas.len()).unwrap();
    let mut buffer = vec![0; account_size];

    ExtraAccountMetaList::init::<TestInstruction>(&mut buffer, &metas).unwrap();

    let mut instruction = new_with_bytes(new_unique(), &[], vec![]);
    ExtraAccountMetaList::add_to_instruction::<TestInstruction>(&mut instruction, &[], &buffer)
        .unwrap();

    let check_metas = metas
        .iter()
        .map(|e| e.to_account_meta().unwrap())
        .collect::<Vec<_>>();

    assert_eq!(instruction.accounts, check_metas,);
}

#[test]
fn init_with_infos() {
    let program_id = new_unique();

    let pubkey1 = new_unique();
    let pubkey2 = new_unique();
    let pubkey3 = new_unique();
    let account_infos = [
        account_info(&pubkey1, false, true, &[]),
        account_info(&pubkey2, true, false, &[4, 4, 4, 6, 6, 6, 8, 8]),
        account_info(&pubkey3, false, false, &[]),
    ];

    let required_pda = ExtraAccountMeta::new_with_seeds(
        &[
            Seed::AccountKey { index: 0 },
            Seed::AccountData {
                account_index: 1,
                data_index: 2,
                length: 4,
            },
        ],
        false,
        true,
    )
    .unwrap();

    // Convert to `ExtraAccountMeta`
    let required_extra_accounts = [
        ExtraAccountMeta::from_account_info(&account_infos[0]),
        ExtraAccountMeta::from_account_info(&account_infos[1]),
        ExtraAccountMeta::from_account_info(&account_infos[2]),
        required_pda,
    ];

    let account_size = ExtraAccountMetaList::size_of(required_extra_accounts.len()).unwrap();
    let mut buffer = vec![0; account_size];

    ExtraAccountMetaList::init::<TestInstruction>(&mut buffer, &required_extra_accounts).unwrap();

    let mut instruction = new_with_bytes(program_id, &[], vec![]);
    ExtraAccountMetaList::add_to_instruction::<TestInstruction>(
        &mut instruction,
        &account_infos,
        &buffer,
    )
    .unwrap();

    let (check_required_pda, _) = find_program_address(
        &[
            account_infos[0].key.0.as_ref(), // Account key
            &[4, 6, 6, 6],                   // Account data
        ],
        &program_id,
    );

    // Convert to `AccountMeta` to check instruction
    let check_metas = [
        account_info_to_meta(&account_infos[0]),
        account_info_to_meta(&account_infos[1]),
        account_info_to_meta(&account_infos[2]),
        AccountMeta::new(check_required_pda, false),
    ];

    assert_eq!(instruction.accounts, check_metas,);

    assert_eq!(
        instruction.accounts.get(3).unwrap().pubkey,
        check_required_pda
    );
}

#[test]
fn init_with_extra_account_metas() {
    let program_id = new_unique();

    let extra_meta3_literal_str = "seed_prefix";

    let ix_account1 = AccountMeta::new(new_unique(), false);
    let ix_account2 = AccountMeta::new(new_unique(), true);

    let extra_meta1 = AccountMeta::new(new_unique(), false);
    let extra_meta2 = AccountMeta::new(new_unique(), true);
    let extra_meta3 = ExtraAccountMeta::new_with_seeds(
        &[
            Seed::Literal {
                bytes: extra_meta3_literal_str.as_bytes().to_vec(),
            },
            Seed::InstructionData {
                index: 1,
                length: 1, // u8
            },
            Seed::AccountKey { index: 0 },
            Seed::AccountKey { index: 2 },
        ],
        false,
        true,
    )
    .unwrap();

    let metas = [
        ExtraAccountMeta::from_account_meta(&extra_meta1),
        ExtraAccountMeta::from_account_meta(&extra_meta2),
        extra_meta3,
    ];

    let ix_data = vec![1, 2, 3, 4];
    let ix_accounts = vec![ix_account1.clone(), ix_account2.clone()];
    let mut instruction = new_with_bytes(program_id, &ix_data, ix_accounts);

    let account_size = ExtraAccountMetaList::size_of(metas.len()).unwrap();
    let mut buffer = vec![0; account_size];

    ExtraAccountMetaList::init::<TestInstruction>(&mut buffer, &metas).unwrap();

    ExtraAccountMetaList::add_to_instruction::<TestInstruction>(&mut instruction, &[], &buffer)
        .unwrap();

    let check_extra_meta3_u8_arg = ix_data[1];
    let check_extra_meta3_pubkey = find_program_address(
        &[
            extra_meta3_literal_str.as_bytes(),
            &[check_extra_meta3_u8_arg],
            ix_account1.pubkey.0.as_ref(),
            extra_meta1.pubkey.0.as_ref(),
        ],
        &program_id,
    )
    .0;
    let check_metas = [
        ix_account1,
        ix_account2,
        extra_meta1,
        extra_meta2,
        AccountMeta::new(check_extra_meta3_pubkey, false),
    ];

    assert_eq!(
        instruction.accounts.get(4).unwrap().pubkey,
        check_extra_meta3_pubkey,
    );
    assert_eq!(instruction.accounts, check_metas,);
}

#[test]
fn init_multiple() {
    let extra_meta5_literal_str = "seed_prefix";
    let extra_meta5_literal_u32 = 4u32;
    let other_meta2_literal_str = "other_seed_prefix";

    let extra_meta1 = AccountMeta::new(new_unique(), false);
    let extra_meta2 = AccountMeta::new(new_unique(), true);
    let extra_meta3 = AccountMeta::new_readonly(new_unique(), true);
    let extra_meta4 = AccountMeta::new_readonly(new_unique(), false);
    let extra_meta5 = ExtraAccountMeta::new_with_seeds(
        &[
            Seed::Literal {
                bytes: extra_meta5_literal_str.as_bytes().to_vec(),
            },
            Seed::Literal {
                bytes: extra_meta5_literal_u32.to_le_bytes().to_vec(),
            },
            Seed::InstructionData {
                index: 5,
                length: 1, // u8
            },
            Seed::AccountKey { index: 2 },
        ],
        false,
        true,
    )
    .unwrap();

    let other_meta1 = AccountMeta::new(new_unique(), false);
    let other_meta2 = ExtraAccountMeta::new_with_seeds(
        &[
            Seed::Literal {
                bytes: other_meta2_literal_str.as_bytes().to_vec(),
            },
            Seed::InstructionData {
                index: 1,
                length: 4, // u32
            },
            Seed::AccountKey { index: 0 },
        ],
        false,
        true,
    )
    .unwrap();

    let metas = [
        ExtraAccountMeta::from_account_meta(&extra_meta1),
        ExtraAccountMeta::from_account_meta(&extra_meta2),
        ExtraAccountMeta::from_account_meta(&extra_meta3),
        ExtraAccountMeta::from_account_meta(&extra_meta4),
        extra_meta5,
    ];
    let other_metas = [ExtraAccountMeta::from_account_meta(&other_meta1), other_meta2];

    let account_size = ExtraAccountMetaList::size_of(metas.len()).unwrap()
        + ExtraAccountMetaList::size_of(other_metas.len()).unwrap();
    let mut buffer = vec![0; account_size];

    ExtraAccountMetaList::init::<TestInstruction>(&mut buffer, &metas).unwrap();
    ExtraAccountMetaList::init::<TestOtherInstruction>(&mut buffer, &other_metas).unwrap();

    let program_id = new_unique();
    let ix_data = vec![0, 0, 0, 0, 0, 7, 0, 0];
    let ix_accounts = vec![];
    let mut instruction = new_with_bytes(program_id, &ix_data, ix_accounts);
    ExtraAccountMetaList::add_to_instruction::<TestInstruction>(&mut instruction, &[], &buffer)
        .unwrap();

    let check_extra_meta5_u8_arg = ix_data[5];
    let check_extra_meta5_pubkey = find_program_address(
        &[
            extra_meta5_literal_str.as_bytes(),
            extra_meta5_literal_u32.to_le_bytes().as_ref(),
            &[check_extra_meta5_u8_arg],
            extra_meta3.pubkey.0.as_ref(),
        ],
        &program_id,
    )
    .0;
    let check_metas = [
        extra_meta1,
        extra_meta2,
        extra_meta3,
        extra_meta4,
        AccountMeta::new(check_extra_meta5_pubkey, false),
    ];

    assert_eq!(
        instruction.accounts.get(4).unwrap().pubkey,
        check_extra_meta5_pubkey,
    );
    assert_eq!(instruction.accounts, check_metas,);

    let program_id = new_unique();
    let ix_account1 = AccountMeta::new(new_unique(), false);
    let ix_account2 = AccountMeta::new(new_unique(), true);
    let ix_accounts = vec![ix_account1.clone(), ix_account2.clone()];
    let ix_data = vec![0, 26, 0, 0, 0, 0, 0];
    let mut instruction = new_with_bytes(program_id, &ix_data, ix_accounts);
    ExtraAccountMetaList::add_to_instruction::<TestOtherInstruction>(
        &mut instruction,
        &[],
        &buffer,
    )
    .unwrap();

    let check_other_meta2_u32_arg = u32::from_le_bytes(ix_data[1..5].try_into().unwrap());
    let check_other_meta2_pubkey = find_program_address(
        &[
            other_meta2_literal_str.as_bytes(),
            check_other_meta2_u32_arg.to_le_bytes().as_ref(),
            ix_account1.pubkey.0.as_ref(),
        ],
        &program_id,
    )
    .0;
    let check_other_metas = [
        ix_account1,
        ix_account2,
        other_meta1,
        AccountMeta::new(check_other_meta2_pubkey, false),
    ];

    assert_eq!(
        instruction.accounts.get(3).unwrap().pubkey,
        check_other_meta2_pubkey,
    );
    assert_eq!(instruction.accounts, check_other_metas,);
}

#[test]
fn init_mixed() {
    let extra_meta5_literal_str = "seed_prefix";
    let extra_meta6_literal_u64 = 28u64;

    let pubkey1 = new_unique();
    let pubkey2 = new_unique();
    let pubkey3 = new_unique();
    let account_infos = [
        account_info(&pubkey1, false, true, &[]),
        account_info(&pubkey2, true, false, &[]),
        account_info(&pubkey3, false, false, &[]),
    ];

    let extra_meta1 = AccountMeta::new(new_unique(), false);
    let extra_meta2 = AccountMeta::new(new_unique(), true);
    let extra_meta3 = AccountMeta::new_readonly(new_unique(), true);
    let extra_meta4 = AccountMeta::new_readonly(new_unique(), false);
    let extra_meta5 = ExtraAccountMeta::new_with_seeds(
        &[
            Seed::Literal {
                bytes: extra_meta5_literal_str.as_bytes().to_vec(),
            },
            Seed::InstructionData {
                index: 1,
                length: 8, // [u8; 8]
            },
            Seed::InstructionData {
                index: 9,
                length: 32, // Pubkey
            },
            Seed::AccountKey { index: 2 },
        ],
        false,
        true,
    )
    .unwrap();
    let extra_meta6 = ExtraAccountMeta::new_with_seeds(
        &[
            Seed::Literal {
                bytes: extra_meta6_literal_u64.to_le_bytes().to_vec(),
            },
            Seed::AccountKey { index: 1 },
            Seed::AccountKey { index: 4 },
        ],
        false,
        true,
    )
    .unwrap();

    let test_ix_required_extra_accounts = account_infos
        .iter()
        .map(ExtraAccountMeta::from_account_info)
        .collect::<Vec<_>>();
    let test_other_ix_required_extra_accounts = [
        ExtraAccountMeta::from_account_meta(&extra_meta1),
        ExtraAccountMeta::from_account_meta(&extra_meta2),
        ExtraAccountMeta::from_account_meta(&extra_meta3),
        ExtraAccountMeta::from_account_meta(&extra_meta4),
        extra_meta5,
        extra_meta6,
    ];

    let account_size = ExtraAccountMetaList::size_of(test_ix_required_extra_accounts.len())
        .unwrap()
        + ExtraAccountMetaList::size_of(test_other_ix_required_extra_accounts.len()).unwrap();
    let mut buffer = vec![0; account_size];

    ExtraAccountMetaList::init::<TestInstruction>(&mut buffer, &test_ix_required_extra_accounts)
        .unwrap();
    ExtraAccountMetaList::init::<TestOtherInstruction>(
        &mut buffer,
        &test_other_ix_required_extra_accounts,
    )
    .unwrap();

    let program_id = new_unique();
    let mut instruction = new_with_bytes(program_id, &[], vec![]);
    ExtraAccountMetaList::add_to_instruction::<TestInstruction>(
        &mut instruction,
        &account_infos,
        &buffer,
    )
    .unwrap();

    let test_ix_check_metas = account_infos
        .iter()
        .map(account_info_to_meta)
        .collect::<Vec<_>>();
    assert_eq!(instruction.accounts, test_ix_check_metas,);

    let program_id = new_unique();
    let instruction_u8array_arg = [1, 2, 3, 4, 5, 6, 7, 8];
    let instruction_pubkey_arg = new_unique();
    let mut instruction_data = vec![0];
    instruction_data.extend_from_slice(&instruction_u8array_arg);
    instruction_data.extend_from_slice(instruction_pubkey_arg.0.as_ref());
    let mut instruction = new_with_bytes(program_id, &instruction_data, vec![]);
    ExtraAccountMetaList::add_to_instruction::<TestOtherInstruction>(
        &mut instruction,
        &account_infos,
        &buffer,
    )
    .unwrap();

    let check_extra_meta5_pubkey = find_program_address(
        &[
            extra_meta5_literal_str.as_bytes(),
            &instruction_u8array_arg,
            instruction_pubkey_arg.0.as_ref(),
            extra_meta3.pubkey.0.as_ref(),
        ],
        &program_id,
    )
    .0;

    let check_extra_meta6_pubkey = find_program_address(
        &[
            extra_meta6_literal_u64.to_le_bytes().as_ref(),
            extra_meta2.pubkey.0.as_ref(),
            check_extra_meta5_pubkey.0.as_ref(), // The first PDA should be at index 4
        ],
        &program_id,
    )
    .0;

    let test_other_ix_check_metas = vec![
        extra_meta1,
        extra_meta2,
        extra_meta3,
        extra_meta4,
        AccountMeta::new(check_extra_meta5_pubkey, false),
        AccountMeta::new(check_extra_meta6_pubkey, false),
    ];

    assert_eq!(
        instruction.accounts.get(4).unwrap().pubkey,
        check_extra_meta5_pubkey,
    );
    assert_eq!(
        instruction.accounts.get(5).unwrap().pubkey,
        check_extra_meta6_pubkey,
    );
    assert_eq!(instruction.accounts, test_other_ix_check_metas,);
}

#[test]
fn cpi_instruction() {
    // Say we have a program that CPIs to another program.
    //
    // Say that _other_ program will need extra account infos.

    // This will be our program
    let program_id = new_unique();

    // Some seeds used by the program for PDAs
    let required_pda1_literal_string = "required_pda1";
    let required_pda2_literal_u32 = 4u32;

    // Define instruction data
    //  - 0: u8
    //  - 1-8: [u8; 8]
    //  - 9-16: u64
    let instruction_u8array_arg = [1, 2, 3, 4, 5, 6, 7, 8];
    let instruction_u64_arg = 208u64;
    let mut instruction_data = vec![0];
    instruction_data.extend_from_slice(&instruction_u8array_arg);
    instruction_data.extend_from_slice(instruction_u64_arg.to_le_bytes().as_ref());

    // Define known instruction accounts
    let ix_accounts = vec![
        AccountMeta::new(new_unique(), false),
        AccountMeta::new(new_unique(), false),
    ];

    // Define extra account metas required by the program we will CPI to
    let extra_meta1 = AccountMeta::new(new_unique(), false);
    let extra_meta2 = AccountMeta::new(new_unique(), true);
    let extra_meta3 = AccountMeta::new_readonly(new_unique(), false);
    let required_accounts = [
        ExtraAccountMeta::from_account_meta(&extra_meta1),
        ExtraAccountMeta::from_account_meta(&extra_meta2),
        ExtraAccountMeta::from_account_meta(&extra_meta3),
        ExtraAccountMeta::new_with_seeds(
            &[
                Seed::Literal {
                    bytes: required_pda1_literal_string.as_bytes().to_vec(),
                },
                Seed::InstructionData {
                    index: 1,
                    length: 8, // [u8; 8]
                },
                Seed::AccountKey { index: 1 },
            ],
            false,
            true,
        )
        .unwrap(),
        ExtraAccountMeta::new_with_seeds(
            &[
                Seed::Literal {
                    bytes: required_pda2_literal_u32.to_le_bytes().to_vec(),
                },
                Seed::InstructionData {
                    index: 9,
                    length: 8, // u64
                },
                Seed::AccountKey { index: 5 },
            ],
            false,
            true,
        )
        .unwrap(),
        ExtraAccountMeta::new_with_seeds(
            &[
                Seed::InstructionData {
                    index: 0,
                    length: 1, // u8
                },
                Seed::AccountData {
                    account_index: 2,
                    data_index: 0,
                    length: 8,
                },
            ],
            false,
            true,
        )
        .unwrap(),
        ExtraAccountMeta::new_with_seeds(
            &[
                Seed::AccountData {
                    account_index: 5,
                    data_index: 4,
                    length: 4,
                }, // This one is a PDA!
            ],
            false,
            true,
        )
        .unwrap(),
    ];

    // Now here we're going to build the list of account infos
    // We'll need to include:
    //  - The instruction account infos for the program to CPI to
    //  - The extra account infos for the program to CPI to
    //  - Some other arbitrary account infos our program may use

    // First we need to manually derive each PDA
    let check_required_pda1_pubkey = find_program_address(
        &[
            required_pda1_literal_string.as_bytes(),
            &instruction_u8array_arg,
            ix_accounts.get(1).unwrap().pubkey.0.as_ref(), // The second account
        ],
        &program_id,
    )
    .0;
    let check_required_pda2_pubkey = find_program_address(
        &[
            required_pda2_literal_u32.to_le_bytes().as_ref(),
            instruction_u64_arg.to_le_bytes().as_ref(),
            check_required_pda1_pubkey.0.as_ref(), // The first PDA should be at index 5
        ],
        &program_id,
    )
    .0;
    let check_required_pda3_pubkey = find_program_address(
        &[
            &[0],    // Instruction "discriminator" (u8)
            &[8; 8], // The first 8 bytes of the data for account at index 2 (extra account 1)
        ],
        &program_id,
    )
    .0;
    let check_required_pda4_pubkey = find_program_address(
        &[
            &[7; 4], /* 4 bytes starting at index 4 of the data for account at index 5 (extra
                      * pda 1) */
        ],
        &program_id,
    )
    .0;

    // The instruction account infos for the program to CPI to
    let pubkey_ix_1 = ix_accounts.get(0).unwrap().pubkey;
    let pubkey_ix_2 = ix_accounts.get(1).unwrap().pubkey;

    // Some other arbitrary account infos our program may use
    let pubkey_arb_1 = new_unique();
    let pubkey_arb_2 = new_unique();

    let all_account_infos = [
        account_info(
            &pubkey_ix_1,
            ix_accounts.get(0).unwrap().is_signer,
            ix_accounts.get(0).unwrap().is_writable,
            &[],
        ),
        account_info(
            &pubkey_ix_2,
            ix_accounts.get(1).unwrap().is_signer,
            ix_accounts.get(1).unwrap().is_writable,
            &[],
        ),
        account_info(
            &extra_meta1.pubkey,
            required_accounts.get(0).unwrap().is_signer.get(),
            required_accounts.get(0).unwrap().is_writable.get(),
            &[8; 12],
        ),
        account_info(
            &extra_meta2.pubkey,
            required_accounts.get(1).unwrap().is_signer.get(),
            required_accounts.get(1).unwrap().is_writable.get(),
            &[],
        ),
        account_info(
            &extra_meta3.pubkey,
            required_accounts.get(2).unwrap().is_signer.get(),
            required_accounts.get(2).unwrap().is_writable.get(),
            &[],
        ),
        account_info(
            &check_required_pda1_pubkey,
            required_accounts.get(3).unwrap().is_signer.get(),
            required_accounts.get(3).unwrap().is_writable.get(),
            &[7; 12],
        ),
        account_info(
            &check_required_pda2_pubkey,
            required_accounts.get(4).unwrap().is_signer.get(),
            required_accounts.get(4).unwrap().is_writable.get(),
            &[],
        ),
        account_info(
            &check_required_pda3_pubkey,
            required_accounts.get(5).unwrap().is_signer.get(),
            required_accounts.get(5).unwrap().is_writable.get(),
            &[],
        ),
        account_info(
            &check_required_pda4_pubkey,
            required_accounts.get(6).unwrap().is_signer.get(),
            required_accounts.get(6).unwrap().is_writable.get(),
            &[],
        ),
        account_info(&pubkey_arb_1, false, true, &[]),
        account_info(&pubkey_arb_2, false, true, &[]),
    ];

    // Let's use a mock RPC and set up a test instruction to check the CPI
    // instruction against later
    let rpc_account_infos = all_account_infos.clone();

    let account_size = ExtraAccountMetaList::size_of(required_accounts.len()).unwrap();
    let mut buffer = vec![0; account_size];
    ExtraAccountMetaList::init::<TestInstruction>(&mut buffer, &required_accounts).unwrap();

    let mut instruction = new_with_bytes(program_id, &instruction_data, ix_accounts.clone());
    ExtraAccountMetaList::add_to_instruction::<TestInstruction>(
        &mut instruction,
        &rpc_account_infos,
        &buffer,
    )
    .unwrap();

    // Perform the account resolution for the CPI instruction

    // Create the instruction itself
    let mut cpi_instruction = new_with_bytes(program_id, &instruction_data, ix_accounts);

    // Start with the known account infos
    let mut cpi_account_infos = vec![all_account_infos[0].clone(), all_account_infos[1].clone()];

    // Mess up the ordering of the account infos to make it harder!
    let mut messed_account_infos = all_account_infos.clone();
    messed_account_infos.swap(0, 4);
    messed_account_infos.swap(1, 2);
    messed_account_infos.swap(3, 4);
    messed_account_infos.swap(5, 6);
    messed_account_infos.swap(8, 7);

    // Resolve the rest!
    ExtraAccountMetaList::add_to_cpi_instruction::<TestInstruction>(
        &mut cpi_instruction,
        &mut cpi_account_infos,
        &buffer,
        &messed_account_infos,
    )
    .unwrap();

    // Our CPI instruction should match the check instruction.
    assert_eq!(cpi_instruction, instruction);

    // CPI account infos should have the instruction account infos
    // and the extra required account infos from the validation account,
    // and they should be in the correct order.
    let check_account_infos = &all_account_infos[..9];
    assert_eq!(cpi_account_infos.len(), check_account_infos.len());
    for (a, b) in std::iter::zip(cpi_account_infos, check_account_infos) {
        assert_eq!(a.key, b.key);
        assert_eq!(a.is_signer, b.is_signer);
        assert_eq!(a.is_writable, b.is_writable);
    }
}

#[test]
fn check_account_infos_test() {
    let program_id = new_unique();

    // Create a list of required account metas
    let pubkey1 = new_unique();
    let pubkey2 = new_unique();
    let required_accounts = [
        ExtraAccountMeta::new_with_pubkey(&pubkey1, false, true).unwrap(),
        ExtraAccountMeta::new_with_pubkey(&pubkey2, false, false).unwrap(),
        ExtraAccountMeta::new_with_seeds(
            &[
                Seed::Literal {
                    bytes: b"lit_seed".to_vec(),
                },
                Seed::InstructionData {
                    index: 0,
                    length: 4,
                },
                Seed::AccountKey { index: 0 },
            ],
            false,
            true,
        )
        .unwrap(),
    ];

    // Create the validation data
    let account_size = ExtraAccountMetaList::size_of(required_accounts.len()).unwrap();
    let mut buffer = vec![0; account_size];
    ExtraAccountMetaList::init::<TestInstruction>(&mut buffer, &required_accounts).unwrap();

    // Create the instruction data
    let instruction_data = vec![0, 1, 2, 3, 4, 5, 6, 7];

    // Set up a list of the required accounts as account infos,
    // with two instruction accounts
    let pubkey_ix_1 = new_unique();
    let pubkey_ix_2 = new_unique();
    let pda = find_program_address(
        &[b"lit_seed", &instruction_data[..4], pubkey_ix_1.0.as_ref()],
        &program_id,
    )
    .0;
    let account_infos = [
        // Instruction account 1
        account_info(&pubkey_ix_1, false, true, &[]),
        // Instruction account 2
        account_info(&pubkey_ix_2, false, true, &[]),
        // Required account 1
        account_info(&pubkey1, false, true, &[]),
        // Required account 2
        account_info(&pubkey2, false, false, &[]),
        // Required account 3 (PDA)
        account_info(&pda, false, true, &[]),
    ];

    // Create another list of account infos to intentionally mess up
    let mut messed_account_infos = account_infos.clone().to_vec();
    messed_account_infos.swap(0, 2);
    messed_account_infos.swap(1, 4);
    messed_account_infos.swap(3, 2);

    // Account info check should fail for the messed list
    assert_eq!(
        ExtraAccountMetaList::check_account_infos::<TestInstruction>(
            &messed_account_infos,
            &instruction_data,
            &program_id,
            &buffer,
        )
        .unwrap_err(),
        ProgramError::from(AccountResolutionError::IncorrectAccount),
    );

    // Account info check should pass for the correct list
    assert_eq!(
        ExtraAccountMetaList::check_account_infos::<TestInstruction>(
            &account_infos,
            &instruction_data,
            &program_id,
            &buffer,
        ),
        Ok(()),
    );
}

#[test]
fn pda_chain_follows_explicit_accounts() {
    let program_id = new_unique();
    let explicit1 = AccountMeta::new(new_unique(), false);
    let explicit2 = AccountMeta::new_readonly(new_unique(), true);
    // the first derived address is seeded by the first explicit account,
    // the second by the first derived address
    let pda1 = ExtraAccountMeta::new_with_seeds(
        &[
            Seed::Literal {
                bytes: b"first".to_vec(),
            },
            Seed::AccountKey { index: 0 },
        ],
        false,
        true,
    )
    .unwrap();
    let pda2 = ExtraAccountMeta::new_with_seeds(
        &[
            Seed::Literal {
                bytes: b"second".to_vec(),
            },
            Seed::AccountKey { index: 2 },
        ],
        false,
        false,
    )
    .unwrap();
    let metas = [
        ExtraAccountMeta::from_account_meta(&explicit1),
        ExtraAccountMeta::from_account_meta(&explicit2),
        pda1,
        pda2,
    ];
    let mut buffer = vec![0; ExtraAccountMetaList::size_of(metas.len()).unwrap()];
    ExtraAccountMetaList::init::<TestInstruction>(&mut buffer, &metas).unwrap();

    // every explicit account is known to the fetch, with empty data
    let known = [
        account_info(&explicit1.pubkey, false, true, &[]),
        account_info(&explicit2.pubkey, true, false, &[]),
    ];
    let mut instruction = new_with_bytes(program_id, &[], vec![]);
    ExtraAccountMetaList::add_to_instruction::<TestInstruction>(&mut instruction, &known, &buffer)
        .unwrap();

    let check_pda1 =
        find_program_address(&[b"first", explicit1.pubkey.0.as_ref()], &program_id).0;
    let check_pda2 = find_program_address(&[b"second", check_pda1.0.as_ref()], &program_id).0;
    assert_eq!(
        instruction.accounts,
        vec![
            explicit1,
            explicit2,
            AccountMeta::new(check_pda1, false),
            AccountMeta::new_readonly(check_pda2, false),
        ]
    );
    // a derived address differs from each of its seeds
    assert_ne!(check_pda1, explicit1.pubkey);
    assert_ne!(check_pda2, check_pda1);
}

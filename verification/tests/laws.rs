use tlv_state::error::{AccountResolutionError, ProgramError, TlvError, TokenError};
use tlv_state::extension::{
    adjust_len_for_multisig, BaseState, BaseStateWithExtensions, ExtensionType, Length,
    MetadataPointer, MintCloseAuthority, OptionalNonZeroPubkey, Pod, StateWithExtensions,
    StateWithExtensionsMut, TransferFeeAmount, VariableLenMintTest, BASE_ACCOUNT_LENGTH,
};
use tlv_state::pod::{copy_within, u16_from_le, u32_from_le, u64_from_le, write_u64_at};
use tlv_state::resolution::account::{
    de_escalate_account_meta, AccountMeta, AccountSnapshot, ExtraAccountMeta, Instruction,
};
use tlv_state::resolution::pending::{AccountResolution, FetchOutcome, Step};
use tlv_state::resolution::seeds::Seed;
use tlv_state::resolution::state::ExtraAccountMetaList;
use tlv_state::state::{Account, AccountState, Mint, Pubkey};
use tlv_state::tlv::{SplDiscriminate, TlvStateBorrowed};

const TEST_MINT: Mint = Mint {
    mint_authority: Some(Pubkey([1; 32])),
    supply: 42,
    decimals: 7,
    is_initialized: true,
    freeze_authority: None,
};

pub struct Marker;
impl SplDiscriminate for Marker {
    const SPL_DISCRIMINATOR: [u8; 8] = [9; 8];
}

fn key(byte: u8) -> Pubkey {
    Pubkey::new_from_array([byte; 32])
}

fn mint_buffer(extra: usize) -> Vec<u8> {
    let mut buffer = vec![0; BASE_ACCOUNT_LENGTH + 1 + extra];
    let mut state = StateWithExtensionsMut::<Mint>::unpack_uninitialized(&mut buffer).unwrap();
    state.base = TEST_MINT;
    state.pack_base();
    state.init_account_type().unwrap();
    buffer
}

#[test]
fn little_endian_values() {
    assert_eq!(u16_from_le(&[0x34, 0x12]), 0x1234);
    assert_eq!(u32_from_le(&[0x78, 0x56, 0x34, 0x12]), 0x1234_5678);
    assert_eq!(
        u64_from_le(&[8, 7, 6, 5, 4, 3, 2, 1]),
        0x0102_0304_0506_0708
    );
    let mut bytes = [0u8; 8];
    write_u64_at(&mut bytes, 0, 0x0102_0304_0506_0708);
    assert_eq!(bytes, [8, 7, 6, 5, 4, 3, 2, 1]);
}

#[test]
fn copy_within_overlapping() {
    let mut buffer = [0u8, 1, 2, 3, 4, 5, 6, 7];
    copy_within(&mut buffer, 1, 5, 3);
    assert_eq!(buffer, [0, 1, 2, 1, 2, 3, 4, 7]);
    let mut buffer = [0u8, 1, 2, 3, 4, 5, 6, 7];
    copy_within(&mut buffer, 3, 7, 1);
    assert_eq!(buffer, [0, 3, 4, 5, 6, 5, 6, 7]);
}

#[test]
fn length_field_bounds() {
    assert_eq!(Length::try_from_usize(65535), Ok(Length(65535)));
    assert_eq!(
        Length::try_from_usize(65536),
        Err(ProgramError::AccountDataTooSmall)
    );
    assert_eq!(Length(7).to_usize(), 7);
}

#[test]
fn account_len_formula() {
    assert_eq!(adjust_len_for_multisig(355), 357);
    assert_eq!(adjust_len_for_multisig(354), 354);
    // duplicates count once: 166 + (32 + 4) + (64 + 4)
    assert_eq!(
        ExtensionType::try_calculate_account_len::<Mint>(&[
            ExtensionType::MintCloseAuthority,
            ExtensionType::MetadataPointer,
            ExtensionType::MintCloseAuthority,
        ]),
        Ok(270)
    );
    assert_eq!(ExtensionType::try_calculate_account_len::<Account>(&[]), Ok(165));
    assert_eq!(ExtensionType::try_calculate_account_len::<Mint>(&[]), Ok(82));
}

#[test]
fn invalid_mint_extension_combinations() {
    assert_eq!(
        ExtensionType::check_for_invalid_mint_extension_combinations(&[
            ExtensionType::TransferFeeConfig,
            ExtensionType::ConfidentialTransferMint,
        ]),
        Err(TokenError::InvalidExtensionCombination)
    );
    assert_eq!(
        ExtensionType::check_for_invalid_mint_extension_combinations(&[
            ExtensionType::ConfidentialTransferFeeConfig,
            ExtensionType::TransferFeeConfig,
        ]),
        Err(TokenError::InvalidExtensionCombination)
    );
    assert_eq!(
        ExtensionType::check_for_invalid_mint_extension_combinations(&[
            ExtensionType::ConfidentialTransferFeeConfig,
            ExtensionType::TransferFeeConfig,
            ExtensionType::ConfidentialTransferMint,
        ]),
        Ok(())
    );
    assert_eq!(
        ExtensionType::check_for_invalid_mint_extension_combinations(&[
            ExtensionType::TransferFeeConfig,
        ]),
        Ok(())
    );
}

#[test]
fn base_records_round_trip() {
    let account = Account {
        mint: key(1),
        owner: key(2),
        amount: u64::MAX,
        delegate: None,
        state: AccountState::Initialized,
        is_native: None,
        delegated_amount: 9,
        close_authority: Some(key(3)),
    };
    let mut bytes = vec![0xAA; Account::LEN];
    account.pack_into_slice(&mut bytes);
    // an absent address leaves the bytes behind its tag as they were
    assert_eq!(&bytes[72..76], &[0, 0, 0, 0]);
    assert_eq!(&bytes[76..108], &[0xAA; 32]);
    assert_eq!(Account::unpack_from_slice(&bytes), Ok(account));
    let before = bytes.clone();
    Account::unpack_from_slice(&bytes).unwrap().pack_into_slice(&mut bytes);
    assert_eq!(bytes, before);
    // a state byte above 2 and an option tag above 1 are malformed
    bytes[108] = 3;
    assert_eq!(
        Account::unpack_from_slice(&bytes),
        Err(ProgramError::InvalidAccountData)
    );
    bytes[108] = 1;
    bytes[72] = 2;
    assert_eq!(
        Account::unpack_from_slice(&bytes),
        Err(ProgramError::InvalidAccountData)
    );
}

#[test]
fn unpack_then_pack_gives_the_buffer_back() {
    let mut buffer = mint_buffer(40);
    let mut state = StateWithExtensionsMut::<Mint>::unpack(&mut buffer).unwrap();
    let bytes = state.init_extension::<MintCloseAuthority>(false).unwrap();
    bytes.copy_from_slice(&[5; 32]);
    let before = buffer.clone();
    let mut state = StateWithExtensionsMut::<Mint>::unpack(&mut buffer).unwrap();
    state.pack_base();
    assert_eq!(buffer, before);
}

#[test]
fn no_cross_kind_writes() {
    let mut buffer = mint_buffer(40);
    let before = buffer.clone();
    let mut state = StateWithExtensionsMut::<Mint>::unpack(&mut buffer).unwrap();
    assert_eq!(
        state.init_extension::<TransferFeeAmount>(true),
        Err(ProgramError::InvalidAccountData)
    );
    assert_eq!(
        state.init_extension::<TransferFeeAmount>(false),
        Err(ProgramError::InvalidAccountData)
    );
    assert_eq!(buffer, before);
}

#[test]
fn lookup_is_idempotent() {
    let mut buffer = mint_buffer(40);
    let mut state = StateWithExtensionsMut::<Mint>::unpack(&mut buffer).unwrap();
    let bytes = state.init_extension::<MintCloseAuthority>(false).unwrap();
    bytes.copy_from_slice(&[5; 32]);
    let state = StateWithExtensions::<Mint>::unpack(&buffer).unwrap();
    let first = state.get_extension::<MintCloseAuthority>();
    let second = state.get_extension::<MintCloseAuthority>();
    assert_eq!(first, second);
    assert_eq!(
        first,
        Ok(MintCloseAuthority {
            close_authority: OptionalNonZeroPubkey(key(5))
        })
    );
    // a stored length that is not the length of the value
    let mut buffer = buffer.clone();
    buffer[BASE_ACCOUNT_LENGTH + 3] = 31;
    let state = StateWithExtensions::<Mint>::unpack(&buffer).unwrap();
    assert_eq!(
        state.get_extension::<MintCloseAuthority>(),
        Err(ProgramError::InvalidArgument)
    );
}

#[test]
fn realloc_preserves_other_entries() {
    // entries A (close authority), B (variable), C (metadata pointer)
    for new_len in [2usize, 5, 9] {
        let mut buffer = mint_buffer(36 + 9 + 68 + 4);
        let mut state = StateWithExtensionsMut::<Mint>::unpack(&mut buffer).unwrap();
        let a = state.init_extension::<MintCloseAuthority>(false).unwrap();
        a.copy_from_slice(&[0xA1; 32]);
        let b = state.allocate::<VariableLenMintTest>(5, false).unwrap();
        b.copy_from_slice(&[1, 2, 3, 4, 5]);
        let c = state.init_extension::<MetadataPointer>(false).unwrap();
        c.copy_from_slice(&[0xC3; 64]);

        let value = state.realloc::<VariableLenMintTest>(new_len).unwrap().to_vec();
        let mut expected = vec![1u8, 2, 3, 4, 5];
        expected.resize(new_len, 0);
        assert_eq!(value, expected);
        assert_eq!(
            state.get_extension_bytes::<MintCloseAuthority>().unwrap(),
            [0xA1; 32]
        );
        assert_eq!(
            state.get_extension_bytes::<MetadataPointer>().unwrap(),
            [0xC3; 64]
        );
        assert_eq!(
            state.get_extension_types().unwrap(),
            vec![
                ExtensionType::MintCloseAuthority,
                ExtensionType::VariableLenMintTest,
                ExtensionType::MetadataPointer
            ]
        );
    }
}

#[test]
fn end_to_end_init_extension() {
    let mut buffer = mint_buffer(40);
    let mut state = StateWithExtensionsMut::<Mint>::unpack(&mut buffer).unwrap();
    assert_eq!(
        state.get_extension::<MintCloseAuthority>(),
        Err(ProgramError::Token(TokenError::ExtensionNotFound))
    );
    assert!(state.init_extension::<MintCloseAuthority>(false).is_ok());
    assert_eq!(
        state.init_extension::<MintCloseAuthority>(false),
        Err(ProgramError::Token(TokenError::ExtensionAlreadyInitialized))
    );
    // a buffer that ends with the base record has no room for any entry
    let mut buffer = vec![0; Mint::LEN];
    let mut state = StateWithExtensionsMut::<Mint>::unpack_uninitialized(&mut buffer).unwrap();
    assert_eq!(
        state.get_extension::<MintCloseAuthority>(),
        Err(ProgramError::InvalidAccountData)
    );
    assert_eq!(
        state.init_extension::<MintCloseAuthority>(false),
        Err(ProgramError::InvalidAccountData)
    );
}

#[test]
fn init_account_extensions_from_type() {
    let size = ExtensionType::try_calculate_account_len::<Account>(&[
        ExtensionType::TransferFeeAmount,
        ExtensionType::TransferHookAccount,
    ])
    .unwrap();
    let mut buffer = vec![0; size];
    let mut state = StateWithExtensionsMut::<Account>::unpack_uninitialized(&mut buffer).unwrap();
    state
        .init_account_extension_from_type(ExtensionType::TransferFeeAmount)
        .unwrap();
    state
        .init_account_extension_from_type(ExtensionType::MintCloseAuthority)
        .unwrap();
    state
        .init_account_extension_from_type(ExtensionType::ConfidentialTransferAccount)
        .unwrap();
    state
        .init_account_extension_from_type(ExtensionType::TransferHookAccount)
        .unwrap();
    assert_eq!(
        state.get_extension_types().unwrap(),
        vec![
            ExtensionType::TransferFeeAmount,
            ExtensionType::TransferHookAccount
        ]
    );
    assert_eq!(
        state.init_account_extension_from_type(ExtensionType::NonTransferableAccount),
        Err(ProgramError::InvalidAccountData)
    );
}

#[test]
fn de_escalation_never_escalates() {
    let known = [
        AccountMeta::new_readonly(key(1), false),
        AccountMeta::new(key(2), true),
        AccountMeta::new_readonly(key(2), false),
    ];
    // named already, nowhere as signer or writable
    let mut meta = AccountMeta::new(key(1), true);
    de_escalate_account_meta(&mut meta, &known);
    assert_eq!(meta, AccountMeta::new_readonly(key(1), false));
    // named twice, once with both privileges
    let mut meta = AccountMeta::new(key(2), true);
    de_escalate_account_meta(&mut meta, &known);
    assert_eq!(meta, AccountMeta::new(key(2), true));
    // not named yet: kept as the record asks
    let mut meta = AccountMeta::new(key(3), true);
    de_escalate_account_meta(&mut meta, &known);
    assert_eq!(meta, AccountMeta::new(key(3), true));
    // never more than asked for
    let mut meta = AccountMeta::new_readonly(key(2), false);
    de_escalate_account_meta(&mut meta, &known);
    assert_eq!(meta, AccountMeta::new_readonly(key(2), false));
}

#[test]
fn de_escalation_in_resolution() {
    let metas = [ExtraAccountMeta::new_with_pubkey(&key(1), true, true).unwrap()];
    let mut buffer = vec![0; ExtraAccountMetaList::size_of(1).unwrap()];
    ExtraAccountMetaList::init::<Marker>(&mut buffer, &metas).unwrap();
    let mut instruction = Instruction {
        program_id: key(7),
        accounts: vec![AccountMeta::new_readonly(key(1), false)],
        data: vec![],
    };
    ExtraAccountMetaList::add_to_instruction::<Marker>(&mut instruction, &[], &buffer).unwrap();
    assert_eq!(
        instruction.accounts,
        vec![
            AccountMeta::new_readonly(key(1), false),
            AccountMeta::new_readonly(key(1), false)
        ]
    );
}

#[test]
fn seed_configs() {
    let seeds = [
        Seed::Literal {
            bytes: vec![1, 2, 3],
        },
        Seed::InstructionData {
            index: 4,
            length: 5,
        },
        Seed::AccountKey { index: 6 },
        Seed::AccountData {
            account_index: 7,
            data_index: 8,
            length: 9,
        },
    ];
    let config = Seed::pack_into_address_config(&seeds).unwrap();
    let mut expected = [0u8; 32];
    expected[..14].copy_from_slice(&[1, 3, 1, 2, 3, 2, 4, 5, 3, 6, 4, 7, 8, 9]);
    assert_eq!(config, expected);
    assert_eq!(Seed::unpack_address_config(&config).unwrap(), seeds.to_vec());

    assert_eq!(
        Seed::pack_into_address_config(&[Seed::Literal {
            bytes: vec![0; 31]
        }]),
        Err(ProgramError::from(
            AccountResolutionError::SeedConfigsTooLarge
        ))
    );
    assert_eq!(
        Seed::pack_into_address_config(&[Seed::Uninitialized]),
        Err(ProgramError::from(AccountResolutionError::InvalidSeedConfig))
    );
    let mut config = [0u8; 32];
    config[0] = 5;
    assert_eq!(
        Seed::unpack_address_config(&config),
        Err(ProgramError::from(AccountResolutionError::InvalidSeedConfig))
    );
    let mut config = [0u8; 32];
    config[30] = 2;
    config[..30].copy_from_slice(&[3, 0].repeat(15));
    assert_eq!(
        Seed::unpack_address_config(&config),
        Err(ProgramError::from(
            AccountResolutionError::InvalidBytesForSeed
        ))
    );
}

#[test]
fn forward_references_are_rejected() {
    // the derived address names the account behind it
    let pda = ExtraAccountMeta::new_with_seeds(&[Seed::AccountKey { index: 1 }], false, true)
        .unwrap();
    let plain = ExtraAccountMeta::new_with_pubkey(&key(1), false, false).unwrap();
    let mut buffer = vec![0; ExtraAccountMetaList::size_of(2).unwrap()];
    ExtraAccountMetaList::init::<Marker>(&mut buffer, &[pda, plain]).unwrap();
    let mut instruction = Instruction {
        program_id: key(7),
        accounts: vec![],
        data: vec![],
    };
    assert_eq!(
        ExtraAccountMetaList::add_to_instruction::<Marker>(&mut instruction, &[], &buffer),
        Err(ProgramError::from(AccountResolutionError::AccountNotFound))
    );
    assert_eq!(instruction.accounts, vec![]);

    // in the other order the reference points back, and resolving twice
    // gives the same accounts
    let pda = ExtraAccountMeta::new_with_seeds(&[Seed::AccountKey { index: 0 }], false, true)
        .unwrap();
    let mut buffer = vec![0; ExtraAccountMetaList::size_of(2).unwrap()];
    ExtraAccountMetaList::init::<Marker>(&mut buffer, &[plain, pda]).unwrap();
    let mut first = instruction.clone();
    ExtraAccountMetaList::add_to_instruction::<Marker>(&mut first, &[], &buffer).unwrap();
    let mut second = instruction.clone();
    ExtraAccountMetaList::add_to_instruction::<Marker>(&mut second, &[], &buffer).unwrap();
    assert_eq!(first, second);
    assert_eq!(first.accounts.len(), 2);
    assert_ne!(first.accounts[1].pubkey, key(1));
}

#[test]
fn resolution_errors() {
    let program_id = key(7);
    let no_data: Vec<Option<Vec<u8>>> = vec![None];
    let accounts = [AccountMeta::new(key(1), false)];
    let resolve = |seeds: &[Seed]| {
        ExtraAccountMeta::new_with_seeds(seeds, false, false)
            .unwrap()
            .resolve(&no_data, &accounts, &[1, 2, 3], &program_id)
    };
    assert_eq!(
        resolve(&[Seed::InstructionData {
            index: 2,
            length: 2
        }]),
        Err(ProgramError::from(
            AccountResolutionError::InstructionDataTooSmall
        ))
    );
    assert_eq!(
        resolve(&[Seed::AccountData {
            account_index: 0,
            data_index: 0,
            length: 1
        }]),
        Err(ProgramError::from(
            AccountResolutionError::AccountDataNotFound
        ))
    );
    let some_data: Vec<Option<Vec<u8>>> = vec![Some(vec![1, 2])];
    assert_eq!(
        ExtraAccountMeta::new_with_seeds(
            &[Seed::AccountData {
                account_index: 0,
                data_index: 1,
                length: 2
            }],
            false,
            false
        )
        .unwrap()
        .resolve(&some_data, &accounts, &[], &program_id),
        Err(ProgramError::from(
            AccountResolutionError::AccountDataTooSmall
        ))
    );
    // a seed of more than thirty-two bytes derives no address
    assert_eq!(
        ExtraAccountMeta::new_with_seeds(
            &[Seed::InstructionData {
                index: 0,
                length: 33
            }],
            false,
            false
        )
        .unwrap()
        .resolve(&no_data, &accounts, &[0; 40], &program_id),
        Err(ProgramError::from(AccountResolutionError::InvalidSeedConfig))
    );
    // what the host derived decides: an address is taken with the
    // privileges of the record, no address is an error
    let record = ExtraAccountMeta::new_with_seeds(&[Seed::AccountKey { index: 0 }], true, false)
        .unwrap();
    assert_eq!(
        record.derived_account(Some(key(9))),
        Ok(AccountMeta::new_readonly(key(9), true))
    );
    assert_eq!(
        record.derived_account(None),
        Err(ProgramError::from(AccountResolutionError::InvalidSeedConfig))
    );
    let mut unknown = ExtraAccountMeta::new_with_pubkey(&key(1), false, false).unwrap();
    unknown.discriminator = 2;
    assert_eq!(
        unknown.resolve(&no_data, &accounts, &[], &program_id),
        Err(ProgramError::InvalidAccountData)
    );
    assert_eq!(
        unknown.to_account_meta(),
        Err(ProgramError::from(
            AccountResolutionError::AccountTypeNotAccountMeta
        ))
    );
}

#[test]
fn stored_list_errors() {
    let metas = [ExtraAccountMeta::new_with_pubkey(&key(1), false, true).unwrap()];
    let size = ExtraAccountMetaList::size_of(1).unwrap();
    assert_eq!(size, 12 + 4 + 35);
    let mut buffer = vec![0; size];
    ExtraAccountMetaList::init::<Marker>(&mut buffer, &metas).unwrap();
    let mut expected = vec![9u8; 8];
    expected.extend_from_slice(&39u32.to_le_bytes());
    expected.extend_from_slice(&1u32.to_le_bytes());
    expected.push(0);
    expected.extend_from_slice(&[1; 32]);
    expected.extend_from_slice(&[0, 1]);
    assert_eq!(buffer, expected);

    let before = buffer.clone();
    assert_eq!(
        ExtraAccountMetaList::init::<Marker>(&mut buffer, &metas),
        Err(ProgramError::from(TlvError::TypeAlreadyExists))
    );
    assert_eq!(buffer, before);

    let state = TlvStateBorrowed::unpack(&buffer).unwrap();
    assert_eq!(
        ExtraAccountMetaList::unpack_with_tlv_state::<Marker>(&state),
        Ok(metas.to_vec())
    );

    let mut empty = vec![0; size];
    assert_eq!(
        ExtraAccountMetaList::load::<Marker>(&empty),
        Err(ProgramError::from(TlvError::TypeNotFound))
    );
    let mut short = vec![0; size - 1];
    assert_eq!(
        ExtraAccountMetaList::init::<Marker>(&mut short, &metas),
        Err(ProgramError::InvalidAccountData)
    );
    assert_eq!(short, vec![0; size - 1]);
    // a value that leaves the buffer
    empty[..8].copy_from_slice(&[9; 8]);
    empty[8] = 200;
    assert_eq!(
        ExtraAccountMetaList::load::<Marker>(&empty),
        Err(ProgramError::AccountDataTooSmall)
    );
    // more records announced than the entry holds
    let mut buffer = before.clone();
    buffer[12] = 2;
    assert_eq!(
        ExtraAccountMetaList::load::<Marker>(&buffer),
        Err(ProgramError::from(AccountResolutionError::BufferTooSmall))
    );
    // fewer accounts than records
    assert_eq!(
        ExtraAccountMetaList::check_account_infos::<Marker>(&[], &[], &key(7), &before),
        Err(ProgramError::from(AccountResolutionError::IncorrectAccount))
    );
}

#[test]
fn stepwise_resolution() {
    let metas = [
        ExtraAccountMeta::new_with_pubkey(&key(2), true, true).unwrap(),
        ExtraAccountMeta::new_with_seeds(
            &[Seed::AccountData {
                account_index: 0,
                data_index: 0,
                length: 2,
            }],
            false,
            true,
        )
        .unwrap(),
    ];
    let mut buffer = vec![0; ExtraAccountMetaList::size_of(2).unwrap()];
    ExtraAccountMetaList::init::<Marker>(&mut buffer, &metas).unwrap();
    let instruction = Instruction {
        program_id: key(7),
        accounts: vec![AccountMeta::new(key(1), false)],
        data: vec![],
    };
    let table = [AccountSnapshot {
        key: key(1),
        is_signer: false,
        is_writable: true,
        data: vec![4, 5, 6],
    }];

    let mut resolution = AccountResolution::start::<Marker>(&instruction, &buffer).unwrap();
    assert_eq!(resolution.advance(), Ok(Step::Fetch(key(1))));
    resolution.supply(FetchOutcome::Found(vec![4, 5, 6])).unwrap();
    assert_eq!(resolution.advance(), Ok(Step::Fetch(key(2))));
    resolution.supply(FetchOutcome::Missing).unwrap();
    let step = resolution.advance().unwrap();
    assert!(matches!(step, Step::Fetch(_)));
    resolution.supply(FetchOutcome::Missing).unwrap();
    assert_eq!(resolution.advance(), Ok(Step::Done));
    let mut stepped = instruction.clone();
    resolution.finish(&mut stepped);

    let mut direct = instruction.clone();
    ExtraAccountMetaList::add_to_instruction::<Marker>(&mut direct, &table, &buffer).unwrap();
    assert_eq!(stepped, direct);

    // a fetch that fails ends the resolution
    let mut resolution = AccountResolution::start::<Marker>(&instruction, &buffer).unwrap();
    assert_eq!(resolution.advance(), Ok(Step::Fetch(key(1))));
    assert_eq!(
        resolution.supply(FetchOutcome::Failed),
        Err(ProgramError::from(
            AccountResolutionError::AccountFetchFailed
        ))
    );
}

#[test]
fn alloc_then_lookup() {
    let mut buffer = mint_buffer(36 + 14);
    let mut state = StateWithExtensionsMut::<Mint>::unpack(&mut buffer).unwrap();
    let a = state.init_extension::<MintCloseAuthority>(false).unwrap();
    a.copy_from_slice(&[0xA1; 32]);
    let b = state.allocate::<VariableLenMintTest>(10, false).unwrap();
    b.copy_from_slice(&[7; 10]);
    assert_eq!(
        state.get_extension_bytes::<VariableLenMintTest>().unwrap(),
        [7; 10]
    );
    assert_eq!(
        state.get_extension_bytes::<MintCloseAuthority>().unwrap(),
        [0xA1; 32]
    );
    // written over with its own length, the other entry stays
    let b = state.allocate::<VariableLenMintTest>(10, true).unwrap();
    b.copy_from_slice(&[8; 10]);
    assert_eq!(
        state.get_extension_bytes::<VariableLenMintTest>().unwrap(),
        [8; 10]
    );
    assert_eq!(
        state.get_extension_bytes::<MintCloseAuthority>().unwrap(),
        [0xA1; 32]
    );
    assert_eq!(
        OptionalNonZeroPubkey(key(0)).to_option(),
        None
    );
    assert_eq!(
        OptionalNonZeroPubkey(key(3)).to_option(),
        Some(key(3))
    );
    assert_eq!(
        OptionalNonZeroPubkey::try_from_option(Some(key(0))),
        Err(ProgramError::InvalidArgument)
    );
}

#[test]
fn list_size_formula() {
    assert_eq!(ExtraAccountMetaList::size_of(0), Ok(16));
    assert_eq!(ExtraAccountMetaList::size_of(3), Ok(12 + 4 + 3 * 35));
    assert_eq!(
        ExtraAccountMetaList::size_of(usize::MAX),
        Err(ProgramError::from(
            AccountResolutionError::CalculationFailure
        ))
    );
    // the slice still fits the machine's range, the entry around it does not
    assert_eq!(
        ExtraAccountMetaList::size_of(usize::MAX / 35),
        Ok(usize::MAX)
    );
}

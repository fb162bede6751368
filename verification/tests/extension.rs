use tlv_state::error::{ProgramError, TokenError};
use tlv_state::extension::{
    add_type_and_length_to_len, get_first_extension_type, get_tlv_data_info, set_account_type,
    AccountPaddingTest, AccountType, BaseState, BaseStateWithExtensions, ExtensionType,
    ImmutableOwner, MetadataPointer, MintCloseAuthority, MintPaddingTest, OptionalNonZeroPubkey,
    Pod, StateWithExtensions, StateWithExtensionsMut, StateWithExtensionsOwned, TlvDataInfo,
    TransferFee, TransferFeeAmount, TransferFeeConfig, VariableLenMintTest,
    BASE_ACCOUNT_AND_TYPE_LENGTH, BASE_ACCOUNT_LENGTH, MULTISIG_LEN,
};
use tlv_state::state::{Account, AccountState, Mint, Pubkey};

const TEST_MINT: Mint = Mint {
    mint_authority: Some(Pubkey([1; 32])),
    supply: 42,
    decimals: 7,
    is_initialized: true,
    freeze_authority: Some(Pubkey([2; 32])),
};
const TEST_MINT_SLICE: &[u8] = &[
    1, 0, 0, 0, 1, 1, 1, 1, 1, 1, 1, 1, 1, 1, 1, 1, 1, 1, 1, 1, 1, 1, 1, 1, 1, 1, 1, 1, 1, 1, 1, 1,
    1, 1, 1, 1, 42, 0, 0, 0, 0, 0, 0, 0, 7, 1, 1, 0, 0, 0, 2, 2, 2, 2, 2, 2, 2, 2, 2, 2, 2, 2, 2,
    2, 2, 2, 2, 2, 2, 2, 2, 2, 2, 2, 2, 2, 2, 2, 2, 2, 2, 2,
];

const TEST_ACCOUNT: Account = Account {
    mint: Pubkey([1; 32]),
    owner: Pubkey([2; 32]),
    amount: 3,
    delegate: Some(Pubkey([4; 32])),
    state: AccountState::Frozen,
    is_native: Some(5),
    delegated_amount: 6,
    close_authority: Some(Pubkey([7; 32])),
};
const TEST_ACCOUNT_SLICE: &[u8] = &[
    1, 1, 1, 1, 1, 1, 1, 1, 1, 1, 1, 1, 1, 1, 1, 1, 1, 1, 1, 1, 1, 1, 1, 1, 1, 1, 1, 1, 1, 1, 1, 1,
    2, 2, 2, 2, 2, 2, 2, 2, 2, 2, 2, 2, 2, 2, 2, 2, 2, 2, 2, 2, 2, 2, 2, 2, 2, 2, 2, 2, 2, 2, 2, 2,
    3, 0, 0, 0, 0, 0, 0, 0, 1, 0, 0, 0, 4, 4, 4, 4, 4, 4, 4, 4, 4, 4, 4, 4, 4, 4, 4, 4, 4, 4, 4, 4,
    4, 4, 4, 4, 4, 4, 4, 4, 4, 4, 4, 4, 2, 1, 0, 0, 0, 5, 0, 0, 0, 0, 0, 0, 0, 6, 0, 0, 0, 0, 0, 0,
    0, 1, 0, 0, 0, 7, 7, 7, 7, 7, 7, 7, 7, 7, 7, 7, 7, 7, 7, 7, 7, 7, 7, 7, 7, 7, 7, 7, 7, 7, 7, 7,
    7, 7, 7, 7, 7,
];

const MINT_WITH_EXTENSION: &[u8] = &[
    1, 0, 0, 0, 1, 1, 1, 1, 1, 1, 1, 1, 1, 1, 1, 1, 1, 1, 1, 1, 1, 1, 1, 1, 1, 1, 1, 1, 1, 1, 1, 1,
    1, 1, 1, 1, 42, 0, 0, 0, 0, 0, 0, 0, 7, 1, 1, 0, 0, 0, 2, 2, 2, 2, 2, 2, 2, 2, 2, 2, 2, 2, 2,
    2, 2, 2, 2, 2, 2, 2, 2, 2, 2, 2, 2, 2, 2, 2, 2, 2, 2, 2, // base mint
    0, 0, 0, 0, 0, 0, 0, 0, 0, 0, 0, 0, 0, 0, 0, 0, 0, 0, 0, 0, 0, 0, 0, 0, 0, 0, 0, 0, 0, 0, 0, 0,
    0, 0, 0, 0, 0, 0, 0, 0, 0, 0, 0, 0, 0, 0, 0, 0, 0, 0, 0, 0, 0, 0, 0, 0, 0, 0, 0, 0, 0, 0, 0, 0,
    0, 0, 0, 0, 0, 0, 0, 0, 0, 0, 0, 0, 0, 0, 0, 0, 0, 0, 0, // padding
    1, // account type
    3, 0, // extension type
    32, 0, // length
    1, 1, 1, 1, 1, 1, 1, 1, 1, 1, 1, 1, 1, 1, 1, 1, 1, 1, 1, 1, 1, 1, 1, 1, 1, 1, 1, 1, 1, 1, 1, 1, // data
];

fn some_key(byte: u8) -> OptionalNonZeroPubkey {
    OptionalNonZeroPubkey::try_from_option(Some(Pubkey::new_from_array([byte; 32]))).unwrap()
}

fn no_key() -> OptionalNonZeroPubkey {
    OptionalNonZeroPubkey::try_from_option(None).unwrap()
}

fn test_transfer_fee_config() -> TransferFeeConfig {
    TransferFeeConfig {
        transfer_fee_config_authority: some_key(10),
        withdraw_withheld_authority: some_key(11),
        withheld_amount: u64::MAX,
        older_transfer_fee: TransferFee {
            epoch: 1,
            maximum_fee: 10,
            transfer_fee_basis_points: 100,
        },
        newer_transfer_fee: TransferFee {
            epoch: 100,
            maximum_fee: 5_000,
            transfer_fee_basis_points: 1,
        },
    }
}

fn pod_bytes_of<V: Pod>(value: &V) -> Vec<u8> {
    let mut bytes = vec![0; V::LEN];
    value.pack_into_slice(&mut bytes);
    bytes
}

#[test]
fn unpack_opaque_buffer() {
    let state = StateWithExtensions::<Mint>::unpack(MINT_WITH_EXTENSION).unwrap();
    assert_eq!(state.base, TEST_MINT);
    let extension = state.get_extension::<MintCloseAuthority>().unwrap();
    let close_authority = some_key(1);
    assert_eq!(extension.close_authority, close_authority);
    assert_eq!(
        state.get_extension::<TransferFeeConfig>(),
        Err(ProgramError::InvalidAccountData)
    );
    assert_eq!(
        StateWithExtensions::<Account>::unpack(MINT_WITH_EXTENSION),
        Err(ProgramError::InvalidAccountData)
    );

    let state = StateWithExtensions::<Mint>::unpack(TEST_MINT_SLICE).unwrap();
    assert_eq!(state.base, TEST_MINT);

    let mut test_mint = TEST_MINT_SLICE.to_vec();
    let state = StateWithExtensionsMut::<Mint>::unpack(&mut test_mint).unwrap();
    assert_eq!(state.base, TEST_MINT);

    let owned = StateWithExtensionsOwned::<Mint>::unpack(MINT_WITH_EXTENSION.to_vec()).unwrap();
    assert_eq!(owned.base, TEST_MINT);
    assert_eq!(owned.tlv_data, MINT_WITH_EXTENSION[BASE_ACCOUNT_AND_TYPE_LENGTH..].to_vec());
}

#[test]
fn fail_unpack_opaque_buffer() {
    // input buffer too small
    let mut buffer = vec![0, 3];
    assert_eq!(
        StateWithExtensions::<Mint>::unpack(&buffer),
        Err(ProgramError::InvalidAccountData)
    );
    assert_eq!(
        StateWithExtensionsMut::<Mint>::unpack(&mut buffer),
        Err(ProgramError::InvalidAccountData)
    );
    assert_eq!(
        StateWithExtensionsMut::<Mint>::unpack_uninitialized(&mut buffer),
        Err(ProgramError::InvalidAccountData)
    );

    // tweak the account type
    let mut buffer = MINT_WITH_EXTENSION.to_vec();
    buffer[BASE_ACCOUNT_LENGTH] = 3;
    assert_eq!(
        StateWithExtensions::<Mint>::unpack(&buffer),
        Err(ProgramError::InvalidAccountData)
    );

    // clear the mint initialized byte
    let mut buffer = MINT_WITH_EXTENSION.to_vec();
    buffer[45] = 0;
    assert_eq!(
        StateWithExtensions::<Mint>::unpack(&buffer),
        Err(ProgramError::UninitializedAccount)
    );

    // tweak the padding
    let mut buffer = MINT_WITH_EXTENSION.to_vec();
    buffer[Mint::LEN] = 100;
    assert_eq!(
        StateWithExtensions::<Mint>::unpack(&buffer),
        Err(ProgramError::InvalidAccountData)
    );

    // tweak the extension type
    let mut buffer = MINT_WITH_EXTENSION.to_vec();
    buffer[BASE_ACCOUNT_LENGTH + 1] = 2;
    let state = StateWithExtensions::<Mint>::unpack(&buffer).unwrap();
    assert_eq!(
        state.get_extension::<TransferFeeConfig>(),
        Err(ProgramError::Token(TokenError::ExtensionTypeMismatch))
    );

    // tweak the length, too big
    let mut buffer = MINT_WITH_EXTENSION.to_vec();
    buffer[BASE_ACCOUNT_LENGTH + 3] = 100;
    let state = StateWithExtensions::<Mint>::unpack(&buffer).unwrap();
    assert_eq!(
        state.get_extension::<TransferFeeConfig>(),
        Err(ProgramError::InvalidAccountData)
    );

    // tweak the length, too small
    let mut buffer = MINT_WITH_EXTENSION.to_vec();
    buffer[BASE_ACCOUNT_LENGTH + 3] = 10;
    let state = StateWithExtensions::<Mint>::unpack(&buffer).unwrap();
    assert_eq!(
        state.get_extension::<TransferFeeConfig>(),
        Err(ProgramError::InvalidAccountData)
    );

    // data buffer is too small
    let buffer = &MINT_WITH_EXTENSION[..MINT_WITH_EXTENSION.len() - 1];
    let state = StateWithExtensions::<Mint>::unpack(buffer).unwrap();
    assert_eq!(
        state.get_extension::<MintCloseAuthority>(),
        Err(ProgramError::InvalidAccountData)
    );
}

#[test]
fn get_extension_types_with_opaque_buffer() {
    // incorrect due to the length
    assert_eq!(
        get_tlv_data_info(&[1, 0, 1, 1]).unwrap_err(),
        ProgramError::InvalidAccountData,
    );
    // incorrect due to the huge enum number
    assert_eq!(
        get_tlv_data_info(&[0, 1, 0, 0]).unwrap_err(),
        ProgramError::InvalidAccountData,
    );
    // correct due to the good enum number and zero length
    assert_eq!(
        get_tlv_data_info(&[1, 0, 0, 0]).unwrap(),
        TlvDataInfo {
            extension_types: vec![ExtensionType::from_code(1).unwrap()],
            used_len: add_type_and_length_to_len(0),
        }
    );
    // correct since it's just uninitialized data at the end
    assert_eq!(
        get_tlv_data_info(&[0, 0]).unwrap(),
        TlvDataInfo {
            extension_types: vec![],
            used_len: 0
        }
    );
}

#[test]
fn mint_with_extension_pack_unpack() {
    let mint_size = ExtensionType::try_calculate_account_len::<Mint>(&[
        ExtensionType::MintCloseAuthority,
        ExtensionType::TransferFeeConfig,
    ])
    .unwrap();
    let mut buffer = vec![0; mint_size];

    // fail unpack
    assert_eq!(
        StateWithExtensionsMut::<Mint>::unpack(&mut buffer),
        Err(ProgramError::UninitializedAccount),
    );

    let mut state = StateWithExtensionsMut::<Mint>::unpack_uninitialized(&mut buffer).unwrap();
    // fail init account extension
    assert_eq!(
        state.init_extension::<TransferFeeAmount>(true),
        Err(ProgramError::InvalidAccountData),
    );

    // success write extension
    let close_authority = some_key(1);
    let extension = state.init_extension::<MintCloseAuthority>(true).unwrap();
    MintCloseAuthority { close_authority }.pack_into_slice(extension);
    assert_eq!(
        &state.get_extension_types().unwrap(),
        &[ExtensionType::MintCloseAuthority]
    );

    // fail init extension when already initialized
    assert_eq!(
        state.init_extension::<MintCloseAuthority>(false),
        Err(ProgramError::Token(TokenError::ExtensionAlreadyInitialized))
    );

    // fail unpack as account, a mint extension was written
    assert_eq!(
        StateWithExtensionsMut::<Account>::unpack_uninitialized(&mut buffer),
        Err(ProgramError::Token(TokenError::ExtensionBaseMismatch))
    );

    // fail unpack again, still no base data
    assert_eq!(
        StateWithExtensionsMut::<Mint>::unpack(&mut buffer.clone()),
        Err(ProgramError::UninitializedAccount),
    );

    // write base mint
    let mut state = StateWithExtensionsMut::<Mint>::unpack_uninitialized(&mut buffer).unwrap();
    state.base = TEST_MINT;
    state.pack_base();
    state.init_account_type().unwrap();

    // check raw buffer
    let mut expect = TEST_MINT_SLICE.to_vec();
    expect.extend_from_slice(&[0; BASE_ACCOUNT_LENGTH - Mint::LEN]); // padding
    expect.push(AccountType::Mint.code());
    expect.extend_from_slice(&ExtensionType::MintCloseAuthority.code().to_le_bytes());
    expect.extend_from_slice(&(MintCloseAuthority::LEN as u16).to_le_bytes());
    expect.extend_from_slice(&[1; 32]); // data
    expect.extend_from_slice(&[0; 2]);
    expect.extend_from_slice(&[0; 2]);
    expect.extend_from_slice(&[0; TransferFeeConfig::LEN]);
    assert_eq!(expect, buffer);

    // unpack uninitialized will now fail because the Mint is now initialized
    assert_eq!(
        StateWithExtensionsMut::<Mint>::unpack_uninitialized(&mut buffer.clone()),
        Err(ProgramError::from(TokenError::AlreadyInUse)),
    );

    // check unpacking
    let mut state = StateWithExtensionsMut::<Mint>::unpack(&mut buffer).unwrap();

    // update base
    state.base = TEST_MINT;
    state.base.supply += 100;
    state.pack_base();

    // check unpacking
    let unpacked_extension = state.get_extension_mut::<MintCloseAuthority>().unwrap();
    assert_eq!(
        MintCloseAuthority::unpack(unpacked_extension),
        MintCloseAuthority { close_authority }
    );

    // update extension
    let close_authority = no_key();
    MintCloseAuthority { close_authority }.pack_into_slice(unpacked_extension);

    // check updates are propagated
    let base = state.base;
    let state = StateWithExtensions::<Mint>::unpack(&buffer).unwrap();
    assert_eq!(state.base, base);
    let unpacked_extension = state.get_extension::<MintCloseAuthority>().unwrap();
    assert_eq!(unpacked_extension, MintCloseAuthority { close_authority });

    // check raw buffer
    let mut expect = vec![0; Mint::LEN];
    Mint::pack_into_slice(&base, &mut expect);
    expect.extend_from_slice(&[0; BASE_ACCOUNT_LENGTH - Mint::LEN]); // padding
    expect.push(AccountType::Mint.code());
    expect.extend_from_slice(&ExtensionType::MintCloseAuthority.code().to_le_bytes());
    expect.extend_from_slice(&(MintCloseAuthority::LEN as u16).to_le_bytes());
    expect.extend_from_slice(&[0; 32]);
    expect.extend_from_slice(&[0; 2]);
    expect.extend_from_slice(&[0; 2]);
    expect.extend_from_slice(&[0; TransferFeeConfig::LEN]);
    assert_eq!(expect, buffer);

    // fail unpack as an account
    assert_eq!(
        StateWithExtensions::<Account>::unpack(&buffer),
        Err(ProgramError::InvalidAccountData),
    );

    let mut state = StateWithExtensionsMut::<Mint>::unpack(&mut buffer).unwrap();
    // init one more extension
    let mint_transfer_fee = test_transfer_fee_config();
    let new_extension = state.init_extension::<TransferFeeConfig>(true).unwrap();
    mint_transfer_fee.pack_into_slice(new_extension);

    assert_eq!(
        &state.get_extension_types().unwrap(),
        &[
            ExtensionType::MintCloseAuthority,
            ExtensionType::TransferFeeConfig
        ]
    );

    // check raw buffer
    let mut expect = vec![0; Mint::LEN];
    Mint::pack_into_slice(&base, &mut expect);
    expect.extend_from_slice(&[0; BASE_ACCOUNT_LENGTH - Mint::LEN]); // padding
    expect.push(AccountType::Mint.code());
    expect.extend_from_slice(&ExtensionType::MintCloseAuthority.code().to_le_bytes());
    expect.extend_from_slice(&(MintCloseAuthority::LEN as u16).to_le_bytes());
    expect.extend_from_slice(&[0; 32]); // data
    expect.extend_from_slice(&ExtensionType::TransferFeeConfig.code().to_le_bytes());
    expect.extend_from_slice(&(TransferFeeConfig::LEN as u16).to_le_bytes());
    expect.extend_from_slice(&pod_bytes_of(&mint_transfer_fee));
    assert_eq!(expect, buffer);

    // fail to init one more extension that does not fit
    let mut state = StateWithExtensionsMut::<Mint>::unpack(&mut buffer).unwrap();
    assert_eq!(
        state.init_extension::<MintPaddingTest>(true),
        Err(ProgramError::InvalidAccountData),
    );
}

#[test]
fn mint_extension_any_order() {
    let mint_size = ExtensionType::try_calculate_account_len::<Mint>(&[
        ExtensionType::MintCloseAuthority,
        ExtensionType::TransferFeeConfig,
    ])
    .unwrap();
    let mut buffer = vec![0; mint_size];

    let mut state = StateWithExtensionsMut::<Mint>::unpack_uninitialized(&mut buffer).unwrap();
    // write extensions
    let close_authority = some_key(1);
    let extension = state.init_extension::<MintCloseAuthority>(true).unwrap();
    MintCloseAuthority { close_authority }.pack_into_slice(extension);

    let mint_transfer_fee = test_transfer_fee_config();
    let extension = state.init_extension::<TransferFeeConfig>(true).unwrap();
    mint_transfer_fee.pack_into_slice(extension);

    assert_eq!(
        &state.get_extension_types().unwrap(),
        &[
            ExtensionType::MintCloseAuthority,
            ExtensionType::TransferFeeConfig
        ]
    );

    // write base mint
    let mut state = StateWithExtensionsMut::<Mint>::unpack_uninitialized(&mut buffer).unwrap();
    state.base = TEST_MINT;
    state.pack_base();
    state.init_account_type().unwrap();

    let mut other_buffer = vec![0; mint_size];
    let mut state =
        StateWithExtensionsMut::<Mint>::unpack_uninitialized(&mut other_buffer).unwrap();

    // write base mint
    state.base = TEST_MINT;
    state.pack_base();
    state.init_account_type().unwrap();

    // write extensions in a different order
    let mint_transfer_fee = test_transfer_fee_config();
    let extension = state.init_extension::<TransferFeeConfig>(true).unwrap();
    mint_transfer_fee.pack_into_slice(extension);

    let close_authority = some_key(1);
    let extension = state.init_extension::<MintCloseAuthority>(true).unwrap();
    MintCloseAuthority { close_authority }.pack_into_slice(extension);

    assert_eq!(
        &state.get_extension_types().unwrap(),
        &[
            ExtensionType::TransferFeeConfig,
            ExtensionType::MintCloseAuthority
        ]
    );

    // buffers are NOT the same because written in a different order
    assert_ne!(buffer, other_buffer);
    let state = StateWithExtensions::<Mint>::unpack(&buffer).unwrap();
    let other_state = StateWithExtensions::<Mint>::unpack(&other_buffer).unwrap();

    // BUT mint and extensions are the same
    assert_eq!(
        state.get_extension::<TransferFeeConfig>().unwrap(),
        other_state.get_extension::<TransferFeeConfig>().unwrap()
    );
    assert_eq!(
        state.get_extension::<MintCloseAuthority>().unwrap(),
        other_state.get_extension::<MintCloseAuthority>().unwrap()
    );
    assert_eq!(state.base, other_state.base);
}

#[test]
fn mint_with_multisig_len() {
    let mut buffer = vec![0; MULTISIG_LEN];
    assert_eq!(
        StateWithExtensionsMut::<Mint>::unpack_uninitialized(&mut buffer),
        Err(ProgramError::InvalidAccountData),
    );
    let mint_size =
        ExtensionType::try_calculate_account_len::<Mint>(&[ExtensionType::MintPaddingTest])
            .unwrap();
    assert_eq!(mint_size, MULTISIG_LEN + 2);
    let mut buffer = vec![0; mint_size];

    // write base mint
    let mut state = StateWithExtensionsMut::<Mint>::unpack_uninitialized(&mut buffer).unwrap();
    state.base = TEST_MINT;
    state.pack_base();
    state.init_account_type().unwrap();

    // write padding
    let extension = state.init_extension::<MintPaddingTest>(true).unwrap();
    MintPaddingTest {
        padding1: [1; 128],
        padding2: [1; 48],
        padding3: [1; 9],
    }
    .pack_into_slice(extension);

    assert_eq!(
        &state.get_extension_types().unwrap(),
        &[ExtensionType::MintPaddingTest]
    );

    // check raw buffer
    let mut expect = TEST_MINT_SLICE.to_vec();
    expect.extend_from_slice(&[0; BASE_ACCOUNT_LENGTH - Mint::LEN]); // padding
    expect.push(AccountType::Mint.code());
    expect.extend_from_slice(&ExtensionType::MintPaddingTest.code().to_le_bytes());
    expect.extend_from_slice(&(MintPaddingTest::LEN as u16).to_le_bytes());
    expect.extend_from_slice(&vec![1; MintPaddingTest::LEN]);
    expect.extend_from_slice(&ExtensionType::Uninitialized.code().to_le_bytes());
    assert_eq!(expect, buffer);
}

#[test]
fn account_with_extension_pack_unpack() {
    let account_size =
        ExtensionType::try_calculate_account_len::<Account>(&[ExtensionType::TransferFeeAmount])
            .unwrap();
    let mut buffer = vec![0; account_size];

    // fail unpack
    assert_eq!(
        StateWithExtensionsMut::<Account>::unpack(&mut buffer),
        Err(ProgramError::UninitializedAccount),
    );

    let mut state = StateWithExtensionsMut::<Account>::unpack_uninitialized(&mut buffer).unwrap();
    // fail init mint extension
    assert_eq!(
        state.init_extension::<TransferFeeConfig>(true),
        Err(ProgramError::InvalidAccountData),
    );
    // success write extension
    let withheld_amount = u64::MAX;
    let extension = state.init_extension::<TransferFeeAmount>(true).unwrap();
    TransferFeeAmount { withheld_amount }.pack_into_slice(extension);

    assert_eq!(
        &state.get_extension_types().unwrap(),
        &[ExtensionType::TransferFeeAmount]
    );

    // fail unpack again, still no base data
    assert_eq!(
        StateWithExtensionsMut::<Account>::unpack(&mut buffer.clone()),
        Err(ProgramError::UninitializedAccount),
    );

    // write base account
    let mut state = StateWithExtensionsMut::<Account>::unpack_uninitialized(&mut buffer).unwrap();
    state.base = TEST_ACCOUNT;
    state.pack_base();
    state.init_account_type().unwrap();
    let base = state.base;

    // check raw buffer
    let mut expect = TEST_ACCOUNT_SLICE.to_vec();
    expect.push(AccountType::Account.code());
    expect.extend_from_slice(&ExtensionType::TransferFeeAmount.code().to_le_bytes());
    expect.extend_from_slice(&(TransferFeeAmount::LEN as u16).to_le_bytes());
    expect.extend_from_slice(&withheld_amount.to_le_bytes());
    assert_eq!(expect, buffer);

    // check unpacking
    let mut state = StateWithExtensionsMut::<Account>::unpack(&mut buffer).unwrap();
    assert_eq!(state.base, base);
    assert_eq!(
        &state.get_extension_types().unwrap(),
        &[ExtensionType::TransferFeeAmount]
    );

    // update base
    state.base = TEST_ACCOUNT;
    state.base.amount += 100;
    state.pack_base();

    // check unpacking
    let unpacked_extension = state.get_extension_mut::<TransferFeeAmount>().unwrap();
    assert_eq!(
        TransferFeeAmount::unpack(unpacked_extension),
        TransferFeeAmount { withheld_amount }
    );

    // update extension
    let withheld_amount = u32::MAX as u64;
    TransferFeeAmount { withheld_amount }.pack_into_slice(unpacked_extension);

    // check updates are propagated
    let base = state.base;
    let state = StateWithExtensions::<Account>::unpack(&buffer).unwrap();
    assert_eq!(state.base, base);
    let unpacked_extension = state.get_extension::<TransferFeeAmount>().unwrap();
    assert_eq!(unpacked_extension, TransferFeeAmount { withheld_amount });

    // check raw buffer
    let mut expect = vec![0; Account::LEN];
    Account::pack_into_slice(&base, &mut expect);
    expect.push(AccountType::Account.code());
    expect.extend_from_slice(&ExtensionType::TransferFeeAmount.code().to_le_bytes());
    expect.extend_from_slice(&(TransferFeeAmount::LEN as u16).to_le_bytes());
    expect.extend_from_slice(&withheld_amount.to_le_bytes());
    assert_eq!(expect, buffer);

    // fail unpack as a mint
    assert_eq!(
        StateWithExtensions::<Mint>::unpack(&buffer),
        Err(ProgramError::InvalidAccountData),
    );
}

#[test]
fn account_with_multisig_len() {
    let mut buffer = vec![0; MULTISIG_LEN];
    assert_eq!(
        StateWithExtensionsMut::<Account>::unpack_uninitialized(&mut buffer),
        Err(ProgramError::InvalidAccountData),
    );
    let account_size =
        ExtensionType::try_calculate_account_len::<Account>(&[ExtensionType::AccountPaddingTest])
            .unwrap();
    assert_eq!(account_size, MULTISIG_LEN + 2);
    let mut buffer = vec![0; account_size];

    // write base account
    let mut state = StateWithExtensionsMut::<Account>::unpack_uninitialized(&mut buffer).unwrap();
    state.base = TEST_ACCOUNT;
    state.pack_base();
    state.init_account_type().unwrap();

    // write padding
    let extension = state.init_extension::<AccountPaddingTest>(true).unwrap();
    AccountPaddingTest(MintPaddingTest {
        padding1: [2; 128],
        padding2: [2; 48],
        padding3: [2; 9],
    })
    .pack_into_slice(extension);

    assert_eq!(
        &state.get_extension_types().unwrap(),
        &[ExtensionType::AccountPaddingTest]
    );

    // check raw buffer
    let mut expect = TEST_ACCOUNT_SLICE.to_vec();
    expect.push(AccountType::Account.code());
    expect.extend_from_slice(&ExtensionType::AccountPaddingTest.code().to_le_bytes());
    expect.extend_from_slice(&(AccountPaddingTest::LEN as u16).to_le_bytes());
    expect.extend_from_slice(&vec![2; AccountPaddingTest::LEN]);
    expect.extend_from_slice(&ExtensionType::Uninitialized.code().to_le_bytes());
    assert_eq!(expect, buffer);
}

#[test]
fn test_set_account_type() {
    // account with buffer big enough for AccountType and Extension
    let mut buffer = TEST_ACCOUNT_SLICE.to_vec();
    let needed_len =
        ExtensionType::try_calculate_account_len::<Account>(&[ExtensionType::ImmutableOwner])
            .unwrap()
            - buffer.len();
    buffer.append(&mut vec![0; needed_len]);
    let err = StateWithExtensionsMut::<Account>::unpack(&mut buffer).unwrap_err();
    assert_eq!(err, ProgramError::InvalidAccountData);
    set_account_type::<Account>(&mut buffer).unwrap();
    // unpack is viable after manual set_account_type
    let mut state = StateWithExtensionsMut::<Account>::unpack(&mut buffer).unwrap();
    assert_eq!(state.base, TEST_ACCOUNT);
    assert_eq!(state.account_type[0], AccountType::Account.code());
    state.init_extension::<ImmutableOwner>(true).unwrap(); // just confirming initialization works

    // account with buffer big enough for AccountType only
    let mut buffer = TEST_ACCOUNT_SLICE.to_vec();
    buffer.append(&mut vec![0; 2]);
    let err = StateWithExtensionsMut::<Account>::unpack(&mut buffer).unwrap_err();
    assert_eq!(err, ProgramError::InvalidAccountData);
    set_account_type::<Account>(&mut buffer).unwrap();
    // unpack is viable after manual set_account_type
    let state = StateWithExtensionsMut::<Account>::unpack(&mut buffer).unwrap();
    assert_eq!(state.base, TEST_ACCOUNT);
    assert_eq!(state.account_type[0], AccountType::Account.code());

    // account with AccountType already set => noop
    let mut buffer = TEST_ACCOUNT_SLICE.to_vec();
    buffer.append(&mut vec![2, 0]);
    let _ = StateWithExtensionsMut::<Account>::unpack(&mut buffer).unwrap();
    set_account_type::<Account>(&mut buffer).unwrap();
    let state = StateWithExtensionsMut::<Account>::unpack(&mut buffer).unwrap();
    assert_eq!(state.base, TEST_ACCOUNT);
    assert_eq!(state.account_type[0], AccountType::Account.code());

    // account with wrong AccountType fails
    let mut buffer = TEST_ACCOUNT_SLICE.to_vec();
    buffer.append(&mut vec![1, 0]);
    let err = StateWithExtensionsMut::<Account>::unpack(&mut buffer).unwrap_err();
    assert_eq!(err, ProgramError::InvalidAccountData);
    let err = set_account_type::<Account>(&mut buffer).unwrap_err();
    assert_eq!(err, ProgramError::InvalidAccountData);

    // mint with buffer big enough for AccountType and Extension
    let mut buffer = TEST_MINT_SLICE.to_vec();
    let needed_len =
        ExtensionType::try_calculate_account_len::<Mint>(&[ExtensionType::MintCloseAuthority])
            .unwrap()
            - buffer.len();
    buffer.append(&mut vec![0; needed_len]);
    let err = StateWithExtensionsMut::<Mint>::unpack(&mut buffer).unwrap_err();
    assert_eq!(err, ProgramError::InvalidAccountData);
    set_account_type::<Mint>(&mut buffer).unwrap();
    // unpack is viable after manual set_account_type
    let mut state = StateWithExtensionsMut::<Mint>::unpack(&mut buffer).unwrap();
    assert_eq!(state.base, TEST_MINT);
    assert_eq!(state.account_type[0], AccountType::Mint.code());
    state.init_extension::<MintCloseAuthority>(true).unwrap();

    // mint with buffer big enough for AccountType only
    let mut buffer = TEST_MINT_SLICE.to_vec();
    buffer.append(&mut vec![0; Account::LEN - Mint::LEN]);
    buffer.append(&mut vec![0; 2]);
    let err = StateWithExtensionsMut::<Mint>::unpack(&mut buffer).unwrap_err();
    assert_eq!(err, ProgramError::InvalidAccountData);
    set_account_type::<Mint>(&mut buffer).unwrap();
    // unpack is viable after manual set_account_type
    let state = StateWithExtensionsMut::<Mint>::unpack(&mut buffer).unwrap();
    assert_eq!(state.base, TEST_MINT);
    assert_eq!(state.account_type[0], AccountType::Mint.code());

    // mint with AccountType already set => noop
    let mut buffer = TEST_MINT_SLICE.to_vec();
    buffer.append(&mut vec![0; Account::LEN - Mint::LEN]);
    buffer.append(&mut vec![1, 0]);
    set_account_type::<Mint>(&mut buffer).unwrap();
    let state = StateWithExtensionsMut::<Mint>::unpack(&mut buffer).unwrap();
    assert_eq!(state.base, TEST_MINT);
    assert_eq!(state.account_type[0], AccountType::Mint.code());

    // mint with wrong AccountType fails
    let mut buffer = TEST_MINT_SLICE.to_vec();
    buffer.append(&mut vec![0; Account::LEN - Mint::LEN]);
    buffer.append(&mut vec![2, 0]);
    let err = StateWithExtensionsMut::<Mint>::unpack(&mut buffer).unwrap_err();
    assert_eq!(err, ProgramError::InvalidAccountData);
    let err = set_account_type::<Mint>(&mut buffer).unwrap_err();
    assert_eq!(err, ProgramError::InvalidAccountData);
}

#[test]
fn test_set_account_type_wrongly() {
    // try to set Account account_type to Mint
    let mut buffer = TEST_ACCOUNT_SLICE.to_vec();
    buffer.append(&mut vec![0; 2]);
    let err = set_account_type::<Mint>(&mut buffer).unwrap_err();
    assert_eq!(err, ProgramError::InvalidAccountData);

    // try to set Mint account_type to Account
    let mut buffer = TEST_MINT_SLICE.to_vec();
    buffer.append(&mut vec![0; Account::LEN - Mint::LEN]);
    buffer.append(&mut vec![0; 2]);
    let err = set_account_type::<Account>(&mut buffer).unwrap_err();
    assert_eq!(err, ProgramError::InvalidAccountData);
}

#[test]
fn test_get_required_init_account_extensions() {
    // Some mint extensions with no required account extensions
    let mint_extensions = vec![
        ExtensionType::MintCloseAuthority,
        ExtensionType::Uninitialized,
    ];
    assert_eq!(
        ExtensionType::get_required_init_account_extensions(&mint_extensions),
        vec![]
    );

    // One mint extension with required account extension, one without
    let mint_extensions = vec![
        ExtensionType::TransferFeeConfig,
        ExtensionType::MintCloseAuthority,
    ];
    assert_eq!(
        ExtensionType::get_required_init_account_extensions(&mint_extensions),
        vec![ExtensionType::TransferFeeAmount]
    );

    // Some mint extensions both with required account extensions
    let mint_extensions = vec![
        ExtensionType::TransferFeeConfig,
        ExtensionType::MintPaddingTest,
    ];
    assert_eq!(
        ExtensionType::get_required_init_account_extensions(&mint_extensions),
        vec![
            ExtensionType::TransferFeeAmount,
            ExtensionType::AccountPaddingTest
        ]
    );

    // Demonstrate that method does not dedupe inputs or outputs
    let mint_extensions = vec![
        ExtensionType::TransferFeeConfig,
        ExtensionType::TransferFeeConfig,
    ];
    assert_eq!(
        ExtensionType::get_required_init_account_extensions(&mint_extensions),
        vec![
            ExtensionType::TransferFeeAmount,
            ExtensionType::TransferFeeAmount
        ]
    );
}

#[test]
fn mint_without_extensions() {
    let space = ExtensionType::try_calculate_account_len::<Mint>(&[]).unwrap();
    let mut buffer = vec![0; space];
    assert_eq!(
        StateWithExtensionsMut::<Account>::unpack_uninitialized(&mut buffer),
        Err(ProgramError::InvalidAccountData),
    );

    // write base account
    let mut state = StateWithExtensionsMut::<Mint>::unpack_uninitialized(&mut buffer).unwrap();
    state.base = TEST_MINT;
    state.pack_base();
    state.init_account_type().unwrap();

    // fail init extension
    assert_eq!(
        state.init_extension::<TransferFeeConfig>(true),
        Err(ProgramError::InvalidAccountData),
    );

    assert_eq!(TEST_MINT_SLICE, buffer);
}

#[test]
fn test_init_nonzero_default() {
    let mint_size =
        ExtensionType::try_calculate_account_len::<Mint>(&[ExtensionType::MintPaddingTest])
            .unwrap();
    let mut buffer = vec![0; mint_size];
    let mut state = StateWithExtensionsMut::<Mint>::unpack_uninitialized(&mut buffer).unwrap();
    state.base = TEST_MINT;
    state.pack_base();
    state.init_account_type().unwrap();
    let extension = MintPaddingTest::unpack(state.init_extension::<MintPaddingTest>(true).unwrap());
    assert_eq!(extension.padding1, [1; 128]);
    assert_eq!(extension.padding2, [2; 48]);
    assert_eq!(extension.padding3, [3; 9]);
}

#[test]
fn test_init_buffer_too_small() {
    let mint_size =
        ExtensionType::try_calculate_account_len::<Mint>(&[ExtensionType::MintCloseAuthority])
            .unwrap();
    let mut buffer = vec![0; mint_size - 1];
    let mut state = StateWithExtensionsMut::<Mint>::unpack_uninitialized(&mut buffer).unwrap();
    let err = state
        .init_extension::<MintCloseAuthority>(true)
        .unwrap_err();
    assert_eq!(err, ProgramError::InvalidAccountData);

    state.tlv_data[0] = 3;
    state.tlv_data[2] = 32;
    let err = state.get_extension_mut::<MintCloseAuthority>().unwrap_err();
    assert_eq!(err, ProgramError::InvalidAccountData);

    let mut buffer = vec![0; Mint::LEN + 2];
    let err = StateWithExtensionsMut::<Mint>::unpack_uninitialized(&mut buffer).unwrap_err();
    assert_eq!(err, ProgramError::InvalidAccountData);

    // OK since there are two bytes for the type, which is `Uninitialized`
    let mut buffer = vec![0; BASE_ACCOUNT_LENGTH + 3];
    let mut state = StateWithExtensionsMut::<Mint>::unpack_uninitialized(&mut buffer).unwrap();
    let err = state.get_extension_mut::<MintCloseAuthority>().unwrap_err();
    assert_eq!(err, ProgramError::InvalidAccountData);

    assert_eq!(state.get_extension_types().unwrap(), vec![]);

    // malformed since there aren't two bytes for the type
    let mut buffer = vec![0; BASE_ACCOUNT_LENGTH + 2];
    let state = StateWithExtensionsMut::<Mint>::unpack_uninitialized(&mut buffer).unwrap();
    assert_eq!(
        state.get_extension_types().unwrap_err(),
        ProgramError::InvalidAccountData
    );
}

#[test]
fn test_extension_with_no_data() {
    let account_size =
        ExtensionType::try_calculate_account_len::<Account>(&[ExtensionType::ImmutableOwner])
            .unwrap();
    let mut buffer = vec![0; account_size];
    let mut state = StateWithExtensionsMut::<Account>::unpack_uninitialized(&mut buffer).unwrap();
    state.base = TEST_ACCOUNT;
    state.pack_base();
    state.init_account_type().unwrap();

    let err = state.get_extension::<ImmutableOwner>().unwrap_err();
    assert_eq!(err, ProgramError::Token(TokenError::ExtensionNotFound));

    state.init_extension::<ImmutableOwner>(true).unwrap();
    assert_eq!(
        get_first_extension_type(state.tlv_data).unwrap(),
        Some(ExtensionType::ImmutableOwner)
    );
    assert_eq!(
        get_tlv_data_info(state.tlv_data).unwrap(),
        TlvDataInfo {
            extension_types: vec![ExtensionType::ImmutableOwner],
            used_len: add_type_and_length_to_len(0)
        }
    );
}

#[test]
fn fail_account_len_with_metadata() {
    assert_eq!(
        ExtensionType::try_calculate_account_len::<Mint>(&[
            ExtensionType::MintCloseAuthority,
            ExtensionType::VariableLenMintTest,
            ExtensionType::TransferFeeConfig,
        ])
        .unwrap_err(),
        ProgramError::InvalidArgument
    );
}

#[test]
fn alloc_variable_len() {
    let alloc_size = 1;
    let account_size = BASE_ACCOUNT_LENGTH + 1 + add_type_and_length_to_len(alloc_size);
    let mut buffer = vec![0; account_size];
    let mut state = StateWithExtensionsMut::<Mint>::unpack_uninitialized(&mut buffer).unwrap();
    let _ = state
        .allocate::<VariableLenMintTest>(alloc_size, false)
        .unwrap();

    // can't double alloc
    assert_eq!(
        state
            .allocate::<VariableLenMintTest>(alloc_size, false)
            .unwrap_err(),
        ProgramError::from(TokenError::ExtensionAlreadyInitialized)
    );

    // unless overwrite is set
    state
        .allocate::<VariableLenMintTest>(alloc_size, true)
        .unwrap();

    // can't change the size during overwrite though
    assert_eq!(
        state
            .allocate::<VariableLenMintTest>(alloc_size - 1, true)
            .unwrap_err(),
        ProgramError::from(TokenError::InvalidLengthForAlloc)
    );

    // try to write too far, fail earlier
    assert_eq!(
        state
            .allocate::<VariableLenMintTest>(alloc_size + 1, true)
            .unwrap_err(),
        ProgramError::InvalidAccountData
    );
}

#[test]
fn realloc() {
    const ALLOC_SIZE: usize = 5;
    const BIG_SIZE: usize = 10;
    const SMALL_SIZE: usize = 2;
    let account_size =
        ExtensionType::try_calculate_account_len::<Mint>(&[ExtensionType::MetadataPointer])
            .unwrap()
            + add_type_and_length_to_len(BIG_SIZE);
    let mut buffer = vec![0; account_size];
    let mut state = StateWithExtensionsMut::<Mint>::unpack_uninitialized(&mut buffer).unwrap();

    // alloc both types
    let _ = state
        .allocate::<VariableLenMintTest>(ALLOC_SIZE, false)
        .unwrap();
    let max_pubkey = some_key(255);
    let extension = state.init_extension::<MetadataPointer>(false).unwrap();
    MetadataPointer {
        authority: max_pubkey,
        metadata_address: max_pubkey,
    }
    .pack_into_slice(extension);

    // realloc first entry to larger, new bytes are all 0
    let data = state.realloc::<VariableLenMintTest>(BIG_SIZE).unwrap();
    assert_eq!(data, [0; BIG_SIZE]);
    let extension = state.get_extension::<MetadataPointer>().unwrap();
    assert_eq!(extension.authority, max_pubkey);
    assert_eq!(extension.metadata_address, max_pubkey);

    // realloc to smaller, removed bytes are all 0
    let data = state.realloc::<VariableLenMintTest>(SMALL_SIZE).unwrap();
    assert_eq!(data, [0; SMALL_SIZE]);
    let extension = state.get_extension::<MetadataPointer>().unwrap();
    assert_eq!(extension.authority, max_pubkey);
    assert_eq!(extension.metadata_address, max_pubkey);
    const DIFF: usize = BIG_SIZE - SMALL_SIZE;
    assert_eq!(&buffer[account_size - DIFF..account_size], [0; DIFF]);

    // unpack again since we dropped the last `state`
    let mut state = StateWithExtensionsMut::<Mint>::unpack_uninitialized(&mut buffer).unwrap();
    // realloc too much, fails
    assert_eq!(
        state
            .realloc::<VariableLenMintTest>(BIG_SIZE + 1)
            .unwrap_err(),
        ProgramError::InvalidAccountData,
    );
}

#[test]
fn account_len() {
    let value_len = 10;
    let account_size = BASE_ACCOUNT_LENGTH + 1 + add_type_and_length_to_len(value_len);
    let mut buffer = vec![0; account_size];
    let mut state = StateWithExtensionsMut::<Mint>::unpack_uninitialized(&mut buffer).unwrap();

    // With a new extension, new length must include padding, 1 byte for
    // account type, 2 bytes for type, 2 for length
    let current_len = state.try_get_account_len().unwrap();
    assert_eq!(current_len, Mint::LEN);
    let new_len = state
        .try_get_new_account_len::<VariableLenMintTest>(value_len)
        .unwrap();
    assert_eq!(
        new_len,
        BASE_ACCOUNT_AND_TYPE_LENGTH.saturating_add(add_type_and_length_to_len(value_len))
    );

    let _ = state
        .allocate::<VariableLenMintTest>(value_len, false)
        .unwrap();
    let current_len = state.try_get_account_len().unwrap();
    assert_eq!(current_len, new_len);

    // Reduce the extension size
    let new_len = state
        .try_get_new_account_len::<VariableLenMintTest>(value_len - 1)
        .unwrap();
    assert_eq!(current_len.checked_sub(new_len).unwrap(), 1);

    // Increase the extension size
    let new_len = state
        .try_get_new_account_len::<VariableLenMintTest>(value_len + 1)
        .unwrap();
    assert_eq!(new_len.checked_sub(current_len).unwrap(), 1);

    // Maintain the extension size
    let new_len = state
        .try_get_new_account_len::<VariableLenMintTest>(value_len)
        .unwrap();
    assert_eq!(new_len, current_len);
}

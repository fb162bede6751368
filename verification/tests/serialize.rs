use tlv_state::error::{ProgramError, TokenError};
use tlv_state::extension::serialize::{alloc_and_serialize, needed_len, realloc_and_serialize};
use tlv_state::extension::{
    add_type_and_length_to_len, BaseState, BaseStateWithExtensions, Extension, ExtensionType,
    MetadataPointer, OptionalNonZeroPubkey, Pod, StateWithExtensions, StateWithExtensionsMut,
    VariableLenMintTest, BASE_ACCOUNT_AND_TYPE_LENGTH,
};
use tlv_state::state::{Mint, Pubkey};

const TEST_MINT: Mint = Mint {
    mint_authority: Some(Pubkey([1; 32])),
    supply: 42,
    decimals: 7,
    is_initialized: true,
    freeze_authority: Some(Pubkey([2; 32])),
};

/// The account data as its owner holds it: the buffer grows before the bytes
/// are written and is cut after they are.
fn host_alloc_and_serialize<S: BaseState, V: Extension>(
    account: &mut Vec<u8>,
    value_bytes: &[u8],
) -> Result<(), ProgramError> {
    let previous_account_len = account.len();
    let new_account_len = needed_len::<S, V>(account, previous_account_len, value_bytes.len())?;
    if previous_account_len < new_account_len {
        account.resize(new_account_len, 0);
    }
    alloc_and_serialize::<S, V>(account, previous_account_len, value_bytes)
}

fn host_realloc_and_serialize<S: BaseState, V: Extension>(
    account: &mut Vec<u8>,
    value_bytes: &[u8],
) -> Result<(), ProgramError> {
    let previous_account_len = account.len();
    let new_account_len = needed_len::<S, V>(account, previous_account_len, value_bytes.len())?;
    if previous_account_len < new_account_len {
        account.resize(new_account_len, 0);
    }
    realloc_and_serialize::<S, V>(account, previous_account_len, value_bytes)?;
    if new_account_len < previous_account_len {
        account.truncate(new_account_len);
    }
    Ok(())
}

fn some_key(byte: u8) -> OptionalNonZeroPubkey {
    OptionalNonZeroPubkey::try_from_option(Some(Pubkey::new_from_array([byte; 32]))).unwrap()
}

#[test]
fn alloc_new_tlv_in_account_info_from_base_size() {
    const VALUE_LEN: usize = 10;
    let base_account_size = Mint::LEN;
    let mut buffer = vec![0; base_account_size];
    let mut state = StateWithExtensionsMut::<Mint>::unpack_uninitialized(&mut buffer).unwrap();
    state.base = TEST_MINT;
    state.pack_base();

    let mut data = buffer.clone();
    let value_bytes = [255; VALUE_LEN];

    host_alloc_and_serialize::<Mint, VariableLenMintTest>(&mut data, &value_bytes).unwrap();
    let new_account_len = BASE_ACCOUNT_AND_TYPE_LENGTH + add_type_and_length_to_len(VALUE_LEN);
    assert_eq!(data.len(), new_account_len);
    let state = StateWithExtensions::<Mint>::unpack(&data).unwrap();
    assert_eq!(
        state.get_extension_bytes::<VariableLenMintTest>().unwrap(),
        value_bytes
    );

    // alloc again fails
    assert_eq!(
        host_alloc_and_serialize::<Mint, VariableLenMintTest>(&mut data, &value_bytes)
            .unwrap_err(),
        ProgramError::from(TokenError::ExtensionAlreadyInitialized)
    );
}

#[test]
fn alloc_new_tlv_in_account_info_from_extended_size() {
    const VALUE_LEN: usize = 10;
    let account_size =
        ExtensionType::try_calculate_account_len::<Mint>(&[ExtensionType::MetadataPointer])
            .unwrap()
            + add_type_and_length_to_len(VALUE_LEN);
    let mut buffer = vec![0; account_size];
    let mut state = StateWithExtensionsMut::<Mint>::unpack_uninitialized(&mut buffer).unwrap();
    state.base = TEST_MINT;
    state.pack_base();
    state.init_account_type().unwrap();

    let test_key = some_key(20);
    let extension = state.init_extension::<MetadataPointer>(false).unwrap();
    MetadataPointer {
        authority: test_key,
        metadata_address: test_key,
    }
    .pack_into_slice(extension);

    let mut data = buffer.clone();
    let value_bytes = [255; VALUE_LEN];

    host_alloc_and_serialize::<Mint, VariableLenMintTest>(&mut data, &value_bytes).unwrap();
    let new_account_len = BASE_ACCOUNT_AND_TYPE_LENGTH
        + add_type_and_length_to_len(VALUE_LEN)
        + add_type_and_length_to_len(MetadataPointer::LEN);
    assert_eq!(data.len(), new_account_len);
    let state = StateWithExtensions::<Mint>::unpack(&data).unwrap();
    assert_eq!(
        state.get_extension_bytes::<VariableLenMintTest>().unwrap(),
        value_bytes
    );
    let extension = state.get_extension::<MetadataPointer>().unwrap();
    assert_eq!(extension.authority, test_key);
    assert_eq!(extension.metadata_address, test_key);

    // alloc again fails
    assert_eq!(
        host_alloc_and_serialize::<Mint, VariableLenMintTest>(&mut data, &value_bytes)
            .unwrap_err(),
        ProgramError::from(TokenError::ExtensionAlreadyInitialized)
    );
}

#[test]
fn realloc_tlv_in_account_info() {
    const ALLOC_SIZE: usize = 5;
    const BIG_SIZE: usize = 10;
    const SMALL_SIZE: usize = 2;
    let account_size =
        ExtensionType::try_calculate_account_len::<Mint>(&[ExtensionType::MetadataPointer])
            .unwrap()
            + add_type_and_length_to_len(ALLOC_SIZE);
    let mut buffer = vec![0; account_size];
    let mut state = StateWithExtensionsMut::<Mint>::unpack_uninitialized(&mut buffer).unwrap();
    state.base = TEST_MINT;
    state.pack_base();
    state.init_account_type().unwrap();

    // alloc both types
    let _ = state
        .allocate::<VariableLenMintTest>(ALLOC_SIZE, false)
        .unwrap();
    let max_pubkey = some_key(255);
    let extension = state.init_extension::<MetadataPointer>(false).unwrap();
    MetadataPointer {
        authority: max_pubkey,
        metadata_address: max_pubkey,
    }
    .pack_into_slice(extension);

    // reallocate to smaller, make sure existing extension is fine
    let mut data = buffer.clone();
    let value_bytes = [1; SMALL_SIZE];
    host_realloc_and_serialize::<Mint, VariableLenMintTest>(&mut data, &value_bytes).unwrap();

    let state = StateWithExtensions::<Mint>::unpack(&data).unwrap();
    let extension = state.get_extension::<MetadataPointer>().unwrap();
    assert_eq!(extension.authority, max_pubkey);
    assert_eq!(extension.metadata_address, max_pubkey);
    let extension_bytes = state.get_extension_bytes::<VariableLenMintTest>().unwrap();
    assert_eq!(extension_bytes, value_bytes);
    assert_eq!(data.len(), state.try_get_account_len().unwrap());

    // reallocate to larger
    let value_bytes = [2; BIG_SIZE];
    host_realloc_and_serialize::<Mint, VariableLenMintTest>(&mut data, &value_bytes).unwrap();

    let state = StateWithExtensions::<Mint>::unpack(&data).unwrap();
    let extension = state.get_extension::<MetadataPointer>().unwrap();
    assert_eq!(extension.authority, max_pubkey);
    assert_eq!(extension.metadata_address, max_pubkey);
    let extension_bytes = state.get_extension_bytes::<VariableLenMintTest>().unwrap();
    assert_eq!(extension_bytes, value_bytes);
    assert_eq!(data.len(), state.try_get_account_len().unwrap());

    // reallocate to same
    let value_bytes = [3; BIG_SIZE];
    host_realloc_and_serialize::<Mint, VariableLenMintTest>(&mut data, &value_bytes).unwrap();

    let state = StateWithExtensions::<Mint>::unpack(&data).unwrap();
    let extension = state.get_extension::<MetadataPointer>().unwrap();
    assert_eq!(extension.authority, max_pubkey);
    assert_eq!(extension.metadata_address, max_pubkey);
    let extension_bytes = state.get_extension_bytes::<VariableLenMintTest>().unwrap();
    assert_eq!(extension_bytes, value_bytes);
    assert_eq!(data.len(), state.try_get_account_len().unwrap());
}

#[test]
fn serialize_failure_leaves_the_buffer() {
    // an account of the other kind: nothing is written, not even the marker
    let mut buffer = vec![0; Mint::LEN];
    let mut state = StateWithExtensionsMut::<Mint>::unpack_uninitialized(&mut buffer).unwrap();
    state.base = TEST_MINT;
    state.pack_base();
    let mut data = buffer.clone();
    data.resize(BASE_ACCOUNT_AND_TYPE_LENGTH + 3, 0);
    let before = data.clone();
    // no room for a value of ten bytes
    assert_eq!(
        alloc_and_serialize::<Mint, VariableLenMintTest>(&mut data, Mint::LEN, &[7; 10]),
        Err(ProgramError::InvalidAccountData)
    );
    assert_eq!(data, before);
}

#[test]
fn realloc_needs_the_entry() {
    let account_size =
        ExtensionType::try_calculate_account_len::<Mint>(&[ExtensionType::MetadataPointer])
            .unwrap();
    let mut buffer = vec![0; account_size];
    let mut state = StateWithExtensionsMut::<Mint>::unpack_uninitialized(&mut buffer).unwrap();
    state.base = TEST_MINT;
    state.pack_base();
    state.init_account_type().unwrap();
    state.init_extension::<MetadataPointer>(false).unwrap();

    // no entry of the type: the account would have to grow, and nothing is found
    let mut data = buffer.clone();
    data.resize(account_size + 8, 0);
    let before = data.clone();
    assert_eq!(
        realloc_and_serialize::<Mint, VariableLenMintTest>(&mut data, account_size, &[1; 4]),
        Err(ProgramError::from(TokenError::ExtensionNotFound))
    );
    assert_eq!(data, before);
}

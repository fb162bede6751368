//! Extensions available to token mints and accounts

pub mod entry;
pub mod init;
pub mod laws;
pub mod registry;
pub mod scan;
pub mod serialize;
pub mod state_mut;
pub mod values;
pub mod view;

pub use init::set_account_type;
pub use registry::{
    add_type_and_length_to_len, adjust_len_for_multisig, AccountType, BaseState, Extension,
    ExtensionType, Length, BASE_ACCOUNT_AND_TYPE_LENGTH, BASE_ACCOUNT_LENGTH, MULTISIG_LEN,
};
pub use scan::{
    get_extension_bytes, get_extension_bytes_mut, get_extension_indices,
    get_first_extension_type, get_tlv_data_info, get_tlv_indices, TlvDataInfo, TlvIndices,
};
pub use state_mut::StateWithExtensionsMut;
pub use values::{
    AccountPaddingTest, ImmutableOwner, MetadataPointer, MintCloseAuthority, MintPaddingTest,
    NonTransferableAccount, OptionalNonZeroPubkey, PodBool, TransferFee, TransferFeeAmount,
    TransferFeeConfig, TransferHookAccount, VariableLenMintTest,
};
pub use view::{BaseStateWithExtensions, Pod, StateWithExtensions, StateWithExtensionsOwned};

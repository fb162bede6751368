//! The closed registry of entry types: the tag of each, its size on the wire
//! and the kind of base record that may host it.

use crate::error::{ProgramError, TokenError};
use vstd::prelude::*;

verus! {

/// Length of a token-holding account's base record; extension data of a
/// mint or an account starts only after this many bytes.
pub const BASE_ACCOUNT_LENGTH: usize = 165;

/// `BASE_ACCOUNT_LENGTH` and the kind marker that follows it: the least
/// length of a buffer that holds any entry.
pub const BASE_ACCOUNT_AND_TYPE_LENGTH: usize = 166;

/// Length of a multi-signature record. A buffer of exactly this length is
/// never read as a mint or an account.
pub const MULTISIG_LEN: usize = 355;

/// Bytes taken by an entry's type tag.
pub const TYPE_LEN: usize = 2;

/// Bytes taken by an entry's type tag and length field together.
pub const HEADER_LEN: usize = 4;

/// The kind of base record a buffer holds, stored in the byte after the base
/// record once the buffer is longer than the base record.
#[derive(Clone, Copy, Debug, PartialEq, Eq, Structural)]
pub enum AccountType {
    /// Marker for 0 data
    Uninitialized,
    /// Mint account with additional extensions
    Mint,
    /// Token holding account with additional extensions
    Account,
}

impl AccountType {
    /// The marker byte of this kind.
    pub open spec fn spec_code(self) -> u8 {
        match self {
            AccountType::Uninitialized => 0,
            AccountType::Mint => 1,
            AccountType::Account => 2,
        }
    }

    /// The kind that a marker byte stands for, if any.
    pub open spec fn spec_from_code(code: u8) -> Option<AccountType> {
        if code == 0 {
            Some(AccountType::Uninitialized)
        } else if code == 1 {
            Some(AccountType::Mint)
        } else if code == 2 {
            Some(AccountType::Account)
        } else {
            None
        }
    }

    /// The marker byte of this kind.
    pub fn code(self) -> (r: u8)
        ensures
            r == self.spec_code(),
            AccountType::spec_from_code(r) == Some(self),
    {
        match self {
            AccountType::Uninitialized => 0,
            AccountType::Mint => 1,
            AccountType::Account => 2,
        }
    }

    /// Reads a marker byte; any value above 2 is malformed.
    pub fn from_code(code: u8) -> (r: Option<AccountType>)
        ensures
            r == AccountType::spec_from_code(code),
            r matches Some(t) ==> t.spec_code() == code,
    {
        if code == 0 {
            Some(AccountType::Uninitialized)
        } else if code == 1 {
            Some(AccountType::Mint)
        } else if code == 2 {
            Some(AccountType::Account)
        } else {
            None
        }
    }
}

impl Default for AccountType {
    fn default() -> (r: AccountType)
        ensures
            r == AccountType::Uninitialized,
    {
        AccountType::Uninitialized
    }
}

/// The length field of an entry.
#[derive(Clone, Copy, Debug, Default, PartialEq, Eq, Structural)]
pub struct Length(pub u16);

impl Length {
    /// The length as a count of bytes.
    pub fn to_usize(self) -> (r: usize)
        ensures
            r == self.0,
    {
        self.0 as usize
    }

    /// A count of bytes as a length field, where it fits sixteen bits.
    pub fn try_from_usize(n: usize) -> (r: Result<Length, ProgramError>)
        ensures
            n <= u16::MAX ==> r == Ok::<Length, ProgramError>(Length(n as u16)),
            n > u16::MAX ==> r == Err::<Length, ProgramError>(ProgramError::AccountDataTooSmall),
    {
        if n <= u16::MAX as usize {
            Ok(Length(n as u16))
        } else {
            Err(ProgramError::AccountDataTooSmall)
        }
    }
}

/// Extensions that can be applied to mints or accounts.  Mint extensions must only be
/// applied to mint accounts, and account extensions must only be applied to token holding
/// accounts.
#[derive(Clone, Copy, Debug, PartialEq, Eq, Structural)]
pub enum ExtensionType {
    /// Used as padding if the account size would otherwise be 355, same as a multisig
    Uninitialized,
    /// Includes transfer fee rate info and accompanying authorities to withdraw and set the fee
    TransferFeeConfig,
    /// Includes withheld transfer fees
    TransferFeeAmount,
    /// Includes an optional mint close authority
    MintCloseAuthority,
    /// Auditor configuration for confidential transfers
    ConfidentialTransferMint,
    /// State for confidential transfers
    ConfidentialTransferAccount,
    /// Specifies the default Account::state for new Accounts
    DefaultAccountState,
    /// Indicates that the Account owner authority cannot be changed
    ImmutableOwner,
    /// Require inbound transfers to have memo
    MemoTransfer,
    /// Indicates that the tokens from this mint can't be transfered
    NonTransferable,
    /// Tokens accrue interest over time,
    InterestBearingConfig,
    /// Locks privileged token operations from happening via CPI
    CpiGuard,
    /// Includes an optional permanent delegate
    PermanentDelegate,
    /// Indicates that the tokens in this account belong to a non-transferable mint
    NonTransferableAccount,
    /// Mint requires a CPI to a program implementing the "transfer hook" interface
    TransferHook,
    /// Indicates that the tokens in this account belong to a mint with a transfer hook
    TransferHookAccount,
    /// Includes encrypted withheld fees and the encryption public that they are encrypted under
    ConfidentialTransferFeeConfig,
    /// Includes confidential withheld transfer fees
    ConfidentialTransferFeeAmount,
    /// Mint contains a pointer to another account (or the same account) that holds metadata
    MetadataPointer,
    /// Mint contains token-metadata
    TokenMetadata,
    /// Unsized mint extension without contents of its own
    VariableLenMintTest,
    /// Padding extension used to make an account exactly `MULTISIG_LEN`
    AccountPaddingTest,
    /// Padding extension used to make a mint exactly `MULTISIG_LEN`
    MintPaddingTest,
}

impl ExtensionType {
    /// The tag of this type on the wire.
    pub open spec fn spec_code(self) -> u16 {
        match self {
            ExtensionType::Uninitialized => 0,
            ExtensionType::TransferFeeConfig => 1,
            ExtensionType::TransferFeeAmount => 2,
            ExtensionType::MintCloseAuthority => 3,
            ExtensionType::ConfidentialTransferMint => 4,
            ExtensionType::ConfidentialTransferAccount => 5,
            ExtensionType::DefaultAccountState => 6,
            ExtensionType::ImmutableOwner => 7,
            ExtensionType::MemoTransfer => 8,
            ExtensionType::NonTransferable => 9,
            ExtensionType::InterestBearingConfig => 10,
            ExtensionType::CpiGuard => 11,
            ExtensionType::PermanentDelegate => 12,
            ExtensionType::NonTransferableAccount => 13,
            ExtensionType::TransferHook => 14,
            ExtensionType::TransferHookAccount => 15,
            ExtensionType::ConfidentialTransferFeeConfig => 16,
            ExtensionType::ConfidentialTransferFeeAmount => 17,
            ExtensionType::MetadataPointer => 18,
            ExtensionType::TokenMetadata => 19,
            ExtensionType::VariableLenMintTest => 65533,
            ExtensionType::AccountPaddingTest => 65534,
            ExtensionType::MintPaddingTest => 65535,
        }
    }

    /// The type that a tag stands for, if the tag is assigned.
    pub open spec fn spec_from_code(code: u16) -> Option<ExtensionType> {
        if code == 0 {
            Some(ExtensionType::Uninitialized)
        } else if code == 1 {
            Some(ExtensionType::TransferFeeConfig)
        } else if code == 2 {
            Some(ExtensionType::TransferFeeAmount)
        } else if code == 3 {
            Some(ExtensionType::MintCloseAuthority)
        } else if code == 4 {
            Some(ExtensionType::ConfidentialTransferMint)
        } else if code == 5 {
            Some(ExtensionType::ConfidentialTransferAccount)
        } else if code == 6 {
            Some(ExtensionType::DefaultAccountState)
        } else if code == 7 {
            Some(ExtensionType::ImmutableOwner)
        } else if code == 8 {
            Some(ExtensionType::MemoTransfer)
        } else if code == 9 {
            Some(ExtensionType::NonTransferable)
        } else if code == 10 {
            Some(ExtensionType::InterestBearingConfig)
        } else if code == 11 {
            Some(ExtensionType::CpiGuard)
        } else if code == 12 {
            Some(ExtensionType::PermanentDelegate)
        } else if code == 13 {
            Some(ExtensionType::NonTransferableAccount)
        } else if code == 14 {
            Some(ExtensionType::TransferHook)
        } else if code == 15 {
            Some(ExtensionType::TransferHookAccount)
        } else if code == 16 {
            Some(ExtensionType::ConfidentialTransferFeeConfig)
        } else if code == 17 {
            Some(ExtensionType::ConfidentialTransferFeeAmount)
        } else if code == 18 {
            Some(ExtensionType::MetadataPointer)
        } else if code == 19 {
            Some(ExtensionType::TokenMetadata)
        } else if code == 65533 {
            Some(ExtensionType::VariableLenMintTest)
        } else if code == 65534 {
            Some(ExtensionType::AccountPaddingTest)
        } else if code == 65535 {
            Some(ExtensionType::MintPaddingTest)
        } else {
            None
        }
    }

    /// The tag of this type on the wire.
    pub fn code(self) -> (r: u16)
        ensures
            r == self.spec_code(),
            ExtensionType::spec_from_code(r) == Some(self),
    {
        match self {
            ExtensionType::Uninitialized => 0,
            ExtensionType::TransferFeeConfig => 1,
            ExtensionType::TransferFeeAmount => 2,
            ExtensionType::MintCloseAuthority => 3,
            ExtensionType::ConfidentialTransferMint => 4,
            ExtensionType::ConfidentialTransferAccount => 5,
            ExtensionType::DefaultAccountState => 6,
            ExtensionType::ImmutableOwner => 7,
            ExtensionType::MemoTransfer => 8,
            ExtensionType::NonTransferable => 9,
            ExtensionType::InterestBearingConfig => 10,
            ExtensionType::CpiGuard => 11,
            ExtensionType::PermanentDelegate => 12,
            ExtensionType::NonTransferableAccount => 13,
            ExtensionType::TransferHook => 14,
            ExtensionType::TransferHookAccount => 15,
            ExtensionType::ConfidentialTransferFeeConfig => 16,
            ExtensionType::ConfidentialTransferFeeAmount => 17,
            ExtensionType::MetadataPointer => 18,
            ExtensionType::TokenMetadata => 19,
            ExtensionType::VariableLenMintTest => 65533,
            ExtensionType::AccountPaddingTest => 65534,
            ExtensionType::MintPaddingTest => 65535,
        }
    }

    /// Reads a tag; a tag that is not assigned is malformed.
    pub fn from_code(code: u16) -> (r: Result<ExtensionType, ProgramError>)
        ensures
            match ExtensionType::spec_from_code(code) {
                Some(t) => r == Ok::<ExtensionType, ProgramError>(t) && t.spec_code() == code,
                None => r == Err::<ExtensionType, ProgramError>(ProgramError::InvalidAccountData),
            },
    {
        if code == 0 {
            Ok(ExtensionType::Uninitialized)
        } else if code == 1 {
            Ok(ExtensionType::TransferFeeConfig)
        } else if code == 2 {
            Ok(ExtensionType::TransferFeeAmount)
        } else if code == 3 {
            Ok(ExtensionType::MintCloseAuthority)
        } else if code == 4 {
            Ok(ExtensionType::ConfidentialTransferMint)
        } else if code == 5 {
            Ok(ExtensionType::ConfidentialTransferAccount)
        } else if code == 6 {
            Ok(ExtensionType::DefaultAccountState)
        } else if code == 7 {
            Ok(ExtensionType::ImmutableOwner)
        } else if code == 8 {
            Ok(ExtensionType::MemoTransfer)
        } else if code == 9 {
            Ok(ExtensionType::NonTransferable)
        } else if code == 10 {
            Ok(ExtensionType::InterestBearingConfig)
        } else if code == 11 {
            Ok(ExtensionType::CpiGuard)
        } else if code == 12 {
            Ok(ExtensionType::PermanentDelegate)
        } else if code == 13 {
            Ok(ExtensionType::NonTransferableAccount)
        } else if code == 14 {
            Ok(ExtensionType::TransferHook)
        } else if code == 15 {
            Ok(ExtensionType::TransferHookAccount)
        } else if code == 16 {
            Ok(ExtensionType::ConfidentialTransferFeeConfig)
        } else if code == 17 {
            Ok(ExtensionType::ConfidentialTransferFeeAmount)
        } else if code == 18 {
            Ok(ExtensionType::MetadataPointer)
        } else if code == 19 {
            Ok(ExtensionType::TokenMetadata)
        } else if code == 65533 {
            Ok(ExtensionType::VariableLenMintTest)
        } else if code == 65534 {
            Ok(ExtensionType::AccountPaddingTest)
        } else if code == 65535 {
            Ok(ExtensionType::MintPaddingTest)
        } else {
            Err(ProgramError::InvalidAccountData)
        }
    }

    /// Whether values of this type have one fixed size.
    pub open spec fn spec_sized(self) -> bool {
        !(self is TokenMetadata || self is VariableLenMintTest)
    }

    /// The size of a value of this type, for the sized types.
    pub open spec fn spec_type_len(self) -> nat {
        match self {
            ExtensionType::Uninitialized => 0,
            ExtensionType::TransferFeeConfig => 108,
            ExtensionType::TransferFeeAmount => 8,
            ExtensionType::MintCloseAuthority => 32,
            ExtensionType::ConfidentialTransferMint => 65,
            ExtensionType::ConfidentialTransferAccount => 295,
            ExtensionType::DefaultAccountState => 1,
            ExtensionType::ImmutableOwner => 0,
            ExtensionType::MemoTransfer => 1,
            ExtensionType::NonTransferable => 0,
            ExtensionType::InterestBearingConfig => 52,
            ExtensionType::CpiGuard => 1,
            ExtensionType::PermanentDelegate => 32,
            ExtensionType::NonTransferableAccount => 0,
            ExtensionType::TransferHook => 64,
            ExtensionType::TransferHookAccount => 1,
            ExtensionType::ConfidentialTransferFeeConfig => 129,
            ExtensionType::ConfidentialTransferFeeAmount => 64,
            ExtensionType::MetadataPointer => 64,
            ExtensionType::TokenMetadata => 0,
            ExtensionType::VariableLenMintTest => 0,
            ExtensionType::AccountPaddingTest => 185,
            ExtensionType::MintPaddingTest => 185,
        }
    }

    /// The bytes that an entry of this type takes with its header.
    pub open spec fn spec_tlv_len(self) -> nat {
        self.spec_type_len() + HEADER_LEN as nat
    }

    /// The kind of base record that hosts this type.
    pub open spec fn spec_account_type(self) -> AccountType {
        match self {
            ExtensionType::Uninitialized => AccountType::Uninitialized,
            ExtensionType::TransferFeeConfig
            | ExtensionType::MintCloseAuthority
            | ExtensionType::ConfidentialTransferMint
            | ExtensionType::DefaultAccountState
            | ExtensionType::NonTransferable
            | ExtensionType::InterestBearingConfig
            | ExtensionType::PermanentDelegate
            | ExtensionType::TransferHook
            | ExtensionType::ConfidentialTransferFeeConfig
            | ExtensionType::MetadataPointer
            | ExtensionType::TokenMetadata
            | ExtensionType::VariableLenMintTest
            | ExtensionType::MintPaddingTest => AccountType::Mint,
            ExtensionType::ImmutableOwner
            | ExtensionType::TransferFeeAmount
            | ExtensionType::ConfidentialTransferAccount
            | ExtensionType::MemoTransfer
            | ExtensionType::NonTransferableAccount
            | ExtensionType::TransferHookAccount
            | ExtensionType::CpiGuard
            | ExtensionType::ConfidentialTransferFeeAmount
            | ExtensionType::AccountPaddingTest => AccountType::Account,
        }
    }

    /// Returns true if the given extension type is sized
    ///
    /// Most extension types should be sized, so any unsized extension types should
    /// be added here by hand
    pub fn sized(&self) -> (r: bool)
        ensures
            r == self.spec_sized(),
    {
        match self {
            ExtensionType::TokenMetadata => false,
            ExtensionType::VariableLenMintTest => false,
            _ => true,
        }
    }

    /// Get the data length of the type associated with the enum
    ///
    /// Fails if the extension type is unsized
    pub fn try_get_type_len(&self) -> (r: Result<usize, ProgramError>)
        ensures
            self.spec_sized() ==> r == Ok::<usize, ProgramError>(self.spec_type_len() as usize),
            !self.spec_sized() ==> r == Err::<usize, ProgramError>(ProgramError::InvalidArgument),
    {
        if !self.sized() {
            return Err(ProgramError::InvalidArgument);
        }
        Ok(
            match self {
                ExtensionType::Uninitialized => 0,
                ExtensionType::TransferFeeConfig => 108,
                ExtensionType::TransferFeeAmount => 8,
                ExtensionType::MintCloseAuthority => 32,
                ExtensionType::ImmutableOwner => 0,
                ExtensionType::ConfidentialTransferMint => 65,
                ExtensionType::ConfidentialTransferAccount => 295,
                ExtensionType::DefaultAccountState => 1,
                ExtensionType::MemoTransfer => 1,
                ExtensionType::NonTransferable => 0,
                ExtensionType::InterestBearingConfig => 52,
                ExtensionType::CpiGuard => 1,
                ExtensionType::PermanentDelegate => 32,
                ExtensionType::NonTransferableAccount => 0,
                ExtensionType::TransferHook => 64,
                ExtensionType::TransferHookAccount => 1,
                ExtensionType::ConfidentialTransferFeeConfig => 129,
                ExtensionType::ConfidentialTransferFeeAmount => 64,
                ExtensionType::MetadataPointer => 64,
                ExtensionType::AccountPaddingTest => 185,
                ExtensionType::MintPaddingTest => 185,
                ExtensionType::TokenMetadata => 0,
                ExtensionType::VariableLenMintTest => 0,
            },
        )
    }

    /// Get the TLV length for an ExtensionType
    ///
    /// Fails if the extension type is unsized
    pub fn try_get_tlv_len(&self) -> (r: Result<usize, ProgramError>)
        ensures
            self.spec_sized() ==> r == Ok::<usize, ProgramError>(self.spec_tlv_len() as usize),
            !self.spec_sized() ==> r == Err::<usize, ProgramError>(ProgramError::InvalidArgument),
    {
        match self.try_get_type_len() {
            Ok(n) => Ok(add_type_and_length_to_len(n)),
            Err(e) => Err(e),
        }
    }

    /// Get the associated account type
    pub fn get_account_type(&self) -> (r: AccountType)
        ensures
            r == self.spec_account_type(),
    {
        match self {
            ExtensionType::Uninitialized => AccountType::Uninitialized,
            ExtensionType::TransferFeeConfig
            | ExtensionType::MintCloseAuthority
            | ExtensionType::ConfidentialTransferMint
            | ExtensionType::DefaultAccountState
            | ExtensionType::NonTransferable
            | ExtensionType::InterestBearingConfig
            | ExtensionType::PermanentDelegate
            | ExtensionType::TransferHook
            | ExtensionType::ConfidentialTransferFeeConfig
            | ExtensionType::MetadataPointer
            | ExtensionType::TokenMetadata => AccountType::Mint,
            ExtensionType::ImmutableOwner
            | ExtensionType::TransferFeeAmount
            | ExtensionType::ConfidentialTransferAccount
            | ExtensionType::MemoTransfer
            | ExtensionType::NonTransferableAccount
            | ExtensionType::TransferHookAccount
            | ExtensionType::CpiGuard
            | ExtensionType::ConfidentialTransferFeeAmount => AccountType::Account,
            ExtensionType::VariableLenMintTest => AccountType::Mint,
            ExtensionType::AccountPaddingTest => AccountType::Account,
            ExtensionType::MintPaddingTest => AccountType::Mint,
        }
    }
}

/// `a + b`, held at the largest `usize` where the sum would pass it.
pub open spec fn spec_saturating_add(a: int, b: int) -> int {
    if a + b > usize::MAX {
        usize::MAX as int
    } else {
        a + b
    }
}

/// The account length to ask for in place of `account_len`: a buffer with
/// entries may not be exactly as long as a multi-signature record, so that
/// length grows by one empty type tag.
pub open spec fn spec_adjust_len_for_multisig(account_len: int) -> int {
    if account_len == MULTISIG_LEN {
        account_len + TYPE_LEN
    } else {
        account_len
    }
}

/// Helper function to tack on the size of an extension bytes if an account with
/// extensions is exactly the size of a multisig
pub fn adjust_len_for_multisig(account_len: usize) -> (r: usize)
    ensures
        r == spec_adjust_len_for_multisig(account_len as int),
{
    if account_len == MULTISIG_LEN {
        account_len.saturating_add(TYPE_LEN)
    } else {
        account_len
    }
}

/// Helper function to calculate exactly how many bytes a value will take up,
/// given the value's length
pub fn add_type_and_length_to_len(value_len: usize) -> (r: usize)
    ensures
        r == spec_saturating_add(value_len as int, HEADER_LEN as int),
{
    value_len.saturating_add(HEADER_LEN)
}

/// The account extension that every account of a mint with extension `t`
/// must be created with, if there is one.
pub open spec fn spec_required_account_extension(t: ExtensionType) -> Option<ExtensionType> {
    match t {
        ExtensionType::TransferFeeConfig => Some(ExtensionType::TransferFeeAmount),
        ExtensionType::NonTransferable => Some(ExtensionType::NonTransferableAccount),
        ExtensionType::TransferHook => Some(ExtensionType::TransferHookAccount),
        ExtensionType::MintPaddingTest => Some(ExtensionType::AccountPaddingTest),
        _ => None,
    }
}

/// The required account extensions of each mint extension of `types`, in the
/// order of `types`, one for each occurrence.
pub open spec fn spec_required_init_account_extensions(types: Seq<ExtensionType>) -> Seq<
    ExtensionType,
>
    decreases types.len(),
{
    if types.len() == 0 {
        Seq::empty()
    } else {
        let before = spec_required_init_account_extensions(types.drop_last());
        match spec_required_account_extension(types.last()) {
            Some(a) => before.push(a),
            None => before,
        }
    }
}

/// What `v` adds to the total length of `types`: its entry length where it
/// occurs, however often, and nothing where it does not.
#[verifier::opaque]
pub open spec fn spec_share(types: Seq<ExtensionType>, v: ExtensionType) -> nat {
    if types.contains(v) {
        v.spec_tlv_len()
    } else {
        0
    }
}

/// The bytes that one entry of each distinct type of `types` takes, headers
/// included.
pub open spec fn spec_total_tlv_len(types: Seq<ExtensionType>) -> nat {
    spec_share(types, ExtensionType::Uninitialized) + spec_share(
        types,
        ExtensionType::TransferFeeConfig,
    ) + spec_share(types, ExtensionType::TransferFeeAmount) + spec_share(
        types,
        ExtensionType::MintCloseAuthority,
    ) + spec_share(types, ExtensionType::ConfidentialTransferMint) + spec_share(
        types,
        ExtensionType::ConfidentialTransferAccount,
    ) + spec_share(types, ExtensionType::DefaultAccountState) + spec_share(
        types,
        ExtensionType::ImmutableOwner,
    ) + spec_share(types, ExtensionType::MemoTransfer) + spec_share(
        types,
        ExtensionType::NonTransferable,
    ) + spec_share(types, ExtensionType::InterestBearingConfig) + spec_share(
        types,
        ExtensionType::CpiGuard,
    ) + spec_share(types, ExtensionType::PermanentDelegate) + spec_share(
        types,
        ExtensionType::NonTransferableAccount,
    ) + spec_share(types, ExtensionType::TransferHook) + spec_share(
        types,
        ExtensionType::TransferHookAccount,
    ) + spec_share(types, ExtensionType::ConfidentialTransferFeeConfig) + spec_share(
        types,
        ExtensionType::ConfidentialTransferFeeAmount,
    ) + spec_share(types, ExtensionType::MetadataPointer) + spec_share(
        types,
        ExtensionType::TokenMetadata,
    ) + spec_share(types, ExtensionType::VariableLenMintTest) + spec_share(
        types,
        ExtensionType::AccountPaddingTest,
    ) + spec_share(types, ExtensionType::MintPaddingTest)
}

/// Whether every type of `types` has a fixed size.
pub open spec fn spec_all_sized(types: Seq<ExtensionType>) -> bool {
    forall|i: int| 0 <= i < types.len() ==> (#[trigger] types[i]).spec_sized()
}

/// The length of a buffer that holds a base record of length `base_len` and
/// one entry of each distinct type of `types`.
pub open spec fn spec_account_len(base_len: int, types: Seq<ExtensionType>) -> int {
    if types.len() == 0 {
        base_len
    } else {
        spec_adjust_len_for_multisig(spec_total_tlv_len(types) + BASE_ACCOUNT_AND_TYPE_LENGTH)
    }
}

/// Whether a mint may carry the extensions `types` together: confidential
/// transfer fees need both transfer fees and confidential transfers, and those
/// two together need confidential transfer fees.
pub open spec fn spec_valid_mint_combination(types: Seq<ExtensionType>) -> bool {
    let fee = types.contains(ExtensionType::TransferFeeConfig);
    let confidential = types.contains(ExtensionType::ConfidentialTransferMint);
    let confidential_fee = types.contains(ExtensionType::ConfidentialTransferFeeConfig);
    confidential_fee == (fee && confidential)
}

/// A type occurs in `s` with `t` appended where it occurs in `s` or is `t`.
pub proof fn lemma_push_contains(s: Seq<ExtensionType>, t: ExtensionType, v: ExtensionType)
    ensures
        s.push(t).contains(v) <==> (s.contains(v) || v == t),
{
    if s.contains(v) {
        let i = choose|i: int| 0 <= i < s.len() && s[i] == v;
        assert(s.push(t)[i] == v);
    }
    if v == t {
        assert(s.push(t)[s.len() as int] == v);
    }
    if s.push(t).contains(v) {
        let i = choose|i: int| 0 <= i < s.push(t).len() && s.push(t)[i] == v;
        if i < s.len() {
            assert(s[i] == v);
        }
    }
}

/// Whether the same types occur in `a` and in `b`.
#[verifier::opaque]
pub open spec fn same_members(a: Seq<ExtensionType>, b: Seq<ExtensionType>) -> bool {
    forall|v: ExtensionType| a.contains(v) <==> b.contains(v)
}

/// Every sequence has the members that it has.
pub proof fn lemma_same_members_refl(a: Seq<ExtensionType>)
    ensures
        same_members(a, a),
{
    reveal(same_members);
}

/// Appending one type to both of two sequences with the same members, or, where
/// the first holds it already, to the second alone, keeps the members the same.
pub proof fn lemma_same_members_push(a: Seq<ExtensionType>, b: Seq<ExtensionType>, t: ExtensionType)
    requires
        same_members(a, b),
    ensures
        same_members(a.push(t), b.push(t)),
        a.contains(t) ==> same_members(a, b.push(t)),
{
    reveal(same_members);
    assert forall|v: ExtensionType| a.push(t).contains(v) <==> b.push(t).contains(v) by {
        lemma_push_contains(a, t, v);
        lemma_push_contains(b, t, v);
    }
    if a.contains(t) {
        assert forall|v: ExtensionType| a.contains(v) <==> b.push(t).contains(v) by {
            lemma_push_contains(b, t, v);
        }
    }
}

/// The share of a type is its entry length at most, and the same in two
/// sequences with the same members.
pub proof fn lemma_share_same_members(
    a: Seq<ExtensionType>,
    b: Seq<ExtensionType>,
    v: ExtensionType,
)
    requires
        same_members(a, b),
    ensures
        spec_share(a, v) == spec_share(b, v),
        spec_share(a, v) <= v.spec_tlv_len(),
{
    reveal(same_members);
    reveal(spec_share);
}

/// The total length depends on the members alone, and never passes the sum
/// over the whole registry.
pub proof fn lemma_total_same_members(a: Seq<ExtensionType>, b: Seq<ExtensionType>)
    requires
        same_members(a, b),
    ensures
        spec_total_tlv_len(a) == spec_total_tlv_len(b),
        spec_total_tlv_len(a) <= 1379,
{
    lemma_share_same_members(a, b, ExtensionType::Uninitialized);
    lemma_share_same_members(a, b, ExtensionType::TransferFeeConfig);
    lemma_share_same_members(a, b, ExtensionType::TransferFeeAmount);
    lemma_share_same_members(a, b, ExtensionType::MintCloseAuthority);
    lemma_share_same_members(a, b, ExtensionType::ConfidentialTransferMint);
    lemma_share_same_members(a, b, ExtensionType::ConfidentialTransferAccount);
    lemma_share_same_members(a, b, ExtensionType::DefaultAccountState);
    lemma_share_same_members(a, b, ExtensionType::ImmutableOwner);
    lemma_share_same_members(a, b, ExtensionType::MemoTransfer);
    lemma_share_same_members(a, b, ExtensionType::NonTransferable);
    lemma_share_same_members(a, b, ExtensionType::InterestBearingConfig);
    lemma_share_same_members(a, b, ExtensionType::CpiGuard);
    lemma_share_same_members(a, b, ExtensionType::PermanentDelegate);
    lemma_share_same_members(a, b, ExtensionType::NonTransferableAccount);
    lemma_share_same_members(a, b, ExtensionType::TransferHook);
    lemma_share_same_members(a, b, ExtensionType::TransferHookAccount);
    lemma_share_same_members(a, b, ExtensionType::ConfidentialTransferFeeConfig);
    lemma_share_same_members(a, b, ExtensionType::ConfidentialTransferFeeAmount);
    lemma_share_same_members(a, b, ExtensionType::MetadataPointer);
    lemma_share_same_members(a, b, ExtensionType::TokenMetadata);
    lemma_share_same_members(a, b, ExtensionType::VariableLenMintTest);
    lemma_share_same_members(a, b, ExtensionType::AccountPaddingTest);
    lemma_share_same_members(a, b, ExtensionType::MintPaddingTest);
}

/// No entry takes no bytes.
pub proof fn lemma_total_empty()
    ensures
        spec_total_tlv_len(Seq::<ExtensionType>::empty()) == 0,
{
    reveal(spec_share);
}

/// A type that did not occur before adds its entry length to its own share
/// and nothing to the others.
pub proof fn lemma_share_push_new(s: Seq<ExtensionType>, t: ExtensionType, v: ExtensionType)
    requires
        !s.contains(t),
    ensures
        spec_share(s.push(t), v) == spec_share(s, v) + if v == t {
            t.spec_tlv_len()
        } else {
            0
        },
{
    reveal(spec_share);
    lemma_push_contains(s, t, v);
}

/// A type that did not occur before adds its entry length to the total.
pub proof fn lemma_total_push_new(s: Seq<ExtensionType>, t: ExtensionType)
    requires
        !s.contains(t),
    ensures
        spec_total_tlv_len(s.push(t)) == spec_total_tlv_len(s) + t.spec_tlv_len(),
{
    lemma_share_push_new(s, t, ExtensionType::Uninitialized);
    lemma_share_push_new(s, t, ExtensionType::TransferFeeConfig);
    lemma_share_push_new(s, t, ExtensionType::TransferFeeAmount);
    lemma_share_push_new(s, t, ExtensionType::MintCloseAuthority);
    lemma_share_push_new(s, t, ExtensionType::ConfidentialTransferMint);
    lemma_share_push_new(s, t, ExtensionType::ConfidentialTransferAccount);
    lemma_share_push_new(s, t, ExtensionType::DefaultAccountState);
    lemma_share_push_new(s, t, ExtensionType::ImmutableOwner);
    lemma_share_push_new(s, t, ExtensionType::MemoTransfer);
    lemma_share_push_new(s, t, ExtensionType::NonTransferable);
    lemma_share_push_new(s, t, ExtensionType::InterestBearingConfig);
    lemma_share_push_new(s, t, ExtensionType::CpiGuard);
    lemma_share_push_new(s, t, ExtensionType::PermanentDelegate);
    lemma_share_push_new(s, t, ExtensionType::NonTransferableAccount);
    lemma_share_push_new(s, t, ExtensionType::TransferHook);
    lemma_share_push_new(s, t, ExtensionType::TransferHookAccount);
    lemma_share_push_new(s, t, ExtensionType::ConfidentialTransferFeeConfig);
    lemma_share_push_new(s, t, ExtensionType::ConfidentialTransferFeeAmount);
    lemma_share_push_new(s, t, ExtensionType::MetadataPointer);
    lemma_share_push_new(s, t, ExtensionType::TokenMetadata);
    lemma_share_push_new(s, t, ExtensionType::VariableLenMintTest);
    lemma_share_push_new(s, t, ExtensionType::AccountPaddingTest);
    lemma_share_push_new(s, t, ExtensionType::MintPaddingTest);
}

/// Tells whether `t` occurs in `types`.
pub fn contains_type(types: &[ExtensionType], t: ExtensionType) -> (r: bool)
    ensures
        r == types@.contains(t),
{
    let mut i: usize = 0;
    while i < types.len()
        invariant
            i <= types@.len(),
            forall|k: int| 0 <= k < i ==> types@[k] != t,
        decreases types@.len() - i,
    {
        if types[i] == t {
            return true;
        }
        i += 1;
    }
    false
}

impl ExtensionType {
    /// Get the TLV length for a set of ExtensionTypes
    ///
    /// Fails if any of the extension types is unsized
    pub fn try_get_total_tlv_len(extension_types: &[Self]) -> (r: Result<usize, ProgramError>)
        ensures
            spec_all_sized(extension_types@) ==> r == Ok::<usize, ProgramError>(
                spec_total_tlv_len(extension_types@) as usize,
            ),
            !spec_all_sized(extension_types@) ==> r == Err::<usize, ProgramError>(
                ProgramError::InvalidArgument,
            ),
            spec_total_tlv_len(extension_types@) <= 1379,
    {
        let mut extensions: Vec<ExtensionType> = Vec::new();
        let mut total: usize = 0;
        let mut i: usize = 0;
        proof {
            lemma_same_members_refl(extensions@);
            assert(extension_types@.subrange(0, 0) =~= extensions@);
            lemma_total_same_members(extensions@, extensions@);
            lemma_same_members_refl(extension_types@);
            lemma_total_same_members(extension_types@, extension_types@);
            lemma_total_empty();
            assert(extensions@ =~= Seq::<ExtensionType>::empty());
        }
        while i < extension_types.len()
            invariant
                i <= extension_types@.len(),
                same_members(extensions@, extension_types@.subrange(0, i as int)),
                spec_all_sized(extension_types@.subrange(0, i as int)),
                total == spec_total_tlv_len(extensions@),
                total <= 1379,
                spec_total_tlv_len(extension_types@) <= 1379,
            decreases extension_types@.len() - i,
        {
            let t = extension_types[i];
            proof {
                assert(extension_types@.subrange(0, i + 1) =~= extension_types@.subrange(
                    0,
                    i as int,
                ).push(t));
                lemma_same_members_push(extensions@, extension_types@.subrange(0, i as int), t);
            }
            match t.try_get_tlv_len() {
                Err(e) => {
                    assert(!extension_types@[i as int].spec_sized());
                    return Err(e);
                },
                Ok(len) => {
                    if !contains_type(extensions.as_slice(), t) {
                        proof {
                            lemma_total_push_new(extensions@, t);
                            lemma_same_members_refl(extensions@.push(t));
                            lemma_total_same_members(extensions@.push(t), extensions@.push(t));
                        }
                        extensions.push(t);
                        total = total + len;
                    }
                },
            }
            i += 1;
        }
        proof {
            assert(extension_types@.subrange(0, i as int) =~= extension_types@);
            lemma_total_same_members(extensions@, extension_types@);
        }
        Ok(total)
    }

    /// Get the required account data length for the given ExtensionTypes
    ///
    /// Fails if any of the extension types is unsized
    pub fn try_calculate_account_len<S: BaseState>(extension_types: &[Self]) -> (r: Result<
        usize,
        ProgramError,
    >)
        ensures
            spec_all_sized(extension_types@) ==> r == Ok::<usize, ProgramError>(
                spec_account_len(S::LEN as int, extension_types@) as usize,
            ),
            !spec_all_sized(extension_types@) ==> r == Err::<usize, ProgramError>(
                ProgramError::InvalidArgument,
            ),
    {
        if extension_types.len() == 0 {
            Ok(S::LEN)
        } else {
            match Self::try_get_total_tlv_len(extension_types) {
                Ok(extension_size) => {
                    let total_len = extension_size.saturating_add(BASE_ACCOUNT_AND_TYPE_LENGTH);
                    Ok(adjust_len_for_multisig(total_len))
                },
                Err(e) => Err(e),
            }
        }
    }

    /// Based on a set of AccountType::Mint ExtensionTypes, get the list of AccountType::Account
    /// ExtensionTypes required on InitializeAccount
    pub fn get_required_init_account_extensions(mint_extension_types: &[Self]) -> (r: Vec<Self>)
        ensures
            r@ == spec_required_init_account_extensions(mint_extension_types@),
    {
        let mut account_extension_types: Vec<ExtensionType> = Vec::new();
        let mut i: usize = 0;
        while i < mint_extension_types.len()
            invariant
                i <= mint_extension_types@.len(),
                account_extension_types@ == spec_required_init_account_extensions(
                    mint_extension_types@.subrange(0, i as int),
                ),
            decreases mint_extension_types@.len() - i,
        {
            proof {
                assert(mint_extension_types@.subrange(0, i + 1).drop_last()
                    =~= mint_extension_types@.subrange(0, i as int));
            }
            match mint_extension_types[i] {
                ExtensionType::TransferFeeConfig => {
                    account_extension_types.push(ExtensionType::TransferFeeAmount);
                },
                ExtensionType::NonTransferable => {
                    account_extension_types.push(ExtensionType::NonTransferableAccount);
                },
                ExtensionType::TransferHook => {
                    account_extension_types.push(ExtensionType::TransferHookAccount);
                },
                ExtensionType::MintPaddingTest => {
                    account_extension_types.push(ExtensionType::AccountPaddingTest);
                },
                _ => {},
            }
            i += 1;
        }
        proof {
            assert(mint_extension_types@.subrange(0, i as int) =~= mint_extension_types@);
        }
        account_extension_types
    }

    /// Check for invalid combination of mint extensions
    pub fn check_for_invalid_mint_extension_combinations(mint_extension_types: &[Self]) -> (r:
        Result<(), TokenError>)
        ensures
            spec_valid_mint_combination(mint_extension_types@) ==> r == Ok::<(), TokenError>(()),
            !spec_valid_mint_combination(mint_extension_types@) ==> r == Err::<(), TokenError>(
                TokenError::InvalidExtensionCombination,
            ),
    {
        let transfer_fee_config = contains_type(
            mint_extension_types,
            ExtensionType::TransferFeeConfig,
        );
        let confidential_transfer_mint = contains_type(
            mint_extension_types,
            ExtensionType::ConfidentialTransferMint,
        );
        let confidential_transfer_fee_config = contains_type(
            mint_extension_types,
            ExtensionType::ConfidentialTransferFeeConfig,
        );

        if confidential_transfer_fee_config && !(transfer_fee_config
            && confidential_transfer_mint) {
            return Err(TokenError::InvalidExtensionCombination);
        }
        if transfer_fee_config && confidential_transfer_mint && !confidential_transfer_fee_config {
            return Err(TokenError::InvalidExtensionCombination);
        }
        Ok(())
    }
}

/// A fixed-length base record that entries can follow: how it is laid out in
/// bytes, and which kind of record it is. Its view is what the record holds.
pub trait BaseState: Sized + View {
    /// Associated extension type enum, checked at the start of TLV entries
    const ACCOUNT_TYPE: AccountType;

    /// The length of the packed record.
    const LEN: usize;

    /// The record that `bytes` hold, where they are well formed.
    spec fn spec_unpack(bytes: Seq<u8>) -> Option<Self::V>;

    /// The bytes that hold the record `v` after it is packed over `onto`.
    spec fn spec_pack(v: Self::V, onto: Seq<u8>) -> Seq<u8>;

    /// Whether the record `v` has been initialized.
    spec fn spec_is_initialized(v: Self::V) -> bool;

    /// Reads a record from exactly `LEN` bytes.
    fn unpack_from_slice(src: &[u8]) -> (r: Result<Self, ProgramError>)
        requires
            src@.len() == Self::LEN,
        ensures
            match Self::spec_unpack(src@) {
                Some(v) => r matches Ok(found) && found@ == v,
                None => r matches Err(e) && e == ProgramError::InvalidAccountData,
            },
    ;

    /// Writes the record over exactly `LEN` bytes.
    fn pack_into_slice(&self, dst: &mut [u8])
        requires
            old(dst)@.len() == Self::LEN,
        ensures
            final(dst)@ == Self::spec_pack(self@, old(dst)@),
    ;

    /// Whether the record has been initialized.
    fn is_initialized(&self) -> (r: bool)
        ensures
            r == Self::spec_is_initialized(self@),
    ;

    /// Packing a record over the bytes it was read from changes nothing.
    proof fn lemma_pack_unpacked(bytes: Seq<u8>)
        requires
            bytes.len() == Self::LEN,
            Self::spec_unpack(bytes) is Some,
        ensures
            Self::spec_pack(Self::spec_unpack(bytes).unwrap(), bytes) == bytes,
    ;

    /// A packed record keeps the length and reads back as itself.
    proof fn lemma_unpack_packed(&self, onto: Seq<u8>)
        requires
            onto.len() == Self::LEN,
        ensures
            Self::spec_pack(self@, onto).len() == Self::LEN,
            Self::spec_unpack(Self::spec_pack(self@, onto)) == Some(self@),
    ;
}

/// Trait to be implemented by all extension states, specifying which extension
/// and account type they are associated with
pub trait Extension {
    /// Associated extension type enum, checked at the start of TLV entries
    const TYPE: ExtensionType;
}

} // verus!

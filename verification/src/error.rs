//! Error values returned by every fallible operation of the library.

use vstd::prelude::*;

verus! {

/// Logical failures of the extension engine: the caller asked for something
/// that the current contents of the buffer do not allow.
#[derive(Clone, Copy, Debug, PartialEq, Eq, Structural)]
pub enum TokenError {
    /// The base record is already initialized.
    AlreadyInUse,
    /// An entry of the buffer belongs to the other kind of base record.
    ExtensionTypeMismatch,
    /// The first entry of the buffer does not belong to this kind of base record.
    ExtensionBaseMismatch,
    /// The entry exists already and may not be overwritten.
    ExtensionAlreadyInitialized,
    /// No entry of the requested type is stored.
    ExtensionNotFound,
    /// The set of mint extensions cannot be combined.
    InvalidExtensionCombination,
    /// An existing entry may only be allocated again with its own length.
    InvalidLengthForAlloc,
}

/// Failures of the discriminator-keyed entry list.
#[derive(Clone, Copy, Debug, PartialEq, Eq, Structural)]
pub enum TlvError {
    /// Type not found in TLV data
    TypeNotFound,
    /// Type already exists in TLV data
    TypeAlreadyExists,
}

/// Failures while storing or resolving the extra accounts of an instruction.
#[derive(Clone, Copy, Debug, PartialEq, Eq, Structural)]
pub enum AccountResolutionError {
    /// A supplied account differs from the one that was resolved.
    IncorrectAccount,
    /// A record that holds seeds was taken for one that holds an address.
    AccountTypeNotAccountMeta,
    /// The seed components do not fit the space reserved for them.
    SeedConfigsTooLarge,
    /// A stored seed component is cut short.
    InvalidBytesForSeed,
    /// A seed cannot be stored, a stored seed has an unknown tag, or no address
    /// can be derived from the seeds.
    InvalidSeedConfig,
    /// A seed reaches past the end of the instruction data.
    InstructionDataTooSmall,
    /// A seed names an account that is not resolved yet.
    AccountNotFound,
    /// An offset computation left the machine's range.
    CalculationFailure,
    /// A seed names an account whose data is not known.
    AccountDataNotFound,
    /// A seed reaches past the end of an account's data.
    AccountDataTooSmall,
    /// The data of an account could not be fetched.
    AccountFetchFailed,
    /// The slice header announces more records than the entry can hold.
    BufferTooSmall,
}

/// The error of every operation of the library.
#[derive(Clone, Copy, Debug, PartialEq, Eq, Structural)]
pub enum ProgramError {
    /// An argument has no meaning for the operation.
    InvalidArgument,
    /// The buffer is malformed: too short, out of bounds, or of the wrong kind.
    InvalidAccountData,
    /// A length does not fit the width of its field.
    AccountDataTooSmall,
    /// The base record has not been initialized.
    UninitializedAccount,
    /// A logical failure of the extension engine.
    Token(TokenError),
    /// A failure of the discriminator-keyed entry list.
    Tlv(TlvError),
    /// A failure of extra-account resolution.
    Resolution(AccountResolutionError),
}

impl From<TokenError> for ProgramError {
    fn from(e: TokenError) -> (r: ProgramError) {
        ProgramError::Token(e)
    }
}

impl vstd::std_specs::convert::FromSpecImpl<TokenError> for ProgramError {
    open spec fn obeys_from_spec() -> bool {
        true
    }

    open spec fn from_spec(e: TokenError) -> ProgramError {
        ProgramError::Token(e)
    }
}

impl From<TlvError> for ProgramError {
    fn from(e: TlvError) -> (r: ProgramError) {
        ProgramError::Tlv(e)
    }
}

impl vstd::std_specs::convert::FromSpecImpl<TlvError> for ProgramError {
    open spec fn obeys_from_spec() -> bool {
        true
    }

    open spec fn from_spec(e: TlvError) -> ProgramError {
        ProgramError::Tlv(e)
    }
}

impl From<AccountResolutionError> for ProgramError {
    fn from(e: AccountResolutionError) -> (r: ProgramError) {
        ProgramError::Resolution(e)
    }
}

impl vstd::std_specs::convert::FromSpecImpl<AccountResolutionError> for ProgramError {
    open spec fn obeys_from_spec() -> bool {
        true
    }

    open spec fn from_spec(e: AccountResolutionError) -> ProgramError {
        ProgramError::Resolution(e)
    }
}

} // verus!

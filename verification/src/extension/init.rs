//! Setting up the part of a buffer that follows the base record: the kind
//! marker, and the entries that every account of a mint must start with.

use crate::error::ProgramError;
use crate::extension::entry::{spec_alloc, spec_with_entry};
use crate::extension::registry::{AccountType, BaseState, ExtensionType, BASE_ACCOUNT_LENGTH};
use crate::extension::scan::{
    is_initialized_account, spec_type_and_tlv_indices, type_and_tlv_indices,
    ACCOUNT_INITIALIZED_INDEX,
};
use crate::extension::state_mut::StateWithExtensionsMut;
use crate::extension::values::{
    lemma_value_layouts, AccountPaddingTest, NonTransferableAccount, TransferFeeAmount,
    TransferHookAccount,
};
use crate::extension::view::{spec_account_type_offset, spec_valid_len, Pod};
use vstd::prelude::*;

verus! {

/// Whether an account starts with a default entry of type `t`.
pub open spec fn spec_initialized_with_account(t: ExtensionType) -> bool {
    t is TransferFeeAmount || t is NonTransferableAccount || t is TransferHookAccount
        || t is AccountPaddingTest
}

/// The value that an entry of type `t` starts with, for the types of
/// `spec_initialized_with_account`.
pub open spec fn spec_account_default_bytes(t: ExtensionType) -> Seq<u8> {
    match t {
        ExtensionType::TransferFeeAmount => TransferFeeAmount::spec_default_bytes(),
        ExtensionType::NonTransferableAccount => NonTransferableAccount::spec_default_bytes(),
        ExtensionType::TransferHookAccount => TransferHookAccount::spec_default_bytes(),
        _ => AccountPaddingTest::spec_default_bytes(),
    }
}

impl<'data, S: BaseState> StateWithExtensionsMut<'data, S> {
    /// If `extension_type` is an Account-associated ExtensionType that requires initialization on
    /// InitializeAccount, this method packs the default relevant Extension of an ExtensionType
    /// into an open slot if not already found in the data buffer, otherwise overwrites the
    /// existing extension with the default state. For all other ExtensionTypes, this is a no-op.
    ///
    /// The account extensions that no account starts with, other than the
    /// state for confidential transfers, are not accepted.
    pub fn init_account_extension_from_type(&mut self, extension_type: ExtensionType) -> (r:
        Result<(), ProgramError>)
        requires
            extension_type.spec_account_type() == AccountType::Account
                ==> spec_initialized_with_account(extension_type) || extension_type
                is ConfidentialTransferAccount,
        ensures
            final(self).base == old(self).base,
            final(self).base_data@ == old(self).base_data@,
            final(self).account_type@ == old(self).account_type@,
            final(final(self).base_data)@ == final(old(self).base_data)@,
            final(final(self).account_type)@ == final(old(self).account_type)@,
            final(final(self).tlv_data)@ == final(old(self).tlv_data)@,
            !spec_initialized_with_account(extension_type) ==> r == Ok::<(), ProgramError>(())
                && final(self).tlv_data@ == old(self).tlv_data@,
            spec_initialized_with_account(extension_type) ==> match spec_alloc(
                old(self).tlv_data@,
                S::ACCOUNT_TYPE,
                extension_type,
                extension_type.spec_type_len() as int,
                true,
            ) {
                Ok(p) => {
                    &&& r == Ok::<(), ProgramError>(())
                    &&& final(self).tlv_data@ == spec_with_entry(
                        old(self).tlv_data@,
                        p,
                        extension_type,
                        extension_type.spec_type_len() as int,
                        spec_account_default_bytes(extension_type),
                    )
                },
                Err(e) => {
                    &&& r == Err::<(), ProgramError>(e)
                    &&& final(self).tlv_data@ == old(self).tlv_data@
                },
            },
    {
        if extension_type.get_account_type() != AccountType::Account {
            return Ok(());
        }
        proof {
            lemma_value_layouts();
        }
        match extension_type {
            ExtensionType::TransferFeeAmount => {
                match self.init_extension::<TransferFeeAmount>(true) {
                    Ok(_value) => Ok(()),
                    Err(e) => Err(e),
                }
            },
            ExtensionType::NonTransferableAccount => {
                match self.init_extension::<NonTransferableAccount>(true) {
                    Ok(_value) => Ok(()),
                    Err(e) => Err(e),
                }
            },
            ExtensionType::TransferHookAccount => {
                match self.init_extension::<TransferHookAccount>(true) {
                    Ok(_value) => Ok(()),
                    Err(e) => Err(e),
                }
            },
            ExtensionType::AccountPaddingTest => {
                match self.init_extension::<AccountPaddingTest>(true) {
                    Ok(_value) => Ok(()),
                    Err(e) => Err(e),
                }
            },
            // ConfidentialTransfers are currently opt-in only, so this is a no-op for extra safety
            // on InitializeAccount
            _ => Ok(()),
        }
    }
}

/// Whether the kind marker of `input` can be set to the kind of `S`: the
/// length is valid, an account's base record is initialized, bytes follow
/// the base record with all padding zero, and the marker is unset or names
/// the kind of `S` already. Everything else is `InvalidAccountData`.
pub open spec fn spec_set_account_type<S: BaseState>(input: Seq<u8>) -> Result<(), ProgramError> {
    let rest = input.subrange(S::LEN as int, input.len() as int);
    if !spec_valid_len::<S>(input) {
        Err(ProgramError::InvalidAccountData)
    } else if S::ACCOUNT_TYPE == AccountType::Account && (S::LEN != BASE_ACCOUNT_LENGTH
        || input[ACCOUNT_INITIALIZED_INDEX as int] == 0) {
        Err(ProgramError::InvalidAccountData)
    } else {
        match spec_type_and_tlv_indices(rest, S::LEN as int) {
            Err(e) => Err(e),
            Ok(None) => Err(ProgramError::InvalidAccountData),
            Ok(Some((account_type_index, _))) => {
                let marker = AccountType::spec_from_code(rest[account_type_index as int]);
                if marker == Some(AccountType::Uninitialized) || marker == Some(S::ACCOUNT_TYPE) {
                    Ok(())
                } else {
                    Err(ProgramError::InvalidAccountData)
                }
            },
        }
    }
}

/// If AccountType is uninitialized, set it to the BaseState's ACCOUNT_TYPE;
/// if AccountType is already set, check is set correctly for BaseState
/// This method assumes that the `base_data` has already been packed with data of the desired type.
///
/// On success the marker names the kind of `S` and nothing else has changed; a
/// call that fails writes nothing.
pub fn set_account_type<S: BaseState>(input: &mut [u8]) -> (r: Result<(), ProgramError>)
    ensures
        r == spec_set_account_type::<S>(old(input)@),
        r is Ok ==> final(input)@ == old(input)@.update(
            spec_account_type_offset::<S>(),
            S::ACCOUNT_TYPE.spec_code(),
        ),
        r is Err ==> final(input)@ == old(input)@,
{
    let len = input.len();
    if len == crate::extension::registry::MULTISIG_LEN || len < S::LEN {
        return Err(ProgramError::InvalidAccountData);
    }
    if S::ACCOUNT_TYPE == AccountType::Account {
        match is_initialized_account(&input[0..S::LEN]) {
            Ok(true) => {},
            Ok(false) => {
                return Err(ProgramError::InvalidAccountData);
            },
            Err(e) => {
                return Err(e);
            },
        }
    }
    let found = type_and_tlv_indices(&input[S::LEN..len], S::LEN);
    match found {
        Err(e) => Err(e),
        Ok(None) => Err(ProgramError::InvalidAccountData),
        Ok(Some((account_type_index, _tlv_start_index))) => {
            let at = S::LEN + account_type_index;
            match AccountType::from_code(input[at]) {
                None => Err(ProgramError::InvalidAccountData),
                Some(account_type) => {
                    if account_type == AccountType::Uninitialized {
                        input[at] = S::ACCOUNT_TYPE.code();
                        Ok(())
                    } else if account_type == S::ACCOUNT_TYPE {
                        assert(input@ =~= old(input)@.update(
                            spec_account_type_offset::<S>(),
                            S::ACCOUNT_TYPE.spec_code(),
                        ));
                        Ok(())
                    } else {
                        Err(ProgramError::InvalidAccountData)
                    }
                },
            }
        },
    }
}

} // verus!

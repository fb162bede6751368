//! A base record with the entries that follow it, read from one buffer: as an
//! owned copy, as a view of a borrowed buffer, and as a view through which a
//! borrowed buffer is rewritten in place.

use crate::error::{ProgramError, TokenError};
use crate::extension::registry::{
    add_type_and_length_to_len, adjust_len_for_multisig, spec_adjust_len_for_multisig,
    spec_saturating_add, AccountType, BaseState, Extension, ExtensionType,
    BASE_ACCOUNT_AND_TYPE_LENGTH, BASE_ACCOUNT_LENGTH, HEADER_LEN, MULTISIG_LEN,
};
use crate::extension::scan::{
    check_account_type, check_min_len_and_not_multisig, get_extension_bytes,
    get_first_extension_type, get_tlv_data_info, spec_account_type_index, spec_extension_bytes,
    spec_first_extension_type, spec_tlv_info, spec_type_and_tlv_indices, type_and_tlv_indices,
};
use vstd::prelude::*;

verus! {

/// A value with one fixed layout: every sequence of `LEN` bytes is the image
/// of exactly one value.
pub trait Pod: Sized {
    /// The length of the packed value.
    const LEN: usize;

    /// The bytes that hold this value.
    spec fn spec_bytes(&self) -> Seq<u8>;

    /// The bytes of the value that a new entry starts with.
    spec fn spec_default_bytes() -> Seq<u8>;

    /// Reads a value from exactly `LEN` bytes.
    fn unpack(src: &[u8]) -> (r: Self)
        requires
            src@.len() == Self::LEN,
        ensures
            r.spec_bytes() == src@,
    ;

    /// Writes the value over exactly `LEN` bytes.
    fn pack_into_slice(&self, dst: &mut [u8])
        requires
            old(dst)@.len() == Self::LEN,
        ensures
            final(dst)@ == self.spec_bytes(),
    ;

    /// The value that a new entry starts with.
    fn default_value() -> (r: Self)
        ensures
            r.spec_bytes() == Self::spec_default_bytes(),
            r.spec_bytes().len() == Self::LEN,
    ;
}

/// Whether bytes follow the base record in `input`.
pub open spec fn spec_is_extended<S: BaseState>(input: Seq<u8>) -> bool {
    input.len() > S::LEN
}

/// The offset of the kind marker in a buffer with a base record `S`.
pub open spec fn spec_account_type_offset<S: BaseState>() -> int {
    S::LEN + spec_account_type_index(S::LEN as int)
}

/// The padding between the base record and the kind marker.
pub open spec fn spec_padding<S: BaseState>(input: Seq<u8>) -> Seq<u8> {
    if spec_is_extended::<S>(input) {
        input.subrange(S::LEN as int, spec_account_type_offset::<S>())
    } else {
        Seq::empty()
    }
}

/// The kind marker of `input`: one byte, or nothing where the buffer ends
/// with the base record.
pub open spec fn spec_account_type_bytes<S: BaseState>(input: Seq<u8>) -> Seq<u8> {
    if spec_is_extended::<S>(input) {
        input.subrange(spec_account_type_offset::<S>(), spec_account_type_offset::<S>() + 1)
    } else {
        Seq::empty()
    }
}

/// The bytes of `input` that hold its entries: all that follow the kind marker.
pub open spec fn spec_tlv_data<S: BaseState>(input: Seq<u8>) -> Seq<u8> {
    if spec_is_extended::<S>(input) {
        input.subrange(spec_account_type_offset::<S>() + 1, input.len() as int)
    } else {
        Seq::empty()
    }
}

/// What is wrong with the bytes that follow the base record in `input`, if
/// anything, where the kind marker is to be `expected`: padding that is not
/// zero, no room for the marker and a byte more, a marker that names no kind
/// or another kind than `expected`. All of these are `InvalidAccountData`.
pub open spec fn spec_layout_error<S: BaseState>(input: Seq<u8>, expected: AccountType) -> Option<
    ProgramError,
> {
    let rest = input.subrange(S::LEN as int, input.len() as int);
    match spec_type_and_tlv_indices(rest, S::LEN as int) {
        Err(e) => Some(e),
        Ok(None) => None,
        Ok(Some((account_type_index, _))) => {
            if AccountType::spec_from_code(rest[account_type_index as int]) == Some(expected) {
                None
            } else {
                Some(ProgramError::InvalidAccountData)
            }
        },
    }
}

/// Whether `input` can hold a base record `S` at all: it is long enough and
/// not as long as a multi-signature record.
pub open spec fn spec_valid_len<S: BaseState>(input: Seq<u8>) -> bool {
    input.len() != MULTISIG_LEN && input.len() >= S::LEN
}

/// The initialized base record that `input` holds.
///
/// Fails with `InvalidAccountData` where the length is not valid, the base
/// record is malformed, or the bytes behind it are (`spec_layout_error`, with
/// the kind of `S` as the marker), and with `UninitializedAccount` where the
/// base record is not initialized.
pub open spec fn spec_unpack_state<S: BaseState>(input: Seq<u8>) -> Result<S::V, ProgramError> {
    if !spec_valid_len::<S>(input) {
        Err(ProgramError::InvalidAccountData)
    } else {
        match S::spec_unpack(input.subrange(0, S::LEN as int)) {
            None => Err(ProgramError::InvalidAccountData),
            Some(base) => {
                if !S::spec_is_initialized(base) {
                    Err(ProgramError::UninitializedAccount)
                } else {
                    match spec_layout_error::<S>(input, S::ACCOUNT_TYPE) {
                        Some(e) => Err(e),
                        None => Ok(base),
                    }
                }
            },
        }
    }
}

/// The base record that `input` holds before its first initialization.
///
/// Fails with `InvalidAccountData` where the length is not valid, the base
/// record is malformed, or the bytes behind it are (`spec_layout_error`, with
/// the marker still unset, and a first tag that is not assigned), with
/// `AlreadyInUse` where the base record is initialized, and with
/// `ExtensionBaseMismatch` where the first entry belongs to the other kind of
/// base record.
pub open spec fn spec_unpack_uninitialized<S: BaseState>(input: Seq<u8>) -> Result<
    S::V,
    ProgramError,
> {
    if !spec_valid_len::<S>(input) {
        Err(ProgramError::InvalidAccountData)
    } else {
        match S::spec_unpack(input.subrange(0, S::LEN as int)) {
            None => Err(ProgramError::InvalidAccountData),
            Some(base) => {
                if S::spec_is_initialized(base) {
                    Err(ProgramError::Token(TokenError::AlreadyInUse))
                } else {
                    match spec_layout_error::<S>(input, AccountType::Uninitialized) {
                        Some(e) => Err(e),
                        None => match spec_first_extension_type(spec_tlv_data::<S>(input)) {
                            Err(e) => Err(e),
                            Ok(Some(t)) => if t.spec_account_type() != S::ACCOUNT_TYPE {
                                Err(ProgramError::Token(TokenError::ExtensionBaseMismatch))
                            } else {
                                Ok(base)
                            },
                            Ok(None) => Ok(base),
                        },
                    }
                }
            },
        }
    }
}

/// Reads the base record of `input` and checks what follows it, without
/// changing anything: see `spec_unpack_state` and `spec_unpack_uninitialized`.
/// Gives the base record and whether bytes follow it.
pub fn unpack_parts<S: BaseState>(input: &[u8], uninitialized: bool) -> (r: Result<
    (S, bool),
    ProgramError,
>)
    ensures
        match (if uninitialized {
            spec_unpack_uninitialized::<S>(input@)
        } else {
            spec_unpack_state::<S>(input@)
        }) {
            Ok(base) => r matches Ok((found, extended)) && found@ == base && extended
                == spec_is_extended::<S>(input@) && (extended ==> spec_account_type_offset::<S>()
                + 1 < input@.len()) && S::LEN <= input@.len(),
            Err(e) => r matches Err(f) && f == e,
        },
{
    let len = input.len();
    match check_min_len_and_not_multisig(input, S::LEN) {
        Ok(()) => {},
        Err(e) => {
            return Err(e);
        },
    }
    let base_data = &input[0..S::LEN];
    let rest = &input[S::LEN..len];
    let base = match S::unpack_from_slice(base_data) {
        Ok(b) => b,
        Err(e) => {
            return Err(e);
        },
    };
    if uninitialized {
        if base.is_initialized() {
            return Err(ProgramError::Token(TokenError::AlreadyInUse));
        }
    } else {
        if !base.is_initialized() {
            return Err(ProgramError::UninitializedAccount);
        }
    }
    match type_and_tlv_indices(rest, S::LEN) {
        Err(e) => Err(e),
        Ok(None) => Ok((base, false)),
        Ok(Some((account_type_index, tlv_start_index))) => {
            // type_and_tlv_indices() checks that returned indexes are within range
            let account_type = match AccountType::from_code(rest[account_type_index]) {
                Some(t) => t,
                None => {
                    return Err(ProgramError::InvalidAccountData);
                },
            };
            if uninitialized {
                if account_type != AccountType::Uninitialized {
                    return Err(ProgramError::InvalidAccountData);
                }
                let tlv_data = &rest[tlv_start_index..rest.len()];
                assert(tlv_data@ =~= spec_tlv_data::<S>(input@));
                match get_first_extension_type(tlv_data) {
                    Err(e) => {
                        return Err(e);
                    },
                    Ok(Some(extension_type)) => {
                        if extension_type.get_account_type() != S::ACCOUNT_TYPE {
                            return Err(ProgramError::Token(TokenError::ExtensionBaseMismatch));
                        }
                    },
                    Ok(None) => {},
                }
            } else {
                match check_account_type(account_type, S::ACCOUNT_TYPE) {
                    Ok(()) => {},
                    Err(e) => {
                        return Err(e);
                    },
                }
            }
            Ok((base, true))
        },
    }
}

/// Encapsulates owned immutable base state data (mint or account) with possible extensions
#[derive(Clone, Debug, PartialEq)]
pub struct StateWithExtensionsOwned<S: BaseState> {
    /// Unpacked base data
    pub base: S,
    /// Raw TLV data, deserialized on demand
    pub tlv_data: Vec<u8>,
}

impl<S: BaseState> StateWithExtensionsOwned<S> {
    /// Unpack base state, leaving the extension data as a slice
    ///
    /// Fails if the base state is not initialized.
    pub fn unpack(input: Vec<u8>) -> (r: Result<Self, ProgramError>)
        ensures
            match spec_unpack_state::<S>(input@) {
                Ok(base) => r matches Ok(state) && state.base@ == base && state.tlv_data@
                    == spec_tlv_data::<S>(input@),
                Err(e) => r matches Err(f) && f == e,
            },
    {
        let mut input = input;
        let _ = input.len();
        let (base, extended) = match unpack_parts::<S>(input.as_slice(), false) {
            Ok(parts) => parts,
            Err(e) => {
                return Err(e);
            },
        };
        if extended {
            let tlv_start = BASE_ACCOUNT_LENGTH.saturating_sub(S::LEN) + S::LEN + 1;
            let tlv_data = input.split_off(tlv_start);
            Ok(Self { base, tlv_data })
        } else {
            Ok(Self { base, tlv_data: Vec::new() })
        }
    }
}

/// Encapsulates immutable base state data (mint or account) with possible extensions
#[derive(Debug, PartialEq)]
pub struct StateWithExtensions<'data, S: BaseState> {
    /// Unpacked base data
    pub base: S,
    /// Slice of data containing all TLV data, deserialized on demand
    pub tlv_data: &'data [u8],
}

impl<'data, S: BaseState> StateWithExtensions<'data, S> {
    /// Unpack base state, leaving the extension data as a slice
    ///
    /// Fails if the base state is not initialized.
    pub fn unpack(input: &'data [u8]) -> (r: Result<Self, ProgramError>)
        ensures
            match spec_unpack_state::<S>(input@) {
                Ok(base) => r matches Ok(state) && state.base@ == base && state.tlv_data@
                    == spec_tlv_data::<S>(input@),
                Err(e) => r matches Err(f) && f == e,
            },
    {
        let (base, extended) = match unpack_parts::<S>(input, false) {
            Ok(parts) => parts,
            Err(e) => {
                return Err(e);
            },
        };
        let len = input.len();
        if extended {
            let tlv_start = BASE_ACCOUNT_LENGTH.saturating_sub(S::LEN) + S::LEN + 1;
            Ok(Self { base, tlv_data: &input[tlv_start..len] })
        } else {
            Ok(Self { base, tlv_data: &input[len..len] })
        }
    }
}

/// `a - b`, held at zero where the difference would pass it.
pub open spec fn spec_saturating_sub(a: int, b: int) -> int {
    if a < b {
        0
    } else {
        a - b
    }
}

/// The length of the buffer that a base record of length `base_len` and the
/// entries of `tlv` take: the base record alone where no entry is stored,
/// else everything up to the end of the entries, adjusted as
/// `spec_adjust_len_for_multisig` says.
pub open spec fn spec_try_get_account_len(tlv: Seq<u8>, base_len: int) -> Result<
    usize,
    ProgramError,
> {
    match spec_tlv_info(tlv, 0) {
        Err(e) => Err(e),
        Ok(info) => if info.types.len() == 0 {
            Ok(base_len as usize)
        } else {
            Ok(
                spec_adjust_len_for_multisig(
                    spec_saturating_add(info.used_len, BASE_ACCOUNT_AND_TYPE_LENGTH as int),
                ) as usize,
            )
        },
    }
}

/// The length that the buffer needs once the entry of type `extension_type`
/// has `new_extension_len` bytes of value, whether the entry exists already or
/// not: the entries as they are, without that entry as it is, with it as it
/// will be, adjusted as `spec_adjust_len_for_multisig` says.
pub open spec fn spec_try_get_new_account_len(
    tlv: Seq<u8>,
    account_type: AccountType,
    extension_type: ExtensionType,
    new_extension_len: int,
) -> Result<usize, ProgramError> {
    let new_entry_len = spec_saturating_add(new_extension_len, HEADER_LEN as int);
    match spec_tlv_info(tlv, 0) {
        Err(e) => Err(e),
        Ok(info) => {
            let current_len = spec_saturating_add(
                info.used_len,
                BASE_ACCOUNT_AND_TYPE_LENGTH as int,
            );
            let new_len = if info.types.len() == 0 {
                spec_saturating_add(current_len, new_entry_len)
            } else {
                let current_entry_len = match spec_extension_bytes(
                    tlv,
                    account_type,
                    extension_type,
                ) {
                    Ok(bytes) => spec_saturating_add(bytes.len() as int, HEADER_LEN as int),
                    Err(_) => 0,
                };
                spec_saturating_add(
                    spec_saturating_sub(current_len, current_entry_len),
                    new_entry_len,
                )
            };
            Ok(spec_adjust_len_for_multisig(new_len) as usize)
        },
    }
}

/// The value of type `V` that is stored in the entries `tlv` behind a base
/// record of kind `account_type`: the bytes of its entry, which must be as
/// many as `V` has (`InvalidArgument`).
pub open spec fn spec_get_extension<V: Extension + Pod>(tlv: Seq<u8>, account_type: AccountType)
    -> Result<Seq<u8>, ProgramError> {
    match spec_extension_bytes(tlv, account_type, V::TYPE) {
        Err(e) => Err(e),
        Ok(bytes) => if bytes.len() == V::LEN {
            Ok(bytes)
        } else {
            Err(ProgramError::InvalidArgument)
        },
    }
}

/// Whether `r` is what the lookup of the value of type `V` gives in the
/// entries `tlv`: the value whose bytes are stored, or the error of
/// `spec_get_extension`.
pub open spec fn spec_is_extension<V: Extension + Pod>(
    tlv: Seq<u8>,
    account_type: AccountType,
    r: Result<V, ProgramError>,
) -> bool {
    match spec_get_extension::<V>(tlv, account_type) {
        Ok(bytes) => r matches Ok(found) && found.spec_bytes() == bytes,
        Err(e) => r matches Err(f) && f == e,
    }
}

/// Trait for base state with extension
pub trait BaseStateWithExtensions<S: BaseState> {
    /// The bytes that hold the entries.
    spec fn spec_tlv(&self) -> Seq<u8>;

    /// Get the buffer containing all extension data
    fn get_tlv_data(&self) -> (r: &[u8])
        ensures
            r@ == self.spec_tlv(),
    ;

    /// Fetch the bytes for a TLV entry
    fn get_extension_bytes<V: Extension>(&self) -> (r: Result<&[u8], ProgramError>)
        ensures
            match spec_extension_bytes(self.spec_tlv(), S::ACCOUNT_TYPE, V::TYPE) {
                Ok(bytes) => r matches Ok(found) && found@ == bytes,
                Err(e) => r matches Err(f) && f == e,
            },
    {
        get_extension_bytes(self.get_tlv_data(), S::ACCOUNT_TYPE, V::TYPE)
    }

    /// Unpack a portion of the TLV data as the desired type
    fn get_extension<V: Extension + Pod>(&self) -> (r: Result<V, ProgramError>)
        ensures
            spec_is_extension::<V>(self.spec_tlv(), S::ACCOUNT_TYPE, r),
    {
        match get_extension_bytes(self.get_tlv_data(), S::ACCOUNT_TYPE, V::TYPE) {
            Ok(bytes) => {
                if bytes.len() == V::LEN {
                    Ok(V::unpack(bytes))
                } else {
                    Err(ProgramError::InvalidArgument)
                }
            },
            Err(e) => Err(e),
        }
    }

    /// Iterates through the TLV entries, returning only the types
    fn get_extension_types(&self) -> (r: Result<Vec<ExtensionType>, ProgramError>)
        ensures
            match spec_tlv_info(self.spec_tlv(), 0) {
                Ok(info) => r matches Ok(found) && found@ == info.types,
                Err(e) => r matches Err(f) && f == e,
            },
    {
        match get_tlv_data_info(self.get_tlv_data()) {
            Ok(info) => Ok(info.extension_types),
            Err(e) => Err(e),
        }
    }

    /// Get just the first extension type, useful to track mixed initializations
    fn get_first_extension_type(&self) -> (r: Result<Option<ExtensionType>, ProgramError>)
        ensures
            r == spec_first_extension_type(self.spec_tlv()),
    {
        get_first_extension_type(self.get_tlv_data())
    }

    /// Get the total number of bytes used by TLV entries and the base type
    fn try_get_account_len(&self) -> (r: Result<usize, ProgramError>)
        ensures
            r == spec_try_get_account_len(self.spec_tlv(), S::LEN as int),
    {
        let tlv_info = match get_tlv_data_info(self.get_tlv_data()) {
            Ok(info) => info,
            Err(e) => {
                return Err(e);
            },
        };
        if tlv_info.extension_types.len() == 0 {
            Ok(S::LEN)
        } else {
            let total_len = tlv_info.used_len.saturating_add(BASE_ACCOUNT_AND_TYPE_LENGTH);
            Ok(adjust_len_for_multisig(total_len))
        }
    }

    /// Calculate the new expected size if the state allocates the given number
    /// of bytes for the given extension type.
    ///
    /// Provides the correct answer regardless if the extension is already present
    /// in the TLV data.
    fn try_get_new_account_len<V: Extension>(&self, new_extension_len: usize) -> (r: Result<
        usize,
        ProgramError,
    >)
        ensures
            r == spec_try_get_new_account_len(
                self.spec_tlv(),
                S::ACCOUNT_TYPE,
                V::TYPE,
                new_extension_len as int,
            ),
    {
        // get the new length used by the extension
        let new_extension_len = add_type_and_length_to_len(new_extension_len);
        let tlv_data = self.get_tlv_data();
        let tlv_info = match get_tlv_data_info(tlv_data) {
            Ok(info) => info,
            Err(e) => {
                return Err(e);
            },
        };
        // If we're adding an extension, then we must have at least BASE_ACCOUNT_LENGTH
        // and account type
        let current_len = tlv_info.used_len.saturating_add(BASE_ACCOUNT_AND_TYPE_LENGTH);
        let new_len = if tlv_info.extension_types.len() == 0 {
            current_len.saturating_add(new_extension_len)
        } else {
            // get the current length used by the extension
            let current_extension_len = match get_extension_bytes(
                tlv_data,
                S::ACCOUNT_TYPE,
                V::TYPE,
            ) {
                Ok(bytes) => add_type_and_length_to_len(bytes.len()),
                Err(_) => 0,
            };
            current_len.saturating_sub(current_extension_len).saturating_add(new_extension_len)
        };
        Ok(adjust_len_for_multisig(new_len))
    }
}

impl<S: BaseState> BaseStateWithExtensions<S> for StateWithExtensionsOwned<S> {
    open spec fn spec_tlv(&self) -> Seq<u8> {
        self.tlv_data@
    }

    fn get_tlv_data(&self) -> (r: &[u8]) {
        self.tlv_data.as_slice()
    }
}

impl<'data, S: BaseState> BaseStateWithExtensions<S> for StateWithExtensions<'data, S> {
    open spec fn spec_tlv(&self) -> Seq<u8> {
        self.tlv_data@
    }

    fn get_tlv_data(&self) -> (r: &[u8]) {
        self.tlv_data
    }
}

} // verus!

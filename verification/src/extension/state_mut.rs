//! The view through which a borrowed buffer is rewritten in place.

use crate::error::{ProgramError, TokenError};
use crate::extension::entry::{
    alloc_internal, realloc, spec_alloc, spec_realloc, spec_realloc_bytes, spec_with_entry,
};
use crate::extension::registry::{
    AccountType, BaseState, Extension, ExtensionType, BASE_ACCOUNT_LENGTH, HEADER_LEN,
};
use crate::extension::scan::{
    get_extension_bytes_mut, get_extension_range, get_first_extension_type, range_mut,
    spec_extension_range, spec_first_extension_type, spec_tlv_info, spec_with_value,
};
use crate::extension::view::{
    spec_account_type_bytes, spec_account_type_offset, spec_get_extension, spec_is_extended,
    spec_padding, spec_tlv_data, spec_unpack_state, spec_unpack_uninitialized, unpack_parts,
    BaseStateWithExtensions, Pod,
};
use vstd::prelude::*;

verus! {

/// Encapsulates mutable base state data (mint or account) with possible extensions
#[derive(Debug, PartialEq)]
pub struct StateWithExtensionsMut<'data, S: BaseState> {
    /// Unpacked base data
    pub base: S,
    /// Raw base data
    pub base_data: &'data mut [u8],
    /// Writable account type
    pub account_type: &'data mut [u8],
    /// Slice of data containing all TLV data, deserialized on demand
    pub tlv_data: &'data mut [u8],
}

impl<'data, S: BaseState> StateWithExtensionsMut<'data, S> {
    /// Whether the parts have the lengths that unpacking gives them: a whole
    /// base record, and a kind marker of one byte or none.
    pub open spec fn wf(&self) -> bool {
        &&& self.base_data@.len() == S::LEN
        &&& self.account_type@.len() <= 1
    }

    /// Cuts `input` into its parts around the base record `base`.
    fn split(input: &'data mut [u8], base: S, extended: bool) -> (r: Self)
        requires
            S::LEN <= old(input)@.len(),
            extended == spec_is_extended::<S>(old(input)@),
            extended ==> spec_account_type_offset::<S>() + 1 < old(input)@.len(),
        ensures
            r.base == base,
            r.wf(),
            r.base_data@ == old(input)@.subrange(0, S::LEN as int),
            r.account_type@ == spec_account_type_bytes::<S>(old(input)@),
            r.tlv_data@ == spec_tlv_data::<S>(old(input)@),
            final(input)@ == final(r.base_data)@ + spec_padding::<S>(old(input)@)
                + final(r.account_type)@ + final(r.tlv_data)@,
    {
        let _ = input.len();
        let (base_data, rest) = input.split_at_mut(S::LEN);
        if extended {
            let account_type_index = BASE_ACCOUNT_LENGTH.saturating_sub(S::LEN);
            let (head, tlv_data) = rest.split_at_mut(account_type_index + 1);
            let (padding, account_type) = head.split_at_mut(account_type_index);
            proof {
                assert(padding@ =~= spec_padding::<S>(old(input)@));
                assert(account_type@ =~= spec_account_type_bytes::<S>(old(input)@));
                assert(tlv_data@ =~= spec_tlv_data::<S>(old(input)@));
                let behind = final(padding)@ + final(account_type)@ + final(tlv_data)@;
                assert(final(base_data)@ + behind =~= final(base_data)@ + final(padding)@
                    + final(account_type)@ + final(tlv_data)@);
            }
            Self { base, base_data, account_type, tlv_data }
        } else {
            let (account_type, tlv_data) = rest.split_at_mut(0);
            proof {
                assert(account_type@ =~= Seq::<u8>::empty());
                assert(tlv_data@ =~= Seq::<u8>::empty());
                let parts = final(account_type)@ + final(tlv_data)@;
                assert(final(base_data)@ + parts =~= final(base_data)@ + Seq::<u8>::empty()
                    + final(account_type)@ + final(tlv_data)@);
            }
            Self { base, base_data, account_type, tlv_data }
        }
    }

    /// Unpack base state, leaving the extension data as a mutable slice
    ///
    /// Fails if the base state is not initialized. What is written through
    /// the parts of the view is written to `input`; a call that fails leaves
    /// `input` as it is.
    pub fn unpack(input: &'data mut [u8]) -> (r: Result<Self, ProgramError>)
        ensures
            match spec_unpack_state::<S>(old(input)@) {
                Ok(base) => r matches Ok(state) && state.base@ == base && state.wf()
                    && state.base_data@ == old(input)@.subrange(0, S::LEN as int)
                    && state.account_type@ == spec_account_type_bytes::<S>(old(input)@)
                    && state.tlv_data@ == spec_tlv_data::<S>(old(input)@) && final(input)@
                    == final(state.base_data)@ + spec_padding::<S>(old(input)@)
                        + final(state.account_type)@ + final(state.tlv_data)@,
                Err(e) => r matches Err(f) && f == e && final(input)@ == old(input)@,
            },
    {
        match unpack_parts::<S>(input, false) {
            Ok((base, extended)) => Ok(Self::split(input, base, extended)),
            Err(e) => Err(e),
        }
    }

    /// Unpack an uninitialized base state, leaving the extension data as a mutable slice
    ///
    /// Fails if the base state has already been initialized. What is written
    /// through the parts of the view is written to `input`; a call that fails
    /// leaves `input` as it is.
    pub fn unpack_uninitialized(input: &'data mut [u8]) -> (r: Result<Self, ProgramError>)
        ensures
            match spec_unpack_uninitialized::<S>(old(input)@) {
                Ok(base) => r matches Ok(state) && state.base@ == base && state.wf()
                    && state.base_data@ == old(input)@.subrange(0, S::LEN as int)
                    && state.account_type@ == spec_account_type_bytes::<S>(old(input)@)
                    && state.tlv_data@ == spec_tlv_data::<S>(old(input)@) && final(input)@
                    == final(state.base_data)@ + spec_padding::<S>(old(input)@)
                        + final(state.account_type)@ + final(state.tlv_data)@,
                Err(e) => r matches Err(f) && f == e && final(input)@ == old(input)@,
            },
    {
        match unpack_parts::<S>(input, true) {
            Ok((base, extended)) => Ok(Self::split(input, base, extended)),
            Err(e) => Err(e),
        }
    }

    /// Unpack a portion of the TLV data as the base mutable bytes
    pub fn get_extension_bytes_mut<V: Extension>(&mut self) -> (r: Result<
        &mut [u8],
        ProgramError,
    >)
        ensures
            final(self).base == old(self).base,
            final(self).base_data@ == old(self).base_data@,
            final(self).account_type@ == old(self).account_type@,
            final(final(self).base_data)@ == final(old(self).base_data)@,
            final(final(self).account_type)@ == final(old(self).account_type)@,
            final(final(self).tlv_data)@ == final(old(self).tlv_data)@,
            match spec_extension_range(old(self).tlv_data@, S::ACCOUNT_TYPE, V::TYPE) {
                Ok((from, to)) => {
                    &&& r matches Ok(found)
                    &&& found@ == old(self).tlv_data@.subrange(from, to)
                    &&& final(self).tlv_data@ == spec_with_value(
                        old(self).tlv_data@,
                        from,
                        to,
                        final(found)@,
                    )
                },
                Err(e) => {
                    &&& r matches Err(f)
                    &&& f == e
                    &&& final(self).tlv_data@ == old(self).tlv_data@
                },
            },
    {
        get_extension_bytes_mut(self.tlv_data, S::ACCOUNT_TYPE, V::TYPE)
    }

    /// Unpack a portion of the TLV data as the bytes of a value of type `V`, for
    /// writing: the bytes of the entry, which must be as many as `V` has
    /// (`InvalidArgument`).
    pub fn get_extension_mut<V: Extension + Pod>(&mut self) -> (r: Result<&mut [u8], ProgramError>)
        ensures
            final(self).base == old(self).base,
            final(self).base_data@ == old(self).base_data@,
            final(self).account_type@ == old(self).account_type@,
            final(final(self).base_data)@ == final(old(self).base_data)@,
            final(final(self).account_type)@ == final(old(self).account_type)@,
            final(final(self).tlv_data)@ == final(old(self).tlv_data)@,
            match spec_get_extension::<V>(old(self).tlv_data@, S::ACCOUNT_TYPE) {
                Ok(bytes) => {
                    let (from, to) = spec_extension_range(
                        old(self).tlv_data@,
                        S::ACCOUNT_TYPE,
                        V::TYPE,
                    ).unwrap();
                    &&& r matches Ok(found)
                    &&& found@ == bytes
                    &&& final(self).tlv_data@ == spec_with_value(
                        old(self).tlv_data@,
                        from,
                        to,
                        final(found)@,
                    )
                },
                Err(e) => {
                    &&& r matches Err(f)
                    &&& f == e
                    &&& final(self).tlv_data@ == old(self).tlv_data@
                },
            },
    {
        let _ = self.tlv_data.len();
        match get_extension_range(self.tlv_data, S::ACCOUNT_TYPE, V::TYPE) {
            Ok((value_start, value_end)) => {
                if value_end - value_start == V::LEN {
                    Ok(range_mut(self.tlv_data, value_start, value_end))
                } else {
                    Err(ProgramError::InvalidArgument)
                }
            },
            Err(e) => Err(e),
        }
    }

    /// Packs base state data into the base data portion
    pub fn pack_base(&mut self)
        requires
            old(self).wf(),
        ensures
            final(self).wf(),
            final(self).base == old(self).base,
            final(self).base_data@ == S::spec_pack(old(self).base@, old(self).base_data@),
            final(self).account_type@ == old(self).account_type@,
            final(self).tlv_data@ == old(self).tlv_data@,
            final(final(self).base_data)@ == final(old(self).base_data)@,
            final(final(self).account_type)@ == final(old(self).account_type)@,
            final(final(self).tlv_data)@ == final(old(self).tlv_data)@,
    {
        proof {
            self.base.lemma_unpack_packed(self.base_data@);
        }
        S::pack_into_slice(&self.base, self.base_data);
    }

    /// Packs the default extension data into an open slot if not already found in the
    /// data buffer. If extension is already found in the buffer, it overwrites the existing
    /// extension with the default state if `overwrite` is set. If extension found, but
    /// `overwrite` is not set, it returns error.
    ///
    /// Lends the bytes of the new value. A call that fails writes nothing; one
    /// for a type of the other kind of base record always fails.
    pub fn init_extension<V: Extension + Pod>(&mut self, overwrite: bool) -> (r: Result<
        &mut [u8],
        ProgramError,
    >)
        ensures
            final(self).base == old(self).base,
            final(self).base_data@ == old(self).base_data@,
            final(self).account_type@ == old(self).account_type@,
            final(final(self).base_data)@ == final(old(self).base_data)@,
            final(final(self).account_type)@ == final(old(self).account_type)@,
            final(final(self).tlv_data)@ == final(old(self).tlv_data)@,
            V::TYPE.spec_account_type() != S::ACCOUNT_TYPE ==> r is Err,
            match spec_alloc(
                old(self).tlv_data@,
                S::ACCOUNT_TYPE,
                V::TYPE,
                V::LEN as int,
                overwrite,
            ) {
                Ok(p) => {
                    &&& r matches Ok(value)
                    &&& value@ == V::spec_default_bytes()
                    &&& final(self).tlv_data@ == spec_with_entry(
                        old(self).tlv_data@,
                        p,
                        V::TYPE,
                        V::LEN as int,
                        final(value)@,
                    )
                },
                Err(e) => {
                    &&& r matches Err(f)
                    &&& f == e
                    &&& final(self).tlv_data@ == old(self).tlv_data@
                },
            },
    {
        let length = V::LEN;
        match alloc_internal(self.tlv_data, S::ACCOUNT_TYPE, V::TYPE, length, overwrite) {
            Ok(buffer) => {
                let value = V::default_value();
                value.pack_into_slice(buffer);
                Ok(buffer)
            },
            Err(e) => Err(e),
        }
    }

    /// Reallocate the TLV entry for the given extension to the given number of bytes.
    ///
    /// If the new length is smaller, it will compact the rest of the buffer and zero out
    /// the difference at the end. If it's larger, it will move the rest of
    /// the buffer data and zero out the new data.
    ///
    /// Returns an error if the extension is not present, or if this is not enough
    /// space in the buffer; a call that fails writes nothing.
    pub fn realloc<V: Extension>(&mut self, length: usize) -> (r: Result<&mut [u8], ProgramError>)
        requires
            V::TYPE != ExtensionType::Uninitialized,
        ensures
            final(self).base == old(self).base,
            final(self).base_data@ == old(self).base_data@,
            final(self).account_type@ == old(self).account_type@,
            final(final(self).base_data)@ == final(old(self).base_data)@,
            final(final(self).account_type)@ == final(old(self).account_type)@,
            final(final(self).tlv_data)@ == final(old(self).tlv_data)@,
            match spec_realloc(old(self).tlv_data@, V::TYPE, length as int) {
                Ok(p) => {
                    let after = spec_realloc_bytes(
                        old(self).tlv_data@,
                        p,
                        length as int,
                        spec_tlv_info(old(self).tlv_data@, 0).unwrap().used_len,
                    );
                    &&& r matches Ok(value)
                    &&& value@.len() == length
                    &&& after.len() == old(self).tlv_data@.len()
                    &&& value@ == after.subrange(p + HEADER_LEN, p + HEADER_LEN + length)
                    &&& final(self).tlv_data@ == spec_with_value(
                        after,
                        p + HEADER_LEN,
                        p + HEADER_LEN + length,
                        final(value)@,
                    )
                },
                Err(e) => {
                    &&& r matches Err(f)
                    &&& f == e
                    &&& final(self).tlv_data@ == old(self).tlv_data@
                },
            },
    {
        realloc(self.tlv_data, V::TYPE, length)
    }

    /// Allocate the given number of bytes for the given unsized extension
    ///
    /// This can only be used for variable-sized types, such as `String` or `Vec`.
    /// `Pod` types must use `init_extension`
    ///
    /// Lends the bytes of the value. A call that fails writes nothing; one
    /// for a type of the other kind of base record always fails.
    pub fn allocate<V: Extension>(&mut self, length: usize, overwrite: bool) -> (r: Result<
        &mut [u8],
        ProgramError,
    >)
        ensures
            final(self).base == old(self).base,
            final(self).base_data@ == old(self).base_data@,
            final(self).account_type@ == old(self).account_type@,
            final(final(self).base_data)@ == final(old(self).base_data)@,
            final(final(self).account_type)@ == final(old(self).account_type)@,
            final(final(self).tlv_data)@ == final(old(self).tlv_data)@,
            V::TYPE.spec_account_type() != S::ACCOUNT_TYPE ==> r == Err::<&mut [u8], ProgramError>(
                ProgramError::InvalidAccountData,
            ),
            match spec_alloc(
                old(self).tlv_data@,
                S::ACCOUNT_TYPE,
                V::TYPE,
                length as int,
                overwrite,
            ) {
                Ok(p) => {
                    &&& r matches Ok(value)
                    &&& value@.len() == length
                    &&& value@ == old(self).tlv_data@.subrange(
                        p + HEADER_LEN,
                        p + HEADER_LEN + length,
                    )
                    &&& final(self).tlv_data@ == spec_with_entry(
                        old(self).tlv_data@,
                        p,
                        V::TYPE,
                        length as int,
                        final(value)@,
                    )
                },
                Err(e) => {
                    &&& r matches Err(f)
                    &&& f == e
                    &&& final(self).tlv_data@ == old(self).tlv_data@
                },
            },
    {
        alloc_internal(self.tlv_data, S::ACCOUNT_TYPE, V::TYPE, length, overwrite)
    }

    /// Write the account type into the buffer, done during the base
    /// state initialization
    /// Noops if there is no room for an extension in the account, needed for
    /// pure base mints / accounts.
    ///
    /// Fails, and writes nothing, where the first tag is not assigned
    /// (`InvalidAccountData`) or the first entry belongs to the other kind of
    /// base record (`ExtensionBaseMismatch`).
    pub fn init_account_type(&mut self) -> (r: Result<(), ProgramError>)
        requires
            old(self).wf(),
        ensures
            final(self).wf(),
            final(self).base == old(self).base,
            final(self).base_data@ == old(self).base_data@,
            final(self).tlv_data@ == old(self).tlv_data@,
            final(final(self).base_data)@ == final(old(self).base_data)@,
            final(final(self).account_type)@ == final(old(self).account_type)@,
            final(final(self).tlv_data)@ == final(old(self).tlv_data)@,
            r == spec_init_account_type(
                old(self).account_type@,
                old(self).tlv_data@,
                S::ACCOUNT_TYPE,
            ),
            final(self).account_type@ == if r is Ok && old(self).account_type@.len() > 0 {
                seq![S::ACCOUNT_TYPE.spec_code()]
            } else {
                old(self).account_type@
            },
    {
        if self.account_type.len() != 0 {
            match get_first_extension_type(self.tlv_data) {
                Err(e) => {
                    return Err(e);
                },
                Ok(Some(extension_type)) => {
                    let account_type = extension_type.get_account_type();
                    if account_type != S::ACCOUNT_TYPE {
                        return Err(ProgramError::Token(TokenError::ExtensionBaseMismatch));
                    }
                },
                Ok(None) => {},
            }
            self.account_type[0] = S::ACCOUNT_TYPE.code();
            assert(self.account_type@ =~= seq![S::ACCOUNT_TYPE.spec_code()]);
        }
        Ok(())
    }
}

/// Whether the kind marker `account_type` of a buffer with the entries `tlv`
/// can be set to `kind`: always where the buffer has no marker; else the first
/// tag must be assigned (`InvalidAccountData`) and the first entry, if there
/// is one, must belong to `kind` (`ExtensionBaseMismatch`).
pub open spec fn spec_init_account_type(account_type: Seq<u8>, tlv: Seq<u8>, kind: AccountType)
    -> Result<(), ProgramError> {
    if account_type.len() == 0 {
        Ok(())
    } else {
        match spec_first_extension_type(tlv) {
            Err(e) => Err(e),
            Ok(Some(t)) => if t.spec_account_type() != kind {
                Err(ProgramError::Token(TokenError::ExtensionBaseMismatch))
            } else {
                Ok(())
            },
            Ok(None) => Ok(()),
        }
    }
}

impl<'a, S: BaseState> BaseStateWithExtensions<S> for StateWithExtensionsMut<'a, S> {
    open spec fn spec_tlv(&self) -> Seq<u8> {
        self.tlv_data@
    }

    fn get_tlv_data(&self) -> (r: &[u8]) {
        self.tlv_data
    }
}

} // verus!

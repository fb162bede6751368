//! Writing the bytes of a value of variable length into a buffer that its
//! owner has provisioned: as a new entry, or in place of the value of an
//! existing one.

use crate::error::ProgramError;
use crate::extension::entry::{spec_alloc, spec_realloc, spec_realloc_bytes, spec_with_entry};
use crate::extension::init::{set_account_type, spec_set_account_type};
use crate::extension::registry::{
    BaseState, Extension, ExtensionType, BASE_ACCOUNT_LENGTH, HEADER_LEN,
};
use crate::extension::scan::{spec_extension_range, spec_tlv_info, spec_with_value};
use crate::extension::state_mut::StateWithExtensionsMut;
use crate::extension::view::{
    spec_account_type_offset, spec_tlv_data, spec_try_get_new_account_len, spec_unpack_state,
    BaseStateWithExtensions, StateWithExtensions,
};
use crate::pod::{splice, write_at};
use vstd::prelude::*;

verus! {

/// The length that the buffer of an account of `previous_len` bytes needs
/// once its entry of type `extension_type` has `value_len` bytes of value:
/// the account is unpacked (`spec_unpack_state`) and its entries are counted
/// (`spec_try_get_new_account_len`).
pub open spec fn spec_needed_len<S: BaseState>(
    data: Seq<u8>,
    previous_len: int,
    extension_type: ExtensionType,
    value_len: int,
) -> Result<usize, ProgramError> {
    let account = data.subrange(0, previous_len);
    match spec_unpack_state::<S>(account) {
        Err(e) => Err(e),
        Ok(_) => spec_try_get_new_account_len(
            spec_tlv_data::<S>(account),
            S::ACCOUNT_TYPE,
            extension_type,
            value_len,
        ),
    }
}

/// Computes the length that the account in the first `previous_account_len`
/// bytes of `data` needs for a value of `value_len` bytes: see
/// `spec_needed_len`.
pub fn needed_len<S: BaseState, V: Extension>(
    data: &[u8],
    previous_account_len: usize,
    value_len: usize,
) -> (r: Result<usize, ProgramError>)
    requires
        previous_account_len <= data@.len(),
    ensures
        r == spec_needed_len::<S>(data@, previous_account_len as int, V::TYPE, value_len as int),
{
    let account = &data[0..previous_account_len];
    match StateWithExtensions::<S>::unpack(account) {
        Ok(state) => state.try_get_new_account_len::<V>(value_len),
        Err(e) => Err(e),
    }
}

/// `data` with the entries behind the kind marker replaced by `tlv`.
pub open spec fn spec_with_tlv<S: BaseState>(data: Seq<u8>, tlv: Seq<u8>) -> Seq<u8> {
    data.subrange(0, spec_account_type_offset::<S>() + 1) + tlv
}

/// The buffer after the kind marker is set where the account had no entries
/// before: see `spec_set_account_type`. An account that was longer than a
/// base record keeps its marker.
pub open spec fn spec_marked<S: BaseState>(data: Seq<u8>, previous_len: int) -> Result<
    Seq<u8>,
    ProgramError,
> {
    if previous_len <= BASE_ACCOUNT_LENGTH {
        match spec_set_account_type::<S>(data) {
            Err(e) => Err(e),
            Ok(_) => Ok(data.update(spec_account_type_offset::<S>(), S::ACCOUNT_TYPE.spec_code())),
        }
    } else {
        Ok(data)
    }
}

/// The buffer after `value` is stored as a new entry of type
/// `extension_type`.
///
/// The account in the first `previous_len` bytes must unpack and its needed
/// length must be computable (`spec_needed_len`); the kind marker is set where
/// the account had no entries (`spec_marked`); the whole buffer must unpack
/// then (`spec_unpack_state`), and the entry must be new and fit
/// (`spec_alloc`).
pub open spec fn spec_alloc_and_serialize<S: BaseState>(
    data: Seq<u8>,
    previous_len: int,
    extension_type: ExtensionType,
    value: Seq<u8>,
) -> Result<Seq<u8>, ProgramError> {
    match spec_needed_len::<S>(data, previous_len, extension_type, value.len() as int) {
        Err(e) => Err(e),
        Ok(_) => match spec_marked::<S>(data, previous_len) {
            Err(e) => Err(e),
            Ok(marked) => match spec_unpack_state::<S>(marked) {
                Err(e) => Err(e),
                Ok(_) => {
                    let tlv = spec_tlv_data::<S>(marked);
                    match spec_alloc(
                        tlv,
                        S::ACCOUNT_TYPE,
                        extension_type,
                        value.len() as int,
                        false,
                    ) {
                        Err(e) => Err(e),
                        Ok(p) => Ok(
                            spec_with_tlv::<S>(
                                marked,
                                spec_with_entry(tlv, p, extension_type, value.len() as int, value),
                            ),
                        ),
                    }
                },
            },
        },
    }
}

/// Unpacks `data` and stores `value_bytes` as a new entry of type `V`. A call
/// that fails writes nothing.
fn write_new_entry<S: BaseState, V: Extension>(data: &mut [u8], value_bytes: &[u8]) -> (r: Result<
    (),
    ProgramError,
>)
    ensures
        match spec_unpack_state::<S>(old(data)@) {
            Err(e) => r == Err::<(), ProgramError>(e) && final(data)@ == old(data)@,
            Ok(_) => {
                let tlv = spec_tlv_data::<S>(old(data)@);
                match spec_alloc(tlv, S::ACCOUNT_TYPE, V::TYPE, value_bytes@.len() as int, false) {
                    Err(e) => r == Err::<(), ProgramError>(e) && final(data)@ == old(data)@,
                    Ok(p) => r == Ok::<(), ProgramError>(()) && final(data)@ == spec_with_tlv::<S>(
                        old(data)@,
                        spec_with_entry(tlv, p, V::TYPE, value_bytes@.len() as int, value_bytes@),
                    ),
                }
            },
        },
{
    let ghost before = data@;
    let mut state = match StateWithExtensionsMut::<S>::unpack(data) {
        Ok(s) => s,
        Err(e) => {
            return Err(e);
        },
    };
    proof {
        assert(state.base_data@ + crate::extension::view::spec_padding::<S>(before)
            + state.account_type@ + state.tlv_data@ =~= before);
        assert(state.base_data@ + crate::extension::view::spec_padding::<S>(before)
            + state.account_type@ =~= before.subrange(
            0,
            before.len() - state.tlv_data@.len(),
        ));
    }
    match state.allocate::<V>(value_bytes.len(), false) {
        Ok(bytes) => {
            write_at(bytes, 0, value_bytes);
            proof {
                reveal(splice);
                assert(bytes@ =~= value_bytes@);
            }
            Ok(())
        },
        Err(e) => Err(e),
    }
}

/// Packs arbitrary bytes for an unsized extension into a new TLV space
///
/// The owner of the buffer has provisioned it beforehand: `data` is the
/// account as it was, `previous_account_len` bytes long, with the bytes that
/// it was grown by behind. The account type is written where the account had
/// no entries, then the entry is allocated and the bytes are written: see
/// `spec_alloc_and_serialize`. A call that fails leaves the buffer as it is.
pub fn alloc_and_serialize<S: BaseState, V: Extension>(
    data: &mut [u8],
    previous_account_len: usize,
    value_bytes: &[u8],
) -> (r: Result<(), ProgramError>)
    requires
        previous_account_len <= old(data)@.len(),
    ensures
        match spec_alloc_and_serialize::<S>(
            old(data)@,
            previous_account_len as int,
            V::TYPE,
            value_bytes@,
        ) {
            Ok(after) => r == Ok::<(), ProgramError>(()) && final(data)@ == after,
            Err(e) => r == Err::<(), ProgramError>(e) && final(data)@ == old(data)@,
        },
{
    let len = data.len();
    match needed_len::<S, V>(data, previous_account_len, value_bytes.len()) {
        Ok(_) => {},
        Err(e) => {
            return Err(e);
        },
    }
    // write the account type if needed, so that the next unpack works
    let marker_at = S::LEN.saturating_add(BASE_ACCOUNT_LENGTH.saturating_sub(S::LEN));
    let mut saved: u8 = 0;
    if previous_account_len <= BASE_ACCOUNT_LENGTH {
        if marker_at < len {
            saved = data[marker_at];
        }
        match set_account_type::<S>(data) {
            Ok(()) => {},
            Err(e) => {
                return Err(e);
            },
        }
    }
    // now alloc in the TLV buffer and write the data
    match write_new_entry::<S, V>(data, value_bytes) {
        Ok(()) => Ok(()),
        Err(e) => {
            if previous_account_len <= BASE_ACCOUNT_LENGTH {
                data[marker_at] = saved;
                assert(data@ =~= old(data)@);
            }
            Err(e)
        },
    }
}

/// The entries `tlv` after the value of the entry at `p` is replaced by
/// `value`, with the entries behind it moved as `spec_realloc_bytes` says.
pub open spec fn spec_restored(tlv: Seq<u8>, p: int, value: Seq<u8>) -> Seq<u8> {
    let after = spec_realloc_bytes(
        tlv,
        p,
        value.len() as int,
        spec_tlv_info(tlv, 0).unwrap().used_len,
    );
    spec_with_value(after, p + HEADER_LEN, p + HEADER_LEN + value.len(), value)
}

/// Whether the value of the entry of type `extension_type` has room for
/// `value_len` bytes: the buffer must unpack (`spec_unpack_state`), the entry
/// must exist (`spec_extension_range`), and its value must not be shorter
/// (`AccountDataTooSmall`).
pub open spec fn spec_room<S: BaseState>(
    data: Seq<u8>,
    extension_type: ExtensionType,
    value_len: int,
) -> Result<(int, int), ProgramError> {
    match spec_unpack_state::<S>(data) {
        Err(e) => Err(e),
        Ok(_) => match spec_extension_range(
            spec_tlv_data::<S>(data),
            S::ACCOUNT_TYPE,
            extension_type,
        ) {
            Err(e) => Err(e),
            Ok((from, to)) => if to - from < value_len {
                Err(ProgramError::AccountDataTooSmall)
            } else {
                Ok((from, to))
            },
        },
    }
}

/// Finds the value of the entry of type `V` and checks that it has room for
/// `value_len` bytes: see `spec_room`.
fn check_room<S: BaseState, V: Extension>(data: &[u8], value_len: usize) -> (r: Result<
    (),
    ProgramError,
>)
    ensures
        match spec_room::<S>(data@, V::TYPE, value_len as int) {
            Ok(_) => r == Ok::<(), ProgramError>(()),
            Err(e) => r == Err::<(), ProgramError>(e),
        },
{
    let state = match StateWithExtensions::<S>::unpack(data) {
        Ok(s) => s,
        Err(e) => {
            return Err(e);
        },
    };
    let _ = state.tlv_data.len();
    match crate::extension::scan::get_extension_range(state.tlv_data, S::ACCOUNT_TYPE, V::TYPE) {
        Ok((from, to)) => {
            if to - from < value_len {
                Err(ProgramError::AccountDataTooSmall)
            } else {
                Ok(())
            }
        },
        Err(e) => Err(e),
    }
}

/// Unpacks `data`, gives the entry of type `V` the length of `value_bytes`
/// and stores them in it. A call that fails writes nothing.
fn resize_entry<S: BaseState, V: Extension>(data: &mut [u8], value_bytes: &[u8]) -> (r: Result<
    (),
    ProgramError,
>)
    requires
        V::TYPE != ExtensionType::Uninitialized,
    ensures
        match spec_unpack_state::<S>(old(data)@) {
            Err(e) => r == Err::<(), ProgramError>(e) && final(data)@ == old(data)@,
            Ok(_) => {
                let tlv = spec_tlv_data::<S>(old(data)@);
                match spec_realloc(tlv, V::TYPE, value_bytes@.len() as int) {
                    Err(e) => r == Err::<(), ProgramError>(e) && final(data)@ == old(data)@,
                    Ok(p) => r == Ok::<(), ProgramError>(()) && final(data)@ == spec_with_tlv::<S>(
                        old(data)@,
                        spec_restored(tlv, p, value_bytes@),
                    ),
                }
            },
        },
{
    let ghost before = data@;
    let mut state = match StateWithExtensionsMut::<S>::unpack(data) {
        Ok(s) => s,
        Err(e) => {
            return Err(e);
        },
    };
    proof {
        assert(state.base_data@ + crate::extension::view::spec_padding::<S>(before)
            + state.account_type@ + state.tlv_data@ =~= before);
        assert(state.base_data@ + crate::extension::view::spec_padding::<S>(before)
            + state.account_type@ =~= before.subrange(
            0,
            before.len() - state.tlv_data@.len(),
        ));
    }
    match state.realloc::<V>(value_bytes.len()) {
        Ok(bytes) => {
            write_at(bytes, 0, value_bytes);
            proof {
                reveal(splice);
                assert(bytes@ =~= value_bytes@);
            }
            Ok(())
        },
        Err(e) => Err(e),
    }
}

/// Unpacks `data` and writes `value_bytes` over the front of the value of the
/// entry of type `V`. A call that fails writes nothing.
fn overwrite_front<S: BaseState, V: Extension>(data: &mut [u8], value_bytes: &[u8]) -> (r: Result<
    (),
    ProgramError,
>)
    ensures
        match spec_room::<S>(old(data)@, V::TYPE, value_bytes@.len() as int) {
            Err(e) => r == Err::<(), ProgramError>(e) && final(data)@ == old(data)@,
            Ok((from, _)) => {
                let tlv = spec_tlv_data::<S>(old(data)@);
                r == Ok::<(), ProgramError>(()) && final(data)@ == spec_with_tlv::<S>(
                    old(data)@,
                    spec_with_value(tlv, from, from + value_bytes@.len(), value_bytes@),
                )
            },
        },
{
    let ghost before = data@;
    let mut state = match StateWithExtensionsMut::<S>::unpack(data) {
        Ok(s) => s,
        Err(e) => {
            return Err(e);
        },
    };
    proof {
        assert(state.base_data@ + crate::extension::view::spec_padding::<S>(before)
            + state.account_type@ + state.tlv_data@ =~= before);
        assert(state.base_data@ + crate::extension::view::spec_padding::<S>(before)
            + state.account_type@ =~= before.subrange(
            0,
            before.len() - state.tlv_data@.len(),
        ));
    }
    let _ = state.tlv_data.len();
    let (from, to) = match crate::extension::scan::get_extension_range(
        state.tlv_data,
        S::ACCOUNT_TYPE,
        V::TYPE,
    ) {
        Ok(range) => range,
        Err(e) => {
            return Err(e);
        },
    };
    // This check avoids writing past the value, but it shouldn't ever happen
    if to - from < value_bytes.len() {
        return Err(ProgramError::AccountDataTooSmall);
    }
    write_at(state.tlv_data, from, value_bytes);
    proof {
        reveal(splice);
    }
    Ok(())
}

/// The buffer after `value` is stored in place of the value of the entry of
/// type `extension_type`.
///
/// The account in the first `previous_len` bytes must unpack and its needed
/// length must be computable (`spec_needed_len`). Where the account has to
/// grow, the entry is resized (`spec_realloc`) and takes the value. Where it
/// does not, the value of the entry must have room for the new one
/// (`spec_room`); the value is written over the front of the old one where
/// the account keeps its length, and the entry is resized and takes the
/// value where the account shrinks.
pub open spec fn spec_realloc_and_serialize<S: BaseState>(
    data: Seq<u8>,
    previous_len: int,
    extension_type: ExtensionType,
    value: Seq<u8>,
) -> Result<Seq<u8>, ProgramError> {
    let tlv = spec_tlv_data::<S>(data);
    match spec_needed_len::<S>(data, previous_len, extension_type, value.len() as int) {
        Err(e) => Err(e),
        Ok(new_len) => if previous_len < new_len {
            match spec_unpack_state::<S>(data) {
                Err(e) => Err(e),
                Ok(_) => match spec_realloc(tlv, extension_type, value.len() as int) {
                    Err(e) => Err(e),
                    Ok(p) => Ok(spec_with_tlv::<S>(data, spec_restored(tlv, p, value))),
                },
            }
        } else {
            match spec_room::<S>(data, extension_type, value.len() as int) {
                Err(e) => Err(e),
                Ok((from, _)) => if previous_len == new_len {
                    Ok(
                        spec_with_tlv::<S>(
                            data,
                            spec_with_value(tlv, from, from + value.len(), value),
                        ),
                    )
                } else {
                    match spec_realloc(tlv, extension_type, value.len() as int) {
                        Err(e) => Err(e),
                        Ok(p) => Ok(spec_with_tlv::<S>(data, spec_restored(tlv, p, value))),
                    }
                },
            }
        },
    }
}

/// Packs arbitrary bytes for an unsized extension into an existing TLV space
///
/// The owner of the buffer has provisioned it beforehand: `data` is the
/// account as it was, `previous_account_len` bytes long, with the bytes that
/// it was grown by behind; where the account shrinks, the owner cuts the
/// buffer afterwards. The entry is resized as the account needs and takes the
/// bytes: see `spec_realloc_and_serialize`. A call that fails leaves the
/// buffer as it is.
pub fn realloc_and_serialize<S: BaseState, V: Extension>(
    data: &mut [u8],
    previous_account_len: usize,
    new_value_bytes: &[u8],
) -> (r: Result<(), ProgramError>)
    requires
        previous_account_len <= old(data)@.len(),
        V::TYPE != ExtensionType::Uninitialized,
    ensures
        match spec_realloc_and_serialize::<S>(
            old(data)@,
            previous_account_len as int,
            V::TYPE,
            new_value_bytes@,
        ) {
            Ok(after) => r == Ok::<(), ProgramError>(()) && final(data)@ == after,
            Err(e) => r == Err::<(), ProgramError>(e) && final(data)@ == old(data)@,
        },
{
    let new_value_len = new_value_bytes.len();
    let new_account_len = match needed_len::<S, V>(data, previous_account_len, new_value_len) {
        Ok(n) => n,
        Err(e) => {
            return Err(e);
        },
    };
    if previous_account_len < new_account_len {
        // account size increased, so realloc the TLV entry, then write data
        resize_entry::<S, V>(data, new_value_bytes)
    } else if previous_account_len == new_account_len {
        overwrite_front::<S, V>(data, new_value_bytes)
    } else {
        // we decreased the size, so need to realloc the TLV
        match check_room::<S, V>(data, new_value_len) {
            Ok(()) => resize_entry::<S, V>(data, new_value_bytes),
            Err(e) => Err(e),
        }
    }
}

} // verus!

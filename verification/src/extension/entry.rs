//! Writing entries in place: claiming the slot of a new entry, and growing or
//! shrinking the value of an existing one.

use crate::error::{ProgramError, TokenError};
use crate::extension::registry::{AccountType, ExtensionType, Length, HEADER_LEN, TYPE_LEN};
use crate::extension::scan::{
    get_extension_indices, get_tlv_data_info, lemma_find_ok, lemma_tlv_info_bounds, range_mut,
    read_length, read_type, spec_entry_end, spec_find, spec_remaining, spec_tlv_info,
    spec_type_at, spec_value_len, spec_with_value,
};
use crate::pod::{
    copy_within, lemma_splice_index, spec_u16_bytes, splice, write_u16_at, zero_range, zeros,
};
use vstd::prelude::*;

verus! {

/// Where an entry of type `extension_type` with `length` bytes of value is
/// allocated in a buffer that follows a base record of kind `account_type`:
/// the offset of the entry's type tag.
///
/// A type of the other kind of base record is refused with
/// `InvalidAccountData` before anything else. The slot is the one that
/// `spec_find` gives for creation; the entry must fit between it and the end
/// of the buffer (`InvalidAccountData`). A slot that holds an entry already
/// is given only with `overwrite` (`ExtensionAlreadyInitialized`), and then
/// only for the length that the entry has (`InvalidLengthForAlloc`). A length
/// above sixteen bits is refused with `AccountDataTooSmall`.
pub open spec fn spec_alloc(
    tlv: Seq<u8>,
    account_type: AccountType,
    extension_type: ExtensionType,
    length: int,
    overwrite: bool,
) -> Result<int, ProgramError> {
    if extension_type.spec_account_type() != account_type {
        Err(ProgramError::InvalidAccountData)
    } else {
        match spec_find(tlv, 0, extension_type, true) {
            Err(e) => Err(e),
            Ok(p) => {
                let found = spec_type_at(tlv, p);
                if tlv.len() - p < length + HEADER_LEN {
                    Err(ProgramError::InvalidAccountData)
                } else if !(found == Some(ExtensionType::Uninitialized) || overwrite) {
                    Err(ProgramError::Token(TokenError::ExtensionAlreadyInitialized))
                } else if overwrite && found == Some(extension_type) && spec_value_len(tlv, p)
                    != length {
                    Err(ProgramError::Token(TokenError::InvalidLengthForAlloc))
                } else if length > u16::MAX {
                    Err(ProgramError::AccountDataTooSmall)
                } else {
                    Ok(p)
                }
            },
        }
    }
}

/// The header of an entry of type `extension_type` with `length` bytes of value.
pub open spec fn spec_header(extension_type: ExtensionType, length: int) -> Seq<u8> {
    spec_u16_bytes(extension_type.spec_code()) + spec_u16_bytes(length as u16)
}

/// `tlv` with an entry of type `extension_type` that holds the `length` bytes
/// `value` written at `p`.
pub open spec fn spec_with_entry(
    tlv: Seq<u8>,
    p: int,
    extension_type: ExtensionType,
    length: int,
    value: Seq<u8>,
) -> Seq<u8> {
    tlv.subrange(0, p) + spec_header(extension_type, length) + value + tlv.subrange(
        p + HEADER_LEN + length,
        tlv.len() as int,
    )
}

/// Claims the entry of type `extension_type` with `length` bytes of value and
/// lends the value: see `spec_alloc`. The header is written; the value holds
/// what the buffer held there. A call that fails writes nothing.
pub fn alloc_internal<'a>(
    tlv_data: &'a mut [u8],
    account_type: AccountType,
    extension_type: ExtensionType,
    length: usize,
    overwrite: bool,
) -> (r: Result<&'a mut [u8], ProgramError>)
    ensures
        match spec_alloc(old(tlv_data)@, account_type, extension_type, length as int, overwrite) {
            Ok(p) => {
                &&& r matches Ok(value)
                &&& value@.len() == length
                &&& value@ == old(tlv_data)@.subrange(p + HEADER_LEN, p + HEADER_LEN + length)
                &&& final(tlv_data)@ == spec_with_entry(
                    old(tlv_data)@,
                    p,
                    extension_type,
                    length as int,
                    final(value)@,
                )
            },
            Err(e) => r matches Err(f) && f == e && final(tlv_data)@ == old(tlv_data)@,
        },
{
    if extension_type.get_account_type() != account_type {
        return Err(ProgramError::InvalidAccountData);
    }
    let indices = match get_extension_indices(tlv_data, extension_type, true) {
        Ok(i) => i,
        Err(e) => {
            return Err(e);
        },
    };
    proof {
        lemma_find_ok(tlv_data@, 0, extension_type, true);
    }
    let type_start = indices.type_start;
    let data_len = tlv_data.len();
    if length > usize::MAX - HEADER_LEN || data_len - type_start < length + HEADER_LEN {
        return Err(ProgramError::InvalidAccountData);
    }
    let found = match read_type(tlv_data, type_start) {
        Ok(t) => t,
        Err(e) => {
            return Err(e);
        },
    };
    if found == ExtensionType::Uninitialized || overwrite {
        // check that the length is the same if we're doing an alloc
        // with overwrite, otherwise a realloc should be done
        if overwrite && found == extension_type && read_length(tlv_data, type_start) != length {
            return Err(ProgramError::Token(TokenError::InvalidLengthForAlloc));
        }
        let stored = match Length::try_from_usize(length) {
            Ok(l) => l,
            Err(e) => {
                return Err(e);
            },
        };
        // write extension type
        write_u16_at(tlv_data, type_start, extension_type.code());
        // write length
        write_u16_at(tlv_data, type_start + TYPE_LEN, stored.0);
        let ghost written = tlv_data@;
        let value_start = type_start + HEADER_LEN;
        let value = range_mut(tlv_data, value_start, value_start + length);
        proof {
            reveal(splice);
            assert(written.subrange(0, value_start as int) =~= old(tlv_data)@.subrange(
                0,
                type_start as int,
            ) + spec_header(extension_type, length as int));
            assert(written.subrange(value_start + length, written.len() as int) =~= old(
                tlv_data,
            )@.subrange(value_start + length, written.len() as int));
            assert(value@ =~= old(tlv_data)@.subrange(
                value_start as int,
                value_start + length,
            ));
        }
        Ok(value)
    } else {
        // extension is already initialized, but no overwrite permission
        Err(ProgramError::Token(TokenError::ExtensionAlreadyInitialized))
    }
}

/// The entry that a lookup finds lies among the entries of a well-formed
/// buffer: it ends where they end or before.
pub proof fn lemma_found_entry_is_used(tlv: Seq<u8>, start: int, target: ExtensionType)
    requires
        0 <= start <= tlv.len(),
        target != ExtensionType::Uninitialized,
        spec_find(tlv, start, target, false) is Ok,
        spec_tlv_info(tlv, start) is Ok,
    ensures
        spec_entry_end(tlv, spec_find(tlv, start, target, false).unwrap()) <= spec_tlv_info(
            tlv,
            start,
        ).unwrap().used_len,
        spec_tlv_info(tlv, start).unwrap().used_len <= tlv.len(),
    decreases spec_remaining(tlv, start),
{
    lemma_tlv_info_bounds(tlv, start);
    let t = spec_type_at(tlv, start).unwrap();
    let end = spec_entry_end(tlv, start);
    if t == target {
        lemma_tlv_info_bounds(tlv, end);
    } else {
        lemma_found_entry_is_used(tlv, end, target);
    }
}

/// Whether the entry of type `extension_type` can be given `length` bytes of
/// value in place, and where that entry starts.
///
/// The entry must exist and the buffer must be well formed (`spec_find`,
/// `spec_tlv_info`); a longer value must fit into what the buffer has free
/// behind its entries (`InvalidAccountData`), and `length` into sixteen bits
/// (`AccountDataTooSmall`).
pub open spec fn spec_realloc(tlv: Seq<u8>, extension_type: ExtensionType, length: int) -> Result<
    int,
    ProgramError,
> {
    match spec_find(tlv, 0, extension_type, false) {
        Err(e) => Err(e),
        Ok(p) => match spec_tlv_info(tlv, 0) {
            Err(e) => Err(e),
            Ok(info) => {
                let old_length = spec_value_len(tlv, p);
                if old_length < length && info.used_len + (length - old_length) > tlv.len() {
                    Err(ProgramError::InvalidAccountData)
                } else if length > u16::MAX {
                    Err(ProgramError::AccountDataTooSmall)
                } else {
                    Ok(p)
                }
            },
        },
    }
}

/// The buffer after the value of the entry at `p` goes from `old_length` to
/// `length` bytes, where `used` is the offset at which the entries end.
///
/// The length field holds `length`. The value keeps its first bytes, as many
/// as both lengths allow, and is zero behind them. The entries that follow
/// move so that they follow again. Where the value shrank, the bytes that the
/// entries no longer take are zero. All other bytes are as they were.
pub open spec fn spec_resized(tlv: Seq<u8>, p: int, old_length: int, length: int, used: int) -> Seq<
    u8,
> {
    let old_end = p + HEADER_LEN + old_length;
    let new_end = p + HEADER_LEN + length;
    let new_used = used + length - old_length;
    Seq::new(
        tlv.len(),
        |i: int|
            if i < p + TYPE_LEN {
                tlv[i]
            } else if i < p + HEADER_LEN {
                spec_u16_bytes(length as u16)[i - (p + TYPE_LEN)]
            } else if i < new_end {
                if i < old_end {
                    tlv[i]
                } else {
                    0u8
                }
            } else if i < new_used {
                tlv[i - length + old_length]
            } else if i < used {
                0u8
            } else {
                tlv[i]
            },
    )
}

/// The buffer after the value of the entry at `p` is given `length` bytes:
/// `spec_resized` from the length that the entry has.
pub open spec fn spec_realloc_bytes(tlv: Seq<u8>, p: int, length: int, used: int) -> Seq<u8> {
    spec_resized(tlv, p, spec_value_len(tlv, p), length, used)
}

/// Gives the value of the entry at `p` `length` bytes in place of
/// `old_length`, moving the entries behind it: see `spec_resized`.
pub fn resize_value(tlv_data: &mut [u8], p: usize, old_length: usize, length: usize, used: usize)
    requires
        p + HEADER_LEN + old_length <= used <= old(tlv_data)@.len(),
        used + length - old_length <= old(tlv_data)@.len(),
        length <= u16::MAX,
    ensures
        final(tlv_data)@ == spec_resized(
            old(tlv_data)@,
            p as int,
            old_length as int,
            length as int,
            used as int,
        ),
{
    let _ = tlv_data.len();
    let ghost s0 = tlv_data@;
    let value_start = p + HEADER_LEN;
    write_u16_at(tlv_data, p + TYPE_LEN, length as u16);
    let ghost s1 = tlv_data@;
    let old_value_end = value_start + old_length;
    let new_value_end = value_start + length;
    copy_within(tlv_data, old_value_end, used, new_value_end);
    let ghost s2 = tlv_data@;
    let ghost moved = s1.subrange(old_value_end as int, used as int);
    let ghost mut zero_at: int = 0;
    let ghost mut zero_len: nat = 0;
    if old_length > length {
        // realloc to smaller, zero out the end
        let new_tlv_len = used - (old_length - length);
        zero_range(tlv_data, new_tlv_len, used);
        proof {
            zero_at = new_tlv_len as int;
            zero_len = (used - new_tlv_len) as nat;
        }
    } else if old_length < length {
        // realloc to bigger, zero out the new bytes
        zero_range(tlv_data, old_value_end, new_value_end);
        proof {
            zero_at = old_value_end as int;
            zero_len = (new_value_end - old_value_end) as nat;
        }
    }
    proof {
        let expected = spec_resized(s0, p as int, old_length as int, length as int, used as int);
        let s3 = tlv_data@;
        assert(s3 == splice(s2, zero_at, zeros(zero_len))) by {
            if old_length == length {
                reveal(splice);
                assert(splice(s2, 0, zeros(0)) =~= s2);
            }
        }
        assert forall|i: int| 0 <= i < s0.len() implies s3[i] == expected[i] by {
            lemma_splice_index(s0, p + TYPE_LEN, spec_u16_bytes(length as u16), i);
            lemma_splice_index(s1, new_value_end as int, moved, i);
            lemma_splice_index(s2, zero_at, zeros(zero_len), i);
            if new_value_end <= i < new_value_end + moved.len() {
                lemma_splice_index(
                    s0,
                    p + TYPE_LEN,
                    spec_u16_bytes(length as u16),
                    i - new_value_end + old_value_end,
                );
            }
        }
        lemma_splice_index(s0, p + TYPE_LEN, spec_u16_bytes(length as u16), 0);
        lemma_splice_index(s1, new_value_end as int, moved, 0);
        lemma_splice_index(s2, zero_at, zeros(zero_len), 0);
        assert(s3 =~= expected);
    }
}

/// Reallocate the TLV entry for the given extension to the given number of bytes.
///
/// If the new length is smaller, it will compact the rest of the buffer and zero out
/// the difference at the end. If it's larger, it will move the rest of
/// the buffer data and zero out the new data.
///
/// Returns an error if the extension is not present, or if this is not enough
/// space in the buffer; a call that fails writes nothing.
pub fn realloc<'a>(tlv_data: &'a mut [u8], extension_type: ExtensionType, length: usize) -> (r:
    Result<&'a mut [u8], ProgramError>)
    requires
        extension_type != ExtensionType::Uninitialized,
    ensures
        match spec_realloc(old(tlv_data)@, extension_type, length as int) {
            Ok(p) => {
                let after = spec_realloc_bytes(
                    old(tlv_data)@,
                    p,
                    length as int,
                    spec_tlv_info(old(tlv_data)@, 0).unwrap().used_len,
                );
                &&& r matches Ok(value)
                &&& value@.len() == length
                &&& after.len() == old(tlv_data)@.len()
                &&& value@ == after.subrange(p + HEADER_LEN, p + HEADER_LEN + length)
                &&& final(tlv_data)@ == spec_with_value(
                    after,
                    p + HEADER_LEN,
                    p + HEADER_LEN + length,
                    final(value)@,
                )
            },
            Err(e) => r matches Err(f) && f == e && final(tlv_data)@ == old(tlv_data)@,
        },
{
    let indices = match get_extension_indices(tlv_data, extension_type, false) {
        Ok(i) => i,
        Err(e) => {
            return Err(e);
        },
    };
    let tlv_len = match get_tlv_data_info(tlv_data) {
        Ok(info) => info.used_len,
        Err(e) => {
            return Err(e);
        },
    };
    proof {
        lemma_find_ok(tlv_data@, 0, extension_type, false);
        lemma_found_entry_is_used(tlv_data@, 0, extension_type);
    }
    let data_len = tlv_data.len();
    let type_start = indices.type_start;
    let value_start = type_start + HEADER_LEN;
    let old_length = read_length(tlv_data, type_start);

    // Length check to avoid a panic later in `copy_within`
    if old_length < length {
        if length - old_length > data_len - tlv_len {
            return Err(ProgramError::InvalidAccountData);
        }
    }
    // write new length after the check, to avoid getting into a bad situation
    // if trying to recover from an error
    let stored = match Length::try_from_usize(length) {
        Ok(l) => l,
        Err(e) => {
            return Err(e);
        },
    };
    resize_value(tlv_data, type_start, old_length, length, tlv_len);
    let new_value_end = value_start + length;
    let value = range_mut(tlv_data, value_start, new_value_end);
    Ok(value)
}

} // verus!

//! The entry scanner: walks a buffer as a sequence of type, length and value,
//! and finds entries in it. Every offset into a buffer comes from here.

use crate::error::{ProgramError, TokenError};
use crate::extension::registry::{
    spec_saturating_add, AccountType, ExtensionType, BASE_ACCOUNT_LENGTH, HEADER_LEN,
    MULTISIG_LEN, TYPE_LEN,
};
use crate::pod::{all_zero, is_zero_prefix, lemma_le_2, spec_le, u16_from_le};
use vstd::prelude::*;

verus! {

/// Helper struct for returning the indices of the type, length, and value in
/// a TLV entry
#[derive(Debug)]
pub struct TlvIndices {
    pub type_start: usize,
    pub length_start: usize,
    pub value_start: usize,
}

/// The indices of the entry that starts at `type_start`, where none of them
/// passes the machine's range.
pub open spec fn spec_tlv_indices(type_start: int) -> TlvIndices {
    TlvIndices {
        type_start: type_start as usize,
        length_start: (type_start + TYPE_LEN) as usize,
        value_start: (type_start + HEADER_LEN) as usize,
    }
}

/// Helper function to get the current TlvIndices from the current spot
pub fn get_tlv_indices(type_start: usize) -> (r: TlvIndices)
    ensures
        type_start + HEADER_LEN <= usize::MAX ==> r == spec_tlv_indices(type_start as int),
        r.type_start == type_start,
        r.length_start == spec_saturating_add(type_start as int, TYPE_LEN as int),
        r.value_start == spec_saturating_add(type_start as int, HEADER_LEN as int),
{
    let length_start = type_start.saturating_add(TYPE_LEN);
    let value_start = length_start.saturating_add(TYPE_LEN);
    TlvIndices { type_start, length_start, value_start }
}

/// The tag stored at `at`.
pub open spec fn spec_type_code(tlv: Seq<u8>, at: int) -> u16 {
    spec_le(tlv.subrange(at, at + TYPE_LEN)) as u16
}

/// The type of the entry at `at`, where its tag is assigned.
pub open spec fn spec_type_at(tlv: Seq<u8>, at: int) -> Option<ExtensionType> {
    ExtensionType::spec_from_code(spec_type_code(tlv, at))
}

/// The length field of the entry at `at`.
pub open spec fn spec_value_len(tlv: Seq<u8>, at: int) -> int {
    spec_le(tlv.subrange(at + TYPE_LEN, at + HEADER_LEN)) as int
}

/// The offset just past the value of the entry at `at`.
pub open spec fn spec_entry_end(tlv: Seq<u8>, at: int) -> int {
    at + 4 + spec_value_len(tlv, at)
}

/// The number of bytes from `start` to the end of the buffer.
pub open spec fn spec_remaining(tlv: Seq<u8>, start: int) -> nat {
    if start < tlv.len() {
        (tlv.len() - start) as nat
    } else {
        0
    }
}

/// Where the scan for `target` that starts at the entry at `start` ends.
///
/// It stops with the offset of the first entry of type `target`, or, where
/// `init` is set, of the first unused slot. It fails where the header of an
/// entry leaves the buffer or a tag is not assigned (`InvalidAccountData`),
/// where an unused slot comes first and `init` is not set
/// (`ExtensionNotFound`), and where an entry of the other kind of base record
/// comes first (`ExtensionTypeMismatch`).
pub open spec fn spec_find(tlv: Seq<u8>, start: int, target: ExtensionType, init: bool) -> Result<
    int,
    ProgramError,
>
    decreases spec_remaining(tlv, start),
{
    if start < 0 || start >= tlv.len() || tlv.len() < start + HEADER_LEN {
        Err(ProgramError::InvalidAccountData)
    } else {
        match spec_type_at(tlv, start) {
            None => Err(ProgramError::InvalidAccountData),
            Some(t) => {
                if t == target {
                    Ok(start)
                } else if t == ExtensionType::Uninitialized {
                    if init {
                        Ok(start)
                    } else {
                        Err(ProgramError::Token(TokenError::ExtensionNotFound))
                    }
                } else if t.spec_account_type() != target.spec_account_type() {
                    Err(ProgramError::Token(TokenError::ExtensionTypeMismatch))
                } else {
                    spec_find(tlv, spec_entry_end(tlv, start), target, init)
                }
            },
        }
    }
}

/// What a found offset is: the header of its entry lies in the buffer, and the
/// entry has the type that was looked for or, where `init` is set, is unused.
pub proof fn lemma_find_ok(tlv: Seq<u8>, start: int, target: ExtensionType, init: bool)
    requires
        spec_find(tlv, start, target, init) is Ok,
    ensures
        ({
            let p = spec_find(tlv, start, target, init).unwrap();
            &&& 0 <= start <= p
            &&& p + HEADER_LEN <= tlv.len()
            &&& spec_type_at(tlv, p) == Some(target) || (init && spec_type_at(tlv, p) == Some(
                ExtensionType::Uninitialized,
            ))
        }),
    decreases spec_remaining(tlv, start),
{
    let t = spec_type_at(tlv, start).unwrap();
    if t != target && t != ExtensionType::Uninitialized {
        lemma_find_ok(tlv, spec_entry_end(tlv, start), target, init);
    }
}

/// Reads the tag at `at`.
pub fn read_type(tlv_data: &[u8], at: usize) -> (r: Result<ExtensionType, ProgramError>)
    requires
        at + TYPE_LEN <= tlv_data@.len(),
    ensures
        match spec_type_at(tlv_data@, at as int) {
            Some(t) => r == Ok::<ExtensionType, ProgramError>(t),
            None => r == Err::<ExtensionType, ProgramError>(ProgramError::InvalidAccountData),
        },
{
    let _ = tlv_data.len();
    let bytes = &tlv_data[at..at + TYPE_LEN];
    ExtensionType::from_code(u16_from_le(bytes))
}

/// Reads the length field of the entry at `at`.
pub fn read_length(tlv_data: &[u8], at: usize) -> (r: usize)
    requires
        at + HEADER_LEN <= tlv_data@.len(),
    ensures
        r == spec_value_len(tlv_data@, at as int),
        r <= u16::MAX,
{
    let _ = tlv_data.len();
    let bytes = &tlv_data[at + TYPE_LEN..at + HEADER_LEN];
    proof {
        lemma_le_2(bytes@);
    }
    u16_from_le(bytes) as usize
}

/// Finds the entry of type `extension_type`, or, with `init`, the slot where
/// such an entry can be written: see `spec_find`.
pub fn get_extension_indices(tlv_data: &[u8], extension_type: ExtensionType, init: bool) -> (r:
    Result<TlvIndices, ProgramError>)
    ensures
        match spec_find(tlv_data@, 0, extension_type, init) {
            Ok(p) => r == Ok::<TlvIndices, ProgramError>(spec_tlv_indices(p)),
            Err(e) => r == Err::<TlvIndices, ProgramError>(e),
        },
{
    let mut start_index: usize = 0;
    let v_account_type = extension_type.get_account_type();
    let len = tlv_data.len();
    while start_index < len
        invariant
            len == tlv_data@.len(),
            v_account_type == extension_type.spec_account_type(),
            spec_find(tlv_data@, 0, extension_type, init) == spec_find(
                tlv_data@,
                start_index as int,
                extension_type,
                init,
            ),
        decreases spec_remaining(tlv_data@, start_index as int),
    {
        if len - start_index < HEADER_LEN {
            return Err(ProgramError::InvalidAccountData);
        }
        let tlv_indices = get_tlv_indices(start_index);
        let extension_type_found = match read_type(tlv_data, tlv_indices.type_start) {
            Ok(t) => t,
            Err(e) => {
                return Err(e);
            },
        };
        let account_type = extension_type_found.get_account_type();
        if extension_type_found == extension_type {
            // found an instance of the extension that we're initializing, return!
            return Ok(tlv_indices);
            // got to an empty spot, init here, or error if we're searching, since
            // nothing is written after an Uninitialized spot
        } else if extension_type_found == ExtensionType::Uninitialized {
            if init {
                return Ok(tlv_indices);
            } else {
                return Err(ProgramError::Token(TokenError::ExtensionNotFound));
            }
        } else if v_account_type != account_type {
            return Err(ProgramError::Token(TokenError::ExtensionTypeMismatch));
        } else {
            let length = read_length(tlv_data, start_index);
            let value_end_index = tlv_indices.value_start.saturating_add(length);
            proof {
                if tlv_indices.value_start + length > usize::MAX {
                    let end = spec_entry_end(tlv_data@, start_index as int);
                    assert(end >= tlv_data@.len());
                    assert(spec_find(tlv_data@, end, extension_type, init) == Err::<
                        int,
                        ProgramError,
                    >(ProgramError::InvalidAccountData));
                    assert(spec_find(tlv_data@, value_end_index as int, extension_type, init)
                        == Err::<int, ProgramError>(ProgramError::InvalidAccountData));
                }
            }
            start_index = value_end_index;
        }
    }
    Err(ProgramError::InvalidAccountData)
}

/// Basic information about the TLV buffer, collected from iterating through all entries
#[derive(Debug, PartialEq)]
pub struct TlvDataInfo {
    /// The extension types written in the TLV buffer
    pub extension_types: Vec<ExtensionType>,
    /// The total number bytes allocated for all TLV entries.
    ///
    /// Each TLV entry's allocated bytes comprises two bytes for the `type`, two
    /// bytes for the `length`, and `length` number of bytes for the `value`.
    pub used_len: usize,
}

/// What a walk over all entries of a buffer finds.
pub struct TlvInfo {
    /// The types of the entries, in the order in which they are stored.
    pub types: Seq<ExtensionType>,
    /// The offset at which the entries end.
    pub used_len: int,
}

/// `r` with `t` put in front of its types.
pub open spec fn spec_with_type(t: ExtensionType, r: Result<TlvInfo, ProgramError>) -> Result<
    TlvInfo,
    ProgramError,
> {
    match r {
        Ok(info) => Ok(TlvInfo { types: seq![t] + info.types, used_len: info.used_len }),
        Err(e) => Err(e),
    }
}

/// What the walk over the entries from `start` on finds.
///
/// The entries end at the first unused slot or at the end of the buffer. The
/// walk fails with `InvalidAccountData` where a tag or a length field is cut
/// short, a tag is not assigned, or a value leaves the buffer.
pub open spec fn spec_tlv_info(tlv: Seq<u8>, start: int) -> Result<TlvInfo, ProgramError>
    decreases spec_remaining(tlv, start),
{
    if start < 0 || start >= tlv.len() {
        Ok(TlvInfo { types: Seq::empty(), used_len: start })
    } else if tlv.len() < start + TYPE_LEN {
        Err(ProgramError::InvalidAccountData)
    } else {
        match spec_type_at(tlv, start) {
            None => Err(ProgramError::InvalidAccountData),
            Some(t) => {
                if t == ExtensionType::Uninitialized {
                    Ok(TlvInfo { types: Seq::empty(), used_len: start })
                } else if tlv.len() < start + HEADER_LEN || spec_entry_end(tlv, start)
                    > tlv.len() {
                    Err(ProgramError::InvalidAccountData)
                } else {
                    spec_with_type(t, spec_tlv_info(tlv, spec_entry_end(tlv, start)))
                }
            },
        }
    }
}

/// The entries of a well-formed buffer end inside it, at or after the start
/// of the walk.
pub proof fn lemma_tlv_info_bounds(tlv: Seq<u8>, start: int)
    requires
        0 <= start <= tlv.len(),
        spec_tlv_info(tlv, start) is Ok,
    ensures
        start <= spec_tlv_info(tlv, start).unwrap().used_len <= tlv.len(),
    decreases spec_remaining(tlv, start),
{
    if start < tlv.len() {
        let t = spec_type_at(tlv, start).unwrap();
        if t != ExtensionType::Uninitialized {
            lemma_tlv_info_bounds(tlv, spec_entry_end(tlv, start));
        }
    }
}

/// `r` with the types `ts` put in front of its types.
pub open spec fn spec_with_types(ts: Seq<ExtensionType>, r: Result<TlvInfo, ProgramError>)
    -> Result<TlvInfo, ProgramError> {
    match r {
        Ok(info) => Ok(TlvInfo { types: ts + info.types, used_len: info.used_len }),
        Err(e) => Err(e),
    }
}

/// Fetches basic information about the TLV buffer by iterating through all
/// TLV entries.
pub fn get_tlv_data_info(tlv_data: &[u8]) -> (r: Result<TlvDataInfo, ProgramError>)
    ensures
        match spec_tlv_info(tlv_data@, 0) {
            Ok(info) => r matches Ok(found) && found.extension_types@ == info.types
                && found.used_len == info.used_len,
            Err(e) => r matches Err(f) && f == e,
        },
{
    let mut extension_types: Vec<ExtensionType> = Vec::new();
    let mut start_index: usize = 0;
    let len = tlv_data.len();
    proof {
        let whole = spec_tlv_info(tlv_data@, 0);
        if let Ok(info) = whole {
            assert(Seq::<ExtensionType>::empty() + info.types =~= info.types);
        }
    }
    while start_index < len
        invariant
            len == tlv_data@.len(),
            start_index <= len,
            spec_tlv_info(tlv_data@, 0) == spec_with_types(
                extension_types@,
                spec_tlv_info(tlv_data@, start_index as int),
            ),
        decreases len - start_index,
    {
        if len - start_index < TYPE_LEN {
            // not enough bytes to store the type, malformed
            return Err(ProgramError::InvalidAccountData);
        }
        let extension_type = match read_type(tlv_data, start_index) {
            Ok(t) => t,
            Err(e) => {
                return Err(e);
            },
        };
        if extension_type == ExtensionType::Uninitialized {
            proof {
                assert(extension_types@ + Seq::<ExtensionType>::empty() =~= extension_types@);
            }
            return Ok(TlvDataInfo { extension_types, used_len: start_index });
        } else {
            if len - start_index < HEADER_LEN {
                // not enough bytes to store the length, malformed
                return Err(ProgramError::InvalidAccountData);
            }
            let length = read_length(tlv_data, start_index);
            if len - start_index - HEADER_LEN < length {
                // value blows past the size of the slice, malformed
                return Err(ProgramError::InvalidAccountData);
            }
            let value_end_index = start_index + HEADER_LEN + length;
            proof {
                let rest = spec_tlv_info(tlv_data@, value_end_index as int);
                if let Ok(info) = rest {
                    assert(extension_types@.push(extension_type) + info.types =~= extension_types@
                        + (seq![extension_type] + info.types));
                }
            }
            extension_types.push(extension_type);
            start_index = value_end_index;
        }
    }
    proof {
        assert(extension_types@ + Seq::<ExtensionType>::empty() =~= extension_types@);
    }
    Ok(TlvDataInfo { extension_types, used_len: start_index })
}

/// The type of the first entry, where the buffer holds one: none in a buffer
/// of at most one tag, and none where the first slot is unused.
pub open spec fn spec_first_extension_type(tlv: Seq<u8>) -> Result<
    Option<ExtensionType>,
    ProgramError,
> {
    if tlv.len() <= TYPE_LEN {
        Ok(None)
    } else {
        match spec_type_at(tlv, 0) {
            None => Err(ProgramError::InvalidAccountData),
            Some(t) => if t == ExtensionType::Uninitialized {
                Ok(None)
            } else {
                Ok(Some(t))
            },
        }
    }
}

/// Get just the first extension type, useful to track mixed initializations
pub fn get_first_extension_type(tlv_data: &[u8]) -> (r: Result<
    Option<ExtensionType>,
    ProgramError,
>)
    ensures
        r == spec_first_extension_type(tlv_data@),
{
    if tlv_data.len() == 0 {
        Ok(None)
    } else {
        if tlv_data.len() <= TYPE_LEN {
            return Ok(None);
        }
        let extension_type = match read_type(tlv_data, 0) {
            Ok(t) => t,
            Err(e) => {
                return Err(e);
            },
        };
        if extension_type == ExtensionType::Uninitialized {
            Ok(None)
        } else {
            Ok(Some(extension_type))
        }
    }
}

/// Rejects a buffer that is as long as a multi-signature record or shorter
/// than `minimum_len`.
pub fn check_min_len_and_not_multisig(input: &[u8], minimum_len: usize) -> (r: Result<
    (),
    ProgramError,
>)
    ensures
        (input@.len() == MULTISIG_LEN || input@.len() < minimum_len) ==> r == Err::<
            (),
            ProgramError,
        >(ProgramError::InvalidAccountData),
        !(input@.len() == MULTISIG_LEN || input@.len() < minimum_len) ==> r == Ok::<
            (),
            ProgramError,
        >(()),
{
    if input.len() == MULTISIG_LEN || input.len() < minimum_len {
        Err(ProgramError::InvalidAccountData)
    } else {
        Ok(())
    }
}

/// Rejects a kind marker that is not the one of the base record `expected`.
pub fn check_account_type(account_type: AccountType, expected: AccountType) -> (r: Result<
    (),
    ProgramError,
>)
    ensures
        account_type != expected ==> r == Err::<(), ProgramError>(
            ProgramError::InvalidAccountData,
        ),
        account_type == expected ==> r == Ok::<(), ProgramError>(()),
{
    if account_type != expected {
        Err(ProgramError::InvalidAccountData)
    } else {
        Ok(())
    }
}

/// The offset of the kind marker in the bytes that follow a base record of
/// length `base_len`: entries start only after `BASE_ACCOUNT_LENGTH`, and
/// the bytes up to there are padding.
pub open spec fn spec_account_type_index(base_len: int) -> int {
    if base_len <= BASE_ACCOUNT_LENGTH {
        BASE_ACCOUNT_LENGTH - base_len
    } else {
        0
    }
}

/// Where the kind marker and the entries stand in the bytes `rest` that follow
/// a base record of length `base_len`: nowhere where nothing follows, else
/// after padding that must be all zero and must leave room for the marker and
/// one byte more.
pub open spec fn spec_type_and_tlv_indices(rest: Seq<u8>, base_len: int) -> Result<
    Option<(usize, usize)>,
    ProgramError,
> {
    let account_type_index = spec_account_type_index(base_len);
    if rest.len() == 0 {
        Ok(None)
    } else if rest.len() <= account_type_index + 1 || !all_zero(
        rest.subrange(0, account_type_index),
    ) {
        Err(ProgramError::InvalidAccountData)
    } else {
        Ok(Some((account_type_index as usize, (account_type_index + 1) as usize)))
    }
}

/// Finds the kind marker and the start of the entries in the bytes after a
/// base record of length `base_len`: see `spec_type_and_tlv_indices`.
pub fn type_and_tlv_indices(rest_input: &[u8], base_len: usize) -> (r: Result<
    Option<(usize, usize)>,
    ProgramError,
>)
    ensures
        r == spec_type_and_tlv_indices(rest_input@, base_len as int),
{
    if rest_input.len() == 0 {
        Ok(None)
    } else {
        let account_type_index = BASE_ACCOUNT_LENGTH.saturating_sub(base_len);
        // check padding is all zeroes
        let tlv_start_index = account_type_index.saturating_add(1);
        if rest_input.len() <= tlv_start_index {
            return Err(ProgramError::InvalidAccountData);
        }
        if !is_zero_prefix(rest_input, account_type_index) {
            Err(ProgramError::InvalidAccountData)
        } else {
            Ok(Some((account_type_index, tlv_start_index)))
        }
    }
}

/// Offset of the state byte in the base record of a token-holding account.
pub const ACCOUNT_INITIALIZED_INDEX: usize = 108;

/// Checks a base buffer to verify if it is an Account without having to completely deserialize it
pub fn is_initialized_account(input: &[u8]) -> (r: Result<bool, ProgramError>)
    ensures
        input@.len() != BASE_ACCOUNT_LENGTH ==> r == Err::<bool, ProgramError>(
            ProgramError::InvalidAccountData,
        ),
        input@.len() == BASE_ACCOUNT_LENGTH ==> r == Ok::<bool, ProgramError>(
            input@[ACCOUNT_INITIALIZED_INDEX as int] != 0,
        ),
{
    if input.len() != BASE_ACCOUNT_LENGTH {
        return Err(ProgramError::InvalidAccountData);
    }
    Ok(input[ACCOUNT_INITIALIZED_INDEX] != 0)
}

/// Where the value of the entry of type `extension_type` stands in a buffer
/// that follows a base record of kind `account_type`: from the first offset up
/// to the second.
///
/// Fails with `InvalidAccountData` where the type belongs to the other kind
/// of base record or the value leaves the buffer, and as `spec_find` fails.
pub open spec fn spec_extension_range(
    tlv: Seq<u8>,
    account_type: AccountType,
    extension_type: ExtensionType,
) -> Result<(int, int), ProgramError> {
    if extension_type.spec_account_type() != account_type {
        Err(ProgramError::InvalidAccountData)
    } else {
        match spec_find(tlv, 0, extension_type, false) {
            Err(e) => Err(e),
            Ok(p) => if tlv.len() < spec_entry_end(tlv, p) {
                Err(ProgramError::InvalidAccountData)
            } else {
                Ok((p + HEADER_LEN, spec_entry_end(tlv, p)))
            },
        }
    }
}

/// The value of the entry of type `extension_type`: the bytes at
/// `spec_extension_range`.
pub open spec fn spec_extension_bytes(
    tlv: Seq<u8>,
    account_type: AccountType,
    extension_type: ExtensionType,
) -> Result<Seq<u8>, ProgramError> {
    match spec_extension_range(tlv, account_type, extension_type) {
        Ok((from, to)) => Ok(tlv.subrange(from, to)),
        Err(e) => Err(e),
    }
}

/// Finds the value of the entry of type `extension_type`: see
/// `spec_extension_range`.
pub fn get_extension_range(
    tlv_data: &[u8],
    account_type: AccountType,
    extension_type: ExtensionType,
) -> (r: Result<(usize, usize), ProgramError>)
    ensures
        match spec_extension_range(tlv_data@, account_type, extension_type) {
            Ok((from, to)) => r == Ok::<(usize, usize), ProgramError>((from as usize, to as usize))
                && 0 <= from <= to <= tlv_data@.len(),
            Err(e) => r == Err::<(usize, usize), ProgramError>(e),
        },
{
    if extension_type.get_account_type() != account_type {
        return Err(ProgramError::InvalidAccountData);
    }
    let indices = match get_extension_indices(tlv_data, extension_type, false) {
        Ok(i) => i,
        Err(e) => {
            return Err(e);
        },
    };
    proof {
        lemma_find_ok(tlv_data@, 0, extension_type, false);
    }
    // get_extension_indices has checked that tlv_data is long enough to include these indices
    let length = read_length(tlv_data, indices.type_start);
    if tlv_data.len() - indices.value_start < length {
        return Err(ProgramError::InvalidAccountData);
    }
    let value_end = indices.value_start + length;
    Ok((indices.value_start, value_end))
}

/// Fetch the bytes for a TLV entry
pub fn get_extension_bytes<'a>(
    tlv_data: &'a [u8],
    account_type: AccountType,
    extension_type: ExtensionType,
) -> (r: Result<&'a [u8], ProgramError>)
    ensures
        match spec_extension_bytes(tlv_data@, account_type, extension_type) {
            Ok(bytes) => r matches Ok(found) && found@ == bytes,
            Err(e) => r matches Err(f) && f == e,
        },
{
    let _ = tlv_data.len();
    match get_extension_range(tlv_data, account_type, extension_type) {
        Ok((value_start, value_end)) => Ok(&tlv_data[value_start..value_end]),
        Err(e) => Err(e),
    }
}

/// `data` with the bytes from `from` up to `to` replaced by `value`.
pub open spec fn spec_with_value(data: Seq<u8>, from: int, to: int, value: Seq<u8>) -> Seq<u8> {
    data.subrange(0, from) + value + data.subrange(to, data.len() as int)
}

/// Lends the bytes of `data` from `from` up to `to` for writing.
pub fn range_mut<'a>(data: &'a mut [u8], from: usize, to: usize) -> (r: &'a mut [u8])
    requires
        from <= to <= old(data)@.len(),
    ensures
        r@ == old(data)@.subrange(from as int, to as int),
        final(data)@ == spec_with_value(old(data)@, from as int, to as int, final(r)@),
{
    let (_head, rest) = data.split_at_mut(from);
    let (part, _tail) = rest.split_at_mut(to - from);
    assert(part@ =~= old(data)@.subrange(from as int, to as int));
    assert(_tail@ =~= old(data)@.subrange(to as int, old(data)@.len() as int));
    part
}

/// Unpack a portion of the TLV data as the base mutable bytes
pub fn get_extension_bytes_mut<'a>(
    tlv_data: &'a mut [u8],
    account_type: AccountType,
    extension_type: ExtensionType,
) -> (r: Result<&'a mut [u8], ProgramError>)
    ensures
        match spec_extension_range(old(tlv_data)@, account_type, extension_type) {
            Ok((from, to)) => {
                &&& r matches Ok(found)
                &&& found@ == old(tlv_data)@.subrange(from, to)
                &&& final(tlv_data)@ == spec_with_value(old(tlv_data)@, from, to, final(found)@)
            },
            Err(e) => r matches Err(f) && f == e && final(tlv_data)@ == old(tlv_data)@,
        },
{
    let _ = tlv_data.len();
    match get_extension_range(tlv_data, account_type, extension_type) {
        Ok((value_start, value_end)) => Ok(range_mut(tlv_data, value_start, value_end)),
        Err(e) => Err(e),
    }
}

} // verus!

//! Entries keyed by a discriminator of eight bytes, each with a length of
//! four bytes and a value, stored one after the other in a buffer.

use crate::error::{ProgramError, TlvError};
use crate::extension::scan::{range_mut, spec_remaining};
use crate::pod::{
    all_zero, lemma_le_4, spec_le, spec_u32_bytes, splice, u32_from_le, write_at, write_u32_at,
};
use vstd::prelude::*;

verus! {

/// Bytes taken by the discriminator of an entry.
pub const DISCRIMINATOR_LEN: usize = 8;

/// Bytes taken by the discriminator and the length field of an entry.
pub const ENTRY_HEADER_LEN: usize = 12;

/// A type that names the entries of one kind by a discriminator.
pub trait SplDiscriminate {
    /// The discriminator under which values of this type are stored.
    const SPL_DISCRIMINATOR: [u8; 8];
}

/// The discriminator of the entry at `at`.
pub open spec fn spec_discriminator_at(data: Seq<u8>, at: int) -> Seq<u8> {
    data.subrange(at, at + DISCRIMINATOR_LEN)
}

/// The length field of the entry at `at`.
pub open spec fn spec_length_at(data: Seq<u8>, at: int) -> int {
    spec_le(data.subrange(at + DISCRIMINATOR_LEN, at + ENTRY_HEADER_LEN)) as int
}

/// The offset just past the value of the entry at `at`.
pub open spec fn spec_value_end(data: Seq<u8>, at: int) -> int {
    at + 12 + spec_length_at(data, at)
}

/// Where the entries that start at `start` end, in a buffer that is well
/// formed: at the first discriminator that is all zero, at a rest too short
/// for a discriminator, or at the end of the buffer.
///
/// A length field that is cut short is `InvalidAccountData`, a value that
/// leaves the buffer `AccountDataTooSmall`.
pub open spec fn spec_entries_end(data: Seq<u8>, start: int) -> Result<int, ProgramError>
    decreases spec_remaining(data, start),
{
    if start < 0 || start >= data.len() || data.len() < start + DISCRIMINATOR_LEN || all_zero(
        spec_discriminator_at(data, start),
    ) {
        Ok(start)
    } else if data.len() < start + ENTRY_HEADER_LEN {
        Err(ProgramError::InvalidAccountData)
    } else if spec_value_end(data, start) > data.len() {
        Err(ProgramError::AccountDataTooSmall)
    } else {
        spec_entries_end(data, spec_value_end(data, start))
    }
}

/// Where the scan for `discriminator` that starts at the entry at `start`
/// ends: at the first entry with that discriminator, or, where `init` is set,
/// at the first unused slot.
///
/// A header that leaves the buffer is `InvalidAccountData`; an unused slot
/// that comes first where `init` is not set is `TypeNotFound`.
pub open spec fn spec_tlv_find(data: Seq<u8>, start: int, discriminator: Seq<u8>, init: bool)
    -> Result<int, ProgramError>
    decreases spec_remaining(data, start),
{
    if start < 0 || start >= data.len() || data.len() < start + ENTRY_HEADER_LEN {
        Err(ProgramError::InvalidAccountData)
    } else if spec_discriminator_at(data, start) == discriminator {
        Ok(start)
    } else if all_zero(spec_discriminator_at(data, start)) {
        if init {
            Ok(start)
        } else {
            Err(ProgramError::Tlv(TlvError::TypeNotFound))
        }
    } else {
        spec_tlv_find(data, spec_value_end(data, start), discriminator, init)
    }
}

/// A found offset starts a header that lies in the buffer.
pub proof fn lemma_tlv_find_ok(data: Seq<u8>, start: int, discriminator: Seq<u8>, init: bool)
    requires
        spec_tlv_find(data, start, discriminator, init) is Ok,
    ensures
        ({
            let p = spec_tlv_find(data, start, discriminator, init).unwrap();
            &&& 0 <= start <= p
            &&& p + ENTRY_HEADER_LEN <= data.len()
            &&& spec_discriminator_at(data, p) == discriminator || (init && all_zero(
                spec_discriminator_at(data, p),
            ))
        }),
    decreases spec_remaining(data, start),
{
    if spec_discriminator_at(data, start) != discriminator && !all_zero(
        spec_discriminator_at(data, start),
    ) {
        lemma_tlv_find_ok(data, spec_value_end(data, start), discriminator, init);
    }
}

/// Tells whether the `len` bytes of `a` from `at` on are the bytes of `b`.
pub fn range_equals(a: &[u8], at: usize, b: &[u8]) -> (r: bool)
    requires
        at + b@.len() <= a@.len(),
    ensures
        r == (a@.subrange(at as int, at + b@.len()) == b@),
{
    let _ = a.len();
    let n = b.len();
    let mut i: usize = 0;
    while i < n
        invariant
            i <= n,
            n == b@.len(),
            at + n <= a@.len(),
            a@.len() <= usize::MAX,
            forall|k: int| 0 <= k < i ==> a@[at + k] == b@[k],
        decreases n - i,
    {
        if a[at + i] != b[i] {
            assert(a@.subrange(at as int, at + b@.len())[i as int] != b@[i as int]);
            return false;
        }
        i += 1;
    }
    assert(a@.subrange(at as int, at + b@.len()) =~= b@);
    true
}

/// Tells whether the `n` bytes of `a` from `at` on are all zero.
pub fn range_is_zero(a: &[u8], at: usize, n: usize) -> (r: bool)
    requires
        at + n <= a@.len(),
    ensures
        r == all_zero(a@.subrange(at as int, at + n)),
{
    let _ = a.len();
    let mut i: usize = 0;
    while i < n
        invariant
            i <= n,
            at + n <= a@.len(),
            a@.len() <= usize::MAX,
            forall|k: int| at <= k < at + i ==> a@[k] == 0,
        decreases n - i,
    {
        if a[at + i] != 0 {
            assert(a@.subrange(at as int, at + n)[i as int] != 0);
            return false;
        }
        i += 1;
    }
    true
}

/// Reads the length field of the entry at `at`.
pub fn read_entry_length(data: &[u8], at: usize) -> (r: usize)
    requires
        at + ENTRY_HEADER_LEN <= data@.len(),
    ensures
        r == spec_length_at(data@, at as int),
        r <= u32::MAX,
{
    let _ = data.len();
    let bytes = &data[at + DISCRIMINATOR_LEN..at + ENTRY_HEADER_LEN];
    proof {
        lemma_le_4(bytes@);
    }
    u32_from_le(bytes) as usize
}

/// Checks that the entries of `data` are well formed and tells where they
/// end: see `spec_entries_end`.
pub fn check_data(data: &[u8]) -> (r: Result<usize, ProgramError>)
    ensures
        match spec_entries_end(data@, 0) {
            Ok(end) => r == Ok::<usize, ProgramError>(end as usize) && 0 <= end <= data@.len(),
            Err(e) => r == Err::<usize, ProgramError>(e),
        },
{
    let len = data.len();
    let mut start_index: usize = 0;
    while start_index < len
        invariant
            len == data@.len(),
            start_index <= len,
            spec_entries_end(data@, 0) == spec_entries_end(data@, start_index as int),
        decreases len - start_index,
    {
        if len - start_index < DISCRIMINATOR_LEN {
            return Ok(start_index);
        }
        if range_is_zero(data, start_index, DISCRIMINATOR_LEN) {
            return Ok(start_index);
        }
        if len - start_index < ENTRY_HEADER_LEN {
            return Err(ProgramError::InvalidAccountData);
        }
        let length = read_entry_length(data, start_index);
        if len - start_index - ENTRY_HEADER_LEN < length {
            return Err(ProgramError::AccountDataTooSmall);
        }
        start_index = start_index + ENTRY_HEADER_LEN + length;
    }
    Ok(start_index)
}

/// Finds the entry with `discriminator`, or, with `init`, the slot where such
/// an entry can be written: see `spec_tlv_find`.
pub fn get_indices(data: &[u8], discriminator: &[u8; 8], init: bool) -> (r: Result<
    usize,
    ProgramError,
>)
    ensures
        match spec_tlv_find(data@, 0, discriminator@, init) {
            Ok(p) => r == Ok::<usize, ProgramError>(p as usize) && 0 <= p && p
                + ENTRY_HEADER_LEN <= data@.len(),
            Err(e) => r == Err::<usize, ProgramError>(e),
        },
{
    let len = data.len();
    let wanted = vstd::array::array_as_slice(discriminator);
    let mut start_index: usize = 0;
    proof {
        if spec_tlv_find(data@, 0, discriminator@, init) is Ok {
            lemma_tlv_find_ok(data@, 0, discriminator@, init);
        }
    }
    while start_index < len
        invariant
            len == data@.len(),
            wanted@ == discriminator@,
            wanted@.len() == 8,
            spec_tlv_find(data@, 0, discriminator@, init) == spec_tlv_find(
                data@,
                start_index as int,
                discriminator@,
                init,
            ),
        decreases spec_remaining(data@, start_index as int),
    {
        if len - start_index < ENTRY_HEADER_LEN {
            return Err(ProgramError::InvalidAccountData);
        }
        if range_equals(data, start_index, wanted) {
            return Ok(start_index);
        }
        if range_is_zero(data, start_index, DISCRIMINATOR_LEN) {
            // got to an empty spot, init here, or error if we're searching, since
            // nothing is written after an Uninitialized spot
            if init {
                return Ok(start_index);
            } else {
                return Err(ProgramError::Tlv(TlvError::TypeNotFound));
            }
        }
        let length = read_entry_length(data, start_index);
        if len - start_index - ENTRY_HEADER_LEN < length {
            assert(spec_tlv_find(
                data@,
                spec_value_end(data@, start_index as int),
                discriminator@,
                init,
            ) == Err::<int, ProgramError>(ProgramError::InvalidAccountData));
            return Err(ProgramError::InvalidAccountData);
        }
        start_index = start_index + ENTRY_HEADER_LEN + length;
    }
    Err(ProgramError::InvalidAccountData)
}

/// Where the value of the first entry with `discriminator` stands: from the
/// first offset up to the second. The entry must exist (`spec_tlv_find`) and
/// its value must lie in the buffer (`InvalidAccountData`).
pub open spec fn spec_first_range(data: Seq<u8>, discriminator: Seq<u8>) -> Result<
    (int, int),
    ProgramError,
> {
    match spec_tlv_find(data, 0, discriminator, false) {
        Err(e) => Err(e),
        Ok(p) => if data.len() < spec_value_end(data, p) {
            Err(ProgramError::InvalidAccountData)
        } else {
            Ok((p + ENTRY_HEADER_LEN, spec_value_end(data, p)))
        },
    }
}

/// Finds the value of the first entry with `discriminator`: see
/// `spec_first_range`.
pub fn get_first_bytes<'a>(data: &'a [u8], discriminator: &[u8; 8]) -> (r: Result<
    &'a [u8],
    ProgramError,
>)
    ensures
        match spec_first_range(data@, discriminator@) {
            Ok((from, to)) => r matches Ok(found) && found@ == data@.subrange(from, to) && 0
                <= from <= to <= data@.len(),
            Err(e) => r matches Err(f) && f == e,
        },
{
    let len = data.len();
    let type_start = match get_indices(data, discriminator, false) {
        Ok(p) => p,
        Err(e) => {
            return Err(e);
        },
    };
    let length = read_entry_length(data, type_start);
    if len - type_start - ENTRY_HEADER_LEN < length {
        return Err(ProgramError::InvalidAccountData);
    }
    let value_start = type_start + ENTRY_HEADER_LEN;
    Ok(&data[value_start..value_start + length])
}

/// Where a new entry with `discriminator` and `length` bytes of value is
/// allocated: the offset of its discriminator.
///
/// The slot is the first unused one (`spec_tlv_find`, for creation). An entry
/// with that discriminator that comes first is `TypeAlreadyExists`; a length
/// above thirty-two bits is `AccountDataTooSmall`; a value that does not fit
/// between the slot and the end of the buffer is `InvalidAccountData`.
pub open spec fn spec_tlv_alloc(data: Seq<u8>, discriminator: Seq<u8>, length: int) -> Result<
    int,
    ProgramError,
> {
    match spec_tlv_find(data, 0, discriminator, true) {
        Err(e) => Err(e),
        Ok(p) => if spec_discriminator_at(data, p) == discriminator {
            Err(ProgramError::Tlv(TlvError::TypeAlreadyExists))
        } else if length > u32::MAX {
            Err(ProgramError::AccountDataTooSmall)
        } else if data.len() - (p + ENTRY_HEADER_LEN) < length {
            Err(ProgramError::InvalidAccountData)
        } else {
            Ok(p)
        },
    }
}

/// Claims a new entry with `discriminator` and `length` bytes of value and
/// lends the value: see `spec_tlv_alloc`. The header is written; the value
/// holds what the buffer held there. A call that fails writes nothing.
pub fn alloc_entry<'a>(data: &'a mut [u8], discriminator: &[u8; 8], length: usize) -> (r: Result<
    &'a mut [u8],
    ProgramError,
>)
    ensures
        match spec_tlv_alloc(old(data)@, discriminator@, length as int) {
            Ok(p) => r matches Ok(value) && value@.len() == length && value@ == old(
                data,
            )@.subrange(p + ENTRY_HEADER_LEN, p + ENTRY_HEADER_LEN + length) && final(data)@
                == old(data)@.subrange(0, p) + discriminator@ + spec_u32_bytes(length as u32)
                + final(value)@ + old(data)@.subrange(
                p + ENTRY_HEADER_LEN + length,
                old(data)@.len() as int,
            ),
            Err(e) => r matches Err(f) && f == e && final(data)@ == old(data)@,
        },
{
    let len = data.len();
    let type_start = match get_indices(data, discriminator, true) {
        Ok(p) => p,
        Err(e) => {
            return Err(e);
        },
    };
    if range_equals(data, type_start, vstd::array::array_as_slice(discriminator)) {
        return Err(ProgramError::Tlv(TlvError::TypeAlreadyExists));
    }
    if length > u32::MAX as usize {
        return Err(ProgramError::AccountDataTooSmall);
    }
    if len - type_start - ENTRY_HEADER_LEN < length {
        return Err(ProgramError::InvalidAccountData);
    }
    write_at(data, type_start, vstd::array::array_as_slice(discriminator));
    write_u32_at(data, type_start + DISCRIMINATOR_LEN, length as u32);
    let ghost written = data@;
    let value_start = type_start + ENTRY_HEADER_LEN;
    let value = range_mut(data, value_start, value_start + length);
    proof {
        reveal(splice);
        assert(written.subrange(0, value_start as int) =~= old(data)@.subrange(
            0,
            type_start as int,
        ) + discriminator@ + spec_u32_bytes(length as u32));
        assert(written.subrange(value_start + length, written.len() as int) =~= old(
            data,
        )@.subrange(value_start + length, old(data)@.len() as int));
        assert(value@ =~= old(data)@.subrange(value_start as int, value_start + length));
    }
    Ok(value)
}

/// A read-only view of a buffer of entries that has been checked to be well
/// formed.
#[derive(Debug, PartialEq)]
pub struct TlvStateBorrowed<'data> {
    /// Slice of data containing all TLV data, deserialized on demand
    pub data: &'data [u8],
}

impl<'data> TlvStateBorrowed<'data> {
    /// Unpacks a buffer of entries, checking that it is well formed: see
    /// `spec_entries_end`.
    pub fn unpack(data: &'data [u8]) -> (r: Result<Self, ProgramError>)
        ensures
            match spec_entries_end(data@, 0) {
                Ok(_) => r matches Ok(state) && state.data@ == data@,
                Err(e) => r matches Err(f) && f == e,
            },
    {
        match check_data(data) {
            Ok(_) => Ok(Self { data }),
            Err(e) => Err(e),
        }
    }

    /// The least length of a buffer that holds one entry: the header.
    pub fn get_base_len() -> (r: usize)
        ensures
            r == ENTRY_HEADER_LEN,
    {
        ENTRY_HEADER_LEN
    }
}

} // verus!

//! State transition types

use crate::error::{AccountResolutionError, ProgramError};
use crate::pod::{
    lemma_le_4, lemma_splice_next, spec_le, spec_u32_bytes, u32_from_le, write_u32_at,
};
use crate::resolution::account::{
    spec_extra_views, spec_meta_bytes, spec_unpack_meta, ExtraAccountMeta, ExtraAccountMetaView,
    EXTRA_ACCOUNT_META_LEN,
};
use crate::extension::scan::spec_remaining;
use crate::pod::all_zero;
use crate::tlv::{
    alloc_entry, check_data, get_first_bytes, lemma_tlv_find_ok, spec_entries_end,
    spec_discriminator_at, spec_first_range, spec_length_at, spec_tlv_alloc, spec_tlv_find,
    spec_value_end, SplDiscriminate, TlvStateBorrowed, ENTRY_HEADER_LEN,
};
use vstd::prelude::*;

verus! {

/// Bytes taken by the count in front of the stored records.
pub const SLICE_HEADER_LEN: usize = 4;

/// The bytes that a slice of `n` records takes, count included.
pub open spec fn spec_slice_len(n: int) -> int {
    SLICE_HEADER_LEN + EXTRA_ACCOUNT_META_LEN * n
}

/// How many records the value `bytes` of an entry holds: the count in front,
/// which must not pass the records that fit behind it (`BufferTooSmall`). A
/// value without room for the count is `BufferTooSmall` too; one whose rest is
/// no whole number of records is `InvalidArgument`.
pub open spec fn spec_slice_count(bytes: Seq<u8>) -> Result<int, ProgramError> {
    if bytes.len() < SLICE_HEADER_LEN {
        Err(ProgramError::Resolution(AccountResolutionError::BufferTooSmall))
    } else if (bytes.len() - SLICE_HEADER_LEN) % (EXTRA_ACCOUNT_META_LEN as int) != 0 {
        Err(ProgramError::InvalidArgument)
    } else if spec_le(bytes.subrange(0, 4)) > (bytes.len() - SLICE_HEADER_LEN) / (
    EXTRA_ACCOUNT_META_LEN as int) {
        Err(ProgramError::Resolution(AccountResolutionError::BufferTooSmall))
    } else {
        Ok(spec_le(bytes.subrange(0, 4)) as int)
    }
}

/// The record number `i` of the value `bytes`.
pub open spec fn spec_slice_meta(bytes: Seq<u8>, i: int) -> ExtraAccountMetaView {
    spec_unpack_meta(bytes.subrange(spec_slice_len(i), spec_slice_len(i + 1)))
}

/// The records that the value `bytes` of an entry holds, in their order.
pub open spec fn spec_slice_metas(bytes: Seq<u8>) -> Result<
    Seq<ExtraAccountMetaView>,
    ProgramError,
> {
    match spec_slice_count(bytes) {
        Ok(n) => Ok(Seq::new(n as nat, |i: int| spec_slice_meta(bytes, i))),
        Err(e) => Err(e),
    }
}

/// The bytes of the first `upto` records of `metas`, one after the other.
pub open spec fn spec_records_bytes(metas: Seq<ExtraAccountMetaView>, upto: int) -> Seq<u8>
    decreases upto,
{
    if upto <= 0 {
        Seq::empty()
    } else {
        spec_records_bytes(metas, upto - 1) + spec_meta_bytes(metas[upto - 1])
    }
}

/// The value that stores the records `metas`: their count, then the records.
pub open spec fn spec_slice_bytes(metas: Seq<ExtraAccountMetaView>) -> Seq<u8> {
    spec_u32_bytes(metas.len() as u32) + spec_records_bytes(metas, metas.len() as int)
}

/// The first `upto` records take thirty-five bytes each.
pub proof fn lemma_records_len(metas: Seq<ExtraAccountMetaView>, upto: int)
    requires
        0 <= upto <= metas.len(),
        forall|i: int| 0 <= i < metas.len() ==> (#[trigger] metas[i]).address_config.len() == 32,
    ensures
        spec_records_bytes(metas, upto).len() == EXTRA_ACCOUNT_META_LEN * upto,
    decreases upto,
{
    if upto > 0 {
        lemma_records_len(metas, upto - 1);
    }
}

/// Reads the records that the value `bytes` of an entry holds: see
/// `spec_slice_metas`.
pub fn unpack_slice(bytes: &[u8]) -> (r: Result<Vec<ExtraAccountMeta>, ProgramError>)
    ensures
        match spec_slice_metas(bytes@) {
            Ok(metas) => r matches Ok(found) && spec_extra_views(found@) == metas,
            Err(e) => r matches Err(f) && f == e,
        },
{
    let len = bytes.len();
    if len < SLICE_HEADER_LEN {
        return Err(ProgramError::Resolution(AccountResolutionError::BufferTooSmall));
    }
    if (len - SLICE_HEADER_LEN) % EXTRA_ACCOUNT_META_LEN != 0 {
        return Err(ProgramError::InvalidArgument);
    }
    let max_length = (len - SLICE_HEADER_LEN) / EXTRA_ACCOUNT_META_LEN;
    let head = &bytes[0..4];
    proof {
        lemma_le_4(head@);
    }
    let length = u32_from_le(head) as usize;
    if length > max_length {
        return Err(ProgramError::Resolution(AccountResolutionError::BufferTooSmall));
    }
    let ghost metas = spec_slice_metas(bytes@).unwrap();
    let mut found: Vec<ExtraAccountMeta> = Vec::new();
    let mut i: usize = 0;
    assert(35 * length <= len - 4) by (nonlinear_arith)
        requires
            length <= max_length,
            max_length == (len - 4) / 35,
    ;
    while i < length
        invariant
            i <= length,
            35 * length <= len - 4,
            len == bytes@.len(),
            metas.len() == length,
            metas == spec_slice_metas(bytes@).unwrap(),
            spec_slice_count(bytes@) == Ok::<int, ProgramError>(length as int),
            found@.len() == i,
            forall|k: int| 0 <= k < i ==> (#[trigger] found@[k])@ == metas[k],
        decreases length - i,
    {
        let at = SLICE_HEADER_LEN + EXTRA_ACCOUNT_META_LEN * i;
        let meta = ExtraAccountMeta::unpack_at(bytes, at);
        assert(spec_slice_len(i as int) == at);
        assert(spec_slice_len(i + 1) == at + 35);
        assert(metas[i as int] == spec_slice_meta(bytes@, i as int));
        assert(meta@ == metas[i as int]);
        found.push(meta);
        i += 1;
    }
    assert(spec_extra_views(found@) =~= metas);
    Ok(found)
}

/// The records stored in `data` under `discriminator`: the value of the
/// first entry with that discriminator (`spec_first_range`), read as a slice
/// of records (`spec_slice_metas`).
pub open spec fn spec_stored_metas(data: Seq<u8>, discriminator: Seq<u8>) -> Result<
    Seq<ExtraAccountMetaView>,
    ProgramError,
> {
    match spec_first_range(data, discriminator) {
        Err(e) => Err(e),
        Ok((from, to)) => spec_slice_metas(data.subrange(from, to)),
    }
}

/// The records stored in a buffer under `discriminator`, where the buffer is
/// well formed (`spec_entries_end`).
pub open spec fn spec_load_metas(data: Seq<u8>, discriminator: Seq<u8>) -> Result<
    Seq<ExtraAccountMetaView>,
    ProgramError,
> {
    match spec_entries_end(data, 0) {
        Err(e) => Err(e),
        Ok(_) => spec_stored_metas(data, discriminator),
    }
}

/// Where the entry for `n` records is allocated in a buffer: the buffer
/// must be well formed (`spec_entries_end`), the size of the slice must not
/// leave the machine's range (`CalculationFailure`), and the entry must be
/// new and fit (`spec_tlv_alloc`).
pub open spec fn spec_init(data: Seq<u8>, discriminator: Seq<u8>, n: int) -> Result<
    int,
    ProgramError,
> {
    match spec_entries_end(data, 0) {
        Err(e) => Err(e),
        Ok(_) => if spec_slice_len(n) > usize::MAX {
            Err(ProgramError::Resolution(AccountResolutionError::CalculationFailure))
        } else {
            spec_tlv_alloc(data, discriminator, spec_slice_len(n))
        },
    }
}

/// The bytes that a slice of `num_items` records takes, where that number
/// does not leave the machine's range (`CalculationFailure`).
pub fn slice_size_of(num_items: usize) -> (r: Result<usize, ProgramError>)
    ensures
        spec_slice_len(num_items as int) <= usize::MAX ==> r == Ok::<usize, ProgramError>(
            spec_slice_len(num_items as int) as usize,
        ),
        spec_slice_len(num_items as int) > usize::MAX ==> r == Err::<usize, ProgramError>(
            ProgramError::Resolution(AccountResolutionError::CalculationFailure),
        ),
{
    match EXTRA_ACCOUNT_META_LEN.checked_mul(num_items) {
        Some(records) => match records.checked_add(SLICE_HEADER_LEN) {
            Some(size) => Ok(size),
            None => Err(ProgramError::Resolution(AccountResolutionError::CalculationFailure)),
        },
        None => Err(ProgramError::Resolution(AccountResolutionError::CalculationFailure)),
    }
}

/// Stateless helper for storing additional accounts required for an
/// instruction.
///
/// This struct works with any `SplDiscriminate`, and stores the extra accounts
/// needed for that specific instruction, using the given discriminator
/// as the key of the entry, and then storing all of the
/// given records as a slice.
pub struct ExtraAccountMetaList;

impl ExtraAccountMetaList {
    /// Initialize pod slice data for the given instruction and its required
    /// list of `ExtraAccountMeta`s
    ///
    /// The entry is written behind the entries that the buffer holds; a call
    /// that fails writes nothing.
    pub fn init<T: SplDiscriminate>(
        data: &mut [u8],
        extra_account_metas: &[ExtraAccountMeta],
    ) -> (r: Result<(), ProgramError>)
        ensures
            match spec_init(old(data)@, T::SPL_DISCRIMINATOR@, extra_account_metas@.len() as int) {
                Ok(p) => r == Ok::<(), ProgramError>(()) && final(data)@ == spec_with_list(
                    old(data)@,
                    p,
                    T::SPL_DISCRIMINATOR@,
                    spec_extra_views(extra_account_metas@),
                ),
                Err(e) => r == Err::<(), ProgramError>(e) && final(data)@ == old(data)@,
            },
    {
        match check_data(data) {
            Ok(_) => {},
            Err(e) => {
                return Err(e);
            },
        }
        let n = extra_account_metas.len();
        let tlv_size = match slice_size_of(n) {
            Ok(size) => size,
            Err(e) => {
                return Err(e);
            },
        };
        let discriminator = T::SPL_DISCRIMINATOR;
        let bytes = match alloc_entry(data, &discriminator, tlv_size) {
            Ok(b) => b,
            Err(e) => {
                return Err(e);
            },
        };
        let ghost views = spec_extra_views(extra_account_metas@);
        let ghost onto = bytes@;
        proof {
            assert(bytes@.subrange(0, 0) =~= Seq::<u8>::empty());
            lemma_splice_next(bytes@, onto, 0, spec_u32_bytes(n as u32), Seq::<u8>::empty());
            assert(Seq::<u8>::empty() + spec_u32_bytes(n as u32) =~= spec_u32_bytes(n as u32));
        }
        write_u32_at(bytes, 0, n as u32);
        let mut i: usize = 0;
        while i < n
            invariant
                i <= n,
                n == extra_account_metas@.len(),
                tlv_size == 4 + 35 * n,
                views == spec_extra_views(extra_account_metas@),
                bytes@.len() == tlv_size,
                onto.len() == tlv_size,
                bytes@.subrange(0, 4 + 35 * i) == spec_u32_bytes(n as u32) + spec_records_bytes(
                    views,
                    i as int,
                ),
                bytes@.subrange(4 + 35 * i, tlv_size as int) == onto.subrange(
                    4 + 35 * i,
                    tlv_size as int,
                ),
            decreases n - i,
        {
            let at = SLICE_HEADER_LEN + EXTRA_ACCOUNT_META_LEN * i;
            proof {
                assert(views[i as int] == extra_account_metas@[i as int]@);
                assert(spec_meta_bytes(views[i as int]).len() == 35);
                lemma_splice_next(
                    bytes@,
                    onto,
                    at as int,
                    spec_meta_bytes(views[i as int]),
                    spec_u32_bytes(n as u32) + spec_records_bytes(views, i as int),
                );
                assert(spec_u32_bytes(n as u32) + spec_records_bytes(views, i as int)
                    + spec_meta_bytes(views[i as int]) =~= spec_u32_bytes(n as u32)
                    + spec_records_bytes(views, i + 1));
            }
            extra_account_metas[i].pack_at(bytes, at);
            i += 1;
        }
        proof {
            assert(bytes@ =~= bytes@.subrange(0, tlv_size as int));
        }
        Ok(())
    }

    /// Get the records stored under the discriminator of `T` from an unpacked
    /// TLV: see `spec_stored_metas`.
    pub fn unpack_with_tlv_state<T: SplDiscriminate>(tlv_state: &TlvStateBorrowed) -> (r: Result<
        Vec<ExtraAccountMeta>,
        ProgramError,
    >)
        ensures
            match spec_stored_metas(tlv_state.data@, T::SPL_DISCRIMINATOR@) {
                Ok(metas) => r matches Ok(found) && spec_extra_views(found@) == metas,
                Err(e) => r matches Err(f) && f == e,
            },
    {
        let discriminator = T::SPL_DISCRIMINATOR;
        match get_first_bytes(tlv_state.data, &discriminator) {
            Ok(bytes) => unpack_slice(bytes),
            Err(e) => Err(e),
        }
    }

    /// Checks that a buffer is well formed and gets the records stored in it
    /// under the discriminator of `T`: see `spec_load_metas`.
    pub fn load<T: SplDiscriminate>(data: &[u8]) -> (r: Result<Vec<ExtraAccountMeta>, ProgramError>)
        ensures
            match spec_load_metas(data@, T::SPL_DISCRIMINATOR@) {
                Ok(metas) => r matches Ok(found) && spec_extra_views(found@) == metas,
                Err(e) => r matches Err(f) && f == e,
            },
    {
        match TlvStateBorrowed::unpack(data) {
            Ok(state) => Self::unpack_with_tlv_state::<T>(&state),
            Err(e) => Err(e),
        }
    }

    /// Get the byte size required to hold `num_items` items
    pub fn size_of(num_items: usize) -> (r: Result<usize, ProgramError>)
        ensures
            spec_slice_len(num_items as int) <= usize::MAX ==> r == Ok::<usize, ProgramError>(
                (if ENTRY_HEADER_LEN + spec_slice_len(num_items as int) > usize::MAX {
                    usize::MAX as int
                } else {
                    ENTRY_HEADER_LEN + spec_slice_len(num_items as int)
                }) as usize,
            ),
            spec_slice_len(num_items as int) > usize::MAX ==> r == Err::<usize, ProgramError>(
                ProgramError::Resolution(AccountResolutionError::CalculationFailure),
            ),
    {
        match slice_size_of(num_items) {
            Ok(size) => Ok(TlvStateBorrowed::get_base_len().saturating_add(size)),
            Err(e) => Err(e),
        }
    }
}

/// Whether every record of `metas` has an address configuration of
/// thirty-two bytes, as every stored record has.
pub open spec fn spec_records_wf(metas: Seq<ExtraAccountMetaView>) -> bool {
    forall|i: int| 0 <= i < metas.len() ==> (#[trigger] metas[i]).address_config.len() == 32
}

/// The buffer after the records `metas` are stored under `discriminator` in
/// the entry at `p`.
pub open spec fn spec_with_list(
    data: Seq<u8>,
    p: int,
    discriminator: Seq<u8>,
    metas: Seq<ExtraAccountMetaView>,
) -> Seq<u8> {
    data.subrange(0, p) + discriminator + spec_u32_bytes(
        spec_slice_len(metas.len() as int) as u32,
    ) + spec_slice_bytes(metas) + data.subrange(
        p + ENTRY_HEADER_LEN + spec_slice_len(metas.len() as int),
        data.len() as int,
    )
}

/// The record number `i` of the bytes of the first `upto` records is the
/// record number `i`.
proof fn lemma_record_at(metas: Seq<ExtraAccountMetaView>, upto: int, i: int)
    requires
        0 <= i < upto <= metas.len(),
        spec_records_wf(metas),
    ensures
        spec_records_bytes(metas, upto).len() == 35 * upto,
        spec_unpack_meta(spec_records_bytes(metas, upto).subrange(35 * i, 35 * i + 35))
            == metas[i],
    decreases upto,
{
    lemma_records_len(metas, upto);
    lemma_records_len(metas, upto - 1);
    let all = spec_records_bytes(metas, upto);
    let front = spec_records_bytes(metas, upto - 1);
    if i == upto - 1 {
        let bytes = spec_meta_bytes(metas[i]);
        assert(all.subrange(35 * i, 35 * i + 35) =~= bytes);
        assert(bytes.subrange(1, 33) =~= metas[i].address_config);
    } else {
        lemma_record_at(metas, upto - 1, i);
        assert(all.subrange(35 * i, 35 * i + 35) =~= front.subrange(35 * i, 35 * i + 35));
    }
}

/// The value that stores a list of records holds that list.
pub proof fn lemma_slice_round_trip(metas: Seq<ExtraAccountMetaView>)
    requires
        spec_records_wf(metas),
        spec_slice_len(metas.len() as int) <= u32::MAX,
    ensures
        spec_slice_metas(spec_slice_bytes(metas)) == Ok::<Seq<ExtraAccountMetaView>, ProgramError>(
            metas,
        ),
{
    let n = metas.len() as int;
    let bytes = spec_slice_bytes(metas);
    let records = spec_records_bytes(metas, n);
    lemma_records_len(metas, n);
    crate::pod::lemma_le_of_u32(n as u32);
    assert(bytes.subrange(0, 4) =~= spec_u32_bytes(n as u32));
    assert(bytes.len() == 4 + 35 * n);
    assert((35 * n) % 35 == 0 && (35 * n) / 35 == n) by (nonlinear_arith)
        requires
            n >= 0,
    ;
    assert(spec_slice_count(bytes) == Ok::<int, ProgramError>(n));
    let found = spec_slice_metas(bytes).unwrap();
    assert forall|i: int| 0 <= i < n implies found[i] == metas[i] by {
        lemma_record_at(metas, n, i);
        assert(bytes.subrange(spec_slice_len(i), spec_slice_len(i + 1)) =~= records.subrange(
            35 * i,
            35 * i + 35,
        ));
    }
    assert(found =~= metas);
}

/// What the buffer with a stored list holds in front of the entry, in its
/// header and in its value.
proof fn lemma_with_list_parts(
    data: Seq<u8>,
    p: int,
    discriminator: Seq<u8>,
    metas: Seq<ExtraAccountMetaView>,
)
    requires
        0 <= p,
        discriminator.len() == 8,
        spec_records_wf(metas),
        spec_slice_len(metas.len() as int) <= u32::MAX,
        p + ENTRY_HEADER_LEN + spec_slice_len(metas.len() as int) <= data.len(),
    ensures
        ({
            let after = spec_with_list(data, p, discriminator, metas);
            let size = spec_slice_len(metas.len() as int);
            &&& after.len() == data.len()
            &&& forall|a: int, b: int|
                0 <= a <= b <= p ==> #[trigger] after.subrange(a, b) == data.subrange(a, b)
            &&& spec_discriminator_at(after, p) == discriminator
            &&& spec_length_at(after, p) == size
            &&& after.subrange(p + ENTRY_HEADER_LEN, p + ENTRY_HEADER_LEN + size)
                == spec_slice_bytes(metas)
        }),
{
    let after = spec_with_list(data, p, discriminator, metas);
    let size = spec_slice_len(metas.len() as int);
    lemma_records_len(metas, metas.len() as int);
    crate::pod::lemma_le_of_u32(size as u32);
    assert forall|a: int, b: int| 0 <= a <= b <= p implies #[trigger] after.subrange(a, b)
        == data.subrange(a, b) by {
        assert(after.subrange(a, b) =~= data.subrange(a, b));
    }
    assert(after.subrange(p, p + 8) =~= discriminator);
    assert(after.subrange(p + 8, p + 12) =~= spec_u32_bytes(size as u32));
    assert(after.subrange(p + 12, p + 12 + size) =~= spec_slice_bytes(metas));
}

/// The lookup of a stored list, from an entry in front of it, finds it.
proof fn lemma_find_stored(
    data: Seq<u8>,
    p: int,
    discriminator: Seq<u8>,
    metas: Seq<ExtraAccountMetaView>,
    s: int,
)
    requires
        0 <= s <= p,
        discriminator.len() == 8,
        spec_records_wf(metas),
        spec_slice_len(metas.len() as int) <= u32::MAX,
        p + ENTRY_HEADER_LEN + spec_slice_len(metas.len() as int) <= data.len(),
        spec_tlv_find(data, s, discriminator, true) == Ok::<int, ProgramError>(p),
        !all_zero(discriminator),
    ensures
        spec_tlv_find(spec_with_list(data, p, discriminator, metas), s, discriminator, false)
            == Ok::<int, ProgramError>(p),
    decreases spec_remaining(data, s),
{
    let after = spec_with_list(data, p, discriminator, metas);
    lemma_with_list_parts(data, p, discriminator, metas);
    lemma_tlv_find_ok(data, s, discriminator, true);
    if s < p {
        let end = spec_value_end(data, s);
        lemma_tlv_find_ok(data, end, discriminator, true);
        assert(after.subrange(s, s + 8) == data.subrange(s, s + 8));
        assert(after.subrange(s + 8, s + 12) == data.subrange(s + 8, s + 12));
        lemma_find_stored(data, p, discriminator, metas, end);
    }
}

/// A list of records that is stored in a buffer is the list that is loaded
/// from the buffer afterwards.
pub proof fn lemma_init_then_load(
    data: Seq<u8>,
    discriminator: Seq<u8>,
    metas: Seq<ExtraAccountMetaView>,
)
    requires
        discriminator.len() == 8,
        !all_zero(discriminator),
        spec_records_wf(metas),
        spec_init(data, discriminator, metas.len() as int) is Ok,
    ensures
        spec_stored_metas(
            spec_with_list(
                data,
                spec_init(data, discriminator, metas.len() as int).unwrap(),
                discriminator,
                metas,
            ),
            discriminator,
        ) == Ok::<Seq<ExtraAccountMetaView>, ProgramError>(metas),
{
    let p = spec_init(data, discriminator, metas.len() as int).unwrap();
    lemma_tlv_find_ok(data, 0, discriminator, true);
    lemma_find_stored(data, p, discriminator, metas, 0);
    lemma_with_list_parts(data, p, discriminator, metas);
    lemma_slice_round_trip(metas);
}

} // verus!

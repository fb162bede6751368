//! What holds of the operations together: packing undoes unpacking, no
//! entry is written behind a base record of the other kind, and resizing one
//! entry leaves the others as they are.

use crate::error::ProgramError;
use crate::extension::entry::{
    lemma_found_entry_is_used, spec_alloc, spec_realloc, spec_realloc_bytes, spec_resized,
    spec_with_entry,
};
use crate::extension::registry::{
    AccountType, BaseState, Extension, ExtensionType, HEADER_LEN, TYPE_LEN,
};
use crate::extension::scan::{
    lemma_find_ok, lemma_tlv_info_bounds, spec_entry_end, spec_extension_bytes, spec_find,
    spec_remaining, spec_tlv_info, spec_type_at, spec_value_len,
};
use crate::extension::view::{
    spec_account_type_bytes, spec_account_type_offset, spec_is_extended, spec_is_extension,
    spec_padding, spec_tlv_data, spec_unpack_state, spec_unpack_uninitialized, Pod,
};
use crate::pod::{lemma_le_of_u16, spec_u16_bytes, zeros};
use vstd::prelude::*;

verus! {

/// Packing the base record of a buffer over the bytes it was read from, and
/// putting the padding, the kind marker and the entries behind it as they
/// were found, gives the buffer back, byte for byte.
pub proof fn lemma_unpack_pack_roundtrip<S: BaseState>(buffer: Seq<u8>)
    requires
        spec_unpack_state::<S>(buffer) is Ok || spec_unpack_uninitialized::<S>(buffer) is Ok,
    ensures
        ({
            let base = S::spec_unpack(buffer.subrange(0, S::LEN as int)).unwrap();
            S::spec_pack(base, buffer.subrange(0, S::LEN as int)) + spec_padding::<S>(buffer)
                + spec_account_type_bytes::<S>(buffer) + spec_tlv_data::<S>(buffer) == buffer
        }),
        spec_unpack_state::<S>(buffer) matches Ok(base) ==> Some(base) == S::spec_unpack(
            buffer.subrange(0, S::LEN as int),
        ),
        spec_unpack_uninitialized::<S>(buffer) matches Ok(base) ==> Some(base) == S::spec_unpack(
            buffer.subrange(0, S::LEN as int),
        ),
{
    let head = buffer.subrange(0, S::LEN as int);
    S::lemma_pack_unpacked(head);
    let base = S::spec_unpack(head).unwrap();
    assert(S::spec_pack(base, head) + spec_padding::<S>(buffer) + spec_account_type_bytes::<S>(
        buffer,
    ) + spec_tlv_data::<S>(buffer) =~= buffer);
}

/// The kind marker of a buffer that unpacks names the kind of its base
/// record, and no entry of a type of the other kind can be allocated in it:
/// the attempt fails with `InvalidAccountData`, whatever the buffer holds.
pub proof fn lemma_no_cross_kind_alloc<S: BaseState>(
    buffer: Seq<u8>,
    extension_type: ExtensionType,
    length: int,
    overwrite: bool,
)
    requires
        spec_unpack_state::<S>(buffer) is Ok,
        spec_is_extended::<S>(buffer),
        Some(extension_type.spec_account_type()) != AccountType::spec_from_code(
            buffer[spec_account_type_offset::<S>()],
        ),
    ensures
        AccountType::spec_from_code(buffer[spec_account_type_offset::<S>()]) == Some(
            S::ACCOUNT_TYPE,
        ),
        spec_alloc(spec_tlv_data::<S>(buffer), S::ACCOUNT_TYPE, extension_type, length, overwrite)
            == Err::<int, ProgramError>(ProgramError::InvalidAccountData),
{
}

/// Lookup is idempotent: two lookups of a value in the same entries give the
/// same error, or values with the same bytes.
pub proof fn lemma_lookup_is_idempotent<V: Extension + Pod>(
    tlv: Seq<u8>,
    account_type: AccountType,
    first: Result<V, ProgramError>,
    second: Result<V, ProgramError>,
)
    requires
        spec_is_extension::<V>(tlv, account_type, first),
        spec_is_extension::<V>(tlv, account_type, second),
    ensures
        first is Err ==> second == first,
        first matches Ok(a) ==> (second matches Ok(b) && a.spec_bytes() == b.spec_bytes()),
{
}

/// What the resized buffer holds up to the length field of the resized entry,
/// and behind the resized value.
proof fn lemma_resized_parts(tlv: Seq<u8>, p: int, old_length: int, length: int, used: int)
    requires
        0 <= p,
        0 <= old_length,
        0 <= length <= u16::MAX,
        p + HEADER_LEN + old_length <= used <= tlv.len(),
        used + length - old_length <= tlv.len(),
    ensures
        ({
            let after = spec_resized(tlv, p, old_length, length, used);
            &&& after.len() == tlv.len()
            &&& forall|a: int, b: int|
                0 <= a <= b <= p + TYPE_LEN ==> #[trigger] after.subrange(a, b) == tlv.subrange(
                    a,
                    b,
                )
            &&& forall|a: int, b: int|
                p + HEADER_LEN + old_length <= a <= b <= used ==> #[trigger] after.subrange(
                    a + length - old_length,
                    b + length - old_length,
                ) == tlv.subrange(a, b)
            &&& spec_value_len(after, p) == length
        }),
{
    let after = spec_resized(tlv, p, old_length, length, used);
    assert forall|a: int, b: int| 0 <= a <= b <= p + TYPE_LEN implies #[trigger] after.subrange(
        a,
        b,
    ) == tlv.subrange(a, b) by {
        assert(after.subrange(a, b) =~= tlv.subrange(a, b));
    }
    assert forall|a: int, b: int|
        p + HEADER_LEN + old_length <= a <= b <= used implies #[trigger] after.subrange(
        a + length - old_length,
        b + length - old_length,
    ) == tlv.subrange(a, b) by {
        assert(after.subrange(a + length - old_length, b + length - old_length) =~= tlv.subrange(
            a,
            b,
        ));
    }
    assert(after.subrange(p + TYPE_LEN, p + HEADER_LEN) =~= spec_u16_bytes(length as u16));
    lemma_le_of_u16(length as u16);
}

/// The offset of an entry of the old buffer in the resized one.
pub open spec fn spec_moved(q: int, p: int, old_length: int, length: int) -> int {
    if q <= p {
        q
    } else {
        q + length - old_length
    }
}

/// The lookup of `other` among the entries behind the resized one finds in the
/// resized buffer what it found in the old one, moved with the entries.
proof fn lemma_find_behind(
    tlv: Seq<u8>,
    p: int,
    old_length: int,
    length: int,
    used: int,
    other: ExtensionType,
    s: int,
)
    requires
        0 <= p,
        0 <= old_length,
        0 <= length <= u16::MAX,
        p + HEADER_LEN + old_length <= s <= used <= tlv.len(),
        used + length - old_length <= tlv.len(),
        other != ExtensionType::Uninitialized,
        spec_tlv_info(tlv, s) matches Ok(info) && info.used_len == used,
        spec_find(tlv, s, other, false) is Ok,
    ensures
        ({
            let after = spec_resized(tlv, p, old_length, length, used);
            let q = spec_find(tlv, s, other, false).unwrap();
            let moved = q + length - old_length;
            &&& spec_find(after, s + length - old_length, other, false) == Ok::<int, ProgramError>(
                moved,
            )
            &&& spec_entry_end(tlv, q) <= used
            &&& spec_value_len(after, moved) == spec_value_len(tlv, q)
            &&& after.subrange(moved + HEADER_LEN, spec_entry_end(after, moved)) == tlv.subrange(
                q + HEADER_LEN,
                spec_entry_end(tlv, q),
            )
        }),
    decreases spec_remaining(tlv, s),
{
    let after = spec_resized(tlv, p, old_length, length, used);
    let delta = length - old_length;
    lemma_resized_parts(tlv, p, old_length, length, used);
    let t = spec_type_at(tlv, s).unwrap();
    let end = spec_entry_end(tlv, s);
    lemma_tlv_info_bounds(tlv, end);
    assert(after.subrange(s + delta, s + TYPE_LEN + delta) == tlv.subrange(s, s + TYPE_LEN));
    assert(after.subrange(s + TYPE_LEN + delta, s + HEADER_LEN + delta) == tlv.subrange(
        s + TYPE_LEN,
        s + HEADER_LEN,
    ));
    assert(spec_type_at(after, s + delta) == Some(t));
    assert(spec_value_len(after, s + delta) == spec_value_len(tlv, s));
    if t == other {
        assert(after.subrange(s + HEADER_LEN + delta, end + delta) == tlv.subrange(
            s + HEADER_LEN,
            end,
        ));
    } else {
        lemma_find_behind(tlv, p, old_length, length, used, other, end);
    }
}

/// The lookup of `other` from an entry in front of the resized one finds in
/// the resized buffer what it found in the old one, moved with the entries
/// where it stands behind the resized one.
proof fn lemma_find_across(
    tlv: Seq<u8>,
    p: int,
    length: int,
    used: int,
    ext: ExtensionType,
    other: ExtensionType,
    s: int,
)
    requires
        0 <= s <= p,
        0 <= length <= u16::MAX,
        used <= tlv.len(),
        used + length - spec_value_len(tlv, p) <= tlv.len(),
        ext != ExtensionType::Uninitialized,
        other != ExtensionType::Uninitialized,
        other != ext,
        spec_find(tlv, s, ext, false) == Ok::<int, ProgramError>(p),
        spec_tlv_info(tlv, s) matches Ok(info) && info.used_len == used,
        spec_find(tlv, s, other, false) is Ok,
    ensures
        ({
            let old_length = spec_value_len(tlv, p);
            let after = spec_resized(tlv, p, old_length, length, used);
            let q = spec_find(tlv, s, other, false).unwrap();
            let moved = spec_moved(q, p, old_length, length);
            &&& spec_find(after, s, other, false) == Ok::<int, ProgramError>(moved)
            &&& spec_entry_end(tlv, q) <= used
            &&& spec_value_len(after, moved) == spec_value_len(tlv, q)
            &&& after.subrange(moved + HEADER_LEN, spec_entry_end(after, moved)) == tlv.subrange(
                q + HEADER_LEN,
                spec_entry_end(tlv, q),
            )
        }),
    decreases spec_remaining(tlv, s),
{
    let old_length = spec_value_len(tlv, p);
    let after = spec_resized(tlv, p, old_length, length, used);
    lemma_find_ok(tlv, s, ext, false);
    lemma_found_entry_is_used(tlv, s, ext);
    lemma_resized_parts(tlv, p, old_length, length, used);
    let t = spec_type_at(tlv, s).unwrap();
    let end = spec_entry_end(tlv, s);
    assert(after.subrange(s, s + TYPE_LEN) == tlv.subrange(s, s + TYPE_LEN));
    assert(spec_type_at(after, s) == Some(t));
    if s == p {
        lemma_find_behind(tlv, p, old_length, length, used, other, end);
        lemma_find_ok(tlv, end, other, false);
    } else {
        lemma_find_ok(tlv, end, ext, false);
        assert(after.subrange(s + TYPE_LEN, s + HEADER_LEN) == tlv.subrange(
            s + TYPE_LEN,
            s + HEADER_LEN,
        ));
        assert(spec_value_len(after, s) == spec_value_len(tlv, s));
        if t == other {
            assert(after.subrange(s + HEADER_LEN, end) =~= tlv.subrange(s + HEADER_LEN, end));
        } else {
            lemma_find_across(tlv, p, length, used, ext, other, end);
        }
    }
}

/// Resizing the entry of one type leaves every other entry as it was: an
/// entry that the buffer held before holds the same bytes afterwards,
/// whether it stands in front of the resized entry or behind it.
pub proof fn lemma_realloc_preserves_other_entries(
    tlv: Seq<u8>,
    account_type: AccountType,
    extension_type: ExtensionType,
    other: ExtensionType,
    length: int,
)
    requires
        0 <= length,
        extension_type != ExtensionType::Uninitialized,
        other != ExtensionType::Uninitialized,
        other != extension_type,
        spec_realloc(tlv, extension_type, length) is Ok,
        spec_extension_bytes(tlv, account_type, other) is Ok,
    ensures
        spec_extension_bytes(
            spec_realloc_bytes(
                tlv,
                spec_realloc(tlv, extension_type, length).unwrap(),
                length,
                spec_tlv_info(tlv, 0).unwrap().used_len,
            ),
            account_type,
            other,
        ) == spec_extension_bytes(tlv, account_type, other),
{
    let p = spec_realloc(tlv, extension_type, length).unwrap();
    let used = spec_tlv_info(tlv, 0).unwrap().used_len;
    lemma_find_ok(tlv, 0, extension_type, false);
    lemma_found_entry_is_used(tlv, 0, extension_type);
    lemma_find_across(tlv, p, length, used, extension_type, other, 0);
    lemma_resized_parts(tlv, p, spec_value_len(tlv, p), length, used);
}

/// The lookup of the resized entry from an entry in front of it finds it in
/// the resized buffer where it stood.
proof fn lemma_find_resized(
    tlv: Seq<u8>,
    p: int,
    length: int,
    used: int,
    ext: ExtensionType,
    s: int,
)
    requires
        0 <= s <= p,
        0 <= length <= u16::MAX,
        used <= tlv.len(),
        used + length - spec_value_len(tlv, p) <= tlv.len(),
        ext != ExtensionType::Uninitialized,
        spec_find(tlv, s, ext, false) == Ok::<int, ProgramError>(p),
        spec_tlv_info(tlv, s) matches Ok(info) && info.used_len == used,
    ensures
        spec_find(spec_resized(tlv, p, spec_value_len(tlv, p), length, used), s, ext, false)
            == Ok::<int, ProgramError>(p),
    decreases spec_remaining(tlv, s),
{
    let old_length = spec_value_len(tlv, p);
    let after = spec_resized(tlv, p, old_length, length, used);
    lemma_find_ok(tlv, s, ext, false);
    lemma_found_entry_is_used(tlv, s, ext);
    lemma_resized_parts(tlv, p, old_length, length, used);
    let end = spec_entry_end(tlv, s);
    assert(after.subrange(s, s + TYPE_LEN) == tlv.subrange(s, s + TYPE_LEN));
    if s != p {
        lemma_find_ok(tlv, end, ext, false);
        assert(after.subrange(s + TYPE_LEN, s + HEADER_LEN) == tlv.subrange(
            s + TYPE_LEN,
            s + HEADER_LEN,
        ));
        lemma_find_resized(tlv, p, length, used, ext, end);
    }
}

/// The resized entry holds the bytes that it held, as far as the new length
/// reaches, and zero bytes behind them.
pub proof fn lemma_realloc_value(
    tlv: Seq<u8>,
    account_type: AccountType,
    extension_type: ExtensionType,
    length: int,
)
    requires
        0 <= length,
        extension_type != ExtensionType::Uninitialized,
        extension_type.spec_account_type() == account_type,
        spec_realloc(tlv, extension_type, length) is Ok,
    ensures
        ({
            let p = spec_realloc(tlv, extension_type, length).unwrap();
            let old_length = spec_value_len(tlv, p);
            let kept = if length < old_length {
                length
            } else {
                old_length
            };
            spec_extension_bytes(
                spec_realloc_bytes(tlv, p, length, spec_tlv_info(tlv, 0).unwrap().used_len),
                account_type,
                extension_type,
            ) == Ok::<Seq<u8>, ProgramError>(
                tlv.subrange(p + HEADER_LEN, p + HEADER_LEN + kept) + zeros(
                    (length - kept) as nat,
                ),
            )
        }),
{
    let p = spec_realloc(tlv, extension_type, length).unwrap();
    let used = spec_tlv_info(tlv, 0).unwrap().used_len;
    let old_length = spec_value_len(tlv, p);
    let after = spec_realloc_bytes(tlv, p, length, used);
    lemma_find_ok(tlv, 0, extension_type, false);
    lemma_found_entry_is_used(tlv, 0, extension_type);
    lemma_find_resized(tlv, p, length, used, extension_type, 0);
    lemma_resized_parts(tlv, p, old_length, length, used);
    let kept = if length < old_length {
        length
    } else {
        old_length
    };
    assert(after.subrange(p + HEADER_LEN, p + HEADER_LEN + length) =~= tlv.subrange(
        p + HEADER_LEN,
        p + HEADER_LEN + kept,
    ) + zeros((length - kept) as nat));
}

/// What the buffer with a written entry holds in front of the entry, in
/// its header and value, and behind it.
proof fn lemma_with_entry_parts(
    tlv: Seq<u8>,
    p: int,
    extension_type: ExtensionType,
    value: Seq<u8>,
)
    requires
        0 <= p,
        value.len() <= u16::MAX,
        p + HEADER_LEN + value.len() <= tlv.len(),
    ensures
        ({
            let after = spec_with_entry(tlv, p, extension_type, value.len() as int, value);
            &&& after.len() == tlv.len()
            &&& forall|a: int, b: int|
                0 <= a <= b <= p ==> #[trigger] after.subrange(a, b) == tlv.subrange(a, b)
            &&& forall|a: int, b: int|
                p + HEADER_LEN + value.len() <= a <= b <= tlv.len() ==> #[trigger] after.subrange(
                    a,
                    b,
                ) == tlv.subrange(a, b)
            &&& spec_type_at(after, p) == Some(extension_type)
            &&& spec_value_len(after, p) == value.len()
            &&& after.subrange(p + HEADER_LEN, p + HEADER_LEN + value.len()) == value
        }),
{
    let after = spec_with_entry(tlv, p, extension_type, value.len() as int, value);
    assert forall|a: int, b: int| 0 <= a <= b <= p implies #[trigger] after.subrange(a, b)
        == tlv.subrange(a, b) by {
        assert(after.subrange(a, b) =~= tlv.subrange(a, b));
    }
    assert forall|a: int, b: int|
        p + HEADER_LEN + value.len() <= a <= b <= tlv.len() implies #[trigger] after.subrange(
        a,
        b,
    ) == tlv.subrange(a, b) by {
        assert(after.subrange(a, b) =~= tlv.subrange(a, b));
    }
    assert(after.subrange(p, p + TYPE_LEN) =~= spec_u16_bytes(extension_type.spec_code()));
    assert(after.subrange(p + TYPE_LEN, p + HEADER_LEN) =~= spec_u16_bytes(value.len() as u16));
    assert(after.subrange(p + HEADER_LEN, p + HEADER_LEN + value.len()) =~= value);
    lemma_le_of_u16(extension_type.spec_code());
    lemma_le_of_u16(value.len() as u16);
}

/// The lookup of a written entry, from an entry in front of it, finds it.
proof fn lemma_find_written(
    tlv: Seq<u8>,
    p: int,
    extension_type: ExtensionType,
    value: Seq<u8>,
    s: int,
)
    requires
        0 <= s <= p,
        value.len() <= u16::MAX,
        p + HEADER_LEN + value.len() <= tlv.len(),
        extension_type != ExtensionType::Uninitialized,
        spec_find(tlv, s, extension_type, true) == Ok::<int, ProgramError>(p),
    ensures
        spec_find(
            spec_with_entry(tlv, p, extension_type, value.len() as int, value),
            s,
            extension_type,
            false,
        ) == Ok::<int, ProgramError>(p),
    decreases spec_remaining(tlv, s),
{
    let after = spec_with_entry(tlv, p, extension_type, value.len() as int, value);
    lemma_with_entry_parts(tlv, p, extension_type, value);
    lemma_find_ok(tlv, s, extension_type, true);
    if s < p {
        let end = spec_entry_end(tlv, s);
        lemma_find_ok(tlv, end, extension_type, true);
        assert(after.subrange(s, s + TYPE_LEN) == tlv.subrange(s, s + TYPE_LEN));
        assert(after.subrange(s + TYPE_LEN, s + HEADER_LEN) == tlv.subrange(
            s + TYPE_LEN,
            s + HEADER_LEN,
        ));
        lemma_find_written(tlv, p, extension_type, value, end);
    }
}

/// A value that is stored in a new entry, or over an entry of its type, is
/// the value that a lookup of that type finds afterwards.
pub proof fn lemma_alloc_then_lookup(
    tlv: Seq<u8>,
    account_type: AccountType,
    extension_type: ExtensionType,
    value: Seq<u8>,
    overwrite: bool,
)
    requires
        extension_type != ExtensionType::Uninitialized,
        spec_alloc(tlv, account_type, extension_type, value.len() as int, overwrite) is Ok,
    ensures
        spec_extension_bytes(
            spec_with_entry(
                tlv,
                spec_alloc(
                    tlv,
                    account_type,
                    extension_type,
                    value.len() as int,
                    overwrite,
                ).unwrap(),
                extension_type,
                value.len() as int,
                value,
            ),
            account_type,
            extension_type,
        ) == Ok::<Seq<u8>, ProgramError>(value),
{
    let p = spec_alloc(tlv, account_type, extension_type, value.len() as int, overwrite).unwrap();
    lemma_find_ok(tlv, 0, extension_type, true);
    lemma_find_written(tlv, p, extension_type, value, 0);
    lemma_with_entry_parts(tlv, p, extension_type, value);
}

/// The lookup of `other` behind a written entry finds what it found before
/// the entry was written.
proof fn lemma_find_behind_written(
    tlv: Seq<u8>,
    p: int,
    extension_type: ExtensionType,
    value: Seq<u8>,
    other: ExtensionType,
    s: int,
)
    requires
        0 <= p,
        value.len() <= u16::MAX,
        p + HEADER_LEN + value.len() <= s,
        spec_find(tlv, s, other, false) is Ok,
        spec_entry_end(tlv, spec_find(tlv, s, other, false).unwrap()) <= tlv.len(),
    ensures
        ({
            let after = spec_with_entry(tlv, p, extension_type, value.len() as int, value);
            let q = spec_find(tlv, s, other, false).unwrap();
            &&& spec_find(after, s, other, false) == Ok::<int, ProgramError>(q)
            &&& spec_value_len(after, q) == spec_value_len(tlv, q)
            &&& after.subrange(q + HEADER_LEN, spec_entry_end(tlv, q)) == tlv.subrange(
                q + HEADER_LEN,
                spec_entry_end(tlv, q),
            )
        }),
    decreases spec_remaining(tlv, s),
{
    let after = spec_with_entry(tlv, p, extension_type, value.len() as int, value);
    lemma_with_entry_parts(tlv, p, extension_type, value);
    let t = spec_type_at(tlv, s).unwrap();
    let end = spec_entry_end(tlv, s);
    assert(after.subrange(s, s + TYPE_LEN) == tlv.subrange(s, s + TYPE_LEN));
    assert(after.subrange(s + TYPE_LEN, s + HEADER_LEN) == tlv.subrange(
        s + TYPE_LEN,
        s + HEADER_LEN,
    ));
    if t == other {
        assert(after.subrange(s + HEADER_LEN, end) == tlv.subrange(s + HEADER_LEN, end));
    } else {
        lemma_find_behind_written(tlv, p, extension_type, value, other, end);
    }
}

/// The lookup of `other`, from an entry in front of a written entry, finds
/// what it found before the entry was written.
proof fn lemma_find_across_written(
    tlv: Seq<u8>,
    p: int,
    extension_type: ExtensionType,
    value: Seq<u8>,
    other: ExtensionType,
    s: int,
)
    requires
        0 <= s <= p,
        value.len() <= u16::MAX,
        p + HEADER_LEN + value.len() <= tlv.len(),
        extension_type != ExtensionType::Uninitialized,
        other != ExtensionType::Uninitialized,
        other != extension_type,
        spec_find(tlv, s, extension_type, true) == Ok::<int, ProgramError>(p),
        spec_type_at(tlv, p) == Some(extension_type) ==> spec_value_len(tlv, p) == value.len(),
        spec_find(tlv, s, other, false) is Ok,
        spec_entry_end(tlv, spec_find(tlv, s, other, false).unwrap()) <= tlv.len(),
    ensures
        ({
            let after = spec_with_entry(tlv, p, extension_type, value.len() as int, value);
            let q = spec_find(tlv, s, other, false).unwrap();
            &&& spec_find(after, s, other, false) == Ok::<int, ProgramError>(q)
            &&& spec_value_len(after, q) == spec_value_len(tlv, q)
            &&& after.subrange(q + HEADER_LEN, spec_entry_end(tlv, q)) == tlv.subrange(
                q + HEADER_LEN,
                spec_entry_end(tlv, q),
            )
        }),
    decreases spec_remaining(tlv, s),
{
    let after = spec_with_entry(tlv, p, extension_type, value.len() as int, value);
    lemma_with_entry_parts(tlv, p, extension_type, value);
    lemma_find_ok(tlv, s, extension_type, true);
    let t = spec_type_at(tlv, s).unwrap();
    let end = spec_entry_end(tlv, s);
    if s < p {
        lemma_find_ok(tlv, end, extension_type, true);
        assert(after.subrange(s, s + TYPE_LEN) == tlv.subrange(s, s + TYPE_LEN));
        assert(after.subrange(s + TYPE_LEN, s + HEADER_LEN) == tlv.subrange(
            s + TYPE_LEN,
            s + HEADER_LEN,
        ));
        if t == other {
            assert(after.subrange(s + HEADER_LEN, end) == tlv.subrange(s + HEADER_LEN, end));
        } else {
            lemma_find_across_written(tlv, p, extension_type, value, other, end);
        }
    } else {
        // the walk for `other` went on behind the slot, so the slot held an
        // entry of the written type and of the written length
        lemma_find_behind_written(tlv, p, extension_type, value, other, end);
    }
}

/// Writing an entry leaves every other entry as it was: an entry that the
/// buffer held before holds the same bytes afterwards.
pub proof fn lemma_alloc_preserves_other_entries(
    tlv: Seq<u8>,
    account_type: AccountType,
    extension_type: ExtensionType,
    other: ExtensionType,
    value: Seq<u8>,
    overwrite: bool,
)
    requires
        extension_type != ExtensionType::Uninitialized,
        other != ExtensionType::Uninitialized,
        other != extension_type,
        spec_alloc(tlv, account_type, extension_type, value.len() as int, overwrite) is Ok,
        spec_extension_bytes(tlv, account_type, other) is Ok,
    ensures
        spec_extension_bytes(
            spec_with_entry(
                tlv,
                spec_alloc(
                    tlv,
                    account_type,
                    extension_type,
                    value.len() as int,
                    overwrite,
                ).unwrap(),
                extension_type,
                value.len() as int,
                value,
            ),
            account_type,
            other,
        ) == spec_extension_bytes(tlv, account_type, other),
{
    let p = spec_alloc(tlv, account_type, extension_type, value.len() as int, overwrite).unwrap();
    lemma_find_ok(tlv, 0, extension_type, true);
    lemma_find_across_written(tlv, p, extension_type, value, other, 0);
    lemma_with_entry_parts(tlv, p, extension_type, value);
}

} // verus!

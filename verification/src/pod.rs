//! Fixed-width little-endian codecs: the alphabet of every stored value.

use vstd::prelude::*;

verus! {

/// The number that `bytes` spell in little-endian order.
pub open spec fn spec_le(bytes: Seq<u8>) -> nat
    decreases bytes.len(),
{
    if bytes.len() == 0 {
        0
    } else {
        bytes[0] as nat + 256 * spec_le(bytes.drop_first())
    }
}

/// The two little-endian bytes of `x`.
pub open spec fn spec_u16_bytes(x: u16) -> Seq<u8> {
    seq![(x % 256) as u8, (x / 256) as u8]
}

/// The four little-endian bytes of `x`.
pub open spec fn spec_u32_bytes(x: u32) -> Seq<u8> {
    seq![
        (x % 256) as u8,
        (x / 256 % 256) as u8,
        (x / 65536 % 256) as u8,
        (x / 16777216) as u8,
    ]
}

/// The eight little-endian bytes of `x`.
pub open spec fn spec_u64_bytes(x: u64) -> Seq<u8> {
    seq![
        (x % 256) as u8,
        (x / 0x100 % 256) as u8,
        (x / 0x1_0000 % 256) as u8,
        (x / 0x100_0000 % 256) as u8,
        (x / 0x1_0000_0000 % 256) as u8,
        (x / 0x100_0000_0000 % 256) as u8,
        (x / 0x1_0000_0000_0000 % 256) as u8,
        (x / 0x100_0000_0000_0000) as u8,
    ]
}

/// `spec_le` of two bytes, written out.
pub proof fn lemma_le_2(b: Seq<u8>)
    requires
        b.len() == 2,
    ensures
        spec_le(b) == b[0] + 256 * b[1],
        spec_le(b) <= u16::MAX,
{
    reveal_with_fuel(spec_le, 3);
    assert(b.drop_first().drop_first().len() == 0);
}

/// `spec_le` of four bytes, written out.
pub proof fn lemma_le_4(b: Seq<u8>)
    requires
        b.len() == 4,
    ensures
        spec_le(b) == b[0] + 256 * b[1] + 65536 * b[2] + 16777216 * b[3],
        spec_le(b) <= u32::MAX,
{
    lemma_le_2(b.drop_first().drop_first());
    reveal_with_fuel(spec_le, 3);
    assert(b.drop_first().drop_first()[0] == b[2]);
    assert(b.drop_first().drop_first()[1] == b[3]);
}

/// `spec_le` of eight bytes, written out.
pub proof fn lemma_le_8(b: Seq<u8>)
    requires
        b.len() == 8,
    ensures
        spec_le(b) == b[0] + 0x100 * b[1] + 0x1_0000 * b[2] + 0x100_0000 * b[3] + 0x1_0000_0000
            * b[4] + 0x100_0000_0000 * b[5] + 0x1_0000_0000_0000 * b[6] + 0x100_0000_0000_0000
            * b[7],
        spec_le(b) <= u64::MAX,
{
    let t = b.subrange(4, 8);
    lemma_le_4(t);
    reveal_with_fuel(spec_le, 5);
    let d1 = b.drop_first();
    let d2 = d1.drop_first();
    let d3 = d2.drop_first();
    let d4 = d3.drop_first();
    assert(d4 =~= t);
    assert(d1[0] == b[1] && d2[0] == b[2] && d3[0] == b[3]);
}

/// Decoding undoes encoding of a `u16`.
pub proof fn lemma_le_of_u16(x: u16)
    ensures
        spec_le(spec_u16_bytes(x)) == x,
{
    lemma_le_2(spec_u16_bytes(x));
}

/// Decoding undoes encoding of a `u32`.
pub proof fn lemma_le_of_u32(x: u32)
    ensures
        spec_le(spec_u32_bytes(x)) == x,
{
    lemma_le_4(spec_u32_bytes(x));
    assert(x == x % 256 + 256 * (x / 256 % 256) + 65536 * (x / 65536 % 256) + 16777216 * (x
        / 16777216)) by (bit_vector);
    assert(x / 16777216 < 256) by (bit_vector);
}

/// Decoding undoes encoding of a `u64`.
pub proof fn lemma_le_of_u64(x: u64)
    ensures
        spec_le(spec_u64_bytes(x)) == x,
{
    lemma_le_8(spec_u64_bytes(x));
    assert(x == x % 256 + 0x100 * (x / 0x100 % 256) + 0x1_0000 * (x / 0x1_0000 % 256) + 0x100_0000
        * (x / 0x100_0000 % 256) + 0x1_0000_0000 * (x / 0x1_0000_0000 % 256) + 0x100_0000_0000 * (x
        / 0x100_0000_0000 % 256) + 0x1_0000_0000_0000 * (x / 0x1_0000_0000_0000 % 256)
        + 0x100_0000_0000_0000 * (x / 0x100_0000_0000_0000)) by (bit_vector);
    assert(x / 0x100_0000_0000_0000 < 256) by (bit_vector);
}

/// Encoding undoes decoding of two bytes.
pub proof fn lemma_bytes_of_le_2(b: Seq<u8>)
    requires
        b.len() == 2,
    ensures
        spec_u16_bytes(spec_le(b) as u16) == b,
{
    lemma_le_2(b);
    assert(spec_u16_bytes(spec_le(b) as u16) =~= b);
}

/// Encoding undoes decoding of four bytes.
pub proof fn lemma_bytes_of_le_4(b: Seq<u8>)
    requires
        b.len() == 4,
    ensures
        spec_u32_bytes(spec_le(b) as u32) == b,
{
    lemma_le_4(b);
    let (b0, b1, b2, b3) = (b[0] as u32, b[1] as u32, b[2] as u32, b[3] as u32);
    let x: u32 = (b0 + 256 * b1 + 65536 * b2 + 16777216 * b3) as u32;
    assert(x == spec_le(b));
    assert(b0 < 256 && b1 < 256 && b2 < 256 && b3 < 256 && x == b0 + 256 * b1 + 65536 * b2
        + 16777216 * b3 ==> x % 256 == b0 && x / 256 % 256 == b1 && x / 65536 % 256 == b2 && x
        / 16777216 == b3) by (bit_vector);
    assert(spec_u32_bytes(x) =~= b);
}

/// Encoding undoes decoding of eight bytes.
pub proof fn lemma_bytes_of_le_8(b: Seq<u8>)
    requires
        b.len() == 8,
    ensures
        spec_u64_bytes(spec_le(b) as u64) == b,
{
    lemma_le_8(b);
    let (b0, b1, b2, b3) = (b[0] as u64, b[1] as u64, b[2] as u64, b[3] as u64);
    let (b4, b5, b6, b7) = (b[4] as u64, b[5] as u64, b[6] as u64, b[7] as u64);
    let x: u64 = (b0 + 0x100 * b1 + 0x1_0000 * b2 + 0x100_0000 * b3 + 0x1_0000_0000 * b4
        + 0x100_0000_0000 * b5 + 0x1_0000_0000_0000 * b6 + 0x100_0000_0000_0000 * b7) as u64;
    assert(x == spec_le(b));
    assert(b0 < 256 && b1 < 256 && b2 < 256 && b3 < 256 && b4 < 256 && b5 < 256 && b6 < 256 && b7
        < 256 && x == b0 + 0x100 * b1 + 0x1_0000 * b2 + 0x100_0000 * b3 + 0x1_0000_0000 * b4
        + 0x100_0000_0000 * b5 + 0x1_0000_0000_0000 * b6 + 0x100_0000_0000_0000 * b7 ==> x % 256
        == b0 && x / 0x100 % 256 == b1 && x / 0x1_0000 % 256 == b2 && x / 0x100_0000 % 256 == b3
        && x / 0x1_0000_0000 % 256 == b4 && x / 0x100_0000_0000 % 256 == b5 && x
        / 0x1_0000_0000_0000 % 256 == b6 && x / 0x100_0000_0000_0000 == b7) by (bit_vector);
    assert(spec_u64_bytes(x) =~= b);
}

/// Reads a little-endian `u16` from exactly two bytes.
pub fn u16_from_le(bytes: &[u8]) -> (r: u16)
    requires
        bytes@.len() == 2,
    ensures
        r == spec_le(bytes@),
{
    proof {
        lemma_le_2(bytes@);
    }
    bytes[0] as u16 + 256 * (bytes[1] as u16)
}

/// Reads a little-endian `u32` from exactly four bytes.
pub fn u32_from_le(bytes: &[u8]) -> (r: u32)
    requires
        bytes@.len() == 4,
    ensures
        r == spec_le(bytes@),
{
    proof {
        lemma_le_4(bytes@);
    }
    bytes[0] as u32 + 256 * (bytes[1] as u32) + 65536 * (bytes[2] as u32) + 16777216 * (
    bytes[3] as u32)
}

/// Reads a little-endian `u64` from exactly eight bytes.
pub fn u64_from_le(bytes: &[u8]) -> (r: u64)
    requires
        bytes@.len() == 8,
    ensures
        r == spec_le(bytes@),
{
    proof {
        lemma_le_8(bytes@);
    }
    bytes[0] as u64 + 0x100 * (bytes[1] as u64) + 0x1_0000 * (bytes[2] as u64) + 0x100_0000 * (
    bytes[3] as u64) + 0x1_0000_0000 * (bytes[4] as u64) + 0x100_0000_0000 * (bytes[5] as u64)
        + 0x1_0000_0000_0000 * (bytes[6] as u64) + 0x100_0000_0000_0000 * (bytes[7] as u64)
}

/// A sequence of `n` zero bytes.
pub open spec fn zeros(n: nat) -> Seq<u8> {
    Seq::new(n, |i: int| 0u8)
}

/// `s` with the bytes from `at` on replaced by `part`, as far as `part` reaches.
#[verifier::opaque]
pub open spec fn splice(s: Seq<u8>, at: int, part: Seq<u8>) -> Seq<u8> {
    s.subrange(0, at) + part + s.subrange(at + part.len(), s.len() as int)
}

/// The byte at `i` of a buffer into which `part` was written at `at`.
pub proof fn lemma_splice_index(s: Seq<u8>, at: int, part: Seq<u8>, i: int)
    requires
        0 <= at,
        at + part.len() <= s.len(),
        0 <= i < s.len(),
    ensures
        splice(s, at, part).len() == s.len(),
        splice(s, at, part)[i] == if at <= i < at + part.len() {
            part[i - at]
        } else {
            s[i]
        },
{
    reveal(splice);
}

/// Writing `part` at `at` into a buffer that so far holds `done` up to `at` and
/// the bytes of `onto` behind it: the buffer then holds `done` and `part`, and
/// the bytes of `onto` behind them.
pub proof fn lemma_splice_next(cur: Seq<u8>, onto: Seq<u8>, at: int, part: Seq<u8>, done: Seq<u8>)
    requires
        cur.len() == onto.len(),
        0 <= at,
        at + part.len() <= cur.len(),
        cur.subrange(0, at) == done,
        cur.subrange(at, cur.len() as int) == onto.subrange(at, onto.len() as int),
    ensures
        splice(cur, at, part).len() == onto.len(),
        splice(cur, at, part).subrange(0, at + part.len()) == done + part,
        splice(cur, at, part).subrange(at + part.len(), cur.len() as int) == onto.subrange(
            at + part.len(),
            onto.len() as int,
        ),
        cur.subrange(at, at + part.len()) == onto.subrange(at, at + part.len()),
{
    reveal(splice);
    let next = splice(cur, at, part);
    assert(next.subrange(0, at + part.len()) =~= done + part);
    assert forall|k: int| at <= k < cur.len() implies cur[k] == onto[k] by {
        assert(cur.subrange(at, cur.len() as int)[k - at] == onto.subrange(
            at,
            onto.len() as int,
        )[k - at]);
    }
    assert(next.subrange(at + part.len(), cur.len() as int) =~= onto.subrange(
        at + part.len(),
        onto.len() as int,
    ));
    assert(cur.subrange(at, at + part.len()) =~= onto.subrange(at, at + part.len()));
}

/// Copies `src` over the bytes of `dst` that start at `at`.
pub fn write_at(dst: &mut [u8], at: usize, src: &[u8])
    requires
        at + src@.len() <= old(dst)@.len(),
    ensures
        final(dst)@.len() == old(dst)@.len(),
        final(dst)@ == splice(old(dst)@, at as int, src@),
{
    let n = src.len();
    let total = dst.len();
    let mut i: usize = 0;
    while i < n
        invariant
            n == src@.len(),
            total == dst@.len(),
            at + n <= dst@.len(),
            dst@.len() == old(dst)@.len(),
            i <= n,
            forall|k: int| 0 <= k < at ==> dst@[k] == old(dst)@[k],
            forall|k: int| at + i <= k < dst@.len() ==> dst@[k] == old(dst)@[k],
            forall|k: int| 0 <= k < i ==> dst@[at + k] == src@[k],
        decreases n - i,
    {
        dst[at + i] = src[i];
        i += 1;
    }
    proof {
        reveal(splice);
    }
    assert(dst@ =~= splice(old(dst)@, at as int, src@));
}

/// Sets the bytes of `dst` from `from` up to `to` to zero.
pub fn zero_range(dst: &mut [u8], from: usize, to: usize)
    requires
        from <= to <= old(dst)@.len(),
    ensures
        final(dst)@.len() == old(dst)@.len(),
        final(dst)@ == splice(old(dst)@, from as int, zeros((to - from) as nat)),
{
    let mut i: usize = from;
    while i < to
        invariant
            from <= i <= to <= dst@.len(),
            dst@.len() == old(dst)@.len(),
            forall|k: int| 0 <= k < from ==> dst@[k] == old(dst)@[k],
            forall|k: int| i <= k < dst@.len() ==> dst@[k] == old(dst)@[k],
            forall|k: int| from <= k < i ==> dst@[k] == 0,
        decreases to - i,
    {
        dst[i] = 0;
        i += 1;
    }
    proof {
        reveal(splice);
    }
    assert(dst@ =~= splice(old(dst)@, from as int, zeros((to - from) as nat)));
}

/// Whether every byte of `s` is zero.
pub open spec fn all_zero(s: Seq<u8>) -> bool {
    forall|i: int| 0 <= i < s.len() ==> s[i] == 0
}

/// Tells whether the first `n` bytes of `src` are all zero.
pub fn is_zero_prefix(src: &[u8], n: usize) -> (r: bool)
    requires
        n <= src@.len(),
    ensures
        r == all_zero(src@.subrange(0, n as int)),
{
    let mut i: usize = 0;
    while i < n
        invariant
            i <= n <= src@.len(),
            forall|k: int| 0 <= k < i ==> src@[k] == 0,
        decreases n - i,
    {
        if src[i] != 0 {
            assert(src@.subrange(0, n as int)[i as int] != 0);
            return false;
        }
        i += 1;
    }
    true
}

/// Moves the bytes from `src_start` up to `src_end` so that they start at
/// `dest`; the two ranges may overlap.
pub fn copy_within(buf: &mut [u8], src_start: usize, src_end: usize, dest: usize)
    requires
        src_start <= src_end <= old(buf)@.len(),
        dest + (src_end - src_start) <= old(buf)@.len(),
    ensures
        final(buf)@.len() == old(buf)@.len(),
        final(buf)@ == splice(
            old(buf)@,
            dest as int,
            old(buf)@.subrange(src_start as int, src_end as int),
        ),
{
    let n = src_end - src_start;
    let total = buf.len();
    if dest <= src_start {
        let mut i: usize = 0;
        while i < n
            invariant
                i <= n,
                n == src_end - src_start,
                dest <= src_start,
                src_end <= buf@.len(),
                total == buf@.len(),
                buf@.len() == old(buf)@.len(),
                forall|k: int|
                    dest <= k < dest + i ==> #[trigger] buf@[k] == old(buf)@[k - dest + src_start],
                forall|k: int|
                    0 <= k < buf@.len() && !(dest <= k < dest + i) ==> buf@[k] == old(buf)@[k],
            decreases n - i,
        {
            buf[dest + i] = buf[src_start + i];
            i += 1;
        }
    } else {
        let mut i: usize = n;
        while i > 0
            invariant
                i <= n,
                n == src_end - src_start,
                dest > src_start,
                dest + n <= buf@.len(),
                total == buf@.len(),
                buf@.len() == old(buf)@.len(),
                forall|k: int|
                    dest + i <= k < dest + n ==> #[trigger] buf@[k] == old(buf)@[k - dest
                        + src_start],
                forall|k: int|
                    0 <= k < buf@.len() && !(dest + i <= k < dest + n) ==> buf@[k] == old(buf)@[k],
            decreases i,
        {
            i -= 1;
            buf[dest + i] = buf[src_start + i];
        }
    }
    proof {
        reveal(splice);
    }
    assert(buf@ =~= splice(
        old(buf)@,
        dest as int,
        old(buf)@.subrange(src_start as int, src_end as int),
    ));
}

/// Writes `x` in little-endian order over the two bytes of `dst` from `at` on.
pub fn write_u16_at(dst: &mut [u8], at: usize, x: u16)
    requires
        at + 2 <= old(dst)@.len(),
    ensures
        final(dst)@.len() == old(dst)@.len(),
        final(dst)@ == splice(old(dst)@, at as int, spec_u16_bytes(x)),
{
    let _ = dst.len();
    dst[at] = (x % 256) as u8;
    dst[at + 1] = (x / 256) as u8;
    proof {
        reveal(splice);
    }
    assert(dst@ =~= splice(old(dst)@, at as int, spec_u16_bytes(x)));
}

/// Writes `x` in little-endian order over the four bytes of `dst` from `at` on.
pub fn write_u32_at(dst: &mut [u8], at: usize, x: u32)
    requires
        at + 4 <= old(dst)@.len(),
    ensures
        final(dst)@.len() == old(dst)@.len(),
        final(dst)@ == splice(old(dst)@, at as int, spec_u32_bytes(x)),
{
    let _ = dst.len();
    dst[at] = (x % 256) as u8;
    dst[at + 1] = (x / 256 % 256) as u8;
    dst[at + 2] = (x / 65536 % 256) as u8;
    dst[at + 3] = (x / 16777216) as u8;
    proof {
        reveal(splice);
    }
    assert(dst@ =~= splice(old(dst)@, at as int, spec_u32_bytes(x)));
}

/// Writes `x` in little-endian order over the eight bytes of `dst` from `at` on.
pub fn write_u64_at(dst: &mut [u8], at: usize, x: u64)
    requires
        at + 8 <= old(dst)@.len(),
    ensures
        final(dst)@.len() == old(dst)@.len(),
        final(dst)@ == splice(old(dst)@, at as int, spec_u64_bytes(x)),
{
    let _ = dst.len();
    dst[at] = (x % 256) as u8;
    dst[at + 1] = (x / 0x100 % 256) as u8;
    dst[at + 2] = (x / 0x1_0000 % 256) as u8;
    dst[at + 3] = (x / 0x100_0000 % 256) as u8;
    dst[at + 4] = (x / 0x1_0000_0000 % 256) as u8;
    dst[at + 5] = (x / 0x100_0000_0000 % 256) as u8;
    dst[at + 6] = (x / 0x1_0000_0000_0000 % 256) as u8;
    dst[at + 7] = (x / 0x100_0000_0000_0000) as u8;
    proof {
        reveal(splice);
    }
    assert(dst@ =~= splice(old(dst)@, at as int, spec_u64_bytes(x)));
}

} // verus!

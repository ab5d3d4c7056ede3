//! Little-endian integers inside byte buffers, and page rounding.

use vstd::prelude::*;

verus! {

/// Granularity of every buffer handed to the module-loading service.
pub const PAGE_SIZE: usize = 0x1000;

/// The four bytes of `v`, least significant first.
pub open spec fn u32_le(v: u32) -> Seq<u8> {
    seq![
        (v % 256) as u8,
        (v / 256 % 256) as u8,
        (v / 65536 % 256) as u8,
        (v / 16777216) as u8,
    ]
}

/// The eight bytes of `v`, least significant first.
pub open spec fn u64_le(v: u64) -> Seq<u8> {
    u32_le((v % 0x1_0000_0000) as u32) + u32_le((v / 0x1_0000_0000) as u32)
}

/// The number that the first four bytes of `b` stand for, least significant
/// byte first.
pub open spec fn u32_from_le(b: Seq<u8>) -> int
    recommends
        b.len() >= 4,
{
    b[0] + 256 * b[1] + 65536 * b[2] + 16777216 * b[3]
}

/// The four-byte field of `s` that starts at `at`, read as a little-endian
/// number.
pub open spec fn u32_at(s: Seq<u8>, at: int) -> int
    recommends
        0 <= at,
        at + 4 <= s.len(),
{
    u32_from_le(s.subrange(at, at + 4))
}

/// `s` with `patch` written over the bytes from `at` on.
pub open spec fn splice(s: Seq<u8>, at: int, patch: Seq<u8>) -> Seq<u8>
    recommends
        0 <= at,
        at + patch.len() <= s.len(),
{
    Seq::new(
        s.len(),
        |i: int|
            if at <= i < at + patch.len() {
                patch[i - at]
            } else {
                s[i]
            },
    )
}

/// The least multiple of `align` that is not below `x`.
pub open spec fn round_up(x: int, align: int) -> int
    recommends
        0 <= x,
        0 < align,
{
    ((x + align - 1) / align) * align
}

/// Decoding undoes encoding.
pub proof fn lemma_u32_le_round_trip(v: u32)
    ensures
        u32_le(v).len() == 4,
        u32_from_le(u32_le(v)) == v,
{
}

/// A field reads back as the value last written to it, and a write leaves
/// every field that it does not overlap as it was.
pub proof fn lemma_u32_at_splice(s: Seq<u8>, at: int, v: u32, other: int)
    requires
        0 <= at,
        at + 4 <= s.len(),
    ensures
        splice(s, at, u32_le(v)).len() == s.len(),
        u32_at(splice(s, at, u32_le(v)), at) == v,
        0 <= other && other + 4 <= s.len() && (other + 4 <= at || at + 4 <= other) ==> u32_at(
            splice(s, at, u32_le(v)),
            other,
        ) == u32_at(s, other),
{
    let t = splice(s, at, u32_le(v));
    lemma_u32_le_round_trip(v);
    assert(t.subrange(at, at + 4) =~= u32_le(v));
    if 0 <= other && other + 4 <= s.len() && (other + 4 <= at || at + 4 <= other) {
        assert(t.subrange(other, other + 4) =~= s.subrange(other, other + 4));
    }
}

/// `round_up` gives a multiple of the alignment, at least `x` and less than
/// one alignment step above it.
pub proof fn lemma_round_up_page(x: int)
    requires
        0 <= x,
    ensures
        round_up(x, PAGE_SIZE as int) % (PAGE_SIZE as int) == 0,
        x <= round_up(x, PAGE_SIZE as int) < x + PAGE_SIZE,
{
}

/// Reads the little-endian `u32` stored at `at`.
pub fn read_u32_le(data: &[u8], at: usize) -> (v: u32)
    requires
        at + 4 <= data.len(),
    ensures
        v == u32_at(data@, at as int),
{
    let b0: u32 = data[at] as u32;
    let b1: u32 = data[at + 1] as u32;
    let b2: u32 = data[at + 2] as u32;
    let b3: u32 = data[at + 3] as u32;
    b0 + 256 * b1 + 65536 * b2 + 16777216 * b3
}

/// Stores `v` at `at`, least significant byte first.
pub fn write_u32_le(data: &mut Vec<u8>, at: usize, v: u32)
    requires
        at + 4 <= old(data).len(),
    ensures
        final(data)@ == splice(old(data)@, at as int, u32_le(v)),
{
    data[at] = (v % 256) as u8;
    data[at + 1] = (v / 256 % 256) as u8;
    data[at + 2] = (v / 65536 % 256) as u8;
    data[at + 3] = (v / 16777216) as u8;
    assert(data@ =~= splice(old(data)@, at as int, u32_le(v)));
}

/// Stores `v` at `at`, least significant byte first.
pub fn write_u64_le(data: &mut Vec<u8>, at: usize, v: u64)
    requires
        at + 8 <= old(data).len(),
    ensures
        final(data)@ == splice(old(data)@, at as int, u64_le(v)),
{
    write_u32_le(data, at, (v % 0x1_0000_0000) as u32);
    write_u32_le(data, at + 4, (v / 0x1_0000_0000) as u32);
    assert(data@ =~= splice(old(data)@, at as int, u64_le(v)));
}

/// Rounds `x` up to a whole number of pages.
pub fn page_align(x: usize) -> (r: usize)
    requires
        x + PAGE_SIZE - 1 <= usize::MAX,
    ensures
        r == round_up(x as int, PAGE_SIZE as int),
{
    (x + (PAGE_SIZE - 1)) / PAGE_SIZE * PAGE_SIZE
}

} // verus!

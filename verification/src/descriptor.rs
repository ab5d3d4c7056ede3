//! The registration record: the binary image, with a sorted table of content
//! hashes, that the module-loading service validates before it mounts any
//! module of a batch.
//!
//! Layout, all numbers little-endian:
//!
//! | offset  | bytes | field                                  |
//! |---------|-------|----------------------------------------|
//! | `0x000` | 4     | magic, `NRR0`                          |
//! | `0x330` | 8     | program id                             |
//! | `0x338` | 4     | size of the whole record               |
//! | `0x33C` | 1     | type, 0                                |
//! | `0x340` | 4     | offset of the hash table, `0x350`      |
//! | `0x344` | 4     | number of hashes                       |
//! | `0x350` | 32 n  | the hashes, ascending                  |
//!
//! Every other byte is zero, and the record is padded with zeros to a whole
//! number of pages.

use vstd::prelude::*;
use crate::bytes::{
    lemma_u32_le_round_trip,
    page_align,
    round_up,
    u32_at,
    u32_le,
    u64_le,
    write_u32_le,
    write_u64_le,
    PAGE_SIZE,
};
use crate::digest::{
    ascending,
    digests_of,
    lemma_sorted_digests,
    sort_hashes,
    sorted_digests,
    Sha256Hash,
    HASH_SIZE,
};

verus! {

/// The magic of a registration record: `NRR0`.
pub const NRR_MAGIC: u32 = 0x3052_524E;

/// Size of the header, and so the offset of the hash table.
pub const HEADER_SIZE: usize = 0x350;

pub const MAGIC_FIELD: usize = 0;

pub const PROGRAM_ID_FIELD: usize = 0x330;

pub const SIZE_FIELD: usize = 0x338;

pub const TYPE_FIELD: usize = 0x33C;

pub const HASHES_OFFSET_FIELD: usize = 0x340;

pub const NUM_HASHES_FIELD: usize = 0x344;

/// The most hashes that a record can list: with one more, its size would no
/// longer fit the 32 bits of the size field.
pub const MAX_HASHES: usize = 134_217_573;

/// Size of a record that lists `count` hashes.
pub open spec fn descriptor_size(count: nat) -> int {
    round_up(HEADER_SIZE + count * HASH_SIZE, PAGE_SIZE as int)
}

/// Whether every entry of `table` has the length of a content hash.
pub open spec fn is_hash_table(table: Seq<Seq<u8>>) -> bool {
    forall|k: int| 0 <= k < table.len() ==> (#[trigger] table[k]).len() == HASH_SIZE
}

/// The byte at offset `i` of the record for `program_id` that lists `table`.
pub open spec fn descriptor_byte(program_id: u64, table: Seq<Seq<u8>>, i: int) -> u8 {
    if MAGIC_FIELD <= i < MAGIC_FIELD + 4 {
        u32_le(NRR_MAGIC)[i - MAGIC_FIELD]
    } else if PROGRAM_ID_FIELD <= i < PROGRAM_ID_FIELD + 8 {
        u64_le(program_id)[i - PROGRAM_ID_FIELD]
    } else if SIZE_FIELD <= i < SIZE_FIELD + 4 {
        u32_le(descriptor_size(table.len()) as u32)[i - SIZE_FIELD]
    } else if HASHES_OFFSET_FIELD <= i < HASHES_OFFSET_FIELD + 4 {
        u32_le(HEADER_SIZE as u32)[i - HASHES_OFFSET_FIELD]
    } else if NUM_HASHES_FIELD <= i < NUM_HASHES_FIELD + 4 {
        u32_le(table.len() as u32)[i - NUM_HASHES_FIELD]
    } else if HEADER_SIZE <= i < HEADER_SIZE + table.len() * HASH_SIZE {
        table[(i - HEADER_SIZE) / (HASH_SIZE as int)][(i - HEADER_SIZE) % (HASH_SIZE as int)]
    } else {
        0
    }
}

/// The record for `program_id` that lists `table`, entry by entry in the
/// order of `table`.
pub open spec fn descriptor_bytes(program_id: u64, table: Seq<Seq<u8>>) -> Seq<u8> {
    Seq::new(
        descriptor_size(table.len()) as nat,
        |i: int| descriptor_byte(program_id, table, i),
    )
}

/// The record that registers the images with the content hashes `digests`
/// for `program_id`: its table lists them ascending.
pub open spec fn registration_record(program_id: u64, digests: Seq<Seq<u8>>) -> Seq<u8> {
    descriptor_bytes(program_id, sorted_digests(digests))
}

/// The hash table that a record holds: as many 32-byte entries as its count
/// field says, from the header's end on.
pub open spec fn listed_hashes(record: Seq<u8>) -> Seq<Seq<u8>> {
    Seq::new(
        u32_at(record, NUM_HASHES_FIELD as int) as nat,
        |k: int| record.subrange(HEADER_SIZE + k * HASH_SIZE, HEADER_SIZE + (k + 1) * HASH_SIZE),
    )
}

/// What the fields of a record read as: the size field gives the length of
/// the record, which is the header and the table rounded up to whole pages;
/// the count field gives the number of entries; and the table holds the
/// entries in their order.
pub proof fn lemma_descriptor_fields(program_id: u64, table: Seq<Seq<u8>>)
    requires
        table.len() <= MAX_HASHES,
        is_hash_table(table),
    ensures
        descriptor_bytes(program_id, table).len() == descriptor_size(table.len()),
        descriptor_size(table.len()) == round_up(
            HEADER_SIZE + table.len() * HASH_SIZE,
            PAGE_SIZE as int,
        ),
        u32_at(descriptor_bytes(program_id, table), MAGIC_FIELD as int) == NRR_MAGIC,
        u32_at(descriptor_bytes(program_id, table), SIZE_FIELD as int) == descriptor_size(
            table.len(),
        ),
        descriptor_bytes(program_id, table)[TYPE_FIELD as int] == 0,
        u32_at(descriptor_bytes(program_id, table), HASHES_OFFSET_FIELD as int) == HEADER_SIZE,
        u32_at(descriptor_bytes(program_id, table), NUM_HASHES_FIELD as int) == table.len(),
        descriptor_bytes(program_id, table).subrange(
            PROGRAM_ID_FIELD as int,
            PROGRAM_ID_FIELD + 8,
        ) == u64_le(program_id),
        listed_hashes(descriptor_bytes(program_id, table)) == table,
{
    let record = descriptor_bytes(program_id, table);
    let count = table.len();
    let size = descriptor_size(count);
    assert(HEADER_SIZE + count * HASH_SIZE <= size <= u32::MAX);
    lemma_u32_le_round_trip(NRR_MAGIC);
    lemma_u32_le_round_trip(size as u32);
    lemma_u32_le_round_trip(HEADER_SIZE as u32);
    lemma_u32_le_round_trip(count as u32);
    assert(record.subrange(MAGIC_FIELD as int, MAGIC_FIELD + 4) =~= u32_le(NRR_MAGIC));
    assert(record.subrange(SIZE_FIELD as int, SIZE_FIELD + 4) =~= u32_le(size as u32));
    assert(record.subrange(HASHES_OFFSET_FIELD as int, HASHES_OFFSET_FIELD + 4) =~= u32_le(
        HEADER_SIZE as u32,
    ));
    assert(record.subrange(NUM_HASHES_FIELD as int, NUM_HASHES_FIELD + 4) =~= u32_le(
        count as u32,
    ));
    assert(record.subrange(PROGRAM_ID_FIELD as int, PROGRAM_ID_FIELD + 8) =~= u64_le(program_id));
    let listed = listed_hashes(record);
    assert(listed.len() == count);
    assert forall|k: int| 0 <= k < count implies listed[k] == table[k] by {
        assert(table[k].len() == HASH_SIZE);
        assert forall|j: int| 0 <= j < HASH_SIZE implies listed[k][j] == table[k][j] by {
            let i = HEADER_SIZE + k * HASH_SIZE + j;
            assert((i - HEADER_SIZE) / (HASH_SIZE as int) == k);
            assert((i - HEADER_SIZE) % (HASH_SIZE as int) == j);
            assert(listed[k][j] == record[i]);
        }
        assert(listed[k] =~= table[k]);
    }
    assert(listed =~= table);
}

/// Builds the registration record for `program_id` from the content hashes
/// of the images to register: a zeroed buffer of whole pages, the header
/// fields, and the hashes in ascending order.
pub fn build_descriptor(program_id: u64, hashes: Vec<Sha256Hash>) -> (record: Vec<u8>)
    requires
        hashes.len() <= MAX_HASHES,
    ensures
        record@ == registration_record(program_id, digests_of(hashes@)),
        record@.len() == round_up(HEADER_SIZE + hashes@.len() * HASH_SIZE, PAGE_SIZE as int),
        u32_at(record@, SIZE_FIELD as int) == record@.len(),
        u32_at(record@, NUM_HASHES_FIELD as int) == hashes@.len(),
        ascending(listed_hashes(record@)),
        listed_hashes(record@).to_multiset() == digests_of(hashes@).to_multiset(),
{
    let mut hashes = hashes;
    let ghost given = digests_of(hashes@);
    sort_hashes(&mut hashes);
    let ghost table = digests_of(hashes@);
    let count: usize = hashes.len();
    let size: usize = page_align(HEADER_SIZE + count * HASH_SIZE);
    let mut record: Vec<u8> = vec![0u8; size];
    write_u32_le(&mut record, MAGIC_FIELD, NRR_MAGIC);
    write_u64_le(&mut record, PROGRAM_ID_FIELD, program_id);
    write_u32_le(&mut record, SIZE_FIELD, size as u32);
    write_u32_le(&mut record, HASHES_OFFSET_FIELD, HEADER_SIZE as u32);
    write_u32_le(&mut record, NUM_HASHES_FIELD, count as u32);
    let mut k: usize = 0;
    while k < count
        invariant
            k <= count,
            count == hashes.len(),
            count <= MAX_HASHES,
            table == digests_of(hashes@),
            size == descriptor_size(count as nat),
            record.len() == size,
            forall|i: int|
                0 <= i < size ==> #[trigger] record[i] == (if i < HEADER_SIZE + k * HASH_SIZE {
                    descriptor_byte(program_id, table, i)
                } else {
                    0
                }),
        decreases count - k,
    {
        let hash: Sha256Hash = hashes[k];
        let base: usize = HEADER_SIZE + k * HASH_SIZE;
        let mut j: usize = 0;
        while j < HASH_SIZE
            invariant
                j <= HASH_SIZE,
                k < count,
                count <= MAX_HASHES,
                count == table.len(),
                base == HEADER_SIZE + k * HASH_SIZE,
                hash@ == table[k as int],
                size == descriptor_size(count as nat),
                record.len() == size,
                forall|i: int|
                    0 <= i < size ==> #[trigger] record[i] == (if i < base + j {
                        descriptor_byte(program_id, table, i)
                    } else {
                        0
                    }),
            decreases HASH_SIZE - j,
        {
            proof {
                let i = base + j;
                assert((i - HEADER_SIZE) / (HASH_SIZE as int) == k);
                assert((i - HEADER_SIZE) % (HASH_SIZE as int) == j);
            }
            record[base + j] = hash.0[j];
            j += 1;
        }
        k += 1;
    }
    proof {
        assert(record@ =~= descriptor_bytes(program_id, table));
        lemma_sorted_digests(given);
        assert(is_hash_table(table));
        lemma_descriptor_fields(program_id, table);
    }
    record
}

} // verus!

use nro_loader::bytes::read_u32_le;
use nro_loader::descriptor::{
    build_descriptor, HASHES_OFFSET_FIELD, HEADER_SIZE, MAGIC_FIELD, MAX_HASHES, NRR_MAGIC,
    NUM_HASHES_FIELD, PROGRAM_ID_FIELD, SIZE_FIELD, TYPE_FIELD,
};
use nro_loader::digest::Sha256Hash;

fn filled(byte: u8) -> Sha256Hash {
    Sha256Hash([byte; 32])
}

fn table_entry(record: &[u8], k: usize) -> &[u8] {
    &record[0x350 + 32 * k..0x350 + 32 * (k + 1)]
}

#[test]
fn header_layout() {
    assert_eq!(NRR_MAGIC, 0x3052_524E);
    assert_eq!(HEADER_SIZE, 0x350);
    assert_eq!(MAGIC_FIELD, 0);
    assert_eq!(PROGRAM_ID_FIELD, 0x330);
    assert_eq!(SIZE_FIELD, 0x338);
    assert_eq!(TYPE_FIELD, 0x33C);
    assert_eq!(HASHES_OFFSET_FIELD, 0x340);
    assert_eq!(NUM_HASHES_FIELD, 0x344);
    assert_eq!(0x350 + 32 * (MAX_HASHES as u64), 0xFFFF_EFF0);
}

#[test]
fn record_without_hashes_is_one_page() {
    let record = build_descriptor(0x0100_0000_0000_1234, Vec::new());
    let mut expected = vec![0u8; 4096];
    expected[0..4].copy_from_slice(b"NRR0");
    expected[0x330..0x338].copy_from_slice(&[0x34, 0x12, 0, 0, 0, 0, 0, 0x01]);
    expected[0x338..0x33C].copy_from_slice(&[0x00, 0x10, 0x00, 0x00]);
    expected[0x340..0x344].copy_from_slice(&[0x50, 0x03, 0x00, 0x00]);
    assert_eq!(record, expected);
}

#[test]
fn record_lists_hashes_ascending() {
    let record = build_descriptor(7, vec![filled(0x30), filled(0x10), filled(0x20)]);
    assert_eq!(record.len(), 4096);
    assert_eq!(read_u32_le(&record, MAGIC_FIELD), NRR_MAGIC);
    assert_eq!(read_u32_le(&record, SIZE_FIELD), 4096);
    assert_eq!(record[TYPE_FIELD], 0);
    assert_eq!(read_u32_le(&record, HASHES_OFFSET_FIELD), 0x350);
    assert_eq!(read_u32_le(&record, NUM_HASHES_FIELD), 3);
    assert_eq!(&record[0x330..0x338], &7u64.to_le_bytes());
    assert_eq!(table_entry(&record, 0), &[0x10; 32]);
    assert_eq!(table_entry(&record, 1), &[0x20; 32]);
    assert_eq!(table_entry(&record, 2), &[0x30; 32]);
    assert!(record[0x350 + 96..].iter().all(|b| *b == 0));
    assert!(record[4..0x330].iter().all(|b| *b == 0));
    assert!(record[0x33C..0x340].iter().all(|b| *b == 0));
    assert!(record[0x348..0x350].iter().all(|b| *b == 0));
}

#[test]
fn record_is_exact_for_real_hashes() {
    let alpha = Sha256Hash::new(b"alpha");
    let beta = Sha256Hash::new(b"beta");
    let gamma = Sha256Hash::new(b"gamma");
    let record = build_descriptor(u64::MAX, vec![alpha, beta, gamma]);
    let mut expected = vec![0u8; 4096];
    expected[0..4].copy_from_slice(&[0x4E, 0x52, 0x52, 0x30]);
    expected[0x330..0x338].copy_from_slice(&[0xFF; 8]);
    expected[0x338..0x33C].copy_from_slice(&4096u32.to_le_bytes());
    expected[0x340..0x344].copy_from_slice(&0x350u32.to_le_bytes());
    expected[0x344..0x348].copy_from_slice(&3u32.to_le_bytes());
    // alpha = 8ed3.., gamma = be9d.., beta = f44e..
    expected[0x350..0x370].copy_from_slice(&alpha.0);
    expected[0x370..0x390].copy_from_slice(&gamma.0);
    expected[0x390..0x3B0].copy_from_slice(&beta.0);
    assert_eq!(record, expected);
}

#[test]
fn record_keeps_one_entry_for_each_hash() {
    let record = build_descriptor(1, vec![filled(5), filled(5), filled(1), filled(5)]);
    assert_eq!(read_u32_le(&record, NUM_HASHES_FIELD), 4);
    assert_eq!(table_entry(&record, 0), &[1; 32]);
    assert_eq!(table_entry(&record, 1), &[5; 32]);
    assert_eq!(table_entry(&record, 2), &[5; 32]);
    assert_eq!(table_entry(&record, 3), &[5; 32]);
}

#[test]
fn record_does_not_depend_on_the_order_given() {
    let a = Sha256Hash::new(b"a");
    let b = Sha256Hash::new(b"b");
    let c = Sha256Hash::new(b"c");
    let one = build_descriptor(9, vec![a, b, c]);
    let two = build_descriptor(9, vec![c, a, b]);
    let three = build_descriptor(9, vec![b, c, a]);
    assert_eq!(one, two);
    assert_eq!(one, three);
}

#[test]
fn declared_size_is_the_length_in_whole_pages() {
    // 0x350 + 32 * 101 = 4080, 0x350 + 32 * 102 = 4112.
    let cases: [(usize, usize); 6] =
        [(0, 4096), (1, 4096), (101, 4096), (102, 8192), (229, 8192), (230, 12288)];
    for (count, size) in cases {
        let hashes: Vec<Sha256Hash> = (0..count).map(|i| Sha256Hash::new(&[i as u8])).collect();
        let record = build_descriptor(3, hashes);
        assert_eq!(record.len(), size, "{} hashes", count);
        assert_eq!(read_u32_le(&record, SIZE_FIELD) as usize, size);
        assert_eq!(read_u32_le(&record, NUM_HASHES_FIELD) as usize, count);
        assert_eq!(record.len(), (0x350 + count * 32 + 4095) / 4096 * 4096);
        for k in 1..count {
            assert!(table_entry(&record, k - 1) <= table_entry(&record, k));
        }
    }
}

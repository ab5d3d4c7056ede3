use nro_loader::bytes::{page_align, read_u32_le, write_u32_le, write_u64_le, PAGE_SIZE};

#[test]
fn reads_little_endian_u32() {
    let data: Vec<u8> = vec![0xAA, 0x4E, 0x52, 0x52, 0x30, 0xBB];
    assert_eq!(read_u32_le(&data, 1), 0x3052_524E);
    assert_eq!(read_u32_le(&[0xFF, 0xFF, 0xFF, 0xFF], 0), u32::MAX);
    assert_eq!(read_u32_le(&[1, 0, 0, 0], 0), 1);
    assert_eq!(read_u32_le(&[0, 0, 0, 1], 0), 0x0100_0000);
}

#[test]
fn writes_little_endian_u32() {
    let mut data: Vec<u8> = vec![9; 8];
    write_u32_le(&mut data, 2, 0x1234_5678);
    assert_eq!(data, vec![9, 9, 0x78, 0x56, 0x34, 0x12, 9, 9]);
}

#[test]
fn writes_little_endian_u64() {
    let mut data: Vec<u8> = vec![0; 10];
    write_u64_le(&mut data, 1, 0x0102_0304_0506_0708);
    assert_eq!(data, vec![0, 8, 7, 6, 5, 4, 3, 2, 1, 0]);
}

#[test]
fn written_u32_reads_back() {
    let values: [u32; 6] = [0, 1, 0xD0, 0xFFFF, 0x8000_0000, u32::MAX];
    for v in values {
        let mut data: Vec<u8> = vec![0x55; 12];
        write_u32_le(&mut data, 4, v);
        assert_eq!(read_u32_le(&data, 4), v);
        assert_eq!(&data[..4], &[0x55; 4]);
        assert_eq!(&data[8..], &[0x55; 4]);
    }
}

#[test]
fn page_align_rounds_up_to_whole_pages() {
    assert_eq!(PAGE_SIZE, 4096);
    assert_eq!(page_align(0), 0);
    assert_eq!(page_align(1), 4096);
    assert_eq!(page_align(0x350), 4096);
    assert_eq!(page_align(4095), 4096);
    assert_eq!(page_align(4096), 4096);
    assert_eq!(page_align(4097), 8192);
    assert_eq!(page_align(3 * 4096 + 17), 4 * 4096);
}

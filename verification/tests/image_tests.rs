use nro_loader::error::LoaderError;
use nro_loader::image::{
    NroFile, BSS_END_FIELD, MODULE_OBJECT_FIELD, MODULE_OBJECT_SIZE, MOD_FIELDS_END,
    MOD_OFFSET_FIELD,
};

fn put_u32(data: &mut Vec<u8>, at: usize, v: u32) {
    data[at..at + 4].copy_from_slice(&v.to_le_bytes());
}

fn get_u32(data: &[u8], at: usize) -> u32 {
    u32::from_le_bytes([data[at], data[at + 1], data[at + 2], data[at + 3]])
}

fn image_with_fields(len: usize, fill: u8, offset: u32, bss_end: u32, module_object: u32) -> Vec<u8> {
    let mut data = vec![fill; len];
    put_u32(&mut data, 4, offset);
    put_u32(&mut data, offset as usize + 0x24, bss_end);
    put_u32(&mut data, offset as usize + 0x34, module_object);
    data
}

fn fix(data: Vec<u8>) -> Vec<u8> {
    let mut image = NroFile::new(String::from("plugin.nro"), data);
    image.fix_bss_size();
    image.data().clone()
}

fn hex(bytes: &[u8]) -> String {
    bytes.iter().map(|b| format!("{:02x}", b)).collect()
}

#[test]
fn field_offsets() {
    assert_eq!(MOD_OFFSET_FIELD, 4);
    assert_eq!(BSS_END_FIELD, 0x24);
    assert_eq!(MODULE_OBJECT_FIELD, 0x34);
    assert_eq!(MOD_FIELDS_END, 0x38);
    assert_eq!(MODULE_OBJECT_SIZE, 0xD0);
}

#[test]
fn open_keeps_name_and_bytes() {
    let image = NroFile::open(String::from("a.nro"), Ok(vec![1, 2, 3])).unwrap();
    assert_eq!(image.name(), "a.nro");
    assert_eq!(image.data(), &vec![1, 2, 3]);
    let (name, data) = image.into_parts();
    assert_eq!(name, "a.nro");
    assert_eq!(data, vec![1, 2, 3]);
}

#[test]
fn open_reports_the_failed_read() {
    let failure = std::io::Error::new(std::io::ErrorKind::PermissionDenied, "locked");
    let result = NroFile::open(String::from("a.nro"), Err(failure));
    match result {
        Err(LoaderError::IO(error)) => {
            assert_eq!(error.kind(), std::io::ErrorKind::PermissionDenied);
            assert_eq!(error.to_string(), "locked");
        }
        _ => panic!("expected an I/O error"),
    }
}

#[test]
fn io_errors_convert_into_loader_errors() {
    let failure = std::io::Error::new(std::io::ErrorKind::NotFound, "gone");
    let error: LoaderError = failure.into();
    assert!(matches!(error, LoaderError::IO(ref e) if e.kind() == std::io::ErrorKind::NotFound));
    assert_eq!(error.status(), None);
}

#[test]
fn status_of_service_errors() {
    assert_eq!(LoaderError::RegistrationError(0x1234).status(), Some(0x1234));
    assert_eq!(LoaderError::MountError(7).status(), Some(7));
    assert_eq!(LoaderError::InvalidModuleBuffer(u32::MAX).status(), Some(u32::MAX));
}

#[test]
fn equal_fields_advance_the_bss_end() {
    let before = image_with_fields(0x80, 0, 0x10, 0x1000, 0x1000);
    let after = fix(before.clone());
    assert_eq!(get_u32(&after, 0x10 + 0x24), 0x1000 + 0xD0);
    assert_eq!(get_u32(&after, 0x10 + 0x34), 0x1000);
    assert_eq!(get_u32(&after, 4), 0x10);
    assert_eq!(after.len(), before.len());
    for i in 0..before.len() {
        if !(0x34..0x38).contains(&i) {
            assert_eq!(after[i], before[i], "byte {}", i);
        }
    }
    assert_eq!(&after[0x34..0x38], &[0xD0, 0x10, 0x00, 0x00]);
}

#[test]
fn differing_fields_leave_the_image_alone() {
    let before = image_with_fields(0x90, 1, 0x20, 0x2000, 0x3000);
    assert_eq!(fix(before.clone()), before);
    let close = image_with_fields(0x90, 1, 0x20, 0x2000, 0x2001);
    assert_eq!(fix(close.clone()), close);
}

#[test]
fn fix_carries_into_higher_bytes() {
    let before = image_with_fields(0x60, 2, 0x08, 0x0000_FF40, 0x0000_FF40);
    let after = fix(before);
    assert_eq!(get_u32(&after, 0x08 + 0x24), 0x0001_0010);
}

#[test]
fn short_images_are_left_alone() {
    for len in 0..8usize {
        let before = vec![0u8; len];
        assert_eq!(fix(before.clone()), before);
    }
    let header_only = vec![0u8; 8];
    assert_eq!(fix(header_only.clone()), header_only);
}

#[test]
fn fields_beyond_the_end_are_not_touched() {
    // All zero: the offset is 0, the fields would lie at 0x24 and 0x34.
    let before = vec![0u8; 0x37];
    assert_eq!(fix(before.clone()), before);
    let mut far = vec![0u8; 0x100];
    put_u32(&mut far, 4, 0xFFFF_FFF0);
    assert_eq!(fix(far.clone()), far);
    let mut just_short = vec![0u8; 0x47];
    put_u32(&mut just_short, 4, 0x10);
    assert_eq!(fix(just_short.clone()), just_short);
}

#[test]
fn fields_that_end_with_the_image_are_fixed() {
    let before = vec![0u8; 0x38];
    let after = fix(before);
    assert_eq!(get_u32(&after, 0x24), 0xD0);
    assert_eq!(get_u32(&after, 0x34), 0);
}

#[test]
fn a_bss_end_that_cannot_advance_is_left_alone() {
    let at_limit = image_with_fields(0x80, 0, 0x10, 0xFFFF_FF2F, 0xFFFF_FF2F);
    let after = fix(at_limit);
    assert_eq!(get_u32(&after, 0x34), 0xFFFF_FFFF);
    let over = image_with_fields(0x80, 0, 0x10, 0xFFFF_FF30, 0xFFFF_FF30);
    assert_eq!(fix(over.clone()), over);
    let top = image_with_fields(0x80, 0, 0x10, u32::MAX, u32::MAX);
    assert_eq!(fix(top.clone()), top);
}

#[test]
fn a_second_fix_changes_nothing() {
    let once = fix(image_with_fields(0x80, 0, 0x10, 0x1000, 0x1000));
    assert_eq!(fix(once.clone()), once);
}

#[test]
fn fix_keeps_the_name() {
    let mut image = NroFile::new(String::from("keep.nro"), image_with_fields(0x80, 0, 0x10, 5, 5));
    image.fix_bss_size();
    assert_eq!(image.name(), "keep.nro");
}

#[test]
fn hash_is_the_sha256_of_the_bytes() {
    let image = NroFile::new(String::from("abc.nro"), b"abc".to_vec());
    assert_eq!(
        hex(&image.hash().0),
        "ba7816bf8f01cfea414140de5dae2223b00361a396177a9cb410ff61f20015ad"
    );
}

#[test]
fn hash_ignores_the_name() {
    let one = NroFile::new(String::from("one.nro"), vec![1, 2, 3, 4]);
    let two = NroFile::new(String::from("two.nro"), vec![1, 2, 3, 4]);
    assert_eq!(one.hash(), two.hash());
    assert_eq!(one.hash(), one.hash());
}

#[test]
fn hash_follows_the_fix() {
    let mut image =
        NroFile::new(String::from("a.nro"), image_with_fields(0x80, 0, 0x10, 0x1000, 0x1000));
    assert_eq!(
        hex(&image.hash().0),
        "1317f4763200fba8cd2ca3abdae4f8e777ba0aa1af3be301cb1600f4f33fedd3"
    );
    image.fix_bss_size();
    assert_eq!(
        hex(&image.hash().0),
        "e30410f47dac02f7bcd43801b3428e8fc1dc4fe0dea9fb795b77f692a3797a83"
    );
}

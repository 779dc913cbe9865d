use urc::zip::{crc32_of, entry_name, zip_stored, ZipEntry};

fn le16(b: &[u8], at: usize) -> u16 {
    u16::from_le_bytes([b[at], b[at + 1]])
}

fn le32(b: &[u8], at: usize) -> u32 {
    u32::from_le_bytes([b[at], b[at + 1], b[at + 2], b[at + 3]])
}

fn entry(name: &str, data: &[u8]) -> ZipEntry {
    ZipEntry { name: name.to_string(), data: data.to_vec() }
}

#[test]
fn crc32_matches_the_standard_check_values() {
    assert_eq!(crc32_of(&b"hello".to_vec()), 0x3610_a686);
    assert_eq!(crc32_of(&b"123456789".to_vec()), 0xCBF4_3926);
    assert_eq!(crc32_of(&Vec::new()), 0);
}

#[test]
fn an_empty_folder_is_just_the_end_record() {
    let z = zip_stored(&Vec::new()).unwrap();
    assert_eq!(z, vec![0x50, 0x4b, 0x05, 0x06, 0, 0, 0, 0, 0, 0, 0, 0, 0, 0, 0, 0, 0, 0, 0, 0, 0, 0]);
}

#[test]
fn one_file_gets_a_local_record_a_central_header_and_an_end_record() {
    let z = zip_stored(&vec![entry("a.txt", b"hello")]).unwrap();
    assert_eq!(z.len(), (30 + 5 + 5) + (46 + 5) + 22);
    // local file header
    assert_eq!(le32(&z, 0), 0x0403_4b50);
    assert_eq!(le16(&z, 4), 20);
    assert_eq!(le16(&z, 6), 0x0800);
    assert_eq!(le16(&z, 8), 0);
    assert_eq!(le32(&z, 14), 0x3610_a686);
    assert_eq!(le32(&z, 18), 5);
    assert_eq!(le32(&z, 22), 5);
    assert_eq!(le16(&z, 26), 5);
    assert_eq!(&z[30..35], b"a.txt");
    assert_eq!(&z[35..40], b"hello");
    // central directory header
    assert_eq!(le32(&z, 40), 0x0201_4b50);
    assert_eq!(le32(&z, 40 + 16), 0x3610_a686);
    assert_eq!(le16(&z, 40 + 28), 5);
    assert_eq!(le32(&z, 40 + 42), 0);
    assert_eq!(&z[86..91], b"a.txt");
    // end of central directory
    assert_eq!(le32(&z, 91), 0x0605_4b50);
    assert_eq!(le16(&z, 91 + 8), 1);
    assert_eq!(le16(&z, 91 + 10), 1);
    assert_eq!(le32(&z, 91 + 12), 51);
    assert_eq!(le32(&z, 91 + 16), 40);
}

#[test]
fn each_central_header_points_at_its_local_record() {
    let z = zip_stored(&vec![entry("a", b"xy"), entry("sub/b", b"")]).unwrap();
    let second_local = 30 + 1 + 2;
    assert_eq!(le32(&z, second_local), 0x0403_4b50);
    assert_eq!(&z[second_local + 30..second_local + 35], b"sub/b");
    let cd = second_local + 30 + 5;
    assert_eq!(le32(&z, cd), 0x0201_4b50);
    assert_eq!(le32(&z, cd + 42), 0);
    let cd2 = cd + 46 + 1;
    assert_eq!(le32(&z, cd2), 0x0201_4b50);
    assert_eq!(le32(&z, cd2 + 42), second_local as u32);
    assert_eq!(le32(&z, cd2 + 16), 0);
    let end = cd2 + 46 + 5;
    assert_eq!(z.len(), end + 22);
    assert_eq!(le16(&z, end + 10), 2);
    assert_eq!(le32(&z, end + 12), (end - cd) as u32);
    assert_eq!(le32(&z, end + 16), cd as u32);
}

#[test]
fn a_name_longer_than_the_field_is_refused() {
    let long = "n".repeat(0x1_0000);
    assert!(zip_stored(&vec![entry(&long, b"x")]).is_none());
    let longest = "n".repeat(0xFFFF);
    assert!(zip_stored(&vec![entry(&longest, b"x")]).is_some());
}

#[test]
fn archive_paths_join_folders_with_a_slash() {
    assert_eq!(entry_name("", "a.txt"), "a.txt");
    assert_eq!(entry_name("sub", "a.txt"), "sub/a.txt");
    assert_eq!(entry_name("sub/deeper", "x"), "sub/deeper/x");
}

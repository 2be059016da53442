use zip_writer::header::{FileEntry, FileHeader};

fn expected_local_a_txt() -> Vec<u8> {
    let mut bytes: Vec<u8> = vec![
        0x50, 0x4b, 0x03, 0x04, // signature
        0x00, 0x00, // version needed
        0x00, 0x00, // flags
        0x00, 0x00, // method
        0x00, 0x00, 0x00, 0x00, // time and date
        0x86, 0xa6, 0x10, 0x36, // checksum
        0x05, 0x00, 0x00, 0x00, // compressed size
        0x05, 0x00, 0x00, 0x00, // uncompressed size
        0x05, 0x00, // path length
        0x0e, 0x00, // extra field length
    ];
    bytes.extend_from_slice(b"a.txt");
    bytes.extend_from_slice(&[0x75, 0x70, 0x0a, 0x00, 0x01, 0xba, 0xf7, 0xeb, 0xc1]);
    bytes.extend_from_slice(b"a.txt");
    bytes
}

#[test]
fn signatures() {
    assert_eq!(FileHeader::Local.signature(), [0x50, 0x4b, 0x03, 0x04]);
    assert_eq!(FileHeader::Central.signature(), [0x50, 0x4b, 0x01, 0x02]);
}

#[test]
fn entry_keeps_what_it_was_given() {
    let entry = FileEntry::new(7, String::from("b/c.txt"), 11, 0xdead_beef);
    assert_eq!(entry.offset(), 7);
    assert_eq!(entry.filename(), "b/c.txt");
    assert_eq!(entry.size(), 11);
    assert_eq!(entry.crc32(), 0xdead_beef);
}

#[test]
fn completed_sets_size_and_checksum_only() {
    let entry = FileEntry::new(7, String::from("b/c.txt"), 0, 0).completed(11, 0xdead_beef);
    assert_eq!(entry.offset(), 7);
    assert_eq!(entry.filename(), "b/c.txt");
    assert_eq!(entry.size(), 11);
    assert_eq!(entry.crc32(), 0xdead_beef);
}

#[test]
fn local_header_bytes() {
    let entry = FileEntry::new(0x1234, String::from("a.txt"), 5, 0x3610_a686);
    let mut out: Vec<u8> = Vec::new();
    let n: usize = entry.write_header(&mut out, FileHeader::Local);
    assert_eq!(n, 49);
    assert_eq!(out, expected_local_a_txt());
}

#[test]
fn directory_header_bytes() {
    let entry = FileEntry::new(0x1234, String::from("a.txt"), 5, 0x3610_a686);
    let mut out: Vec<u8> = Vec::new();
    let n: usize = entry.write_header(&mut out, FileHeader::Central);
    let mut expected: Vec<u8> = vec![
        0x50, 0x4b, 0x01, 0x02, // signature
        0x00, 0x3f, // version made by
        0x00, 0x00, // version needed
        0x00, 0x00, // flags
        0x00, 0x00, // method
        0x00, 0x00, 0x00, 0x00, // time and date
        0x86, 0xa6, 0x10, 0x36, // checksum
        0x05, 0x00, 0x00, 0x00, // compressed size
        0x05, 0x00, 0x00, 0x00, // uncompressed size
        0x05, 0x00, // path length
        0x0e, 0x00, // extra field length
        0x00, 0x00, // comment length
        0x00, 0x00, // disk number
        0x10, 0x00, // internal attributes
        0x00, 0x00, 0x00, 0x00, // external attributes
        0x34, 0x12, 0x00, 0x00, // offset of the local header
    ];
    expected.extend_from_slice(b"a.txt");
    expected.extend_from_slice(&[0x75, 0x70, 0x0a, 0x00, 0x01, 0xba, 0xf7, 0xeb, 0xc1]);
    expected.extend_from_slice(b"a.txt");
    assert_eq!(n, 65);
    assert_eq!(out, expected);
}

#[test]
fn write_header_appends() {
    let entry = FileEntry::new(0, String::from("a.txt"), 5, 0x3610_a686);
    let mut out: Vec<u8> = vec![0xaa, 0xbb];
    let n: usize = entry.write_header(&mut out, FileHeader::Local);
    assert_eq!(n, 49);
    assert_eq!(&out[..2], &[0xaa, 0xbb]);
    assert_eq!(&out[2..], &expected_local_a_txt()[..]);
}

#[test]
fn placeholder_header_has_zero_size_and_checksum() {
    let entry = FileEntry::new(0, String::from("a.txt"), 0, 0);
    let mut out: Vec<u8> = Vec::new();
    entry.write_header(&mut out, FileHeader::Local);
    assert_eq!(&out[14..26], &[0u8; 12]);
    let mut expected: Vec<u8> = expected_local_a_txt();
    for byte in expected[14..26].iter_mut() {
        *byte = 0;
    }
    assert_eq!(out, expected);
}

#[test]
fn both_headers_agree_outside_the_directory_fields() {
    for (path, size, sum, offset) in [
        ("a.txt", 5u64, 0x3610_a686u32, 0u64),
        ("", 0, 0, 49),
        ("héllo/日本.txt", 0x1_0000_0001, 0xffff_ffff, 0xffff_ffff_ffff),
    ] {
        let entry = FileEntry::new(offset, String::from(path), size, sum);
        let mut local: Vec<u8> = Vec::new();
        let mut central: Vec<u8> = Vec::new();
        entry.write_header(&mut local, FileHeader::Local);
        entry.write_header(&mut central, FileHeader::Central);
        assert_eq!(local.len() + 16, central.len());
        assert_eq!(&local[4..30], &central[6..32]);
        assert_eq!(&local[30..], &central[46..]);
    }
}

#[test]
fn header_lengths_follow_the_path_length() {
    for path in ["", "a", "b/c.txt", "héllo/日本.txt"] {
        let entry = FileEntry::new(0, String::from(path), 0, 0);
        let mut out: Vec<u8> = Vec::new();
        assert_eq!(entry.write_header(&mut out, FileHeader::Local), 39 + 2 * path.len());
        let mut out: Vec<u8> = Vec::new();
        assert_eq!(entry.write_header(&mut out, FileHeader::Central), 55 + 2 * path.len());
    }
}

#[test]
fn sizes_and_offsets_keep_their_low_32_bits() {
    let entry = FileEntry::new(0x2_0000_0007, String::from("big"), 0x1_0000_0005, 1);
    let mut local: Vec<u8> = Vec::new();
    entry.write_header(&mut local, FileHeader::Local);
    assert_eq!(&local[18..22], &[0x05, 0x00, 0x00, 0x00]);
    assert_eq!(&local[22..26], &[0x05, 0x00, 0x00, 0x00]);
    let mut central: Vec<u8> = Vec::new();
    entry.write_header(&mut central, FileHeader::Central);
    assert_eq!(&central[20..24], &[0x05, 0x00, 0x00, 0x00]);
    assert_eq!(&central[24..28], &[0x05, 0x00, 0x00, 0x00]);
    assert_eq!(&central[42..46], &[0x07, 0x00, 0x00, 0x00]);
}

#[test]
fn path_length_fields_keep_their_low_16_bits() {
    let path: String = "x".repeat(65536 + 3);
    let entry = FileEntry::new(0, path, 0, 0);
    let mut local: Vec<u8> = Vec::new();
    let n: usize = entry.write_header(&mut local, FileHeader::Local);
    assert_eq!(n, 39 + 2 * (65536 + 3));
    assert_eq!(&local[26..28], &[0x03, 0x00]);
    assert_eq!(&local[28..30], &[0x0c, 0x00]);
}

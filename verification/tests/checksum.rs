use zip_writer::checksum::{Crc32, Crc32Accumulator};

#[test]
fn checksum_of_check_string() {
    let engine = Crc32::new();
    assert_eq!(engine.checksum(b"123456789"), 0xcbf4_3926);
}

#[test]
fn checksum_of_known_inputs() {
    let engine = Crc32::new();
    assert_eq!(engine.checksum(b""), 0);
    assert_eq!(engine.checksum(b"hello"), 0x3610_a686);
    assert_eq!(engine.checksum(b"a.txt"), 0xc1eb_f7ba);
}

#[test]
fn checksum_depends_on_order() {
    let engine = Crc32::new();
    assert_ne!(engine.checksum(b"ab"), engine.checksum(b"ba"));
}

#[test]
fn checksum_agrees_with_the_crc_crate() {
    let engine = Crc32::new();
    let reference = crc::Crc::<u32>::new(&crc::CRC_32_ISO_HDLC);
    let data: Vec<u8> = (0..1000u32).map(|i| (i * 7 % 251) as u8).collect();
    assert_eq!(engine.checksum(&data), reference.checksum(&data));
}

#[test]
fn fresh_accumulator_is_empty() {
    let engine = Crc32::new();
    let acc = Crc32Accumulator::new(&engine);
    assert_eq!(acc.count(), 0);
    assert_eq!(acc.sum32(), 0);
}

#[test]
fn accumulator_agrees_with_one_shot_checksum() {
    let engine = Crc32::new();
    let mut acc = Crc32Accumulator::new(&engine);
    acc.update(b"1234");
    acc.update(b"");
    acc.update(b"56789");
    assert_eq!(acc.count(), 9);
    assert_eq!(acc.sum32(), 0xcbf4_3926);
}

#[test]
fn accumulator_sees_every_chunk() {
    let engine = Crc32::new();
    let mut acc = Crc32Accumulator::new(&engine);
    acc.update(b"1234");
    assert_eq!(acc.count(), 4);
    let mut whole = Crc32Accumulator::new(&engine);
    whole.update(b"123456789");
    assert_ne!(acc.sum32(), whole.sum32());
}

#[test]
fn any_chunking_gives_the_same_checksum() {
    let engine = Crc32::new();
    let data: Vec<u8> = (0..4096u32).map(|i| (i * 31 % 256) as u8).collect();
    let expected: u32 = engine.checksum(&data);
    for chunk in [1usize, 2, 3, 64, 1000, 4096, 5000] {
        let mut acc = Crc32Accumulator::new(&engine);
        for part in data.chunks(chunk) {
            acc.update(part);
        }
        assert_eq!(acc.count(), 4096);
        assert_eq!(acc.sum32(), expected);
    }
}

#[test]
fn record_takes_only_what_was_delivered() {
    let engine = Crc32::new();
    let mut acc = Crc32Accumulator::new(&engine);
    let buf: [u8; 8] = *b"hello\0\0\0";
    acc.record(&buf, 5);
    acc.record(&buf, 0);
    assert_eq!(acc.count(), 5);
    assert_eq!(acc.sum32(), 0x3610_a686);
}

#[test]
fn record_of_a_full_buffer_takes_all_of_it() {
    let engine = Crc32::new();
    let mut acc = Crc32Accumulator::new(&engine);
    acc.record(b"12345", 5);
    acc.record(b"6789", 4);
    assert_eq!(acc.count(), 9);
    assert_eq!(acc.sum32(), 0xcbf4_3926);
}

//! The extra field that carries an entry's path as UTF-8, guarded by a
//! checksum, for readers that take the primary name for a legacy encoding.

use crate::checksum::{crc32_checksum, Crc32};
use crate::encoding::{le16, le32, le16_value, le32_value, lemma_le16_value, lemma_le32_value, put_bytes, put_le16, put_le32, put_u8};
use vstd::prelude::*;
use vstd::utf8::{decode_utf8, encode_utf8};

verus! {

/// Tag of the UTF-8 path extra field.
pub open spec fn path_field_tag() -> Seq<u8> {
    seq![0x75u8, 0x70u8]
}

/// Version byte of the UTF-8 path extra field.
pub open spec fn path_field_version() -> Seq<u8> {
    seq![0x01u8]
}

/// The record for `path`: tag, record length (path length plus five), version,
/// checksum of the path's UTF-8 bytes, and those bytes.
pub open spec fn utf8_path_field(path: Seq<char>) -> Seq<u8> {
    let raw = encode_utf8(path);
    path_field_tag() + le16(raw.len() + 5) + path_field_version() + le32(
        crc32_checksum(raw) as nat,
    ) + raw
}

/// Builder of the UTF-8 path extra field of one path.
pub struct Utf8PathField<'a> {
    path: &'a str,
}

impl<'a> View for Utf8PathField<'a> {
    type V = Seq<char>;

    closed spec fn view(&self) -> Seq<char> {
        self.path@
    }
}

impl<'a> Utf8PathField<'a> {
    pub fn new(path: &'a str) -> (field: Self)
        ensures
            field@ == path@,
    {
        Utf8PathField { path }
    }

    /// Serializes the record.
    pub fn into_bytes(self) -> (record: Vec<u8>)
        ensures
            record@ == utf8_path_field(self@),
    {
        let raw = self.path.as_bytes();
        let engine = Crc32::new();
        let sum: u32 = engine.checksum(raw);
        let low: u64 = (raw.len() % 0x1_0000) as u64 + 5;
        assert(le16(low as nat) =~= le16(raw@.len() + 5));
        let mut buf: Vec<u8> = Vec::new();
        put_u8(&mut buf, 0x75);
        put_u8(&mut buf, 0x70);
        put_le16(&mut buf, low);
        put_u8(&mut buf, 0x01);
        put_le32(&mut buf, sum as u64);
        put_bytes(&mut buf, raw);
        assert(buf@ =~= utf8_path_field(self@));
        buf
    }
}

/// The record is nine bytes longer than the path's UTF-8 encoding.
pub proof fn lemma_path_field_len(path: Seq<char>)
    ensures
        utf8_path_field(path).len() == encode_utf8(path).len() + 9,
{
}

/// Every path, ASCII or not, is recovered exactly from its record: the bytes
/// after the nine-byte prefix are the path's UTF-8 encoding and decode to the
/// path, the checksum field holds the checksum of those bytes, and the length
/// field holds the path's length plus five whenever that fits in 16 bits.
pub proof fn lemma_path_field_round_trip(path: Seq<char>)
    ensures
        utf8_path_field(path).subrange(0, 2) == path_field_tag(),
        utf8_path_field(path).subrange(4, 5) == path_field_version(),
        utf8_path_field(path).skip(9) == encode_utf8(path),
        decode_utf8(utf8_path_field(path).skip(9)) == path,
        le32_value(utf8_path_field(path).subrange(5, 9)) == crc32_checksum(
            utf8_path_field(path).skip(9),
        ),
        encode_utf8(path).len() + 5 < 0x1_0000 ==> le16_value(
            utf8_path_field(path).subrange(2, 4),
        ) == encode_utf8(path).len() + 5,
{
    let raw = encode_utf8(path);
    let record = utf8_path_field(path);
    assert(record.subrange(0, 2) =~= path_field_tag());
    assert(record.subrange(4, 5) =~= path_field_version());
    assert(record.skip(9) =~= raw);
    vstd::utf8::encode_utf8_decode_utf8(path);
    assert(record.subrange(5, 9) =~= le32(crc32_checksum(raw) as nat));
    lemma_le32_value(crc32_checksum(raw) as nat);
    assert(record.subrange(2, 4) =~= le16(raw.len() + 5));
    lemma_le16_value(raw.len() + 5);
}

} // verus!

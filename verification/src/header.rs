//! Archive entries and their two headers: the local header that precedes an
//! entry's content and the directory header written when the archive closes.

use crate::encoding::{le16, le32, le32_value, lemma_le32_value, put_bytes, put_le16, put_le32, put_u8};
use crate::path_field::{utf8_path_field, Utf8PathField};
use vstd::prelude::*;
use vstd::utf8::encode_utf8;

verus! {

/// Which of an entry's two headers is meant.
#[derive(Clone, Copy, Debug, PartialEq, Eq)]
pub enum FileHeader {
    Local,
    Central,
}

/// What an entry is, as mathematics: where its local header starts, its path,
/// the length of its content and the checksum of its content.
pub struct EntryView {
    pub offset: u64,
    pub path: Seq<char>,
    pub size: u64,
    pub crc32: u32,
}

/// One member of an archive.
pub struct FileEntry {
    offset: u64,
    filename: String,
    size: u64,
    crc32: u32,
}

impl View for FileEntry {
    type V = EntryView;

    closed spec fn view(&self) -> EntryView {
        EntryView { offset: self.offset, path: self.filename@, size: self.size, crc32: self.crc32 }
    }
}

/// The four signature bytes that open a header.
pub open spec fn signature_bytes(header: FileHeader) -> Seq<u8> {
    match header {
        FileHeader::Local => seq![0x50u8, 0x4bu8, 0x03u8, 0x04u8],
        FileHeader::Central => seq![0x50u8, 0x4bu8, 0x01u8, 0x02u8],
    }
}

/// The "version made by" field, which only a directory header has.
pub open spec fn version_made_by() -> Seq<u8> {
    seq![0x00u8, 0x3fu8]
}

/// The 26 bytes that both headers of an entry hold alike: version needed,
/// flags, compression method (store), modification time and date, checksum,
/// compressed and uncompressed size, path length and extra-field length.
pub open spec fn common_fields(entry: EntryView) -> Seq<u8> {
    seq![0x00u8, 0x00u8] + seq![0x00u8, 0x00u8] + seq![0x00u8, 0x00u8] + seq![
        0x00u8,
        0x00u8,
        0x00u8,
        0x00u8,
    ] + le32(entry.crc32 as nat) + le32(entry.size as nat) + le32(entry.size as nat) + le16(
        encode_utf8(entry.path).len(),
    ) + le16(utf8_path_field(entry.path).len())
}

/// The 14 bytes that only a directory header holds: comment length, disk
/// number, internal attributes, external attributes and the offset of the
/// entry's local header.
pub open spec fn directory_fields(entry: EntryView) -> Seq<u8> {
    seq![0x00u8, 0x00u8] + seq![0x00u8, 0x00u8] + seq![0x10u8, 0x00u8] + seq![
        0x00u8,
        0x00u8,
        0x00u8,
        0x00u8,
    ] + le32(entry.offset as nat)
}

/// The bytes of one header of `entry`.
pub open spec fn header_bytes(entry: EntryView, header: FileHeader) -> Seq<u8> {
    match header {
        FileHeader::Local => signature_bytes(header) + common_fields(entry) + encode_utf8(
            entry.path,
        ) + utf8_path_field(entry.path),
        FileHeader::Central => signature_bytes(header) + version_made_by() + common_fields(entry)
            + directory_fields(entry) + encode_utf8(entry.path) + utf8_path_field(entry.path),
    }
}

/// The length of a header of an entry with the given path.
pub open spec fn header_len(path: Seq<char>, header: FileHeader) -> nat {
    match header {
        FileHeader::Local => 39 + 2 * encode_utf8(path).len(),
        FileHeader::Central => 55 + 2 * encode_utf8(path).len(),
    }
}

/// Where the checksum field starts in a header; the two size fields follow
/// it directly.
pub open spec fn checksum_field_start(header: FileHeader) -> int {
    match header {
        FileHeader::Local => 14,
        FileHeader::Central => 16,
    }
}

/// A header is as long as `header_len` says: 39 bytes (local) or 55 bytes
/// (directory) around two copies of the path.
pub proof fn lemma_header_len(entry: EntryView, header: FileHeader)
    ensures
        header_bytes(entry, header).len() == header_len(entry.path, header),
        common_fields(entry).len() == 26,
        directory_fields(entry).len() == 14,
{
}

/// Both headers of an entry record its checksum and, twice, the length of
/// its content, as little-endian fields of four bytes: the length reads back
/// as written when it is below 2^32, and reduced modulo 2^32 otherwise.
pub proof fn lemma_header_records_content(entry: EntryView, header: FileHeader)
    ensures
        ({
            let bytes = header_bytes(entry, header);
            let at = checksum_field_start(header);
            &&& bytes.subrange(at, at + 4) == le32(entry.crc32 as nat)
            &&& bytes.subrange(at + 4, at + 8) == le32(entry.size as nat)
            &&& bytes.subrange(at + 8, at + 12) == le32(entry.size as nat)
            &&& le32_value(bytes.subrange(at, at + 4)) == entry.crc32
            &&& le32_value(bytes.subrange(at + 4, at + 8)) == entry.size % 0x1_0000_0000
            &&& le32_value(bytes.subrange(at + 8, at + 12)) == entry.size % 0x1_0000_0000
            &&& entry.size < 0x1_0000_0000 ==> {
                &&& le32_value(bytes.subrange(at + 4, at + 8)) == entry.size
                &&& le32_value(bytes.subrange(at + 8, at + 12)) == entry.size
            }
        }),
{
    let bytes = header_bytes(entry, header);
    let at = checksum_field_start(header);
    assert(bytes.subrange(at, at + 4) =~= le32(entry.crc32 as nat));
    assert(bytes.subrange(at + 4, at + 8) =~= le32(entry.size as nat));
    assert(bytes.subrange(at + 8, at + 12) =~= le32(entry.size as nat));
    lemma_le32_value(entry.crc32 as nat);
    lemma_le32_value(entry.size as nat);
}

/// The local header and the directory header of one entry agree byte for
/// byte outside what only the directory header has: after the signature the
/// same 26 bytes of fields, and at the end the same path and extra field.
/// The directory header is the local header with another signature, the
/// "version made by" field put in after it, and the directory-only fields
/// put in before the path.
pub proof fn lemma_local_header_matches_directory_header(entry: EntryView)
    ensures
        ({
            let local = header_bytes(entry, FileHeader::Local);
            let central = header_bytes(entry, FileHeader::Central);
            &&& local.len() + 16 == central.len()
            &&& local.subrange(4, 30) == central.subrange(6, 32)
            &&& local.skip(30) == central.skip(46)
            &&& central == signature_bytes(FileHeader::Central) + version_made_by()
                + local.subrange(4, 30) + directory_fields(entry) + local.skip(30)
        }),
{
    let local = header_bytes(entry, FileHeader::Local);
    let central = header_bytes(entry, FileHeader::Central);
    let tail = encode_utf8(entry.path) + utf8_path_field(entry.path);
    assert(local.subrange(4, 30) =~= common_fields(entry));
    assert(central.subrange(6, 32) =~= common_fields(entry));
    assert(local.skip(30) =~= tail);
    assert(central.skip(46) =~= tail);
    assert(central =~= signature_bytes(FileHeader::Central) + version_made_by() + common_fields(
        entry,
    ) + directory_fields(entry) + tail);
}

/// A directory header records where the entry's local header starts, reduced
/// modulo 2^32.
pub proof fn lemma_directory_header_records_offset(entry: EntryView)
    ensures
        le32_value(header_bytes(entry, FileHeader::Central).subrange(42, 46)) == entry.offset
            % 0x1_0000_0000,
        entry.offset < 0x1_0000_0000 ==> le32_value(
            header_bytes(entry, FileHeader::Central).subrange(42, 46),
        ) == entry.offset,
{
    assert(header_bytes(entry, FileHeader::Central).subrange(42, 46) =~= le32(
        entry.offset as nat,
    ));
    lemma_le32_value(entry.offset as nat);
}

impl FileHeader {
    /// The signature that opens a header of this kind.
    pub fn signature(&self) -> (sig: [u8; 4])
        ensures
            sig@ == signature_bytes(*self),
    {
        let sig: [u8; 4] = match self {
            FileHeader::Local => [0x50, 0x4b, 0x03, 0x04],
            FileHeader::Central => [0x50, 0x4b, 0x01, 0x02],
        };
        assert(sig@ =~= signature_bytes(*self));
        sig
    }
}

impl FileEntry {
    pub fn new(offset: u64, filename: String, size: u64, crc32: u32) -> (entry: Self)
        ensures
            entry@ == (EntryView { offset, path: filename@, size, crc32 }),
    {
        FileEntry { offset, filename, size, crc32 }
    }

    /// Where the entry's local header starts.
    pub fn offset(&self) -> (offset: u64)
        ensures
            offset == self@.offset,
    {
        self.offset
    }

    /// The entry's path.
    pub fn filename(&self) -> (path: &str)
        ensures
            path@ == self@.path,
    {
        self.filename.as_str()
    }

    /// The length of the entry's content.
    pub fn size(&self) -> (size: u64)
        ensures
            size == self@.size,
    {
        self.size
    }

    /// The checksum of the entry's content.
    pub fn crc32(&self) -> (crc32: u32)
        ensures
            crc32 == self@.crc32,
    {
        self.crc32
    }

    /// The entry with its size and checksum set, once its content is known.
    pub fn completed(self, size: u64, crc32: u32) -> (entry: Self)
        ensures
            entry@ == (EntryView { size, crc32, ..self@ }),
    {
        FileEntry { offset: self.offset, filename: self.filename, size, crc32 }
    }

    /// Appends the header of the given kind to `w` and returns its length.
    pub fn write_header(&self, w: &mut Vec<u8>, header: FileHeader) -> (n: usize)
        ensures
            final(w)@ == old(w)@ + header_bytes(self@, header),
            n == header_bytes(self@, header).len(),
            n == header_len(self@.path, header),
    {
        let start: usize = w.len();
        let path = self.filename.as_str().as_bytes();
        let extra = Utf8PathField::new(self.filename.as_str()).into_bytes();
        let sig = header.signature();
        put_bytes(w, sig.as_slice());
        match header {
            FileHeader::Central => {
                put_u8(w, 0x00);
                put_u8(w, 0x3f);
            },
            FileHeader::Local => {},
        }
        put_le16(w, 0);
        put_le16(w, 0);
        put_le16(w, 0);
        put_le32(w, 0);
        put_le32(w, self.crc32 as u64);
        put_le32(w, self.size);
        put_le32(w, self.size);
        put_le16(w, path.len() as u64);
        put_le16(w, extra.len() as u64);
        match header {
            FileHeader::Central => {
                put_le16(w, 0);
                put_le16(w, 0);
                put_u8(w, 0x10);
                put_u8(w, 0x00);
                put_le32(w, 0);
                put_le32(w, self.offset);
            },
            FileHeader::Local => {},
        }
        put_bytes(w, path);
        put_bytes(w, extra.as_slice());
        assert(w@ =~= old(w)@ + header_bytes(self@, header));
        w.len() - start
    }
}

} // verus!

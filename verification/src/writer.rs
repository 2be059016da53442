//! The archive writer: offset bookkeeping for the entries of one archive, and
//! the bytes of everything but their content.
//!
//! An entry is written in three steps. The writer first hands out a local
//! header with placeholders; once the content has gone by, it hands out the
//! final header together with the place where it belongs; and when that
//! header stands in the sink and the sink is back at the cursor, the entry is
//! committed. Only a committed entry is listed in the directory, which
//! closing hands out together with the summary record.

use crate::checksum::{crc32_checksum, Crc32Accumulator};
use crate::encoding::{
    le16, le16_value, le32, le32_value, lemma_le16_value, lemma_le32_value, put_le16, put_le32,
    put_u8,
};
use crate::header::{
    checksum_field_start, header_bytes, header_len, lemma_header_records_content, EntryView,
    FileEntry, FileHeader,
};
use vstd::prelude::*;
use vstd::utf8::encode_utf8;

verus! {

/// The bytes that an entry takes up before the directory: its local header
/// and its content.
pub open spec fn stored_len(entry: EntryView) -> nat {
    header_len(entry.path, FileHeader::Local) + entry.size as nat
}

/// Where the content of the last of `entries` ends, when they are stored one
/// after the other from the start of the archive.
pub open spec fn content_end(entries: Seq<EntryView>) -> nat
    decreases entries.len(),
{
    if entries.len() == 0 {
        0
    } else {
        content_end(entries.drop_last()) + stored_len(entries.last())
    }
}

/// The directory: the directory header of every entry, in order.
pub open spec fn central_directory(entries: Seq<EntryView>) -> Seq<u8>
    decreases entries.len(),
{
    if entries.len() == 0 {
        Seq::<u8>::empty()
    } else {
        central_directory(entries.drop_last()) + header_bytes(entries.last(), FileHeader::Central)
    }
}

/// Signature of the summary record.
pub open spec fn end_signature() -> Seq<u8> {
    seq![0x50u8, 0x4bu8, 0x05u8, 0x06u8]
}

/// The summary record: signature, number of this disk (0), disk on which the
/// directory starts (1), entry count on this disk and in total, length of
/// the directory, offset of the directory, and an empty comment.
pub open spec fn end_record(count: nat, directory_len: nat, directory_offset: nat) -> Seq<u8> {
    end_signature() + le16(0) + le16(1) + le16(count) + le16(count) + le32(directory_len) + le32(
        directory_offset,
    ) + le16(0)
}

/// Everything that follows the last entry's content in an archive of
/// `entries` whose content ends at `cursor`.
pub open spec fn trailer_bytes(entries: Seq<EntryView>, cursor: nat) -> Seq<u8> {
    central_directory(entries) + end_record(
        entries.len(),
        central_directory(entries).len(),
        cursor,
    )
}

/// The summary record is 22 bytes long and its fields read back as the
/// entry count (twice, modulo 2^16), the directory's length and the
/// directory's offset (both modulo 2^32); disk numbers 0 and 1 and an empty
/// comment stand around them.
pub proof fn lemma_end_record_fields(count: nat, directory_len: nat, directory_offset: nat)
    ensures
        ({
            let record = end_record(count, directory_len, directory_offset);
            &&& record.len() == 22
            &&& record.subrange(0, 4) == end_signature()
            &&& le16_value(record.subrange(4, 6)) == 0
            &&& le16_value(record.subrange(6, 8)) == 1
            &&& le16_value(record.subrange(8, 10)) == count % 0x1_0000
            &&& le16_value(record.subrange(10, 12)) == count % 0x1_0000
            &&& le32_value(record.subrange(12, 16)) == directory_len % 0x1_0000_0000
            &&& le32_value(record.subrange(16, 20)) == directory_offset % 0x1_0000_0000
            &&& le16_value(record.subrange(20, 22)) == 0
        }),
{
    let record = end_record(count, directory_len, directory_offset);
    assert(record.subrange(0, 4) =~= end_signature());
    assert(record.subrange(4, 6) =~= le16(0));
    assert(record.subrange(6, 8) =~= le16(1));
    assert(record.subrange(8, 10) =~= le16(count));
    assert(record.subrange(10, 12) =~= le16(count));
    assert(record.subrange(12, 16) =~= le32(directory_len));
    assert(record.subrange(16, 20) =~= le32(directory_offset));
    assert(record.subrange(20, 22) =~= le16(0));
    lemma_le16_value(0);
    lemma_le16_value(1);
    lemma_le16_value(count);
    lemma_le32_value(directory_len);
    lemma_le32_value(directory_offset);
}

/// The directory of the first `n` entries opens the directory of them all,
/// and the directory header of entry `n` follows it directly: the directory
/// lists the entries in the order of their arrival.
pub proof fn lemma_directory_in_order(entries: Seq<EntryView>, n: int)
    requires
        0 <= n < entries.len(),
    ensures
        ({
            let before = central_directory(entries.take(n));
            let upto = central_directory(entries.take(n + 1));
            &&& upto == before + header_bytes(entries[n], FileHeader::Central)
            &&& upto.len() <= central_directory(entries).len()
            &&& central_directory(entries).subrange(0, upto.len() as int) == upto
        }),
    decreases entries.len(),
{
    let upto = entries.take(n + 1);
    assert(upto.drop_last() =~= entries.take(n));
    assert(upto.last() == entries[n]);
    if n + 1 == entries.len() {
        assert(upto =~= entries);
        assert(central_directory(entries).subrange(0, central_directory(entries).len() as int)
            =~= central_directory(entries));
    } else {
        let shorter = entries.drop_last();
        lemma_directory_in_order(shorter, n);
        assert(shorter.take(n) =~= entries.take(n));
        assert(shorter.take(n + 1) =~= upto);
        let whole = central_directory(entries);
        let len = central_directory(upto).len() as int;
        assert(whole.subrange(0, len) =~= central_directory(shorter).subrange(0, len));
    }
}

/// An archive without entries has an empty directory, and its trailer is the
/// summary record alone, with an entry count of zero, a directory of length
/// zero and the directory at offset zero.
pub proof fn lemma_empty_archive()
    ensures
        central_directory(Seq::<EntryView>::empty()).len() == 0,
        trailer_bytes(Seq::<EntryView>::empty(), 0) == end_record(0, 0, 0),
        end_record(0, 0, 0) == seq![
            0x50u8, 0x4bu8, 0x05u8, 0x06u8, 0u8, 0u8, 1u8, 0u8, 0u8, 0u8, 0u8, 0u8, 0u8, 0u8, 0u8,
            0u8, 0u8, 0u8, 0u8, 0u8, 0u8, 0u8,
        ],
{
    assert(trailer_bytes(Seq::<EntryView>::empty(), 0) =~= end_record(0, 0, 0));
    assert(end_record(0, 0, 0) =~= seq![
        0x50u8, 0x4bu8, 0x05u8, 0x06u8, 0u8, 0u8, 1u8, 0u8, 0u8, 0u8, 0u8, 0u8, 0u8, 0u8, 0u8,
        0u8, 0u8, 0u8, 0u8, 0u8, 0u8, 0u8,
    ]);
}

/// How far the writing of the current entry has come.
pub enum Stage {
    /// Between entries.
    Idle,
    /// An entry has been begun: its placeholder header is out and its
    /// content is being streamed.
    Streaming(EntryView),
    /// The entry's content is through and its final header is out, but the
    /// header is not known to stand in the sink yet.
    Patching(EntryView),
}

/// The state of a writer, as mathematics.
pub struct WriterView {
    /// The committed entries, in the order of their arrival.
    pub entries: Seq<EntryView>,
    /// The position in the sink at which the next byte goes.
    pub cursor: u64,
    /// The entry in the making, if any.
    pub stage: Stage,
}

/// An entry as it is begun at `offset`: size and checksum are not known and
/// stand at zero.
pub open spec fn begun_entry(offset: u64, path: Seq<char>) -> EntryView {
    EntryView { offset, path, size: 0, crc32: 0 }
}

/// What a begun entry turns into when its content was `content`.
pub open spec fn completed_entry(begun: EntryView, content: Seq<u8>) -> EntryView {
    EntryView { size: content.len() as u64, crc32: crc32_checksum(content), ..begun }
}

impl WriterView {
    /// The entry in the making.
    pub open spec fn current(self) -> EntryView
        recommends
            !(self.stage is Idle),
    {
        match self.stage {
            Stage::Idle => arbitrary(),
            Stage::Streaming(entry) => entry,
            Stage::Patching(entry) => entry,
        }
    }

    /// The state after an entry named `path` has been begun: the entry
    /// starts at the cursor, and the cursor has moved past its local header.
    pub open spec fn begin(self, path: Seq<char>) -> WriterView
        recommends
            self.stage is Idle,
    {
        WriterView {
            entries: self.entries,
            cursor: (self.cursor + header_len(path, FileHeader::Local)) as u64,
            stage: Stage::Streaming(begun_entry(self.cursor, path)),
        }
    }

    /// The state after the begun entry's content, `content`, has been
    /// streamed: the entry knows its size and checksum, and the cursor has
    /// moved past the content.
    pub open spec fn finish(self, content: Seq<u8>) -> WriterView
        recommends
            self.stage is Streaming,
    {
        WriterView {
            entries: self.entries,
            cursor: (self.cursor + content.len()) as u64,
            stage: Stage::Patching(completed_entry(self.current(), content)),
        }
    }

    /// The state after the finished entry has been committed.
    pub open spec fn commit(self) -> WriterView
        recommends
            self.stage is Patching,
    {
        WriterView {
            entries: self.entries.push(self.current()),
            cursor: self.cursor,
            stage: Stage::Idle,
        }
    }

    /// The committed entries lie one after the other from the start of the
    /// archive, and the entry in the making starts where the last of them
    /// ends. Between entries the cursor stands there; while an entry is
    /// streamed, the cursor has moved past its placeholder header; once its
    /// content is through, the cursor has moved past the content too.
    pub open spec fn wf(self) -> bool {
        &&& forall|i: int|
            0 <= i < self.entries.len() ==> (#[trigger] self.entries[i]).offset == content_end(
                self.entries.take(i),
            )
        &&& match self.stage {
            Stage::Idle => self.cursor == content_end(self.entries),
            Stage::Streaming(entry) => {
                &&& entry.offset == content_end(self.entries)
                &&& entry.size == 0
                &&& entry.crc32 == 0
                &&& self.cursor == entry.offset + header_len(entry.path, FileHeader::Local)
            },
            Stage::Patching(entry) => {
                &&& entry.offset == content_end(self.entries)
                &&& self.cursor == entry.offset + stored_len(entry)
            },
        }
    }
}

/// The steps keep the state well-formed, as long as the cursor stays within
/// 64 bits.
pub proof fn lemma_steps_keep_wf(state: WriterView, path: Seq<char>, content: Seq<u8>)
    requires
        state.wf(),
    ensures
        state.stage is Idle && state.cursor + header_len(path, FileHeader::Local) <= u64::MAX
            ==> state.begin(path).wf(),
        state.stage is Streaming && state.cursor + content.len() <= u64::MAX ==> state.finish(
            content,
        ).wf(),
        state.stage is Patching ==> state.commit().wf(),
{
    if state.stage is Patching {
        let next = state.commit();
        assert(next.entries.drop_last() =~= state.entries);
        assert forall|i: int| 0 <= i < next.entries.len() implies (#[trigger] next.entries[i]).offset
            == content_end(next.entries.take(i)) by {
            if i < state.entries.len() {
                assert(next.entries.take(i) =~= state.entries.take(i));
            } else {
                assert(next.entries.take(i) =~= state.entries);
            }
        }
    }
}

/// The committed entries change at the commit and nowhere else. Beginning an
/// entry and finishing it leave them as they were, so an entry whose
/// writing stops before its commit, at whatever step, is in no directory;
/// the commit appends the finished entry and touches no other.
pub proof fn lemma_entries_change_at_commit_only(
    state: WriterView,
    path: Seq<char>,
    content: Seq<u8>,
)
    ensures
        state.begin(path).entries == state.entries,
        state.begin(path).finish(content).entries == state.entries,
        state.begin(path).finish(content).commit().entries == state.entries.push(
            completed_entry(begun_entry(state.cursor, path), content),
        ),
        trailer_bytes(state.begin(path).entries, state.cursor as nat) == trailer_bytes(
            state.entries,
            state.cursor as nat,
        ),
        trailer_bytes(state.begin(path).finish(content).entries, state.cursor as nat)
            == trailer_bytes(state.entries, state.cursor as nat),
{
}

/// The final header of an entry, local or directory, holds the checksum of
/// the content that was streamed and, in both size fields, the content's
/// length: byte for byte the little-endian fields of these numbers, which
/// read back as the length itself whenever it is below 2^32.
pub proof fn lemma_final_header_records_content(
    begun: EntryView,
    content: Seq<u8>,
    header: FileHeader,
)
    requires
        content.len() <= u64::MAX,
    ensures
        ({
            let bytes = header_bytes(completed_entry(begun, content), header);
            let at = checksum_field_start(header);
            &&& bytes.subrange(at, at + 4) == le32(crc32_checksum(content) as nat)
            &&& bytes.subrange(at + 4, at + 8) == le32(content.len())
            &&& bytes.subrange(at + 8, at + 12) == le32(content.len())
            &&& le32_value(bytes.subrange(at, at + 4)) == crc32_checksum(content)
            &&& content.len() < 0x1_0000_0000 ==> {
                &&& le32_value(bytes.subrange(at + 4, at + 8)) == content.len()
                &&& le32_value(bytes.subrange(at + 8, at + 12)) == content.len()
            }
        }),
{
    let done = completed_entry(begun, content);
    assert(done.size == content.len());
    assert(done.crc32 == crc32_checksum(content));
    lemma_header_records_content(done, header);
}

/// Between entries, the offset that the summary record gives for the
/// directory is the position just after the last entry's content: the end of
/// all local headers and contents, reduced modulo 2^32.
pub proof fn lemma_directory_follows_content(state: WriterView)
    requires
        state.wf(),
        state.stage is Idle,
    ensures
        state.cursor == content_end(state.entries),
        ({
            let trailer = trailer_bytes(state.entries, state.cursor as nat);
            let at = central_directory(state.entries).len() as int;
            &&& trailer.len() == at + 22
            &&& trailer.subrange(0, at) == central_directory(state.entries)
            &&& le32_value(trailer.subrange(at + 16, at + 20)) == content_end(state.entries)
                % 0x1_0000_0000
            &&& le32_value(trailer.subrange(at + 12, at + 16)) == at % 0x1_0000_0000
            &&& le16_value(trailer.subrange(at + 8, at + 10)) == state.entries.len() % 0x1_0000
        }),
{
    let directory = central_directory(state.entries);
    let at = directory.len() as int;
    let record = end_record(state.entries.len(), directory.len(), state.cursor as nat);
    let trailer = trailer_bytes(state.entries, state.cursor as nat);
    lemma_end_record_fields(state.entries.len(), directory.len(), state.cursor as nat);
    assert(trailer.subrange(0, at) =~= directory);
    assert(trailer.subrange(at + 16, at + 20) =~= record.subrange(16, 20));
    assert(trailer.subrange(at + 12, at + 16) =~= record.subrange(12, 16));
    assert(trailer.subrange(at + 8, at + 10) =~= record.subrange(8, 10));
}

/// Writer of one archive.
pub struct ZipWriter {
    files: Vec<FileEntry>,
    cursor: u64,
    current: Option<FileEntry>,
    patching: bool,
}

/// What to do to the sink once an entry's content has been streamed: seek to
/// `offset`, write `header` there, then seek to `resume`.
pub struct HeaderPatch {
    pub offset: u64,
    pub header: Vec<u8>,
    pub resume: u64,
}

impl View for ZipWriter {
    type V = WriterView;

    closed spec fn view(&self) -> WriterView {
        WriterView {
            entries: self.files@.map_values(|file: FileEntry| file@),
            cursor: self.cursor,
            stage: match self.current {
                None => Stage::Idle,
                Some(file) => if self.patching {
                    Stage::Patching(file@)
                } else {
                    Stage::Streaming(file@)
                },
            },
        }
    }
}

impl ZipWriter {
    /// A writer at the start of an empty archive.
    pub fn new() -> (writer: Self)
        ensures
            writer@.wf(),
            writer@.entries == Seq::<EntryView>::empty(),
            writer@.cursor == 0,
            writer@.stage is Idle,
    {
        let writer = ZipWriter { files: Vec::new(), cursor: 0, current: None, patching: false };
        assert(writer@.entries =~= Seq::<EntryView>::empty());
        writer
    }

    /// The position in the sink at which the next byte goes.
    pub fn cursor(&self) -> (cursor: u64)
        ensures
            cursor == self@.cursor,
    {
        self.cursor
    }

    /// The number of committed entries.
    pub fn len(&self) -> (n: usize)
        ensures
            n == self@.entries.len(),
    {
        self.files.len()
    }

    /// Whether an entry has been begun and its content is not through.
    pub fn is_streaming(&self) -> (streaming: bool)
        ensures
            streaming == (self@.stage is Streaming),
    {
        self.current.is_some() && !self.patching
    }

    /// Whether an entry named `filename` can be begun: the writer is between
    /// entries and the cursor can move past the entry's header.
    pub fn can_begin(&self, filename: &str) -> (ok: bool)
        ensures
            ok == (self@.stage is Idle && self@.cursor + header_len(
                filename@,
                FileHeader::Local,
            ) <= u64::MAX),
    {
        let need: u128 = 39 + 2 * (filename.as_bytes().len() as u128);
        self.current.is_none() && self.cursor as u128 + need <= u64::MAX as u128
    }

    /// Whether the entry being streamed can be finished with `content`: there
    /// is such an entry and the cursor can move past the content.
    pub fn can_finish(&self, content: &Crc32Accumulator<'_>) -> (ok: bool)
        requires
            content.wf(),
        ensures
            ok == (self@.stage is Streaming && self@.cursor + content@.len() <= u64::MAX),
    {
        self.current.is_some() && !self.patching && content.count() <= u64::MAX - self.cursor
    }

    /// Whether there is a finished entry to commit.
    pub fn can_commit(&self) -> (ok: bool)
        ensures
            ok == (self@.stage is Patching),
    {
        self.current.is_some() && self.patching
    }

    /// Begins an entry at the cursor. Returns its local header with zero for
    /// size and checksum, to be written at the cursor; the cursor moves past
    /// it. The committed entries stay as they are.
    pub fn begin_file(&mut self, filename: &str) -> (header: Vec<u8>)
        requires
            old(self)@.wf(),
            old(self)@.stage is Idle,
            old(self)@.cursor + header_len(filename@, FileHeader::Local) <= u64::MAX,
        ensures
            final(self)@ == old(self)@.begin(filename@),
            final(self)@.wf(),
            final(self)@.entries == old(self)@.entries,
            header@ == header_bytes(
                begun_entry(old(self)@.cursor, filename@),
                FileHeader::Local,
            ),
            final(self)@.cursor == old(self)@.cursor + header@.len(),
    {
        let file = FileEntry::new(self.cursor, filename.to_owned(), 0, 0);
        let mut header: Vec<u8> = Vec::new();
        let n: usize = file.write_header(&mut header, FileHeader::Local);
        assert(header@ =~= header_bytes(file@, FileHeader::Local));
        self.cursor = self.cursor + n as u64;
        self.current = Some(file);
        self.patching = false;
        header
    }

    /// Finishes the entry being streamed, whose content was `content`: the
    /// entry takes the content's length and checksum, and the cursor moves
    /// past the content. Returns the final local header, which takes the
    /// place of the placeholder. The entry is not committed: the committed
    /// entries stay as they are until [`ZipWriter::commit_file`].
    pub fn finish_file(&mut self, content: Crc32Accumulator<'_>) -> (patch: HeaderPatch)
        requires
            old(self)@.wf(),
            old(self)@.stage is Streaming,
            content.wf(),
            old(self)@.cursor + content@.len() <= u64::MAX,
        ensures
            final(self)@ == old(self)@.finish(content@),
            final(self)@.wf(),
            final(self)@.entries == old(self)@.entries,
            final(self)@.cursor == old(self)@.cursor + content@.len(),
            patch.offset == old(self)@.current().offset,
            patch.header@ == header_bytes(
                completed_entry(old(self)@.current(), content@),
                FileHeader::Local,
            ),
            patch.resume == final(self)@.cursor,
            patch.offset + patch.header@.len() + content@.len() == patch.resume,
    {
        let ghost done = completed_entry(self@.current(), content@);
        let size: u64 = content.count();
        let crc32: u32 = content.sum32();
        let started = self.current.take();
        let file = started.unwrap().completed(size, crc32);
        assert(file@ == done);
        let mut header: Vec<u8> = Vec::new();
        let _: usize = file.write_header(&mut header, FileHeader::Local);
        assert(header@ =~= header_bytes(done, FileHeader::Local));
        self.cursor = self.cursor + size;
        let patch = HeaderPatch { offset: file.offset(), header, resume: self.cursor };
        self.current = Some(file);
        self.patching = true;
        patch
    }

    /// Commits the finished entry, once its final header stands in the sink
    /// and the sink is back at the cursor: the entry joins the committed
    /// entries as their last, and the writer is between entries again.
    pub fn commit_file(&mut self)
        requires
            old(self)@.wf(),
            old(self)@.stage is Patching,
        ensures
            final(self)@ == old(self)@.commit(),
            final(self)@.wf(),
            final(self)@.entries == old(self)@.entries.push(old(self)@.current()),
            final(self)@.cursor == old(self)@.cursor,
            final(self)@.stage is Idle,
    {
        let ghost before = self@;
        let finished = self.current.take();
        self.files.push(finished.unwrap());
        self.patching = false;
        proof {
            assert(self@.entries =~= before.entries.push(before.current()));
            lemma_steps_keep_wf(before, Seq::<char>::empty(), Seq::<u8>::empty());
        }
    }

    /// Closes the archive. Returns its trailer, to be written at the cursor:
    /// the directory header of every committed entry in order, then the
    /// summary record.
    pub fn close(self) -> (trailer: Vec<u8>)
        ensures
            trailer@ == trailer_bytes(self@.entries, self@.cursor as nat),
    {
        let mut out: Vec<u8> = Vec::new();
        let mut i: usize = 0;
        while i < self.files.len()
            invariant
                i <= self.files.len(),
                out@ == central_directory(self@.entries.take(i as int)),
            decreases self.files.len() - i,
        {
            let _: usize = self.files[i].write_header(&mut out, FileHeader::Central);
            proof {
                let upto = self@.entries.take(i + 1);
                assert(upto.drop_last() =~= self@.entries.take(i as int));
                assert(upto.last() == self.files[i as int]@);
            }
            i += 1;
        }
        assert(self@.entries.take(i as int) =~= self@.entries);
        let directory_len: usize = out.len();
        let count: usize = self.files.len();
        put_u8(&mut out, 0x50);
        put_u8(&mut out, 0x4b);
        put_u8(&mut out, 0x05);
        put_u8(&mut out, 0x06);
        put_le16(&mut out, 0);
        put_le16(&mut out, 1);
        put_le16(&mut out, count as u64);
        put_le16(&mut out, count as u64);
        put_le32(&mut out, directory_len as u64);
        put_le32(&mut out, self.cursor);
        put_le16(&mut out, 0);
        assert(out@ =~= trailer_bytes(self@.entries, self@.cursor as nat));
        out
    }
}

} // verus!

//! What a seekable sink holds when it carries out what the writer hands
//! out: a mathematical picture of the archive, with the laws that tie the
//! writer's steps to it.

use crate::checksum::crc32_checksum;
use crate::encoding::{le32, le32_value};
use crate::header::{header_bytes, header_len, lemma_header_len, EntryView, FileHeader};
use crate::writer::{
    begun_entry, completed_entry, content_end, lemma_final_header_records_content,
    lemma_steps_keep_wf, trailer_bytes, WriterView,
};
use vstd::prelude::*;

verus! {

/// A sink's bytes after `bytes` went in at position `at`: they replace what
/// was there and lengthen the sink where they reach past its end.
pub open spec fn written_at(sink: Seq<u8>, at: int, bytes: Seq<u8>) -> Seq<u8>
    recommends
        0 <= at <= sink.len(),
{
    if at + bytes.len() >= sink.len() {
        sink.take(at) + bytes
    } else {
        sink.take(at) + bytes + sink.skip(at + bytes.len())
    }
}

/// The entries as they lie in the archive before the directory: each one's
/// final local header directly followed by its content.
pub open spec fn stored_bytes(entries: Seq<EntryView>, contents: Seq<Seq<u8>>) -> Seq<u8>
    recommends
        entries.len() == contents.len(),
    decreases entries.len(),
{
    if entries.len() == 0 {
        Seq::<u8>::empty()
    } else {
        stored_bytes(entries.drop_last(), contents.drop_last()) + header_bytes(
            entries.last(),
            FileHeader::Local,
        ) + contents.last()
    }
}

/// A whole archive: the stored entries, the directory, the summary record.
pub open spec fn archive_bytes(entries: Seq<EntryView>, contents: Seq<Seq<u8>>) -> Seq<u8>
    recommends
        entries.len() == contents.len(),
{
    let stored = stored_bytes(entries, contents);
    stored + trailer_bytes(entries, stored.len())
}

/// Each entry records the length of its content.
pub open spec fn sizes_match(entries: Seq<EntryView>, contents: Seq<Seq<u8>>) -> bool {
    &&& entries.len() == contents.len()
    &&& forall|i: int| 0 <= i < entries.len() ==> (#[trigger] entries[i]).size == contents[i].len()
}

/// Entries that record the lengths of their contents take up, together with
/// those contents, exactly the bytes up to `content_end`.
pub proof fn lemma_stored_len(entries: Seq<EntryView>, contents: Seq<Seq<u8>>)
    requires
        sizes_match(entries, contents),
    ensures
        stored_bytes(entries, contents).len() == content_end(entries),
    decreases entries.len(),
{
    if entries.len() > 0 {
        let shorter = entries.drop_last();
        let fewer = contents.drop_last();
        assert forall|i: int| 0 <= i < shorter.len() implies (#[trigger] shorter[i]).size
            == fewer[i].len() by {
            assert(shorter[i] == entries[i]);
        }
        lemma_stored_len(shorter, fewer);
        lemma_header_len(entries.last(), FileHeader::Local);
        assert(entries.last().size == contents.last().len());
    }
}

/// The sink after one entry has gone through its steps on a sink that held
/// `sink`: the placeholder header went in at the cursor, the content after
/// it, and then the final header at the entry's offset.
pub open spec fn sink_after_entry(
    sink: Seq<u8>,
    idle: WriterView,
    path: Seq<char>,
    content: Seq<u8>,
) -> Seq<u8> {
    let begun = begun_entry(idle.cursor, path);
    let with_placeholder = written_at(
        sink,
        idle.cursor as int,
        header_bytes(begun, FileHeader::Local),
    );
    let with_content = written_at(with_placeholder, idle.begin(path).cursor as int, content);
    written_at(
        with_content,
        begun.offset as int,
        header_bytes(completed_entry(begun, content), FileHeader::Local),
    )
}

/// The two-pass write of one entry. A sink holds the entries stored so far
/// and nothing else. The placeholder header goes in at the cursor, the
/// content after it, and then the final header at the entry's offset. The
/// sink then holds the entries stored so far, the new entry's final header
/// and its content: the final header has replaced the placeholder and
/// touched nothing else, and the sink ends where the writer's cursor stands.
/// The entry is committed last, and the writer is between entries again.
pub proof fn lemma_two_pass_write(
    idle: WriterView,
    contents: Seq<Seq<u8>>,
    path: Seq<char>,
    content: Seq<u8>,
)
    requires
        idle.wf(),
        idle.stage is Idle,
        sizes_match(idle.entries, contents),
        idle.cursor + header_len(path, FileHeader::Local) + content.len() <= u64::MAX,
    ensures
        ({
            let sink = stored_bytes(idle.entries, contents);
            let streaming = idle.begin(path);
            let patching = streaming.finish(content);
            let committed = patching.commit();
            let patched = sink_after_entry(sink, idle, path, content);
            &&& streaming.wf() && patching.wf() && committed.wf()
            &&& committed.stage is Idle
            &&& patched == sink + header_bytes(
                completed_entry(begun_entry(idle.cursor, path), content),
                FileHeader::Local,
            ) + content
            &&& patched == stored_bytes(committed.entries, contents.push(content))
            &&& patched.len() == patching.cursor
            &&& patched.len() == committed.cursor
            &&& sizes_match(committed.entries, contents.push(content))
        }),
{
    let sink = stored_bytes(idle.entries, contents);
    let begun = begun_entry(idle.cursor, path);
    let streaming = idle.begin(path);
    let patching = streaming.finish(content);
    let committed = patching.commit();
    let done = completed_entry(begun, content);
    let placeholder = header_bytes(begun, FileHeader::Local);
    let header = header_bytes(done, FileHeader::Local);
    lemma_stored_len(idle.entries, contents);
    lemma_header_len(begun, FileHeader::Local);
    lemma_header_len(done, FileHeader::Local);
    lemma_steps_keep_wf(idle, path, content);
    lemma_steps_keep_wf(streaming, path, content);
    lemma_steps_keep_wf(patching, path, content);
    let with_placeholder = written_at(sink, idle.cursor as int, placeholder);
    assert(with_placeholder =~= sink + placeholder);
    let with_content = written_at(with_placeholder, streaming.cursor as int, content);
    assert(with_content =~= sink + placeholder + content);
    let patched = written_at(with_content, begun.offset as int, header);
    assert(patched =~= sink + header + content);
    let all = contents.push(content);
    assert(committed.entries.drop_last() =~= idle.entries);
    assert(all.drop_last() =~= contents);
    assert(committed.entries.last() == done);
    assert(all.last() == content);
}

/// After the two-pass write of an entry that began at offset `off`, the
/// sink holds no placeholder any more: the four bytes at `off + 14` are the
/// checksum of the content, and the four bytes at `off + 18` and at
/// `off + 22` are the content's length, all least significant byte first.
/// They read back as the length itself whenever it is below 2^32.
pub proof fn lemma_written_entry_records_content(
    idle: WriterView,
    contents: Seq<Seq<u8>>,
    path: Seq<char>,
    content: Seq<u8>,
)
    requires
        idle.wf(),
        idle.stage is Idle,
        sizes_match(idle.entries, contents),
        idle.cursor + header_len(path, FileHeader::Local) + content.len() <= u64::MAX,
    ensures
        ({
            let off = idle.cursor as int;
            let patched = sink_after_entry(
                stored_bytes(idle.entries, contents),
                idle,
                path,
                content,
            );
            &&& patched.len() == off + header_len(path, FileHeader::Local) + content.len()
            &&& patched.subrange(off + 14, off + 18) == le32(crc32_checksum(content) as nat)
            &&& patched.subrange(off + 18, off + 22) == le32(content.len())
            &&& patched.subrange(off + 22, off + 26) == le32(content.len())
            &&& content.len() < 0x1_0000_0000 ==> {
                &&& le32_value(patched.subrange(off + 18, off + 22)) == content.len()
                &&& le32_value(patched.subrange(off + 22, off + 26)) == content.len()
            }
            &&& patched.skip(off + header_len(path, FileHeader::Local)) == content
        }),
{
    let off = idle.cursor as int;
    let sink = stored_bytes(idle.entries, contents);
    let begun = begun_entry(idle.cursor, path);
    let header = header_bytes(completed_entry(begun, content), FileHeader::Local);
    lemma_two_pass_write(idle, contents, path, content);
    lemma_stored_len(idle.entries, contents);
    lemma_header_len(completed_entry(begun, content), FileHeader::Local);
    lemma_final_header_records_content(begun, content, FileHeader::Local);
    lemma_part_of_middle(sink, header, content, 14, 18);
    lemma_part_of_middle(sink, header, content, 18, 22);
    lemma_part_of_middle(sink, header, content, 22, 26);
    assert((sink + header + content).skip(off + header.len()) =~= content);
}

/// A part of the middle one of three joined sequences is found in the whole
/// at the same place, counted from where the middle one starts.
proof fn lemma_part_of_middle(
    before: Seq<u8>,
    middle: Seq<u8>,
    after: Seq<u8>,
    from: int,
    to: int,
)
    requires
        0 <= from <= to <= middle.len(),
    ensures
        (before + middle + after).subrange(before.len() + from, before.len() + to)
            == middle.subrange(from, to),
{
    assert((before + middle + after).subrange(before.len() + from, before.len() + to)
        =~= middle.subrange(from, to));
}

/// Closing after the last entry completes the archive: the trailer, written
/// at the cursor of a writer between entries, makes the sink a whole
/// archive, whose summary record points at the directory's first byte.
pub proof fn lemma_close_completes_archive(idle: WriterView, contents: Seq<Seq<u8>>)
    requires
        idle.wf(),
        idle.stage is Idle,
        sizes_match(idle.entries, contents),
    ensures
        written_at(
            stored_bytes(idle.entries, contents),
            idle.cursor as int,
            trailer_bytes(idle.entries, idle.cursor as nat),
        ) == archive_bytes(idle.entries, contents),
        stored_bytes(idle.entries, contents).len() == idle.cursor,
{
    lemma_stored_len(idle.entries, contents);
    let sink = stored_bytes(idle.entries, contents);
    assert(sink.take(idle.cursor as int) =~= sink);
}

} // verus!

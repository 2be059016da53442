//! Streaming writer for store-only, single-disk ZIP archives.
//!
//! The library decides every byte of an archive but the content of its
//! entries, and keeps the offset bookkeeping. The caller owns the seekable
//! sink and the content sources: it writes what [`writer::ZipWriter`] hands
//! out, streams each entry's content through a
//! [`checksum::Crc32Accumulator`], seeks where it is told to, and commits an
//! entry once its final header stands in the sink.
//!
//! - [`encoding`]: little-endian fields.
//! - [`checksum`]: CRC-32 of byte streams.
//! - [`path_field`]: the extra field that carries a path as UTF-8.
//! - [`header`]: entries and their local and directory headers.
//! - [`writer`]: the writer's state and steps, the directory and the
//!   summary record.
//! - [`image`]: what a sink holds after those steps.

pub mod checksum;
pub mod encoding;
pub mod header;
pub mod image;
pub mod path_field;
pub mod writer;

//! CRC-32 (ISO-HDLC) checksums, one-shot and incremental, computed by the
//! `crc` crate.

use vstd::prelude::*;

verus! {

/// The CRC-32 checksum (ISO-HDLC polynomial) of a byte sequence: what a
/// digest of the `crc` crate for `CRC_32_ISO_HDLC` returns from `finalize`
/// once it has been fed these bytes.
pub uninterp spec fn crc32_checksum(bytes: Seq<u8>) -> u32;

/// Whether an engine was built for the algorithm `crc::CRC_32_ISO_HDLC`.
pub uninterp spec fn engine_is_iso_hdlc(engine: Crc32) -> bool;

/// Whether a running digest was started by an engine for
/// `crc::CRC_32_ISO_HDLC`.
pub uninterp spec fn digest_is_iso_hdlc(digest: Crc32Digest<'_>) -> bool;

/// The bytes that a running digest has been fed since it was started, in the
/// order in which they came. This is the digest's history, not something it
/// holds: digests are never compared, and neither [`Crc32Digest`] nor
/// [`Crc32Accumulator`] may be given `==`.
pub uninterp spec fn digest_input(digest: Crc32Digest<'_>) -> Seq<u8>;

/// A CRC algorithm together with its lookup table: a `crc::Crc<u32>`. The
/// verifier sees nothing inside; [`Crc32::is_iso_hdlc`] says which algorithm
/// it was built for.
#[verifier::external_body]
pub struct Crc32 {
    engine: crc::Crc<u32>,
}

/// A running CRC computation, a `crc::Digest<u32>` that borrows the table of
/// the [`Crc32`] that started it. The verifier sees nothing inside.
#[verifier::external_body]
pub struct Crc32Digest<'a> {
    digest: crc::Digest<'a, u32>,
}

/// `crc::Crc::<u32>::new` on `crc::CRC_32_ISO_HDLC`, which builds the lookup
/// table of the algorithm it is given, keeps that algorithm, and cannot
/// fail.
#[verifier::external_body]
fn engine_new() -> (engine: Crc32)
    ensures
        engine_is_iso_hdlc(engine),
{
    Crc32 { engine: crc::Crc::<u32>::new(&crc::CRC_32_ISO_HDLC) }
}

/// `crc::Crc::digest`: a digest of the engine's own algorithm in its initial
/// state, which has been fed nothing.
#[verifier::external_body]
fn engine_digest<'a>(engine: &'a Crc32) -> (digest: Crc32Digest<'a>)
    ensures
        digest_is_iso_hdlc(digest) == engine_is_iso_hdlc(*engine),
        digest_input(digest) == Seq::<u8>::empty(),
{
    Crc32Digest { digest: engine.engine.digest() }
}

/// `crc::Digest::update`, which runs the given bytes through the digest one
/// after the other: they are appended to what the digest was fed, and the
/// digest stays with its engine. It accepts every slice.
#[verifier::external_body]
fn digest_update(digest: &mut Crc32Digest<'_>, bytes: &[u8])
    ensures
        digest_is_iso_hdlc(*final(digest)) == digest_is_iso_hdlc(*old(digest)),
        digest_input(*final(digest)) == digest_input(*old(digest)) + bytes@,
{
    digest.digest.update(bytes)
}

/// `crc::Digest::finalize`: the checksum, in the digest's algorithm, of
/// everything the digest was fed, which depends on those bytes alone. Of a
/// digest for another algorithm nothing is claimed.
#[verifier::external_body]
fn digest_finalize(digest: Crc32Digest<'_>) -> (sum: u32)
    ensures
        digest_is_iso_hdlc(digest) ==> sum == crc32_checksum(digest_input(digest)),
{
    digest.digest.finalize()
}

impl Crc32 {
    /// The engine computes CRC-32 with the ISO-HDLC polynomial.
    pub open spec fn is_iso_hdlc(&self) -> bool {
        engine_is_iso_hdlc(*self)
    }

    /// Builds the engine for CRC-32 with the ISO-HDLC polynomial: the
    /// algorithm and its lookup table.
    pub fn new() -> (engine: Self)
        ensures
            engine.is_iso_hdlc(),
    {
        engine_new()
    }

    /// The checksum of `bytes`.
    pub fn checksum(&self, bytes: &[u8]) -> (sum: u32)
        requires
            self.is_iso_hdlc(),
        ensures
            sum == crc32_checksum(bytes@),
    {
        let mut digest = engine_digest(self);
        digest_update(&mut digest, bytes);
        assert(digest_input(digest) =~= bytes@);
        digest_finalize(digest)
    }
}

/// Accumulates the checksum and the length of a byte stream that is handed
/// over chunk by chunk. Its view is the stream so far.
pub struct Crc32Accumulator<'a> {
    digest: Crc32Digest<'a>,
    count: u64,
}

impl<'a> View for Crc32Accumulator<'a> {
    type V = Seq<u8>;

    closed spec fn view(&self) -> Seq<u8> {
        digest_input(self.digest)
    }
}

impl<'a> Crc32Accumulator<'a> {
    /// The digest computes CRC-32 with the ISO-HDLC polynomial, and the
    /// running count agrees with the stream taken so far.
    pub closed spec fn wf(&self) -> bool {
        &&& digest_is_iso_hdlc(self.digest)
        &&& self.count == digest_input(self.digest).len()
    }

    /// Starts on the empty stream.
    pub fn new(engine: &'a Crc32) -> (acc: Self)
        requires
            engine.is_iso_hdlc(),
        ensures
            acc.wf(),
            acc@ == Seq::<u8>::empty(),
    {
        Crc32Accumulator { digest: engine_digest(engine), count: 0 }
    }

    /// Takes the next chunk of the stream.
    pub fn update(&mut self, chunk: &[u8])
        requires
            old(self).wf(),
            old(self)@.len() + chunk@.len() <= u64::MAX,
        ensures
            final(self).wf(),
            final(self)@ == old(self)@ + chunk@,
    {
        digest_update(&mut self.digest, chunk);
        self.count = self.count + chunk.len() as u64;
    }

    /// Takes the first `len` bytes of `buf`: what a read into `buf` that
    /// reported `len` bytes has delivered.
    pub fn record(&mut self, buf: &[u8], len: usize)
        requires
            old(self).wf(),
            len <= buf@.len(),
            old(self)@.len() + len <= u64::MAX,
        ensures
            final(self).wf(),
            final(self)@ == old(self)@ + buf@.take(len as int),
    {
        let delivered = vstd::slice::slice_subrange(buf, 0, len);
        assert(delivered@ =~= buf@.take(len as int));
        self.update(delivered);
    }

    /// The number of bytes taken so far.
    pub fn count(&self) -> (n: u64)
        requires
            self.wf(),
        ensures
            n == self@.len(),
    {
        self.count
    }

    /// The checksum of the whole stream.
    pub fn sum32(self) -> (sum: u32)
        requires
            self.wf(),
        ensures
            sum == crc32_checksum(self@),
    {
        digest_finalize(self.digest)
    }
}

} // verus!

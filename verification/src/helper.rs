//! The CRC-32 of RFC 1952 and the header CRC-16 taken from it.
use vstd::prelude::*;

verus! {

/// The reflected generator polynomial of CRC-32 (0x04C11DB7 with its bits reversed).
pub const CRC32_REFLECTED_POLY: u32 = 0xEDB88320;

/// One shift of the reflected CRC-32 register: the lowest bit leaves it, and the
/// polynomial is added where that bit was 1.
pub open spec fn crc32_shift(r: u32) -> u32 {
    if r & 1 == 1 {
        (r >> 1u32) ^ CRC32_REFLECTED_POLY
    } else {
        r >> 1u32
    }
}

/// The register after one byte: the byte is added to its low bits, then it shifts 8 times.
pub open spec fn crc32_byte(r: u32, b: u8) -> u32 {
    let x = r ^ (b as u32);
    crc32_shift(crc32_shift(crc32_shift(crc32_shift(crc32_shift(crc32_shift(crc32_shift(crc32_shift(x))))))))
}

/// The register after the bytes of `data`, one after the other, from the register `r`.
pub open spec fn crc32_feed(r: u32, data: Seq<u8>) -> u32
    decreases data.len(),
{
    if data.len() == 0 {
        r
    } else {
        crc32_byte(crc32_feed(r, data.drop_last()), data.last())
    }
}

/// The CRC-32 of `data` with the parameters of CRC-32/ISO-HDLC, the one of gzip and zlib:
/// width 32, reflected polynomial 0xEDB88320, register starting at 0xFFFFFFFF, result
/// XORed with 0xFFFFFFFF.
#[verifier::opaque]
pub open spec fn gzip_crc32(data: Seq<u8>) -> u32 {
    crc32_feed(0xFFFF_FFFF, data) ^ 0xFFFF_FFFF
}

/// The CRC register can be fed in pieces: feeding `a` then `b` is feeding `a + b`. This is
/// why a running digest, fed field by field, ends at the CRC of the whole header.
pub proof fn lemma_crc32_feed_pieces(r: u32, a: Seq<u8>, b: Seq<u8>)
    ensures
        crc32_feed(r, a + b) == crc32_feed(crc32_feed(r, a), b),
    decreases b.len(),
{
    if b.len() == 0 {
        assert(a + b =~= a);
    } else {
        assert((a + b).drop_last() =~= a + b.drop_last());
        assert((a + b).last() == b.last());
        lemma_crc32_feed_pieces(r, a, b.drop_last());
    }
}

/// The header CRC-16 of RFC 1952: the two least significant bytes of the CRC-32.
pub open spec fn low16(crc: u32) -> u16 {
    (crc % 0x10000) as u16
}

/// Calls `crc::Crc::<u32>::checksum` with the algorithm `crc::CRC_32_ISO_HDLC`; the
/// contract claims that the result is the CRC-32 that the parameters of that algorithm in
/// the `crc-catalog` crate define (see `gzip_crc32`).
#[verifier::external_body]
fn crc32_iso_hdlc(data: &[u8]) -> (c: u32)
    ensures
        c == gzip_crc32(data@),
{
    crc::Crc::<u32>::new(&crc::CRC_32_ISO_HDLC).checksum(data)
}

/// Compute standard CRC-32
pub fn crc32(data: &[u8]) -> (c: u32)
    ensures
        c == gzip_crc32(data@),
{
    crc32_iso_hdlc(data)
}

/// Compute Header CRC-16 (least-significant 16 bits of CRC-32)
pub fn header_crc16(header_bytes: &[u8]) -> (c: u16)
    ensures
        c == low16(gzip_crc32(header_bytes@)),
{
    let full = crc32_iso_hdlc(header_bytes);
    let low = full & 0xFFFF;
    assert(low == full % 0x10000) by (bit_vector)
        requires
            low == full & 0xFFFFu32,
    ;
    low as u16
}

/// The running CRC of the header bytes read so far. Its view is the sequence of bytes
/// fed to it; `finalize` gives their CRC-32.
#[derive(Clone)]
pub struct HeaderDigest {
    covered: Vec<u8>,
}

impl View for HeaderDigest {
    type V = Seq<u8>;

    closed spec fn view(&self) -> Seq<u8> {
        self.covered@
    }
}

impl HeaderDigest {
    /// A digest over no bytes.
    pub fn new() -> (d: HeaderDigest)
        ensures
            d@ == Seq::<u8>::empty(),
    {
        HeaderDigest { covered: Vec::new() }
    }

    /// Feeds `bytes` after those fed before.
    pub fn update(&mut self, bytes: &[u8])
        ensures
            final(self)@ == old(self)@ + bytes@,
    {
        let ghost before = self.covered@;
        self.covered.extend_from_slice(bytes);
        proof {
            assert forall|i: int| 0 <= i < self.covered@.len() implies #[trigger] self.covered@[i]
                == (before + bytes@)[i] by {
                if i >= before.len() {
                    assert(cloned::<u8>(bytes@[i - before.len()], self.covered@[i]));
                }
            }
            assert(self.covered@ =~= before + bytes@);
        }
    }

    /// The CRC-32 of all bytes fed so far.
    pub fn finalize(&self) -> (c: u32)
        ensures
            c == gzip_crc32(self@),
    {
        crc32_iso_hdlc(self.covered.as_slice())
    }
}

} // verus!

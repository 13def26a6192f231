//! CRC-32/ISO-HDLC (the CRC32 of zlib and Ethernet), computed by the `crc` crate.
//!
//! Every test of the bench compares two CRC32 values: one computed where the MIDI bytes are
//! produced, one where they arrive. The checksum is stated here as the catalogue defines the
//! algorithm: width 32, reflected polynomial 0xEDB88320, initial register 0xFFFFFFFF, output
//! reflected and XORed with 0xFFFFFFFF.
use vstd::prelude::*;

verus! {

/// One bit step of the reflected CRC-32 register.
pub open spec fn crc32_bit(reg: u32) -> u32 {
    if reg & 1u32 == 1u32 {
        (reg >> 1u32) ^ 0xEDB8_8320u32
    } else {
        reg >> 1u32
    }
}

/// Feeds one byte, least significant bit first, into the register.
pub open spec fn crc32_byte(reg: u32, byte: u8) -> u32 {
    crc32_bit(crc32_bit(crc32_bit(crc32_bit(crc32_bit(crc32_bit(crc32_bit(crc32_bit(
        reg ^ (byte as u32),
    ))))))))
}

/// The register after feeding `bytes` in order, starting from `reg`.
pub open spec fn crc32_register(reg: u32, bytes: Seq<u8>) -> u32
    decreases bytes.len(),
{
    if bytes.len() == 0 {
        reg
    } else {
        crc32_register(crc32_byte(reg, bytes[0]), bytes.drop_first())
    }
}

/// CRC-32/ISO-HDLC of `bytes`.
pub open spec fn crc32(bytes: Seq<u8>) -> u32 {
    crc32_register(0xFFFF_FFFFu32, bytes) ^ 0xFFFF_FFFFu32
}

/// A running CRC-32/ISO-HDLC over a stream of bytes, fed in pieces: a `crc::Digest`, which
/// Verus cannot declare (its type parameters carry bounds of the `crc` crate).
#[verifier::external_body]
pub struct Crc32Digest {
    digest: crc::Digest<'static, u32>,
}

/// The bytes that a digest has been fed since it was created, in order.
pub uninterp spec fn digest_input(digest: Crc32Digest) -> Seq<u8>;

/// `crc::Crc::<u32>::new(&CRC_32_ISO_HDLC).digest()`: a digest that has been fed nothing yet.
/// The digest borrows its `Crc` (with its 1 KiB lookup table) for good: the `Crc` is moved to
/// the heap and never freed, one per digest.
#[verifier::external_body]
fn iso_hdlc_digest() -> (digest: Crc32Digest)
    ensures
        digest_input(digest) == Seq::<u8>::empty(),
{
    Crc32Digest {
        digest: Box::leak(Box::new(crc::Crc::<u32>::new(&crc::CRC_32_ISO_HDLC))).digest(),
    }
}

/// `crc::Digest::update`: feeds `bytes` after what the digest already holds.
#[verifier::external_body]
fn digest_update(digest: &mut Crc32Digest, bytes: &[u8])
    ensures
        digest_input(*final(digest)) == digest_input(*old(digest)) + bytes@,
{
    digest.digest.update(bytes)
}

/// `crc::Digest::finalize` of a CRC-32/ISO-HDLC digest: the CRC32 of all bytes fed.
#[verifier::external_body]
fn digest_finalize(digest: Crc32Digest) -> (crc: u32)
    ensures
        crc == crc32(digest_input(digest)),
{
    digest.digest.finalize()
}

impl View for Crc32Digest {
    type V = Seq<u8>;

    /// All bytes fed so far, in order.
    open spec fn view(&self) -> Seq<u8> {
        digest_input(*self)
    }
}

impl Crc32Digest {
    /// A digest that has been fed nothing.
    pub fn new() -> (d: Self)
        ensures
            d@ == Seq::<u8>::empty(),
    {
        iso_hdlc_digest()
    }

    /// Feeds `bytes` after the bytes already fed.
    pub fn update(&mut self, bytes: &[u8])
        ensures
            final(self)@ == old(self)@ + bytes@,
    {
        digest_update(self, bytes);
    }

    /// The CRC32 of every byte fed so far.
    pub fn finalize(self) -> (crc: u32)
        ensures
            crc == crc32(self@),
    {
        digest_finalize(self)
    }
}

/// CRC32 of `bytes` in one call.
pub fn checksum(bytes: &[u8]) -> (crc: u32)
    ensures
        crc == crc32(bytes@),
{
    let mut d = Crc32Digest::new();
    d.update(bytes);
    assert(Seq::<u8>::empty() + bytes@ =~= bytes@);
    d.finalize()
}

/// Feeding a stream in two parts leaves the register where feeding it whole does.
pub proof fn lemma_register_append(reg: u32, a: Seq<u8>, b: Seq<u8>)
    ensures
        crc32_register(reg, a + b) == crc32_register(crc32_register(reg, a), b),
    decreases a.len(),
{
    if a.len() == 0 {
        assert(a + b =~= b);
    } else {
        assert((a + b).drop_first() =~= a.drop_first() + b);
        lemma_register_append(crc32_byte(reg, a[0]), a.drop_first(), b);
    }
}

} // verus!

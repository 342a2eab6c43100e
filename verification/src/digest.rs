//! Content digests.

use vstd::prelude::*;

verus! {

/// The lower-case hexadecimal BLAKE3-256 digest of `data`.
pub uninterp spec fn blake3_hex(data: Seq<u8>) -> Seq<char>;

/// Hashes bytes with BLAKE3.
///
/// Wraps `blake3::hash(..).to_hex()`: the result is the digest named by
/// `blake3_hex` for the same bytes, and it has 64 characters.
#[verifier::external_body]
pub fn blake3_hex_of(data: &[u8]) -> (hex: String)
    ensures
        hex@ == blake3_hex(data@),
        hex@.len() == 64,
{
    blake3::hash(data).to_hex().to_string()
}

/// An incremental BLAKE3 hasher.
#[verifier::external_type_specification]
#[verifier::external_body]
pub struct ExHasher(blake3::Hasher);

/// The bytes a hasher has absorbed, in order.
pub uninterp spec fn absorbed(h: blake3::Hasher) -> Seq<u8>;

/// Wraps `blake3::Hasher::new`: a hasher that has absorbed nothing.
#[verifier::external_body]
fn hasher_new() -> (h: blake3::Hasher)
    ensures
        absorbed(h) == Seq::<u8>::empty(),
{
    blake3::Hasher::new()
}

/// Wraps `blake3::Hasher::update`: the hasher has absorbed `data` after
/// what it had absorbed.
#[verifier::external_body]
fn hasher_update(h: &mut blake3::Hasher, data: &[u8])
    ensures
        absorbed(*final(h)) == absorbed(*old(h)) + data@,
{
    h.update(data);
}

/// Wraps `blake3::Hasher::finalize` and `Hash::to_hex`: the digest of what
/// was absorbed, as `blake3::hash` gives it for the same bytes.
#[verifier::external_body]
fn hasher_hex(h: &blake3::Hasher) -> (hex: String)
    ensures
        hex@ == blake3_hex(absorbed(*h)),
        hex@.len() == 64,
{
    h.finalize().to_hex().to_string()
}

/// The BLAKE3 digest of content read in chunks.
pub struct ContentHasher {
    hasher: blake3::Hasher,
}

impl ContentHasher {
    /// The bytes absorbed so far, in order.
    pub closed spec fn content(&self) -> Seq<u8> {
        absorbed(self.hasher)
    }

    /// A hasher that has absorbed nothing.
    pub fn new() -> (h: ContentHasher)
        ensures
            h.content() == Seq::<u8>::empty(),
    {
        ContentHasher { hasher: hasher_new() }
    }

    /// Absorbs the next chunk of content.
    pub fn absorb(&mut self, chunk: &[u8])
        ensures
            final(self).content() == old(self).content() + chunk@,
    {
        hasher_update(&mut self.hasher, chunk);
    }

    /// The lower-case hexadecimal digest of everything absorbed.
    pub fn hex(&self) -> (hex: String)
        ensures
            hex@ == blake3_hex(self.content()),
            hex@.len() == 64,
    {
        hasher_hex(&self.hasher)
    }
}

} // verus!

//! Streaming SHA-256 digest of a byte stream, returned as a lowercase hex
//! string. The hash itself is the sha2 crate's; the chunking loop, the hex
//! length, and the relation between what was fed and what comes out are
//! verified here.

use vstd::prelude::*;

verus! {

/// The SHA-256 digest (32 bytes) of a byte sequence, as the sha2 crate
/// computes it. The algorithm is not written out here: its result depends on
/// the input bytes alone, so it only gets a name.
pub uninterp spec fn sha256_of(bytes: Seq<u8>) -> Seq<u8>;

/// The bytes a `Sha256Hasher` has absorbed so far.
pub uninterp spec fn absorbed_of(h: Sha256Hasher) -> Seq<u8>;

/// Streaming SHA-256 state. It holds the sha2 crate's hasher, into which
/// Verus cannot look, so the whole struct is opaque; `absorbed_of` names the
/// bytes fed to it so far.
#[verifier::external_body]
pub struct Sha256Hasher {
    inner: sha2::Sha256,
}

/// Relies on `sha2::Sha256` via `digest::Digest::new`: a fresh hasher has
/// absorbed nothing.
#[verifier::external_body]
fn sha_new() -> (h: Sha256Hasher)
    ensures
        absorbed_of(h) == Seq::<u8>::empty(),
{
    Sha256Hasher { inner: <sha2::Sha256 as sha2::Digest>::new() }
}

/// Relies on `digest::Digest::update`: feeding a chunk appends it to the
/// absorbed bytes.
#[verifier::external_body]
fn sha_update(h: &mut Sha256Hasher, chunk: &[u8])
    ensures
        absorbed_of(*final(h)) == absorbed_of(*old(h)) + chunk@,
{
    <sha2::Sha256 as sha2::Digest>::update(&mut h.inner, chunk);
}

/// Relies on `digest::Digest::finalize`: the result is the 32-byte SHA-256
/// digest of exactly the absorbed bytes.
#[verifier::external_body]
fn sha_finalize(h: Sha256Hasher) -> (r: Vec<u8>)
    ensures
        r@ == sha256_of(absorbed_of(h)),
        r@.len() == 32,
{
    <sha2::Sha256 as sha2::Digest>::finalize(h.inner).as_slice().to_vec()
}

/// One lowercase hexadecimal digit for a value below 16.
pub open spec fn hex_digit(n: u8) -> char
    recommends
        n < 16,
{
    if n < 10 {
        ((n + 48) as u8) as char
    } else {
        ((n + 87) as u8) as char
    }
}

/// The lowercase hexadecimal encoding of a byte sequence: two digits per
/// byte, high nibble first.
pub open spec fn hex_of(bytes: Seq<u8>) -> Seq<char>
    decreases bytes.len(),
{
    if bytes.len() == 0 {
        Seq::<char>::empty()
    } else {
        seq![hex_digit(bytes.first() / 16), hex_digit(bytes.first() % 16)] + hex_of(
            bytes.drop_first(),
        )
    }
}

/// A hex encoding is twice as long as its input.
pub proof fn lemma_hex_of_len(bytes: Seq<u8>)
    ensures
        hex_of(bytes).len() == 2 * bytes.len(),
    decreases bytes.len(),
{
    if bytes.len() > 0 {
        lemma_hex_of_len(bytes.drop_first());
    }
}

/// Relies on `hex::encode`: each byte becomes two lowercase hex digits from
/// its `HEX_CHARS_LOWER` table (`0..9a..f`), high nibble first.
#[verifier::external_body]
fn hex_encode(bytes: &Vec<u8>) -> (r: String)
    ensures
        r@ == hex_of(bytes@),
{
    hex::encode(bytes)
}

/// The chunk size of the streaming read loop. A tunable performance
/// parameter, not a correctness constraint.
pub const CHUNK_SIZE: usize = 1024;

/// A streaming digest: absorb a byte stream chunk by chunk, then close it
/// into a lowercase hex string. The caller reads the source and hands the
/// chunks in; the stream only records their bytes.
pub struct DigestStream {
    hasher: Sha256Hasher,
}

impl DigestStream {
    /// The bytes absorbed so far.
    pub closed spec fn absorbed(self) -> Seq<u8> {
        absorbed_of(self.hasher)
    }

    /// A fresh stream has absorbed nothing.
    pub fn new() -> (r: Self)
        ensures
            r.absorbed() == Seq::<u8>::empty(),
    {
        DigestStream { hasher: sha_new() }
    }

    /// Absorb one chunk: it is appended to the absorbed bytes.
    pub fn update(&mut self, chunk: &[u8])
        ensures
            final(self).absorbed() == old(self).absorbed() + chunk@,
    {
        sha_update(&mut self.hasher, chunk);
    }

    /// Close the stream: the result is the lowercase hex encoding of the
    /// SHA-256 digest of everything absorbed, and is 64 characters long.
    pub fn finalize_hex(self) -> (r: String)
        ensures
            r@ == hex_of(sha256_of(self.absorbed())),
            r@.len() == 64,
    {
        let ghost absorbed = self.absorbed();
        let raw = sha_finalize(self.hasher);
        let r = hex_encode(&raw);
        proof {
            lemma_hex_of_len(sha256_of(absorbed));
        }
        r
    }
}

/// The digest of an in-memory byte source, fed to the hasher in
/// `CHUNK_SIZE` pieces exactly as a streaming read would hand them over.
pub fn digest_bytes(data: &[u8]) -> (r: String)
    ensures
        r@ == hex_of(sha256_of(data@)),
        r@.len() == 64,
{
    let mut stream = DigestStream::new();
    let len = data.len();
    let mut i: usize = 0;
    while i < len
        invariant
            i <= len,
            len == data@.len(),
            stream.absorbed() == data@.subrange(0, i as int),
        decreases len - i,
    {
        let end = if len - i < CHUNK_SIZE {
            len
        } else {
            i + CHUNK_SIZE
        };
        let chunk = vstd::slice::slice_subrange(data, i, end);
        stream.update(chunk);
        proof {
            assert(data@.subrange(0, end as int) == data@.subrange(0, i as int) + data@.subrange(
                i as int,
                end as int,
            ));
        }
        i = end;
    }
    proof {
        assert(data@.subrange(0, len as int) == data@);
    }
    stream.finalize_hex()
}

/// Digesting is deterministic: the digest is a function of the bytes alone,
/// so equal byte sequences yield equal hex strings.
pub proof fn lemma_digest_deterministic(a: Seq<u8>, b: Seq<u8>)
    requires
        a == b,
    ensures
        hex_of(sha256_of(a)) == hex_of(sha256_of(b)),
{
}

} // verus!

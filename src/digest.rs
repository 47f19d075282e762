//! Content digests: the SHA-256 of a payload in lowercase hex, with its length.
use vstd::prelude::*;

verus! {

/// Largest payload, in bytes, whose SHA-256 can be computed: the message
/// length in bits has to fit in 64 bits.
pub const MAX_PAYLOAD_LEN: u64 = 0x1fff_ffff_ffff_ffff;

/// The 32 bytes of the SHA-256 of a payload.
pub uninterp spec fn sha256_of(data: Seq<u8>) -> Seq<u8>;

/// The lowercase hexadecimal digit of `n`, for `0 <= n < 16`.
pub open spec fn hex_digit(n: int) -> char {
    seq!['0', '1', '2', '3', '4', '5', '6', '7', '8', '9', 'a', 'b', 'c', 'd', 'e', 'f'][n]
}

/// Two lowercase hexadecimal digits per byte, high nibble first.
pub open spec fn hex_of(b: Seq<u8>) -> Seq<char>
    decreases b.len(),
{
    if b.len() == 0 {
        Seq::empty()
    } else {
        hex_of(b.drop_last()) + seq![hex_digit(b.last() as int / 16), hex_digit(b.last() as int % 16)]
    }
}

/// The digest of a payload, as (hash text, size in bytes).
pub open spec fn digest_of(data: Seq<u8>) -> (Seq<char>, i64) {
    (hex_of(sha256_of(data)), data.len() as i64)
}

/// Relies on ring::digest::digest with ring::digest::SHA256: the 32 bytes of the
/// hash, which depend on the payload alone. ring panics on a payload whose
/// length in bits does not fit in 64 bits.
#[verifier::external_body]
fn sha256(data: &[u8]) -> (r: Vec<u8>)
    requires
        data@.len() <= MAX_PAYLOAD_LEN,
    ensures
        r@ == sha256_of(data@),
        r@.len() == 32,
{
    ring::digest::digest(&ring::digest::SHA256, data).as_ref().to_vec()
}

/// Relies on hex::encode: each byte becomes two lowercase hex digits, high
/// nibble first.
#[verifier::external_body]
fn to_hex(b: &[u8]) -> (r: String)
    ensures
        r@ == hex_of(b@),
{
    hex::encode(b)
}

/// A content identifier: the hash of a payload and its size in bytes.
#[derive(Debug, Clone)]
pub struct Digest {
    pub hash: String,
    pub size_bytes: i64,
}

impl View for Digest {
    type V = (Seq<char>, i64);

    open spec fn view(&self) -> (Seq<char>, i64) {
        (self.hash@, self.size_bytes)
    }
}

impl Digest {
    /// A copy of this digest.
    pub fn duplicate(&self) -> (r: Digest)
        ensures
            r@ == self@,
    {
        Digest { hash: self.hash.clone(), size_bytes: self.size_bytes }
    }

    /// Whether two digests name the same hash and size.
    pub fn same_as(&self, other: &Digest) -> (r: bool)
        ensures
            r == (self@ == other@),
    {
        self.size_bytes == other.size_bytes && self.hash == other.hash
    }
}

impl PartialEq for Digest {
    fn eq(&self, other: &Digest) -> (r: bool) {
        self.same_as(other)
    }
}

impl vstd::std_specs::cmp::PartialEqSpecImpl for Digest {
    open spec fn obeys_eq_spec() -> bool {
        true
    }

    open spec fn eq_spec(&self, other: &Digest) -> bool {
        self@ == other@
    }
}

/// Computes the digest of a payload.
pub fn digest(data: &[u8]) -> (r: Digest)
    requires
        data@.len() <= MAX_PAYLOAD_LEN,
    ensures
        r@ == digest_of(data@),
{
    let hash = sha256(data);
    Digest { hash: to_hex(hash.as_slice()), size_bytes: data.len() as i64 }
}

/// Digesting is a function of the bytes: equal payloads get equal digests, and
/// payloads of different lengths get different digests.
pub proof fn lemma_digest_deterministic(a: Seq<u8>, b: Seq<u8>)
    requires
        a.len() <= MAX_PAYLOAD_LEN,
        b.len() <= MAX_PAYLOAD_LEN,
    ensures
        a == b ==> digest_of(a) == digest_of(b),
        a.len() != b.len() ==> digest_of(a) != digest_of(b),
{
}

/// A payload together with its digest.
pub struct Blob {
    pub inner: Vec<u8>,
    pub digest: Digest,
}

impl Blob {
    /// Whether the digest is the one of the payload.
    pub open spec fn wf(&self) -> bool {
        self.digest@ == digest_of(self.inner@)
    }

    /// Copies the payload and digests it.
    pub fn new(data: &[u8]) -> (r: Blob)
        requires
            data@.len() <= MAX_PAYLOAD_LEN,
        ensures
            r.inner@ == data@,
            r.wf(),
    {
        let d = digest(data);
        Blob { inner: vstd::slice::slice_to_vec(data), digest: d }
    }

    /// Takes the payload and digests it.
    pub fn from_bytes(data: Vec<u8>) -> (r: Blob)
        requires
            data@.len() <= MAX_PAYLOAD_LEN,
        ensures
            r.inner@ == data@,
            r.wf(),
    {
        let d = digest(data.as_slice());
        Blob { inner: data, digest: d }
    }
}

} // verus!

//! SHA-256 digests, computed by the `sha2` crate.
use vstd::prelude::*;

use sha2::Digest;

use crate::numbers::{hex, hex_chars};

verus! {

/// The SHA-256 digest of a byte sequence.
pub uninterp spec fn spec_sha256(data: Seq<u8>) -> Seq<u8>;

/// Trusted: `sha2::Sha256::digest` returns the 32-byte SHA-256 digest of its input,
/// a function of the input alone.
#[verifier::external_body]
fn sha256(data: &[u8]) -> (r: Vec<u8>)
    ensures
        r@ == spec_sha256(data@),
        r@.len() == 32,
{
    sha2::Sha256::digest(data).to_vec()
}

/// The SHA-256 digest of `data` in hexadecimal.
pub open spec fn spec_sha256_hex(data: Seq<u8>, upper_case: bool) -> Seq<char> {
    hex_chars(spec_sha256(data), upper_case)
}

/// The SHA-256 digest of `data` in hexadecimal (`{:02x}` or `{:02X}` of each byte).
pub fn sha256_hex(data: &[u8], upper_case: bool) -> (r: Vec<char>)
    ensures
        r@ == spec_sha256_hex(data@, upper_case),
        r@.len() == 64,
{
    let digest = sha256(data);
    hex(&digest, upper_case)
}

/// The UTF-8 bytes of a name.
pub open spec fn name_bytes(name: Seq<char>) -> Seq<u8> {
    vstd::utf8::encode_utf8(name)
}

/// The UTF-8 bytes of a string.
pub fn utf8_bytes(s: &String) -> (r: Vec<u8>)
    ensures
        r@ == name_bytes(s@),
{
    let b = s.as_str().as_bytes();
    vstd::slice::slice_to_vec(b)
}

/// The SHA-256 digest of a name's UTF-8 bytes, in hexadecimal.
pub fn sha256_name(name: &String, upper_case: bool) -> (r: Vec<char>)
    ensures
        r@ == spec_sha256_hex(name_bytes(name@), upper_case),
        r@.len() == 64,
{
    let bytes = utf8_bytes(name);
    sha256_hex(&bytes, upper_case)
}

/// The first `n` bytes of the SHA-256 digest of a text's UTF-8 bytes, in upper-case
/// hexadecimal (`{:02X}` of each byte).
pub fn sha256_prefix_upper(text: &str, n: usize) -> (r: Vec<char>)
    requires
        n <= 32,
    ensures
        r@ == hex_chars(spec_sha256(name_bytes(text@)).take(n as int), true),
        r@.len() == 2 * n,
{
    let digest = sha256(text.as_bytes());
    let mut head: Vec<u8> = Vec::new();
    for i in 0..n
        invariant
            n <= 32,
            digest@.len() == 32,
            head@ == digest@.take(i as int),
    {
        head.push(digest[i]);
        assert(head@ =~= digest@.take(i + 1));
    }
    hex(&head, true)
}


/// A SHA-256 computation over bytes that arrive in pieces (a file read block by block).
///
/// It holds the `sha2` hasher in a private field that Verus does not see: the hasher's
/// type is a chain of generic `digest` and `typenum` types that Verus cannot be told of
/// one by one. What the computation has been fed is named by `stream_bytes`.
#[verifier::external_body]
pub struct Sha256Stream {
    hasher: sha2::Sha256,
}

/// The bytes fed to a SHA-256 computation so far, in order.
pub uninterp spec fn stream_bytes(s: Sha256Stream) -> Seq<u8>;

/// Trusted: `sha2::Sha256::new` starts a computation that has been fed nothing.
#[verifier::external_body]
fn stream_new() -> (r: Sha256Stream)
    ensures
        stream_bytes(r) == Seq::<u8>::empty(),
{
    Sha256Stream { hasher: sha2::Sha256::new() }
}

/// Trusted: `Digest::update` feeds `chunk` after the bytes fed before.
#[verifier::external_body]
fn stream_update(s: &mut Sha256Stream, chunk: &[u8])
    ensures
        stream_bytes(*final(s)) == stream_bytes(*old(s)) + chunk@,
{
    s.hasher.update(chunk)
}

/// Trusted: `Digest::finalize` returns the 32-byte SHA-256 digest of every byte fed, the
/// same digest that `sha2::Sha256::digest` gives of those bytes at once.
#[verifier::external_body]
fn stream_finish(s: Sha256Stream) -> (r: Vec<u8>)
    ensures
        r@ == spec_sha256(stream_bytes(s)),
        r@.len() == 32,
{
    s.hasher.finalize().to_vec()
}

impl Sha256Stream {
    /// A computation that has been fed nothing.
    pub fn new() -> (r: Sha256Stream)
        ensures
            stream_bytes(r) == Seq::<u8>::empty(),
    {
        stream_new()
    }

    /// Feeds the next piece of the bytes.
    pub fn feed(&mut self, chunk: &[u8])
        ensures
            stream_bytes(*final(self)) == stream_bytes(*old(self)) + chunk@,
    {
        stream_update(self, chunk)
    }

    /// The SHA-256 digest of every byte fed.
    pub fn finish(self) -> (r: Vec<u8>)
        ensures
            r@ == spec_sha256(stream_bytes(self)),
            r@.len() == 32,
    {
        stream_finish(self)
    }

    /// The SHA-256 digest of every byte fed, in lower-case hexadecimal, as digests are
    /// recorded in completion markers.
    pub fn finish_hex(self) -> (r: String)
        ensures
            r@ == spec_sha256_hex(stream_bytes(self), false),
            r@.len() == 64,
    {
        let digest = stream_finish(self);
        crate::text::string_of(&hex(&digest, false))
    }
}
} // verus!

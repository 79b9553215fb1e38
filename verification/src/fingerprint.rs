//! Content fingerprints: the SHA-256 of a file's bytes, written in lowercase
//! hexadecimal.
//!
//! The bytes are taken in chunks, so that a file need not be held in memory
//! at once. The hashing is left to `sha2`; the hexadecimal text is made here.

use crate::text::push_char;
use sha2::Digest;
use vstd::prelude::*;

verus! {

/// A running SHA-256 computation.
///
/// Trusted: holds a `sha2::Sha256`, whose type Verus cannot take in a
/// declaration of its own, and shows nothing of it.
#[verifier::external_body]
pub struct Sha256State {
    inner: sha2::Sha256,
}

/// The bytes that a computation has taken in so far, in the order in which
/// they came.
pub uninterp spec fn absorbed(state: Sha256State) -> Seq<u8>;

/// The SHA-256 digest of `data`.
pub uninterp spec fn sha256(data: Seq<u8>) -> Seq<u8>;

/// A computation that has taken in nothing.
///
/// Trusted: `sha2::Digest::new` for `sha2::Sha256`.
#[verifier::external_body]
fn sha256_new() -> (state: Sha256State)
    ensures
        absorbed(state) == Seq::<u8>::empty(),
{
    Sha256State { inner: sha2::Sha256::new() }
}

/// Feeds `chunk` to the computation.
///
/// Trusted: `sha2::Digest::update` for `sha2::Sha256`, which processes the
/// data after what was processed before.
#[verifier::external_body]
fn sha256_update(state: &mut Sha256State, chunk: &[u8])
    ensures
        absorbed(*final(state)) == absorbed(*old(state)) + chunk@,
{
    state.inner.update(chunk)
}

/// The digest of everything that the computation has taken in.
///
/// Trusted: `sha2::Digest::finalize` for `sha2::Sha256`, whose output has 32
/// bytes. The digest is named, not described.
#[verifier::external_body]
fn sha256_finalize(state: Sha256State) -> (digest: Vec<u8>)
    ensures
        digest@ == sha256(absorbed(state)),
        digest@.len() == 32,
{
    state.inner.finalize().to_vec()
}

/// The sixteen digits of lowercase hexadecimal.
pub open spec fn hex_digits() -> Seq<char> {
    seq!['0', '1', '2', '3', '4', '5', '6', '7', '8', '9', 'a', 'b', 'c', 'd', 'e', 'f']
}

/// The bytes written in lowercase hexadecimal: two digits for each byte, the
/// high half first.
pub open spec fn lower_hex(bytes: Seq<u8>) -> Seq<char> {
    Seq::new(
        2 * bytes.len(),
        |i: int|
            if i % 2 == 0 {
                hex_digits()[bytes[i / 2] as int / 16]
            } else {
                hex_digits()[bytes[i / 2] as int % 16]
            },
    )
}

/// The fingerprint of a file with the content `content`.
pub open spec fn fingerprint_of(content: Seq<u8>) -> Seq<char> {
    lower_hex(sha256(content))
}

/// The digit of lowercase hexadecimal for a value below sixteen.
fn hex_digit(value: u8) -> (digit: char)
    requires
        value < 16,
    ensures
        digit == hex_digits()[value as int],
{
    match value {
        0 => '0',
        1 => '1',
        2 => '2',
        3 => '3',
        4 => '4',
        5 => '5',
        6 => '6',
        7 => '7',
        8 => '8',
        9 => '9',
        10 => 'a',
        11 => 'b',
        12 => 'c',
        13 => 'd',
        14 => 'e',
        _ => 'f',
    }
}

/// Writes bytes in lowercase hexadecimal.
pub fn to_lower_hex(bytes: &[u8]) -> (text: String)
    ensures
        text@ == lower_hex(bytes@),
        text@.len() == 2 * bytes@.len(),
{
    let mut text = String::new();
    let mut i: usize = 0;
    while i < bytes.len()
        invariant
            i <= bytes.len(),
            text@ == lower_hex(bytes@.take(i as int)),
        decreases bytes.len() - i,
    {
        let byte = bytes[i];
        push_char(&mut text, hex_digit(byte / 16));
        push_char(&mut text, hex_digit(byte % 16));
        assert(text@ =~= lower_hex(bytes@.take(i + 1)));
        i += 1;
    }
    assert(bytes@.take(i as int) =~= bytes@);
    text
}

/// Computes the fingerprint of one file from its bytes, chunk by chunk.
pub struct ContentFingerprinter {
    state: Sha256State,
}

impl ContentFingerprinter {
    /// The bytes taken in so far.
    pub closed spec fn content(&self) -> Seq<u8> {
        absorbed(self.state)
    }

    /// A fingerprinter that has taken in nothing.
    pub fn new() -> (fingerprinter: Self)
        ensures
            fingerprinter.content() == Seq::<u8>::empty(),
    {
        ContentFingerprinter { state: sha256_new() }
    }

    /// Takes in the next chunk of the file.
    pub fn update(&mut self, chunk: &[u8])
        ensures
            final(self).content() == old(self).content() + chunk@,
    {
        sha256_update(&mut self.state, chunk)
    }

    /// The fingerprint of everything taken in: 64 digits of lowercase
    /// hexadecimal.
    pub fn finish(self) -> (fingerprint: String)
        ensures
            fingerprint@ == fingerprint_of(self.content()),
            fingerprint@.len() == 64,
    {
        let digest = sha256_finalize(self.state);
        to_lower_hex(digest.as_slice())
    }
}

/// The largest chunk in which a file is read for fingerprinting.
pub const CHUNK_BYTES: usize = 1_048_576;

/// The fingerprint of a file whose whole content is at hand.
pub fn file_hash(content: &[u8]) -> (fingerprint: String)
    ensures
        fingerprint@ == fingerprint_of(content@),
        fingerprint@.len() == 64,
{
    let mut fingerprinter = ContentFingerprinter::new();
    fingerprinter.update(content);
    assert(Seq::<u8>::empty() + content@ =~= content@);
    fingerprinter.finish()
}

/// A file's fingerprint does not depend on how its bytes are cut into chunks:
/// taking in `first` and then `second` is taking in the two joined.
pub proof fn lemma_chunks_join(before: Seq<u8>, first: Seq<u8>, second: Seq<u8>)
    ensures
        fingerprint_of((before + first) + second) == fingerprint_of(before + (first + second)),
{
    assert((before + first) + second =~= before + (first + second));
}

} // verus!

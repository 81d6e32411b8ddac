//! SHA256 digests, as lowercase hexadecimal text.
use vstd::prelude::*;
use crate::text::digit_char;

verus! {

/// A SHA256 computation in progress (`sha2::Sha256`). Verus cannot read the
/// hasher's type, so it is held here opaquely; `sha256_absorbed` names the
/// bytes it has been fed.
#[verifier::external_body]
pub struct Sha256Hasher {
    inner: sha2::Sha256,
}

/// The bytes fed to the hasher so far.
pub uninterp spec fn sha256_absorbed(h: Sha256Hasher) -> Seq<u8>;

/// The SHA256 digest of `data` (32 bytes).
pub uninterp spec fn sha256_digest(data: Seq<u8>) -> Seq<u8>;

impl View for Sha256Hasher {
    type V = Seq<u8>;

    open spec fn view(&self) -> Seq<u8> {
        sha256_absorbed(*self)
    }
}

/// The lowercase hexadecimal digit for `d < 16`.
pub open spec fn hex_digit(d: nat) -> char {
    if d < 10 {
        digit_char(d)
    } else if d == 10 { 'a' }
    else if d == 11 { 'b' }
    else if d == 12 { 'c' }
    else if d == 13 { 'd' }
    else if d == 14 { 'e' }
    else { 'f' }
}

/// Lowercase hexadecimal text of `data`: two digits per byte, high nibble
/// first.
pub open spec fn hex_lower(data: Seq<u8>) -> Seq<char>
    decreases data.len(),
{
    if data.len() == 0 {
        Seq::empty()
    } else {
        hex_lower(data.drop_last()) + seq![hex_digit(data.last() as nat / 16), hex_digit(data.last() as nat % 16)]
    }
}

proof fn lemma_hex_len(data: Seq<u8>)
    ensures
        hex_lower(data).len() == 2 * data.len(),
    decreases data.len(),
{
    if data.len() > 0 {
        lemma_hex_len(data.drop_last());
    }
}

/// `<sha2::Sha256 as Digest>::new`: a hasher that has absorbed nothing.
#[verifier::external_body]
fn hasher_new() -> (h: Sha256Hasher)
    ensures
        sha256_absorbed(h) == Seq::<u8>::empty(),
{
    Sha256Hasher { inner: <sha2::Sha256 as sha2::Digest>::new() }
}

/// `Digest::update`: the hasher absorbs `data` after what it holds.
#[verifier::external_body]
fn hasher_update(h: &mut Sha256Hasher, data: &[u8])
    ensures
        sha256_absorbed(*final(h)) == sha256_absorbed(*old(h)) + data@,
{
    sha2::Digest::update(&mut h.inner, data)
}

/// `Digest::finalize`: the SHA256 digest of everything absorbed.
#[verifier::external_body]
fn hasher_finalize(h: Sha256Hasher) -> (r: Vec<u8>)
    ensures
        r@ == sha256_digest(sha256_absorbed(h)),
        r@.len() == 32,
{
    sha2::Digest::finalize(h.inner).to_vec()
}

/// `hex::encode`: lowercase hexadecimal, two digits per byte.
#[verifier::external_body]
fn hex_encode(data: &[u8]) -> (r: String)
    ensures
        r@ == hex_lower(data@),
{
    hex::encode(data)
}

impl Sha256Hasher {
    /// A new SHA256 computation.
    pub fn new() -> (h: Sha256Hasher)
        ensures
            h@ == Seq::<u8>::empty(),
    {
        hasher_new()
    }

    /// Feed `data` to the computation.
    pub fn update(&mut self, data: &[u8])
        ensures
            final(self)@ == old(self)@ + data@,
    {
        hasher_update(self, data)
    }

    /// The lowercase hex digest of everything fed so far.
    pub fn finalize_hex(self) -> (r: String)
        ensures
            r@ == hex_lower(sha256_digest(self@)),
            r@.len() == 64,
    {
        let digest = hasher_finalize(self);
        proof {
            lemma_hex_len(digest@);
        }
        hex_encode(digest.as_slice())
    }
}

} // verus!

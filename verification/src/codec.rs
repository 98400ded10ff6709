//! Text encodings that the vault exchanges with its callers: base64 for keys
//! and ciphertexts, base32 for one-time secrets, UTF-8 for decrypted fields.

use base64::Engine;
use vstd::prelude::*;
use vstd::utf8::*;

verus! {

/// The standard, padded base64 text of `bytes`, as the base64 crate's
/// `STANDARD` engine encodes it.
pub uninterp spec fn base64_text(bytes: Seq<u8>) -> Seq<char>;

/// What the base64 crate's `STANDARD` engine decodes `text` to, `None` where
/// it rejects the text.
pub uninterp spec fn base64_bytes(text: Seq<char>) -> Option<Seq<u8>>;

/// The unpadded RFC 4648 base32 text of `bytes`, as the base32 crate encodes it.
pub uninterp spec fn base32_text(bytes: Seq<u8>) -> Seq<char>;

/// What the base32 crate decodes `text` to under the RFC 4648 alphabet, `None`
/// where it rejects the text.
pub uninterp spec fn base32_bytes(text: Seq<char>) -> Option<Seq<u8>>;

/// Calls `Engine::encode` on `base64::engine::general_purpose::STANDARD`.
///
/// Trusted: the result is the crate's encoding of the input, and decoding it
/// with the same engine gives the input back. The crate panics only where
/// the encoded length overflows `usize`, which takes an input longer than
/// `isize::MAX` bytes: no slice is that long.
#[verifier::external_body]
pub(crate) fn base64_encode(bytes: &[u8]) -> (text: String)
    ensures
        text@ == base64_text(bytes@),
        base64_bytes(text@) == Some(bytes@),
{
    base64::engine::general_purpose::STANDARD.encode(bytes)
}

/// Calls `Engine::decode` on `base64::engine::general_purpose::STANDARD`.
///
/// Trusted: the result is the crate's decoding of the text, `None` for its
/// `DecodeError`.
#[verifier::external_body]
pub(crate) fn base64_decode(text: &str) -> (bytes: Option<Vec<u8>>)
    ensures
        match bytes {
            Some(b) => base64_bytes(text@) == Some(b@),
            None => base64_bytes(text@).is_none(),
        },
{
    match base64::engine::general_purpose::STANDARD.decode(text) {
        Ok(b) => Some(b),
        Err(_) => None,
    }
}

/// Calls `base32::encode` with `Alphabet::RFC4648 { padding: false }`.
///
/// Trusted: the result is the crate's encoding of the input, and decoding it
/// under the same alphabet gives the input back.
#[verifier::external_body]
pub(crate) fn base32_encode(bytes: &[u8]) -> (text: String)
    ensures
        text@ == base32_text(bytes@),
        base32_bytes(text@) == Some(bytes@),
{
    base32::encode(base32::Alphabet::RFC4648 { padding: false }, bytes)
}

/// Calls `base32::decode` with `Alphabet::RFC4648 { padding: false }`.
///
/// Trusted: the result is the crate's decoding of the text.
#[verifier::external_body]
pub(crate) fn base32_decode(text: &str) -> (bytes: Option<Vec<u8>>)
    ensures
        match bytes {
            Some(b) => base32_bytes(text@) == Some(b@),
            None => base32_bytes(text@).is_none(),
        },
{
    base32::decode(base32::Alphabet::RFC4648 { padding: false }, text)
}

/// Calls `String::from_utf8`.
///
/// Trusted: the bytes become a string exactly when they are valid UTF-8, and
/// the string then holds the characters they encode.
#[verifier::external_body]
pub(crate) fn utf8_decode(bytes: Vec<u8>) -> (text: Option<String>)
    ensures
        match text {
            Some(s) => valid_utf8(bytes@) && s@ == decode_utf8(bytes@),
            None => !valid_utf8(bytes@),
        },
{
    match String::from_utf8(bytes) {
        Ok(s) => Some(s),
        Err(_) => None,
    }
}

/// Whether two texts hold the same characters.
pub fn text_eq(a: &str, b: &str) -> (same: bool)
    ensures
        same == (a@ == b@),
{
    let x = a.as_bytes();
    let y = b.as_bytes();
    proof {
        encode_utf8_decode_utf8(a@);
        encode_utf8_decode_utf8(b@);
    }
    if x.len() != y.len() {
        return false;
    }
    let mut i: usize = 0;
    while i < x.len()
        invariant
            i <= x@.len(),
            x@.len() == y@.len(),
            x@ == encode_utf8(a@),
            y@ == encode_utf8(b@),
            forall|j: int| 0 <= j < i ==> x@[j] == y@[j],
        decreases x@.len() - i,
    {
        if x[i] != y[i] {
            return false;
        }
        i = i + 1;
    }
    assert(x@ =~= y@);
    true
}

/// Whether `a` comes before `b` when byte strings are ordered by their first
/// difference, a prefix before what extends it.
pub open spec fn bytes_before(a: Seq<u8>, b: Seq<u8>) -> bool
    decreases a.len(),
{
    if b.len() == 0 {
        false
    } else if a.len() == 0 {
        true
    } else if a[0] != b[0] {
        a[0] < b[0]
    } else {
        bytes_before(a.drop_first(), b.drop_first())
    }
}

/// Whether the text `a` sorts before the text `b`: by the bytes of their
/// UTF-8 form, as a storage engine orders text.
pub open spec fn sorts_before(a: Seq<char>, b: Seq<char>) -> bool {
    bytes_before(encode_utf8(a), encode_utf8(b))
}

/// The order of byte strings is transitive.
pub proof fn lemma_bytes_before_transitive(a: Seq<u8>, b: Seq<u8>, c: Seq<u8>)
    requires
        bytes_before(a, b),
        bytes_before(b, c),
    ensures
        bytes_before(a, c),
    decreases a.len(),
{
    if a.len() > 0 && a[0] == b[0] && b[0] == c[0] {
        lemma_bytes_before_transitive(a.drop_first(), b.drop_first(), c.drop_first());
    }
}

/// No byte string comes before itself.
pub proof fn lemma_bytes_before_irreflexive(a: Seq<u8>)
    ensures
        !bytes_before(a, a),
    decreases a.len(),
{
    if a.len() > 0 {
        lemma_bytes_before_irreflexive(a.drop_first());
    }
}

/// Whether `a` sorts before `b`.
pub fn text_before(a: &str, b: &str) -> (before: bool)
    ensures
        before == sorts_before(a@, b@),
{
    let x = a.as_bytes();
    let y = b.as_bytes();
    let mut i: usize = 0;
    assert(x@.skip(0) =~= x@);
    assert(y@.skip(0) =~= y@);
    while i < x.len() && i < y.len()
        invariant
            i <= x@.len(),
            i <= y@.len(),
            x@ == encode_utf8(a@),
            y@ == encode_utf8(b@),
            bytes_before(x@, y@) == bytes_before(x@.skip(i as int), y@.skip(i as int)),
        decreases x@.len() - i,
    {
        proof {
            assert(x@.skip(i as int).drop_first() =~= x@.skip(i + 1));
            assert(y@.skip(i as int).drop_first() =~= y@.skip(i + 1));
            assert(x@.skip(i as int)[0] == x@[i as int]);
            assert(y@.skip(i as int)[0] == y@[i as int]);
        }
        if x[i] != y[i] {
            proof {
                assert(x@.skip(i as int).len() > 0);
                assert(y@.skip(i as int).len() > 0);
                assert(bytes_before(x@.skip(i as int), y@.skip(i as int)) == (x@[i as int]
                    < y@[i as int]));
            }
            return x[i] < y[i];
        }
        i = i + 1;
    }
    proof {
        if i < y@.len() {
            assert(y@.skip(i as int).len() > 0);
            assert(x@.skip(i as int).len() == 0);
        } else {
            assert(y@.skip(i as int).len() == 0);
        }
    }
    i < y.len()
}

/// The characters of a decrypted field, `None` where the bytes are not UTF-8.
pub open spec fn text_of(bytes: Seq<u8>) -> Option<Seq<char>> {
    if valid_utf8(bytes) {
        Some(decode_utf8(bytes))
    } else {
        None
    }
}

/// Encoding a string and reading the bytes back gives the string.
pub proof fn lemma_text_round_trip(chars: Seq<char>)
    ensures
        text_of(encode_utf8(chars)) == Some(chars),
{
    encode_utf8_valid_utf8(chars);
    encode_utf8_decode_utf8(chars);
}

} // verus!

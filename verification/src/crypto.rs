//! Calls into the base64, hmac and sha2 crates, with what the library relies on
//! about each of them.

use vstd::prelude::*;
use base64::engine::general_purpose::URL_SAFE_NO_PAD;
use base64::Engine;
use hmac::{Hmac, Mac};
use sha2::Sha256;

verus! {

/// The character of the URL-safe base64 alphabet for a 6-bit value.
pub open spec fn b64url_char(v: int) -> char {
    if v < 26 {
        ('A' as int + v) as char
    } else if v < 52 {
        ('a' as int + v - 26) as char
    } else if v < 62 {
        ('0' as int + v - 52) as char
    } else if v == 62 {
        '-'
    } else {
        '_'
    }
}

/// URL-safe base64 (RFC 4648 section 5) without `=` padding: every 3 bytes become
/// 4 characters; a final 1 or 2 bytes become 2 or 3 characters.
pub open spec fn b64url_encode(b: Seq<u8>) -> Seq<char>
    decreases b.len(),
{
    if b.len() == 0 {
        Seq::empty()
    } else if b.len() == 1 {
        seq![b64url_char(b[0] as int / 4), b64url_char((b[0] as int % 4) * 16)]
    } else if b.len() == 2 {
        seq![
            b64url_char(b[0] as int / 4),
            b64url_char((b[0] as int % 4) * 16 + b[1] as int / 16),
            b64url_char((b[1] as int % 16) * 4),
        ]
    } else {
        seq![
            b64url_char(b[0] as int / 4),
            b64url_char((b[0] as int % 4) * 16 + b[1] as int / 16),
            b64url_char((b[1] as int % 16) * 4 + b[2] as int / 64),
            b64url_char(b[2] as int % 64),
        ] + b64url_encode(b.skip(3))
    }
}

proof fn lemma_b64url_char_injective(x: int, y: int)
    requires
        0 <= x < 64,
        0 <= y < 64,
        b64url_char(x) == b64url_char(y),
    ensures
        x == y,
{
}

proof fn lemma_sextets_determine_bytes(a0: u8, a1: u8, a2: u8, b0: u8, b1: u8, b2: u8)
    by (bit_vector)
    requires
        a0 / 4 == b0 / 4,
        (a0 % 4) * 16 + a1 / 16 == (b0 % 4) * 16 + b1 / 16,
        (a1 % 16) * 4 + a2 / 64 == (b1 % 16) * 4 + b2 / 64,
        a2 % 64 == b2 % 64,
    ensures
        a0 == b0,
        a1 == b1,
        a2 == b2,
{
}

proof fn lemma_two_bytes(a0: u8, a1: u8, b0: u8, b1: u8)
    by (bit_vector)
    requires
        a0 / 4 == b0 / 4,
        (a0 % 4) * 16 + a1 / 16 == (b0 % 4) * 16 + b1 / 16,
        (a1 % 16) * 4 == (b1 % 16) * 4,
    ensures
        a0 == b0,
        a1 == b1,
{
}

proof fn lemma_one_byte(a0: u8, b0: u8)
    by (bit_vector)
    requires
        a0 / 4 == b0 / 4,
        (a0 % 4) * 16 == (b0 % 4) * 16,
    ensures
        a0 == b0,
{
}

/// The length of the base64url text of `b`.
pub proof fn lemma_b64url_len(b: Seq<u8>)
    ensures
        b64url_encode(b).len() == 4 * (b.len() / 3) + (if b.len() % 3 == 0 {
            0
        } else {
            b.len() % 3 + 1
        }),
    decreases b.len(),
{
    if b.len() >= 3 {
        lemma_b64url_len(b.skip(3));
    }
}

/// Distinct byte strings have distinct base64url texts.
pub proof fn lemma_b64url_injective(a: Seq<u8>, b: Seq<u8>)
    requires
        b64url_encode(a) == b64url_encode(b),
    ensures
        a == b,
    decreases a.len(),
{
    lemma_b64url_len(a);
    lemma_b64url_len(b);
    assert(a.len() == b.len());
    let e = b64url_encode(a);
    if a.len() == 1 {
        lemma_b64url_char_injective(a[0] as int / 4, b[0] as int / 4);
        assert(e[1] == b64url_char((a[0] as int % 4) * 16));
        lemma_b64url_char_injective((a[0] as int % 4) * 16, (b[0] as int % 4) * 16);
        lemma_one_byte(a[0], b[0]);
        assert(a == b);
    } else if a.len() == 2 {
        lemma_b64url_char_injective(a[0] as int / 4, b[0] as int / 4);
        assert(e[1] == b64url_char((a[0] as int % 4) * 16 + a[1] as int / 16));
        lemma_b64url_char_injective(
            (a[0] as int % 4) * 16 + a[1] as int / 16,
            (b[0] as int % 4) * 16 + b[1] as int / 16,
        );
        assert(e[2] == b64url_char((a[1] as int % 16) * 4));
        lemma_b64url_char_injective((a[1] as int % 16) * 4, (b[1] as int % 16) * 4);
        lemma_two_bytes(a[0], a[1], b[0], b[1]);
        assert(a == b);
    } else if a.len() >= 3 {
        let f = b64url_encode(b);
        assert(e[0] == b64url_char(a[0] as int / 4));
        assert(f[0] == b64url_char(b[0] as int / 4));
        assert(f[1] == b64url_char((b[0] as int % 4) * 16 + b[1] as int / 16));
        assert(f[2] == b64url_char((b[1] as int % 16) * 4 + b[2] as int / 64));
        assert(f[3] == b64url_char(b[2] as int % 64));
        lemma_b64url_char_injective(a[0] as int / 4, b[0] as int / 4);
        assert(e[1] == b64url_char((a[0] as int % 4) * 16 + a[1] as int / 16));
        lemma_b64url_char_injective(
            (a[0] as int % 4) * 16 + a[1] as int / 16,
            (b[0] as int % 4) * 16 + b[1] as int / 16,
        );
        assert(e[2] == b64url_char((a[1] as int % 16) * 4 + a[2] as int / 64));
        lemma_b64url_char_injective(
            (a[1] as int % 16) * 4 + a[2] as int / 64,
            (b[1] as int % 16) * 4 + b[2] as int / 64,
        );
        assert(e[3] == b64url_char(a[2] as int % 64));
        lemma_b64url_char_injective(a[2] as int % 64, b[2] as int % 64);
        lemma_sextets_determine_bytes(a[0], a[1], a[2], b[0], b[1], b[2]);
        assert(b64url_encode(a.skip(3)) == e.skip(4));
        assert(b64url_encode(b.skip(3)) == e.skip(4));
        lemma_b64url_injective(a.skip(3), b.skip(3));
        assert(a == seq![a[0], a[1], a[2]] + a.skip(3));
        assert(b == seq![b[0], b[1], b[2]] + b.skip(3));
    } else {
        assert(a == b);
    }
}

#[verifier::external_type_specification]
#[verifier::external_body]
pub struct ExDecodeError(base64::DecodeError);

/// `base64::engine::general_purpose::URL_SAFE_NO_PAD.encode`: the unpadded URL-safe
/// base64 text of `bytes`.
#[verifier::external_body]
pub(crate) fn base64_url_encode(bytes: &[u8]) -> (s: String)
    ensures
        s@ == b64url_encode(bytes@),
{
    URL_SAFE_NO_PAD.encode(bytes)
}

/// `base64::engine::general_purpose::URL_SAFE_NO_PAD.decode`. The engine decodes
/// strictly (no padding accepted, no stray trailing bits), so it succeeds exactly on
/// the texts that `encode` produces, giving back the bytes they encode.
#[verifier::external_body]
pub(crate) fn base64_url_decode(s: &str) -> (r: Result<Vec<u8>, base64::DecodeError>)
    ensures
        r matches Ok(b) ==> b64url_encode(b@) == s@,
        forall|b: Seq<u8>| #[trigger] b64url_encode(b) == s@ ==> r is Ok && r->Ok_0@ == b,
{
    URL_SAFE_NO_PAD.decode(s)
}

/// HMAC-SHA256 of `msg` under `key`.
pub uninterp spec fn hmac_sha256(key: Seq<u8>, msg: Seq<u8>) -> Seq<u8>;

/// `Hmac::<Sha256>::new_from_slice(key)`, `update(msg)`, `finalize()`: the 32-byte
/// HMAC-SHA256 tag. `new_from_slice` accepts keys of every length (longer ones are
/// hashed first), so the `expect` never fires.
#[verifier::external_body]
pub(crate) fn hmac_sha256_tag(key: &[u8], msg: &[u8]) -> (tag: Vec<u8>)
    ensures
        tag@ == hmac_sha256(key@, msg@),
        tag@.len() == 32,
{
    let mut mac = Hmac::<Sha256>::new_from_slice(key).expect("HMAC accepts any key length");
    mac.update(msg);
    mac.finalize().into_bytes().to_vec()
}

/// `Hmac::<Sha256>::new_from_slice(key)`, `update(msg)`, `verify_slice(tag)`: whether
/// `tag` is exactly the HMAC-SHA256 tag of `msg` (compared in constant time; a tag of
/// another length is refused).
#[verifier::external_body]
pub(crate) fn hmac_sha256_verify(key: &[u8], msg: &[u8], tag: &[u8]) -> (ok: bool)
    ensures
        ok == (tag@ == hmac_sha256(key@, msg@)),
{
    let mut mac = Hmac::<Sha256>::new_from_slice(key).expect("HMAC accepts any key length");
    mac.update(msg);
    mac.verify_slice(tag).is_ok()
}

} // verus!

//! MongoDB object ids as their 12 bytes, with the bson crate's hex conversions.

use vstd::prelude::*;
use mongodb::bson::oid::ObjectId;

verus! {

pub open spec fn is_hex_char(c: char) -> bool {
    ('0' <= c && c <= '9') || ('a' <= c && c <= 'f') || ('A' <= c && c <= 'F')
}

/// The value of a hex digit (either case).
pub open spec fn hex_val(c: char) -> int {
    if '0' <= c && c <= '9' {
        c as int - '0' as int
    } else if 'a' <= c && c <= 'f' {
        c as int - 'a' as int + 10
    } else {
        c as int - 'A' as int + 10
    }
}

/// Lower-case hex digit for `d` in 0..16.
pub open spec fn hex_lower(d: int) -> char {
    if d < 10 {
        ('0' as int + d) as char
    } else {
        ('a' as int + d - 10) as char
    }
}

/// Lower-case hex text of `b`, two digits per byte.
pub open spec fn hex_encode(b: Seq<u8>) -> Seq<char> {
    Seq::new(
        2 * b.len(),
        |i: int|
            if i % 2 == 0 {
                hex_lower(b[i / 2] as int / 16)
            } else {
                hex_lower(b[i / 2] as int % 16)
            },
    )
}

/// `s` is a hex text (either case) of exactly the bytes `b`.
pub open spec fn hex_decodes_to(s: Seq<char>, b: Seq<u8>) -> bool {
    &&& s.len() == 2 * b.len()
    &&& forall|i: int| 0 <= i < s.len() ==> is_hex_char(#[trigger] s[i])
    &&& forall|i: int|
        0 <= i < b.len() ==> #[trigger] b[i] as int == hex_val(s[2 * i]) * 16 + hex_val(s[2 * i + 1])
}

/// `s` is 24 hex digits: the text form of an object id.
pub open spec fn is_oid_text(s: Seq<char>) -> bool {
    s.len() == 24 && forall|i: int| 0 <= i < 24 ==> is_hex_char(#[trigger] s[i])
}

#[verifier::external_type_specification]
#[verifier::external_body]
pub struct ExOidError(mongodb::bson::oid::Error);

/// `ObjectId::from_bytes(oid).to_hex()`: the lower-case hex text of the 12 bytes
/// (`hex::encode`).
#[verifier::external_body]
pub(crate) fn oid_to_hex(oid: [u8; 12]) -> (s: String)
    ensures
        s@ == hex_encode(oid@),
{
    ObjectId::from_bytes(oid).to_hex()
}

/// `ObjectId::parse_str(s)` read back as its 12 bytes: it succeeds exactly when `s` is
/// 24 hex digits (either case, `hex::decode` then a length check of 12 bytes).
#[verifier::external_body]
pub(crate) fn oid_parse_str(s: &str) -> (r: Result<[u8; 12], mongodb::bson::oid::Error>)
    ensures
        r is Ok <==> is_oid_text(s@),
        r matches Ok(b) ==> hex_decodes_to(s@, b@),
{
    match ObjectId::parse_str(s) {
        Ok(oid) => Ok(oid.bytes()),
        Err(e) => Err(e),
    }
}

proof fn lemma_hex_lower_digit(d: int)
    requires
        0 <= d < 16,
    ensures
        is_hex_char(hex_lower(d)),
        hex_val(hex_lower(d)) == d,
{
}

/// Law: the hex text of an id is an id text that reads back as the same bytes.
pub proof fn lemma_hex_roundtrip(b: Seq<u8>)
    ensures
        hex_decodes_to(hex_encode(b), b),
        b.len() == 12 ==> is_oid_text(hex_encode(b)),
{
    let s = hex_encode(b);
    assert forall|i: int| 0 <= i < s.len() implies is_hex_char(#[trigger] s[i]) by {
        if i % 2 == 0 {
            lemma_hex_lower_digit(b[i / 2] as int / 16);
        } else {
            lemma_hex_lower_digit(b[i / 2] as int % 16);
        }
    }
    assert forall|i: int| 0 <= i < b.len() implies #[trigger] b[i] as int == hex_val(s[2 * i]) * 16
        + hex_val(s[2 * i + 1]) by {
        assert((2 * i) % 2 == 0);
        assert((2 * i + 1) % 2 == 1);
        assert((2 * i) / 2 == i);
        assert((2 * i + 1) / 2 == i);
        lemma_hex_lower_digit(b[i] as int / 16);
        lemma_hex_lower_digit(b[i] as int % 16);
    }
}

/// Law: two byte strings with the same hex text are equal.
pub proof fn lemma_hex_decodes_unique(s: Seq<char>, a: Seq<u8>, b: Seq<u8>)
    requires
        hex_decodes_to(s, a),
        hex_decodes_to(s, b),
    ensures
        a == b,
{
    assert forall|i: int| 0 <= i < a.len() implies a[i] == b[i] by {
        assert(a[i] as int == hex_val(s[2 * i]) * 16 + hex_val(s[2 * i + 1]));
        assert(b[i] as int == hex_val(s[2 * i]) * 16 + hex_val(s[2 * i + 1]));
    }
    assert(a =~= b);
}

} // verus!

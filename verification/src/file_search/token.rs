//! Opaque, HMAC-signed tokens embedding `(source, cluster_idx, object id)`, used in
//! file-detail links so an end user can neither tell which database a search result
//! came from nor edit the id to probe for another file. The source and cluster
//! bytes travel masked with a key that only the holder of the secret can derive,
//! and any change breaks the signature, which [`decode_token`] checks.

use vstd::prelude::*;
use crate::crypto::{self, base64_url_decode, base64_url_encode, hmac_sha256_tag, hmac_sha256_verify};
use crate::text::slice_to_vec;

verus! {

/// Which database a file-detail link points at, plus the TGFS index cluster.
#[derive(Clone, Copy, Debug, PartialEq, Eq)]
pub enum Source {
    Plgb,
    Tgfs { cluster_idx: u8 },
}

/// The 14-byte signed payload: source byte (0 = PLGB, 1 = TGFS), cluster byte,
/// 12 id bytes.
pub open spec fn token_payload(source: Source, oid: Seq<u8>) -> Seq<u8> {
    match source {
        Source::Plgb => seq![0u8, 0u8] + oid,
        Source::Tgfs { cluster_idx } => seq![1u8, cluster_idx] + oid,
    }
}

/// The message whose HMAC masks the two leading payload bytes of the token for
/// `oid`: a `0xff` byte (no payload starts with it) followed by the id.
pub open spec fn mask_message(oid: Seq<u8>) -> Seq<u8> {
    seq![255u8] + oid
}

/// The 46 token bytes: the source and cluster bytes each xor-ed with the first two
/// bytes of the mask, the 12 id bytes, then the payload's 32-byte tag.
pub open spec fn token_bytes(secret: Seq<u8>, source: Source, oid: Seq<u8>) -> Seq<u8> {
    let p = token_payload(source, oid);
    let k = crypto::hmac_sha256(secret, mask_message(oid));
    seq![p[0] ^ k[0], p[1] ^ k[1]] + oid + crypto::hmac_sha256(secret, p)
}

/// `encode_token(secret, source, oid)`: base64url of the token bytes.
pub open spec fn spec_encode_token(secret: Seq<u8>, source: Source, oid: Seq<u8>) -> Seq<char> {
    crypto::b64url_encode(token_bytes(secret, source, oid))
}

/// The payload that 46 token bytes `c` carry once unmasked.
pub open spec fn unmasked_payload(secret: Seq<u8>, c: Seq<u8>) -> Seq<u8> {
    let oid = c.subrange(2, 14);
    let k = crypto::hmac_sha256(secret, mask_message(oid));
    seq![c[0] ^ k[0], c[1] ^ k[1]] + oid
}

/// What decoded token bytes say, if there are 46 of them, the tag checks out
/// against the unmasked payload and its source byte is known.
pub open spec fn read_token_bytes(secret: Seq<u8>, c: Seq<u8>) -> Option<(Source, Seq<u8>)> {
    let p = unmasked_payload(secret, c);
    if c.len() == 46 && c.subrange(14, 46) == crypto::hmac_sha256(secret, p) && (p[0] == 0 || p[0]
        == 1) {
        Some(
            (
                if p[0] == 0 {
                    Source::Plgb
                } else {
                    Source::Tgfs { cluster_idx: p[1] }
                },
                c.subrange(2, 14),
            ),
        )
    } else {
        None
    }
}

/// `decode_token(secret, token)`: the token's bytes (if it is valid base64url) read back.
pub open spec fn spec_decode_token(secret: Seq<u8>, token: Seq<char>) -> Option<(Source, Seq<u8>)> {
    if exists|c: Seq<u8>| crypto::b64url_encode(c) == token {
        read_token_bytes(secret, choose|c: Seq<u8>| crypto::b64url_encode(c) == token)
    } else {
        None
    }
}

fn push_all(v: &mut Vec<u8>, s: &[u8])
    ensures
        final(v)@ == old(v)@ + s@,
{
    let ghost v0 = v@;
    let mut j: usize = 0;
    while j < s.len()
        invariant
            j <= s@.len(),
            v@ == v0 + s@.take(j as int),
        decreases s@.len() - j,
    {
        v.push(s[j]);
        proof {
            assert(s@.take(j + 1) == s@.take(j as int).push(s@[j as int]));
        }
        j = j + 1;
    }
    proof {
        assert(s@.take(s@.len() as int) == s@);
    }
}

fn mask_message_bytes(oid: &[u8]) -> (m: Vec<u8>)
    ensures
        m@ == mask_message(oid@),
{
    let mut m: Vec<u8> = Vec::new();
    m.push(255u8);
    push_all(&mut m, oid);
    m
}

/// Builds an opaque, HMAC-signed token embedding `(source, cluster_idx, oid)`.
pub fn encode_token(secret: &[u8], source: Source, oid: [u8; 12]) -> (t: String)
    ensures
        t@ == spec_encode_token(secret@, source, oid@),
{
    let (source_byte, cluster_idx): (u8, u8) = match source {
        Source::Plgb => (0, 0),
        Source::Tgfs { cluster_idx } => (1, cluster_idx),
    };
    let mut payload: Vec<u8> = Vec::new();
    payload.push(source_byte);
    payload.push(cluster_idx);
    push_all(&mut payload, oid.as_slice());
    proof {
        assert(payload@ == token_payload(source, oid@));
    }
    let tag = hmac_sha256_tag(secret, payload.as_slice());
    let mask_msg = mask_message_bytes(oid.as_slice());
    let k = hmac_sha256_tag(secret, mask_msg.as_slice());
    let mut out: Vec<u8> = Vec::new();
    out.push(source_byte ^ k[0]);
    out.push(cluster_idx ^ k[1]);
    push_all(&mut out, oid.as_slice());
    push_all(&mut out, tag.as_slice());
    proof {
        assert(out@ == token_bytes(secret@, source, oid@));
    }
    base64_url_encode(out.as_slice())
}

/// Verifies and decodes a token built by [`encode_token`]. `None` if it is malformed
/// or fails signature verification (e.g. tampered with).
pub fn decode_token(secret: &[u8], token: &str) -> (r: Option<(Source, [u8; 12])>)
    ensures
        match r {
            Some((source, oid)) => spec_decode_token(secret@, token@) == Some((source, oid@)),
            None => spec_decode_token(secret@, token@) is None,
        },
{
    let combined = match base64_url_decode(token) {
        Ok(c) => c,
        Err(_) => {
            return None;
        },
    };
    proof {
        let c = choose|c: Seq<u8>| crypto::b64url_encode(c) == token@;
        assert(crypto::b64url_encode(combined@) == token@);
        assert(c == combined@);
    }
    if combined.len() != 46 {
        return None;
    }
    let id_bytes = slice_to_vec(combined.as_slice(), 2, 14);
    let mask_msg = mask_message_bytes(id_bytes.as_slice());
    let k = hmac_sha256_tag(secret, mask_msg.as_slice());
    let mut payload: Vec<u8> = Vec::new();
    payload.push(combined[0] ^ k[0]);
    payload.push(combined[1] ^ k[1]);
    push_all(&mut payload, id_bytes.as_slice());
    proof {
        assert(payload@ == unmasked_payload(secret@, combined@));
    }
    let sig = slice_to_vec(combined.as_slice(), 14, 46);
    if !hmac_sha256_verify(secret, payload.as_slice(), sig.as_slice()) {
        return None;
    }
    let mut oid = [0u8; 12];
    let mut i: usize = 0;
    while i < 12
        invariant
            i <= 12,
            id_bytes@.len() == 12,
            forall|j: int| 0 <= j < i ==> oid@[j] == id_bytes@[j],
        decreases 12 - i,
    {
        oid[i] = id_bytes[i];
        i = i + 1;
    }
    proof {
        assert(oid@ == id_bytes@);
    }
    if payload[0] == 0 {
        Some((Source::Plgb, oid))
    } else if payload[0] == 1 {
        Some((Source::Tgfs { cluster_idx: payload[1] }, oid))
    } else {
        None
    }
}

/// Law: a token decodes, under the secret it was made with, to what it was made from
/// (a PLGB source drops the unused cluster byte).
pub proof fn lemma_token_roundtrip(secret: Seq<u8>, source: Source, oid: Seq<u8>)
    requires
        oid.len() == 12,
        crypto::hmac_sha256(secret, token_payload(source, oid)).len() == 32,
        crypto::hmac_sha256(secret, mask_message(oid)).len() == 32,
    ensures
        spec_decode_token(secret, spec_encode_token(secret, source, oid)) == Some((source, oid)),
{
    let p = token_payload(source, oid);
    let k = crypto::hmac_sha256(secret, mask_message(oid));
    let c = token_bytes(secret, source, oid);
    let t = spec_encode_token(secret, source, oid);
    assert(crypto::b64url_encode(c) == t);
    let c2 = choose|c2: Seq<u8>| crypto::b64url_encode(c2) == t;
    crypto::lemma_b64url_injective(c2, c);
    assert(c.subrange(2, 14) == oid);
    let (p0, p1, k0, k1) = (p[0], p[1], k[0], k[1]);
    assert((p0 ^ k0) ^ k0 == p0) by (bit_vector);
    assert((p1 ^ k1) ^ k1 == p1) by (bit_vector);
    assert(unmasked_payload(secret, c) == p);
    assert(c.subrange(14, 46) == crypto::hmac_sha256(secret, p));
}

} // verus!

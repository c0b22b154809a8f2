//! Signed `/dl/` and `/wt/` links for the TGFS file server.
//!
//! Token format: `base64url_nopad(payload) + "/" + base64url_nopad(sig)` where
//! `payload = big-endian(user_id: u64) ++ big-endian(file_id: u64) ++ (cluster: u8)`
//! and `sig = HMAC-SHA256(secret, payload)`. The cluster byte is always 0: the server
//! resolves the cluster itself from the user's index entry.

use vstd::prelude::*;
use crate::crypto::{self, base64_url_encode, hmac_sha256_tag};
use crate::text::{push_char, push_str, string_from};

verus! {

/// The `n` low bytes of `x`, most significant first.
pub open spec fn be_bytes(x: nat, n: nat) -> Seq<u8>
    decreases n,
{
    if n == 0 {
        Seq::empty()
    } else {
        be_bytes(x / 256, (n - 1) as nat).push((x % 256) as u8)
    }
}

/// The 17-byte payload signed for a link.
pub open spec fn token_payload(user_id: i64, file_id: i64) -> Seq<u8> {
    be_bytes((user_id as u64) as nat, 8) + be_bytes((file_id as u64) as nat, 8) + seq![0u8]
}

/// `make_token(secret, user_id, file_id)`.
pub open spec fn spec_make_token(secret: Seq<u8>, user_id: i64, file_id: i64) -> Seq<char> {
    let payload = token_payload(user_id, file_id);
    crypto::b64url_encode(payload) + seq!['/'] + crypto::b64url_encode(
        crypto::hmac_sha256(secret, payload),
    )
}

fn push_be_bytes(out: &mut Vec<u8>, x: u64, n: usize)
    requires
        n <= 8,
    ensures
        final(out)@ == old(out)@ + be_bytes(x as nat, n as nat),
    decreases n,
{
    if n > 0 {
        push_be_bytes(out, x / 256, n - 1);
        out.push((x % 256) as u8);
        proof {
            assert(be_bytes(x as nat, n as nat) == be_bytes((x / 256) as nat, (n - 1) as nat).push(
                (x % 256) as u8,
            ));
        }
    } else {
        proof {
            assert(old(out)@ + be_bytes(x as nat, 0) == old(out)@);
        }
    }
}

/// Builds the `{payload_b64}/{sig_b64}` token the file server expects after `/dl/` or `/wt/`.
pub fn make_token(secret: &[u8], user_id: i64, file_id: i64) -> (t: String)
    ensures
        t@ == spec_make_token(secret@, user_id, file_id),
{
    let mut payload: Vec<u8> = Vec::new();
    push_be_bytes(&mut payload, user_id as u64, 8);
    push_be_bytes(&mut payload, file_id as u64, 8);
    payload.push(0u8);
    proof {
        assert(payload@ == token_payload(user_id, file_id));
    }
    let sig = hmac_sha256_tag(secret, payload.as_slice());
    let mut t = base64_url_encode(payload.as_slice());
    push_char(&mut t, '/');
    let sig_text = base64_url_encode(sig.as_slice());
    push_str(&mut t, sig_text.as_str());
    t
}

/// `{public_url}{route}{token}`.
pub open spec fn spec_link(public_url: Seq<char>, route: Seq<char>, secret: Seq<u8>, user_id: i64, file_id: i64) -> Seq<char> {
    public_url + route + spec_make_token(secret, user_id, file_id)
}

/// The download route, `/dl/`.
pub open spec fn dl_route() -> Seq<char> {
    seq!['/', 'd', 'l', '/']
}

/// The inline-watch route, `/wt/`.
pub open spec fn wt_route() -> Seq<char> {
    seq!['/', 'w', 't', '/']
}

/// Builds the download (`/dl/`) link for a file owned by `user_id`, against `public_url`.
pub fn dl_url(public_url: &str, secret: &[u8], user_id: i64, file_id: i64) -> (u: String)
    ensures
        u@ == spec_link(public_url@, dl_route(), secret@, user_id, file_id),
{
    let mut u = string_from(public_url);
    push_char(&mut u, '/');
    push_char(&mut u, 'd');
    push_char(&mut u, 'l');
    push_char(&mut u, '/');
    let t = make_token(secret, user_id, file_id);
    push_str(&mut u, t.as_str());
    proof {
        assert(u@ == public_url@ + seq!['/', 'd', 'l', '/'] + spec_make_token(secret@, user_id, file_id));
    }
    u
}

/// Builds the inline-watch (`/wt/`) link for a file owned by `user_id`, against `public_url`.
pub fn watch_url(public_url: &str, secret: &[u8], user_id: i64, file_id: i64) -> (u: String)
    ensures
        u@ == spec_link(public_url@, wt_route(), secret@, user_id, file_id),
{
    let mut u = string_from(public_url);
    push_char(&mut u, '/');
    push_char(&mut u, 'w');
    push_char(&mut u, 't');
    push_char(&mut u, '/');
    let t = make_token(secret, user_id, file_id);
    push_str(&mut u, t.as_str());
    proof {
        assert(u@ == public_url@ + seq!['/', 'w', 't', '/'] + spec_make_token(secret@, user_id, file_id));
    }
    u
}

/// `256^n`.
pub open spec fn pow256(n: nat) -> nat
    decreases n,
{
    if n == 0 {
        1
    } else {
        256 * pow256((n - 1) as nat)
    }
}

proof fn lemma_be_bytes_len(x: nat, n: nat)
    ensures
        be_bytes(x, n).len() == n,
    decreases n,
{
    if n > 0 {
        lemma_be_bytes_len(x / 256, (n - 1) as nat);
    }
}

proof fn lemma_be_bytes_injective(x: nat, y: nat, n: nat)
    requires
        x < pow256(n),
        y < pow256(n),
        be_bytes(x, n) == be_bytes(y, n),
    ensures
        x == y,
    decreases n,
{
    if n > 0 {
        let bx = be_bytes(x / 256, (n - 1) as nat);
        let by = be_bytes(y / 256, (n - 1) as nat);
        lemma_be_bytes_len(x / 256, (n - 1) as nat);
        lemma_be_bytes_len(y / 256, (n - 1) as nat);
        assert(be_bytes(x, n) == bx.push((x % 256) as u8));
        assert(be_bytes(y, n) == by.push((y % 256) as u8));
        assert(bx == be_bytes(x, n).drop_last());
        assert(by == be_bytes(y, n).drop_last());
        assert(be_bytes(x, n)[n - 1] == (x % 256) as u8);
        assert(be_bytes(y, n)[n - 1] == (y % 256) as u8);
        assert(x % 256 == y % 256);
        let b = pow256((n - 1) as nat);
        assert(x / 256 < b) by (nonlinear_arith)
            requires
                x < 256 * b,
        ;
        assert(y / 256 < b) by (nonlinear_arith)
            requires
                y < 256 * b,
        ;
        lemma_be_bytes_injective(x / 256, y / 256, (n - 1) as nat);
    }
}

proof fn lemma_payload_injective(u1: i64, f1: i64, u2: i64, f2: i64)
    requires
        token_payload(u1, f1) == token_payload(u2, f2),
    ensures
        u1 == u2,
        f1 == f2,
{
    let (a1, b1, a2, b2) = ((u1 as u64) as nat, (f1 as u64) as nat, (u2 as u64) as nat, (f2 as u64) as nat);
    lemma_be_bytes_len(a1, 8);
    lemma_be_bytes_len(b1, 8);
    lemma_be_bytes_len(a2, 8);
    lemma_be_bytes_len(b2, 8);
    let p1 = token_payload(u1, f1);
    let p2 = token_payload(u2, f2);
    assert(p1.subrange(0, 8) == be_bytes(a1, 8));
    assert(p2.subrange(0, 8) == be_bytes(a2, 8));
    assert(p1.subrange(8, 16) == be_bytes(b1, 8));
    assert(p2.subrange(8, 16) == be_bytes(b2, 8));
    assert(pow256(8) == 0x1_0000_0000_0000_0000) by {
        reveal_with_fuel(pow256, 9);
    }
    lemma_be_bytes_injective(a1, a2, 8);
    lemma_be_bytes_injective(b1, b2, 8);
    assert(u1 as u64 == u2 as u64 ==> u1 == u2) by (bit_vector);
    assert(f1 as u64 == f2 as u64 ==> f1 == f2) by (bit_vector);
}

/// Law: links for different (owner, file) pairs differ. Under one secret, the
/// tokens of two different pairs differ, and so do their download links and
/// their watch links on the same server.
pub proof fn lemma_links_distinct(
    public_url: Seq<char>,
    secret: Seq<u8>,
    u1: i64,
    f1: i64,
    u2: i64,
    f2: i64,
)
    requires
        u1 != u2 || f1 != f2,
    ensures
        spec_make_token(secret, u1, f1) != spec_make_token(secret, u2, f2),
        spec_link(public_url, dl_route(), secret, u1, f1) != spec_link(public_url, dl_route(), secret, u2, f2),
        spec_link(public_url, wt_route(), secret, u1, f1) != spec_link(public_url, wt_route(), secret, u2, f2),
{
    let t1 = spec_make_token(secret, u1, f1);
    let t2 = spec_make_token(secret, u2, f2);
    if t1 == t2 {
        let p1 = token_payload(u1, f1);
        let p2 = token_payload(u2, f2);
        lemma_be_bytes_len((u1 as u64) as nat, 8);
        lemma_be_bytes_len((f1 as u64) as nat, 8);
        lemma_be_bytes_len((u2 as u64) as nat, 8);
        lemma_be_bytes_len((f2 as u64) as nat, 8);
        assert(p1.len() == 17 && p2.len() == 17);
        crypto::lemma_b64url_len(p1);
        crypto::lemma_b64url_len(p2);
        assert(crypto::b64url_encode(p1) == t1.take(23));
        assert(crypto::b64url_encode(p2) == t2.take(23));
        crypto::lemma_b64url_injective(p1, p2);
        lemma_payload_injective(u1, f1, u2, f2);
    }
    let n = (public_url + dl_route()).len() as int;
    let l1 = spec_link(public_url, dl_route(), secret, u1, f1);
    let l2 = spec_link(public_url, dl_route(), secret, u2, f2);
    if l1 == l2 {
        assert(l1.skip(n) == t1);
        assert(l2.skip(n) == t2);
    }
    let w1 = spec_link(public_url, wt_route(), secret, u1, f1);
    let w2 = spec_link(public_url, wt_route(), secret, u2, f2);
    if w1 == w2 {
        assert(w1.skip(n) == t1);
        assert(w2.skip(n) == t2);
    }
}

} // verus!

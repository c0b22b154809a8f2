use base64::engine::general_purpose::URL_SAFE_NO_PAD;
use base64::Engine;
use hmac::{Hmac, Mac};
use link_review::file_search::token::{decode_token, encode_token, Source};
use link_review::tgfs_models::{decode_entry_id, encode_entry_id};
use link_review::tgfs_token::{dl_url, make_token, watch_url};
use sha2::Sha256;

fn hmac_tag(key: &[u8], msg: &[u8]) -> Vec<u8> {
    let mut mac = Hmac::<Sha256>::new_from_slice(key).unwrap();
    mac.update(msg);
    mac.finalize().into_bytes().to_vec()
}

const OID: [u8; 12] = [0x65, 0x0a, 0xbc, 0xde, 0xf0, 0x12, 0x34, 0x56, 0x78, 0x9a, 0xbc, 0xde];

#[test]
fn make_token_matches_the_signing_scheme() {
    let secret = b"link-secret";
    let mut payload = Vec::new();
    payload.extend_from_slice(&(123456789i64 as u64).to_be_bytes());
    payload.extend_from_slice(&(987654321i64 as u64).to_be_bytes());
    payload.push(0);
    let expected = format!(
        "{}/{}",
        URL_SAFE_NO_PAD.encode(&payload),
        URL_SAFE_NO_PAD.encode(hmac_tag(secret, &payload))
    );
    assert_eq!(make_token(secret, 123456789, 987654321), expected);
}

#[test]
fn make_token_negative_ids_use_twos_complement() {
    let t = make_token(b"k", -1, 0);
    let payload_b64 = t.split('/').next().unwrap();
    let payload = URL_SAFE_NO_PAD.decode(payload_b64).unwrap();
    assert_eq!(payload.len(), 17);
    assert_eq!(&payload[0..8], &[0xff; 8]);
    assert_eq!(&payload[8..17], &[0u8; 9]);
}

#[test]
fn dl_and_watch_urls() {
    let t = make_token(b"s", 5, 7);
    assert_eq!(dl_url("https://tgfs.example.com", b"s", 5, 7), format!("https://tgfs.example.com/dl/{t}"));
    assert_eq!(watch_url("https://tgfs.example.com", b"s", 5, 7), format!("https://tgfs.example.com/wt/{t}"));
    assert_ne!(make_token(b"s", 5, 7), make_token(b"s2", 5, 7));
}

#[test]
fn detail_token_roundtrip_plgb() {
    let t = encode_token(b"access", Source::Plgb, OID);
    assert_eq!(decode_token(b"access", &t), Some((Source::Plgb, OID)));
}

#[test]
fn detail_token_roundtrip_tgfs() {
    let t = encode_token(b"access", Source::Tgfs { cluster_idx: 3 }, OID);
    assert_eq!(decode_token(b"access", &t), Some((Source::Tgfs { cluster_idx: 3 }, OID)));
}

fn mask_key(secret: &[u8]) -> Vec<u8> {
    let mut m = vec![0xffu8];
    m.extend_from_slice(&OID);
    hmac_tag(secret, &m)
}

#[test]
fn detail_token_layout() {
    let t = encode_token(b"access", Source::Tgfs { cluster_idx: 2 }, OID);
    let bytes = URL_SAFE_NO_PAD.decode(&t).unwrap();
    let k = mask_key(b"access");
    assert_eq!(bytes.len(), 46);
    assert_eq!(bytes[0], 1 ^ k[0]);
    assert_eq!(bytes[1], 2 ^ k[1]);
    assert_eq!(&bytes[2..14], &OID);
    let mut payload = vec![1u8, 2u8];
    payload.extend_from_slice(&OID);
    assert_eq!(&bytes[14..], hmac_tag(b"access", &payload).as_slice());
}

#[test]
fn detail_token_masks_source_bytes() {
    let k = mask_key(b"access");
    let plgb = URL_SAFE_NO_PAD.decode(encode_token(b"access", Source::Plgb, OID)).unwrap();
    assert_eq!(&plgb[..2], &k[..2]);
    let k2 = mask_key(b"another");
    let plgb2 = URL_SAFE_NO_PAD.decode(encode_token(b"another", Source::Plgb, OID)).unwrap();
    assert_eq!(&plgb2[..2], &k2[..2]);
    assert_ne!(&plgb[..2], &plgb2[..2]);
}

#[test]
fn detail_token_rejects_tampering() {
    let t = encode_token(b"access", Source::Plgb, OID);
    assert_eq!(decode_token(b"other-secret", &t), None);
    let mut bytes = URL_SAFE_NO_PAD.decode(&t).unwrap();
    bytes[5] ^= 1;
    let tampered = URL_SAFE_NO_PAD.encode(&bytes);
    assert_eq!(decode_token(b"access", &tampered), None);
    assert_eq!(decode_token(b"access", "not base64 !!"), None);
    assert_eq!(decode_token(b"access", ""), None);
    assert_eq!(decode_token(b"access", &t[..t.len() - 2]), None);
}

#[test]
fn detail_token_rejects_unknown_source() {
    let mut payload = vec![7u8, 0u8];
    payload.extend_from_slice(&OID);
    let k = mask_key(b"access");
    let mut bytes = vec![7u8 ^ k[0], k[1]];
    bytes.extend_from_slice(&OID);
    bytes.extend_from_slice(&hmac_tag(b"access", &payload));
    let t = URL_SAFE_NO_PAD.encode(&bytes);
    assert_eq!(decode_token(b"access", &t), None);
}

#[test]
fn entry_id_format_and_roundtrip() {
    let id = encode_entry_id(3, OID);
    assert_eq!(id, "3:650abcdef0123456789abcde");
    assert_eq!(decode_entry_id(&id), Some((3, OID)));
    assert_eq!(decode_entry_id("0:650ABCDEF0123456789ABCDE"), Some((0, OID)));
}

#[test]
fn entry_id_rejects_bad_input() {
    assert_eq!(decode_entry_id("650abcdef0123456789abcde"), None);
    assert_eq!(decode_entry_id("x:650abcdef0123456789abcde"), None);
    assert_eq!(decode_entry_id("-1:650abcdef0123456789abcde"), None);
    assert_eq!(decode_entry_id("1:650abcdef0123456789abcd"), None);
    assert_eq!(decode_entry_id("1:650abcdef0123456789abcdz"), None);
    assert_eq!(decode_entry_id("1:2:650abcdef0123456789abcde"), None);
}

#[test]
fn links_differ_per_owner_and_file() {
    assert_ne!(make_token(b"s", 5, 7), make_token(b"s", 7, 5));
    assert_ne!(make_token(b"s", 5, 7), make_token(b"s", 5, 8));
    assert_ne!(make_token(b"s", -1, 0), make_token(b"s", 0, -1));
    assert_ne!(dl_url("https://t", b"s", 1, 2), dl_url("https://t", b"s", 2, 1));
    assert_ne!(watch_url("https://t", b"s", 1, 2), watch_url("https://t", b"s", 1, 3));
}

//! The calls this library makes into other crates: hashing, MACs,
//! authenticated encryption, encodings, URL parsing, clocks and random
//! values.  Each is a trusted item; what its contract claims is written
//! above it.  Results that only the outside crate can compute are given a
//! name (an uninterpreted spec function of the arguments).
use vstd::prelude::*;
use sha2::Digest;
use hmac::Mac;
use aes_gcm::aead::{Aead, KeyInit};
use base64::Engine;
use rand::RngCore;

verus! {

// ---------------------------------------------------------------------------
// Hashes and MACs
// ---------------------------------------------------------------------------

/// The SHA-256 digest of a byte string (sha2).
pub uninterp spec fn sha256_digest(data: Seq<u8>) -> Seq<u8>;

/// The HMAC-SHA256 tag of `data` under `key` (hmac with sha2).
pub uninterp spec fn hmac_sha256_tag(key: Seq<u8>, data: Seq<u8>) -> Seq<u8>;

/// The MD5 digest of a byte string (md-5).
pub uninterp spec fn md5_digest(data: Seq<u8>) -> Seq<u8>;

/// Calls `sha2::Sha256::digest`.  Claims: the result is the named digest of
/// the input and is 32 bytes long (the output size of SHA-256).
#[verifier::external_body]
pub(crate) fn sha256(data: &[u8]) -> (r: Vec<u8>)
    ensures
        r@ == sha256_digest(data@),
        r@.len() == 32,
{
    sha2::Sha256::digest(data).to_vec()
}

/// Calls `Hmac::<Sha256>::new_from_slice`, `update` and `finalize`.  Claims:
/// the result is the named tag of the key and data, 32 bytes long.  The
/// `expect` never fires: HMAC accepts keys of every length (keys longer than
/// a block are hashed first).
#[verifier::external_body]
pub(crate) fn hmac_sha256(key: &[u8], data: &[u8]) -> (r: Vec<u8>)
    ensures
        r@ == hmac_sha256_tag(key@, data@),
        r@.len() == 32,
{
    let mut mac = <hmac::Hmac<sha2::Sha256> as Mac>::new_from_slice(key).expect(
        "HMAC accepts any key length",
    );
    mac.update(data);
    mac.finalize().into_bytes().to_vec()
}

/// Calls `md5::Md5::digest` (crate md-5).  Claims: the result is the named
/// digest of the input and is 16 bytes long.
#[verifier::external_body]
pub(crate) fn md5(data: &[u8]) -> (r: Vec<u8>)
    ensures
        r@ == md5_digest(data@),
        r@.len() == 16,
{
    md5::Md5::digest(data).to_vec()
}

// ---------------------------------------------------------------------------
// Base64 (standard alphabet, with padding)
// ---------------------------------------------------------------------------

/// The standard base64 encoding of a byte string.
pub uninterp spec fn base64_encoding(data: Seq<u8>) -> Seq<char>;

/// The standard base64 decoding of a string, `None` where it is not valid.
pub uninterp spec fn base64_decoding(text: Seq<char>) -> Option<Seq<u8>>;

/// Calls `base64::engine::general_purpose::STANDARD.encode`.  Claims: the
/// result is the named encoding of the input.
#[verifier::external_body]
pub(crate) fn base64_encode(data: &[u8]) -> (r: String)
    ensures
        r@ == base64_encoding(data@),
{
    base64::engine::general_purpose::STANDARD.encode(data)
}

/// Calls `base64::engine::general_purpose::STANDARD.decode`.  Claims: the
/// result is the named decoding of the input (`None` for an error);
/// decoding what the same engine encoded gives back the encoded bytes; and,
/// as the engine accepts only canonical padded input, bytes that decode
/// successfully encode back to the same text.
#[verifier::external_body]
pub(crate) fn base64_decode(text: &str) -> (r: Option<Vec<u8>>)
    ensures
        match r {
            Some(b) => base64_decoding(text@) == Some(b@),
            None => base64_decoding(text@) is None,
        },
        r is None ==> forall|b: Seq<u8>| #[trigger] base64_encoding(b) != text@,
        r matches Some(x) ==> forall|b: Seq<u8>| #[trigger] base64_encoding(b) == text@ ==> x@ == b,
        r matches Some(x) ==> base64_encoding(x@) == text@,
{
    base64::engine::general_purpose::STANDARD.decode(text).ok()
}

// ---------------------------------------------------------------------------
// AES-256-GCM
// ---------------------------------------------------------------------------

/// The largest plaintext AES-GCM accepts, in bytes (aes-gcm's `P_MAX`).
pub open spec fn aes_gcm_max_plaintext() -> int {
    0x10_0000_0000
}

/// The AES-256-GCM ciphertext (with its 16-byte tag appended) of a plaintext
/// under a key and a 12-byte nonce, with no associated data.
pub uninterp spec fn aes256gcm_seal(key: Seq<u8>, nonce: Seq<u8>, plaintext: Seq<u8>) -> Seq<u8>;

/// The AES-256-GCM decryption of a ciphertext under a key and nonce, `None`
/// where the tag does not verify.
pub uninterp spec fn aes256gcm_open(key: Seq<u8>, nonce: Seq<u8>, ciphertext: Seq<u8>) -> Option<Seq<u8>>;

/// Calls `Aes256Gcm::new_from_slice` and `Aead::encrypt`.  Claims: encryption
/// fails exactly when the plaintext is longer than aes-gcm's `P_MAX`, and
/// otherwise gives the named ciphertext: the encrypted plaintext followed by
/// the 16-byte tag, so 16 bytes longer than the plaintext.  The key is 32 bytes, so the cipher
/// is always created; `Nonce::from_slice` needs the 12-byte nonce required here.
#[verifier::external_body]
pub(crate) fn aes256gcm_encrypt(key: &[u8; 32], nonce: &[u8], plaintext: &[u8]) -> (r: Option<Vec<u8>>)
    requires
        nonce@.len() == 12,
    ensures
        r is None <==> plaintext@.len() > aes_gcm_max_plaintext(),
        r matches Some(c) ==> c@ == aes256gcm_seal(key@, nonce@, plaintext@),
        r matches Some(c) ==> c@.len() == plaintext@.len() + 16,
{
    let cipher = aes_gcm::Aes256Gcm::new_from_slice(key).ok()?;
    cipher.encrypt(aes_gcm::Nonce::from_slice(nonce), plaintext).ok()
}

/// Calls `Aes256Gcm::new_from_slice` and `Aead::decrypt`.  Claims: the result
/// is the named decryption (`None` for an error), and a ciphertext that the
/// same key and nonce sealed from a plaintext opens to that plaintext.
#[verifier::external_body]
pub(crate) fn aes256gcm_decrypt(key: &[u8; 32], nonce: &[u8], ciphertext: &[u8]) -> (r: Option<Vec<u8>>)
    requires
        nonce@.len() == 12,
    ensures
        match r {
            Some(p) => aes256gcm_open(key@, nonce@, ciphertext@) == Some(p@),
            None => aes256gcm_open(key@, nonce@, ciphertext@) is None,
        },
        r is None ==> forall|p: Seq<u8>|
            p.len() <= aes_gcm_max_plaintext() ==> #[trigger] aes256gcm_seal(key@, nonce@, p)
                != ciphertext@,
        r matches Some(x) ==> forall|p: Seq<u8>|
            p.len() <= aes_gcm_max_plaintext() && #[trigger] aes256gcm_seal(key@, nonce@, p)
                == ciphertext@ ==> x@ == p,
{
    let cipher = aes_gcm::Aes256Gcm::new_from_slice(key).ok()?;
    cipher.decrypt(aes_gcm::Nonce::from_slice(nonce), ciphertext).ok()
}

/// Calls `rand::thread_rng().fill_bytes` on 12 bytes.  Nothing is claimed of
/// the bytes: they are random.
#[verifier::external_body]
pub(crate) fn random_nonce() -> (r: [u8; 12]) {
    let mut arr = [0u8; 12];
    rand::thread_rng().fill_bytes(&mut arr);
    arr
}

// ---------------------------------------------------------------------------
// Clocks and identifiers
// ---------------------------------------------------------------------------

/// Calls `chrono::Utc::now().timestamp()`.  Nothing is claimed: it is the time.
#[verifier::external_body]
pub(crate) fn now_timestamp() -> (r: i64) {
    chrono::Utc::now().timestamp()
}

/// Calls `chrono::Utc::now().format("%Y%m%dT%H%M%SZ")`.  Nothing is claimed:
/// it is the time.
#[verifier::external_body]
pub(crate) fn now_amz_date() -> (r: String) {
    chrono::Utc::now().format("%Y%m%dT%H%M%SZ").to_string()
}

/// Calls `chrono::Utc::now().to_rfc3339()`.  Nothing is claimed: it is the time.
#[verifier::external_body]
pub(crate) fn now_rfc3339() -> (r: String) {
    chrono::Utc::now().to_rfc3339()
}

/// The UNIX timestamp of a date written as `%Y%m%dT%H%M%SZ` (read as UTC),
/// `None` where chrono does not parse it.
pub uninterp spec fn amz_date_timestamp(text: Seq<char>) -> Option<i64>;

/// Calls `chrono::NaiveDateTime::parse_from_str(text, "%Y%m%dT%H%M%SZ")` and
/// takes the UTC timestamp of the result.  Claims: the result is the named
/// timestamp of the text.
#[verifier::external_body]
pub(crate) fn parse_amz_date(text: &str) -> (r: Option<i64>)
    ensures
        r == amz_date_timestamp(text@),
{
    chrono::NaiveDateTime::parse_from_str(text, "%Y%m%dT%H%M%SZ").ok().map(|d| d.and_utc().timestamp())
}

/// Calls `uuid::Uuid::new_v4().to_string()`.  Nothing is claimed: it is random.
#[verifier::external_body]
pub(crate) fn new_uuid() -> (r: String) {
    uuid::Uuid::new_v4().to_string()
}

// ---------------------------------------------------------------------------
// URLs
// ---------------------------------------------------------------------------

/// The path of a URL and its decoded query pairs, as `url::Url::parse`,
/// `Url::path` and `Url::query_pairs` give them; `None` where it does not parse.
pub uninterp spec fn url_path_and_pairs(uri: Seq<char>) -> Option<(Seq<char>, Seq<(Seq<char>, Seq<char>)>)>;

/// The views of a list of string pairs.
pub open spec fn pair_views(pairs: Seq<(String, String)>) -> Seq<(Seq<char>, Seq<char>)> {
    pairs.map_values(|kv: (String, String)| (kv.0@, kv.1@))
}

/// Calls `url::Url::parse`, then `path` and `query_pairs` on the result.
/// Claims: the result is the named path and pairs of the text.
#[verifier::external_body]
pub(crate) fn parse_url(uri: &str) -> (r: Option<(String, Vec<(String, String)>)>)
    ensures
        match r {
            Some(pq) => url_path_and_pairs(uri@) == Some((pq.0@, pair_views(pq.1@))),
            None => url_path_and_pairs(uri@) is None,
        },
{
    let parsed = url::Url::parse(uri).ok()?;
    let pairs = parsed.query_pairs().map(|(k, v)| (k.into_owned(), v.into_owned())).collect();
    Some((parsed.path().to_string(), pairs))
}

/// The percent-decoding of a string, `None` where the decoded bytes are not UTF-8.
pub uninterp spec fn percent_decoding(text: Seq<char>) -> Option<Seq<char>>;

/// Calls `urlencoding::decode`.  Claims: the result is the named decoding
/// (`None` for an error).
#[verifier::external_body]
pub(crate) fn percent_decode(text: &str) -> (r: Option<String>)
    ensures
        match r {
            Some(s) => percent_decoding(text@) == Some(s@),
            None => percent_decoding(text@) is None,
        },
{
    urlencoding::decode(text).ok().map(|c| c.into_owned())
}

} // verus!

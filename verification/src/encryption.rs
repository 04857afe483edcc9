//! Server-side encryption of object data with AES-256-GCM, under the
//! server's master key (SSE-S3) or a key the customer sends (SSE-C).
//!
//! Each encryption draws a fresh random 12-byte nonce, stored base64-encoded
//! with the object, together with an HMAC of the key that lets a later
//! request be checked for using the same key without storing the key.
use vstd::prelude::*;
use vstd::utf8::encode_utf8;
use crate::error::Error;
use crate::outside::{
    aes256gcm_decrypt, aes256gcm_encrypt, aes256gcm_open, aes256gcm_seal, aes_gcm_max_plaintext,
    base64_decode, base64_decoding, base64_encode, base64_encoding, hmac_sha256, hmac_sha256_tag,
    random_nonce,
};
use crate::sigv4::utf8_bytes;
use crate::text::{chars_eq, chars_of, decimal, push_chars, push_decimal, push_str};

verus! {

/// Length of an AES-256 key in bytes.
pub const KEY_LEN: usize = 32;

/// Length of a GCM nonce in bytes.
pub const NONCE_LEN: usize = 12;

/// How an object was encrypted, as recorded with it.
pub struct EncryptionInfo {
    /// `SSE-S3` (the master key) or `SSE-C` (a customer key).
    pub mode: String,
    /// The base64-encoded nonce.
    pub iv: String,
    /// The base64-encoded HMAC of the key, to recognise the key later.
    pub key_hmac: String,
}

/// The key-verification HMAC of a key, base64-encoded.
pub open spec fn key_hmac_text(key: Seq<u8>) -> Seq<char> {
    base64_encoding(hmac_sha256_tag(encode_utf8("objstor-key-verification"@), key))
}

/// Computes the key-verification HMAC of a key.
pub fn compute_key_hmac(key: &[u8; KEY_LEN]) -> (r: String)
    ensures
        r@ == key_hmac_text(key@),
{
    let label = utf8_bytes("objstor-key-verification");
    let tag = hmac_sha256(label.as_slice(), key);
    base64_encode(tag.as_slice())
}

fn error_text(t: &str) -> (r: String)
    ensures
        r@ == t@,
{
    let mut s = String::new();
    push_str(&mut s, t);
    s
}

/// Checks that a key is the one whose HMAC was stored.
///
/// Fails with `DecryptionError` when it is not.
pub fn verify_key_hmac(key: &[u8; KEY_LEN], stored_hmac: &str) -> (r: Result<(), Error>)
    ensures
        r is Ok <==> key_hmac_text(key@) == stored_hmac@,
        r is Err ==> (r matches Err(Error::DecryptionError(m)) && m@ == "Key verification failed — wrong encryption key"@),
{
    let computed = compute_key_hmac(key);
    if chars_eq(chars_of(computed.as_str()).as_slice(), chars_of(stored_hmac).as_slice()) {
        Ok(())
    } else {
        Err(Error::DecryptionError(error_text("Key verification failed — wrong encryption key")))
    }
}

/// Whether `(ciphertext, info)` is an encryption of `plaintext` under `key`
/// in mode `mode`: with some 12-byte nonce recorded base64-encoded in
/// `info`, and with the key's HMAC recorded too.
pub open spec fn encrypts(ciphertext: Seq<u8>, info: EncryptionInfo, plaintext: Seq<u8>, key: Seq<u8>, mode: Seq<char>) -> bool {
    &&& info.mode@ == mode
    &&& info.key_hmac@ == key_hmac_text(key)
    &&& exists|nonce: Seq<u8>| #![trigger aes256gcm_seal(key, nonce, plaintext)]
        nonce.len() == 12 && info.iv@ == base64_encoding(nonce) && ciphertext == aes256gcm_seal(key, nonce, plaintext)
}

/// Encrypts `plaintext` under `key` with a fresh random nonce.
///
/// Fails with `InternalError` only for plaintexts longer than AES-GCM accepts.
pub fn encrypt_data(plaintext: &[u8], key: &[u8; KEY_LEN], mode: &str) -> (r: Result<(Vec<u8>, EncryptionInfo), Error>)
    ensures
        r is Err <==> plaintext@.len() > aes_gcm_max_plaintext(),
        r matches Err(e) ==> e matches Error::InternalError(m) && m@ == "Encryption failed"@,
        r matches Ok(ci) ==> encrypts(ci.0@, ci.1, plaintext@, key@, mode@),
        r matches Ok(ci) ==> ci.0@.len() == plaintext@.len() + 16,
{
    let nonce = random_nonce();
    let ciphertext = match aes256gcm_encrypt(key, &nonce, plaintext) {
        Some(c) => c,
        None => return Err(Error::InternalError(error_text("Encryption failed"))),
    };
    let iv = base64_encode(&nonce);
    let key_hmac = compute_key_hmac(key);
    let info = EncryptionInfo { mode: error_text(mode), iv, key_hmac };
    assert(nonce@.len() == 12 && info.iv@ == base64_encoding(nonce@) && ciphertext@ == aes256gcm_seal(key@, nonce@, plaintext@));
    Ok((ciphertext, info))
}

/// What decrypting `ciphertext` under `key` with the nonce recorded as
/// `iv` gives: the plaintext, or the reason it fails.
pub open spec fn decrypt_outcome(ciphertext: Seq<u8>, key: Seq<u8>, iv: Seq<char>) -> Result<Seq<u8>, Seq<char>> {
    match base64_decoding(iv) {
        None => Err("Failed to decode IV"@),
        Some(nonce) => if nonce.len() != 12 {
            Err("Invalid IV length"@)
        } else {
            match aes256gcm_open(key, nonce, ciphertext) {
                Some(p) => Ok(p),
                None => Err("Decryption failed — wrong key or corrupted data"@),
            }
        },
    }
}

/// Whether a decryption answer matches the outcome: decoding problems are
/// internal errors, a failed tag check is a decryption error.
pub open spec fn decrypt_answers(r: Result<Vec<u8>, Error>, o: Result<Seq<u8>, Seq<char>>) -> bool {
    match o {
        Ok(p) => r matches Ok(v) && v@ == p,
        Err(m) => if m == "Decryption failed — wrong key or corrupted data"@ {
            r matches Err(Error::DecryptionError(e)) && e@ == m
        } else {
            r matches Err(Error::InternalError(e)) && e@ == m
        },
    }
}

/// The key an object was encrypted under passes the key check against what
/// was recorded with it: `verify_key_hmac(key, info.key_hmac)` succeeds for
/// every `info` that an encryption under `key` produced.
pub proof fn law_encryption_key_passes_its_check(ciphertext: Seq<u8>, info: EncryptionInfo, plaintext: Seq<u8>, key: Seq<u8>, mode: Seq<char>)
    requires
        encrypts(ciphertext, info, plaintext, key, mode),
    ensures
        key_hmac_text(key) == info.key_hmac@,
{
}

/// Decrypts `ciphertext` under `key` with the nonce recorded as `iv_b64`.
///
/// What `encrypt_data` produced under the same key decrypts back to the
/// plaintext it was given.
pub fn decrypt_data(ciphertext: &[u8], key: &[u8; KEY_LEN], iv_b64: &str) -> (r: Result<Vec<u8>, Error>)
    ensures
        decrypt_answers(r, decrypt_outcome(ciphertext@, key@, iv_b64@)),
        forall|info: EncryptionInfo, p: Seq<u8>, mode: Seq<char>|
            info.iv@ == iv_b64@ && p.len() <= aes_gcm_max_plaintext() && #[trigger] encrypts(ciphertext@, info, p, key@, mode)
                ==> (r matches Ok(v) && v@ == p),
{
    proof {
        reveal_strlit("Failed to decode IV");
        reveal_strlit("Invalid IV length");
        reveal_strlit("Decryption failed — wrong key or corrupted data");
        assert("Failed to decode IV"@.len() != "Decryption failed — wrong key or corrupted data"@.len());
        assert("Invalid IV length"@.len() != "Decryption failed — wrong key or corrupted data"@.len());
    }
    let nonce = match base64_decode(iv_b64) {
        Some(n) => n,
        None => return Err(Error::InternalError(error_text("Failed to decode IV"))),
    };
    if nonce.len() != NONCE_LEN {
        proof {
            assert forall|info: EncryptionInfo, p: Seq<u8>, mode: Seq<char>|
                info.iv@ == iv_b64@ && p.len() <= aes_gcm_max_plaintext() && #[trigger] encrypts(ciphertext@, info, p, key@, mode)
                    implies false by {
                let n = choose|n: Seq<u8>| #![trigger aes256gcm_seal(key@, n, p)]
                    n.len() == 12 && info.iv@ == base64_encoding(n) && ciphertext@ == aes256gcm_seal(key@, n, p);
                assert(base64_encoding(n) == iv_b64@);
            }
        }
        return Err(Error::InternalError(error_text("Invalid IV length")));
    }
    match aes256gcm_decrypt(key, nonce.as_slice(), ciphertext) {
        Some(p) => {
            proof {
                assert forall|info: EncryptionInfo, q: Seq<u8>, mode: Seq<char>|
                    info.iv@ == iv_b64@ && q.len() <= aes_gcm_max_plaintext() && #[trigger] encrypts(ciphertext@, info, q, key@, mode)
                        implies p@ == q by {
                    let n = choose|n: Seq<u8>| #![trigger aes256gcm_seal(key@, n, q)]
                        n.len() == 12 && info.iv@ == base64_encoding(n) && ciphertext@ == aes256gcm_seal(key@, n, q);
                    assert(base64_encoding(n) == iv_b64@);
                    assert(n == nonce@);
                    assert(aes256gcm_seal(key@, nonce@, q) == ciphertext@);
                }
            }
            Ok(p)
        },
        None => {
            proof {
                assert forall|info: EncryptionInfo, q: Seq<u8>, mode: Seq<char>|
                    info.iv@ == iv_b64@ && q.len() <= aes_gcm_max_plaintext() && #[trigger] encrypts(ciphertext@, info, q, key@, mode)
                        implies false by {
                    let n = choose|n: Seq<u8>| #![trigger aes256gcm_seal(key@, n, q)]
                        n.len() == 12 && info.iv@ == base64_encoding(n) && ciphertext@ == aes256gcm_seal(key@, n, q);
                    assert(base64_encoding(n) == iv_b64@);
                    assert(n == nonce@);
                    assert(aes256gcm_seal(key@, nonce@, q) == ciphertext@);
                }
            }
            Err(Error::DecryptionError(error_text("Decryption failed — wrong key or corrupted data")))
        },
    }
}

/// Holds the server's 256-bit master key.
pub struct MasterKeyManager {
    master_key: [u8; KEY_LEN],
}

impl MasterKeyManager {
    /// The master key.
    pub closed spec fn key(&self) -> Seq<u8> {
        self.master_key@
    }

    /// A manager for the given master key.
    pub fn from_key(key: [u8; KEY_LEN]) -> (r: Self)
        ensures
            r.key() == key@,
    {
        MasterKeyManager { master_key: key }
    }

    /// A manager for the master key read from a key file.
    ///
    /// Fails with `InternalError` when the file does not hold exactly 32 bytes.
    pub fn from_key_file_bytes(bytes: &[u8]) -> (r: Result<Self, Error>)
        ensures
            bytes@.len() == KEY_LEN ==> (r matches Ok(m) && m.key() == bytes@),
            bytes@.len() != KEY_LEN ==> (r matches Err(Error::InternalError(e)) && e@ == "Master key file has wrong length"@),
    {
        if bytes.len() != KEY_LEN {
            return Err(Error::InternalError(error_text("Master key file has wrong length")));
        }
        let mut arr = [0u8; KEY_LEN];
        for i in 0..KEY_LEN
            invariant
                bytes@.len() == KEY_LEN,
                arr@.len() == KEY_LEN,
                forall|k: int| 0 <= k < i ==> arr@[k] == bytes@[k],
        {
            arr[i] = bytes[i];
        }
        assert(arr@ =~= bytes@);
        Ok(MasterKeyManager { master_key: arr })
    }

    /// Encrypts data under the master key (SSE-S3).
    pub fn encrypt_sse_s3(&self, plaintext: &[u8]) -> (r: Result<(Vec<u8>, EncryptionInfo), Error>)
        ensures
            r is Err <==> plaintext@.len() > aes_gcm_max_plaintext(),
            r matches Ok(ci) ==> encrypts(ci.0@, ci.1, plaintext@, self.key(), "SSE-S3"@),
            r matches Ok(ci) ==> ci.0@.len() == plaintext@.len() + 16,
    {
        encrypt_data(plaintext, &self.master_key, "SSE-S3")
    }

    /// Encrypts data under a customer-provided key (SSE-C).
    pub fn encrypt_sse_c(&self, plaintext: &[u8], customer_key: &[u8; KEY_LEN]) -> (r: Result<(Vec<u8>, EncryptionInfo), Error>)
        ensures
            r is Err <==> plaintext@.len() > aes_gcm_max_plaintext(),
            r matches Ok(ci) ==> encrypts(ci.0@, ci.1, plaintext@, customer_key@, "SSE-C"@),
            r matches Ok(ci) ==> ci.0@.len() == plaintext@.len() + 16,
    {
        encrypt_data(plaintext, customer_key, "SSE-C")
    }

    /// Decrypts data encrypted under the master key, after checking that the
    /// recorded key HMAC is the master key's.
    ///
    /// Data that `encrypt_sse_s3` encrypted decrypts back to the plaintext.
    pub fn decrypt_sse_s3(&self, ciphertext: &[u8], info: &EncryptionInfo) -> (r: Result<Vec<u8>, Error>)
        ensures
            key_hmac_text(self.key()) != info.key_hmac@ ==> (r matches Err(Error::DecryptionError(m))
                && m@ == "Key verification failed — wrong encryption key"@),
            key_hmac_text(self.key()) == info.key_hmac@ ==> decrypt_answers(r, decrypt_outcome(ciphertext@, self.key(), info.iv@)),
            forall|p: Seq<u8>, mode: Seq<char>|
                p.len() <= aes_gcm_max_plaintext() && #[trigger] encrypts(ciphertext@, *info, p, self.key(), mode)
                    ==> (r matches Ok(v) && v@ == p),
    {
        match verify_key_hmac(&self.master_key, info.key_hmac.as_str()) {
            Ok(()) => {},
            Err(e) => return Err(e),
        }
        decrypt_data(ciphertext, &self.master_key, info.iv.as_str())
    }

    /// Decrypts data encrypted under a customer key, after checking that the
    /// recorded key HMAC is that key's.
    ///
    /// Data that `encrypt_sse_c` encrypted under the same key decrypts back
    /// to the plaintext.
    pub fn decrypt_sse_c(&self, ciphertext: &[u8], info: &EncryptionInfo, customer_key: &[u8; KEY_LEN]) -> (r: Result<Vec<u8>, Error>)
        ensures
            key_hmac_text(customer_key@) != info.key_hmac@ ==> (r matches Err(Error::DecryptionError(m))
                && m@ == "Key verification failed — wrong encryption key"@),
            key_hmac_text(customer_key@) == info.key_hmac@ ==> decrypt_answers(r, decrypt_outcome(ciphertext@, customer_key@, info.iv@)),
            forall|p: Seq<u8>, mode: Seq<char>|
                p.len() <= aes_gcm_max_plaintext() && #[trigger] encrypts(ciphertext@, *info, p, customer_key@, mode)
                    ==> (r matches Ok(v) && v@ == p),
    {
        match verify_key_hmac(customer_key, info.key_hmac.as_str()) {
            Ok(()) => {},
            Err(e) => return Err(e),
        }
        decrypt_data(ciphertext, customer_key, info.iv.as_str())
    }

    /// A copy of the master key bytes (to sign pre-signed URLs).
    pub fn get_key_bytes(&self) -> (r: [u8; KEY_LEN])
        ensures
            r@ == self.key(),
    {
        self.master_key
    }
}

/// What decoding an SSE-C key header gives: the 32-byte key, or the message
/// of the `InvalidHeaderValue` error.
pub open spec fn sse_c_key_outcome(key_b64: Seq<char>) -> Result<Seq<u8>, Seq<char>> {
    match base64_decoding(key_b64) {
        None => Err("Invalid base64 SSE-C key"@),
        Some(b) => if b.len() != 32 {
            Err("SSE-C key must be "@ + decimal(32) + " bytes, got "@ + decimal(b.len()))
        } else {
            Ok(b)
        },
    }
}

/// Decodes a base64-encoded SSE-C customer key from its header.
///
/// Fails with `InvalidHeaderValue` when it is not base64 or not 32 bytes.
pub fn decode_sse_c_key(key_b64: &str) -> (r: Result<[u8; KEY_LEN], Error>)
    ensures
        match sse_c_key_outcome(key_b64@) {
            Ok(k) => r matches Ok(a) && a@ == k,
            Err(m) => r matches Err(Error::InvalidHeaderValue(e)) && e@ == m,
        },
        r is Ok <==> exists|k: Seq<u8>| k.len() == 32 && #[trigger] base64_encoding(k) == key_b64@,
        r matches Ok(a) ==> base64_encoding(a@) == key_b64@,
{
    let bytes = match base64_decode(key_b64) {
        Some(b) => b,
        None => return Err(Error::InvalidHeaderValue(error_text("Invalid base64 SSE-C key"))),
    };
    if bytes.len() != KEY_LEN {
        let mut m = String::new();
        push_str(&mut m, "SSE-C key must be ");
        let mut d: Vec<char> = Vec::new();
        push_decimal(&mut d, KEY_LEN as u64);
        push_chars(&mut m, d.as_slice());
        push_str(&mut m, " bytes, got ");
        let mut d2: Vec<char> = Vec::new();
        push_decimal(&mut d2, bytes.len() as u64);
        push_chars(&mut m, d2.as_slice());
        return Err(Error::InvalidHeaderValue(m));
    }
    let mut arr = [0u8; KEY_LEN];
    for i in 0..KEY_LEN
        invariant
            bytes@.len() == KEY_LEN,
            arr@.len() == KEY_LEN,
            forall|k: int| 0 <= k < i ==> arr@[k] == bytes@[k],
    {
        arr[i] = bytes[i];
    }
    assert(arr@ =~= bytes@);
    Ok(arr)
}

} // verus!

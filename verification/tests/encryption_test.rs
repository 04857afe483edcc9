use objstor::s3_object::{decrypt_stored, encrypt_for_put, SseType};
use objstor::encryption::{compute_key_hmac, decode_sse_c_key, decrypt_data, encrypt_data, verify_key_hmac, MasterKeyManager};
use objstor::error::Error;

#[test]
fn test_encrypt_decrypt_roundtrip() {
    let key = [0x42u8; 32];
    let plaintext = b"hello, world!";
    let (ciphertext, info) = encrypt_data(plaintext, &key, "SSE-S3").unwrap();
    assert_ne!(ciphertext, plaintext.to_vec());
    let decrypted = decrypt_data(&ciphertext, &key, &info.iv).unwrap();
    assert_eq!(decrypted, plaintext);
}

#[test]
fn test_wrong_key_fails() {
    let key = [0x42u8; 32];
    let wrong_key = [0x43u8; 32];
    let plaintext = b"secret";
    let (ciphertext, info) = encrypt_data(plaintext, &key, "SSE-S3").unwrap();
    assert!(decrypt_data(&ciphertext, &wrong_key, &info.iv).is_err());
}

#[test]
fn test_key_hmac_verification() {
    let key = [0xABu8; 32];
    let hmac = compute_key_hmac(&key);
    assert!(verify_key_hmac(&key, &hmac).is_ok());
    let wrong_key = [0xCDu8; 32];
    assert!(verify_key_hmac(&wrong_key, &hmac).is_err());
}

#[test]
fn encryption_info_records_mode_and_key() {
    let key = [7u8; 32];
    let (ciphertext, info) = encrypt_data(b"abc", &key, "SSE-C").unwrap();
    assert_eq!(info.mode, "SSE-C");
    assert_eq!(info.key_hmac, compute_key_hmac(&key));
    // AES-GCM adds a 16-byte tag; the nonce is 12 bytes, 16 characters of base64.
    assert_eq!(ciphertext.len(), 3 + 16);
    assert_eq!(info.iv.len(), 16);
}

#[test]
fn two_encryptions_use_different_nonces() {
    let key = [9u8; 32];
    let (c1, i1) = encrypt_data(b"same", &key, "SSE-S3").unwrap();
    let (c2, i2) = encrypt_data(b"same", &key, "SSE-S3").unwrap();
    assert_ne!(i1.iv, i2.iv);
    assert_ne!(c1, c2);
}

#[test]
fn decrypt_with_bad_iv_is_refused() {
    let key = [1u8; 32];
    let (c, _) = encrypt_data(b"data", &key, "SSE-S3").unwrap();
    match decrypt_data(&c, &key, "not base64!!") {
        Err(Error::InternalError(m)) => assert_eq!(m, "Failed to decode IV"),
        other => panic!("unexpected: {:?}", other.is_ok()),
    }
    // "AAAA" decodes to 3 bytes: not a 12-byte nonce.
    match decrypt_data(&c, &key, "AAAA") {
        Err(Error::InternalError(m)) => assert_eq!(m, "Invalid IV length"),
        other => panic!("unexpected: {:?}", other.is_ok()),
    }
}

#[test]
fn master_key_round_trip_and_wrong_key_refused() {
    let km = MasterKeyManager::from_key([3u8; 32]);
    let (c, info) = km.encrypt_sse_s3(b"payload").unwrap();
    assert_eq!(km.decrypt_sse_s3(&c, &info).unwrap(), b"payload".to_vec());
    let other = MasterKeyManager::from_key([4u8; 32]);
    match other.decrypt_sse_s3(&c, &info) {
        Err(Error::DecryptionError(m)) => assert_eq!(m, "Key verification failed \u{2014} wrong encryption key"),
        _ => panic!("expected a key verification failure"),
    }
}

#[test]
fn customer_key_round_trip() {
    let km = MasterKeyManager::from_key([3u8; 32]);
    let ck = [0x55u8; 32];
    let (c, info) = km.encrypt_sse_c(b"customer data", &ck).unwrap();
    assert_eq!(info.mode, "SSE-C");
    assert_eq!(km.decrypt_sse_c(&c, &info, &ck).unwrap(), b"customer data".to_vec());
    assert!(km.decrypt_sse_c(&c, &info, &[0x56u8; 32]).is_err());
}

#[test]
fn key_bytes_are_the_master_key() {
    let km = MasterKeyManager::from_key([0x11u8; 32]);
    assert_eq!(km.get_key_bytes(), [0x11u8; 32]);
}

#[test]
fn key_file_must_hold_32_bytes() {
    assert!(MasterKeyManager::from_key_file_bytes(&[1u8; 32]).is_ok());
    assert!(MasterKeyManager::from_key_file_bytes(&[1u8; 31]).is_err());
}

#[test]
fn sse_c_key_header_is_decoded() {
    // 32 bytes of 0x00 in base64.
    let k = decode_sse_c_key("AAAAAAAAAAAAAAAAAAAAAAAAAAAAAAAAAAAAAAAAAAA=").unwrap();
    assert_eq!(k, [0u8; 32]);
    match decode_sse_c_key("!!!") {
        Err(Error::InvalidHeaderValue(m)) => assert_eq!(m, "Invalid base64 SSE-C key"),
        _ => panic!("expected invalid base64"),
    }
    match decode_sse_c_key("AAAA") {
        Err(Error::InvalidHeaderValue(m)) => assert_eq!(m, "SSE-C key must be 32 bytes, got 3"),
        _ => panic!("expected wrong length"),
    }
}

#[test]
fn key_hmac_is_the_base64_hmac_of_the_key() {
    assert_eq!(compute_key_hmac(&[0xABu8; 32]), "mWbI0an8OuOd46mtXYZ/GueBE2yQe/7fxpu29slcZp0=");
}

#[test]
fn stored_data_reads_back() {
    let km = MasterKeyManager::from_key([8u8; 32]);
    let (plain, none) = encrypt_for_put(&km, b"as is", &SseType::Unencrypted).unwrap();
    assert_eq!(plain, b"as is".to_vec());
    assert!(none.is_none());
    let (c, info) = encrypt_for_put(&km, b"secret body", &SseType::SseS3).unwrap();
    let info = info.unwrap();
    assert_eq!(info.mode, "SSE-S3");
    assert_eq!(decrypt_stored(&km, c, &info, None).unwrap(), b"secret body".to_vec());
    let key_b64 = "AAAAAAAAAAAAAAAAAAAAAAAAAAAAAAAAAAAAAAAAAAA=";
    let (c, info) = encrypt_for_put(&km, b"customer", &SseType::SseC(key_b64.to_string())).unwrap();
    let info = info.unwrap();
    assert_eq!(decrypt_stored(&km, c.clone(), &info, Some(key_b64)).unwrap(), b"customer".to_vec());
    match decrypt_stored(&km, c.clone(), &info, None) {
        Err(Error::MissingHeader(h)) => assert_eq!(h, "x-amz-server-side-encryption-customer-key"),
        _ => panic!("expected a missing key header"),
    }
    assert!(matches!(decrypt_stored(&km, c, &info, Some("AAAA")), Err(Error::InvalidHeaderValue(_))));
    assert!(matches!(
        encrypt_for_put(&km, b"x", &SseType::SseC("???".to_string())),
        Err(Error::InvalidHeaderValue(_))
    ));
    let other = objstor::encryption::EncryptionInfo { mode: "none".to_string(), iv: String::new(), key_hmac: String::new() };
    assert_eq!(decrypt_stored(&km, vec![1, 2, 3], &other, None).unwrap(), vec![1, 2, 3]);
}

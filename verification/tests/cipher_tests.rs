use aes_gcm::aead::Aead;
use aes_gcm::KeyInit;
use base64::Engine;
use kavimo::cipher::decrypt_m3u8;
use kavimo::errors::DownloadError;
use sha2::Sha256;

// Builds a blob exactly the way the endpoint does: PBKDF2 of the secret
// plus a suffix, then AES-256-GCM, then the four dash-joined hex fields,
// base64 over the whole.
fn make_blob(msgn: &str, first_part: &str, salt: &[u8], nonce: &[u8], plaintext: &[u8]) -> (String, Vec<u8>) {
    let secret = format!("{}{}", msgn, first_part);
    let mut key = [0u8; 32];
    pbkdf2::pbkdf2_hmac::<Sha256>(secret.as_bytes(), salt, 1000, &mut key);
    let cipher = aes_gcm::Aes256Gcm::new_from_slice(&key).unwrap();
    let ct = cipher
        .encrypt(aes_gcm::Nonce::from_slice(nonce), plaintext)
        .unwrap();
    let joined = format!(
        "{}-{}-{}-{}",
        first_part,
        hex::encode(salt),
        hex::encode(nonce),
        hex::encode(&ct)
    );
    (base64::engine::general_purpose::STANDARD.encode(joined), ct)
}

#[test]
fn decrypt_round_trip() {
    let salt = [7u8; 16];
    let nonce = [9u8; 12];
    let plaintext = b"#EXTM3U\nhttps://host/seg0.ts\n";
    let (blob, _) = make_blob("per-video-secret", "suffix", &salt, &nonce, plaintext);
    let out = decrypt_m3u8("per-video-secret", &blob).unwrap();
    assert_eq!(out.as_bytes(), plaintext);
}

#[test]
fn decrypt_rejects_every_single_byte_flip() {
    let salt = [3u8; 16];
    let nonce = [1u8; 12];
    let plaintext = b"some manifest body";
    let msgn = "s3cr3t";
    let first = "fp";
    let secret = format!("{}{}", msgn, first);
    let mut key = [0u8; 32];
    pbkdf2::pbkdf2_hmac::<Sha256>(secret.as_bytes(), &salt, 1000, &mut key);
    let cipher = aes_gcm::Aes256Gcm::new_from_slice(&key).unwrap();
    let ct = cipher
        .encrypt(aes_gcm::Nonce::from_slice(&nonce), plaintext.as_ref())
        .unwrap();
    // flip each byte of the ciphertext-and-tag in turn
    for i in 0..ct.len() {
        let mut tampered = ct.clone();
        tampered[i] ^= 1;
        let joined = format!(
            "{}-{}-{}-{}",
            first,
            hex::encode(salt),
            hex::encode(nonce),
            hex::encode(&tampered)
        );
        let blob = base64::engine::general_purpose::STANDARD.encode(joined);
        assert_eq!(
            decrypt_m3u8(msgn, &blob).unwrap_err(),
            DownloadError::AuthenticationFailed,
            "flip at byte {} must be rejected",
            i
        );
    }
}

#[test]
fn decrypt_rejects_wrong_secret() {
    let salt = [7u8; 16];
    let nonce = [9u8; 12];
    let (blob, _) = make_blob("right-secret", "x", &salt, &nonce, b"body");
    assert_eq!(
        decrypt_m3u8("wrong-secret", &blob).unwrap_err(),
        DownloadError::AuthenticationFailed
    );
}

#[test]
fn decrypt_rejects_bad_base64() {
    assert_eq!(
        decrypt_m3u8("s", "!!!not base64!!!").unwrap_err(),
        DownloadError::MalformedManifest
    );
}

#[test]
fn decrypt_rejects_missing_parts() {
    let blob = base64::engine::general_purpose::STANDARD.encode("only-two-parts");
    assert_eq!(
        decrypt_m3u8("s", &blob).unwrap_err(),
        DownloadError::MalformedManifest
    );
}

#[test]
fn decrypt_rejects_bad_hex() {
    let blob = base64::engine::general_purpose::STANDARD.encode("a-zz!-00-00");
    assert_eq!(
        decrypt_m3u8("s", &blob).unwrap_err(),
        DownloadError::MalformedManifest
    );
}

#[test]
fn decrypt_rejects_short_nonce() {
    // nonce of 4 bytes instead of 12
    let blob = base64::engine::general_purpose::STANDARD.encode("a-00-00000000-00");
    assert_eq!(
        decrypt_m3u8("s", &blob).unwrap_err(),
        DownloadError::MalformedManifest
    );
}

use vstd::prelude::*;
use vstd::string::StrSliceExecFns;
use vstd::string::StringSliceAdditionalSpecFns;
use vstd::utf8::{valid_utf8, decode_utf8};
use aes_gcm::aead::Aead;
use aes_gcm::KeyInit;
use crate::errors::DownloadError;
use crate::bytes::{split_seq, split_bytes};

verus! {

/// What the standard base64 alphabet decodes a blob to, when it decodes.
pub uninterp spec fn b64_decoded(s: Seq<u8>) -> Option<Seq<u8>>;

/// The key that PBKDF2 with HMAC-SHA-256 derives.
pub uninterp spec fn pbkdf2_key(secret: Seq<u8>, salt: Seq<u8>, rounds: u32, out_len: usize) -> Seq<u8>;

/// What AES-256-GCM decryption yields: the plaintext when the trailing
/// authentication tag verifies, nothing otherwise.
pub uninterp spec fn aes_gcm_open(key: Seq<u8>, nonce: Seq<u8>, data: Seq<u8>) -> Option<Seq<u8>>;

/// Relies on base64::engine::general_purpose::STANDARD.decode: the decoded
/// bytes depend on the input alone.
#[verifier::external_body]
pub(crate) fn b64_decode(v: &Vec<u8>) -> (r: Option<Vec<u8>>)
    ensures
        match r {
            Some(b) => b64_decoded(v@) == Some(b@),
            None => b64_decoded(v@) is None,
        },
{
    base64::Engine::decode(&base64::engine::general_purpose::STANDARD, v.as_slice()).ok()
}

/// The value of one hex digit, either case.
pub open spec fn hex_digit_value(c: u8) -> Option<u8> {
    if 48 <= c && c <= 57 {
        Some((c - 48) as u8)
    } else if 97 <= c && c <= 102 {
        Some((c - 87) as u8)
    } else if 65 <= c && c <= 70 {
        Some((c - 55) as u8)
    } else {
        None
    }
}

/// Hex decoding: an even number of hex digits, two digits to a byte.
pub open spec fn spec_hex_decode(s: Seq<u8>) -> Option<Seq<u8>>
    decreases s.len(),
{
    if s.len() == 0 {
        Some(Seq::<u8>::empty())
    } else if s.len() == 1 {
        None
    } else {
        match (hex_digit_value(s[0]), hex_digit_value(s[1])) {
            (Some(h), Some(l)) => match spec_hex_decode(s.skip(2)) {
                Some(rest) => Some(seq![(h * 16 + l) as u8] + rest),
                None => None,
            },
            _ => None,
        }
    }
}

/// Relies on hex::decode: an even-length string of hex digits of either
/// case decodes pairwise to bytes; anything else is rejected.
#[verifier::external_body]
pub(crate) fn hex_decode(v: &Vec<u8>) -> (r: Option<Vec<u8>>)
    ensures
        match r {
            Some(b) => spec_hex_decode(v@) == Some(b@),
            None => spec_hex_decode(v@) is None,
        },
{
    hex::decode(v.as_slice()).ok()
}

/// Relies on pbkdf2::pbkdf2_hmac with sha2::Sha256: the derived key fills
/// the output buffer and depends on password, salt, rounds and length alone.
#[verifier::external_body]
fn derive_key(secret: &Vec<u8>, salt: &Vec<u8>, rounds: u32, out_len: usize) -> (r: Vec<u8>)
    ensures
        r@ == pbkdf2_key(secret@, salt@, rounds, out_len),
        r@.len() == out_len,
{
    let mut key = vec![0u8; out_len];
    pbkdf2::pbkdf2_hmac::<sha2::Sha256>(secret.as_slice(), salt.as_slice(), rounds, &mut key);
    key
}

/// Relies on aes_gcm::Aes256Gcm::decrypt: authenticated decryption under a
/// 32-byte key and 12-byte nonce depends on its inputs alone; a ciphertext
/// whose trailing tag does not verify is rejected.
#[verifier::external_body]
fn aes_gcm_decrypt(key: &Vec<u8>, nonce: &Vec<u8>, data: &Vec<u8>) -> (r: Option<Vec<u8>>)
    requires
        key@.len() == 32,
        nonce@.len() == 12,
    ensures
        match r {
            Some(p) => aes_gcm_open(key@, nonce@, data@) == Some(p@),
            None => aes_gcm_open(key@, nonce@, data@) is None,
        },
{
    let cipher = match aes_gcm::Aes256Gcm::new_from_slice(key.as_slice()) {
        Ok(c) => c,
        Err(_) => return None,
    };
    cipher.decrypt(aes_gcm::Nonce::from_slice(nonce.as_slice()), data.as_slice()).ok()
}

/// Relies on String::from_utf8: succeeds exactly on valid UTF-8 and returns
/// the string those bytes encode.
#[verifier::external_body]
fn utf8_to_string(v: &Vec<u8>) -> (r: Option<String>)
    ensures
        match r {
            Some(s) => valid_utf8(v@) && s@ == decode_utf8(v@),
            None => !valid_utf8(v@),
        },
{
    String::from_utf8(v.clone()).ok()
}

/// The whole manifest decryption, over the byte views of the per-video
/// secret and the fetched blob. The blob is base64, then UTF-8; it splits
/// on `-` into at least four fields: a key-derivation suffix, then salt,
/// nonce and ciphertext in hex. The key is PBKDF2 (HMAC-SHA-256, 1000
/// rounds, 32 bytes) of secret-plus-suffix and the salt; the plaintext is
/// the AES-256-GCM opening, which must again be UTF-8.
pub open spec fn spec_decrypt_blob(msgn: Seq<u8>, blob: Seq<u8>) -> Result<Seq<char>, DownloadError> {
    match b64_decoded(blob) {
        None => Err(DownloadError::MalformedManifest),
        Some(d) => if !valid_utf8(d) {
            Err(DownloadError::MalformedManifest)
        } else {
            let parts = split_seq(d, 45);
            if parts.len() < 4 {
                Err(DownloadError::MalformedManifest)
            } else {
                match (spec_hex_decode(parts[1]), spec_hex_decode(parts[2]), spec_hex_decode(
                    parts[3],
                )) {
                    (Some(salt), Some(nonce), Some(data)) => if nonce.len() != 12 {
                        Err(DownloadError::MalformedManifest)
                    } else {
                        match aes_gcm_open(pbkdf2_key(msgn + parts[0], salt, 1000, 32), nonce, data) {
                            None => Err(DownloadError::AuthenticationFailed),
                            Some(pt) => if valid_utf8(pt) {
                                Ok(decode_utf8(pt))
                            } else {
                                Err(DownloadError::MalformedManifest)
                            },
                        }
                    },
                    _ => Err(DownloadError::MalformedManifest),
                }
            }
        },
    }
}

/// Reverses the custom manifest encryption: `msgn` is the per-video secret,
/// `m3u8_text` the fetched blob. Returns the decrypted manifest text, or
/// says exactly which step refused the blob.
pub fn decrypt_m3u8(msgn: &str, m3u8_text: &str) -> (r: Result<String, DownloadError>)
    ensures
        match r {
            Ok(s) => spec_decrypt_blob(msgn.spec_bytes(), m3u8_text.spec_bytes())
                == Ok::<Seq<char>, DownloadError>(s@),
            Err(e) => spec_decrypt_blob(msgn.spec_bytes(), m3u8_text.spec_bytes())
                == Err::<Seq<char>, DownloadError>(e),
        },
{
    let blob = m3u8_text.as_bytes_vec();
    let decoded = match b64_decode(&blob) {
        Some(d) => d,
        None => {
            return Err(DownloadError::MalformedManifest);
        },
    };
    match utf8_to_string(&decoded) {
        Some(_) => {},
        None => {
            return Err(DownloadError::MalformedManifest);
        },
    }
    let parts = split_bytes(&decoded, 45);
    if parts.len() < 4 {
        return Err(DownloadError::MalformedManifest);
    }
    proof {
        assert(parts.deep_view()[0] == parts@[0]@);
        assert(parts.deep_view()[1] == parts@[1]@);
        assert(parts.deep_view()[2] == parts@[2]@);
        assert(parts.deep_view()[3] == parts@[3]@);
    }
    let salt = match hex_decode(&parts[1]) {
        Some(s) => s,
        None => {
            return Err(DownloadError::MalformedManifest);
        },
    };
    let nonce = match hex_decode(&parts[2]) {
        Some(n) => n,
        None => {
            return Err(DownloadError::MalformedManifest);
        },
    };
    let data = match hex_decode(&parts[3]) {
        Some(d) => d,
        None => {
            return Err(DownloadError::MalformedManifest);
        },
    };
    if nonce.len() != 12 {
        return Err(DownloadError::MalformedManifest);
    }
    let mut secret = msgn.as_bytes_vec();
    let first = &parts[0];
    let mut i: usize = 0;
    while i < first.len()
        invariant
            0 <= i <= first@.len(),
            secret@ == msgn.spec_bytes() + first@.take(i as int),
        decreases first@.len() - i,
    {
        secret.push(first[i]);
        proof {
            assert(msgn.spec_bytes() + first@.take(i + 1) =~= (msgn.spec_bytes() + first@.take(
                i as int,
            )).push(first@[i as int]));
        }
        i = i + 1;
    }
    proof {
        assert(first@.take(first@.len() as int) =~= first@);
    }
    let key = derive_key(&secret, &salt, 1000, 32);
    let plain = match aes_gcm_decrypt(&key, &nonce, &data) {
        Some(p) => p,
        None => {
            return Err(DownloadError::AuthenticationFailed);
        },
    };
    match utf8_to_string(&plain) {
        Some(s) => Ok(s),
        None => Err(DownloadError::MalformedManifest),
    }
}

} // verus!

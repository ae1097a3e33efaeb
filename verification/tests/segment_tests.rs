use aes::cipher::block_padding::Pkcs7;
use aes::cipher::{BlockEncryptMut, KeyIvInit};
use kavimo::errors::DownloadError;
use kavimo::manifest::CipherMaterial;
use kavimo::segment::{decrypt_segment, part_name, plan_segment, response_action,
    ResponseAction, SegmentPlan};

#[test]
fn existing_file_is_skipped_without_network() {
    // an existing file of size N gives SkippedAlreadyPresent(N): the plan
    // says skip, so the fetch path is never taken
    assert_eq!(plan_segment(Some(12345)), SegmentPlan::SkipExisting(12345));
    assert_eq!(plan_segment(Some(0)), SegmentPlan::SkipExisting(0));
    assert_eq!(plan_segment(None), SegmentPlan::Fetch);
}

#[test]
fn upstream_glitch_degrades_to_placeholder() {
    // 502 and 504 write a zero-byte placeholder and do not raise
    assert_eq!(response_action(502), ResponseAction::WritePlaceholder);
    assert_eq!(response_action(504), ResponseAction::WritePlaceholder);
    assert_eq!(response_action(200), ResponseAction::Decrypt);
    assert_eq!(response_action(404), ResponseAction::Fail);
    assert_eq!(response_action(500), ResponseAction::Fail);
    assert_eq!(response_action(503), ResponseAction::Fail);
}

#[test]
fn segment_decrypts_what_cbc_encrypted() {
    let key = [0x11u8; 16];
    let iv = [0x22u8; 16];
    let plaintext = b"one transport stream chunk";
    let enc = cbc::Encryptor::<aes::Aes128>::new_from_slices(&key, &iv).unwrap();
    let body = enc.encrypt_padded_vec_mut::<Pkcs7>(plaintext);
    let material = CipherMaterial::new(key.to_vec(), iv.to_vec()).unwrap();
    let out = decrypt_segment(&material, &body).unwrap();
    assert_eq!(out, plaintext);
}

#[test]
fn segment_body_off_block_size_is_refused() {
    let material = CipherMaterial::new(vec![1u8; 16], vec![2u8; 16]).unwrap();
    let body = vec![0u8; 17];
    assert_eq!(
        decrypt_segment(&material, &body).unwrap_err(),
        DownloadError::SegmentDecryptFailed
    );
}

#[test]
fn part_names_are_padded_and_namespaced() {
    assert_eq!(part_name(3, 1), b"Vpart-0000000003-01.ts");
    assert_eq!(part_name(0, 0), b"Vpart-0000000000-00.ts");
    assert_eq!(part_name(1234567890, 12), b"Vpart-1234567890-12.ts");
    assert_eq!(part_name(42, 100), b"Vpart-0000000042-100.ts");
}

use base64::Engine;
use kavimo::errors::DownloadError;
use kavimo::metadata::{extract_embed_payload, output_file_name, parse_metadata, parse_size,
    sanitize_title};

const META_JSON: &str = "{\"title\":\"My: Video\",\"playlist\":\"pl-name\",\"msgn\":\"the-secret\",\"download\":[{\"name\":\"480p\",\"size\":\"1000\"},{\"name\":\"720p\",\"size\":\"2000\"}]}";

fn embed_body(payload_b64: &str) -> String {
    // twenty-four quoted literals of page noise, then the payload
    let mut body = String::new();
    for i in 0..24 {
        body.push_str(&format!("var x{} = 'noise{}';\n", i, i));
    }
    body.push_str(&format!("var data = '{}';\n", payload_b64));
    body
}

#[test]
fn payload_is_the_twenty_fifth_quoted_literal() {
    let b64 = base64::engine::general_purpose::STANDARD.encode(META_JSON);
    let body = embed_body(&b64);
    let payload = extract_embed_payload(&body).unwrap();
    assert_eq!(payload, META_JSON.as_bytes());
}

#[test]
fn missing_payload_is_metadata_not_found() {
    let body = "var a = 'one'; var b = 'two';";
    assert_eq!(
        extract_embed_payload(body).unwrap_err(),
        DownloadError::MetadataNotFound
    );
}

#[test]
fn payload_that_is_not_base64_is_invalid_metadata() {
    let body = embed_body("@@not base64@@");
    assert_eq!(
        extract_embed_payload(&body).unwrap_err(),
        DownloadError::InvalidMetadata
    );
}

#[test]
fn metadata_document_decodes() {
    let data = parse_metadata(&META_JSON.as_bytes().to_vec()).unwrap();
    assert_eq!(data.title, "My: Video");
    assert_eq!(data.playlist, "pl-name");
    assert_eq!(data.msgn, "the-secret");
    assert_eq!(data.download.len(), 2);
    assert_eq!(data.download[0].name, "480p");
    assert_eq!(data.download[0].size, "1000");
    assert_eq!(data.download[1].name, "720p");
    assert_eq!(data.download[1].size, "2000");
}

#[test]
fn metadata_without_fields_is_refused() {
    let doc = b"{\"title\":\"t\"}".to_vec();
    assert_eq!(
        parse_metadata(&doc).unwrap_err(),
        DownloadError::InvalidMetadata
    );
    let not_json = b"garbage".to_vec();
    assert_eq!(
        parse_metadata(&not_json).unwrap_err(),
        DownloadError::InvalidMetadata
    );
}

#[test]
fn titles_are_sanitized_for_the_file_system() {
    let s = sanitize_title("a\\b/c:d*e?f\"g<h>i|j");
    assert_eq!(s, b"a-b-c-d-e-f-g-h-i-j");
    let s = sanitize_title("plain title");
    assert_eq!(s, b"plain title");
    let name = output_file_name("My: Video");
    assert_eq!(name, b"My- Video.mp4");
}

#[test]
fn sizes_parse_as_decimal() {
    assert_eq!(parse_size("0"), Some(0));
    assert_eq!(parse_size("1000"), Some(1000));
    assert_eq!(parse_size("18446744073709551615"), Some(u64::MAX));
    assert_eq!(parse_size("18446744073709551616"), None);
    assert_eq!(parse_size(""), None);
    assert_eq!(parse_size("12a"), None);
    assert_eq!(parse_size("-5"), None);
}

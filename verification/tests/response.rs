use rcontest::response::{is_gzip, read_decompressed, read_response_text, BodyError};

const COMPRESSED: [u8; 34] = [
    31, 139, 8, 0, 0, 0, 0, 0, 2, 3, 115, 44, 113, 206, 79, 73, 45, 82, 120, 58, 181, 255, 229, 194,
    30, 0, 140, 156, 213, 3, 14, 0, 0, 0,
];

fn encoding(name: &str) -> Option<String> {
    Some(name.to_string())
}

#[test]
fn compressed_body_is_decompressed() {
    let text = "AtCoder 問題".to_string();
    let compressed = || COMPRESSED.to_vec();
    assert_eq!(read_response_text(&encoding("gzip"), compressed()), Ok(text.clone()));
    assert_eq!(read_response_text(&encoding("GZip"), compressed()), Ok(text.clone()));
    assert_eq!(
        read_response_text(&None, compressed()),
        Err(BodyError::Text)
    );
    assert_eq!(
        read_response_text(&encoding("gzip"), text.into_bytes()),
        Err(BodyError::Decompressing)
    );
    assert_eq!(
        read_response_text(&encoding("gzip"), COMPRESSED[..30].to_vec()),
        Err(BodyError::Decompressing)
    );
}

#[test]
fn other_body_is_text() {
    let text = "入力例 \u{1f600}".to_string();
    let bytes = text.clone().into_bytes();
    assert_eq!(read_response_text(&None, bytes.clone()), Ok(text.clone()));
    assert_eq!(read_response_text(&encoding("br"), bytes.clone()), Ok(text.clone()));
    assert_eq!(read_decompressed(Some(bytes)), Ok(text));
    assert_eq!(
        read_decompressed(Some(vec![0xff])),
        Err(BodyError::CompressedText)
    );
    assert_eq!(read_decompressed(None), Err(BodyError::Decompressing));
    assert!(!is_gzip(&None));
    assert_eq!(BodyError::Text.message(), "decoding response as UTF-8");
    assert_eq!(
        BodyError::Decompressing.message(),
        "decompressing gzip response body"
    );
    assert_eq!(
        BodyError::CompressedText.message(),
        "decoding gzip response as UTF-8"
    );
}

use aes::Aes128;
use base64::prelude::BASE64_STANDARD;
use base64::Engine;
use block_modes::block_padding::Pkcs7;
use block_modes::BlockMode;
use block_modes::Ecb;
use ncm_decoder::cipher::meta_key;
use ncm_decoder::error::CryptoError;
use ncm_decoder::error::ErrorKind;
use ncm_decoder::error::FormatError;
use ncm_decoder::metadata::record_from_section;
use ncm_decoder::metadata::record_from_parse;
use ncm_decoder::metadata::record_from_plaintext;
use ncm_decoder::metadata::unmask_metadata;
use ncm_decoder::metadata::Metadata;

const LABEL: &[u8] = b"163 key(Don't modify):";

fn encrypt(key: &[u8], plaintext: &[u8]) -> Vec<u8> {
    Ecb::<Aes128, Pkcs7>::new_from_slices(key, &[]).unwrap().encrypt_vec(plaintext)
}

fn masked(label: &[u8], text: &[u8]) -> Vec<u8> {
    label.iter().chain(text.iter()).map(|b| b ^ 0x63).collect()
}

fn section_of(plaintext: &[u8]) -> Vec<u8> {
    let text = BASE64_STANDARD.encode(encrypt(&meta_key(), plaintext));
    masked(LABEL, text.as_bytes())
}

fn kind_of(r: Result<Metadata, ErrorKind>) -> Option<ErrorKind> {
    r.err()
}

#[test]
fn metadata_of_a_known_section() {
    let section: Vec<u8> = vec![
        82, 85, 80, 67, 8, 6, 26, 75, 39, 12, 13, 68, 23, 67, 14, 12, 7, 10, 5, 26, 74, 89, 0, 38,
        4, 23, 18, 43, 27, 20, 19, 7, 49, 40, 0, 33, 32, 49, 51, 33, 15, 51, 8, 21, 10, 72, 7, 48,
        7, 87, 1, 42, 85, 25, 16, 53, 20, 17, 86, 48, 87, 81, 33, 0, 51, 80, 52, 85, 51, 21, 53,
        14, 11, 6, 59, 14, 37, 46, 55, 34, 33, 11, 83, 81, 2, 25, 76, 41, 34, 20, 37, 41, 0, 1, 26,
        47, 0, 76, 46, 49, 81, 15, 10, 0, 34, 80, 58, 50, 94, 94,
    ];
    let metadata = record_from_section(section).ok().unwrap();
    let record = metadata.record.clone().unwrap();
    assert_eq!(record["format"].as_str(), Some("mp3"));
    assert_eq!(record["bitrate"].as_u64(), Some(320000));
    assert_eq!(record["musicName"].as_str(), Some("Song"));
    assert_eq!(record.as_object().unwrap().len(), 3);
    assert_eq!(metadata.format(), Some("mp3".to_string()));
}

#[test]
fn metadata_round_trip() {
    let section = section_of(b"music:{\"format\":\"flac\",\"artist\":[[\"A\",1]],\"album\":\"B\"}");
    let metadata = record_from_section(section).ok().unwrap();
    assert_eq!(metadata.format(), Some("flac".to_string()));
    let record = metadata.record.unwrap();
    assert_eq!(record["album"].as_str(), Some("B"));
    assert_eq!(record["artist"][0][0].as_str(), Some("A"));
}

#[test]
fn empty_section_is_an_empty_record() {
    let metadata = record_from_section(vec![]).ok().unwrap();
    assert!(metadata.record.is_none());
    assert_eq!(metadata.format(), None);
}

#[test]
fn format_is_absent_where_the_record_has_no_such_text() {
    let metadata = record_from_section(section_of(b"music:{\"format\":3}")).ok().unwrap();
    assert_eq!(metadata.format(), None);
    let metadata = record_from_section(section_of(b"music:{\"title\":\"x\"}")).ok().unwrap();
    assert_eq!(metadata.format(), None);
    let metadata = record_from_section(section_of(b"music:[1,2]")).ok().unwrap();
    assert_eq!(metadata.format(), None);
}

#[test]
fn section_shorter_than_its_label_is_invalid() {
    for n in [1usize, 10, 21] {
        let r = record_from_section(vec![0x63; n]);
        assert_eq!(kind_of(r), Some(ErrorKind::Format(FormatError::InvalidMetadata)));
    }
}

#[test]
fn section_that_is_not_base64_is_invalid() {
    let r = record_from_section(masked(LABEL, b"not base64!!"));
    assert_eq!(kind_of(r), Some(ErrorKind::Format(FormatError::InvalidMetadata)));
    let r = record_from_section(masked(LABEL, b"QUJD="));
    assert_eq!(kind_of(r), Some(ErrorKind::Format(FormatError::InvalidMetadata)));
}

#[test]
fn section_with_a_partial_block_is_an_invalid_length() {
    let text = BASE64_STANDARD.encode([1u8; 20]);
    let r = record_from_section(masked(LABEL, text.as_bytes()));
    assert_eq!(kind_of(r), Some(ErrorKind::Crypto(CryptoError::InvalidLength)));
}

#[test]
fn section_with_bad_padding_is_invalid_padding() {
    let ciphertext = encrypt(&meta_key(), b"sixteen byte msg");
    let text = BASE64_STANDARD.encode(&ciphertext[..16]);
    let r = record_from_section(masked(LABEL, text.as_bytes()));
    assert_eq!(kind_of(r), Some(ErrorKind::Crypto(CryptoError::InvalidPadding)));
    // A label with nothing behind it unwraps an empty ciphertext.
    let r = record_from_section(masked(LABEL, b""));
    assert_eq!(kind_of(r), Some(ErrorKind::Crypto(CryptoError::InvalidPadding)));
}

#[test]
fn plaintext_shorter_than_its_prefix_is_invalid() {
    let r = record_from_section(section_of(b"music"));
    assert_eq!(kind_of(r), Some(ErrorKind::Format(FormatError::InvalidMetadata)));
    assert_eq!(
        kind_of(record_from_plaintext(b"")),
        Some(ErrorKind::Format(FormatError::InvalidMetadata))
    );
}

#[test]
fn text_that_is_not_utf8_is_invalid() {
    let r = record_from_section(section_of(b"music:{\"format\":\"\xff\xfe\"}"));
    assert_eq!(kind_of(r), Some(ErrorKind::Format(FormatError::InvalidMetadata)));
    let r = record_from_plaintext(b"music:\xc3");
    assert_eq!(kind_of(r), Some(ErrorKind::Format(FormatError::InvalidMetadata)));
}

#[test]
fn text_that_is_not_a_record_is_invalid() {
    let r = record_from_section(section_of(b"music:{\"format\":"));
    assert_eq!(kind_of(r), Some(ErrorKind::Format(FormatError::InvalidMetadata)));
    let r = record_from_plaintext(b"music:");
    assert_eq!(kind_of(r), Some(ErrorKind::Format(FormatError::InvalidMetadata)));
}

#[test]
fn record_from_plaintext_drops_six_bytes() {
    let metadata = record_from_plaintext(b"abcdef{\"format\":\"ogg\"}").ok().unwrap();
    assert_eq!(metadata.format(), Some("ogg".to_string()));
    // The text may hold characters outside ASCII.
    let metadata = record_from_plaintext("music:{\"format\":\"m\u{e9}\u{4e2d}\"}".as_bytes());
    assert_eq!(metadata.ok().unwrap().format(), Some("m\u{e9}\u{4e2d}".to_string()));
}

#[test]
fn record_from_parse_wraps_the_value() {
    let value = serde_json::Value::Bool(true);
    let metadata = record_from_parse(Some(value.clone())).ok().unwrap();
    assert_eq!(metadata.record, Some(value));
    assert_eq!(
        kind_of(record_from_parse(None)),
        Some(ErrorKind::Format(FormatError::InvalidMetadata))
    );
}

#[test]
fn unmask_metadata_drops_the_label() {
    let section = masked(LABEL, b"QUJD");
    assert_eq!(unmask_metadata(section), Ok(b"QUJD".to_vec()));
    assert_eq!(unmask_metadata(masked(LABEL, b"")), Ok(vec![]));
    assert_eq!(unmask_metadata(vec![0; 21]), Err(FormatError::InvalidMetadata));
}

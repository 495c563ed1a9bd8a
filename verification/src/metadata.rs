//! The metadata record: unmasked, base64-decoded, unwrapped and parsed.

use vstd::prelude::*;
use vstd::slice::slice_subrange;
use vstd::slice::slice_to_vec;
use vstd::utf8::decode_utf8;
use vstd::utf8::valid_utf8;
use base64::prelude::BASE64_STANDARD;
use base64::Engine;
use crate::cipher::ecb_decrypt;
use crate::cipher::ecb_plaintext;
use crate::cipher::meta_key;
use crate::cipher::meta_key_bytes;
use crate::cipher::xor_bytes;
use crate::cipher::xor_mask;
use crate::error::ErrorKind;
use crate::error::FormatError;

verus! {

/// A parsed JSON value of `serde_json`. Its inside is not read here.
#[verifier::external_type_specification]
#[verifier::external_body]
pub struct ExJsonValue(serde_json::Value);

/// The metadata of a container: the parsed record, or nothing where the
/// container's metadata section is empty.
pub struct Metadata {
    pub record: Option<serde_json::Value>,
}

impl Metadata {
    /// The text of the record's `format` field, where it has one.
    pub open spec fn format_text(&self) -> Option<Seq<char>> {
        match self.record {
            Some(v) => if json_text_fields(v).contains_key("format"@) {
                Some(json_text_fields(v)["format"@])
            } else {
                None
            },
            None => None,
        }
    }

    /// The audio format that the record names, such as `mp3` or `flac`.
    pub fn format(&self) -> (r: Option<String>)
        ensures
            match self.format_text() {
                Some(t) => r is Some && r->Some_0@ == t,
                None => r is None,
            },
    {
        match &self.record {
            Some(v) => json_text_field(v, "format"),
            None => None,
        }
    }
}

/// What the standard, padded base64 alphabet decodes `input` to, or `None`
/// where `input` is not such text.
pub uninterp spec fn base64_standard(input: Seq<u8>) -> Option<Seq<u8>>;

/// What `text` parses to as JSON, or `None` where it is no JSON text.
pub uninterp spec fn json_value(text: Seq<char>) -> Option<serde_json::Value>;

/// The fields of a JSON object whose values are strings, by name. A value
/// that is no object has none.
pub uninterp spec fn json_text_fields(value: serde_json::Value) -> Map<Seq<char>, Seq<char>>;

/// Looks a field up with `serde_json::Value::get` and reads it with
/// `serde_json::Value::as_str`.
///
/// Trusted: the result is the field's text where the value is an object that
/// has a string under that name, and `None` otherwise.
#[verifier::external_body]
fn json_text_field(value: &serde_json::Value, name: &str) -> (r: Option<String>)
    ensures
        r is Some <==> json_text_fields(*value).contains_key(name@),
        r is Some ==> r->Some_0@ == json_text_fields(*value)[name@],
{
    Some(value.get(name)?.as_str()?.to_string())
}

/// Decodes base64 text with `Engine::decode` of `base64`'s `STANDARD` engine.
///
/// Trusted: the outcome is a function of the input alone, named
/// [`base64_standard`]; the engine's error becomes `None`.
#[verifier::external_body]
fn base64_decode(input: &[u8]) -> (r: Option<Vec<u8>>)
    ensures
        r is Some <==> base64_standard(input@) is Some,
        r is Some ==> r->Some_0@ == base64_standard(input@)->Some_0,
{
    BASE64_STANDARD.decode(input).ok()
}

/// Turns bytes into text with `String::from_utf8`.
///
/// Trusted: the call succeeds exactly on well-formed UTF-8 and then returns
/// the characters that the bytes encode.
#[verifier::external_body]
fn utf8_text(bytes: Vec<u8>) -> (r: Option<String>)
    ensures
        r is Some <==> valid_utf8(bytes@),
        r is Some ==> r->Some_0@ == decode_utf8(bytes@),
{
    String::from_utf8(bytes).ok()
}

/// Parses JSON text with `serde_json::from_str` into a `serde_json::Value`.
///
/// Trusted: the outcome is a function of the text alone, named
/// [`json_value`]; the parser's error becomes `None`.
#[verifier::external_body]
fn parse_json(text: &str) -> (r: Option<serde_json::Value>)
    ensures
        r == json_value(text@),
{
    serde_json::from_str::<serde_json::Value>(text).ok()
}

/// The base64 text inside a non-empty metadata section: the section without
/// its mask and without the 22-byte label in front.
pub open spec fn metadata_base64(section: Seq<u8>) -> Result<Seq<u8>, FormatError> {
    if section.len() < 22 {
        Err(FormatError::InvalidMetadata)
    } else {
        Ok(xor_bytes(section, 0x63).skip(22))
    }
}

/// The text bytes inside an unwrapped metadata blob: the plaintext without
/// the 6-byte prefix in front.
pub open spec fn metadata_text_bytes(plaintext: Seq<u8>) -> Result<Seq<u8>, FormatError> {
    if plaintext.len() < 6 {
        Err(FormatError::InvalidMetadata)
    } else {
        Ok(plaintext.skip(6))
    }
}

/// The record that the text bytes of a metadata blob spell.
pub open spec fn record_of_text(bytes: Seq<u8>) -> Result<Option<serde_json::Value>, ErrorKind> {
    if !valid_utf8(bytes) {
        Err(ErrorKind::Format(FormatError::InvalidMetadata))
    } else {
        record_of_parse(json_value(decode_utf8(bytes)))
    }
}

/// The record for what the parser made of the text.
pub open spec fn record_of_parse(parsed: Option<serde_json::Value>) -> Result<
    Option<serde_json::Value>,
    ErrorKind,
> {
    match parsed {
        Some(v) => Ok(Some(v)),
        None => Err(ErrorKind::Format(FormatError::InvalidMetadata)),
    }
}

/// The record for what the cipher made of the decoded base64 text.
pub open spec fn record_of_plaintext(plaintext: Seq<u8>) -> Result<
    Option<serde_json::Value>,
    ErrorKind,
> {
    match metadata_text_bytes(plaintext) {
        Err(e) => Err(ErrorKind::Format(e)),
        Ok(bytes) => record_of_text(bytes),
    }
}

/// The record of a metadata section. An empty section is an empty record; a
/// section that is not base64 text behind its label is invalid metadata.
pub open spec fn metadata_record(section: Seq<u8>) -> Result<
    Option<serde_json::Value>,
    ErrorKind,
> {
    if section.len() == 0 {
        Ok(None)
    } else {
        match metadata_base64(section) {
            Err(e) => Err(ErrorKind::Format(e)),
            Ok(text) => match base64_standard(text) {
                None => Err(ErrorKind::Format(FormatError::InvalidMetadata)),
                Some(ciphertext) => match ecb_plaintext(meta_key_bytes(), ciphertext) {
                    Err(e) => Err(ErrorKind::Crypto(e)),
                    Ok(plaintext) => record_of_plaintext(plaintext),
                },
            },
        }
    }
}

/// Whether an exec result carries the record or the error of a spec result.
pub open spec fn same_record(
    r: Result<Metadata, ErrorKind>,
    model: Result<Option<serde_json::Value>, ErrorKind>,
) -> bool {
    match model {
        Ok(v) => r is Ok && r->Ok_0.record == v,
        Err(e) => r is Err && r->Err_0 == e,
    }
}

/// Unmasks a metadata section and drops the label in front of its base64 text.
pub fn unmask_metadata(section: Vec<u8>) -> (r: Result<Vec<u8>, FormatError>)
    ensures
        crate::cipher::same_bytes(r, metadata_base64(section@)),
{
    if section.len() < 22 {
        return Err(FormatError::InvalidMetadata);
    }
    let mut data = section;
    xor_mask(&mut data, 0x63);
    Ok(slice_to_vec(slice_subrange(data.as_slice(), 22, data.len())))
}

/// Wraps what the parser returned: a value is the record, none is an error.
pub fn record_from_parse(parsed: Option<serde_json::Value>) -> (r: Result<Metadata, ErrorKind>)
    ensures
        same_record(r, record_of_parse(parsed)),
{
    match parsed {
        Some(v) => Ok(Metadata { record: Some(v) }),
        None => Err(ErrorKind::Format(FormatError::InvalidMetadata)),
    }
}

/// Reads the record out of an unwrapped metadata blob: drops the prefix,
/// decodes the text and parses it.
pub fn record_from_plaintext(plaintext: &[u8]) -> (r: Result<Metadata, ErrorKind>)
    ensures
        same_record(r, record_of_plaintext(plaintext@)),
{
    if plaintext.len() < 6 {
        return Err(ErrorKind::Format(FormatError::InvalidMetadata));
    }
    let bytes = slice_to_vec(slice_subrange(plaintext, 6, plaintext.len()));
    assert(bytes@ =~= plaintext@.skip(6));
    match utf8_text(bytes) {
        None => Err(ErrorKind::Format(FormatError::InvalidMetadata)),
        Some(text) => record_from_parse(parse_json(text.as_str())),
    }
}

/// Decodes the payload of a metadata section into its record.
pub fn record_from_section(section: Vec<u8>) -> (r: Result<Metadata, ErrorKind>)
    ensures
        same_record(r, metadata_record(section@)),
        section@.len() == 0 ==> r is Ok && r->Ok_0.record is None,
{
    if section.len() == 0 {
        return Ok(Metadata { record: None });
    }
    let text = match unmask_metadata(section) {
        Ok(t) => t,
        Err(e) => {
            return Err(ErrorKind::Format(e));
        },
    };
    let ciphertext = match base64_decode(text.as_slice()) {
        Some(c) => c,
        None => {
            return Err(ErrorKind::Format(FormatError::InvalidMetadata));
        },
    };
    let key = meta_key();
    match ecb_decrypt(key.as_slice(), ciphertext.as_slice()) {
        Err(e) => Err(ErrorKind::Crypto(e)),
        Ok(plaintext) => record_from_plaintext(plaintext.as_slice()),
    }
}

} // verus!

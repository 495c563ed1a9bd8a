//! The sections of a container in their fixed order, and the decode of a
//! whole container.

use vstd::prelude::*;
use vstd::slice::slice_subrange;
use vstd::slice::slice_to_vec;
use crate::cipher::core_key;
use crate::cipher::core_key_bytes;
use crate::cipher::ecb_decrypt;
use crate::cipher::ecb_plaintext;
use crate::cipher::same_bytes;
use crate::cipher::xor_bytes;
use crate::cipher::xor_mask;
use crate::error::DecodeError;
use crate::error::ErrorKind;
use crate::error::FormatError;
use crate::error::Stage;
use crate::key_box::audio_transform;
use crate::key_box::decrypt_file_data;
use crate::key_box::generate_key_box;
use crate::key_box::key_box_of;
use crate::key_box::KeyBox;
use crate::metadata::record_from_section;
use crate::metadata::metadata_record;
use crate::metadata::Metadata;
use crate::reader::has_magic;
use crate::reader::le_u32;
use crate::reader::read_section;
use crate::reader::section;
use crate::reader::Reader;

verus! {

/// The master key inside an unwrapped key blob: the plaintext without the
/// 17-byte label in front. A plaintext too short to hold the label is
/// truncated; one that holds the label and nothing more has an empty key.
pub open spec fn master_key_of_plaintext(plaintext: Seq<u8>) -> Result<Seq<u8>, FormatError> {
    if plaintext.len() < 17 {
        Err(FormatError::Truncated)
    } else {
        Ok(plaintext.skip(17))
    }
}

/// The master key of a key section's payload.
pub open spec fn master_key_of(blob: Seq<u8>) -> Result<Seq<u8>, ErrorKind> {
    match ecb_plaintext(core_key_bytes(), xor_bytes(blob, 0x64)) {
        Err(e) => Err(ErrorKind::Crypto(e)),
        Ok(plaintext) => match master_key_of_plaintext(plaintext) {
            Err(e) => Err(ErrorKind::Format(e)),
            Ok(key) => Ok(key),
        },
    }
}

/// The key section at the start of `s`: two reserved bytes, then a
/// length-prefixed blob. Gives the key box and what follows the section. A
/// blob that holds no key byte behind its label is truncated: the key box
/// needs at least one.
pub open spec fn key_section(s: Seq<u8>) -> Result<(Seq<u8>, Seq<u8>), ErrorKind> {
    if s.len() < 2 {
        Err(ErrorKind::Format(FormatError::Truncated))
    } else {
        match section(s.skip(2)) {
            None => Err(ErrorKind::Format(FormatError::Truncated)),
            Some((blob, rest)) => match master_key_of(blob) {
                Err(e) => Err(e),
                Ok(key) => if key.len() == 0 {
                    Err(ErrorKind::Format(FormatError::Truncated))
                } else {
                    Ok((key_box_of(key), rest))
                },
            },
        }
    }
}

/// The metadata section at the start of `s`: a length-prefixed blob. Gives
/// the record and what follows the section.
pub open spec fn metadata_section(s: Seq<u8>) -> Result<
    (Option<serde_json::Value>, Seq<u8>),
    ErrorKind,
> {
    match section(s) {
        None => Err(ErrorKind::Format(FormatError::Truncated)),
        Some((blob, rest)) => match metadata_record(blob) {
            Err(e) => Err(e),
            Ok(record) => Ok((record, rest)),
        },
    }
}

/// The image section at the start of `s`: a four-byte checksum and five
/// reserved bytes, both ignored, then the length-prefixed image. Gives the
/// image and what follows the section.
pub open spec fn image_section(s: Seq<u8>) -> Result<(Seq<u8>, Seq<u8>), FormatError> {
    if s.len() < 9 {
        Err(FormatError::Truncated)
    } else {
        match section(s.skip(9)) {
            None => Err(FormatError::Truncated),
            Some(found) => Ok(found),
        }
    }
}

/// What a container decodes to, as plain values.
pub struct DecodedModel {
    pub key_box: Seq<u8>,
    pub metadata: Option<serde_json::Value>,
    pub image: Seq<u8>,
    pub audio: Seq<u8>,
}

/// What the bytes of a container decode to, or the first error on the way.
pub open spec fn decoded(container: Seq<u8>) -> Result<DecodedModel, DecodeError> {
    if !has_magic(container) {
        Err(DecodeError { stage: Stage::Header, kind: ErrorKind::Format(FormatError::BadMagic) })
    } else {
        match key_section(container.skip(8)) {
            Err(kind) => Err(DecodeError { stage: Stage::Key, kind }),
            Ok((key_box, after_key)) => match metadata_section(after_key) {
                Err(kind) => Err(DecodeError { stage: Stage::Metadata, kind }),
                Ok((metadata, after_metadata)) => match image_section(after_metadata) {
                    Err(e) => Err(DecodeError { stage: Stage::Image, kind: ErrorKind::Format(e) }),
                    Ok((image, payload)) => Ok(
                        DecodedModel {
                            key_box,
                            metadata,
                            image,
                            audio: audio_transform(key_box, 0, payload),
                        },
                    ),
                },
            },
        }
    }
}

/// Everything a container holds.
pub struct Decoded {
    pub key_box: KeyBox,
    pub metadata: Metadata,
    pub image: Vec<u8>,
    pub audio: Vec<u8>,
}

impl View for Decoded {
    type V = DecodedModel;

    open spec fn view(&self) -> DecodedModel {
        DecodedModel {
            key_box: self.key_box@,
            metadata: self.metadata.record,
            image: self.image@,
            audio: self.audio@,
        }
    }
}

/// Drops the label in front of an unwrapped key blob.
pub fn strip_key_label(plaintext: &[u8]) -> (r: Result<Vec<u8>, FormatError>)
    ensures
        same_bytes(r, master_key_of_plaintext(plaintext@)),
{
    if plaintext.len() < 17 {
        return Err(FormatError::Truncated);
    }
    Ok(slice_to_vec(slice_subrange(plaintext, 17, plaintext.len())))
}

/// Recovers the master key from a key section's payload: unmasks it, unwraps
/// it and drops the label. The key is shorter than the payload by the label
/// and by the padding, which is 1 to 16 bytes.
pub fn master_key_from_blob(blob: Vec<u8>) -> (r: Result<Vec<u8>, ErrorKind>)
    ensures
        same_bytes(r, master_key_of(blob@)),
        r is Ok ==> blob@.len() % 16 == 0 && blob@.len() - 33 <= r->Ok_0@.len() <= blob@.len()
            - 18,
{
    let mut data = blob;
    xor_mask(&mut data, 0x64);
    let key = core_key();
    match ecb_decrypt(key.as_slice(), data.as_slice()) {
        Err(e) => Err(ErrorKind::Crypto(e)),
        Ok(plaintext) => match strip_key_label(plaintext.as_slice()) {
            Err(e) => Err(ErrorKind::Format(e)),
            Ok(key) => Ok(key),
        },
    }
}

/// Reads the `key_length` bytes of a key section's payload and recovers the
/// master key from them. Where fewer bytes are left, nothing is read and the
/// section is truncated.
pub fn decrypt_key_data(reader: &mut Reader, key_length: u32) -> (r: Result<Vec<u8>, ErrorKind>)
    requires
        old(reader).wf(),
    ensures
        final(reader).wf(),
        key_length > old(reader).remaining().len() ==> r is Err && r->Err_0 == ErrorKind::Format(
            FormatError::Truncated,
        ) && *final(reader) == *old(reader),
        key_length <= old(reader).remaining().len() ==> same_bytes(
            r,
            master_key_of(old(reader).remaining().take(key_length as int)),
        ) && final(reader).remaining() == old(reader).remaining().skip(key_length as int),
        r is Ok ==> key_length % 16 == 0 && key_length - 33 <= r->Ok_0@.len() <= key_length - 18,
{
    let blob = match reader.read_exact(key_length as usize) {
        Ok(b) => b,
        Err(e) => {
            return Err(ErrorKind::Format(e));
        },
    };
    master_key_from_blob(blob)
}

/// Reads the key section and builds the key box.
pub fn decrypt_key(reader: &mut Reader) -> (r: Result<KeyBox, ErrorKind>)
    requires
        old(reader).wf(),
    ensures
        final(reader).wf(),
        match key_section(old(reader).remaining()) {
            Ok((key_box, rest)) => r is Ok && r->Ok_0@ == key_box && r->Ok_0.wf()
                && final(reader).remaining() == rest,
            Err(e) => r is Err && r->Err_0 == e,
        },
        old(reader).remaining().len() < 6 || cut_short(old(reader).remaining().skip(2)) ==> r is Err
            && r->Err_0 == ErrorKind::Format(FormatError::Truncated),
{
    let ghost s = reader.remaining().skip(2);
    match reader.skip(2) {
        Ok(()) => {},
        Err(e) => {
            return Err(ErrorKind::Format(e));
        },
    }
    let key_length = match reader.read_u32_le() {
        Ok(n) => n,
        Err(e) => {
            return Err(ErrorKind::Format(e));
        },
    };
    proof {
        if key_length <= s.len() - 4 {
            assert(s.skip(4).take(key_length as int) =~= s.subrange(4, 4 + key_length));
            assert(s.skip(4).skip(key_length as int) =~= s.skip(4 + key_length));
        }
    }
    let key = decrypt_key_data(reader, key_length)?;
    if key.len() == 0 {
        return Err(ErrorKind::Format(FormatError::Truncated));
    }
    Ok(generate_key_box(key.as_slice()))
}

/// Reads the metadata section and decodes its record. A section whose length
/// prefix is missing or declares more bytes than are left is truncated.
pub fn decrypt_meta_data(reader: &mut Reader) -> (r: Result<Metadata, ErrorKind>)
    requires
        old(reader).wf(),
    ensures
        final(reader).wf(),
        match metadata_section(old(reader).remaining()) {
            Ok((record, rest)) => r is Ok && r->Ok_0.record == record && final(reader).remaining()
                == rest,
            Err(e) => r is Err && r->Err_0 == e,
        },
        old(reader).remaining().len() < 4 || cut_short(old(reader).remaining()) ==> r is Err
            && r->Err_0 == ErrorKind::Format(FormatError::Truncated),
{
    let blob = match read_section(reader) {
        Ok(b) => b,
        Err(e) => {
            return Err(ErrorKind::Format(e));
        },
    };
    record_from_section(blob)
}

/// Reads the image section: the image's bytes as they are stored.
pub fn decrypt_image_data(reader: &mut Reader) -> (r: Result<Vec<u8>, FormatError>)
    requires
        old(reader).wf(),
    ensures
        final(reader).wf(),
        match image_section(old(reader).remaining()) {
            Ok((image, rest)) => r is Ok && r->Ok_0@ == image && final(reader).remaining() == rest,
            Err(e) => r is Err && r->Err_0 == e,
        },
{
    let ghost s = reader.remaining();
    let _checksum = reader.read_u32_le()?;
    reader.skip(5)?;
    assert(s.skip(4).skip(5) =~= s.skip(9));
    read_section(reader)
}

/// Decodes a container: the key box, the metadata record, the cover image and
/// the decrypted audio, or the first error with the section it came from.
pub fn decode(container: &[u8]) -> (r: Result<Decoded, DecodeError>)
    ensures
        match decoded(container@) {
            Ok(model) => r is Ok && r->Ok_0@ == model && r->Ok_0.key_box.wf(),
            Err(e) => r is Err && r->Err_0 == e,
        },
        !has_magic(container@) ==> r is Err && r->Err_0 == (DecodeError {
            stage: Stage::Header,
            kind: ErrorKind::Format(FormatError::BadMagic),
        }),
{
    let mut reader = match Reader::open(container) {
        Ok(reader) => reader,
        Err(e) => {
            return Err(DecodeError { stage: Stage::Header, kind: ErrorKind::Format(e) });
        },
    };
    let key_box = match decrypt_key(&mut reader) {
        Ok(key_box) => key_box,
        Err(kind) => {
            return Err(DecodeError { stage: Stage::Key, kind });
        },
    };
    let metadata = match decrypt_meta_data(&mut reader) {
        Ok(metadata) => metadata,
        Err(kind) => {
            return Err(DecodeError { stage: Stage::Metadata, kind });
        },
    };
    let image = match decrypt_image_data(&mut reader) {
        Ok(image) => image,
        Err(e) => {
            return Err(DecodeError { stage: Stage::Image, kind: ErrorKind::Format(e) });
        },
    };
    let payload = reader.read_to_end();
    let audio = decrypt_file_data(&key_box, payload);
    Ok(Decoded { key_box, metadata, image, audio })
}

/// Whether `s` starts with a length prefix that declares more bytes than
/// follow it.
pub open spec fn cut_short(s: Seq<u8>) -> bool {
    s.len() >= 4 && s.len() - 4 < le_u32(s)
}

/// Equal containers decode to equal results: the key box, the record, the
/// image and the audio depend on the container's bytes and on nothing else.
pub proof fn lemma_decode_deterministic(a: Seq<u8>, b: Seq<u8>)
    requires
        a =~= b,
    ensures
        decoded(a) == decoded(b),
{
}

/// A stream that does not start with the magic header decodes to a bad-magic
/// error, whatever else it holds.
pub proof fn lemma_bad_magic_always_fails(container: Seq<u8>)
    requires
        !has_magic(container),
    ensures
        decoded(container) == Err::<DecodedModel, DecodeError>(
            DecodeError { stage: Stage::Header, kind: ErrorKind::Format(FormatError::BadMagic) },
        ),
{
}

/// A section whose length prefix declares more bytes than the stream still
/// holds is never read short: each of the three sections reports truncation.
pub proof fn lemma_cut_short_section_is_truncated(s: Seq<u8>, reserved: Seq<u8>, unused: Seq<u8>)
    requires
        cut_short(s),
        reserved.len() == 2,
        unused.len() == 9,
    ensures
        section(s) is None,
        key_section(reserved + s) == Err::<(Seq<u8>, Seq<u8>), ErrorKind>(
            ErrorKind::Format(FormatError::Truncated),
        ),
        metadata_section(s) == Err::<(Option<serde_json::Value>, Seq<u8>), ErrorKind>(
            ErrorKind::Format(FormatError::Truncated),
        ),
        image_section(unused + s) == Err::<(Seq<u8>, Seq<u8>), FormatError>(FormatError::Truncated),
{
    assert((reserved + s).skip(2) =~= s);
    assert((unused + s).skip(9) =~= s);
}

/// A container that ends inside its key section decodes to a truncation error
/// of the key stage.
pub proof fn lemma_decode_key_cut_short(container: Seq<u8>)
    requires
        has_magic(container),
        container.len() >= 10,
        cut_short(container.skip(10)),
    ensures
        decoded(container) == Err::<DecodedModel, DecodeError>(
            DecodeError { stage: Stage::Key, kind: ErrorKind::Format(FormatError::Truncated) },
        ),
{
    assert(container.skip(8).skip(2) =~= container.skip(10));
}

/// A container that ends inside its metadata section decodes to a truncation
/// error of the metadata stage.
pub proof fn lemma_decode_metadata_cut_short(container: Seq<u8>)
    requires
        has_magic(container),
        key_section(container.skip(8)) is Ok,
        cut_short(key_section(container.skip(8))->Ok_0.1),
    ensures
        decoded(container) == Err::<DecodedModel, DecodeError>(
            DecodeError { stage: Stage::Metadata, kind: ErrorKind::Format(FormatError::Truncated) },
        ),
{
}

/// A container that ends inside its image section decodes to a truncation
/// error of the image stage.
pub proof fn lemma_decode_image_cut_short(container: Seq<u8>)
    requires
        has_magic(container),
        key_section(container.skip(8)) is Ok,
        metadata_section(key_section(container.skip(8))->Ok_0.1) is Ok,
        metadata_section(key_section(container.skip(8))->Ok_0.1)->Ok_0.1.len() >= 9,
        cut_short(metadata_section(key_section(container.skip(8))->Ok_0.1)->Ok_0.1.skip(9)),
    ensures
        decoded(container) == Err::<DecodedModel, DecodeError>(
            DecodeError { stage: Stage::Image, kind: ErrorKind::Format(FormatError::Truncated) },
        ),
{
}

} // verus!

//! Decoder for the NCM encrypted audio container.
//!
//! A container holds, in this order, a magic header, an encrypted master key,
//! an encrypted metadata record, a cover image and a stream-ciphered audio
//! payload. [`decoder::decode`] recovers all of them from the container's bytes.

pub mod error;
pub mod reader;
pub mod cipher;
pub mod key_box;
pub mod metadata;
pub mod decoder;

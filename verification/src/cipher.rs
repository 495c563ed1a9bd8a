//! The block-cipher unwrap and the two fixed keys it is used with.

use vstd::prelude::*;
use aes::Aes128;
use block_modes::block_padding::Pkcs7;
use block_modes::BlockMode;
use block_modes::Ecb;
use hex::FromHex;
use crate::error::CryptoError;

verus! {

/// The value of one hexadecimal digit, in either case.
pub open spec fn hex_digit(c: char) -> Option<int> {
    if '0' <= c && c <= '9' {
        Some(c as int - '0' as int)
    } else if 'A' <= c && c <= 'F' {
        Some(c as int - 'A' as int + 10)
    } else if 'a' <= c && c <= 'f' {
        Some(c as int - 'a' as int + 10)
    } else {
        None
    }
}

/// Whether `s` is an even number of hexadecimal digits.
pub open spec fn is_hex(s: Seq<char>) -> bool {
    s.len() % 2 == 0 && forall|i: int| 0 <= i < s.len() ==> (#[trigger] hex_digit(s[i])) is Some
}

/// The bytes that the digit pairs of `s` spell, high digit first.
pub open spec fn hex_bytes(s: Seq<char>) -> Seq<u8> {
    Seq::new(
        (s.len() / 2) as nat,
        |i: int| (16 * hex_digit(s[2 * i]).unwrap() + hex_digit(s[2 * i + 1]).unwrap()) as u8,
    )
}

/// Decodes hexadecimal text with `hex::FromHex::from_hex` for `Vec<u8>`.
///
/// Trusted: the call succeeds exactly on an even number of hexadecimal digits
/// and then returns one byte for each pair, the first digit being the high half.
#[verifier::external_body]
fn hex_decode(s: &str) -> (r: Option<Vec<u8>>)
    ensures
        r is Some <==> is_hex(s@),
        r is Some ==> r->Some_0@ == hex_bytes(s@),
{
    Vec::from_hex(s).ok()
}

/// The key under which the master-key blob is wrapped.
pub open spec fn core_key_bytes() -> Seq<u8> {
    seq![
        0x68u8, 0x7A, 0x48, 0x52, 0x41, 0x6D, 0x73, 0x6F,
        0x35, 0x6B, 0x49, 0x6E, 0x62, 0x61, 0x78, 0x57,
    ]
}

/// The key under which the metadata blob is wrapped.
pub open spec fn meta_key_bytes() -> Seq<u8> {
    seq![
        0x23u8, 0x31, 0x34, 0x6C, 0x6A, 0x6B, 0x5F, 0x21,
        0x5C, 0x5D, 0x26, 0x30, 0x55, 0x3C, 0x27, 0x28,
    ]
}

/// Decodes the master-key blob's key from its hexadecimal form.
pub fn core_key() -> (k: Vec<u8>)
    ensures
        k@ == core_key_bytes(),
{
    let text = "687A4852416D736F356B496E62617857";
    proof {
        reveal_strlit("687A4852416D736F356B496E62617857");
        assert(is_hex(text@));
    }
    match hex_decode(text) {
        Some(k) => {
            assert(k@ =~= core_key_bytes());
            k
        },
        None => Vec::new(),
    }
}

/// Decodes the metadata blob's key from its hexadecimal form.
pub fn meta_key() -> (k: Vec<u8>)
    ensures
        k@ == meta_key_bytes(),
{
    let text = "2331346C6A6B5F215C5D2630553C2728";
    proof {
        reveal_strlit("2331346C6A6B5F215C5D2630553C2728");
        assert(is_hex(text@));
    }
    match hex_decode(text) {
        Some(k) => {
            assert(k@ =~= meta_key_bytes());
            k
        },
        None => Vec::new(),
    }
}

/// What AES-128 decryption under `key`, applied to each 16-byte block of
/// `ciphertext` on its own, gives: the plaintext with its padding still on.
pub uninterp spec fn aes128_ecb_blocks(key: Seq<u8>, ciphertext: Seq<u8>) -> Seq<u8>;

/// `data` without the run of equal bytes at its end that its last byte
/// counts: the last byte tells how many bytes are removed, and each of them
/// holds that number. `None` where `data` is empty, or that number is zero or
/// more than `data` has bytes, or a byte differs. The run may be longer than
/// one block.
pub open spec fn trailing_run_removed(data: Seq<u8>) -> Option<Seq<u8>> {
    if data.len() == 0 {
        None
    } else {
        let n = data.last() as int;
        if n == 0 || n > data.len() {
            None
        } else if forall|i: int| data.len() - n <= i < data.len() ==> data[i] == n {
            Some(data.take(data.len() - n))
        } else {
            None
        }
    }
}

/// `data` without its PKCS7 padding for 16-byte blocks: the last byte is a
/// count from 1 to 16, and that many bytes at the end hold it. `None` where
/// the end of `data` is no such pattern.
pub open spec fn pkcs7_unpadded(data: Seq<u8>) -> Option<Seq<u8>> {
    if data.len() == 0 {
        None
    } else {
        let n = data.last() as int;
        if n == 0 || n > 16 || n > data.len() {
            None
        } else if forall|i: int| data.len() - n <= i < data.len() ==> data[i] == n {
            Some(data.take(data.len() - n))
        } else {
            None
        }
    }
}

/// Runs `Ecb::<Aes128, Pkcs7>::new_from_slices` and then `decrypt_vec` of
/// `block_modes`.
///
/// Trusted: a key that is not 16 bytes or a ciphertext that is not a whole
/// number of blocks gives `None`; otherwise the blocks are decrypted in
/// place, which [`aes128_ecb_blocks`] names and which keeps the length, and
/// the result is that plaintext without the run that its last byte counts,
/// or `None` where there is no such run.
#[verifier::external_body]
fn aes128_ecb_pkcs7_decrypt(key: &[u8], ciphertext: &[u8]) -> (r: Option<Vec<u8>>)
    ensures
        key@.len() != 16 || ciphertext@.len() % 16 != 0 ==> r is None,
        key@.len() == 16 && ciphertext@.len() % 16 == 0 ==> (match trailing_run_removed(
            aes128_ecb_blocks(key@, ciphertext@),
        ) {
            Some(p) => r is Some && r->Some_0@ == p,
            None => r is None,
        }),
        r is Some ==> aes128_ecb_blocks(key@, ciphertext@).len() == ciphertext@.len(),
{
    let cipher = Ecb::<Aes128, Pkcs7>::new_from_slices(key, &[]).ok()?;
    cipher.decrypt_vec(ciphertext).ok()
}

/// What [`classify_unwrap`] makes of the cipher's answer for a ciphertext of
/// the given length: the plaintext where between 1 and 16 bytes were removed
/// from a whole number of blocks.
pub open spec fn ecb_outcome(ciphertext_len: int, unwrapped: Option<Seq<u8>>) -> Result<
    Seq<u8>,
    CryptoError,
> {
    if ciphertext_len % 16 != 0 {
        Err(CryptoError::InvalidLength)
    } else {
        match unwrapped {
            Some(p) => if 1 <= ciphertext_len - p.len() <= 16 {
                Ok(p)
            } else {
                Err(CryptoError::InvalidPadding)
            },
            None => Err(CryptoError::InvalidPadding),
        }
    }
}

/// The plaintext of `ciphertext` under the 16-byte `key`, or the error: an
/// invalid length where the ciphertext is not a whole number of blocks, and
/// otherwise invalid padding where the decrypted blocks do not end in one.
pub open spec fn ecb_plaintext(key: Seq<u8>, ciphertext: Seq<u8>) -> Result<Seq<u8>, CryptoError> {
    if ciphertext.len() % 16 != 0 {
        Err(CryptoError::InvalidLength)
    } else {
        match pkcs7_unpadded(aes128_ecb_blocks(key, ciphertext)) {
            Some(p) => Ok(p),
            None => Err(CryptoError::InvalidPadding),
        }
    }
}

/// Whether an exec result carries the bytes or the error of a spec result.
pub open spec fn same_bytes<E>(r: Result<Vec<u8>, E>, model: Result<Seq<u8>, E>) -> bool {
    match model {
        Ok(p) => r is Ok && r->Ok_0@ == p,
        Err(e) => r is Err && r->Err_0 == e,
    }
}

/// Turns the cipher's answer into the unwrap's result: a ciphertext that is
/// not a whole number of blocks is an invalid length whatever the cipher said;
/// a plaintext is accepted where the padding removed was 1 to 16 bytes; all
/// else is invalid padding.
pub fn classify_unwrap(ciphertext_len: usize, unwrapped: Option<Vec<u8>>) -> (r: Result<
    Vec<u8>,
    CryptoError,
>)
    ensures
        same_bytes(
            r,
            ecb_outcome(
                ciphertext_len as int,
                match unwrapped {
                    Some(p) => Some(p@),
                    None => None,
                },
            ),
        ),
{
    if ciphertext_len % 16 != 0 {
        Err(CryptoError::InvalidLength)
    } else {
        match unwrapped {
            Some(p) => {
                if p.len() < ciphertext_len && ciphertext_len - p.len() <= 16 {
                    Ok(p)
                } else {
                    Err(CryptoError::InvalidPadding)
                }
            },
            None => Err(CryptoError::InvalidPadding),
        }
    }
}

/// Decrypts `ciphertext` block by block under a 16-byte key and removes the
/// padding of the last block.
pub fn ecb_decrypt(key: &[u8], ciphertext: &[u8]) -> (r: Result<Vec<u8>, CryptoError>)
    requires
        key@.len() == 16,
    ensures
        same_bytes(r, ecb_plaintext(key@, ciphertext@)),
        ciphertext@.len() % 16 != 0 ==> r == Err::<Vec<u8>, CryptoError>(
            CryptoError::InvalidLength,
        ),
        r is Ok ==> aes128_ecb_blocks(key@, ciphertext@).len() == ciphertext@.len()
            && ciphertext@.len() % 16 == 0
            && ciphertext@.len() - 16 <= r->Ok_0@.len() < ciphertext@.len(),
{
    if ciphertext.len() % 16 != 0 {
        return Err(CryptoError::InvalidLength);
    }
    classify_unwrap(ciphertext.len(), aes128_ecb_pkcs7_decrypt(key, ciphertext))
}

/// Each byte of `s` combined with `k` by exclusive or.
pub open spec fn xor_bytes(s: Seq<u8>, k: u8) -> Seq<u8> {
    Seq::new(s.len(), |i: int| s[i] ^ k)
}

/// Removes the fixed mask `k` from a section's bytes.
pub fn xor_mask(data: &mut Vec<u8>, k: u8)
    ensures
        final(data)@ == xor_bytes(old(data)@, k),
{
    let n: usize = data.len();
    let mut i: usize = 0;
    while i < n
        invariant
            i <= n,
            data@.len() == n,
            old(data)@.len() == n,
            forall|j: int| 0 <= j < i ==> data@[j] == old(data)@[j] ^ k,
            forall|j: int| i <= j < n ==> data@[j] == old(data)@[j],
        decreases n - i,
    {
        let b: u8 = data[i];
        data.set(i, b ^ k);
        i = i + 1;
    }
    assert(data@ =~= xor_bytes(old(data)@, k));
}

} // verus!

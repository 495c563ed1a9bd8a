//! A forward-only cursor over a container's bytes.

use vstd::prelude::*;
use vstd::slice::slice_subrange;
use vstd::slice::slice_to_vec;
use crate::error::FormatError;

verus! {

/// Whether `s` starts with the eight ASCII bytes `CTENFDAM`.
pub open spec fn has_magic(s: Seq<u8>) -> bool {
    s.len() >= 8 && s[0] == 0x43 && s[1] == 0x54 && s[2] == 0x45 && s[3] == 0x4E && s[4] == 0x46
        && s[5] == 0x44 && s[6] == 0x41 && s[7] == 0x4D
}

/// The little-endian unsigned integer that the first four bytes of `s` spell.
pub open spec fn le_u32(s: Seq<u8>) -> int
    recommends
        s.len() >= 4,
{
    s[0] as int + 256 * (s[1] as int) + 65536 * (s[2] as int) + 16777216 * (s[3] as int)
}

/// A cursor over a container. It only moves forward.
pub struct Reader<'a> {
    pub data: &'a [u8],
    pub pos: usize,
}

impl<'a> Reader<'a> {
    /// The cursor stands inside the data or at its end.
    pub open spec fn wf(&self) -> bool {
        self.pos <= self.data@.len()
    }

    /// The bytes not yet consumed.
    pub open spec fn remaining(&self) -> Seq<u8> {
        self.data@.skip(self.pos as int)
    }

    /// Starts reading a container: checks the magic header and stands behind it.
    pub fn open(source: &'a [u8]) -> (r: Result<Reader<'a>, FormatError>)
        ensures
            has_magic(source@) ==> r is Ok && r->Ok_0.wf() && r->Ok_0.remaining() == source@.skip(8),
            !has_magic(source@) ==> r == Err::<Reader<'a>, FormatError>(FormatError::BadMagic),
    {
        if source.len() >= 8 && source[0] == 0x43 && source[1] == 0x54 && source[2] == 0x45
            && source[3] == 0x4E && source[4] == 0x46 && source[5] == 0x44 && source[6] == 0x41
            && source[7] == 0x4D {
            Ok(Reader { data: source, pos: 8 })
        } else {
            Err(FormatError::BadMagic)
        }
    }

    /// Moves the cursor `n` bytes on, or fails and leaves it where it is.
    pub fn skip(&mut self, n: usize) -> (r: Result<(), FormatError>)
        requires
            old(self).wf(),
        ensures
            final(self).wf(),
            n <= old(self).remaining().len() ==> r is Ok
                && final(self).remaining() == old(self).remaining().skip(n as int),
            n > old(self).remaining().len() ==> r == Err::<(), FormatError>(FormatError::Truncated)
                && *final(self) == *old(self),
    {
        if n > self.data.len() - self.pos {
            return Err(FormatError::Truncated);
        }
        self.pos = self.pos + n;
        assert(self.remaining() =~= old(self).remaining().skip(n as int));
        Ok(())
    }

    /// Reads a four-byte little-endian unsigned integer.
    pub fn read_u32_le(&mut self) -> (r: Result<u32, FormatError>)
        requires
            old(self).wf(),
        ensures
            final(self).wf(),
            4 <= old(self).remaining().len() ==> r is Ok && r->Ok_0 == le_u32(old(self).remaining())
                && final(self).remaining() == old(self).remaining().skip(4),
            4 > old(self).remaining().len() ==> r == Err::<u32, FormatError>(FormatError::Truncated)
                && *final(self) == *old(self),
    {
        if 4 > self.data.len() - self.pos {
            return Err(FormatError::Truncated);
        }
        let p: usize = self.pos;
        let b0: u32 = self.data[p] as u32;
        let b1: u32 = self.data[p + 1] as u32;
        let b2: u32 = self.data[p + 2] as u32;
        let b3: u32 = self.data[p + 3] as u32;
        self.pos = p + 4;
        assert(self.remaining() =~= old(self).remaining().skip(4));
        Ok(b0 + 256 * b1 + 65536 * b2 + 16777216 * b3)
    }

    /// Reads exactly `n` bytes, never fewer.
    pub fn read_exact(&mut self, n: usize) -> (r: Result<Vec<u8>, FormatError>)
        requires
            old(self).wf(),
        ensures
            final(self).wf(),
            n <= old(self).remaining().len() ==> r is Ok
                && r->Ok_0@ == old(self).remaining().take(n as int)
                && final(self).remaining() == old(self).remaining().skip(n as int),
            n > old(self).remaining().len() ==> r == Err::<Vec<u8>, FormatError>(
                FormatError::Truncated,
            ) && *final(self) == *old(self),
    {
        if n > self.data.len() - self.pos {
            return Err(FormatError::Truncated);
        }
        let p: usize = self.pos;
        let out = slice_to_vec(slice_subrange(self.data, p, p + n));
        self.pos = p + n;
        assert(self.remaining() =~= old(self).remaining().skip(n as int));
        assert(out@ =~= old(self).remaining().take(n as int));
        Ok(out)
    }

    /// Hands out everything that is left and moves the cursor to the end.
    pub fn read_to_end(&mut self) -> (out: &'a [u8])
        requires
            old(self).wf(),
        ensures
            final(self).wf(),
            out@ == old(self).remaining(),
            final(self).remaining().len() == 0,
    {
        let p: usize = self.pos;
        let out = slice_subrange(self.data, p, self.data.len());
        self.pos = self.data.len();
        assert(out@ =~= old(self).remaining());
        out
    }
}

/// A length-prefixed section at the start of `s`: its payload and what follows
/// it, or `None` where `s` is shorter than the prefix and the length it declares.
pub open spec fn section(s: Seq<u8>) -> Option<(Seq<u8>, Seq<u8>)> {
    if s.len() < 4 {
        None
    } else if s.len() - 4 < le_u32(s) {
        None
    } else {
        Some((s.subrange(4, 4 + le_u32(s)), s.skip(4 + le_u32(s))))
    }
}

/// Reads a length prefix and the bytes it announces.
pub fn read_section(reader: &mut Reader) -> (r: Result<Vec<u8>, FormatError>)
    requires
        old(reader).wf(),
    ensures
        final(reader).wf(),
        match section(old(reader).remaining()) {
            Some((payload, rest)) => r is Ok && r->Ok_0@ == payload && final(reader).remaining()
                == rest,
            None => r == Err::<Vec<u8>, FormatError>(FormatError::Truncated),
        },
{
    let n = reader.read_u32_le()?;
    let out = reader.read_exact(n as usize)?;
    proof {
        let s = old(reader).remaining();
        assert(s.skip(4).take(n as int) =~= s.subrange(4, 4 + n));
        assert(s.skip(4).skip(n as int) =~= s.skip(4 + n));
    }
    Ok(out)
}

} // verus!

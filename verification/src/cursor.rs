use vstd::prelude::*;

use crate::error::UnpackError;

verus! {

/// Little-endian value of the two bytes of `s` starting at `i`.
pub open spec fn le16(s: Seq<u8>, i: int) -> u16 {
    (s[i] as u16) | ((s[i + 1] as u16) << 8)
}

/// Little-endian value of the four bytes of `s` starting at `i`.
pub open spec fn le32(s: Seq<u8>, i: int) -> u32 {
    (s[i] as u32) | ((s[i + 1] as u32) << 8) | ((s[i + 2] as u32) << 16) | ((s[i + 3] as u32)
        << 24)
}

/// Little-endian value of the eight bytes of `s` starting at `i`.
pub open spec fn le64(s: Seq<u8>, i: int) -> u64 {
    (le32(s, i) as u64) | ((le32(s, i + 4) as u64) << 32)
}

/// Sequential little-endian reader over an immutable byte buffer. The buffer
/// itself is passed to each read, so one cursor can be reused across calls;
/// a read or forward skip that would pass the end of the buffer fails with
/// `TruncatedData` and leaves the position unchanged.
pub struct Cursor {
    pub pos: usize,
}

impl Cursor {
    pub fn new() -> (c: Cursor)
        ensures
            c.pos == 0,
    {
        Cursor { pos: 0 }
    }

    pub fn position(&self) -> (p: usize)
        ensures
            p == self.pos,
    {
        self.pos
    }

    /// Seek to an absolute offset; fails if the offset lies past the end.
    pub fn seek_to(&mut self, data: &Vec<u8>, target: usize) -> (r: Result<(), UnpackError>)
        ensures
            r is Ok <==> target <= data@.len(),
            r is Ok ==> final(self).pos == target,
            r is Err ==> *final(self) == *old(self) && r == Err::<(), UnpackError>(
                UnpackError::TruncatedData,
            ),
    {
        if target <= data.len() {
            self.pos = target;
            Ok(())
        } else {
            Err(UnpackError::TruncatedData)
        }
    }

    /// Move forward by `n` bytes; fails if that would pass the end.
    pub fn skip(&mut self, data: &Vec<u8>, n: usize) -> (r: Result<(), UnpackError>)
        ensures
            r is Ok <==> old(self).pos + n <= data@.len(),
            r is Ok ==> final(self).pos == old(self).pos + n,
            r is Err ==> *final(self) == *old(self) && r == Err::<(), UnpackError>(
                UnpackError::TruncatedData,
            ),
    {
        if self.pos <= data.len() && n <= data.len() - self.pos {
            self.pos = self.pos + n;
            Ok(())
        } else {
            Err(UnpackError::TruncatedData)
        }
    }

    /// Move backward by `n` bytes. The callers all know statically that the
    /// position is large enough, so this cannot fail.
    pub fn seek_back(&mut self, n: usize)
        requires
            n <= old(self).pos,
        ensures
            final(self).pos == old(self).pos - n,
    {
        self.pos = self.pos - n;
    }

    pub fn read_u8(&mut self, data: &Vec<u8>) -> (r: Result<u8, UnpackError>)
        ensures
            r is Ok <==> old(self).pos + 1 <= data@.len(),
            r is Ok ==> r == Ok::<u8, UnpackError>(data@[old(self).pos as int])
                && final(self).pos == old(self).pos + 1,
            r is Err ==> *final(self) == *old(self) && r == Err::<u8, UnpackError>(
                UnpackError::TruncatedData,
            ),
    {
        if self.pos < data.len() {
            let b = data[self.pos];
            self.pos = self.pos + 1;
            Ok(b)
        } else {
            Err(UnpackError::TruncatedData)
        }
    }

    pub fn read_u16(&mut self, data: &Vec<u8>) -> (r: Result<u16, UnpackError>)
        ensures
            r is Ok <==> old(self).pos + 2 <= data@.len(),
            r is Ok ==> r == Ok::<u16, UnpackError>(le16(data@, old(self).pos as int))
                && final(self).pos == old(self).pos + 2,
            r is Err ==> *final(self) == *old(self) && r == Err::<u16, UnpackError>(
                UnpackError::TruncatedData,
            ),
    {
        if self.pos <= data.len() && 2 <= data.len() - self.pos {
            let b0 = data[self.pos];
            let b1 = data[self.pos + 1];
            self.pos = self.pos + 2;
            Ok((b0 as u16) | ((b1 as u16) << 8))
        } else {
            Err(UnpackError::TruncatedData)
        }
    }

    pub fn read_u32(&mut self, data: &Vec<u8>) -> (r: Result<u32, UnpackError>)
        ensures
            r is Ok <==> old(self).pos + 4 <= data@.len(),
            r is Ok ==> r == Ok::<u32, UnpackError>(le32(data@, old(self).pos as int))
                && final(self).pos == old(self).pos + 4,
            r is Err ==> *final(self) == *old(self) && r == Err::<u32, UnpackError>(
                UnpackError::TruncatedData,
            ),
    {
        if self.pos <= data.len() && 4 <= data.len() - self.pos {
            let b0 = data[self.pos];
            let b1 = data[self.pos + 1];
            let b2 = data[self.pos + 2];
            let b3 = data[self.pos + 3];
            self.pos = self.pos + 4;
            Ok((b0 as u32) | ((b1 as u32) << 8) | ((b2 as u32) << 16) | ((b3 as u32) << 24))
        } else {
            Err(UnpackError::TruncatedData)
        }
    }

    pub fn read_u64(&mut self, data: &Vec<u8>) -> (r: Result<u64, UnpackError>)
        ensures
            r is Ok <==> old(self).pos + 8 <= data@.len(),
            r is Ok ==> r == Ok::<u64, UnpackError>(le64(data@, old(self).pos as int))
                && final(self).pos == old(self).pos + 8,
            r is Err ==> *final(self) == *old(self) && r == Err::<u64, UnpackError>(
                UnpackError::TruncatedData,
            ),
    {
        if self.pos <= data.len() && 8 <= data.len() - self.pos {
            let lo = match self.read_u32(data) {
                Ok(v) => v,
                Err(e) => {
                    return Err(e);
                },
            };
            let hi = match self.read_u32(data) {
                Ok(v) => v,
                Err(e) => {
                    return Err(e);
                },
            };
            Ok((lo as u64) | ((hi as u64) << 32))
        } else {
            Err(UnpackError::TruncatedData)
        }
    }
}

} // verus!

//! Rendered speech, held as PCM bytes, read out to the voice driver by a
//! cursor that can seek.
use vstd::prelude::*;
use vstd::math::min;

verus! {

/// Where a seek goes, counted from the start, from the end, or from the
/// current position.
#[derive(Clone, Copy, Debug, PartialEq, Eq, Structural)]
pub enum SeekPosition {
    Start(u64),
    End(i64),
    Current(i64),
}

/// The little-endian bytes of 16-bit samples, in order.
pub open spec fn pcm_bytes(samples: Seq<i16>) -> Seq<u8> {
    Seq::new(
        samples.len() * 2,
        |i: int|
            if i % 2 == 0 {
                ((samples[i / 2] as u16) % 256) as u8
            } else {
                ((samples[i / 2] as u16) / 256) as u8
            },
    )
}

/// The position a seek lands on in `len` bytes from `pos`: a target before
/// the start lands at the end, and one past the end at the end.
pub open spec fn seek_target(pos: int, len: int, to: SeekPosition) -> int {
    let target: int = match to {
        SeekPosition::Start(p) => p as int,
        SeekPosition::End(p) => len + p,
        SeekPosition::Current(p) => pos + p,
    };
    if target < 0 || target > len {
        len
    } else {
        target
    }
}

/// The bytes a read of up to `n` bytes at `pos` returns: as many as are
/// asked for, or as remain.
pub open spec fn read_range(bytes: Seq<u8>, pos: int, n: int) -> Seq<u8> {
    bytes.subrange(pos, pos + min(n, bytes.len() - pos))
}

/// Consecutive reads return the bytes in order, with no gap and no byte
/// twice: two reads return what one read of both lengths would.
pub proof fn lemma_consecutive_reads(bytes: Seq<u8>, pos: int, a: nat, b: nat)
    requires
        0 <= pos <= bytes.len(),
    ensures
        read_range(bytes, pos, a as int) + read_range(
            bytes,
            pos + read_range(bytes, pos, a as int).len(),
            b as int,
        ) == read_range(bytes, pos, (a + b) as int),
{
    let first = read_range(bytes, pos, a as int);
    let second = read_range(bytes, pos + first.len(), b as int);
    assert(first + second =~= read_range(bytes, pos, (a + b) as int));
}

/// True when a seek's target fits an `i64`, as it is computed.
pub open spec fn seek_is_defined(pos: int, len: int, to: SeekPosition) -> bool {
    match to {
        SeekPosition::Start(_) => true,
        SeekPosition::End(p) => i64::MIN <= len + p <= i64::MAX && len <= i64::MAX,
        SeekPosition::Current(p) => i64::MIN <= pos + p <= i64::MAX && pos <= i64::MAX,
    }
}

/// PCM audio held as bytes, and the position of the next byte to read.
pub struct VecMediaSource {
    data: Vec<u8>,
    pos: usize,
}

impl VecMediaSource {
    /// The bytes held.
    pub closed spec fn bytes(&self) -> Seq<u8> {
        self.data@
    }

    /// The position of the next byte to read.
    pub closed spec fn position(&self) -> int {
        self.pos as int
    }

    /// The position never passes the end.
    pub closed spec fn wf(&self) -> bool {
        self.pos <= self.data@.len()
    }

    /// A well-formed source's position lies between the start and the end
    /// of its bytes.
    pub proof fn lemma_position_within(&self)
        requires
            self.wf(),
        ensures
            0 <= self.position() <= self.bytes().len(),
    {
    }

    /// A source holding `data` as little-endian PCM bytes, read from the
    /// start.
    pub fn new(data: &Vec<i16>) -> (s: VecMediaSource)
        requires
            data@.len() * 2 <= usize::MAX,
        ensures
            s.wf(),
            0 <= s.position() <= s.bytes().len(),
            s.bytes() == pcm_bytes(data@),
            s.position() == 0,
    {
        let mut bytes: Vec<u8> = Vec::with_capacity(data.len() * 2);
        let n = data.len();
        for i in 0..n
            invariant
                n == data@.len(),
                n * 2 <= usize::MAX,
                bytes@ == pcm_bytes(data@).subrange(0, 2 * i),
        {
            let x = data[i] as u16;
            bytes.push((x % 256) as u8);
            bytes.push((x / 256) as u8);
            assert(bytes@ =~= pcm_bytes(data@).subrange(0, 2 * i + 2));
        }
        assert(pcm_bytes(data@).subrange(0, 2 * n as int) =~= pcm_bytes(data@));
        VecMediaSource { data: bytes, pos: 0 }
    }

    /// Reads up to `buf_len` bytes from the position, and moves past them:
    /// as many as are asked for, or as remain.
    pub fn read(&mut self, buf_len: usize) -> (bytes: Vec<u8>)
        requires
            old(self).wf(),
        ensures
            final(self).wf(),
            0 <= final(self).position() <= final(self).bytes().len(),
            final(self).bytes() == old(self).bytes(),
            bytes@ == read_range(old(self).bytes(), old(self).position(), buf_len as int),
            final(self).position() == old(self).position() + bytes@.len(),
    {
        let len = self.data.len();
        let remaining = len - self.pos;
        let bytes_to_read = if buf_len < remaining {
            buf_len
        } else {
            remaining
        };
        let mut bytes: Vec<u8> = Vec::with_capacity(bytes_to_read);
        let start = self.pos;
        let mut i: usize = 0;
        while i < bytes_to_read
            invariant
                start == self.pos,
                len == self.data@.len(),
                start + bytes_to_read <= len,
                i <= bytes_to_read,
                bytes@ == self.data@.subrange(start as int, start + i),
            decreases bytes_to_read - i,
        {
            bytes.push(self.data[start + i]);
            assert(bytes@ =~= self.data@.subrange(start as int, start + i + 1));
            i = i + 1;
        }
        self.pos = self.pos + bytes_to_read;
        bytes
    }

    /// Tells whether a seek to `to` is defined (see `seek_is_defined`).
    pub fn can_seek(&self, to: SeekPosition) -> (b: bool)
        requires
            self.wf(),
        ensures
            b == seek_is_defined(self.position(), self.bytes().len() as int, to),
    {
        let len = self.data.len();
        match to {
            SeekPosition::Start(_) => true,
            SeekPosition::End(p) => if len as u64 > i64::MAX as u64 {
                false
            } else {
                (len as i64).checked_add(p).is_some()
            },
            SeekPosition::Current(p) => if self.pos as u64 > i64::MAX as u64 {
                false
            } else {
                (self.pos as i64).checked_add(p).is_some()
            },
        }
    }

    /// Moves the position (see `seek_target`), and returns it.
    pub fn seek(&mut self, to: SeekPosition) -> (pos: u64)
        requires
            old(self).wf(),
            seek_is_defined(old(self).position(), old(self).bytes().len() as int, to),
        ensures
            final(self).wf(),
            0 <= final(self).position() <= final(self).bytes().len(),
            final(self).bytes() == old(self).bytes(),
            final(self).position() == seek_target(old(self).position(), old(self).bytes().len() as int, to),
            pos == final(self).position(),
    {
        let len = self.data.len();
        let target: Option<u64> = match to {
            SeekPosition::Start(p) => Some(p),
            SeekPosition::End(p) => {
                let t = len as i64 + p;
                if t < 0 {
                    None
                } else {
                    Some(t as u64)
                }
            },
            SeekPosition::Current(p) => {
                let t = self.pos as i64 + p;
                if t < 0 {
                    None
                } else {
                    Some(t as u64)
                }
            },
        };
        self.pos = match target {
            Some(t) => if t > len as u64 {
                len
            } else {
                t as usize
            },
            None => len,
        };
        self.pos as u64
    }

    pub fn is_seekable(&self) -> (b: bool)
        ensures
            b,
    {
        true
    }

    /// The number of bytes held, when there are any.
    pub fn byte_len(&self) -> (len: Option<u64>)
        ensures
            self.bytes().len() > 0 ==> len == Some(self.bytes().len() as u64),
            self.bytes().len() == 0 ==> len.is_none(),
    {
        let len = self.data.len();
        if len > 0 {
            Some(len as u64)
        } else {
            None
        }
    }
}

} // verus!

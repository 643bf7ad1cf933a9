use vstd::prelude::*;

verus! {

/// `i` clamped to the length of `s`: a position past the end reads as the end.
pub open spec fn clamp(s: Seq<u8>, i: int) -> int {
    if i < s.len() {
        i
    } else {
        s.len() as int
    }
}

/// What a read of at most `n` bytes at position `at` of `s` yields.
pub open spec fn window(s: Seq<u8>, at: int, n: int) -> Seq<u8> {
    s.subrange(clamp(s, at), clamp(s, at + n))
}

/// Everything from position `at` of `s` to its end.
pub open spec fn rest(s: Seq<u8>, at: int) -> Seq<u8> {
    s.subrange(clamp(s, at), s.len() as int)
}

/// The little-endian 16-bit integer stored at `at`.
pub open spec fn le16(s: Seq<u8>, at: int) -> int {
    s[at] + 256 * s[at + 1]
}

/// The little-endian 32-bit integer stored at `at`.
pub open spec fn le32(s: Seq<u8>, at: int) -> int {
    s[at] + 0x100 * s[at + 1] + 0x1_0000 * s[at + 2] + 0x100_0000 * s[at + 3]
}

/// The big-endian 32-bit integer stored at `at`.
pub open spec fn be32(s: Seq<u8>, at: int) -> int {
    0x100_0000 * s[at] + 0x1_0000 * s[at + 1] + 0x100 * s[at + 2] + s[at + 3]
}

/// A seekable stream of bytes held in memory.
///
/// The cursor may stand anywhere, also past the end; reads there yield
/// nothing, as they do on a file.
pub struct ByteSource {
    data: Vec<u8>,
    pos: u64,
}

impl ByteSource {
    /// The bytes of the stream.
    pub closed spec fn content(&self) -> Seq<u8> {
        self.data@
    }

    /// The position of the cursor.
    pub closed spec fn cursor(&self) -> nat {
        self.pos as nat
    }

    /// Whether `n` bytes can be read from the cursor.
    pub open spec fn has(&self, n: int) -> bool {
        self.cursor() + n <= self.content().len()
    }

    /// A stream over `data`, with the cursor at its start.
    pub fn new(data: Vec<u8>) -> (r: ByteSource)
        ensures
            r.content() == data@,
            r.cursor() == 0,
    {
        ByteSource { data, pos: 0 }
    }

    /// The number of bytes of the stream.
    pub fn len(&self) -> (r: u64)
        ensures
            r == self.content().len(),
    {
        self.data.len() as u64
    }

    /// The position of the cursor.
    pub fn position(&self) -> (r: u64)
        ensures
            r == self.cursor(),
    {
        self.pos
    }

    /// Moves the cursor to the absolute position `to`.
    pub fn seek(&mut self, to: u64)
        ensures
            final(self).content() == old(self).content(),
            final(self).cursor() == to,
    {
        self.pos = to;
    }

    /// Claims the `n` bytes at the cursor, if there are that many, and moves
    /// the cursor past them; returns where they start.
    fn take(&mut self, n: u64) -> (r: Option<usize>)
        ensures
            final(self).content() == old(self).content(),
            r is Some <==> old(self).has(n as int),
            r matches Some(i) ==> i == old(self).cursor() && i + n <= old(self).content().len()
                <= usize::MAX && final(self).cursor() == old(self).cursor() + n,
            r is None ==> final(self).cursor() == old(self).cursor(),
    {
        let len = self.data.len();
        if self.pos <= len as u64 && n <= len as u64 - self.pos {
            let i = self.pos as usize;
            self.pos = self.pos + n;
            Some(i)
        } else {
            None
        }
    }

    /// Reads at most `max` bytes at the cursor and moves the cursor past them.
    pub fn read(&mut self, max: usize) -> (r: Vec<u8>)
        ensures
            final(self).content() == old(self).content(),
            r@ == window(old(self).content(), old(self).cursor() as int, max as int),
            final(self).cursor() == old(self).cursor() + r@.len(),
    {
        let mut out: Vec<u8> = Vec::new();
        let len = self.data.len();
        if self.pos >= len as u64 {
            return out;
        }
        let start = self.pos as usize;
        let end = if max <= len - start {
            start + max
        } else {
            len
        };
        let mut i = start;
        while i < end
            invariant
                start <= i <= end <= len == self.data@.len(),
                out@ == self.data@.subrange(start as int, i as int),
            decreases end - i,
        {
            out.push(self.data[i]);
            i = i + 1;
        }
        self.pos = end as u64;
        out
    }

    /// Reads everything from the cursor to the end of the stream.
    pub fn read_to_end(&mut self) -> (r: Vec<u8>)
        ensures
            final(self).content() == old(self).content(),
            r@ == rest(old(self).content(), old(self).cursor() as int),
            final(self).cursor() == if old(self).cursor() < old(self).content().len() {
                old(self).content().len()
            } else {
                old(self).cursor()
            },
    {
        let max = self.data.len();
        self.read(max)
    }

    /// The bytes from the absolute position `at` to the end, without moving
    /// the cursor.
    pub fn bytes_from(&self, at: u64) -> (r: &[u8])
        ensures
            r@ == rest(self.content(), at as int),
    {
        let len = self.data.len();
        let start = if at < len as u64 {
            at as usize
        } else {
            len
        };
        vstd::slice::slice_subrange(self.data.as_slice(), start, len)
    }

    /// Reads one byte.
    pub fn read_u8(&mut self) -> (r: Option<u8>)
        ensures
            final(self).content() == old(self).content(),
            r is Some <==> old(self).has(1),
            r matches Some(v) ==> v == old(self).content()[old(self).cursor() as int]
                && final(self).cursor() == old(self).cursor() + 1,
            r is None ==> final(self).cursor() == old(self).cursor(),
    {
        match self.take(1) {
            Some(i) => Some(self.data[i]),
            None => None,
        }
    }

    /// Reads a little-endian 16-bit integer.
    pub fn read_u16_le(&mut self) -> (r: Option<u16>)
        ensures
            final(self).content() == old(self).content(),
            r is Some <==> old(self).has(2),
            r matches Some(v) ==> v == le16(old(self).content(), old(self).cursor() as int)
                && final(self).cursor() == old(self).cursor() + 2,
            r is None ==> final(self).cursor() == old(self).cursor(),
    {
        match self.take(2) {
            Some(i) => Some(self.data[i] as u16 + 256 * self.data[i + 1] as u16),
            None => None,
        }
    }

    /// Reads a little-endian 32-bit integer.
    pub fn read_u32_le(&mut self) -> (r: Option<u32>)
        ensures
            final(self).content() == old(self).content(),
            r is Some <==> old(self).has(4),
            r matches Some(v) ==> v == le32(old(self).content(), old(self).cursor() as int)
                && final(self).cursor() == old(self).cursor() + 4,
            r is None ==> final(self).cursor() == old(self).cursor(),
    {
        match self.take(4) {
            Some(i) => Some(
                self.data[i] as u32 + 0x100 * self.data[i + 1] as u32 + 0x1_0000
                    * self.data[i + 2] as u32 + 0x100_0000 * self.data[i + 3] as u32,
            ),
            None => None,
        }
    }

    /// Reads a big-endian 32-bit integer.
    pub fn read_u32_be(&mut self) -> (r: Option<u32>)
        ensures
            final(self).content() == old(self).content(),
            r is Some <==> old(self).has(4),
            r matches Some(v) ==> v == be32(old(self).content(), old(self).cursor() as int)
                && final(self).cursor() == old(self).cursor() + 4,
            r is None ==> final(self).cursor() == old(self).cursor(),
    {
        match self.take(4) {
            Some(i) => Some(
                0x100_0000 * self.data[i] as u32 + 0x1_0000 * self.data[i + 1] as u32 + 0x100
                    * self.data[i + 2] as u32 + self.data[i + 3] as u32,
            ),
            None => None,
        }
    }
}

} // verus!

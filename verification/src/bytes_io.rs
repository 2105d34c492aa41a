//! Byte buffers with big/little-endian field access, the ground the wire
//! codecs stand on.
use vstd::prelude::*;

verus! {

/// Value of two bytes read most significant first.
pub open spec fn be16(b0: u8, b1: u8) -> int {
    b0 * 256 + b1
}

/// Value of three bytes read most significant first.
pub open spec fn be24(b0: u8, b1: u8, b2: u8) -> int {
    b0 * 65536 + b1 * 256 + b2
}

/// Value of four bytes read most significant first.
pub open spec fn be32(b0: u8, b1: u8, b2: u8, b3: u8) -> int {
    b0 * 16777216 + b1 * 65536 + b2 * 256 + b3
}

/// Value of four bytes read least significant first.
pub open spec fn le32(b0: u8, b1: u8, b2: u8, b3: u8) -> int {
    be32(b3, b2, b1, b0)
}

/// Value of the first eight bytes of `s`, most significant first.
pub open spec fn be64(s: Seq<u8>) -> int {
    be32(s[0], s[1], s[2], s[3]) * 4294967296 + be32(s[4], s[5], s[6], s[7])
}

/// Big-endian bytes of a 16-bit value.
pub open spec fn be16_bytes(v: u16) -> Seq<u8> {
    seq![(v / 256) as u8, (v % 256) as u8]
}

/// Big-endian bytes of the low 24 bits of a value.
pub open spec fn be24_bytes(v: u32) -> Seq<u8> {
    seq![((v / 65536) % 256) as u8, ((v / 256) % 256) as u8, (v % 256) as u8]
}

/// Big-endian bytes of a 32-bit value.
pub open spec fn be32_bytes(v: u32) -> Seq<u8> {
    seq![(v / 16777216) as u8, ((v / 65536) % 256) as u8, ((v / 256) % 256) as u8, (v % 256) as u8]
}

/// Little-endian bytes of a 32-bit value.
pub open spec fn le32_bytes(v: u32) -> Seq<u8> {
    seq![(v % 256) as u8, ((v / 256) % 256) as u8, ((v / 65536) % 256) as u8, (v / 16777216) as u8]
}

/// Big-endian bytes of a 64-bit value.
pub open spec fn be64_bytes(v: u64) -> Seq<u8> {
    be32_bytes((v / 4294967296) as u32) + be32_bytes((v % 4294967296) as u32)
}

pub proof fn lemma_be16_roundtrip(v: u16)
    ensures
        be16_bytes(v).len() == 2,
        be16(be16_bytes(v)[0], be16_bytes(v)[1]) == v,
{
}

pub proof fn lemma_be24_roundtrip(v: u32)
    ensures
        be24_bytes(v).len() == 3,
        be24(be24_bytes(v)[0], be24_bytes(v)[1], be24_bytes(v)[2]) == v % 16777216,
{
}

pub proof fn lemma_be32_roundtrip(v: u32)
    ensures
        be32_bytes(v).len() == 4,
        be32(be32_bytes(v)[0], be32_bytes(v)[1], be32_bytes(v)[2], be32_bytes(v)[3]) == v,
{
}

pub proof fn lemma_le32_roundtrip(v: u32)
    ensures
        le32_bytes(v).len() == 4,
        le32(le32_bytes(v)[0], le32_bytes(v)[1], le32_bytes(v)[2], le32_bytes(v)[3]) == v,
{
}

pub proof fn lemma_be64_roundtrip(v: u64)
    ensures
        be64_bytes(v).len() == 8,
        be64(be64_bytes(v)) == v,
{
    lemma_be32_roundtrip((v / 4294967296) as u32);
    lemma_be32_roundtrip((v % 4294967296) as u32);
    let s = be64_bytes(v);
    assert(s.subrange(0, 4) =~= be32_bytes((v / 4294967296) as u32));
}

/// Error raised when a read asks for more bytes than the buffer holds.
#[derive(Debug, Clone, Copy, PartialEq, Eq)]
pub enum BytesReadError {
    NotEnoughBytes,
    IndexOutOfRange,
}

/// A read cursor over a growing byte buffer. Its view is the sequence of
/// bytes not read yet.
pub struct BytesReader {
    data: Vec<u8>,
    pos: usize,
}

impl View for BytesReader {
    type V = Seq<u8>;

    closed spec fn view(&self) -> Seq<u8> {
        self.data@.subrange(self.pos as int, self.data@.len() as int)
    }
}

impl BytesReader {
    #[verifier::type_invariant]
    closed spec fn inv(self) -> bool {
        self.pos <= self.data@.len()
    }

    pub fn new(data: Vec<u8>) -> (r: Self)
        ensures
            r@ == data@,
    {
        let r = BytesReader { data, pos: 0 };
        assert(r@ =~= r.data@);
        r
    }

    /// Appends bytes behind the unread ones.
    pub fn extend_from_slice(&mut self, extra: &[u8])
        ensures
            final(self)@ == old(self)@ + extra@,
    {
        proof {
            use_type_invariant(&*self);
        }
        let mut fresh: Vec<u8> = Vec::new();
        let mut i: usize = self.pos;
        while i < self.data.len()
            invariant
                self.pos <= i <= self.data@.len(),
                fresh@ == self.data@.subrange(self.pos as int, i as int),
            decreases self.data.len() - i,
        {
            fresh.push(self.data[i]);
            i = i + 1;
        }
        let mut j: usize = 0;
        while j < extra.len()
            invariant
                j <= extra@.len(),
                fresh@ == self.data@.subrange(self.pos as int, self.data@.len() as int)
                    + extra@.subrange(0, j as int),
            decreases extra.len() - j,
        {
            fresh.push(extra[j]);
            j = j + 1;
            assert(extra@.subrange(0, j as int) =~= extra@.subrange(0, j - 1) + seq![
                extra@[j - 1],
            ]);
        }
        assert(extra@.subrange(0, extra@.len() as int) =~= extra@);
        *self = BytesReader { data: fresh, pos: 0 };
        assert(self@ =~= self.data@);
    }

    /// Number of unread bytes.
    pub fn len(&self) -> (n: usize)
        ensures
            n == self@.len(),
    {
        proof {
            use_type_invariant(self);
        }
        self.data.len() - self.pos
    }

    pub fn is_empty(&self) -> (b: bool)
        ensures
            b == (self@.len() == 0),
    {
        self.len() == 0
    }

    /// The unread byte at `index` counted from the read position.
    pub fn get(&self, index: usize) -> (r: Result<u8, BytesReadError>)
        ensures
            index < self@.len() ==> r == Ok::<u8, BytesReadError>(self@[index as int]),
            index >= self@.len() ==> r == Err::<u8, BytesReadError>(
                BytesReadError::IndexOutOfRange,
            ),
    {
        proof {
            use_type_invariant(self);
        }
        if index >= self.data.len() - self.pos {
            return Err(BytesReadError::IndexOutOfRange);
        }
        Ok(self.data[self.pos + index])
    }

    /// Consumes `n` bytes and returns them.
    pub fn read_bytes(&mut self, n: usize) -> (r: Result<Vec<u8>, BytesReadError>)
        ensures
            n <= old(self)@.len() ==> r is Ok && r->Ok_0@ == old(self)@.subrange(0, n as int)
                && final(self)@ == old(self)@.subrange(n as int, old(self)@.len() as int),
            n > old(self)@.len() ==> r == Err::<Vec<u8>, BytesReadError>(
                BytesReadError::NotEnoughBytes,
            ) && final(self)@ == old(self)@,
    {
        proof {
            use_type_invariant(&*self);
        }
        if n > self.data.len() - self.pos {
            return Err(BytesReadError::NotEnoughBytes);
        }
        let mut out: Vec<u8> = Vec::new();
        let mut i: usize = 0;
        while i < n
            invariant
                i <= n,
                self.pos <= self.data@.len(),
                self.pos + n <= self.data@.len(),
                self.data@.len() <= usize::MAX,
                out@ == self.data@.subrange(self.pos as int, self.pos + i),
            decreases n - i,
        {
            out.push(self.data[self.pos + i]);
            i = i + 1;
        }
        self.pos = self.pos + n;
        proof {
            assert(out@ =~= old(self)@.subrange(0, n as int));
            assert(self@ =~= old(self)@.subrange(n as int, old(self)@.len() as int));
        }
        Ok(out)
    }

    /// The next byte, without consuming it.
    pub fn advance_u8(&self) -> (r: Result<u8, BytesReadError>)
        ensures
            self@.len() >= 1 ==> r == Ok::<u8, BytesReadError>(self@[0]),
            self@.len() < 1 ==> r == Err::<u8, BytesReadError>(BytesReadError::NotEnoughBytes),
    {
        proof {
            use_type_invariant(self);
        }
        if self.data.len() - self.pos < 1 {
            return Err(BytesReadError::NotEnoughBytes);
        }
        Ok(self.data[self.pos])
    }

    pub fn read_u8(&mut self) -> (r: Result<u8, BytesReadError>)
        ensures
            old(self)@.len() >= 1 ==> r == Ok::<u8, BytesReadError>(old(self)@[0])
                && final(self)@ == old(self)@.subrange(1, old(self)@.len() as int),
            old(self)@.len() < 1 ==> r == Err::<u8, BytesReadError>(
                BytesReadError::NotEnoughBytes,
            ) && final(self)@ == old(self)@,
    {
        proof {
            use_type_invariant(&*self);
        }
        if self.data.len() - self.pos < 1 {
            return Err(BytesReadError::NotEnoughBytes);
        }
        let b: u8 = self.data[self.pos];
        self.pos = self.pos + 1;
        assert(self@ =~= old(self)@.subrange(1, old(self)@.len() as int));
        Ok(b)
    }

    pub fn read_u16_be(&mut self) -> (r: Result<u16, BytesReadError>)
        ensures
            old(self)@.len() >= 2 ==> r is Ok && r->Ok_0 == be16(old(self)@[0], old(self)@[1])
                && final(self)@ == old(self)@.subrange(2, old(self)@.len() as int),
            old(self)@.len() < 2 ==> r == Err::<u16, BytesReadError>(
                BytesReadError::NotEnoughBytes,
            ) && final(self)@ == old(self)@,
    {
        proof {
            use_type_invariant(&*self);
        }
        if self.data.len() - self.pos < 2 {
            return Err(BytesReadError::NotEnoughBytes);
        }
        let b0: u16 = self.data[self.pos] as u16;
        let b1: u16 = self.data[self.pos + 1] as u16;
        self.pos = self.pos + 2;
        assert(self@ =~= old(self)@.subrange(2, old(self)@.len() as int));
        Ok(b0 * 256 + b1)
    }

    /// The next three bytes as a big-endian value, without consuming them.
    pub fn advance_u24_be(&self) -> (r: Result<u32, BytesReadError>)
        ensures
            self@.len() >= 3 ==> r is Ok && r->Ok_0 == be24(self@[0], self@[1], self@[2]),
            self@.len() < 3 ==> r == Err::<u32, BytesReadError>(BytesReadError::NotEnoughBytes),
    {
        proof {
            use_type_invariant(self);
        }
        if self.data.len() - self.pos < 3 {
            return Err(BytesReadError::NotEnoughBytes);
        }
        let b0: u32 = self.data[self.pos] as u32;
        let b1: u32 = self.data[self.pos + 1] as u32;
        let b2: u32 = self.data[self.pos + 2] as u32;
        Ok(b0 * 65536 + b1 * 256 + b2)
    }

    pub fn read_u24_be(&mut self) -> (r: Result<u32, BytesReadError>)
        ensures
            old(self)@.len() >= 3 ==> r is Ok && r->Ok_0 == be24(
                old(self)@[0],
                old(self)@[1],
                old(self)@[2],
            ) && final(self)@ == old(self)@.subrange(3, old(self)@.len() as int),
            old(self)@.len() < 3 ==> r == Err::<u32, BytesReadError>(
                BytesReadError::NotEnoughBytes,
            ) && final(self)@ == old(self)@,
    {
        let r = self.advance_u24_be();
        proof {
            use_type_invariant(&*self);
        }
        if r.is_ok() {
            let total: usize = self.data.len();
            assert(self.pos + 3 <= total);
            self.pos = self.pos + 3;
            assert(self@ =~= old(self)@.subrange(3, old(self)@.len() as int));
        }
        r
    }

    pub fn read_u32_be(&mut self) -> (r: Result<u32, BytesReadError>)
        ensures
            old(self)@.len() >= 4 ==> r is Ok && r->Ok_0 == be32(
                old(self)@[0],
                old(self)@[1],
                old(self)@[2],
                old(self)@[3],
            ) && final(self)@ == old(self)@.subrange(4, old(self)@.len() as int),
            old(self)@.len() < 4 ==> r == Err::<u32, BytesReadError>(
                BytesReadError::NotEnoughBytes,
            ) && final(self)@ == old(self)@,
    {
        proof {
            use_type_invariant(&*self);
        }
        if self.data.len() - self.pos < 4 {
            return Err(BytesReadError::NotEnoughBytes);
        }
        let b0: u32 = self.data[self.pos] as u32;
        let b1: u32 = self.data[self.pos + 1] as u32;
        let b2: u32 = self.data[self.pos + 2] as u32;
        let b3: u32 = self.data[self.pos + 3] as u32;
        self.pos = self.pos + 4;
        assert(self@ =~= old(self)@.subrange(4, old(self)@.len() as int));
        Ok(b0 * 16777216 + b1 * 65536 + b2 * 256 + b3)
    }

    pub fn read_u32_le(&mut self) -> (r: Result<u32, BytesReadError>)
        ensures
            old(self)@.len() >= 4 ==> r is Ok && r->Ok_0 == le32(
                old(self)@[0],
                old(self)@[1],
                old(self)@[2],
                old(self)@[3],
            ) && final(self)@ == old(self)@.subrange(4, old(self)@.len() as int),
            old(self)@.len() < 4 ==> r == Err::<u32, BytesReadError>(
                BytesReadError::NotEnoughBytes,
            ) && final(self)@ == old(self)@,
    {
        proof {
            use_type_invariant(&*self);
        }
        if self.data.len() - self.pos < 4 {
            return Err(BytesReadError::NotEnoughBytes);
        }
        let b0: u32 = self.data[self.pos] as u32;
        let b1: u32 = self.data[self.pos + 1] as u32;
        let b2: u32 = self.data[self.pos + 2] as u32;
        let b3: u32 = self.data[self.pos + 3] as u32;
        self.pos = self.pos + 4;
        assert(self@ =~= old(self)@.subrange(4, old(self)@.len() as int));
        Ok(b3 * 16777216 + b2 * 65536 + b1 * 256 + b0)
    }

    pub fn read_u64_be(&mut self) -> (r: Result<u64, BytesReadError>)
        ensures
            old(self)@.len() >= 8 ==> r is Ok && r->Ok_0 == be64(old(self)@) && final(self)@
                == old(self)@.subrange(8, old(self)@.len() as int),
            old(self)@.len() < 8 ==> r == Err::<u64, BytesReadError>(
                BytesReadError::NotEnoughBytes,
            ) && final(self)@ == old(self)@,
    {
        proof {
            use_type_invariant(&*self);
        }
        if self.data.len() - self.pos < 8 {
            return Err(BytesReadError::NotEnoughBytes);
        }
        let hi: u32 = self.read_u32_be().unwrap();
        let lo: u32 = self.read_u32_be().unwrap();
        assert(self@ =~= old(self)@.subrange(8, old(self)@.len() as int));
        Ok((hi as u64) * 4294967296 + lo as u64)
    }

    /// Copy of the unread bytes; the cursor does not move.
    pub fn get_remaining_bytes(&self) -> (r: Vec<u8>)
        ensures
            r@ == self@,
    {
        proof {
            use_type_invariant(self);
        }
        let mut out: Vec<u8> = Vec::new();
        let mut i: usize = self.pos;
        while i < self.data.len()
            invariant
                self.pos <= i <= self.data@.len(),
                out@ == self.data@.subrange(self.pos as int, i as int),
            decreases self.data.len() - i,
        {
            out.push(self.data[i]);
            i = i + 1;
        }
        out
    }

    /// Takes all unread bytes, leaving the reader empty.
    pub fn extract_remaining_bytes(&mut self) -> (r: Vec<u8>)
        ensures
            r@ == old(self)@,
            final(self)@ == Seq::<u8>::empty(),
    {
        let out = self.get_remaining_bytes();
        *self = BytesReader { data: Vec::new(), pos: 0 };
        assert(self@ =~= Seq::<u8>::empty());
        out
    }
}

/// An append-only byte buffer with big/little-endian field writers.
pub struct BytesWriter {
    data: Vec<u8>,
}

impl View for BytesWriter {
    type V = Seq<u8>;

    closed spec fn view(&self) -> Seq<u8> {
        self.data@
    }
}

impl BytesWriter {
    pub fn new() -> (w: Self)
        ensures
            w@ == Seq::<u8>::empty(),
    {
        BytesWriter { data: Vec::new() }
    }

    pub fn len(&self) -> (n: usize)
        ensures
            n == self@.len(),
    {
        self.data.len()
    }

    pub fn write_u8(&mut self, b: u8)
        ensures
            final(self)@ == old(self)@.push(b),
    {
        self.data.push(b);
    }

    pub fn write(&mut self, bytes: &[u8])
        ensures
            final(self)@ == old(self)@ + bytes@,
    {
        let mut i: usize = 0;
        while i < bytes.len()
            invariant
                i <= bytes@.len(),
                self@ == old(self)@ + bytes@.subrange(0, i as int),
            decreases bytes.len() - i,
        {
            self.data.push(bytes[i]);
            i = i + 1;
            assert(bytes@.subrange(0, i as int) =~= bytes@.subrange(0, i - 1).push(
                bytes@[i - 1],
            ));
        }
        assert(bytes@.subrange(0, bytes@.len() as int) =~= bytes@);
    }

    pub fn write_u16_be(&mut self, v: u16)
        ensures
            final(self)@ == old(self)@ + be16_bytes(v),
    {
        self.data.push((v / 256) as u8);
        self.data.push((v % 256) as u8);
        assert(self@ =~= old(self)@ + be16_bytes(v));
    }

    pub fn write_u24_be(&mut self, v: u32)
        ensures
            final(self)@ == old(self)@ + be24_bytes(v),
    {
        self.data.push(((v / 65536) % 256) as u8);
        self.data.push(((v / 256) % 256) as u8);
        self.data.push((v % 256) as u8);
        assert(self@ =~= old(self)@ + be24_bytes(v));
    }

    pub fn write_u32_be(&mut self, v: u32)
        ensures
            final(self)@ == old(self)@ + be32_bytes(v),
    {
        self.data.push((v / 16777216) as u8);
        self.data.push(((v / 65536) % 256) as u8);
        self.data.push(((v / 256) % 256) as u8);
        self.data.push((v % 256) as u8);
        assert(self@ =~= old(self)@ + be32_bytes(v));
    }

    pub fn write_u32_le(&mut self, v: u32)
        ensures
            final(self)@ == old(self)@ + le32_bytes(v),
    {
        self.data.push((v % 256) as u8);
        self.data.push(((v / 256) % 256) as u8);
        self.data.push(((v / 65536) % 256) as u8);
        self.data.push((v / 16777216) as u8);
        assert(self@ =~= old(self)@ + le32_bytes(v));
    }

    pub fn write_u64_be(&mut self, v: u64)
        ensures
            final(self)@ == old(self)@ + be64_bytes(v),
    {
        self.write_u32_be((v / 4294967296) as u32);
        self.write_u32_be((v % 4294967296) as u32);
        assert(self@ =~= old(self)@ + be64_bytes(v));
    }

    /// A copy of everything written so far.
    pub fn get_current_bytes(&self) -> (r: Vec<u8>)
        ensures
            r@ == self@,
    {
        self.data.clone()
    }

    /// Takes everything written so far, leaving the writer empty.
    pub fn extract_current_bytes(&mut self) -> (r: Vec<u8>)
        ensures
            r@ == old(self)@,
            final(self)@ == Seq::<u8>::empty(),
    {
        let mut out: Vec<u8> = Vec::new();
        std::mem::swap(&mut out, &mut self.data);
        out
    }
}

/// `a` followed by `b`, in a new vector.
pub fn concat_bytes(a: &[u8], b: &[u8]) -> (r: Vec<u8>)
    ensures
        r@ == a@ + b@,
{
    let mut r: Vec<u8> = Vec::new();
    let mut i: usize = 0;
    while i < a.len()
        invariant
            i <= a@.len(),
            r@ == a@.subrange(0, i as int),
        decreases a.len() - i,
    {
        r.push(a[i]);
        i = i + 1;
        assert(a@.subrange(0, i as int) =~= a@.subrange(0, i - 1).push(a@[i - 1]));
    }
    let mut j: usize = 0;
    while j < b.len()
        invariant
            j <= b@.len(),
            r@ == a@ + b@.subrange(0, j as int),
        decreases b.len() - j,
    {
        r.push(b[j]);
        j = j + 1;
        assert(b@.subrange(0, j as int) =~= b@.subrange(0, j - 1).push(b@[j - 1]));
    }
    assert(a@.subrange(0, a@.len() as int) =~= a@);
    assert(b@.subrange(0, b@.len() as int) =~= b@);
    r
}

/// Whether two byte strings are equal.
pub fn bytes_equal(a: &[u8], b: &[u8]) -> (r: bool)
    ensures
        r == (a@ == b@),
{
    if a.len() != b.len() {
        return false;
    }
    let mut i: usize = 0;
    while i < a.len()
        invariant
            a@.len() == b@.len(),
            i <= a@.len(),
            forall|k: int| 0 <= k < i ==> a@[k] == b@[k],
        decreases a.len() - i,
    {
        if a[i] != b[i] {
            return false;
        }
        i = i + 1;
    }
    assert(a@ =~= b@);
    true
}

} // verus!

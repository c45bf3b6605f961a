//! Big-endian numbers in byte sequences: how they are laid out, how they are
//! appended to a buffer and how they are read back.
use vstd::prelude::*;

verus! {

/// The two bytes of `x`, most significant first.
#[verifier::opaque]
pub open spec fn be16(x: u16) -> Seq<u8> {
    seq![(x / 256) as u8, (x % 256) as u8]
}

/// The four bytes of `x`, most significant first.
#[verifier::opaque]
pub open spec fn be32(x: u32) -> Seq<u8> {
    be16((x / 65536) as u16) + be16((x % 65536) as u16)
}

/// The eight bytes of `x`, most significant first.
#[verifier::opaque]
pub open spec fn be64(x: u64) -> Seq<u8> {
    be32((x / 0x1_0000_0000) as u32) + be32((x % 0x1_0000_0000) as u32)
}

/// The two's complement pattern of a signed number.
pub open spec fn bits32(x: i32) -> u32 {
    if x < 0 {
        (x + 0x1_0000_0000) as u32
    } else {
        x as u32
    }
}

/// The signed number that a two's complement pattern stands for.
pub open spec fn signed32(x: u32) -> i32 {
    if x >= 0x8000_0000 {
        (x - 0x1_0000_0000) as i32
    } else {
        x as i32
    }
}

/// One byte for a flag.
pub open spec fn flag(x: bool) -> u8 {
    if x {
        1
    } else {
        0
    }
}

/// The 16-bit number whose bytes start at index `at`.
#[verifier::opaque]
pub open spec fn u16_at(b: Seq<u8>, at: int) -> u16 {
    (b[at] * 256 + b[at + 1]) as u16
}

/// The 32-bit number whose bytes start at index `at`.
#[verifier::opaque]
pub open spec fn u32_at(b: Seq<u8>, at: int) -> u32 {
    (u16_at(b, at) * 65536 + u16_at(b, at + 2)) as u32
}

/// The 64-bit number whose bytes start at index `at`.
#[verifier::opaque]
pub open spec fn u64_at(b: Seq<u8>, at: int) -> u64 {
    (u32_at(b, at) * 0x1_0000_0000 + u32_at(b, at + 4)) as u64
}

pub broadcast proof fn be16_len(x: u16)
    ensures
        #[trigger] be16(x).len() == 2,
{
    reveal(be16);
}

pub broadcast proof fn be32_len(x: u32)
    ensures
        #[trigger] be32(x).len() == 4,
{
    broadcast use be16_len;

    reveal(be32);
}

pub broadcast proof fn be64_len(x: u64)
    ensures
        #[trigger] be64(x).len() == 8,
{
    broadcast use be32_len;

    reveal(be64);
}

/// The number of bytes of each kind of number.
pub broadcast group group_be_len {
    be16_len,
    be32_len,
    be64_len,
}

/// Reading back what `be16` laid out.
pub proof fn lemma_be16(b: Seq<u8>, at: int, x: u16)
    requires
        0 <= at,
        at + 2 <= b.len(),
        b.subrange(at, at + 2) == be16(x),
    ensures
        u16_at(b, at) == x,
{
    reveal(be16);
    reveal(u16_at);
    let s = b.subrange(at, at + 2);
    assert(s[0] == b[at]);
    assert(s[1] == b[at + 1]);
}

/// Reading back what `be32` laid out.
pub proof fn lemma_be32(b: Seq<u8>, at: int, x: u32)
    requires
        0 <= at,
        at + 4 <= b.len(),
        b.subrange(at, at + 4) == be32(x),
    ensures
        u32_at(b, at) == x,
{
    broadcast use group_be_len;

    reveal(be32);
    reveal(u32_at);
    let s = b.subrange(at, at + 4);
    assert(b.subrange(at, at + 2) =~= s.subrange(0, 2));
    assert(s.subrange(0, 2) =~= be16((x / 65536) as u16));
    assert(b.subrange(at + 2, at + 4) =~= s.subrange(2, 4));
    assert(s.subrange(2, 4) =~= be16((x % 65536) as u16));
    lemma_be16(b, at, (x / 65536) as u16);
    lemma_be16(b, at + 2, (x % 65536) as u16);
}

/// Reading back what `be64` laid out.
pub proof fn lemma_be64(b: Seq<u8>, at: int, x: u64)
    requires
        0 <= at,
        at + 8 <= b.len(),
        b.subrange(at, at + 8) == be64(x),
    ensures
        u64_at(b, at) == x,
{
    broadcast use group_be_len;

    reveal(be64);
    reveal(u64_at);
    let s = b.subrange(at, at + 8);
    let high = (x / 0x1_0000_0000) as u32;
    let low = (x % 0x1_0000_0000) as u32;
    assert(b.subrange(at, at + 4) =~= s.subrange(0, 4));
    assert(s.subrange(0, 4) =~= be32(high));
    assert(b.subrange(at + 4, at + 8) =~= s.subrange(4, 8));
    assert(s.subrange(4, 8) =~= be32(low));
    lemma_be32(b, at, high);
    lemma_be32(b, at + 4, low);
}

/// The bytes that `u16_at` reads are the ones that `be16` lays out.
pub proof fn lemma_u16_at(b: Seq<u8>, at: int)
    requires
        0 <= at,
        at + 2 <= b.len(),
    ensures
        be16(u16_at(b, at)) == b.subrange(at, at + 2),
{
    reveal(be16);
    reveal(u16_at);
    assert(be16(u16_at(b, at)) =~= b.subrange(at, at + 2));
}

/// The bytes that `u32_at` reads are the ones that `be32` lays out.
pub proof fn lemma_u32_at(b: Seq<u8>, at: int)
    requires
        0 <= at,
        at + 4 <= b.len(),
    ensures
        be32(u32_at(b, at)) == b.subrange(at, at + 4),
{
    reveal(be32);
    reveal(u32_at);
    lemma_u16_at(b, at);
    lemma_u16_at(b, at + 2);
    let x = u32_at(b, at);
    assert((x / 65536) as u16 == u16_at(b, at));
    assert((x % 65536) as u16 == u16_at(b, at + 2));
    assert(be32(x) =~= b.subrange(at, at + 4));
}

/// The bytes that `u64_at` reads are the ones that `be64` lays out.
pub proof fn lemma_u64_at(b: Seq<u8>, at: int)
    requires
        0 <= at,
        at + 8 <= b.len(),
    ensures
        be64(u64_at(b, at)) == b.subrange(at, at + 8),
{
    reveal(be64);
    reveal(u64_at);
    lemma_u32_at(b, at);
    lemma_u32_at(b, at + 4);
    let x = u64_at(b, at);
    assert((x / 0x1_0000_0000) as u32 == u32_at(b, at));
    assert((x % 0x1_0000_0000) as u32 == u32_at(b, at + 4));
    assert(be64(x) =~= b.subrange(at, at + 8));
}

/// Two different patterns never stand for one number.
pub proof fn lemma_signed32(x: u32)
    ensures
        bits32(signed32(x)) == x,
{
}

/// Two different numbers never share a pattern.
pub proof fn lemma_bits32(x: i32)
    ensures
        signed32(bits32(x)) == x,
{
}

/// Appends a 16-bit number.
pub fn put_u16(buf: &mut Vec<u8>, value: u16)
    ensures
        final(buf)@ == old(buf)@ + be16(value),
{
    reveal(be16);
    buf.push((value / 256) as u8);
    buf.push((value % 256) as u8);
    assert(buf@ =~= old(buf)@ + be16(value));
}

/// Appends a 32-bit number.
pub fn put_u32(buf: &mut Vec<u8>, value: u32)
    ensures
        final(buf)@ == old(buf)@ + be32(value),
{
    reveal(be32);
    put_u16(buf, (value / 65536) as u16);
    put_u16(buf, (value % 65536) as u16);
    assert(buf@ =~= old(buf)@ + be32(value));
}

/// Appends a 64-bit number.
pub fn put_u64(buf: &mut Vec<u8>, value: u64)
    ensures
        final(buf)@ == old(buf)@ + be64(value),
{
    reveal(be64);
    put_u32(buf, (value / 0x1_0000_0000) as u32);
    put_u32(buf, (value % 0x1_0000_0000) as u32);
    assert(buf@ =~= old(buf)@ + be64(value));
}

/// Appends a signed 32-bit number in two's complement.
pub fn put_i32(buf: &mut Vec<u8>, value: i32)
    ensures
        final(buf)@ == old(buf)@ + be32(bits32(value)),
{
    let bits: u32 = if value < 0 {
        (value as i64 + 0x1_0000_0000) as u32
    } else {
        value as u32
    };
    put_u32(buf, bits);
}

/// Appends a flag.
pub fn put_bool(buf: &mut Vec<u8>, value: bool)
    ensures
        final(buf)@ == old(buf)@.push(flag(value)),
{
    buf.push(if value { 1u8 } else { 0u8 });
}

/// Appends bytes as they are.
pub fn put_bytes(buf: &mut Vec<u8>, bytes: &[u8])
    ensures
        final(buf)@ == old(buf)@ + bytes@,
{
    buf.extend_from_slice(bytes);
    assert(buf@ =~= old(buf)@ + bytes@);
}

/// A place in a byte sequence from which the next field is read.
pub struct Reader<'a> {
    pub data: &'a [u8],
    pub at: usize,
}

impl<'a> Reader<'a> {
    /// The place lies inside the bytes.
    pub open spec fn wf(&self) -> bool {
        self.at <= self.data@.len()
    }

    /// How many bytes are left from here.
    pub open spec fn left(&self) -> int {
        self.data@.len() - self.at
    }

    /// `self` is `before`, moved on by `n` bytes.
    pub open spec fn moved(&self, before: &Reader<'a>, n: int) -> bool {
        &&& self.wf()
        &&& self.data == before.data
        &&& self.at == before.at + n
    }

    /// A reader at the first byte.
    pub fn new(data: &'a [u8]) -> (r: Reader<'a>)
        ensures
            r.wf(),
            r.data == data,
            r.at == 0,
    {
        Reader { data, at: 0 }
    }

    /// The number of bytes not yet read.
    pub fn remaining(&self) -> (n: usize)
        requires
            self.wf(),
        ensures
            n == self.left(),
    {
        self.data.len() - self.at
    }

    /// Takes the next `len` bytes, where there are as many.
    pub fn take(&mut self, len: usize) -> (r: Option<&'a [u8]>)
        requires
            old(self).wf(),
        ensures
            match r {
                Some(v) => {
                    &&& old(self).left() >= len
                    &&& final(self).moved(old(self), len as int)
                    &&& v@ == old(self).data@.subrange(old(self).at as int, old(self).at + len)
                },
                None => old(self).left() < len && *final(self) == *old(self),
            },
    {
        if self.data.len() - self.at < len {
            return None;
        }
        let start: usize = self.at;
        let value: &'a [u8] = vstd::slice::slice_subrange(self.data, start, start + len);
        self.at = start + len;
        Some(value)
    }

    /// Takes everything that is left.
    pub fn rest(&mut self) -> (v: Vec<u8>)
        requires
            old(self).wf(),
        ensures
            final(self).moved(old(self), old(self).left()),
            v@ == old(self).data@.subrange(old(self).at as int, old(self).data@.len() as int),
    {
        let start: usize = self.at;
        let end: usize = self.data.len();
        let v: Vec<u8> = vstd::slice::slice_to_vec(
            vstd::slice::slice_subrange(self.data, start, end),
        );
        self.at = end;
        v
    }

    pub fn get_u8(&mut self) -> (r: Option<u8>)
        requires
            old(self).wf(),
        ensures
            match r {
                Some(v) => {
                    &&& old(self).left() >= 1
                    &&& final(self).moved(old(self), 1)
                    &&& v == old(self).data@[old(self).at as int]
                },
                None => old(self).left() < 1 && *final(self) == *old(self),
            },
    {
        match self.take(1) {
            Some(v) => Some(v[0]),
            None => None,
        }
    }

    pub fn get_u16(&mut self) -> (r: Option<u16>)
        requires
            old(self).wf(),
        ensures
            match r {
                Some(v) => {
                    &&& old(self).left() >= 2
                    &&& final(self).moved(old(self), 2)
                    &&& v == u16_at(old(self).data@, old(self).at as int)
                },
                None => old(self).left() < 2 && *final(self) == *old(self),
            },
    {
        reveal(u16_at);
        match self.take(2) {
            Some(v) => Some(v[0] as u16 * 256 + v[1] as u16),
            None => None,
        }
    }

    pub fn get_u32(&mut self) -> (r: Option<u32>)
        requires
            old(self).wf(),
        ensures
            match r {
                Some(v) => {
                    &&& old(self).left() >= 4
                    &&& final(self).moved(old(self), 4)
                    &&& v == u32_at(old(self).data@, old(self).at as int)
                },
                None => old(self).left() < 4 && *final(self) == *old(self),
            },
    {
        if self.data.len() - self.at < 4 {
            return None;
        }
        reveal(u32_at);
        match (self.get_u16(), self.get_u16()) {
            (Some(high), Some(low)) => Some(high as u32 * 65536 + low as u32),
            _ => None,
        }
    }

    pub fn get_u64(&mut self) -> (r: Option<u64>)
        requires
            old(self).wf(),
        ensures
            match r {
                Some(v) => {
                    &&& old(self).left() >= 8
                    &&& final(self).moved(old(self), 8)
                    &&& v == u64_at(old(self).data@, old(self).at as int)
                },
                None => old(self).left() < 8 && *final(self) == *old(self),
            },
    {
        if self.data.len() - self.at < 8 {
            return None;
        }
        reveal(u64_at);
        match (self.get_u32(), self.get_u32()) {
            (Some(high), Some(low)) => Some(high as u64 * 0x1_0000_0000 + low as u64),
            _ => None,
        }
    }

    pub fn get_i32(&mut self) -> (r: Option<i32>)
        requires
            old(self).wf(),
        ensures
            match r {
                Some(v) => {
                    &&& old(self).left() >= 4
                    &&& final(self).moved(old(self), 4)
                    &&& v == signed32(u32_at(old(self).data@, old(self).at as int))
                },
                None => old(self).left() < 4 && *final(self) == *old(self),
            },
    {
        match self.get_u32() {
            Some(bits) => Some(
                if bits >= 0x8000_0000 {
                    (bits as i64 - 0x1_0000_0000) as i32
                } else {
                    bits as i32
                },
            ),
            None => None,
        }
    }
}

/// An array of eight bytes out of a slice of as many.
pub fn array8(bytes: &[u8]) -> (a: [u8; 8])
    requires
        bytes@.len() == 8,
    ensures
        a@ == bytes@,
{
    let mut a: [u8; 8] = [0u8; 8];
    let mut i: usize = 0;
    while i < 8
        invariant
            i <= 8,
            bytes@.len() == 8,
            forall|j: int| 0 <= j < i ==> a@[j] == bytes@[j],
        decreases 8 - i,
    {
        a[i] = bytes[i];
        i = i + 1;
    }
    assert(a@ =~= bytes@);
    a
}

/// An array of sixteen bytes out of a slice of as many.
pub fn array16(bytes: &[u8]) -> (a: [u8; 16])
    requires
        bytes@.len() == 16,
    ensures
        a@ == bytes@,
{
    let mut a: [u8; 16] = [0u8; 16];
    let mut i: usize = 0;
    while i < 16
        invariant
            i <= 16,
            bytes@.len() == 16,
            forall|j: int| 0 <= j < i ==> a@[j] == bytes@[j],
        decreases 16 - i,
    {
        a[i] = bytes[i];
        i = i + 1;
    }
    assert(a@ =~= bytes@);
    a
}

/// An array of thirty-two bytes out of a slice of as many.
pub fn array32(bytes: &[u8]) -> (a: [u8; 32])
    requires
        bytes@.len() == 32,
    ensures
        a@ == bytes@,
{
    let mut a: [u8; 32] = [0u8; 32];
    let mut i: usize = 0;
    while i < 32
        invariant
            i <= 32,
            bytes@.len() == 32,
            forall|j: int| 0 <= j < i ==> a@[j] == bytes@[j],
        decreases 32 - i,
    {
        a[i] = bytes[i];
        i = i + 1;
    }
    assert(a@ =~= bytes@);
    a
}

} // verus!

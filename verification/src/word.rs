//! Words, the host protocol, and little-endian byte layout.

use vstd::prelude::*;

verus! {

/// The word of `+0.0`.
pub const ZERO_WORD: u64 = 0;

/// The word of `1.0`.
pub const ONE_WORD: u64 = 0x3FF0_0000_0000_0000;

/// The word an interpreter pushes for a truth value: one for true, zero for false.
pub open spec fn truth_word(b: bool) -> u64 {
    if b { ONE_WORD } else { ZERO_WORD }
}

pub fn bool_word(b: bool) -> (w: u64)
    ensures
        w == truth_word(b),
{
    if b { ONE_WORD } else { ZERO_WORD }
}

/// The arithmetic primitives of the bytecode.
#[derive(Clone, Copy, Debug, PartialEq, Eq, Structural)]
pub enum ArithOp {
    Add,
    Sub,
    Mul,
    Div,
}

/// The comparison primitives of the bytecode.
#[derive(Clone, Copy, Debug, PartialEq, Eq, Structural)]
pub enum CompareOp {
    Lt,
    Gt,
    Eq,
    Le,
    Ge,
    Ne,
}

/// What an interpreter needs computed on binary64 words before it can take its next step.
#[derive(Clone, Copy, Debug, PartialEq, Eq, Structural)]
pub enum Request {
    /// Nothing: the step needs no numeric work.
    Nothing,
    /// The word of `a op b`, answered by [`Reply::Word`].
    Arith(ArithOp, u64, u64),
    /// Whether `a op b` holds, answered by [`Reply::Flag`].
    Compare(CompareOp, u64, u64),
    /// Whether the number is not zero (`x != 0.0`), answered by [`Reply::Flag`].
    Truth(u64),
    /// Whether each of the two numbers is not zero, answered by [`Reply::Flags`].
    Truths(u64, u64),
    /// The word of `n as f64`, answered by [`Reply::Word`].
    IndexToWord(usize),
    /// The value of `x as usize`, answered by [`Reply::Index`].
    WordToIndex(u64),
    /// The value of `x as u8`, answered by [`Reply::Byte`].
    WordToByte(u64),
}

/// A host's answer to a [`Request`].  A reply of another kind than the one
/// asked for reads as a zero word, `false`, or zero.
#[derive(Clone, Copy, Debug, PartialEq, Eq, Structural)]
pub enum Reply {
    Nothing,
    Word(u64),
    Flag(bool),
    Flags(bool, bool),
    Index(usize),
    Byte(u8),
}

impl Reply {
    pub open spec fn word_of(self) -> u64 {
        match self {
            Reply::Word(w) => w,
            _ => ZERO_WORD,
        }
    }

    pub open spec fn flag_of(self) -> bool {
        match self {
            Reply::Flag(b) => b,
            _ => false,
        }
    }

    pub open spec fn flags_of(self) -> (bool, bool) {
        match self {
            Reply::Flags(a, b) => (a, b),
            _ => (false, false),
        }
    }

    pub open spec fn index_of(self) -> usize {
        match self {
            Reply::Index(n) => n,
            _ => 0,
        }
    }

    pub open spec fn byte_of(self) -> u8 {
        match self {
            Reply::Byte(b) => b,
            _ => 0,
        }
    }

    pub fn word(&self) -> (w: u64)
        ensures
            w == self.word_of(),
    {
        match self {
            Reply::Word(w) => *w,
            _ => ZERO_WORD,
        }
    }

    pub fn flag(&self) -> (b: bool)
        ensures
            b == self.flag_of(),
    {
        match self {
            Reply::Flag(b) => *b,
            _ => false,
        }
    }

    pub fn flags(&self) -> (p: (bool, bool))
        ensures
            p == self.flags_of(),
    {
        match self {
            Reply::Flags(a, b) => (*a, *b),
            _ => (false, false),
        }
    }

    pub fn index(&self) -> (n: usize)
        ensures
            n == self.index_of(),
    {
        match self {
            Reply::Index(n) => *n,
            _ => 0,
        }
    }

    pub fn byte(&self) -> (b: u8)
        ensures
            b == self.byte_of(),
    {
        match self {
            Reply::Byte(b) => *b,
            _ => 0,
        }
    }
}

/// The little-endian `u16` held by `bytes[i]`, `bytes[i + 1]`.
pub open spec fn le_u16(bytes: Seq<u8>, i: int) -> u16 {
    (bytes[i] as u16) | ((bytes[i + 1] as u16) << 8u16)
}

/// The little-endian `u64` held by the eight bytes from `bytes[i]` on.
pub open spec fn le_u64(bytes: Seq<u8>, i: int) -> u64 {
    (bytes[i] as u64) | ((bytes[i + 1] as u64) << 8u64) | ((bytes[i + 2] as u64) << 16u64)
        | ((bytes[i + 3] as u64) << 24u64) | ((bytes[i + 4] as u64) << 32u64) | ((bytes[i
        + 5] as u64) << 40u64) | ((bytes[i + 6] as u64) << 48u64) | ((bytes[i + 7] as u64)
        << 56u64)
}

pub fn read_le_u16(bytes: &[u8], i: usize) -> (v: u16)
    requires
        i + 2 <= bytes@.len(),
    ensures
        v == le_u16(bytes@, i as int),
{
    (bytes[i] as u16) | ((bytes[i + 1] as u16) << 8u16)
}

pub fn read_le_u64(bytes: &[u8], i: usize) -> (v: u64)
    requires
        i + 8 <= bytes@.len(),
    ensures
        v == le_u64(bytes@, i as int),
{
    (bytes[i] as u64) | ((bytes[i + 1] as u64) << 8u64) | ((bytes[i + 2] as u64) << 16u64)
        | ((bytes[i + 3] as u64) << 24u64) | ((bytes[i + 4] as u64) << 32u64) | ((bytes[i
        + 5] as u64) << 40u64) | ((bytes[i + 6] as u64) << 48u64) | ((bytes[i + 7] as u64)
        << 56u64)
}

/// Byte `k` (from the least significant) of `x`.
pub open spec fn byte_of_u64(x: u64, k: u64) -> u8 {
    ((x >> (8 * k)) & 0xffu64) as u8
}

/// The little-endian bytes of a `u16`.
pub open spec fn u16_bytes(x: u16) -> Seq<u8> {
    seq![(x & 0xffu16) as u8, ((x >> 8u16) & 0xffu16) as u8]
}

/// The little-endian bytes of a `u64`.
pub open spec fn u64_bytes(x: u64) -> Seq<u8> {
    seq![
        byte_of_u64(x, 0),
        byte_of_u64(x, 1),
        byte_of_u64(x, 2),
        byte_of_u64(x, 3),
        byte_of_u64(x, 4),
        byte_of_u64(x, 5),
        byte_of_u64(x, 6),
        byte_of_u64(x, 7),
    ]
}

/// Reading back the bytes of a `u16` gives the `u16`.
pub proof fn lemma_u16_bytes_roundtrip(x: u16)
    ensures
        le_u16(u16_bytes(x), 0) == x,
{
    let b0 = (x & 0xffu16) as u8;
    let b1 = ((x >> 8u16) & 0xffu16) as u8;
    assert((b0 as u16) | ((b1 as u16) << 8u16) == x) by (bit_vector)
        requires
            b0 == (x & 0xffu16) as u8,
            b1 == ((x >> 8u16) & 0xffu16) as u8,
    ;
}

/// Reading back the bytes of a `u64` gives the `u64`.
pub proof fn lemma_u64_bytes_roundtrip(x: u64)
    ensures
        le_u64(u64_bytes(x), 0) == x,
{
    let b0 = byte_of_u64(x, 0);
    let b1 = byte_of_u64(x, 1);
    let b2 = byte_of_u64(x, 2);
    let b3 = byte_of_u64(x, 3);
    let b4 = byte_of_u64(x, 4);
    let b5 = byte_of_u64(x, 5);
    let b6 = byte_of_u64(x, 6);
    let b7 = byte_of_u64(x, 7);
    assert((b0 as u64) | ((b1 as u64) << 8u64) | ((b2 as u64) << 16u64) | ((b3 as u64) << 24u64)
        | ((b4 as u64) << 32u64) | ((b5 as u64) << 40u64) | ((b6 as u64) << 48u64) | ((b7 as u64)
        << 56u64) == x) by (bit_vector)
        requires
            b0 == ((x >> 0u64) & 0xffu64) as u8,
            b1 == ((x >> 8u64) & 0xffu64) as u8,
            b2 == ((x >> 16u64) & 0xffu64) as u8,
            b3 == ((x >> 24u64) & 0xffu64) as u8,
            b4 == ((x >> 32u64) & 0xffu64) as u8,
            b5 == ((x >> 40u64) & 0xffu64) as u8,
            b6 == ((x >> 48u64) & 0xffu64) as u8,
            b7 == ((x >> 56u64) & 0xffu64) as u8,
    ;
}

/// Appends the little-endian bytes of `x`.
pub fn push_u16_bytes(out: &mut Vec<u8>, x: u16)
    ensures
        final(out)@ == old(out)@ + u16_bytes(x),
{
    out.push((x & 0xffu16) as u8);
    out.push(((x >> 8u16) & 0xffu16) as u8);
}

/// Appends the little-endian bytes of `x`.
pub fn push_u64_bytes(out: &mut Vec<u8>, x: u64)
    ensures
        final(out)@ == old(out)@ + u64_bytes(x),
{
    let mut k: u64 = 0;
    let ghost start = out@;
    while k < 8
        invariant
            k <= 8,
            out@ == start + u64_bytes(x).take(k as int),
        decreases 8 - k,
    {
        out.push(((x >> (8 * k)) & 0xffu64) as u8);
        assert(u64_bytes(x).take(k + 1) == u64_bytes(x).take(k as int).push(byte_of_u64(x, k)));
        k = k + 1;
    }
    assert(u64_bytes(x).take(8) == u64_bytes(x));
}

} // verus!

//! Big-endian words and the alignment arithmetic of the container.
use vstd::prelude::*;

verus! {

/// The number that four bytes spell, most significant byte first.
pub open spec fn be_u32(b: Seq<u8>) -> u32
    recommends
        b.len() == 4,
{
    (b[0] as int * 0x100_0000 + b[1] as int * 0x1_0000 + b[2] as int * 0x100 + b[3] as int) as u32
}

/// The big-endian word that starts at offset `at` of `bytes`.
pub open spec fn word_at(bytes: Seq<u8>, at: int) -> u32
    recommends
        0 <= at,
        at + 4 <= bytes.len(),
{
    be_u32(bytes.subrange(at, at + 4))
}

/// The four bytes that spell `v`, most significant byte first.
pub open spec fn be_bytes(v: u32) -> Seq<u8> {
    seq![
        (v / 0x100_0000) as u8,
        ((v / 0x1_0000) % 0x100) as u8,
        ((v / 0x100) % 0x100) as u8,
        (v % 0x100) as u8,
    ]
}

/// The number of bytes that follow a payload of `len` bytes to bring the next
/// chunk to a multiple of four.
pub open spec fn spec_padding(len: int) -> int {
    (4 - len % 4) % 4
}

/// Reading back the bytes of a word gives the word.
pub proof fn lemma_word_round_trip(v: u32)
    ensures
        be_bytes(v).len() == 4,
        be_u32(be_bytes(v)) == v,
{
}

/// A word written at the end of a byte string is read back from there.
pub proof fn lemma_word_at_appended(head: Seq<u8>, v: u32, tail: Seq<u8>)
    ensures
        word_at(head + be_bytes(v) + tail, head.len() as int) == v,
{
    lemma_word_round_trip(v);
}

/// Reads the big-endian word at offset `at`.
pub fn read_u32(bytes: &[u8], at: usize) -> (r: u32)
    requires
        at + 4 <= bytes@.len(),
    ensures
        r == word_at(bytes@, at as int),
{
    let b0: u32 = bytes[at] as u32;
    let b1: u32 = bytes[at + 1] as u32;
    let b2: u32 = bytes[at + 2] as u32;
    let b3: u32 = bytes[at + 3] as u32;
    b0 * 0x100_0000 + b1 * 0x1_0000 + b2 * 0x100 + b3
}

/// Appends the four bytes of `v` to `out`.
pub fn push_u32(out: &mut Vec<u8>, v: u32)
    ensures
        final(out)@ == old(out)@ + be_bytes(v),
{
    out.push((v / 0x100_0000) as u8);
    out.push(((v / 0x1_0000) % 0x100) as u8);
    out.push(((v / 0x100) % 0x100) as u8);
    out.push((v % 0x100) as u8);
}

/// Appends a copy of `bytes` to `out`.
pub fn push_bytes(out: &mut Vec<u8>, bytes: &[u8])
    ensures
        final(out)@ == old(out)@ + bytes@,
{
    let mut i: usize = 0;
    while i < bytes.len()
        invariant
            i <= bytes@.len(),
            out@ == old(out)@ + bytes@.subrange(0, i as int),
        decreases bytes@.len() - i,
    {
        out.push(bytes[i]);
        i += 1;
    }
}

/// A copy of the bytes of `bytes` from offset `from` up to, not including,
/// offset `to`.
pub fn copy_range(bytes: &[u8], from: usize, to: usize) -> (r: Vec<u8>)
    requires
        from <= to <= bytes@.len(),
    ensures
        r@ == bytes@.subrange(from as int, to as int),
{
    let mut r: Vec<u8> = Vec::new();
    let mut i: usize = from;
    while i < to
        invariant
            from <= i <= to <= bytes@.len(),
            r@ == bytes@.subrange(from as int, i as int),
        decreases to - i,
    {
        r.push(bytes[i]);
        i += 1;
    }
    r
}

/// The padding that follows a payload of `len` bytes: the one number below
/// four that brings `len` to a multiple of four.
pub fn padding_size(len: u32) -> (r: u32)
    ensures
        r == spec_padding(len as int),
        r < 4,
        (len + r) % 4 == 0,
{
    (4 - len % 4) % 4
}

} // verus!

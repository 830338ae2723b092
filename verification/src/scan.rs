//! The shape of a term of the external term format: its tags and its length
//! fields, and nothing of its values. Bytes are handed to the term codec
//! only where this scan has gone over them and found that the codec meets
//! no tag at which it stops, no length or count that the bytes do not hold,
//! and no nesting deeper than `MAX_DEPTH`. Bytes that are no term for a
//! reason that the codec reports by itself (another version byte, a tag
//! that is none, an end of the bytes where a tag or a field of fixed size
//! is due) are handed to it, so that the failure is the codec's own.
use vstd::prelude::*;
use crate::bytes::{read_u32, word_at};

verus! {

/// The deepest nesting of terms that is admitted.
pub const MAX_DEPTH: usize = 256;

/// The greatest number of bytes of a term that is admitted.
pub const MAX_TERM_BYTES: usize = 0x2000_0000;

/// What stands open while a term is read: the number of terms that are
/// still to come at this level, and the number of bytes behind them.
#[derive(Clone, Copy, Debug, PartialEq, Eq)]
pub struct Frame {
    pub terms: u64,
    pub skip: u64,
}

/// What a tag asks for: the bytes that the tag takes with its own fields,
/// the number of terms that follow them, and the number of bytes behind
/// those terms.
#[derive(Clone, Copy, Debug, PartialEq, Eq)]
pub struct Shape {
    pub head: usize,
    pub terms: u64,
    pub skip: u64,
}

/// What reading a tag gives.
#[derive(Clone, Copy, Debug, PartialEq, Eq)]
pub enum Step {
    /// The tag is one that the codec reads, and its fields are there.
    Shape(Shape),
    /// The codec reports a failure here: the tag is none, or the bytes end
    /// inside a field of fixed size.
    Invalid,
    /// The bytes are not handed to the codec: the codec stops at this tag,
    /// or a length or a count asks for more than the bytes hold, or a bit
    /// string with bytes says that its last byte holds no bit or more than
    /// eight.
    Refused,
}

/// What the scan finds of bytes that should be a term.
#[derive(Clone, Copy, Debug, PartialEq, Eq)]
pub enum Verdict {
    /// The version byte and one term of the admitted shape, and nothing
    /// else.
    Whole,
    /// No term, for a reason that the codec reports by itself.
    Invalid,
    /// Not handed to the codec: see `Step::Refused`; also bytes behind the
    /// term, a term that nests deeper than `MAX_DEPTH`, and bytes beyond
    /// `MAX_TERM_BYTES`.
    Refused,
}

/// The number that two bytes spell, most significant byte first.
pub open spec fn u16_at(bytes: Seq<u8>, at: int) -> int
    recommends
        0 <= at,
        at + 2 <= bytes.len(),
{
    bytes[at] as int * 0x100 + bytes[at + 1] as int
}

/// A term of fixed size that takes `total` bytes, where `left` bytes are
/// there.
pub open spec fn fixed(left: int, total: int) -> Step {
    if total <= left {
        Step::Shape(Shape { head: total as usize, terms: 0, skip: 0 })
    } else {
        Step::Invalid
    }
}

/// A term without terms inside it that takes `total` bytes by what its
/// length field says, where `left` bytes are there.
pub open spec fn leaf(left: int, total: int) -> Step {
    if total <= left {
        Step::Shape(Shape { head: total as usize, terms: 0, skip: 0 })
    } else {
        Step::Refused
    }
}

/// A term of `head` bytes with `terms` terms inside it and `skip` bytes
/// behind them, where `left` bytes are there. Each term inside takes a byte
/// at least, so more terms than bytes cannot be there.
pub open spec fn node(left: int, head: int, terms: int, skip: int) -> Step {
    if head <= left && terms <= left - head {
        Step::Shape(Shape { head: head as usize, terms: terms as u64, skip: skip as u64 })
    } else {
        Step::Refused
    }
}

/// What the tag at `pos` asks for. The tags 68 (a distribution header), 80
/// (a compressed term) and 82 (an atom cache reference) are refused
/// wherever they stand.
pub open spec fn spec_shape(bytes: Seq<u8>, pos: int) -> Step
    recommends
        0 <= pos < bytes.len(),
{
    let left = bytes.len() - pos;
    let tag = bytes[pos];
    if tag == 68 || tag == 80 || tag == 82 {
        Step::Refused
    } else if tag == 106 {
        fixed(left, 1)
    } else if tag == 97 {
        fixed(left, 2)
    } else if tag == 98 {
        fixed(left, 5)
    } else if tag == 70 {
        fixed(left, 9)
    } else if tag == 99 {
        fixed(left, 32)
    } else if tag == 113 {
        node(left, 1, 3, 0)
    } else if tag == 101 || tag == 102 {
        node(left, 1, 1, 5)
    } else if tag == 89 {
        node(left, 1, 1, 8)
    } else if tag == 103 {
        node(left, 1, 1, 9)
    } else if tag == 88 || tag == 120 {
        node(left, 1, 1, 12)
    } else if tag == 115 || tag == 119 {
        if left < 2 {
            Step::Invalid
        } else {
            leaf(left, 2 + bytes[pos + 1])
        }
    } else if tag == 110 {
        if left < 2 {
            Step::Invalid
        } else {
            leaf(left, 3 + bytes[pos + 1])
        }
    } else if tag == 104 {
        if left < 2 {
            Step::Invalid
        } else {
            node(left, 2, bytes[pos + 1] as int, 0)
        }
    } else if tag == 100 || tag == 118 || tag == 107 {
        if left < 3 {
            Step::Invalid
        } else {
            leaf(left, 3 + u16_at(bytes, pos + 1))
        }
    } else if tag == 114 {
        if left < 3 {
            Step::Invalid
        } else {
            node(left, 3, 1, 1 + 4 * u16_at(bytes, pos + 1))
        }
    } else if tag == 90 {
        if left < 3 {
            Step::Invalid
        } else {
            node(left, 3, 1, 4 + 4 * u16_at(bytes, pos + 1))
        }
    } else if tag == 109 {
        if left < 5 {
            Step::Invalid
        } else {
            leaf(left, 5 + word_at(bytes, pos + 1))
        }
    } else if tag == 111 {
        if left < 5 {
            Step::Invalid
        } else {
            leaf(left, 6 + word_at(bytes, pos + 1))
        }
    } else if tag == 105 {
        if left < 5 {
            Step::Invalid
        } else {
            node(left, 5, word_at(bytes, pos + 1) as int, 0)
        }
    } else if tag == 108 {
        if left < 5 {
            Step::Invalid
        } else {
            node(left, 5, word_at(bytes, pos + 1) + 1, 0)
        }
    } else if tag == 116 {
        if left < 5 {
            Step::Invalid
        } else {
            node(left, 5, 2 * word_at(bytes, pos + 1), 0)
        }
    } else if tag == 117 {
        if left < 5 {
            Step::Invalid
        } else {
            node(left, 5, 4 + word_at(bytes, pos + 1), 0)
        }
    } else if tag == 77 {
        if left < 6 {
            Step::Invalid
        } else if word_at(bytes, pos + 1) != 0 && !(1 <= bytes[pos + 5] <= 8) {
            Step::Refused
        } else {
            leaf(left, 6 + word_at(bytes, pos + 1))
        }
    } else if tag == 112 {
        if left < 30 {
            Step::Invalid
        } else {
            node(left, 30, 4 + word_at(bytes, pos + 26), 0)
        }
    } else {
        Step::Invalid
    }
}

/// What the scan finds from `pos` on, with the terms of `stack` open.
pub open spec fn spec_scan(bytes: Seq<u8>, pos: int, stack: Seq<Frame>) -> Verdict
    decreases bytes.len() - pos, stack.len(),
{
    if pos < 0 || pos > bytes.len() {
        Verdict::Refused
    } else if stack.len() == 0 {
        if pos == bytes.len() {
            Verdict::Whole
        } else {
            Verdict::Refused
        }
    } else if stack.last().terms == 0 {
        if bytes.len() - pos < stack.last().skip {
            Verdict::Invalid
        } else {
            spec_scan(bytes, pos + stack.last().skip, stack.drop_last())
        }
    } else if pos >= bytes.len() {
        Verdict::Invalid
    } else {
        match spec_shape(bytes, pos) {
            Step::Invalid => Verdict::Invalid,
            Step::Refused => Verdict::Refused,
            Step::Shape(shape) => {
                let rest = stack.drop_last().push(
                    Frame { terms: (stack.last().terms - 1) as u64, skip: stack.last().skip },
                );
                if shape.head < 1 {
                    Verdict::Refused
                } else if shape.terms == 0 && shape.skip == 0 {
                    spec_scan(bytes, pos + shape.head, rest)
                } else if rest.len() >= MAX_DEPTH {
                    Verdict::Refused
                } else {
                    spec_scan(
                        bytes,
                        pos + shape.head,
                        rest.push(Frame { terms: shape.terms, skip: shape.skip }),
                    )
                }
            },
        }
    }
}

/// What the scan finds of `bytes`.
pub open spec fn term_verdict(bytes: Seq<u8>) -> Verdict {
    if bytes.len() > MAX_TERM_BYTES {
        Verdict::Refused
    } else if bytes.len() < 1 || bytes[0] != 131 {
        Verdict::Invalid
    } else {
        spec_scan(bytes, 1, seq![Frame { terms: 1, skip: 0 }])
    }
}

/// Whether `bytes` are the version byte and one term of the admitted shape,
/// and nothing else.
pub open spec fn term_shape(bytes: Seq<u8>) -> bool {
    term_verdict(bytes) == Verdict::Whole
}

/// Whether `bytes` may be handed to the codec: they are a term of the
/// admitted shape, or no term for a reason that the codec reports by
/// itself.
pub open spec fn term_safe(bytes: Seq<u8>) -> bool {
    term_verdict(bytes) != Verdict::Refused
}

/// Reads the tag at `pos` and its fields.
pub fn shape_at(bytes: &[u8], pos: usize) -> (r: Step)
    requires
        pos < bytes@.len(),
    ensures
        r == spec_shape(bytes@, pos as int),
{
    let left: u64 = (bytes.len() - pos) as u64;
    let tag: u8 = bytes[pos];
    if tag == 68 || tag == 80 || tag == 82 {
        Step::Refused
    } else if tag == 106 {
        fixed_of(left, 1)
    } else if tag == 97 {
        fixed_of(left, 2)
    } else if tag == 98 {
        fixed_of(left, 5)
    } else if tag == 70 {
        fixed_of(left, 9)
    } else if tag == 99 {
        fixed_of(left, 32)
    } else if tag == 113 {
        node_of(left, 1, 3, 0)
    } else if tag == 101 || tag == 102 {
        node_of(left, 1, 1, 5)
    } else if tag == 89 {
        node_of(left, 1, 1, 8)
    } else if tag == 103 {
        node_of(left, 1, 1, 9)
    } else if tag == 88 || tag == 120 {
        node_of(left, 1, 1, 12)
    } else if tag == 115 || tag == 119 {
        if left < 2 {
            Step::Invalid
        } else {
            leaf_of(left, 2 + bytes[pos + 1] as u64)
        }
    } else if tag == 110 {
        if left < 2 {
            Step::Invalid
        } else {
            leaf_of(left, 3 + bytes[pos + 1] as u64)
        }
    } else if tag == 104 {
        if left < 2 {
            Step::Invalid
        } else {
            node_of(left, 2, bytes[pos + 1] as u64, 0)
        }
    } else if tag == 100 || tag == 118 || tag == 107 {
        if left < 3 {
            Step::Invalid
        } else {
            leaf_of(left, 3 + read_u16(bytes, pos + 1))
        }
    } else if tag == 114 {
        if left < 3 {
            Step::Invalid
        } else {
            node_of(left, 3, 1, 1 + 4 * read_u16(bytes, pos + 1))
        }
    } else if tag == 90 {
        if left < 3 {
            Step::Invalid
        } else {
            node_of(left, 3, 1, 4 + 4 * read_u16(bytes, pos + 1))
        }
    } else if tag == 109 {
        if left < 5 {
            Step::Invalid
        } else {
            leaf_of(left, 5 + read_u32(bytes, pos + 1) as u64)
        }
    } else if tag == 111 {
        if left < 5 {
            Step::Invalid
        } else {
            leaf_of(left, 6 + read_u32(bytes, pos + 1) as u64)
        }
    } else if tag == 105 {
        if left < 5 {
            Step::Invalid
        } else {
            node_of(left, 5, read_u32(bytes, pos + 1) as u64, 0)
        }
    } else if tag == 108 {
        if left < 5 {
            Step::Invalid
        } else {
            node_of(left, 5, read_u32(bytes, pos + 1) as u64 + 1, 0)
        }
    } else if tag == 116 {
        if left < 5 {
            Step::Invalid
        } else {
            node_of(left, 5, 2 * (read_u32(bytes, pos + 1) as u64), 0)
        }
    } else if tag == 117 {
        if left < 5 {
            Step::Invalid
        } else {
            node_of(left, 5, 4 + read_u32(bytes, pos + 1) as u64, 0)
        }
    } else if tag == 77 {
        if left < 6 {
            return Step::Invalid;
        }
        let size: u32 = read_u32(bytes, pos + 1);
        let bits: u8 = bytes[pos + 5];
        if size != 0 && !(1 <= bits && bits <= 8) {
            Step::Refused
        } else {
            leaf_of(left, 6 + size as u64)
        }
    } else if tag == 112 {
        if left < 30 {
            Step::Invalid
        } else {
            node_of(left, 30, 4 + read_u32(bytes, pos + 26) as u64, 0)
        }
    } else {
        Step::Invalid
    }
}

/// Reads the number that the two bytes at `at` spell.
pub fn read_u16(bytes: &[u8], at: usize) -> (r: u64)
    requires
        at + 2 <= bytes@.len(),
    ensures
        r == u16_at(bytes@, at as int),
        r <= 0xffff,
{
    bytes[at] as u64 * 0x100 + bytes[at + 1] as u64
}

/// A term of fixed size that takes `total` bytes, where `left` bytes are
/// there.
pub fn fixed_of(left: u64, total: u64) -> (r: Step)
    requires
        left <= usize::MAX,
    ensures
        r == fixed(left as int, total as int),
{
    if total <= left {
        Step::Shape(Shape { head: total as usize, terms: 0, skip: 0 })
    } else {
        Step::Invalid
    }
}

/// A term without terms inside it that takes `total` bytes by what its
/// length field says, where `left` bytes are there.
pub fn leaf_of(left: u64, total: u64) -> (r: Step)
    requires
        left <= usize::MAX,
    ensures
        r == leaf(left as int, total as int),
{
    if total <= left {
        Step::Shape(Shape { head: total as usize, terms: 0, skip: 0 })
    } else {
        Step::Refused
    }
}

/// A term of `head` bytes with `terms` terms inside it and `skip` bytes
/// behind them, where `left` bytes are there.
pub fn node_of(left: u64, head: u64, terms: u64, skip: u64) -> (r: Step)
    requires
        left <= usize::MAX,
    ensures
        r == node(left as int, head as int, terms as int, skip as int),
{
    if head <= left && terms <= left - head {
        Step::Shape(Shape { head: head as usize, terms, skip })
    } else {
        Step::Refused
    }
}

/// Goes over bytes that should be a term.
pub fn scan_term(bytes: &[u8]) -> (verdict: Verdict)
    ensures
        verdict == term_verdict(bytes@),
{
    let len: usize = bytes.len();
    if len > MAX_TERM_BYTES {
        return Verdict::Refused;
    }
    if len < 1 || bytes[0] != 131 {
        return Verdict::Invalid;
    }
    let mut stack: Vec<Frame> = Vec::new();
    stack.push(Frame { terms: 1, skip: 0 });
    let mut pos: usize = 1;
    assert(stack@ =~= seq![Frame { terms: 1, skip: 0 }]);
    while stack.len() > 0
        invariant
            len == bytes@.len(),
            1 <= pos <= len,
            stack@.len() <= MAX_DEPTH,
            term_verdict(bytes@) == spec_scan(bytes@, pos as int, stack@),
        decreases len - pos, stack@.len(),
    {
        let top: Frame = stack[stack.len() - 1];
        if top.terms == 0 {
            if ((len - pos) as u64) < top.skip {
                return Verdict::Invalid;
            }
            stack.pop();
            pos = pos + top.skip as usize;
        } else {
            if pos >= len {
                return Verdict::Invalid;
            }
            let shape = match shape_at(bytes, pos) {
                Step::Shape(shape) => shape,
                Step::Invalid => {
                    return Verdict::Invalid;
                },
                Step::Refused => {
                    return Verdict::Refused;
                },
            };
            if shape.head < 1 {
                return Verdict::Refused;
            }
            let ghost before = stack@;
            stack.pop();
            stack.push(Frame { terms: top.terms - 1, skip: top.skip });
            assert(stack@ =~= before.drop_last().push(
                Frame { terms: (top.terms - 1) as u64, skip: top.skip },
            ));
            if shape.terms != 0 || shape.skip != 0 {
                if stack.len() >= MAX_DEPTH {
                    return Verdict::Refused;
                }
                stack.push(Frame { terms: shape.terms, skip: shape.skip });
            }
            pos = pos + shape.head;
        }
    }
    if pos == len {
        Verdict::Whole
    } else {
        Verdict::Refused
    }
}

} // verus!

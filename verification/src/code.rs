//! The chunks that need no parsing beyond a fixed header: the code section,
//! the string table, and a chunk kept as it stands.
use vstd::prelude::*;
use vstd::slice::slice_to_vec;
use crate::bytes::{
    be_bytes, copy_range, lemma_word_at_appended, push_bytes, push_u32, read_u32, word_at,
};
use crate::chunk::{
    decoded, same_id, ChunkSource, CodeChunk, Id, RawChunk, RawModel, StrTChunk, CODE, STRT,
};
use crate::error::{outcome, Error, Fault};

verus! {

/// What a chunk decodes to when a code section is asked for: five header
/// words, and every byte after them as the instruction stream.
pub open spec fn spec_code_chunk(id: Seq<u8>, payload: Seq<u8>) -> Result<ChunkSource, Fault> {
    if id != CODE@ {
        Err(Fault::UnexpectedChunk { found: Some(id), expected: CODE@ })
    } else if payload.len() < 20 {
        Err(Fault::malformed(id))
    } else {
        Ok(
            ChunkSource::Code {
                info_size: word_at(payload, 0),
                version: word_at(payload, 4),
                opcode_max: word_at(payload, 8),
                label_count: word_at(payload, 12),
                function_count: word_at(payload, 16),
                bytecode: payload.subrange(20, payload.len() as int),
            },
        )
    }
}

/// What a chunk decodes to when a string table is asked for: its payload.
pub open spec fn spec_strt_chunk(id: Seq<u8>, payload: Seq<u8>) -> Result<ChunkSource, Fault> {
    if id != STRT@ {
        Err(Fault::UnexpectedChunk { found: Some(id), expected: STRT@ })
    } else {
        Ok(ChunkSource::StrT { strings: payload })
    }
}

impl CodeChunk {
    /// Decodes the payload of a code section. The instruction stream is
    /// copied, not read.
    pub fn decode_data(id: &Id, payload: &[u8]) -> (r: Result<CodeChunk, Error>)
        ensures
            decoded(outcome(r), spec_code_chunk(id@, payload@)),
    {
        if !same_id(id, &CODE) {
            return Err(Error::UnexpectedChunk { found: Some(*id), expected: CODE });
        }
        if payload.len() < 20 {
            return Err(Error::malformed(id));
        }
        Ok(
            CodeChunk {
                info_size: read_u32(payload, 0),
                version: read_u32(payload, 4),
                opcode_max: read_u32(payload, 8),
                label_count: read_u32(payload, 12),
                function_count: read_u32(payload, 16),
                bytecode: copy_range(payload, 20, payload.len()),
            },
        )
    }
}

impl StrTChunk {
    /// Decodes the payload of a string table.
    pub fn decode_data(id: &Id, payload: &[u8]) -> (r: Result<StrTChunk, Error>)
        ensures
            decoded(outcome(r), spec_strt_chunk(id@, payload@)),
    {
        if !same_id(id, &STRT) {
            return Err(Error::UnexpectedChunk { found: Some(*id), expected: STRT });
        }
        Ok(StrTChunk { strings: slice_to_vec(payload) })
    }
}

impl RawChunk {
    /// Keeps a chunk as it stands: every id is accepted, and the payload is
    /// copied byte for byte.
    pub fn decode_data(id: &Id, payload: &[u8]) -> (r: RawChunk)
        ensures
            r@ == (RawModel { id: id@, data: payload@ }),
    {
        RawChunk { id: *id, data: slice_to_vec(payload) }
    }

    /// The id under which this chunk stands in a file.
    pub fn id(&self) -> (r: Id)
        ensures
            r@ == self@.id,
    {
        self.id
    }
}

/// The payload of a code section: the five header words, then the
/// instruction stream.
pub open spec fn spec_encode_code(
    info_size: u32,
    version: u32,
    opcode_max: u32,
    label_count: u32,
    function_count: u32,
    bytecode: Seq<u8>,
) -> Seq<u8> {
    be_bytes(info_size) + be_bytes(version) + be_bytes(opcode_max) + be_bytes(label_count)
        + be_bytes(function_count) + bytecode
}

/// A code section that is written and read again is the same code section.
pub proof fn lemma_code_round_trip(
    info_size: u32,
    version: u32,
    opcode_max: u32,
    label_count: u32,
    function_count: u32,
    bytecode: Seq<u8>,
)
    ensures
        spec_code_chunk(
            CODE@,
            spec_encode_code(
                info_size,
                version,
                opcode_max,
                label_count,
                function_count,
                bytecode,
            ),
        ) == Ok::<ChunkSource, Fault>(
            ChunkSource::Code {
                info_size,
                version,
                opcode_max,
                label_count,
                function_count,
                bytecode,
            },
        ),
{
    let none = Seq::<u8>::empty();
    let w0 = be_bytes(info_size);
    let w1 = be_bytes(version);
    let w2 = be_bytes(opcode_max);
    let w3 = be_bytes(label_count);
    let w4 = be_bytes(function_count);
    let payload = w0 + w1 + w2 + w3 + w4 + bytecode;
    assert(word_at(payload, 0) == info_size) by {
        lemma_word_at_appended(none, info_size, w1 + w2 + w3 + w4 + bytecode);
    }
    assert(word_at(payload, 4) == version) by {
        lemma_word_at_appended(w0, version, w2 + w3 + w4 + bytecode);
    }
    assert(word_at(payload, 8) == opcode_max) by {
        lemma_word_at_appended(w0 + w1, opcode_max, w3 + w4 + bytecode);
    }
    assert(word_at(payload, 12) == label_count) by {
        lemma_word_at_appended(w0 + w1 + w2, label_count, w4 + bytecode);
    }
    assert(word_at(payload, 16) == function_count) by {
        lemma_word_at_appended(w0 + w1 + w2 + w3, function_count, bytecode);
    }
    assert(payload.subrange(20, payload.len() as int) =~= bytecode);
}

impl CodeChunk {
    /// Writes the payload of this code section. It never fails.
    pub fn encode_data(&self) -> (r: Result<Vec<u8>, Error>)
        ensures
            r is Ok,
            r->Ok_0@ == spec_encode_code(
                self.info_size,
                self.version,
                self.opcode_max,
                self.label_count,
                self.function_count,
                self.bytecode@,
            ),
    {
        let mut out: Vec<u8> = Vec::new();
        push_u32(&mut out, self.info_size);
        push_u32(&mut out, self.version);
        push_u32(&mut out, self.opcode_max);
        push_u32(&mut out, self.label_count);
        push_u32(&mut out, self.function_count);
        push_bytes(&mut out, self.bytecode.as_slice());
        Ok(out)
    }
}

impl StrTChunk {
    /// Writes the payload of this string table: its bytes. It never fails.
    pub fn encode_data(&self) -> (r: Result<Vec<u8>, Error>)
        ensures
            r is Ok,
            r->Ok_0@ == self.strings@,
    {
        Ok(slice_to_vec(self.strings.as_slice()))
    }
}

impl RawChunk {
    /// Writes the payload of this chunk: its bytes. It never fails.
    pub fn encode_data(&self) -> (r: Result<Vec<u8>, Error>)
        ensures
            r is Ok,
            r->Ok_0@ == self.data@,
    {
        Ok(slice_to_vec(self.data.as_slice()))
    }
}

} // verus!

//! From an id and a payload to a chunk: the id is matched against the known
//! ids, and the decoder of its kind reads the payload. A chunk with any
//! other id is kept as it stands.
use vstd::prelude::*;
use crate::atom::{lemma_atoms_round_trip, spec_atom_chunk, spec_encode_atoms};
use crate::chunk::{
    classify, spec_classify, ABST, ATOM, ATTR, ATU8, CINF, CODE, DBGI, DOCS, EXPT, FUNT, IMPT, LITT,
    LOCT, STRT, decoded, AbstChunk, AtomChunk, AttrChunk, CInfChunk, ChunkModel, ChunkSource,
    CodeChunk,
    DbgiChunk, DocsChunk, ExpTChunk, FunTChunk, Id, ImpTChunk, Kind, LitTChunk, LocTChunk,
    RawChunk, StandardChunk, StrTChunk,
};
use crate::code::{lemma_code_round_trip, spec_code_chunk, spec_encode_code, spec_strt_chunk};
use crate::error::{outcome, Error, Fault};
use crate::table::{
    lemma_exports_round_trip, lemma_functions_round_trip, lemma_imports_round_trip,
    lemma_locals_round_trip, spec_encode_table, spec_export_records, spec_expt_chunk, spec_function_records,
    spec_funt_chunk, spec_import_records, spec_impt_chunk, spec_local_records, spec_loct_chunk,
};
use crate::bytes::word_at;
use crate::entries::spec_entries;
use crate::term::{
    lemma_terms_fail_as_terms, literals_written, spec_literal_table, spec_abst_chunk, spec_attr_chunk, spec_cinf_chunk, spec_dbgi_chunk,
    spec_docs_chunk, spec_litt_chunk, term_written, terms_sound,
};

verus! {

/// What the chunk with the id `id` and the payload `payload` decodes to.
pub open spec fn spec_decode(id: Seq<u8>, payload: Seq<u8>) -> Result<ChunkSource, Fault> {
    match spec_classify(id) {
        Kind::Atom => spec_atom_chunk(id, payload),
        Kind::Code => spec_code_chunk(id, payload),
        Kind::StrT => spec_strt_chunk(id, payload),
        Kind::ImpT => spec_impt_chunk(id, payload),
        Kind::ExpT => spec_expt_chunk(id, payload),
        Kind::LitT => spec_litt_chunk(id, payload),
        Kind::LocT => spec_loct_chunk(id, payload),
        Kind::FunT => spec_funt_chunk(id, payload),
        Kind::Attr => spec_attr_chunk(id, payload),
        Kind::CInf => spec_cinf_chunk(id, payload),
        Kind::Abst => spec_abst_chunk(id, payload),
        Kind::Dbgi => spec_dbgi_chunk(id, payload),
        Kind::Docs => spec_docs_chunk(id, payload),
        Kind::Unknown => Ok(ChunkSource::Unknown { id, data: payload }),
    }
}

/// A chunk whose id is none of the known ids decodes, whatever its payload,
/// to a raw chunk with that id and exactly those bytes.
pub proof fn lemma_unknown_is_kept(id: Seq<u8>, payload: Seq<u8>)
    requires
        spec_classify(id) == Kind::Unknown,
    ensures
        spec_decode(id, payload) == Ok::<ChunkSource, Fault>(
            ChunkSource::Unknown { id, data: payload },
        ),
{
}

/// A chunk that decodes stands under the id that it was decoded from, and
/// no decoder reports a chunk other than the one it was given.
pub proof fn lemma_decoded_keeps_id(id: Seq<u8>, payload: Seq<u8>)
    requires
        id.len() == 4,
    ensures
        spec_decode(id, payload) matches Ok(chunk) ==> chunk.id() == id,
        !(spec_decode(id, payload) matches Err(Fault::UnexpectedChunk { .. })),
{
    if spec_classify(id) == Kind::LitT {
        if let Ok(table) = spec_literal_table(id, payload) {
            if table.len() >= 4 {
                if let Some(entries) = spec_entries(
                    table.subrange(4, table.len() as int),
                    word_at(table, 0) as nat,
                    true,
                ) {
                    lemma_terms_fail_as_terms(id, entries);
                }
            }
        }
    }
}

/// Whether `r` may come of writing the payload of `chunk`. Of a chunk
/// without terms it is one result, which reading gives back as the chunk. Of
/// a chunk with terms it is said how the terms are framed and that each
/// entry is bytes that the term codec writes for the term at its place.
pub open spec fn encodes(chunk: ChunkModel, r: Result<Seq<u8>, Fault>) -> bool {
    match chunk {
        ChunkModel::Atom { is_unicode, names } => r == spec_encode_atoms(names, is_unicode),
        ChunkModel::Code {
            info_size,
            version,
            opcode_max,
            label_count,
            function_count,
            bytecode,
        } => r == Ok::<Seq<u8>, Fault>(
            spec_encode_code(
                info_size,
                version,
                opcode_max,
                label_count,
                function_count,
                bytecode,
            ),
        ),
        ChunkModel::StrT { strings } => r == Ok::<Seq<u8>, Fault>(strings),
        ChunkModel::ImpT { imports } => r == spec_encode_table(
            chunk.id(),
            imports.len(),
            spec_import_records(imports),
        ),
        ChunkModel::ExpT { exports } => r == spec_encode_table(
            chunk.id(),
            exports.len(),
            spec_export_records(exports),
        ),
        ChunkModel::LitT { literals } => literals_written(literals, r),
        ChunkModel::LocT { locals } => r == spec_encode_table(
            chunk.id(),
            locals.len(),
            spec_local_records(locals),
        ),
        ChunkModel::FunT { functions } => r == spec_encode_table(
            chunk.id(),
            functions.len(),
            spec_function_records(functions),
        ),
        ChunkModel::Attr { term } => term_written(chunk.id(), term, r),
        ChunkModel::CInf { term } => term_written(chunk.id(), term, r),
        ChunkModel::Abst { term } => term_written(chunk.id(), term, r),
        ChunkModel::Dbgi { term } => term_written(chunk.id(), term, r),
        ChunkModel::Docs { term } => term_written(chunk.id(), term, r),
        ChunkModel::Unknown { id, data } => r == Ok::<Seq<u8>, Fault>(data),
    }
}

/// Each of the fourteen known ids stands for its kind.
pub proof fn lemma_known_ids()
    ensures
        spec_classify(ATOM@) == Kind::Atom,
        spec_classify(ATU8@) == Kind::Atom,
        spec_classify(CODE@) == Kind::Code,
        spec_classify(STRT@) == Kind::StrT,
        spec_classify(IMPT@) == Kind::ImpT,
        spec_classify(EXPT@) == Kind::ExpT,
        spec_classify(LITT@) == Kind::LitT,
        spec_classify(LOCT@) == Kind::LocT,
        spec_classify(FUNT@) == Kind::FunT,
        spec_classify(ATTR@) == Kind::Attr,
        spec_classify(CINF@) == Kind::CInf,
        spec_classify(ABST@) == Kind::Abst,
        spec_classify(DBGI@) == Kind::Dbgi,
        spec_classify(DOCS@) == Kind::Docs,
{
}

/// Whether a chunk holds terms of the external term format.
pub open spec fn has_terms(chunk: ChunkModel) -> bool {
    match chunk {
        ChunkModel::LitT { .. } => true,
        ChunkModel::Attr { .. } => true,
        ChunkModel::CInf { .. } => true,
        ChunkModel::Abst { .. } => true,
        ChunkModel::Dbgi { .. } => true,
        ChunkModel::Docs { .. } => true,
        _ => false,
    }
}

/// A chunk without terms that is written is read again as the same chunk.
/// A raw chunk must stand under an id that is none of the known ones: under
/// a known id its bytes would be read as a chunk of that kind.
pub proof fn lemma_round_trip(chunk: ChunkModel, payload: Seq<u8>)
    requires
        !has_terms(chunk),
        encodes(chunk, Ok(payload)),
        chunk matches ChunkModel::Unknown { id, .. } ==> spec_classify(id) == Kind::Unknown,
    ensures
        decoded(Ok(chunk), spec_decode(chunk.id(), payload)),
{
    lemma_known_ids();
    match chunk {
        ChunkModel::Atom { is_unicode, names } => {
            lemma_atoms_round_trip(names, is_unicode);
        },
        ChunkModel::Code {
            info_size,
            version,
            opcode_max,
            label_count,
            function_count,
            bytecode,
        } => {
            lemma_code_round_trip(
                info_size,
                version,
                opcode_max,
                label_count,
                function_count,
                bytecode,
            );
        },
        ChunkModel::ImpT { imports } => {
            lemma_imports_round_trip(imports);
        },
        ChunkModel::ExpT { exports } => {
            lemma_exports_round_trip(exports);
        },
        ChunkModel::LocT { locals } => {
            lemma_locals_round_trip(locals);
        },
        ChunkModel::FunT { functions } => {
            lemma_functions_round_trip(functions);
        },
        _ => {},
    }
}

impl StandardChunk {
    /// Writes the payload of this chunk. The codec must be able to
    /// take its terms, if it has any: any term that was decoded is such.
    pub fn encode_data(&self) -> (r: Result<Vec<u8>, Error>)
        requires
            terms_sound(self@),
        ensures
            encodes(self@, outcome(r)),
    {
        match self {
            StandardChunk::Atom(c) => c.encode_data(),
            StandardChunk::Code(c) => c.encode_data(),
            StandardChunk::StrT(c) => c.encode_data(),
            StandardChunk::ImpT(c) => c.encode_data(),
            StandardChunk::ExpT(c) => c.encode_data(),
            StandardChunk::LitT(c) => c.encode_data(),
            StandardChunk::LocT(c) => c.encode_data(),
            StandardChunk::FunT(c) => c.encode_data(),
            StandardChunk::Attr(c) => c.encode_data(),
            StandardChunk::CInf(c) => c.encode_data(),
            StandardChunk::Abst(c) => c.encode_data(),
            StandardChunk::Dbgi(c) => c.encode_data(),
            StandardChunk::Docs(c) => c.encode_data(),
            StandardChunk::Unknown(c) => c.encode_data(),
        }
    }

    /// Decodes the chunk with the id `id` and the payload `payload`.
    pub fn decode_data(id: &Id, payload: &[u8]) -> (r: Result<StandardChunk, Error>)
        ensures
            decoded(outcome(r), spec_decode(id@, payload@)),
            r is Ok ==> terms_sound(r->Ok_0@),
    {
        match classify(id) {
            Kind::Atom => match AtomChunk::decode_data(id, payload) {
                Ok(c) => Ok(StandardChunk::Atom(c)),
                Err(e) => Err(e),
            },
            Kind::Code => match CodeChunk::decode_data(id, payload) {
                Ok(c) => Ok(StandardChunk::Code(c)),
                Err(e) => Err(e),
            },
            Kind::StrT => match StrTChunk::decode_data(id, payload) {
                Ok(c) => Ok(StandardChunk::StrT(c)),
                Err(e) => Err(e),
            },
            Kind::ImpT => match ImpTChunk::decode_data(id, payload) {
                Ok(c) => Ok(StandardChunk::ImpT(c)),
                Err(e) => Err(e),
            },
            Kind::ExpT => match ExpTChunk::decode_data(id, payload) {
                Ok(c) => Ok(StandardChunk::ExpT(c)),
                Err(e) => Err(e),
            },
            Kind::LitT => match LitTChunk::decode_data(id, payload) {
                Ok(c) => Ok(StandardChunk::LitT(c)),
                Err(e) => Err(e),
            },
            Kind::LocT => match LocTChunk::decode_data(id, payload) {
                Ok(c) => Ok(StandardChunk::LocT(c)),
                Err(e) => Err(e),
            },
            Kind::FunT => match FunTChunk::decode_data(id, payload) {
                Ok(c) => Ok(StandardChunk::FunT(c)),
                Err(e) => Err(e),
            },
            Kind::Attr => match AttrChunk::decode_data(id, payload) {
                Ok(c) => Ok(StandardChunk::Attr(c)),
                Err(e) => Err(e),
            },
            Kind::CInf => match CInfChunk::decode_data(id, payload) {
                Ok(c) => Ok(StandardChunk::CInf(c)),
                Err(e) => Err(e),
            },
            Kind::Abst => match AbstChunk::decode_data(id, payload) {
                Ok(c) => Ok(StandardChunk::Abst(c)),
                Err(e) => Err(e),
            },
            Kind::Dbgi => match DbgiChunk::decode_data(id, payload) {
                Ok(c) => Ok(StandardChunk::Dbgi(c)),
                Err(e) => Err(e),
            },
            Kind::Docs => match DocsChunk::decode_data(id, payload) {
                Ok(c) => Ok(StandardChunk::Docs(c)),
                Err(e) => Err(e),
            },
            Kind::Unknown => Ok(StandardChunk::Unknown(RawChunk::decode_data(id, payload))),
        }
    }

    /// Decodes a chunk that was kept as it stood in the file.
    pub fn from_raw(raw: &RawChunk) -> (r: Result<StandardChunk, Error>)
        ensures
            decoded(outcome(r), spec_decode(raw@.id, raw@.data)),
            r is Ok ==> terms_sound(r->Ok_0@),
    {
        StandardChunk::decode_data(&raw.id, raw.data.as_slice())
    }
}

} // verus!

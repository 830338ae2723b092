//! The chunks that hold terms of the external term format: the literal
//! table and the five chunks of metadata. The terms themselves are the term
//! codec's business; what is decided here is the framing around them and
//! what becomes of the codec's answers. Bytes reach the codec only where
//! the scan of their shape has not refused them, and a term counts as read
//! only where its bytes hold that term and nothing else; a compressed term
//! is decompressed here first. The literal table has an envelope of its own,
//! which is opened here as well.
use vstd::prelude::*;
use vstd::slice::{slice_subrange, slice_to_vec};
use crate::bytes::{
    be_bytes, copy_range, lemma_word_at_appended, push_bytes, push_u32, read_u32, word_at,
};
use crate::chunk::{
    all_read, decoded, same_id, AbstChunk, AttrChunk, CInfChunk, ChunkModel, ChunkSource,
    DbgiChunk, DocsChunk, Id, LitTChunk, ABST, ATTR, CINF, DBGI, DOCS, LITT,
};
use crate::codec::{
    decode_term, encode_term, inflate, inflated, starts_term, term_decodes, term_reading,
    term_sound, term_writes, term_writing,
};
use crate::entries::{
    entries_fit, join_entries, lemma_join_split, spec_entries, spec_join, split_entries, views,
};
use crate::error::{and_then, outcome, Error, Fault, IoCause, IoFault};
use crate::scan::{scan_term, term_safe, term_shape, Verdict};

verus! {

/// What becomes of the decompressor's answer where the envelope declares
/// `declared` bytes: the bytes themselves if there are that many.
pub open spec fn spec_sized(id: Seq<u8>, declared: u32, data: Option<Seq<u8>>) -> Result<
    Seq<u8>,
    Fault,
> {
    match data {
        None => Err(Fault::Io { chunk: Some(id), cause: IoFault::Source }),
        Some(data) => if data.len() == declared {
            Ok(data)
        } else {
            Err(Fault::malformed(id))
        },
    }
}

/// The bytes as they are where they may be handed to the codec; bytes that
/// may not are malformed.
pub open spec fn spec_shaped(id: Seq<u8>, bytes: Seq<u8>) -> Result<Seq<u8>, Fault> {
    if term_safe(bytes) {
        Ok(bytes)
    } else {
        Err(Fault::malformed(id))
    }
}

/// Whether a payload holds a compressed term: the version byte, the tag 80,
/// a size word and a zlib stream.
pub open spec fn is_compressed(payload: Seq<u8>) -> bool {
    payload.len() >= 6 && payload[0] == 131 && payload[1] == 80
}

/// The bytes of the term of a payload, not compressed, as they are handed
/// to the codec. A compressed term must decompress to as many bytes as its
/// size word says; the version byte is put in front of them.
pub open spec fn spec_plain_term(id: Seq<u8>, payload: Seq<u8>) -> Result<Seq<u8>, Fault> {
    if is_compressed(payload) {
        match spec_sized(
            id,
            word_at(payload, 2),
            inflated(payload.subrange(6, payload.len() as int)),
        ) {
            Err(e) => Err(e),
            Ok(body) => spec_shaped(id, seq![131u8] + body),
        }
    } else {
        spec_shaped(id, payload)
    }
}

/// The bytes from which the codec reads the term of a payload inside the
/// chunk `id`: the bytes of the term, not compressed, where the codec reads
/// a term from them and they hold that term and nothing else. Where the
/// codec reports a failure, the failure is the codec's.
pub open spec fn spec_term(id: Seq<u8>, payload: Seq<u8>) -> Result<Seq<u8>, Fault> {
    match spec_plain_term(id, payload) {
        Err(e) => Err(e),
        Ok(bytes) => if !term_decodes(bytes) {
            Err(Fault::TermDecodeError { chunk: Some(id) })
        } else if term_shape(bytes) {
            Ok(bytes)
        } else {
            Err(Fault::malformed(id))
        },
    }
}

/// The bytes from which the codec reads the terms of the entries, in their
/// order; the failure of the first entry that does not decode.
pub open spec fn spec_terms(id: Seq<u8>, entries: Seq<Seq<u8>>) -> Result<Seq<Seq<u8>>, Fault>
    decreases entries.len(),
{
    if entries.len() == 0 {
        Ok(Seq::empty())
    } else {
        match spec_term(id, entries[0]) {
            Err(e) => Err(e),
            Ok(bytes) => and_then(
                seq![bytes],
                spec_terms(id, entries.subrange(1, entries.len() as int)),
            ),
        }
    }
}

/// No entry of a literal table fails as a chunk of another kind.
pub proof fn lemma_terms_fail_as_terms(id: Seq<u8>, entries: Seq<Seq<u8>>)
    ensures
        !(spec_terms(id, entries) matches Err(Fault::UnexpectedChunk { .. })),
    decreases entries.len(),
{
    if entries.len() > 0 {
        lemma_terms_fail_as_terms(id, entries.subrange(1, entries.len() as int));
    }
}

/// Whether each term of a chunk is one that the codec can be asked to
/// write. Every chunk that was decoded is such a chunk.
pub open spec fn terms_sound(chunk: ChunkModel) -> bool {
    match chunk {
        ChunkModel::LitT { literals } => forall|i: int|
            0 <= i < literals.len() ==> term_sound(#[trigger] literals[i]),
        ChunkModel::Attr { term } => term_sound(term),
        ChunkModel::CInf { term } => term_sound(term),
        ChunkModel::Abst { term } => term_sound(term),
        ChunkModel::Dbgi { term } => term_sound(term),
        ChunkModel::Docs { term } => term_sound(term),
        _ => true,
    }
}

/// The table inside the envelope of a literal payload. The envelope is a
/// size word and what follows it: where the word is zero, the table as it
/// stands; else a zlib stream that decompresses to a table of that size.
pub open spec fn spec_literal_table(id: Seq<u8>, payload: Seq<u8>) -> Result<Seq<u8>, Fault> {
    if payload.len() < 4 {
        Err(Fault::malformed(id))
    } else if word_at(payload, 0) == 0 {
        Ok(payload.subrange(4, payload.len() as int))
    } else {
        spec_sized(id, word_at(payload, 0), inflated(payload.subrange(4, payload.len() as int)))
    }
}

/// What a literal table decodes to: a count, then that many terms, each
/// behind a length word. A table whose entries do not use it up exactly is
/// malformed, whatever its entries hold.
pub open spec fn spec_literals(id: Seq<u8>, table: Seq<u8>) -> Result<ChunkSource, Fault> {
    if table.len() < 4 {
        Err(Fault::malformed(id))
    } else {
        match spec_entries(table.subrange(4, table.len() as int), word_at(table, 0) as nat, true) {
            None => Err(Fault::malformed(id)),
            Some(entries) => match spec_terms(id, entries) {
                Err(e) => Err(e),
                Ok(literals) => Ok(ChunkSource::LitT { literals }),
            },
        }
    }
}

/// What a chunk decodes to when a literal table is asked for.
pub open spec fn spec_litt_chunk(id: Seq<u8>, payload: Seq<u8>) -> Result<ChunkSource, Fault> {
    if id != LITT@ {
        Err(Fault::UnexpectedChunk { found: Some(id), expected: LITT@ })
    } else {
        match spec_literal_table(id, payload) {
            Err(e) => Err(e),
            Ok(table) => spec_literals(id, table),
        }
    }
}

/// What a chunk decodes to when the attributes are asked for.
pub open spec fn spec_attr_chunk(id: Seq<u8>, payload: Seq<u8>) -> Result<ChunkSource, Fault> {
    if id != ATTR@ {
        Err(Fault::UnexpectedChunk { found: Some(id), expected: ATTR@ })
    } else {
        match spec_term(id, payload) {
            Ok(term) => Ok(ChunkSource::Attr { term }),
            Err(e) => Err(e),
        }
    }
}

/// What a chunk decodes to when the compilation information is asked for.
pub open spec fn spec_cinf_chunk(id: Seq<u8>, payload: Seq<u8>) -> Result<ChunkSource, Fault> {
    if id != CINF@ {
        Err(Fault::UnexpectedChunk { found: Some(id), expected: CINF@ })
    } else {
        match spec_term(id, payload) {
            Ok(term) => Ok(ChunkSource::CInf { term }),
            Err(e) => Err(e),
        }
    }
}

/// What a chunk decodes to when the abstract code is asked for.
pub open spec fn spec_abst_chunk(id: Seq<u8>, payload: Seq<u8>) -> Result<ChunkSource, Fault> {
    if id != ABST@ {
        Err(Fault::UnexpectedChunk { found: Some(id), expected: ABST@ })
    } else {
        match spec_term(id, payload) {
            Ok(term) => Ok(ChunkSource::Abst { term }),
            Err(e) => Err(e),
        }
    }
}

/// What a chunk decodes to when the debug information is asked for.
pub open spec fn spec_dbgi_chunk(id: Seq<u8>, payload: Seq<u8>) -> Result<ChunkSource, Fault> {
    if id != DBGI@ {
        Err(Fault::UnexpectedChunk { found: Some(id), expected: DBGI@ })
    } else {
        match spec_term(id, payload) {
            Ok(term) => Ok(ChunkSource::Dbgi { term }),
            Err(e) => Err(e),
        }
    }
}

/// What a chunk decodes to when the documentation is asked for.
pub open spec fn spec_docs_chunk(id: Seq<u8>, payload: Seq<u8>) -> Result<ChunkSource, Fault> {
    if id != DOCS@ {
        Err(Fault::UnexpectedChunk { found: Some(id), expected: DOCS@ })
    } else {
        match spec_term(id, payload) {
            Ok(term) => Ok(ChunkSource::Docs { term }),
            Err(e) => Err(e),
        }
    }
}

/// What the bytes of a decompressor's answer are, where it gave any.
pub open spec fn data_view(data: Result<Vec<u8>, std::io::Error>) -> Option<Seq<u8>> {
    match data {
        Ok(data) => Some(data@),
        Err(_) => None,
    }
}

/// Passes on the term codec's answer for a term of the chunk `id`: the term
/// as it is, a failure with the id of the chunk put to it.
pub fn term_or_error(id: &Id, answer: Result<eetf::Term, eetf::DecodeError>) -> (r: Result<
    eetf::Term,
    Error,
>)
    ensures
        match answer {
            Ok(term) => r == Ok::<eetf::Term, Error>(term),
            Err(cause) => r == Err::<eetf::Term, Error>(
                Error::TermDecodeError { chunk: Some(*id), cause },
            ),
        },
{
    match answer {
        Ok(term) => Ok(term),
        Err(cause) => Err(Error::TermDecodeError { chunk: Some(*id), cause }),
    }
}

/// Passes on the decompressor's answer for the chunk `id`, whose envelope
/// declares `declared` bytes: the bytes if there are that many, a malformed
/// chunk if there are more or fewer, the decompressor's failure with the id
/// of the chunk put to it.
pub fn sized_table(id: &Id, declared: u32, answer: Result<Vec<u8>, std::io::Error>) -> (r: Result<
    Vec<u8>,
    Error,
>)
    ensures
        outcome(r) == spec_sized(id@, declared, data_view(answer)),
        match answer {
            Ok(data) => r is Ok ==> r == Ok::<Vec<u8>, Error>(data),
            Err(cause) => r == Err::<Vec<u8>, Error>(
                Error::Io { chunk: Some(*id), cause: IoCause::Source(cause) },
            ),
        },
{
    match answer {
        Err(cause) => Err(Error::Io { chunk: Some(*id), cause: IoCause::Source(cause) }),
        Ok(data) => {
            if data.len() as u64 == declared as u64 {
                Ok(data)
            } else {
                Err(Error::malformed(id))
            }
        },
    }
}

/// Opens the envelope of a literal payload.
pub fn literal_table(id: &Id, payload: &[u8]) -> (r: Result<Vec<u8>, Error>)
    ensures
        outcome(r) == spec_literal_table(id@, payload@),
{
    if payload.len() < 4 {
        return Err(Error::malformed(id));
    }
    let declared: u32 = read_u32(payload, 0);
    if declared == 0 {
        Ok(copy_range(payload, 4, payload.len()))
    } else {
        sized_table(id, declared, inflate(slice_subrange(payload, 4, payload.len())))
    }
}

/// The bytes of the term of a payload, not compressed, where they may be
/// handed to the codec, and whether they are one whole term of the admitted
/// shape.
pub fn plain_term(id: &Id, payload: &[u8]) -> (r: Result<(Vec<u8>, bool), Error>)
    ensures
        match r {
            Ok((bytes, whole)) => spec_plain_term(id@, payload@) == Ok::<Seq<u8>, Fault>(bytes@)
                && whole == term_shape(bytes@),
            Err(e) => spec_plain_term(id@, payload@) == Err::<Seq<u8>, Fault>(e@),
        },
{
    let bytes = if payload.len() >= 6 && payload[0] == 131 && payload[1] == 80 {
        let declared: u32 = read_u32(payload, 2);
        let stream = slice_subrange(payload, 6, payload.len());
        match sized_table(id, declared, inflate(stream)) {
            Err(e) => {
                return Err(e);
            },
            Ok(body) => {
                let mut bytes: Vec<u8> = Vec::new();
                bytes.push(131);
                push_bytes(&mut bytes, body.as_slice());
                assert(bytes@ =~= seq![131u8] + body@);
                bytes
            },
        }
    } else {
        slice_to_vec(payload)
    };
    match scan_term(bytes.as_slice()) {
        Verdict::Whole => Ok((bytes, true)),
        Verdict::Invalid => Ok((bytes, false)),
        Verdict::Refused => Err(Error::malformed(id)),
    }
}

/// Decodes the term of a payload inside the chunk `id`.
pub fn read_term(id: &Id, payload: &[u8]) -> (r: Result<eetf::Term, Error>)
    ensures
        match r {
            Ok(term) => spec_term(id@, payload@) matches Ok(bytes) && term_reading(bytes, term)
                && term_sound(term),
            Err(e) => spec_term(id@, payload@) == Err::<Seq<u8>, Fault>(e@),
        },
{
    match plain_term(id, payload) {
        Err(e) => Err(e),
        Ok((bytes, whole)) => match term_or_error(id, decode_term(bytes.as_slice())) {
            Err(e) => Err(e),
            Ok(term) => if whole {
                Ok(term)
            } else {
                Err(Error::malformed(id))
            },
        },
    }
}

impl LitTChunk {
    /// Decodes a literal table that stands outside its envelope.
    pub fn decode_table(id: &Id, table: &[u8]) -> (r: Result<LitTChunk, Error>)
        ensures
            decoded(outcome(r), spec_literals(id@, table@)),
            r is Ok ==> terms_sound(r->Ok_0@),
    {
        if table.len() < 4 {
            return Err(Error::malformed(id));
        }
        let count: u32 = read_u32(table, 0);
        let entries = match split_entries(slice_subrange(table, 4, table.len()), count, true) {
            Some(entries) => entries,
            None => {
                return Err(Error::malformed(id));
            },
        };
        let mut literals: Vec<eetf::Term> = Vec::new();
        let mut i: usize = 0;
        let ghost all = views(entries@);
        let ghost mut sources = Seq::<Seq<u8>>::empty();
        assert(all.subrange(0, all.len() as int) =~= all);
        assert(sources + spec_terms(id@, all)->Ok_0 =~= spec_terms(id@, all)->Ok_0);
        while i < entries.len()
            invariant
                i <= entries@.len(),
                all == views(entries@),
                table@.len() >= 4,
                spec_entries(
                    table@.subrange(4, table@.len() as int),
                    word_at(table@, 0) as nat,
                    true,
                ) == Some(all),
                forall|j: int| 0 <= j < literals@.len() ==> term_sound(#[trigger] literals@[j]),
                all_read(sources, literals@),
                spec_terms(id@, all) == and_then(
                    sources,
                    spec_terms(id@, all.subrange(i as int, all.len() as int)),
                ),
            decreases entries@.len() - i,
        {
            let ghost rest = all.subrange(i as int, all.len() as int);
            assert(rest[0] == entries@[i as int]@);
            match read_term(id, entries[i].as_slice()) {
                Err(e) => {
                    return Err(e);
                },
                Ok(term) => {
                    proof {
                        let bytes = spec_term(id@, rest[0])->Ok_0;
                        assert(rest.subrange(1, rest.len() as int) =~= all.subrange(
                            i + 1,
                            all.len() as int,
                        ));
                        let tail = spec_terms(id@, all.subrange(i + 1, all.len() as int));
                        if tail is Ok {
                            assert(sources + (seq![bytes] + tail->Ok_0) =~= sources.push(bytes)
                                + tail->Ok_0);
                        }
                        sources = sources.push(bytes);
                    }
                    literals.push(term);
                },
            }
            i += 1;
        }
        assert(sources + Seq::<Seq<u8>>::empty() =~= sources);
        Ok(LitTChunk { literals })
    }

    /// Decodes the payload of a literal table.
    pub fn decode_data(id: &Id, payload: &[u8]) -> (r: Result<LitTChunk, Error>)
        ensures
            decoded(outcome(r), spec_litt_chunk(id@, payload@)),
            r is Ok ==> terms_sound(r->Ok_0@),
    {
        if !same_id(id, &LITT) {
            return Err(Error::UnexpectedChunk { found: Some(*id), expected: LITT });
        }
        match literal_table(id, payload) {
            Err(e) => Err(e),
            Ok(table) => LitTChunk::decode_table(id, table.as_slice()),
        }
    }
}

impl AttrChunk {
    /// Decodes the payload of the attributes: one term, which must
    /// use up the payload.
    pub fn decode_data(id: &Id, payload: &[u8]) -> (r: Result<AttrChunk, Error>)
        ensures
            decoded(outcome(r), spec_attr_chunk(id@, payload@)),
            r is Ok ==> terms_sound(r->Ok_0@),
    {
        if !same_id(id, &ATTR) {
            return Err(Error::UnexpectedChunk { found: Some(*id), expected: ATTR });
        }
        match read_term(id, payload) {
            Ok(term) => Ok(AttrChunk { term }),
            Err(e) => Err(e),
        }
    }
}

impl CInfChunk {
    /// Decodes the payload of the compilation information: one term, which must
    /// use up the payload.
    pub fn decode_data(id: &Id, payload: &[u8]) -> (r: Result<CInfChunk, Error>)
        ensures
            decoded(outcome(r), spec_cinf_chunk(id@, payload@)),
            r is Ok ==> terms_sound(r->Ok_0@),
    {
        if !same_id(id, &CINF) {
            return Err(Error::UnexpectedChunk { found: Some(*id), expected: CINF });
        }
        match read_term(id, payload) {
            Ok(term) => Ok(CInfChunk { term }),
            Err(e) => Err(e),
        }
    }
}

impl AbstChunk {
    /// Decodes the payload of the abstract code: one term, which must
    /// use up the payload.
    pub fn decode_data(id: &Id, payload: &[u8]) -> (r: Result<AbstChunk, Error>)
        ensures
            decoded(outcome(r), spec_abst_chunk(id@, payload@)),
            r is Ok ==> terms_sound(r->Ok_0@),
    {
        if !same_id(id, &ABST) {
            return Err(Error::UnexpectedChunk { found: Some(*id), expected: ABST });
        }
        match read_term(id, payload) {
            Ok(term) => Ok(AbstChunk { term }),
            Err(e) => Err(e),
        }
    }
}

impl DbgiChunk {
    /// Decodes the payload of the debug information: one term, which must
    /// use up the payload.
    pub fn decode_data(id: &Id, payload: &[u8]) -> (r: Result<DbgiChunk, Error>)
        ensures
            decoded(outcome(r), spec_dbgi_chunk(id@, payload@)),
            r is Ok ==> terms_sound(r->Ok_0@),
    {
        if !same_id(id, &DBGI) {
            return Err(Error::UnexpectedChunk { found: Some(*id), expected: DBGI });
        }
        match read_term(id, payload) {
            Ok(term) => Ok(DbgiChunk { term }),
            Err(e) => Err(e),
        }
    }
}

impl DocsChunk {
    /// Decodes the payload of the documentation: one term, which must
    /// use up the payload.
    pub fn decode_data(id: &Id, payload: &[u8]) -> (r: Result<DocsChunk, Error>)
        ensures
            decoded(outcome(r), spec_docs_chunk(id@, payload@)),
            r is Ok ==> terms_sound(r->Ok_0@),
    {
        if !same_id(id, &DOCS) {
            return Err(Error::UnexpectedChunk { found: Some(*id), expected: DOCS });
        }
        match read_term(id, payload) {
            Ok(term) => Ok(DocsChunk { term }),
            Err(e) => Err(e),
        }
    }
}

/// What may come of writing `term` as the payload of the chunk `id`. Where
/// the codec writes the term: bytes that the codec writes for it, which
/// start with the version byte of the term format. Where it does not: the
/// codec's failure with the id of the chunk put to it.
pub open spec fn term_written(id: Seq<u8>, term: eetf::Term, r: Result<Seq<u8>, Fault>) -> bool {
    match r {
        Ok(payload) => term_writes(term) && starts_term(payload) && term_writing(term, payload),
        Err(e) => !term_writes(term) && e == (Fault::TermEncodeError { chunk: Some(id) }),
    }
}

/// Whether the codec writes each of the terms.
pub open spec fn all_write(literals: Seq<eetf::Term>) -> bool {
    forall|i: int| 0 <= i < literals.len() ==> term_writes(#[trigger] literals[i])
}

/// Whether the entries are the terms, written: each entry is bytes that
/// the codec writes for the term at its place.
pub open spec fn all_written(literals: Seq<eetf::Term>, entries: Seq<Seq<u8>>) -> bool {
    &&& entries.len() == literals.len()
    &&& forall|i: int|
        0 <= i < entries.len() ==> starts_term(#[trigger] entries[i]) && term_writing(
            literals[i],
            entries[i],
        )
}

/// The payload of a literal table whose terms are written as `entries`: the
/// envelope of a table that is not compressed, the count, and the entries,
/// each behind a length word. More entries than a count word can say, or an
/// entry longer than a length word can say, make a chunk that does not have
/// the shape of its kind.
pub open spec fn spec_frame_literals(entries: Seq<Seq<u8>>) -> Result<Seq<u8>, Fault> {
    if entries.len() > 0xffff_ffff || !entries_fit(entries, true) {
        Err(Fault::malformed(LITT@))
    } else {
        Ok(be_bytes(0) + be_bytes(entries.len() as u32) + spec_join(entries, true))
    }
}

/// What may come of writing a literal table of these terms. Where the
/// codec writes them all, one entry each, the result is what framing those
/// entries gives; where there is a term that it does not write, the result
/// is the codec's failure with the id of the chunk put to it.
pub open spec fn literals_written(literals: Seq<eetf::Term>, r: Result<Seq<u8>, Fault>) -> bool {
    if all_write(literals) {
        exists|entries: Seq<Seq<u8>>|
            all_written(literals, entries) && r == #[trigger] spec_frame_literals(entries)
    } else {
        r == Err::<Seq<u8>, Fault>(Fault::TermEncodeError { chunk: Some(LITT@) })
    }
}

/// A literal payload that frames entries is read back as the terms of those
/// entries, or fails as the first entry that does not decode fails.
pub proof fn lemma_literals_round_trip(entries: Seq<Seq<u8>>)
    ensures
        spec_frame_literals(entries) matches Ok(payload) ==> spec_litt_chunk(LITT@, payload) == (
        match spec_terms(LITT@, entries) {
            Ok(literals) => Ok::<ChunkSource, Fault>(ChunkSource::LitT { literals }),
            Err(e) => Err::<ChunkSource, Fault>(e),
        }),
{
    if let Ok(payload) = spec_frame_literals(entries) {
        let none = Seq::<u8>::empty();
        let count = entries.len() as u32;
        let joined = spec_join(entries, true);
        let table = be_bytes(count) + joined;
        lemma_word_at_appended(none, 0, table);
        assert(payload.subrange(4, payload.len() as int) =~= table);
        lemma_word_at_appended(none, count, joined);
        assert(table.subrange(4, table.len() as int) =~= joined);
        lemma_join_split(entries, true);
    }
}

/// Passes on the term codec's answer for a term of the chunk `id`: the
/// bytes as they are, a failure with the id of the chunk put to it.
pub fn payload_or_error(id: &Id, answer: Result<Vec<u8>, eetf::EncodeError>) -> (r: Result<
    Vec<u8>,
    Error,
>)
    ensures
        match answer {
            Ok(bytes) => r == Ok::<Vec<u8>, Error>(bytes),
            Err(cause) => r == Err::<Vec<u8>, Error>(
                Error::TermEncodeError { chunk: Some(*id), cause },
            ),
        },
{
    match answer {
        Ok(bytes) => Ok(bytes),
        Err(cause) => Err(Error::TermEncodeError { chunk: Some(*id), cause }),
    }
}

/// Frames the written terms of a literal table as its payload.
pub fn frame_literals(entries: &Vec<Vec<u8>>) -> (r: Result<Vec<u8>, Error>)
    ensures
        outcome(r) == spec_frame_literals(views(entries@)),
{
    if entries.len() > 0xffff_ffff {
        return Err(Error::malformed(&LITT));
    }
    let mut out: Vec<u8> = Vec::new();
    push_u32(&mut out, 0);
    push_u32(&mut out, entries.len() as u32);
    if join_entries(&mut out, entries, true) {
        Ok(out)
    } else {
        Err(Error::malformed(&LITT))
    }
}

impl LitTChunk {
    /// Writes the payload of this literal table, not compressed. The codec
    /// must be able to take each term: any term that was decoded is such.
    pub fn encode_data(&self) -> (r: Result<Vec<u8>, Error>)
        requires
            terms_sound(self@),
        ensures
            literals_written(self.literals@, outcome(r)),
    {
        let mut entries: Vec<Vec<u8>> = Vec::new();
        let mut i: usize = 0;
        assert forall|j: int| 0 <= j < self.literals@.len() implies term_sound(
            #[trigger] self.literals@[j],
        ) by {
            assert(self@->LitT_literals[j] == self.literals@[j]);
        }
        while i < self.literals.len()
            invariant
                i <= self.literals@.len(),
                forall|j: int|
                    0 <= j < self.literals@.len() ==> term_sound(#[trigger] self.literals@[j]),
                all_write(self.literals@.subrange(0, i as int)),
                all_written(self.literals@.subrange(0, i as int), views(entries@)),
            decreases self.literals@.len() - i,
        {
            match payload_or_error(&LITT, encode_term(&self.literals[i])) {
                Ok(bytes) => {
                    let ghost before = views(entries@);
                    entries.push(bytes);
                    assert(views(entries@) =~= before.push(bytes@));
                },
                Err(e) => {
                    assert(!term_writes(self.literals@[i as int]));
                    return Err(e);
                },
            }
            i += 1;
        }
        assert(self.literals@.subrange(0, i as int) =~= self.literals@);
        frame_literals(&entries)
    }
}

impl AttrChunk {
    /// Writes the payload of the attributes: their term, as the term codec writes
    /// it. The codec must be able to take the term: any term that was
    /// decoded is such. The codec decides whether it can be written;
    /// where it fails, its failure is returned with the id of this chunk.
    pub fn encode_data(&self) -> (r: Result<Vec<u8>, Error>)
        requires
            term_sound(self.term),
        ensures
            term_written(ATTR@, self.term, outcome(r)),
    {
        payload_or_error(&ATTR, encode_term(&self.term))
    }
}

impl CInfChunk {
    /// Writes the payload of the compilation information: its term, as the term codec writes
    /// it. The codec must be able to take the term: any term that was
    /// decoded is such. The codec decides whether it can be written;
    /// where it fails, its failure is returned with the id of this chunk.
    pub fn encode_data(&self) -> (r: Result<Vec<u8>, Error>)
        requires
            term_sound(self.term),
        ensures
            term_written(CINF@, self.term, outcome(r)),
    {
        payload_or_error(&CINF, encode_term(&self.term))
    }
}

impl AbstChunk {
    /// Writes the payload of the abstract code: its term, as the term codec writes
    /// it. The codec must be able to take the term: any term that was
    /// decoded is such. The codec decides whether it can be written;
    /// where it fails, its failure is returned with the id of this chunk.
    pub fn encode_data(&self) -> (r: Result<Vec<u8>, Error>)
        requires
            term_sound(self.term),
        ensures
            term_written(ABST@, self.term, outcome(r)),
    {
        payload_or_error(&ABST, encode_term(&self.term))
    }
}

impl DbgiChunk {
    /// Writes the payload of the debug information: its term, as the term codec writes
    /// it. The codec must be able to take the term: any term that was
    /// decoded is such. The codec decides whether it can be written;
    /// where it fails, its failure is returned with the id of this chunk.
    pub fn encode_data(&self) -> (r: Result<Vec<u8>, Error>)
        requires
            term_sound(self.term),
        ensures
            term_written(DBGI@, self.term, outcome(r)),
    {
        payload_or_error(&DBGI, encode_term(&self.term))
    }
}

impl DocsChunk {
    /// Writes the payload of the documentation: its term, as the term codec writes
    /// it. The codec must be able to take the term: any term that was
    /// decoded is such. The codec decides whether it can be written;
    /// where it fails, its failure is returned with the id of this chunk.
    pub fn encode_data(&self) -> (r: Result<Vec<u8>, Error>)
        requires
            term_sound(self.term),
        ensures
            term_written(DOCS@, self.term, outcome(r)),
    {
        payload_or_error(&DOCS, encode_term(&self.term))
    }
}

} // verus!

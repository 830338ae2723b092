//! The form container: an envelope of twelve bytes, then chunks, each an id,
//! a length word, a payload of that length and padding to the next multiple
//! of four.
use vstd::prelude::*;
use vstd::slice::slice_subrange;
use crate::bytes::{
    be_bytes, copy_range, lemma_word_at_appended, padding_size, push_bytes, push_u32, read_u32,
    spec_padding, word_at,
};
use crate::chunk::{
    decoded, read_id, reads, same_id, ChunkModel, ChunkSource, Id, RawChunk, RawModel,
    StandardChunk,
};
use crate::chunk::{spec_classify, Kind};
use crate::decode::{encodes, has_terms, lemma_round_trip, spec_decode};
use crate::error::{and_then, outcome, Error, Fault, IoCause, IoFault};
use crate::term::terms_sound;

verus! {

/// `FOR1`: the tag that a form container starts with.
pub const MAGIC: [u8; 4] = [70, 79, 82, 49];

/// `BEAM`: the tag of the form that a module file holds.
pub const FORM_TYPE: [u8; 4] = [66, 69, 65, 77];

/// A decoded file: its chunks, in the order of the file.
#[derive(Debug, PartialEq, Eq)]
pub struct BeamFile<C> {
    pub chunks: Vec<C>,
}

/// A file whose chunks are kept as they stand.
pub type RawBeamFile = BeamFile<RawChunk>;

/// A file whose chunks are decoded, each by its kind.
pub type StandardBeamFile = BeamFile<StandardChunk>;

/// What a vector of raw chunks holds.
pub open spec fn raw_models(chunks: Seq<RawChunk>) -> Seq<RawModel> {
    Seq::new(chunks.len(), |i: int| chunks[i]@)
}

/// Whether each term of each chunk is one that the codec can be asked to
/// write. Every file that was decoded is such a file.
pub open spec fn all_sound(chunks: Seq<ChunkModel>) -> bool {
    forall|i: int| 0 <= i < chunks.len() ==> terms_sound(#[trigger] chunks[i])
}

/// Whether each of the chunks is read from what stands at its place in
/// `sources`.
pub open spec fn all_reads(sources: Seq<ChunkSource>, chunks: Seq<ChunkModel>) -> bool {
    &&& chunks.len() == sources.len()
    &&& forall|i: int| 0 <= i < sources.len() ==> reads(#[trigger] sources[i], chunks[i])
}

/// Whether `r` is what decoding gives where the bytes say `source`: the
/// failure that the bytes say, or chunks that are read from what they say,
/// one for one and in their order.
pub open spec fn all_decoded(
    r: Result<Seq<ChunkModel>, Fault>,
    source: Result<Seq<ChunkSource>, Fault>,
) -> bool {
    match source {
        Err(e) => r == Err::<Seq<ChunkModel>, Fault>(e),
        Ok(sources) => r matches Ok(chunks) && all_reads(sources, chunks),
    }
}

/// What a vector of decoded chunks holds.
pub open spec fn chunk_models(chunks: Seq<StandardChunk>) -> Seq<ChunkModel> {
    Seq::new(chunks.len(), |i: int| chunks[i]@)
}

impl View for BeamFile<RawChunk> {
    type V = Seq<RawModel>;

    open spec fn view(&self) -> Seq<RawModel> {
        raw_models(self.chunks@)
    }
}

impl View for BeamFile<StandardChunk> {
    type V = Seq<ChunkModel>;

    open spec fn view(&self) -> Seq<ChunkModel> {
        chunk_models(self.chunks@)
    }
}

/// The bytes that follow the envelope. The envelope is judged in this
/// order: the magic tag as soon as four bytes are there, the form tag once
/// twelve are, and last the size word, which must give the number of bytes
/// that follow it, the form tag included.
pub open spec fn spec_body(bytes: Seq<u8>) -> Result<Seq<u8>, Fault> {
    if bytes.len() < 4 {
        Err(Fault::eof())
    } else if bytes.subrange(0, 4) != MAGIC@ {
        Err(Fault::UnexpectedMagicNumber { found: bytes.subrange(0, 4) })
    } else if bytes.len() < 12 {
        Err(Fault::eof())
    } else if bytes.subrange(8, 12) != FORM_TYPE@ {
        Err(Fault::UnexpectedFormType { found: bytes.subrange(8, 12) })
    } else if word_at(bytes, 4) != bytes.len() - 8 {
        Err(Fault::Io { chunk: None, cause: IoFault::SizeMismatch { declared: word_at(bytes, 4) } })
    } else {
        Ok(bytes.subrange(12, bytes.len() as int))
    }
}

/// The number of bytes that a chunk with a payload of `size` bytes takes in
/// the file: id, length word, payload and padding.
pub open spec fn frame_len(size: int) -> int {
    8 + size + spec_padding(size)
}

/// The chunks that `body` is made of, in order. No bytes at all are no
/// chunks; bytes that end inside an id, a length word, a payload or its
/// padding are a failure.
pub open spec fn spec_frames(body: Seq<u8>) -> Result<Seq<RawModel>, Fault>
    decreases body.len(),
{
    if body.len() == 0 {
        Ok(Seq::empty())
    } else if body.len() < 8 || body.len() < frame_len(word_at(body, 4) as int) {
        Err(Fault::eof())
    } else {
        let size = word_at(body, 4) as int;
        and_then(
            seq![RawModel { id: body.subrange(0, 4), data: body.subrange(8, 8 + size) }],
            spec_frames(body.subrange(frame_len(size), body.len() as int)),
        )
    }
}

/// What the chunks decode to, in order; the failure of the first that does
/// not decode.
pub open spec fn spec_decode_all(chunks: Seq<RawModel>) -> Result<Seq<ChunkSource>, Fault>
    decreases chunks.len(),
{
    if chunks.len() == 0 {
        Ok(Seq::empty())
    } else {
        match spec_decode(chunks[0].id, chunks[0].data) {
            Err(e) => Err(e),
            Ok(chunk) => and_then(
                seq![chunk],
                spec_decode_all(chunks.subrange(1, chunks.len() as int)),
            ),
        }
    }
}

/// The raw chunks of a file.
pub open spec fn spec_raw_file(bytes: Seq<u8>) -> Result<Seq<RawModel>, Fault> {
    match spec_body(bytes) {
        Err(e) => Err(e),
        Ok(body) => spec_frames(body),
    }
}

/// The decoded chunks of a file. The file is framed as a whole before any
/// chunk is decoded, so a failure of the framing comes before a failure
/// inside a chunk.
pub open spec fn spec_standard_file(bytes: Seq<u8>) -> Result<Seq<ChunkSource>, Fault> {
    match spec_raw_file(bytes) {
        Err(e) => Err(e),
        Ok(chunks) => spec_decode_all(chunks),
    }
}

/// Input that starts with four bytes other than the magic tag fails with
/// those four bytes, whatever follows them, and in no other way.
pub proof fn lemma_wrong_magic(bytes: Seq<u8>)
    requires
        bytes.len() >= 4,
        bytes.subrange(0, 4) != MAGIC@,
    ensures
        spec_raw_file(bytes) == Err::<Seq<RawModel>, Fault>(
            Fault::UnexpectedMagicNumber { found: bytes.subrange(0, 4) },
        ),
        spec_standard_file(bytes) == Err::<Seq<ChunkSource>, Fault>(
            Fault::UnexpectedMagicNumber { found: bytes.subrange(0, 4) },
        ),
{
}

/// Input with the magic tag and, behind the size word, four bytes other
/// than the form tag fails with those four bytes, whatever the size word
/// says and whatever follows.
pub proof fn lemma_wrong_form_type(bytes: Seq<u8>)
    requires
        bytes.len() >= 12,
        bytes.subrange(0, 4) == MAGIC@,
        bytes.subrange(8, 12) != FORM_TYPE@,
    ensures
        spec_raw_file(bytes) == Err::<Seq<RawModel>, Fault>(
            Fault::UnexpectedFormType { found: bytes.subrange(8, 12) },
        ),
        spec_standard_file(bytes) == Err::<Seq<ChunkSource>, Fault>(
            Fault::UnexpectedFormType { found: bytes.subrange(8, 12) },
        ),
{
}

/// An envelope with nothing behind it is a file without chunks.
pub proof fn lemma_envelope_alone()
    ensures
        spec_raw_file(MAGIC@ + be_bytes(4) + FORM_TYPE@) == Ok::<Seq<RawModel>, Fault>(
            Seq::empty(),
        ),
        spec_standard_file(MAGIC@ + be_bytes(4) + FORM_TYPE@) == Ok::<Seq<ChunkSource>, Fault>(
            Seq::empty(),
        ),
{
    let bytes = MAGIC@ + be_bytes(4) + FORM_TYPE@;
    lemma_word_at_appended(MAGIC@, 4, FORM_TYPE@);
    assert(bytes.subrange(0, 4) =~= MAGIC@);
    assert(bytes.subrange(8, 12) =~= FORM_TYPE@);
}

/// The id of the first chunk, where there is one.
pub open spec fn first_id(ids: Seq<Seq<u8>>) -> Option<Seq<u8>> {
    if ids.len() == 0 {
        None
    } else {
        Some(ids[0])
    }
}

/// Whether `at` is the place of the first of `ids` that is `expected`.
pub open spec fn is_first_at(ids: Seq<Seq<u8>>, expected: Seq<u8>, at: int) -> bool {
    &&& 0 <= at < ids.len()
    &&& ids[at] == expected
    &&& forall|j: int| 0 <= j < at ==> ids[j] != expected
}

/// Whether none of `ids` is `expected`.
pub open spec fn is_absent(ids: Seq<Seq<u8>>, expected: Seq<u8>) -> bool {
    forall|j: int| 0 <= j < ids.len() ==> ids[j] != expected
}

/// Checks the envelope and gives the bytes that follow it.
pub fn body_of(bytes: &[u8]) -> (r: Result<&[u8], Error>)
    ensures
        outcome(r) == spec_body(bytes@),
{
    if bytes.len() < 4 {
        return Err(Error::eof());
    }
    let magic = read_id(bytes, 0);
    if !same_id(&magic, &MAGIC) {
        return Err(Error::UnexpectedMagicNumber { found: magic });
    }
    if bytes.len() < 12 {
        return Err(Error::eof());
    }
    let declared: u32 = read_u32(bytes, 4);
    let form = read_id(bytes, 8);
    if !same_id(&form, &FORM_TYPE) {
        return Err(Error::UnexpectedFormType { found: form });
    }
    if (bytes.len() - 8) as u64 != declared as u64 {
        return Err(Error::Io { chunk: None, cause: IoCause::SizeMismatch { declared } });
    }
    Ok(slice_subrange(bytes, 12, bytes.len()))
}

/// The chunk that `body` starts with, and the number of bytes that it takes
/// with its padding. What follows the chunk is not looked at.
pub open spec fn spec_first_frame(body: Seq<u8>) -> Result<(RawModel, int), Fault> {
    if body.len() < 8 || body.len() < frame_len(word_at(body, 4) as int) {
        Err(Fault::eof())
    } else {
        let size = word_at(body, 4) as int;
        Ok((RawModel { id: body.subrange(0, 4), data: body.subrange(8, 8 + size) }, frame_len(size)))
    }
}

/// Reads the chunk that `body` starts with, and says how many bytes it takes
/// with its padding.
pub fn read_chunk(body: &[u8]) -> (r: Result<(RawChunk, usize), Error>)
    ensures
        match r {
            Ok((chunk, taken)) => spec_first_frame(body@) == Ok::<(RawModel, int), Fault>(
                (chunk@, taken as int),
            ),
            Err(e) => spec_first_frame(body@) == Err::<(RawModel, int), Fault>(e@),
        },
{
    let len: usize = body.len();
    if len < 8 {
        return Err(Error::eof());
    }
    let id = read_id(body, 0);
    let size: u32 = read_u32(body, 4);
    let padding: u32 = padding_size(size);
    let need: u64 = 8 + size as u64 + padding as u64;
    if (len as u64) < need {
        return Err(Error::eof());
    }
    let end: usize = 8 + size as usize;
    let chunk = RawChunk { id, data: copy_range(body, 8, end) };
    Ok((chunk, end + padding as usize))
}

/// Splits the bytes that follow the envelope into chunks.
pub fn split_chunks(body: &[u8]) -> (r: Result<Vec<RawChunk>, Error>)
    ensures
        match r {
            Ok(chunks) => spec_frames(body@) == Ok::<Seq<RawModel>, Fault>(raw_models(chunks@)),
            Err(e) => spec_frames(body@) == Err::<Seq<RawModel>, Fault>(e@),
        },
{
    let mut chunks: Vec<RawChunk> = Vec::new();
    let mut pos: usize = 0;
    let len: usize = body.len();
    assert(body@.subrange(0, len as int) =~= body@);
    while pos < len
        invariant
            pos <= len,
            len == body@.len(),
            spec_frames(body@) == and_then(
                raw_models(chunks@),
                spec_frames(body@.subrange(pos as int, len as int)),
            ),
        decreases len - pos,
    {
        let ghost rest = body@.subrange(pos as int, len as int);
        let (chunk, taken) = match read_chunk(slice_subrange(body, pos, len)) {
            Ok(read) => read,
            Err(e) => {
                return Err(e);
            },
        };
        proof {
            assert(rest.subrange(taken as int, rest.len() as int) =~= body@.subrange(
                pos + taken,
                len as int,
            ));
            let tail = spec_frames(body@.subrange(pos + taken, len as int));
            assert(raw_models(chunks@.push(chunk)) =~= raw_models(chunks@) + seq![chunk@]);
            if tail is Ok {
                assert(raw_models(chunks@) + (seq![chunk@] + tail->Ok_0) =~= (raw_models(chunks@)
                    + seq![chunk@]) + tail->Ok_0);
            }
        }
        chunks.push(chunk);
        pos = pos + taken;
    }
    Ok(chunks)
}

impl BeamFile<RawChunk> {
    /// Reads a file into its chunks, each kept as it stands.
    pub fn from_bytes(bytes: &[u8]) -> (r: Result<RawBeamFile, Error>)
        ensures
            outcome(r) == spec_raw_file(bytes@),
    {
        let body = match body_of(bytes) {
            Ok(body) => body,
            Err(e) => {
                return Err(e);
            },
        };
        match split_chunks(body) {
            Ok(chunks) => Ok(BeamFile { chunks }),
            Err(e) => Err(e),
        }
    }

    /// The ids of the chunks, in order.
    pub open spec fn ids(&self) -> Seq<Seq<u8>> {
        Seq::new(self.chunks@.len(), |i: int| self.chunks@[i].id@)
    }

    /// The place of the first chunk with the id `expected`.
    pub fn position(&self, expected: &Id) -> (r: Option<usize>)
        ensures
            match r {
                Some(at) => is_first_at(self.ids(), expected@, at as int),
                None => is_absent(self.ids(), expected@),
            },
    {
        let mut i: usize = 0;
        while i < self.chunks.len()
            invariant
                i <= self.chunks@.len(),
                forall|j: int| 0 <= j < i ==> self.ids()[j] != expected@,
            decreases self.chunks@.len() - i,
        {
            if same_id(&self.chunks[i].id, expected) {
                return Some(i);
            }
            i += 1;
        }
        None
    }

    /// The first chunk with the id `expected`. Where there is none, the
    /// failure names the id asked for and the id of the first chunk that is
    /// there, if there is any.
    pub fn find(&self, expected: &Id) -> (r: Result<&RawChunk, Error>)
        ensures
            match r {
                Ok(chunk) => exists|at: int|
                    is_first_at(self.ids(), expected@, at) && *chunk == self.chunks@[at],
                Err(e) => is_absent(self.ids(), expected@) && e@ == (Fault::UnexpectedChunk {
                    found: first_id(self.ids()),
                    expected: expected@,
                }),
            },
    {
        match self.position(expected) {
            Some(at) => Ok(&self.chunks[at]),
            None => {
                let found = if self.chunks.len() == 0 {
                    None
                } else {
                    Some(self.chunks[0].id)
                };
                Err(Error::UnexpectedChunk { found, expected: *expected })
            },
        }
    }
}

impl BeamFile<StandardChunk> {
    /// Decodes the chunks of a file that was read into raw chunks.
    pub fn from_raw(raw: &RawBeamFile) -> (r: Result<StandardBeamFile, Error>)
        ensures
            all_decoded(outcome(r), spec_decode_all(raw@)),
            r is Ok ==> all_sound(r->Ok_0@),
    {
        let mut chunks: Vec<StandardChunk> = Vec::new();
        let mut i: usize = 0;
        let ghost all = raw@;
        let ghost mut sources = Seq::<ChunkSource>::empty();
        assert(all.subrange(0, all.len() as int) =~= all);
        assert(sources + spec_decode_all(all)->Ok_0 =~= spec_decode_all(all)->Ok_0);
        while i < raw.chunks.len()
            invariant
                i <= raw.chunks@.len(),
                all == raw@,
                all_sound(chunk_models(chunks@)),
                all_reads(sources, chunk_models(chunks@)),
                spec_decode_all(all) == and_then(
                    sources,
                    spec_decode_all(all.subrange(i as int, all.len() as int)),
                ),
            decreases raw.chunks@.len() - i,
        {
            let ghost rest = all.subrange(i as int, all.len() as int);
            assert(rest[0] == raw.chunks@[i as int]@);
            match StandardChunk::from_raw(&raw.chunks[i]) {
                Err(e) => {
                    return Err(e);
                },
                Ok(chunk) => {
                    proof {
                        let source = spec_decode(rest[0].id, rest[0].data)->Ok_0;
                        assert(rest.subrange(1, rest.len() as int) =~= all.subrange(
                            i + 1,
                            all.len() as int,
                        ));
                        let tail = spec_decode_all(all.subrange(i + 1, all.len() as int));
                        assert(chunk_models(chunks@.push(chunk)) =~= chunk_models(chunks@).push(
                            chunk@,
                        ));
                        if tail is Ok {
                            assert(sources + (seq![source] + tail->Ok_0) =~= sources.push(source)
                                + tail->Ok_0);
                        }
                        sources = sources.push(source);
                    }
                    chunks.push(chunk);
                },
            }
            i += 1;
        }
        assert(sources + Seq::<ChunkSource>::empty() =~= sources);
        Ok(BeamFile { chunks })
    }

    /// Reads a file and decodes every chunk of it. No chunks are returned
    /// unless all of them decode.
    pub fn from_bytes(bytes: &[u8]) -> (r: Result<StandardBeamFile, Error>)
        ensures
            all_decoded(outcome(r), spec_standard_file(bytes@)),
            r is Ok ==> all_sound(r->Ok_0@),
    {
        match RawBeamFile::from_bytes(bytes) {
            Err(e) => Err(e),
            Ok(raw) => StandardBeamFile::from_raw(&raw),
        }
    }

    /// The ids of the chunks, in order.
    pub open spec fn ids(&self) -> Seq<Seq<u8>> {
        Seq::new(self.chunks@.len(), |i: int| self.chunks@[i]@.id())
    }

    /// The place of the first chunk with the id `expected`.
    pub fn position(&self, expected: &Id) -> (r: Option<usize>)
        ensures
            match r {
                Some(at) => is_first_at(self.ids(), expected@, at as int),
                None => is_absent(self.ids(), expected@),
            },
    {
        let mut i: usize = 0;
        while i < self.chunks.len()
            invariant
                i <= self.chunks@.len(),
                forall|j: int| 0 <= j < i ==> self.ids()[j] != expected@,
            decreases self.chunks@.len() - i,
        {
            let id = self.chunks[i].id();
            if same_id(&id, expected) {
                return Some(i);
            }
            i += 1;
        }
        None
    }

    /// The first chunk with the id `expected`. Where there is none, the
    /// failure names the id asked for and the id of the first chunk that is
    /// there, if there is any.
    pub fn find(&self, expected: &Id) -> (r: Result<&StandardChunk, Error>)
        ensures
            match r {
                Ok(chunk) => exists|at: int|
                    is_first_at(self.ids(), expected@, at) && *chunk == self.chunks@[at],
                Err(e) => is_absent(self.ids(), expected@) && e@ == (Fault::UnexpectedChunk {
                    found: first_id(self.ids()),
                    expected: expected@,
                }),
            },
    {
        match self.position(expected) {
            Some(at) => Ok(&self.chunks[at]),
            None => {
                let found = if self.chunks.len() == 0 {
                    None
                } else {
                    Some(self.chunks[0].id())
                };
                Err(Error::UnexpectedChunk { found, expected: *expected })
            },
        }
    }
}

/// The ids of raw chunks, in order.
pub open spec fn raw_ids(chunks: Seq<RawModel>) -> Seq<Seq<u8>> {
    Seq::new(chunks.len(), |i: int| chunks[i].id)
}

/// Reads a file and decodes one chunk of it: the first with the id
/// `expected`. The other chunks are framed and not decoded, so a chunk that
/// would not decode does not stand in the way of another.
pub fn decode_chunk(bytes: &[u8], expected: &Id) -> (r: Result<StandardChunk, Error>)
    ensures
        r is Ok ==> terms_sound(r->Ok_0@),
        match spec_raw_file(bytes@) {
            Err(e) => outcome(r) == Err::<ChunkModel, Fault>(e),
            Ok(chunks) => {
                ||| exists|at: int|
                    is_first_at(raw_ids(chunks), expected@, at) && decoded(
                        outcome(r),
                        spec_decode(expected@, chunks[at].data),
                    )
                ||| is_absent(raw_ids(chunks), expected@) && outcome(r) == Err::<ChunkModel, Fault>(
                    Fault::UnexpectedChunk { found: first_id(raw_ids(chunks)), expected: expected@ },
                )
            },
        },
{
    let raw = match RawBeamFile::from_bytes(bytes) {
        Ok(raw) => raw,
        Err(e) => {
            return Err(e);
        },
    };
    assert(raw.ids() =~= raw_ids(raw@));
    match raw.find(expected) {
        Err(e) => Err(e),
        Ok(chunk) => StandardChunk::from_raw(chunk),
    }
}

/// `n` zero bytes.
pub open spec fn zeros(n: int) -> Seq<u8> {
    Seq::new(n as nat, |i: int| 0u8)
}

/// A chunk as it stands in a file: its id, the length of its payload, the
/// payload, and zero bytes up to the next multiple of four.
pub open spec fn spec_frame(id: Seq<u8>, payload: Seq<u8>) -> Seq<u8> {
    id + be_bytes(payload.len() as u32) + payload + zeros(spec_padding(payload.len() as int))
}

/// What framing a payload under the id `id` gives. A payload longer than a
/// length word can say makes a chunk that does not have the shape of its
/// kind.
pub open spec fn spec_encode_frame(id: Seq<u8>, payload: Seq<u8>) -> Result<Seq<u8>, Fault> {
    if payload.len() > 0xffff_ffff {
        Err(Fault::malformed(id))
    } else {
        Ok(spec_frame(id, payload))
    }
}

/// A framed chunk takes a multiple of four bytes, and bytes that start with
/// it are split into that chunk, with its id and its payload as they were
/// framed, and the chunks of the bytes that follow it.
pub proof fn lemma_frame_split(id: Seq<u8>, payload: Seq<u8>, rest: Seq<u8>)
    requires
        id.len() == 4,
        payload.len() <= 0xffff_ffff,
    ensures
        spec_frame(id, payload).len() % 4 == 0,
        spec_frames(spec_frame(id, payload) + rest) == and_then(
            seq![RawModel { id, data: payload }],
            spec_frames(rest),
        ),
{
    let size = payload.len() as int;
    let frame = spec_frame(id, payload);
    let body = frame + rest;
    let tail = payload + zeros(spec_padding(size)) + rest;
    lemma_word_at_appended(id, size as u32, tail);
    assert(body.subrange(0, 4) =~= id);
    assert(body.subrange(8, 8 + size) =~= payload);
    assert(body.subrange(frame_len(size), body.len() as int) =~= rest);
}

/// The chunks framed one after the other.
pub open spec fn spec_frame_all(chunks: Seq<RawModel>) -> Seq<u8>
    decreases chunks.len(),
{
    if chunks.len() == 0 {
        Seq::empty()
    } else {
        spec_frame(chunks[0].id, chunks[0].data) + spec_frame_all(
            chunks.subrange(1, chunks.len() as int),
        )
    }
}

/// Whether each chunk can be framed: its id is four bytes and a length word
/// can say the length of its payload.
pub open spec fn frames_fit(chunks: Seq<RawModel>) -> bool {
    forall|i: int|
        0 <= i < chunks.len() ==> (#[trigger] chunks[i]).id.len() == 4 && chunks[i].data.len()
            <= 0xffff_ffff
}

/// A module file of these chunks: the envelope, whose size word gives the
/// bytes that follow it, and the chunks, framed.
pub open spec fn spec_file(chunks: Seq<RawModel>) -> Seq<u8> {
    MAGIC@ + be_bytes((4 + spec_frame_all(chunks).len()) as u32) + FORM_TYPE@ + spec_frame_all(
        chunks,
    )
}

/// Chunks that are framed one after the other are split into the same
/// chunks.
pub proof fn lemma_frames_round_trip(chunks: Seq<RawModel>)
    requires
        frames_fit(chunks),
    ensures
        spec_frames(spec_frame_all(chunks)) == Ok::<Seq<RawModel>, Fault>(chunks),
    decreases chunks.len(),
{
    if chunks.len() > 0 {
        let rest = chunks.subrange(1, chunks.len() as int);
        assert(chunks[0].id.len() == 4);
        lemma_frames_round_trip(rest);
        lemma_frame_split(chunks[0].id, chunks[0].data, spec_frame_all(rest));
        assert((RawModel { id: chunks[0].id, data: chunks[0].data }) == chunks[0]);
        assert(seq![chunks[0]] + rest =~= chunks);
    } else {
        assert(chunks =~= Seq::<RawModel>::empty());
    }
}

/// A file that is made of an envelope and framed chunks is read as those
/// chunks.
pub proof fn lemma_file_round_trip(chunks: Seq<RawModel>)
    requires
        frames_fit(chunks),
        4 + spec_frame_all(chunks).len() <= 0xffff_ffff,
    ensures
        spec_raw_file(spec_file(chunks)) == Ok::<Seq<RawModel>, Fault>(chunks),
{
    let body = spec_frame_all(chunks);
    let bytes = spec_file(chunks);
    lemma_frames_round_trip(chunks);
    lemma_word_at_appended(MAGIC@, (4 + body.len()) as u32, FORM_TYPE@ + body);
    assert(MAGIC@ + be_bytes((4 + body.len()) as u32) + (FORM_TYPE@ + body) =~= bytes);
    assert(bytes.subrange(0, 4) =~= MAGIC@);
    assert(bytes.subrange(8, 12) =~= FORM_TYPE@);
    assert(bytes.subrange(12, bytes.len() as int) =~= body);
}

/// Whether each of the raw chunks decodes to the chunk at its place.
pub open spec fn each_decoded(chunks: Seq<ChunkModel>, raw: Seq<RawModel>) -> bool {
    &&& raw.len() == chunks.len()
    &&& forall|i: int|
        0 <= i < raw.len() ==> decoded(
            Ok(chunks[i]),
            #[trigger] spec_decode(raw[i].id, raw[i].data),
        )
}

/// Raw chunks that each decode to a chunk decode, one after the other, to
/// those chunks in their order, and so does the file that frames them
/// behind an envelope.
pub proof fn lemma_file_of_chunks(chunks: Seq<ChunkModel>, raw: Seq<RawModel>)
    requires
        each_decoded(chunks, raw),
    ensures
        all_decoded(Ok(chunks), spec_decode_all(raw)),
        frames_fit(raw) && 4 + spec_frame_all(raw).len() <= 0xffff_ffff ==> all_decoded(
            Ok(chunks),
            spec_standard_file(spec_file(raw)),
        ),
    decreases chunks.len(),
{
    if chunks.len() > 0 {
        let rest = chunks.subrange(1, chunks.len() as int);
        let raw_rest = raw.subrange(1, raw.len() as int);
        assert(each_decoded(rest, raw_rest)) by {
            assert forall|i: int| 0 <= i < raw_rest.len() implies decoded(
                Ok(rest[i]),
                #[trigger] spec_decode(raw_rest[i].id, raw_rest[i].data),
            ) by {
                assert(rest[i] == chunks[i + 1]);
                assert(raw_rest[i] == raw[i + 1]);
                assert(decoded(Ok(chunks[i + 1]), spec_decode(raw[i + 1].id, raw[i + 1].data)));
            }
        }
        lemma_file_of_chunks(rest, raw_rest);
        assert(decoded(Ok(chunks[0]), spec_decode(raw[0].id, raw[0].data)));
        let first = spec_decode(raw[0].id, raw[0].data)->Ok_0;
        let others = spec_decode_all(raw_rest)->Ok_0;
        let sources = seq![first] + others;
        assert forall|i: int| 0 <= i < sources.len() implies reads(
            #[trigger] sources[i],
            chunks[i],
        ) by {
            if i > 0 {
                assert(sources[i] == others[i - 1]);
                assert(chunks[i] == rest[i - 1]);
            }
        }
    }
    if frames_fit(raw) && 4 + spec_frame_all(raw).len() <= 0xffff_ffff {
        lemma_file_round_trip(raw);
    }
}

/// Whether the raw chunks are the chunks `chunks`, written: each stands
/// under the id of its chunk and holds a payload that writing the chunk
/// gives. A raw chunk among `chunks` stands under an id that is none of the
/// known ones.
pub open spec fn all_encoded(chunks: Seq<ChunkModel>, raw: Seq<RawModel>) -> bool {
    &&& raw.len() == chunks.len()
    &&& forall|i: int|
        0 <= i < chunks.len() ==> {
            &&& !has_terms(#[trigger] chunks[i])
            &&& raw[i].id == chunks[i].id()
            &&& encodes(chunks[i], Ok(raw[i].data))
            &&& chunks[i] matches ChunkModel::Unknown { id, .. } ==> spec_classify(id)
                == Kind::Unknown
        }
}

/// Chunks without terms that are written and framed into a file are read
/// again as the same chunks, in the same order.
pub proof fn lemma_chunks_round_trip(chunks: Seq<ChunkModel>, raw: Seq<RawModel>)
    requires
        all_encoded(chunks, raw),
    ensures
        all_decoded(Ok(chunks), spec_decode_all(raw)),
        frames_fit(raw) && 4 + spec_frame_all(raw).len() <= 0xffff_ffff ==> all_decoded(
            Ok(chunks),
            spec_standard_file(spec_file(raw)),
        ),
{
    assert forall|i: int| 0 <= i < raw.len() implies decoded(
        Ok(chunks[i]),
        #[trigger] spec_decode(raw[i].id, raw[i].data),
    ) by {
        assert(!has_terms(chunks[i]));
        lemma_round_trip(chunks[i], raw[i].data);
    }
    lemma_file_of_chunks(chunks, raw);
}

/// Frames a payload under the id `id`.
pub fn frame_chunk(id: &Id, payload: &[u8]) -> (r: Result<Vec<u8>, Error>)
    ensures
        outcome(r) == spec_encode_frame(id@, payload@),
{
    if payload.len() > 0xffff_ffff {
        return Err(Error::malformed(id));
    }
    let size: u32 = payload.len() as u32;
    let mut out: Vec<u8> = Vec::new();
    push_bytes(&mut out, id.as_slice());
    push_u32(&mut out, size);
    push_bytes(&mut out, payload);
    let ghost framed = out@;
    let padding: u32 = padding_size(size);
    let mut i: u32 = 0;
    while i < padding
        invariant
            i <= padding,
            out@ == framed + zeros(i as int),
        decreases padding - i,
    {
        out.push(0);
        i += 1;
    }
    Ok(out)
}

impl RawChunk {
    /// Writes this chunk as it stands in a file.
    pub fn encode(&self) -> (r: Result<Vec<u8>, Error>)
        ensures
            outcome(r) == spec_encode_frame(self@.id, self@.data),
    {
        frame_chunk(&self.id, self.data.as_slice())
    }
}

impl StandardChunk {
    /// Writes this chunk as it stands in a file: its payload, framed under
    /// its id. The codec must be able to take its terms, if it has any: any
    /// term that was decoded is such.
    pub fn encode(&self) -> (r: Result<Vec<u8>, Error>)
        requires
            terms_sound(self@),
        ensures
            exists|payload: Result<Seq<u8>, Fault>| #[trigger]
                encodes(self@, payload) && outcome(r) == (match payload {
                    Ok(payload) => spec_encode_frame(self@.id(), payload),
                    Err(e) => Err(e),
                }),
    {
        let id = self.id();
        match self.encode_data() {
            Err(e) => {
                Err(e)
            },
            Ok(payload) => {
                frame_chunk(&id, payload.as_slice())
            },
        }
    }
}

} // verus!

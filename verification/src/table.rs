//! The four tables of fixed-width records: imports, exports, local functions
//! and anonymous functions. Each is a count followed by that many records of
//! big-endian words, and nothing else.
use vstd::prelude::*;
use crate::bytes::{be_bytes, lemma_word_at_appended, push_u32, read_u32, word_at};
use crate::chunk::{
    decoded, same_id, ChunkSource, ExpTChunk, FunTChunk, Id, ImpTChunk, LocTChunk, EXPT, FUNT,
    IMPT, LOCT,
};
use crate::error::{outcome, Error, Fault};
use crate::parts::{Export, Function, Import, Local};

verus! {

/// Whether `payload` is a count followed by exactly that many records of
/// `fields` words each.
pub open spec fn table_ok(payload: Seq<u8>, fields: int) -> bool {
    payload.len() >= 4 && payload.len() == 4 + word_at(payload, 0) * (4 * fields)
}

/// The word number `field` of the record number `record`, both counted from
/// zero, in a table whose records have `fields` words.
pub open spec fn field_at(payload: Seq<u8>, fields: int, record: int, field: int) -> u32 {
    word_at(payload, 4 + record * (4 * fields) + 4 * field)
}

/// The import record number `i` of a payload.
pub open spec fn spec_import(payload: Seq<u8>, i: int) -> Import {
    Import {
        module: field_at(payload, 3, i, 0),
        function: field_at(payload, 3, i, 1),
        arity: field_at(payload, 3, i, 2),
    }
}

/// The export record number `i` of a payload.
pub open spec fn spec_export(payload: Seq<u8>, i: int) -> Export {
    Export {
        function: field_at(payload, 3, i, 0),
        arity: field_at(payload, 3, i, 1),
        label: field_at(payload, 3, i, 2),
    }
}

/// The local record number `i` of a payload.
pub open spec fn spec_local(payload: Seq<u8>, i: int) -> Local {
    Local {
        function: field_at(payload, 3, i, 0),
        arity: field_at(payload, 3, i, 1),
        label: field_at(payload, 3, i, 2),
    }
}

/// The function record number `i` of a payload.
pub open spec fn spec_function(payload: Seq<u8>, i: int) -> Function {
    Function {
        function: field_at(payload, 6, i, 0),
        arity: field_at(payload, 6, i, 1),
        label: field_at(payload, 6, i, 2),
        index: field_at(payload, 6, i, 3),
        num_free: field_at(payload, 6, i, 4),
        old_uniq: field_at(payload, 6, i, 5),
    }
}

/// What a chunk decodes to when an import table is asked for.
pub open spec fn spec_impt_chunk(id: Seq<u8>, payload: Seq<u8>) -> Result<ChunkSource, Fault> {
    if id != IMPT@ {
        Err(Fault::UnexpectedChunk { found: Some(id), expected: IMPT@ })
    } else if !table_ok(payload, 3) {
        Err(Fault::malformed(id))
    } else {
        Ok(
            ChunkSource::ImpT {
                imports: Seq::new(word_at(payload, 0) as nat, |i: int| spec_import(payload, i)),
            },
        )
    }
}

/// What a chunk decodes to when an export table is asked for.
pub open spec fn spec_expt_chunk(id: Seq<u8>, payload: Seq<u8>) -> Result<ChunkSource, Fault> {
    if id != EXPT@ {
        Err(Fault::UnexpectedChunk { found: Some(id), expected: EXPT@ })
    } else if !table_ok(payload, 3) {
        Err(Fault::malformed(id))
    } else {
        Ok(
            ChunkSource::ExpT {
                exports: Seq::new(word_at(payload, 0) as nat, |i: int| spec_export(payload, i)),
            },
        )
    }
}

/// What a chunk decodes to when a table of local functions is asked for.
pub open spec fn spec_loct_chunk(id: Seq<u8>, payload: Seq<u8>) -> Result<ChunkSource, Fault> {
    if id != LOCT@ {
        Err(Fault::UnexpectedChunk { found: Some(id), expected: LOCT@ })
    } else if !table_ok(payload, 3) {
        Err(Fault::malformed(id))
    } else {
        Ok(
            ChunkSource::LocT {
                locals: Seq::new(word_at(payload, 0) as nat, |i: int| spec_local(payload, i)),
            },
        )
    }
}

/// What a chunk decodes to when a table of anonymous functions is asked for.
pub open spec fn spec_funt_chunk(id: Seq<u8>, payload: Seq<u8>) -> Result<ChunkSource, Fault> {
    if id != FUNT@ {
        Err(Fault::UnexpectedChunk { found: Some(id), expected: FUNT@ })
    } else if !table_ok(payload, 6) {
        Err(Fault::malformed(id))
    } else {
        Ok(
            ChunkSource::FunT {
                functions: Seq::new(
                    word_at(payload, 0) as nat,
                    |i: int| spec_function(payload, i),
                ),
            },
        )
    }
}

/// A payload is the payload of a table exactly when it holds a count and its
/// length is four plus the count times the width of a record: twelve bytes
/// for an import, an export and a local function, twenty-four for an
/// anonymous function. With any other length it is malformed; with that
/// length it decodes to as many records as the count says, none dropped and
/// none made up.
pub proof fn lemma_table_length(payload: Seq<u8>)
    ensures
        payload.len() < 4 || payload.len() != 4 + word_at(payload, 0) * 12 ==> {
            &&& spec_impt_chunk(IMPT@, payload) == Err::<ChunkSource, Fault>(Fault::malformed(IMPT@))
            &&& spec_expt_chunk(EXPT@, payload) == Err::<ChunkSource, Fault>(Fault::malformed(EXPT@))
            &&& spec_loct_chunk(LOCT@, payload) == Err::<ChunkSource, Fault>(Fault::malformed(LOCT@))
        },
        payload.len() < 4 || payload.len() != 4 + word_at(payload, 0) * 24 ==> spec_funt_chunk(
            FUNT@,
            payload,
        ) == Err::<ChunkSource, Fault>(Fault::malformed(FUNT@)),
        payload.len() >= 4 && payload.len() == 4 + word_at(payload, 0) * 12 ==> {
            &&& spec_impt_chunk(IMPT@, payload) matches Ok(ChunkSource::ImpT { imports })
                && imports.len() == word_at(payload, 0)
            &&& spec_expt_chunk(EXPT@, payload) matches Ok(ChunkSource::ExpT { exports })
                && exports.len() == word_at(payload, 0)
            &&& spec_loct_chunk(LOCT@, payload) matches Ok(ChunkSource::LocT { locals })
                && locals.len() == word_at(payload, 0)
        },
        payload.len() >= 4 && payload.len() == 4 + word_at(payload, 0) * 24 ==> (spec_funt_chunk(
            FUNT@,
            payload,
        ) matches Ok(ChunkSource::FunT { functions }) && functions.len() == word_at(payload, 0)),
{
}

/// The count of a table whose records have `fields` words, where the payload
/// has the length that this count asks for.
pub fn table_count(payload: &[u8], fields: u8) -> (r: Option<u32>)
    ensures
        r is Some <==> table_ok(payload@, fields as int),
        r is Some ==> r->Some_0 == word_at(payload@, 0),
{
    if payload.len() < 4 {
        return None;
    }
    let count: u32 = read_u32(payload, 0);
    let width: u64 = 4 * (fields as u64);
    assert(count * width <= 0xFFFF_FFFF * 1020) by (nonlinear_arith)
        requires
            0 <= count <= 0xFFFF_FFFF,
            0 <= width <= 1020,
    ;
    if payload.len() as u64 == 4 + (count as u64) * width {
        Some(count)
    } else {
        None
    }
}

impl ImpTChunk {
    /// Decodes the payload of an import table.
    pub fn decode_data(id: &Id, payload: &[u8]) -> (r: Result<ImpTChunk, Error>)
        ensures
            decoded(outcome(r), spec_impt_chunk(id@, payload@)),
    {
        if !same_id(id, &IMPT) {
            return Err(Error::UnexpectedChunk { found: Some(*id), expected: IMPT });
        }
        let count: usize = match table_count(payload, 3) {
            Some(count) => count as usize,
            None => {
                return Err(Error::malformed(id));
            },
        };
        let mut imports: Vec<Import> = Vec::new();
        let len: usize = payload.len();
        let mut i: usize = 0;
        while i < count
            invariant
                i <= count,
                len == payload@.len(),
                len == 4 + count * 12,
                imports@ == Seq::new(i as nat, |j: int| spec_import(payload@, j)),
            decreases count - i,
        {
            let at: usize = 4 + i * 12;
            let module: u32 = read_u32(payload, at);
            let function: u32 = read_u32(payload, at + 4);
            let arity: u32 = read_u32(payload, at + 8);
            imports.push(Import { module, function, arity });
            i += 1;
        }
        Ok(ImpTChunk { imports })
    }
}

impl ExpTChunk {
    /// Decodes the payload of an export table.
    pub fn decode_data(id: &Id, payload: &[u8]) -> (r: Result<ExpTChunk, Error>)
        ensures
            decoded(outcome(r), spec_expt_chunk(id@, payload@)),
    {
        if !same_id(id, &EXPT) {
            return Err(Error::UnexpectedChunk { found: Some(*id), expected: EXPT });
        }
        let count: usize = match table_count(payload, 3) {
            Some(count) => count as usize,
            None => {
                return Err(Error::malformed(id));
            },
        };
        let mut exports: Vec<Export> = Vec::new();
        let len: usize = payload.len();
        let mut i: usize = 0;
        while i < count
            invariant
                i <= count,
                len == payload@.len(),
                len == 4 + count * 12,
                exports@ == Seq::new(i as nat, |j: int| spec_export(payload@, j)),
            decreases count - i,
        {
            let at: usize = 4 + i * 12;
            let function: u32 = read_u32(payload, at);
            let arity: u32 = read_u32(payload, at + 4);
            let label: u32 = read_u32(payload, at + 8);
            exports.push(Export { function, arity, label });
            i += 1;
        }
        Ok(ExpTChunk { exports })
    }
}

impl LocTChunk {
    /// Decodes the payload of a table of local functions.
    pub fn decode_data(id: &Id, payload: &[u8]) -> (r: Result<LocTChunk, Error>)
        ensures
            decoded(outcome(r), spec_loct_chunk(id@, payload@)),
    {
        if !same_id(id, &LOCT) {
            return Err(Error::UnexpectedChunk { found: Some(*id), expected: LOCT });
        }
        let count: usize = match table_count(payload, 3) {
            Some(count) => count as usize,
            None => {
                return Err(Error::malformed(id));
            },
        };
        let mut locals: Vec<Local> = Vec::new();
        let len: usize = payload.len();
        let mut i: usize = 0;
        while i < count
            invariant
                i <= count,
                len == payload@.len(),
                len == 4 + count * 12,
                locals@ == Seq::new(i as nat, |j: int| spec_local(payload@, j)),
            decreases count - i,
        {
            let at: usize = 4 + i * 12;
            let function: u32 = read_u32(payload, at);
            let arity: u32 = read_u32(payload, at + 4);
            let label: u32 = read_u32(payload, at + 8);
            locals.push(Local { function, arity, label });
            i += 1;
        }
        Ok(LocTChunk { locals })
    }
}

impl FunTChunk {
    /// Decodes the payload of a table of anonymous functions.
    pub fn decode_data(id: &Id, payload: &[u8]) -> (r: Result<FunTChunk, Error>)
        ensures
            decoded(outcome(r), spec_funt_chunk(id@, payload@)),
    {
        if !same_id(id, &FUNT) {
            return Err(Error::UnexpectedChunk { found: Some(*id), expected: FUNT });
        }
        let count: usize = match table_count(payload, 6) {
            Some(count) => count as usize,
            None => {
                return Err(Error::malformed(id));
            },
        };
        let mut functions: Vec<Function> = Vec::new();
        let len: usize = payload.len();
        let mut i: usize = 0;
        while i < count
            invariant
                i <= count,
                len == payload@.len(),
                len == 4 + count * 24,
                functions@ == Seq::new(i as nat, |j: int| spec_function(payload@, j)),
            decreases count - i,
        {
            let at: usize = 4 + i * 24;
            let function: u32 = read_u32(payload, at);
            let arity: u32 = read_u32(payload, at + 4);
            let label: u32 = read_u32(payload, at + 8);
            let index: u32 = read_u32(payload, at + 12);
            let num_free: u32 = read_u32(payload, at + 16);
            let old_uniq: u32 = read_u32(payload, at + 20);
            functions.push(Function { function, arity, label, index, num_free, old_uniq });
            i += 1;
        }
        Ok(FunTChunk { functions })
    }
}

/// The twelve bytes of an import record.
pub open spec fn import_bytes(r: Import) -> Seq<u8> {
    be_bytes(r.module) + be_bytes(r.function) + be_bytes(r.arity)
}

/// The twelve bytes of an export record.
pub open spec fn export_bytes(r: Export) -> Seq<u8> {
    be_bytes(r.function) + be_bytes(r.arity) + be_bytes(r.label)
}

/// The twelve bytes of a local record.
pub open spec fn local_bytes(r: Local) -> Seq<u8> {
    be_bytes(r.function) + be_bytes(r.arity) + be_bytes(r.label)
}

/// The twenty-four bytes of a function record.
pub open spec fn function_bytes(r: Function) -> Seq<u8> {
    be_bytes(r.function) + be_bytes(r.arity) + be_bytes(r.label) + be_bytes(r.index) + be_bytes(
        r.num_free,
    ) + be_bytes(r.old_uniq)
}

/// The bytes of the records, one record after the other.
pub open spec fn spec_records<T>(records: Seq<T>, bytes_of: spec_fn(T) -> Seq<u8>) -> Seq<u8>
    decreases records.len(),
{
    if records.len() == 0 {
        Seq::empty()
    } else {
        spec_records(records.drop_last(), bytes_of) + bytes_of(records.last())
    }
}

/// The bytes of import records.
pub open spec fn spec_import_records(records: Seq<Import>) -> Seq<u8> {
    spec_records(records, |r: Import| import_bytes(r))
}

/// The bytes of export records.
pub open spec fn spec_export_records(records: Seq<Export>) -> Seq<u8> {
    spec_records(records, |r: Export| export_bytes(r))
}

/// The bytes of local records.
pub open spec fn spec_local_records(records: Seq<Local>) -> Seq<u8> {
    spec_records(records, |r: Local| local_bytes(r))
}

/// The bytes of function records.
pub open spec fn spec_function_records(records: Seq<Function>) -> Seq<u8> {
    spec_records(records, |r: Function| function_bytes(r))
}

/// The payload of a table: the count, then the bytes of the records. A
/// table of more records than a count word can say does not have the shape
/// of its kind.
pub open spec fn spec_encode_table(id: Seq<u8>, count: nat, records: Seq<u8>) -> Result<
    Seq<u8>,
    Fault,
> {
    if count > 0xffff_ffff {
        Err(Fault::malformed(id))
    } else {
        Ok(be_bytes(count as u32) + records)
    }
}

/// Where every record takes `width` bytes, the record number `i` stands at
/// `width` times `i`, and the records take `width` bytes each and no more.
pub proof fn lemma_record_at<T>(
    records: Seq<T>,
    bytes_of: spec_fn(T) -> Seq<u8>,
    width: nat,
    i: int,
)
    requires
        forall|r: T| (#[trigger] bytes_of(r)).len() == width,
        0 <= i < records.len(),
    ensures
        spec_records(records, bytes_of).len() == width * records.len(),
        spec_records(records, bytes_of).subrange(width * i, width * i + width) == bytes_of(
            records[i],
        ),
    decreases records.len(),
{
    let n = records.len() as int;
    lemma_records_len(records.drop_last(), bytes_of, width);
    assert(width * n == width * (n - 1) + width) by (nonlinear_arith);
    if i < n - 1 {
        lemma_record_at(records.drop_last(), bytes_of, width, i);
        assert(width * i + width <= width * (n - 1)) by (nonlinear_arith)
            requires
                0 <= i < n - 1,
        ;
    }
}

/// Where every record takes `width` bytes, the records take `width` bytes
/// each and no more.
pub proof fn lemma_records_len<T>(records: Seq<T>, bytes_of: spec_fn(T) -> Seq<u8>, width: nat)
    requires
        forall|r: T| (#[trigger] bytes_of(r)).len() == width,
    ensures
        spec_records(records, bytes_of).len() == width * records.len(),
    decreases records.len(),
{
    if records.len() > 0 {
        let n = records.len() as int;
        lemma_records_len(records.drop_last(), bytes_of, width);
        assert(width * n == width * (n - 1) + width) by (nonlinear_arith);
    }
}

/// A word that stands in a record is read back from the table at the place
/// of the record plus the place of the word in it.
proof fn lemma_word_in_record(payload: Seq<u8>, at: int, head: Seq<u8>, v: u32, tail: Seq<u8>)
    requires
        0 <= at,
        at + head.len() + 4 + tail.len() <= payload.len(),
        payload.subrange(at, at + head.len() + 4 + tail.len()) == head + be_bytes(v) + tail,
    ensures
        word_at(payload, at + head.len()) == v,
{
    lemma_word_at_appended(head, v, tail);
}

/// The words of a record of three are read back from a table at the place of
/// the record.
proof fn lemma_three_words(payload: Seq<u8>, i: int, a: u32, b: u32, c: u32)
    requires
        0 <= i,
        4 + 12 * i + 12 <= payload.len(),
        payload.subrange(4 + 12 * i, 4 + 12 * i + 12) == be_bytes(a) + be_bytes(b) + be_bytes(c),
    ensures
        field_at(payload, 3, i, 0) == a,
        field_at(payload, 3, i, 1) == b,
        field_at(payload, 3, i, 2) == c,
{
    let at = 4 + 12 * i;
    let record = payload.subrange(at, at + 12);
    let none = Seq::<u8>::empty();
    assert(none + be_bytes(a) + (be_bytes(b) + be_bytes(c)) =~= record);
    lemma_word_in_record(payload, at, none, a, be_bytes(b) + be_bytes(c));
    lemma_word_in_record(payload, at, be_bytes(a), b, be_bytes(c));
    lemma_word_in_record(payload, at, be_bytes(a) + be_bytes(b), c, none);
}

/// The words of a record of six are read back from a table at the place of
/// the record.
proof fn lemma_six_words(payload: Seq<u8>, i: int, f: Function)
    requires
        0 <= i,
        4 + 24 * i + 24 <= payload.len(),
        payload.subrange(4 + 24 * i, 4 + 24 * i + 24) == function_bytes(f),
    ensures
        spec_function(payload, i) == f,
{
    let at = 4 + 24 * i;
    let record = payload.subrange(at, at + 24);
    let none = Seq::<u8>::empty();
    let w0 = be_bytes(f.function);
    let w1 = be_bytes(f.arity);
    let w2 = be_bytes(f.label);
    let w3 = be_bytes(f.index);
    let w4 = be_bytes(f.num_free);
    let w5 = be_bytes(f.old_uniq);
    assert(field_at(payload, 6, i, 0) == f.function) by {
        assert(none + w0 + (w1 + w2 + w3 + w4 + w5) =~= record);
        lemma_word_in_record(payload, at, none, f.function, w1 + w2 + w3 + w4 + w5);
    }
    assert(field_at(payload, 6, i, 1) == f.arity) by {
        assert(w0 + w1 + (w2 + w3 + w4 + w5) =~= record);
        lemma_word_in_record(payload, at, w0, f.arity, w2 + w3 + w4 + w5);
    }
    assert(field_at(payload, 6, i, 2) == f.label) by {
        assert(w0 + w1 + w2 + (w3 + w4 + w5) =~= record);
        lemma_word_in_record(payload, at, w0 + w1, f.label, w3 + w4 + w5);
    }
    assert(field_at(payload, 6, i, 3) == f.index) by {
        assert(w0 + w1 + w2 + w3 + (w4 + w5) =~= record);
        lemma_word_in_record(payload, at, w0 + w1 + w2, f.index, w4 + w5);
    }
    assert(field_at(payload, 6, i, 4) == f.num_free) by {
        lemma_word_in_record(payload, at, w0 + w1 + w2 + w3, f.num_free, w5);
    }
    assert(field_at(payload, 6, i, 5) == f.old_uniq) by {
        lemma_word_in_record(payload, at, w0 + w1 + w2 + w3 + w4, f.old_uniq, none);
    }
}

/// An import table that is written and read again is the same table.
pub proof fn lemma_imports_round_trip(imports: Seq<Import>)
    ensures
        spec_encode_table(IMPT@, imports.len(), spec_import_records(imports)) matches Ok(payload)
            ==> spec_impt_chunk(IMPT@, payload) == Ok::<ChunkSource, Fault>(
            ChunkSource::ImpT { imports },
        ),
{
    let bytes_of = |r: Import| import_bytes(r);
    let records = spec_records(imports, bytes_of);
    if let Ok(payload) = spec_encode_table(IMPT@, imports.len(), records) {
        lemma_records_len(imports, bytes_of, 12);
        lemma_word_at_appended(Seq::<u8>::empty(), imports.len() as u32, records);
        let decoded = Seq::new(imports.len(), |i: int| spec_import(payload, i));
        assert forall|i: int| 0 <= i < imports.len() implies decoded[i] == imports[i] by {
            lemma_record_at(imports, bytes_of, 12, i);
            assert(payload.subrange(4 + 12 * i, 4 + 12 * i + 12) =~= records.subrange(
                12 * i,
                12 * i + 12,
            ));
            lemma_three_words(payload, i, imports[i].module, imports[i].function, imports[i].arity);
        }
        assert(decoded =~= imports);
    }
}

/// An export table that is written and read again is the same table.
pub proof fn lemma_exports_round_trip(exports: Seq<Export>)
    ensures
        spec_encode_table(EXPT@, exports.len(), spec_export_records(exports)) matches Ok(payload)
            ==> spec_expt_chunk(EXPT@, payload) == Ok::<ChunkSource, Fault>(
            ChunkSource::ExpT { exports },
        ),
{
    let bytes_of = |r: Export| export_bytes(r);
    let records = spec_records(exports, bytes_of);
    if let Ok(payload) = spec_encode_table(EXPT@, exports.len(), records) {
        lemma_records_len(exports, bytes_of, 12);
        lemma_word_at_appended(Seq::<u8>::empty(), exports.len() as u32, records);
        let decoded = Seq::new(exports.len(), |i: int| spec_export(payload, i));
        assert forall|i: int| 0 <= i < exports.len() implies decoded[i] == exports[i] by {
            lemma_record_at(exports, bytes_of, 12, i);
            assert(payload.subrange(4 + 12 * i, 4 + 12 * i + 12) =~= records.subrange(
                12 * i,
                12 * i + 12,
            ));
            lemma_three_words(payload, i, exports[i].function, exports[i].arity, exports[i].label);
        }
        assert(decoded =~= exports);
    }
}

/// A table of local functions that is written and read again is the same
/// table.
pub proof fn lemma_locals_round_trip(locals: Seq<Local>)
    ensures
        spec_encode_table(LOCT@, locals.len(), spec_local_records(locals)) matches Ok(payload)
            ==> spec_loct_chunk(LOCT@, payload) == Ok::<ChunkSource, Fault>(
            ChunkSource::LocT { locals },
        ),
{
    let bytes_of = |r: Local| local_bytes(r);
    let records = spec_records(locals, bytes_of);
    if let Ok(payload) = spec_encode_table(LOCT@, locals.len(), records) {
        lemma_records_len(locals, bytes_of, 12);
        lemma_word_at_appended(Seq::<u8>::empty(), locals.len() as u32, records);
        let decoded = Seq::new(locals.len(), |i: int| spec_local(payload, i));
        assert forall|i: int| 0 <= i < locals.len() implies decoded[i] == locals[i] by {
            lemma_record_at(locals, bytes_of, 12, i);
            assert(payload.subrange(4 + 12 * i, 4 + 12 * i + 12) =~= records.subrange(
                12 * i,
                12 * i + 12,
            ));
            lemma_three_words(payload, i, locals[i].function, locals[i].arity, locals[i].label);
        }
        assert(decoded =~= locals);
    }
}

/// A table of anonymous functions that is written and read again is the
/// same table.
pub proof fn lemma_functions_round_trip(functions: Seq<Function>)
    ensures
        spec_encode_table(FUNT@, functions.len(), spec_function_records(functions)) matches Ok(
            payload,
        ) ==> spec_funt_chunk(FUNT@, payload) == Ok::<ChunkSource, Fault>(
            ChunkSource::FunT { functions },
        ),
{
    let bytes_of = |r: Function| function_bytes(r);
    let records = spec_records(functions, bytes_of);
    if let Ok(payload) = spec_encode_table(FUNT@, functions.len(), records) {
        lemma_records_len(functions, bytes_of, 24);
        lemma_word_at_appended(Seq::<u8>::empty(), functions.len() as u32, records);
        let decoded = Seq::new(functions.len(), |i: int| spec_function(payload, i));
        assert forall|i: int| 0 <= i < functions.len() implies decoded[i] == functions[i] by {
            lemma_record_at(functions, bytes_of, 24, i);
            assert(payload.subrange(4 + 24 * i, 4 + 24 * i + 24) =~= records.subrange(
                24 * i,
                24 * i + 24,
            ));
            lemma_six_words(payload, i, functions[i]);
        }
        assert(decoded =~= functions);
    }
}

impl ImpTChunk {
    /// Writes the payload of this import table.
    pub fn encode_data(&self) -> (r: Result<Vec<u8>, Error>)
        ensures
            outcome(r) == spec_encode_table(
                IMPT@,
                self.imports@.len(),
                spec_import_records(self.imports@),
            ),
    {
        if self.imports.len() > 0xffff_ffff {
            return Err(Error::malformed(&IMPT));
        }
        let mut out: Vec<u8> = Vec::new();
        push_u32(&mut out, self.imports.len() as u32);
        let ghost head = out@;
        let mut i: usize = 0;
        while i < self.imports.len()
            invariant
                i <= self.imports@.len(),
                out@ == head + spec_import_records(self.imports@.subrange(0, i as int)),
            decreases self.imports@.len() - i,
        {
            push_u32(&mut out, self.imports[i].module);
            push_u32(&mut out, self.imports[i].function);
            push_u32(&mut out, self.imports[i].arity);
            proof {
                let next = self.imports@.subrange(0, i + 1);
                assert(next.drop_last() =~= self.imports@.subrange(0, i as int));
            }
            i += 1;
        }
        assert(self.imports@.subrange(0, i as int) =~= self.imports@);
        Ok(out)
    }
}

impl ExpTChunk {
    /// Writes the payload of this export table.
    pub fn encode_data(&self) -> (r: Result<Vec<u8>, Error>)
        ensures
            outcome(r) == spec_encode_table(
                EXPT@,
                self.exports@.len(),
                spec_export_records(self.exports@),
            ),
    {
        if self.exports.len() > 0xffff_ffff {
            return Err(Error::malformed(&EXPT));
        }
        let mut out: Vec<u8> = Vec::new();
        push_u32(&mut out, self.exports.len() as u32);
        let ghost head = out@;
        let mut i: usize = 0;
        while i < self.exports.len()
            invariant
                i <= self.exports@.len(),
                out@ == head + spec_export_records(self.exports@.subrange(0, i as int)),
            decreases self.exports@.len() - i,
        {
            push_u32(&mut out, self.exports[i].function);
            push_u32(&mut out, self.exports[i].arity);
            push_u32(&mut out, self.exports[i].label);
            proof {
                let next = self.exports@.subrange(0, i + 1);
                assert(next.drop_last() =~= self.exports@.subrange(0, i as int));
            }
            i += 1;
        }
        assert(self.exports@.subrange(0, i as int) =~= self.exports@);
        Ok(out)
    }
}

impl LocTChunk {
    /// Writes the payload of this table of local functions.
    pub fn encode_data(&self) -> (r: Result<Vec<u8>, Error>)
        ensures
            outcome(r) == spec_encode_table(
                LOCT@,
                self.locals@.len(),
                spec_local_records(self.locals@),
            ),
    {
        if self.locals.len() > 0xffff_ffff {
            return Err(Error::malformed(&LOCT));
        }
        let mut out: Vec<u8> = Vec::new();
        push_u32(&mut out, self.locals.len() as u32);
        let ghost head = out@;
        let mut i: usize = 0;
        while i < self.locals.len()
            invariant
                i <= self.locals@.len(),
                out@ == head + spec_local_records(self.locals@.subrange(0, i as int)),
            decreases self.locals@.len() - i,
        {
            push_u32(&mut out, self.locals[i].function);
            push_u32(&mut out, self.locals[i].arity);
            push_u32(&mut out, self.locals[i].label);
            proof {
                let next = self.locals@.subrange(0, i + 1);
                assert(next.drop_last() =~= self.locals@.subrange(0, i as int));
            }
            i += 1;
        }
        assert(self.locals@.subrange(0, i as int) =~= self.locals@);
        Ok(out)
    }
}

impl FunTChunk {
    /// Writes the payload of this table of anonymous functions.
    pub fn encode_data(&self) -> (r: Result<Vec<u8>, Error>)
        ensures
            outcome(r) == spec_encode_table(
                FUNT@,
                self.functions@.len(),
                spec_function_records(self.functions@),
            ),
    {
        if self.functions.len() > 0xffff_ffff {
            return Err(Error::malformed(&FUNT));
        }
        let mut out: Vec<u8> = Vec::new();
        push_u32(&mut out, self.functions.len() as u32);
        let ghost head = out@;
        let mut i: usize = 0;
        while i < self.functions.len()
            invariant
                i <= self.functions@.len(),
                out@ == head + spec_function_records(self.functions@.subrange(0, i as int)),
            decreases self.functions@.len() - i,
        {
            push_u32(&mut out, self.functions[i].function);
            push_u32(&mut out, self.functions[i].arity);
            push_u32(&mut out, self.functions[i].label);
            push_u32(&mut out, self.functions[i].index);
            push_u32(&mut out, self.functions[i].num_free);
            push_u32(&mut out, self.functions[i].old_uniq);
            proof {
                let next = self.functions@.subrange(0, i + 1);
                assert(next.drop_last() =~= self.functions@.subrange(0, i as int));
            }
            i += 1;
        }
        assert(self.functions@.subrange(0, i as int) =~= self.functions@);
        Ok(out)
    }
}

} // verus!

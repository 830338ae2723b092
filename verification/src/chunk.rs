//! The chunks of a BEAM file: their ids, their kinds and what each kind
//! holds.
use vstd::prelude::*;
use vstd::utf8::{decode_utf8, valid_utf8};
use crate::codec::term_reading;
use crate::error::{Error, Fault};
use crate::parts::{names_of, Atom, Export, Function, Import, Local};

verus! {

/// The id of a chunk: four bytes, ASCII by convention.
pub type Id = [u8; 4];

/// `Atom`: the atom table with single-byte (Latin-1) names.
pub const ATOM: Id = [65, 116, 111, 109];

/// `AtU8`: the atom table with UTF-8 names.
pub const ATU8: Id = [65, 116, 85, 56];

/// `Code`: the code section.
pub const CODE: Id = [67, 111, 100, 101];

/// `StrT`: the string table.
pub const STRT: Id = [83, 116, 114, 84];

/// `ImpT`: the import table.
pub const IMPT: Id = [73, 109, 112, 84];

/// `ExpT`: the export table.
pub const EXPT: Id = [69, 120, 112, 84];

/// `LitT`: the literal table.
pub const LITT: Id = [76, 105, 116, 84];

/// `LocT`: the table of local functions.
pub const LOCT: Id = [76, 111, 99, 84];

/// `FunT`: the table of anonymous functions.
pub const FUNT: Id = [70, 117, 110, 84];

/// `Attr`: the module's attributes.
pub const ATTR: Id = [65, 116, 116, 114];

/// `CInf`: the compilation information.
pub const CINF: Id = [67, 73, 110, 102];

/// `Abst`: the abstract code.
pub const ABST: Id = [65, 98, 115, 116];

/// `Dbgi`: the debug information.
pub const DBGI: Id = [68, 98, 103, 105];

/// `Docs`: the documentation.
pub const DOCS: Id = [68, 111, 99, 115];

/// What an id stands for: one of the thirteen kinds that have a decoder, or
/// none of them.
#[derive(Clone, Copy, Debug, PartialEq, Eq, Structural)]
pub enum Kind {
    Atom,
    Code,
    StrT,
    ImpT,
    ExpT,
    LitT,
    LocT,
    FunT,
    Attr,
    CInf,
    Abst,
    Dbgi,
    Docs,
    Unknown,
}

/// The kind that an id stands for. Both ids of the atom table give
/// `Kind::Atom`; an id that is none of the fourteen known ones gives
/// `Kind::Unknown`.
pub open spec fn spec_classify(id: Seq<u8>) -> Kind {
    if id == ATOM@ || id == ATU8@ {
        Kind::Atom
    } else if id == CODE@ {
        Kind::Code
    } else if id == STRT@ {
        Kind::StrT
    } else if id == IMPT@ {
        Kind::ImpT
    } else if id == EXPT@ {
        Kind::ExpT
    } else if id == LITT@ {
        Kind::LitT
    } else if id == LOCT@ {
        Kind::LocT
    } else if id == FUNT@ {
        Kind::FunT
    } else if id == ATTR@ {
        Kind::Attr
    } else if id == CINF@ {
        Kind::CInf
    } else if id == ABST@ {
        Kind::Abst
    } else if id == DBGI@ {
        Kind::Dbgi
    } else if id == DOCS@ {
        Kind::Docs
    } else {
        Kind::Unknown
    }
}

/// Whether two ids are the same four bytes.
pub fn same_id(a: &Id, b: &Id) -> (r: bool)
    ensures
        r == (a@ == b@),
{
    let r = a[0] == b[0] && a[1] == b[1] && a[2] == b[2] && a[3] == b[3];
    proof {
        if r {
            assert(a@ =~= b@);
        }
    }
    r
}

/// The id made of the four bytes at offset `at`.
pub fn read_id(bytes: &[u8], at: usize) -> (r: Id)
    requires
        at + 4 <= bytes@.len(),
    ensures
        r@ == bytes@.subrange(at as int, at + 4),
{
    let r = [bytes[at], bytes[at + 1], bytes[at + 2], bytes[at + 3]];
    r
}

/// The id as text, for a message or a listing. An id is ASCII by convention
/// only: one whose bytes are not UTF-8 is an invalid string.
pub fn id_name(id: &Id) -> (r: Result<String, Error>)
    ensures
        r is Ok <==> valid_utf8(id@),
        r is Ok ==> r->Ok_0@ == decode_utf8(id@),
        r is Err ==> r->Err_0@ == (Fault::InvalidString { chunk: None }),
{
    match core::str::from_utf8(id.as_slice()) {
        Ok(name) => Ok(name.to_owned()),
        Err(cause) => Err(Error::from(cause)),
    }
}

/// Finds the kind of an id by exact match against the known ids.
pub fn classify(id: &Id) -> (r: Kind)
    ensures
        r == spec_classify(id@),
{
    if same_id(id, &ATOM) || same_id(id, &ATU8) {
        Kind::Atom
    } else if same_id(id, &CODE) {
        Kind::Code
    } else if same_id(id, &STRT) {
        Kind::StrT
    } else if same_id(id, &IMPT) {
        Kind::ImpT
    } else if same_id(id, &EXPT) {
        Kind::ExpT
    } else if same_id(id, &LITT) {
        Kind::LitT
    } else if same_id(id, &LOCT) {
        Kind::LocT
    } else if same_id(id, &FUNT) {
        Kind::FunT
    } else if same_id(id, &ATTR) {
        Kind::Attr
    } else if same_id(id, &CINF) {
        Kind::CInf
    } else if same_id(id, &ABST) {
        Kind::Abst
    } else if same_id(id, &DBGI) {
        Kind::Dbgi
    } else if same_id(id, &DOCS) {
        Kind::Docs
    } else {
        Kind::Unknown
    }
}

/// A chunk as it stands in the file: its id and its payload, untouched.
#[derive(Debug, PartialEq, Eq)]
pub struct RawChunk {
    pub id: Id,
    pub data: Vec<u8>,
}

/// The atom table. `is_unicode` tells which of the two ids the chunk had,
/// and so how the bytes of its names were read.
#[derive(Debug, PartialEq, Eq)]
pub struct AtomChunk {
    pub is_unicode: bool,
    pub atoms: Vec<Atom>,
}

/// The code section: five header words, and the instruction stream as it
/// stands.
#[derive(Debug, PartialEq, Eq)]
pub struct CodeChunk {
    pub info_size: u32,
    pub version: u32,
    pub opcode_max: u32,
    pub label_count: u32,
    pub function_count: u32,
    pub bytecode: Vec<u8>,
}

/// The string table: one byte string.
#[derive(Debug, PartialEq, Eq)]
pub struct StrTChunk {
    pub strings: Vec<u8>,
}

/// The import table.
#[derive(Debug, PartialEq, Eq)]
pub struct ImpTChunk {
    pub imports: Vec<Import>,
}

/// The export table.
#[derive(Debug, PartialEq, Eq)]
pub struct ExpTChunk {
    pub exports: Vec<Export>,
}

/// The literal table.
#[derive(Debug, PartialEq, Eq)]
pub struct LitTChunk {
    pub literals: Vec<eetf::Term>,
}

/// The table of local functions.
#[derive(Debug, PartialEq, Eq)]
pub struct LocTChunk {
    pub locals: Vec<Local>,
}

/// The table of anonymous functions.
#[derive(Debug, PartialEq, Eq)]
pub struct FunTChunk {
    pub functions: Vec<Function>,
}

/// The module's attributes.
#[derive(Debug, PartialEq, Eq)]
pub struct AttrChunk {
    pub term: eetf::Term,
}

/// The compilation information.
#[derive(Debug, PartialEq, Eq)]
pub struct CInfChunk {
    pub term: eetf::Term,
}

/// The abstract code.
#[derive(Debug, PartialEq, Eq)]
pub struct AbstChunk {
    pub term: eetf::Term,
}

/// The debug information.
#[derive(Debug, PartialEq, Eq)]
pub struct DbgiChunk {
    pub term: eetf::Term,
}

/// The documentation.
#[derive(Debug, PartialEq, Eq)]
pub struct DocsChunk {
    pub term: eetf::Term,
}

/// A chunk of any kind: one of the thirteen known kinds, decoded, or a chunk
/// with another id, kept as it stands.
#[derive(Debug, PartialEq, Eq)]
pub enum StandardChunk {
    Atom(AtomChunk),
    Code(CodeChunk),
    StrT(StrTChunk),
    ImpT(ImpTChunk),
    ExpT(ExpTChunk),
    LitT(LitTChunk),
    LocT(LocTChunk),
    FunT(FunTChunk),
    Attr(AttrChunk),
    CInf(CInfChunk),
    Abst(AbstChunk),
    Dbgi(DbgiChunk),
    Docs(DocsChunk),
    Unknown(RawChunk),
}

/// What a raw chunk holds, as mathematics.
pub struct RawModel {
    pub id: Seq<u8>,
    pub data: Seq<u8>,
}

/// What a chunk holds, as mathematics: sequences in place of vectors, the
/// characters of each name in place of the atom, and `T` in place of each
/// term.
pub enum Model<T> {
    Atom { is_unicode: bool, names: Seq<Seq<char>> },
    Code {
        info_size: u32,
        version: u32,
        opcode_max: u32,
        label_count: u32,
        function_count: u32,
        bytecode: Seq<u8>,
    },
    StrT { strings: Seq<u8> },
    ImpT { imports: Seq<Import> },
    ExpT { exports: Seq<Export> },
    LitT { literals: Seq<T> },
    LocT { locals: Seq<Local> },
    FunT { functions: Seq<Function> },
    Attr { term: T },
    CInf { term: T },
    Abst { term: T },
    Dbgi { term: T },
    Docs { term: T },
    Unknown { id: Seq<u8>, data: Seq<u8> },
}

/// What a chunk holds, with its terms as the term codec gave them.
pub type ChunkModel = Model<eetf::Term>;

/// What the bytes of a chunk say it holds. In place of each term stand the
/// bytes of that term, not compressed: which term the codec reads from them
/// is the codec's to say, and it need not say the same twice.
pub type ChunkSource = Model<Seq<u8>>;

/// Whether each of the terms is one that the codec reads from the bytes at
/// its place.
pub open spec fn all_read(sources: Seq<Seq<u8>>, terms: Seq<eetf::Term>) -> bool {
    &&& terms.len() == sources.len()
    &&& forall|i: int| 0 <= i < sources.len() ==> term_reading(#[trigger] sources[i], terms[i])
}

/// Whether `chunk` is a chunk that is read from what the bytes say: the
/// same kind, the same fields, and each term one that the codec reads from
/// the bytes of that term.
pub open spec fn reads(source: ChunkSource, chunk: ChunkModel) -> bool {
    match (source, chunk) {
        (
            Model::Atom { is_unicode: a, names: n },
            Model::Atom { is_unicode: b, names: m },
        ) => a == b && n == m,
        (
            Model::Code {
                info_size: a0,
                version: a1,
                opcode_max: a2,
                label_count: a3,
                function_count: a4,
                bytecode: a5,
            },
            Model::Code {
                info_size: b0,
                version: b1,
                opcode_max: b2,
                label_count: b3,
                function_count: b4,
                bytecode: b5,
            },
        ) => a0 == b0 && a1 == b1 && a2 == b2 && a3 == b3 && a4 == b4 && a5 == b5,
        (Model::StrT { strings: a }, Model::StrT { strings: b }) => a == b,
        (Model::ImpT { imports: a }, Model::ImpT { imports: b }) => a == b,
        (Model::ExpT { exports: a }, Model::ExpT { exports: b }) => a == b,
        (Model::LitT { literals: a }, Model::LitT { literals: b }) => all_read(a, b),
        (Model::LocT { locals: a }, Model::LocT { locals: b }) => a == b,
        (Model::FunT { functions: a }, Model::FunT { functions: b }) => a == b,
        (Model::Attr { term: a }, Model::Attr { term: b }) => term_reading(a, b),
        (Model::CInf { term: a }, Model::CInf { term: b }) => term_reading(a, b),
        (Model::Abst { term: a }, Model::Abst { term: b }) => term_reading(a, b),
        (Model::Dbgi { term: a }, Model::Dbgi { term: b }) => term_reading(a, b),
        (Model::Docs { term: a }, Model::Docs { term: b }) => term_reading(a, b),
        (Model::Unknown { id: a, data: x }, Model::Unknown { id: b, data: y }) => a == b && x == y,
        _ => false,
    }
}

/// Whether `r` is what decoding gives where the bytes say `source`: the
/// failure that the bytes say, or a chunk that is read from what they say.
pub open spec fn decoded(r: Result<ChunkModel, Fault>, source: Result<ChunkSource, Fault>) -> bool {
    match source {
        Err(e) => r == Err::<ChunkModel, Fault>(e),
        Ok(source) => r matches Ok(chunk) && reads(source, chunk),
    }
}

impl View for RawChunk {
    type V = RawModel;

    open spec fn view(&self) -> RawModel {
        RawModel { id: self.id@, data: self.data@ }
    }
}

impl View for AtomChunk {
    type V = ChunkModel;

    open spec fn view(&self) -> ChunkModel {
        ChunkModel::Atom { is_unicode: self.is_unicode, names: names_of(self.atoms@) }
    }
}

impl View for CodeChunk {
    type V = ChunkModel;

    open spec fn view(&self) -> ChunkModel {
        ChunkModel::Code {
            info_size: self.info_size,
            version: self.version,
            opcode_max: self.opcode_max,
            label_count: self.label_count,
            function_count: self.function_count,
            bytecode: self.bytecode@,
        }
    }
}

impl View for StrTChunk {
    type V = ChunkModel;

    open spec fn view(&self) -> ChunkModel {
        ChunkModel::StrT { strings: self.strings@ }
    }
}

impl View for ImpTChunk {
    type V = ChunkModel;

    open spec fn view(&self) -> ChunkModel {
        ChunkModel::ImpT { imports: self.imports@ }
    }
}

impl View for ExpTChunk {
    type V = ChunkModel;

    open spec fn view(&self) -> ChunkModel {
        ChunkModel::ExpT { exports: self.exports@ }
    }
}

impl View for LitTChunk {
    type V = ChunkModel;

    open spec fn view(&self) -> ChunkModel {
        ChunkModel::LitT { literals: self.literals@ }
    }
}

impl View for LocTChunk {
    type V = ChunkModel;

    open spec fn view(&self) -> ChunkModel {
        ChunkModel::LocT { locals: self.locals@ }
    }
}

impl View for FunTChunk {
    type V = ChunkModel;

    open spec fn view(&self) -> ChunkModel {
        ChunkModel::FunT { functions: self.functions@ }
    }
}

impl View for AttrChunk {
    type V = ChunkModel;

    open spec fn view(&self) -> ChunkModel {
        ChunkModel::Attr { term: self.term }
    }
}

impl View for CInfChunk {
    type V = ChunkModel;

    open spec fn view(&self) -> ChunkModel {
        ChunkModel::CInf { term: self.term }
    }
}

impl View for AbstChunk {
    type V = ChunkModel;

    open spec fn view(&self) -> ChunkModel {
        ChunkModel::Abst { term: self.term }
    }
}

impl View for DbgiChunk {
    type V = ChunkModel;

    open spec fn view(&self) -> ChunkModel {
        ChunkModel::Dbgi { term: self.term }
    }
}

impl View for DocsChunk {
    type V = ChunkModel;

    open spec fn view(&self) -> ChunkModel {
        ChunkModel::Docs { term: self.term }
    }
}

impl View for StandardChunk {
    type V = ChunkModel;

    open spec fn view(&self) -> ChunkModel {
        match self {
            StandardChunk::Atom(c) => c@,
            StandardChunk::Code(c) => c@,
            StandardChunk::StrT(c) => c@,
            StandardChunk::ImpT(c) => c@,
            StandardChunk::ExpT(c) => c@,
            StandardChunk::LitT(c) => c@,
            StandardChunk::LocT(c) => c@,
            StandardChunk::FunT(c) => c@,
            StandardChunk::Attr(c) => c@,
            StandardChunk::CInf(c) => c@,
            StandardChunk::Abst(c) => c@,
            StandardChunk::Dbgi(c) => c@,
            StandardChunk::Docs(c) => c@,
            StandardChunk::Unknown(c) => ChunkModel::Unknown { id: c.id@, data: c.data@ },
        }
    }
}

impl<T> Model<T> {
    /// The id under which a chunk with these contents stands in a file.
    pub open spec fn id(self) -> Seq<u8> {
        match self {
            Model::Atom { is_unicode, names } => if is_unicode {
                ATU8@
            } else {
                ATOM@
            },
            Model::Code { .. } => CODE@,
            Model::StrT { .. } => STRT@,
            Model::ImpT { .. } => IMPT@,
            Model::ExpT { .. } => EXPT@,
            Model::LitT { .. } => LITT@,
            Model::LocT { .. } => LOCT@,
            Model::FunT { .. } => FUNT@,
            Model::Attr { .. } => ATTR@,
            Model::CInf { .. } => CINF@,
            Model::Abst { .. } => ABST@,
            Model::Dbgi { .. } => DBGI@,
            Model::Docs { .. } => DOCS@,
            Model::Unknown { id, data } => id,
        }
    }
}

impl StandardChunk {
    /// The id under which this chunk stands in a file.
    pub fn id(&self) -> (r: Id)
        ensures
            r@ == self@.id(),
    {
        match self {
            StandardChunk::Atom(c) => if c.is_unicode {
                ATU8
            } else {
                ATOM
            },
            StandardChunk::Code(_) => CODE,
            StandardChunk::StrT(_) => STRT,
            StandardChunk::ImpT(_) => IMPT,
            StandardChunk::ExpT(_) => EXPT,
            StandardChunk::LitT(_) => LITT,
            StandardChunk::LocT(_) => LOCT,
            StandardChunk::FunT(_) => FUNT,
            StandardChunk::Attr(_) => ATTR,
            StandardChunk::CInf(_) => CINF,
            StandardChunk::Abst(_) => ABST,
            StandardChunk::Dbgi(_) => DBGI,
            StandardChunk::Docs(_) => DOCS,
            StandardChunk::Unknown(c) => c.id,
        }
    }
}

impl StandardChunk {
    /// This chunk as the atom table, where it is that.
    pub fn as_atom(&self) -> (r: Option<&AtomChunk>)
        ensures
            r == (match self {
                StandardChunk::Atom(c) => Some(c),
                _ => None,
            }),
    {
        match self {
            StandardChunk::Atom(c) => Some(c),
            _ => None,
        }
    }

    /// This chunk as the code section, where it is that.
    pub fn as_code(&self) -> (r: Option<&CodeChunk>)
        ensures
            r == (match self {
                StandardChunk::Code(c) => Some(c),
                _ => None,
            }),
    {
        match self {
            StandardChunk::Code(c) => Some(c),
            _ => None,
        }
    }

    /// This chunk as the string table, where it is that.
    pub fn as_strt(&self) -> (r: Option<&StrTChunk>)
        ensures
            r == (match self {
                StandardChunk::StrT(c) => Some(c),
                _ => None,
            }),
    {
        match self {
            StandardChunk::StrT(c) => Some(c),
            _ => None,
        }
    }

    /// This chunk as the import table, where it is that.
    pub fn as_impt(&self) -> (r: Option<&ImpTChunk>)
        ensures
            r == (match self {
                StandardChunk::ImpT(c) => Some(c),
                _ => None,
            }),
    {
        match self {
            StandardChunk::ImpT(c) => Some(c),
            _ => None,
        }
    }

    /// This chunk as the export table, where it is that.
    pub fn as_expt(&self) -> (r: Option<&ExpTChunk>)
        ensures
            r == (match self {
                StandardChunk::ExpT(c) => Some(c),
                _ => None,
            }),
    {
        match self {
            StandardChunk::ExpT(c) => Some(c),
            _ => None,
        }
    }

    /// This chunk as the literal table, where it is that.
    pub fn as_litt(&self) -> (r: Option<&LitTChunk>)
        ensures
            r == (match self {
                StandardChunk::LitT(c) => Some(c),
                _ => None,
            }),
    {
        match self {
            StandardChunk::LitT(c) => Some(c),
            _ => None,
        }
    }

    /// This chunk as the table of local functions, where it is that.
    pub fn as_loct(&self) -> (r: Option<&LocTChunk>)
        ensures
            r == (match self {
                StandardChunk::LocT(c) => Some(c),
                _ => None,
            }),
    {
        match self {
            StandardChunk::LocT(c) => Some(c),
            _ => None,
        }
    }

    /// This chunk as the table of anonymous functions, where it is that.
    pub fn as_funt(&self) -> (r: Option<&FunTChunk>)
        ensures
            r == (match self {
                StandardChunk::FunT(c) => Some(c),
                _ => None,
            }),
    {
        match self {
            StandardChunk::FunT(c) => Some(c),
            _ => None,
        }
    }

    /// This chunk as the attributes, where it is that.
    pub fn as_attr(&self) -> (r: Option<&AttrChunk>)
        ensures
            r == (match self {
                StandardChunk::Attr(c) => Some(c),
                _ => None,
            }),
    {
        match self {
            StandardChunk::Attr(c) => Some(c),
            _ => None,
        }
    }

    /// This chunk as the compilation information, where it is that.
    pub fn as_cinf(&self) -> (r: Option<&CInfChunk>)
        ensures
            r == (match self {
                StandardChunk::CInf(c) => Some(c),
                _ => None,
            }),
    {
        match self {
            StandardChunk::CInf(c) => Some(c),
            _ => None,
        }
    }

    /// This chunk as the abstract code, where it is that.
    pub fn as_abst(&self) -> (r: Option<&AbstChunk>)
        ensures
            r == (match self {
                StandardChunk::Abst(c) => Some(c),
                _ => None,
            }),
    {
        match self {
            StandardChunk::Abst(c) => Some(c),
            _ => None,
        }
    }

    /// This chunk as the debug information, where it is that.
    pub fn as_dbgi(&self) -> (r: Option<&DbgiChunk>)
        ensures
            r == (match self {
                StandardChunk::Dbgi(c) => Some(c),
                _ => None,
            }),
    {
        match self {
            StandardChunk::Dbgi(c) => Some(c),
            _ => None,
        }
    }

    /// This chunk as the documentation, where it is that.
    pub fn as_docs(&self) -> (r: Option<&DocsChunk>)
        ensures
            r == (match self {
                StandardChunk::Docs(c) => Some(c),
                _ => None,
            }),
    {
        match self {
            StandardChunk::Docs(c) => Some(c),
            _ => None,
        }
    }

    /// This chunk as a chunk of no known kind, where it is that.
    pub fn as_unknown(&self) -> (r: Option<&RawChunk>)
        ensures
            r == (match self {
                StandardChunk::Unknown(c) => Some(c),
                _ => None,
            }),
    {
        match self {
            StandardChunk::Unknown(c) => Some(c),
            _ => None,
        }
    }
}

} // verus!

//! The ways in which decoding and encoding fail.
use vstd::prelude::*;
use crate::chunk::Id;

verus! {

/// What lay beneath a failure to read.
#[derive(Debug)]
pub enum IoCause {
    /// The input ended inside the envelope or inside a chunk's frame.
    UnexpectedEof,
    /// The envelope declares a body of `declared` bytes, and another number
    /// of bytes follows the size field.
    SizeMismatch { declared: u32 },
    /// The payload of a chunk does not have the shape of its kind: a count
    /// or a size in it disagrees with the bytes that are there, or a term in
    /// it is one that is not handed to the term codec. In writing: the chunk
    /// holds more than a count or a length of its kind can say.
    Malformed,
    /// A reader beneath this crate failed: the decompressor, or the source
    /// of the bytes.
    Source(std::io::Error),
}

/// A failure to decode or to encode. Where it arose inside a chunk, `chunk`
/// holds the id of that chunk.
#[derive(Debug)]
#[allow(inconsistent_fields)]
pub enum Error {
    /// The bytes could not be read as far as their framing asks.
    Io { chunk: Option<Id>, cause: IoCause },
    /// Bytes that should be text are not.
    InvalidString { chunk: Option<Id>, cause: Option<core::str::Utf8Error> },
    /// The term codec rejected the bytes of a term.
    TermDecodeError { chunk: Option<Id>, cause: eetf::DecodeError },
    /// The term codec could not write a term.
    TermEncodeError { chunk: Option<Id>, cause: eetf::EncodeError },
    /// The input does not start with the tag of a form container.
    UnexpectedMagicNumber { found: [u8; 4] },
    /// The container holds another form than a module file.
    UnexpectedFormType { found: [u8; 4] },
    /// The chunk asked for is not there. `found` is the id of the first
    /// chunk that is, if there is any.
    UnexpectedChunk { found: Option<Id>, expected: Id },
}

/// An `IoCause` without the outside value it may hold.
pub enum IoFault {
    UnexpectedEof,
    SizeMismatch { declared: u32 },
    Malformed,
    Source,
}

/// An `Error` without the outside values it may hold, its ids as byte
/// strings: what the contracts say of a failure.
#[allow(inconsistent_fields)]
pub enum Fault {
    Io { chunk: Option<Seq<u8>>, cause: IoFault },
    InvalidString { chunk: Option<Seq<u8>> },
    TermDecodeError { chunk: Option<Seq<u8>> },
    TermEncodeError { chunk: Option<Seq<u8>> },
    UnexpectedMagicNumber { found: Seq<u8> },
    UnexpectedFormType { found: Seq<u8> },
    UnexpectedChunk { found: Option<Seq<u8>>, expected: Seq<u8> },
}

/// The bytes of an id that may be absent.
pub open spec fn id_view(id: Option<Id>) -> Option<Seq<u8>> {
    match id {
        Some(id) => Some(id@),
        None => None,
    }
}

impl View for IoCause {
    type V = IoFault;

    open spec fn view(&self) -> IoFault {
        match self {
            IoCause::UnexpectedEof => IoFault::UnexpectedEof,
            IoCause::SizeMismatch { declared } => IoFault::SizeMismatch { declared: *declared },
            IoCause::Malformed => IoFault::Malformed,
            IoCause::Source(_) => IoFault::Source,
        }
    }
}

impl View for Error {
    type V = Fault;

    open spec fn view(&self) -> Fault {
        match self {
            Error::Io { chunk, cause } => Fault::Io { chunk: id_view(*chunk), cause: cause@ },
            Error::InvalidString { chunk, cause } => Fault::InvalidString { chunk: id_view(*chunk) },
            Error::TermDecodeError { chunk, cause } => Fault::TermDecodeError {
                chunk: id_view(*chunk),
            },
            Error::TermEncodeError { chunk, cause } => Fault::TermEncodeError {
                chunk: id_view(*chunk),
            },
            Error::UnexpectedMagicNumber { found } => Fault::UnexpectedMagicNumber { found: found@ },
            Error::UnexpectedFormType { found } => Fault::UnexpectedFormType { found: found@ },
            Error::UnexpectedChunk { found, expected } => Fault::UnexpectedChunk {
                found: id_view(*found),
                expected: expected@,
            },
        }
    }
}

/// What a result says, as mathematics: the model of what was decoded, or the
/// failure without its outside values.
pub open spec fn outcome<T: View>(r: Result<T, Error>) -> Result<T::V, Fault> {
    match r {
        Ok(value) => Ok(value@),
        Err(e) => Err(e@),
    }
}

/// `head` in front of the items `rest`, where there are any; else the
/// failure that stands in their place.
pub open spec fn and_then<T>(head: Seq<T>, rest: Result<Seq<T>, Fault>) -> Result<Seq<T>, Fault> {
    match rest {
        Ok(rest) => Ok(head + rest),
        Err(e) => Err(e),
    }
}

impl Fault {
    /// The input ended early, outside any chunk's payload.
    pub open spec fn eof() -> Fault {
        Fault::Io { chunk: None, cause: IoFault::UnexpectedEof }
    }

    /// The payload of the chunk `id` does not have the shape of its kind.
    pub open spec fn malformed(id: Seq<u8>) -> Fault {
        Fault::Io { chunk: Some(id), cause: IoFault::Malformed }
    }
}

impl Error {
    /// The input ended early, outside any chunk's payload.
    pub fn eof() -> (e: Error)
        ensures
            e@ == Fault::eof(),
    {
        Error::Io { chunk: None, cause: IoCause::UnexpectedEof }
    }

    /// The payload of the chunk `id` does not have the shape of its kind.
    pub fn malformed(id: &Id) -> (e: Error)
        ensures
            e@ == Fault::malformed(id@),
    {
        Error::Io { chunk: Some(*id), cause: IoCause::Malformed }
    }
}

impl From<std::io::Error> for Error {
    /// A failure of a reader, outside any chunk.
    fn from(e: std::io::Error) -> (r: Error) {
        Error::Io { chunk: None, cause: IoCause::Source(e) }
    }
}

impl vstd::std_specs::convert::FromSpecImpl<std::io::Error> for Error {
    open spec fn obeys_from_spec() -> bool {
        true
    }

    open spec fn from_spec(e: std::io::Error) -> Error {
        Error::Io { chunk: None, cause: IoCause::Source(e) }
    }
}

impl From<core::str::Utf8Error> for Error {
    /// Bytes that are no text, outside any chunk.
    fn from(e: core::str::Utf8Error) -> (r: Error) {
        Error::InvalidString { chunk: None, cause: Some(e) }
    }
}

impl vstd::std_specs::convert::FromSpecImpl<core::str::Utf8Error> for Error {
    open spec fn obeys_from_spec() -> bool {
        true
    }

    open spec fn from_spec(e: core::str::Utf8Error) -> Error {
        Error::InvalidString { chunk: None, cause: Some(e) }
    }
}

impl From<eetf::DecodeError> for Error {
    /// A term that the codec rejected, outside any chunk.
    fn from(e: eetf::DecodeError) -> (r: Error) {
        Error::TermDecodeError { chunk: None, cause: e }
    }
}

impl vstd::std_specs::convert::FromSpecImpl<eetf::DecodeError> for Error {
    open spec fn obeys_from_spec() -> bool {
        true
    }

    open spec fn from_spec(e: eetf::DecodeError) -> Error {
        Error::TermDecodeError { chunk: None, cause: e }
    }
}

impl From<eetf::EncodeError> for Error {
    /// A term that the codec could not write, outside any chunk.
    fn from(e: eetf::EncodeError) -> (r: Error) {
        Error::TermEncodeError { chunk: None, cause: e }
    }
}

impl vstd::std_specs::convert::FromSpecImpl<eetf::EncodeError> for Error {
    open spec fn obeys_from_spec() -> bool {
        true
    }

    open spec fn from_spec(e: eetf::EncodeError) -> Error {
        Error::TermEncodeError { chunk: None, cause: e }
    }
}

} // verus!

//! The outside code that the decoders lean on: the term codec, the
//! decompressor and two functions of the standard library.
//!
//! Nothing in this file is proved. Each contract here states what the outside
//! function is taken to do; the rest of the crate is verified against these
//! contracts.
use vstd::prelude::*;
use vstd::utf8::*;
use crate::scan::term_safe;

verus! {

/// A term of the external term format: `eetf::Term`. It is carried through
/// and never looked into.
#[verifier::external_type_specification]
#[verifier::external_body]
pub struct ExTerm(eetf::Term);

/// The reason for which the term codec rejected bytes: `eetf::DecodeError`.
#[verifier::external_type_specification]
#[verifier::external_body]
pub struct ExDecodeError(eetf::DecodeError);

/// The reason for which the term codec could not write a term:
/// `eetf::EncodeError`.
#[verifier::external_type_specification]
#[verifier::external_body]
pub struct ExEncodeError(eetf::EncodeError);

/// The error of a reader of the standard library: `std::io::Error`.
#[verifier::external_type_specification]
#[verifier::external_body]
pub struct ExIoError(std::io::Error);

/// The place at which bytes stop being UTF-8: `core::str::Utf8Error`.
#[verifier::external_type_specification]
#[verifier::external_body]
pub struct ExUtf8Error(core::str::Utf8Error);

/// Whether `eetf::Term::decode` reads a term from `bytes`, and reports no
/// error.
pub uninterp spec fn term_decodes(bytes: Seq<u8>) -> bool;

/// Whether `term` is among the terms that `eetf::Term::decode` may give for
/// `bytes`. It need not give the same term twice: each map of a term has a
/// hash map of its own behind it, with a seed of its own, and a map that
/// is the key of another map is hashed in the order in which its own hash
/// map hands out its entries.
pub uninterp spec fn term_reading(bytes: Seq<u8>, term: eetf::Term) -> bool;

/// Whether `term` is one on which `eetf::Term::encode` returns: it nests no
/// deeper than `MAX_DEPTH`, it holds no bit string with bytes whose last
/// byte is said to hold no bit or more than eight, and written out it stays
/// below the four gigabytes at which the codec's length fields end. Every
/// term that `eetf::Term::decode` gives for bytes that the scan has not
/// refused is such a term, and so is every term built from atoms, numbers, binaries,
/// tuples, lists and maps within that depth and size.
pub uninterp spec fn term_sound(term: eetf::Term) -> bool;

/// Whether `eetf::Term::encode` writes `term`, and reports no error. It
/// reports one for an atom with a name of more than 65535 bytes, for a
/// reference of more than 65535 words and for an integer of four gigabytes,
/// wherever in the term they stand.
pub uninterp spec fn term_writes(term: eetf::Term) -> bool;

/// Whether `bytes` are among the byte strings that `eetf::Term::encode` may
/// write for `term`. It may write more than one: the entries of a map term
/// come in the order in which a hash map hands them out.
pub uninterp spec fn term_writing(term: eetf::Term, bytes: Seq<u8>) -> bool;

/// The bytes that `libflate::zlib::Decoder` gives for the zlib stream at the
/// start of `stream`, or `None` where it reports an error.
pub uninterp spec fn inflated(stream: Seq<u8>) -> Option<Seq<u8>>;

/// Calls `eetf::Term::decode` on `bytes`.
///
/// The codec does not return on every byte string. It stops with a panic at
/// a distribution header and at an atom cache reference; built with
/// overflow checks, also at a bit string with bytes whose last byte is said
/// to hold no bit or more than eight. It calls itself once for each level
/// of nesting, and it reserves room for as many elements as a count says
/// before it has read them. The `requires` leaves all of this out. Bytes
/// that the scan has not refused hold, as far as the codec reads them, no
/// tag at which it stops, no such bit string, no compressed term, no length
/// or count above the number of bytes that are left, and no nesting deeper
/// than `MAX_DEPTH`, which a thread of the usual two megabytes of stack
/// holds several times over. Where such bytes are no term, it is for a
/// reason that the codec reports as an error: another version byte, a tag
/// that is none, or bytes that end where a tag or a field of fixed size is
/// due.
///
/// The contract claims that the bytes alone decide whether the codec reads
/// a term or reports an error. Of the term it claims no more than a name
/// for the relation between bytes and term: two calls on the same bytes
/// need not give terms that are equal. And it claims that the term is one
/// that the codec can be asked to write: it nests as deep as the bytes do,
/// its bit strings are those of the bytes, and written out it takes about
/// as many bytes as were read.
#[verifier::external_body]
pub(crate) fn decode_term(bytes: &[u8]) -> (r: Result<eetf::Term, eetf::DecodeError>)
    requires
        term_safe(bytes@),
    ensures
        r is Ok <==> term_decodes(bytes@),
        r is Ok ==> term_reading(bytes@, r->Ok_0),
        r is Ok ==> term_sound(r->Ok_0),
{
    eetf::Term::decode(bytes)
}

/// Whether bytes start as every written term of the external term format
/// does: with the version byte, 131.
pub open spec fn starts_term(bytes: Seq<u8>) -> bool {
    bytes.len() >= 1 && bytes[0] == 131
}

/// Calls `eetf::Term::encode` on `term`, with a fresh vector as the writer.
///
/// The codec does not return on every term: built with overflow checks it
/// stops with a panic at a bit string with bytes whose last byte is said to
/// hold no bit or more than eight, and at a function of four gigabytes; and
/// it calls itself once for each level of nesting. The `requires` leaves
/// such terms out.
///
/// The contract claims that the term alone decides whether the codec
/// writes it or reports an error: the codec goes through every part of the
/// term, in whatever order, until one part fails. It claims that the bytes
/// start with the version byte, which the codec writes before it looks at
/// the term, and it gives the relation between a term and what the codec
/// writes for it a name. It does not claim that two calls on one term write
/// the same bytes.
#[verifier::external_body]
pub(crate) fn encode_term(term: &eetf::Term) -> (r: Result<Vec<u8>, eetf::EncodeError>)
    requires
        term_sound(*term),
    ensures
        r is Ok <==> term_writes(*term),
        r is Ok ==> starts_term(r->Ok_0@),
        r is Ok ==> term_writing(*term, r->Ok_0@),
{
    let mut out = Vec::new();
    term.encode(&mut out)?;
    Ok(out)
}

/// Runs `libflate::zlib::Decoder` over `stream` and reads it to its end.
///
/// The contract claims that the outcome depends on the bytes alone. The
/// decoder checks the stream's header and its Adler-32 checksum, and leaves
/// bytes after the stream unread.
#[verifier::external_body]
pub(crate) fn inflate(stream: &[u8]) -> (r: Result<Vec<u8>, std::io::Error>)
    ensures
        r is Ok <==> inflated(stream@) is Some,
        r is Ok ==> r->Ok_0@ == inflated(stream@)->Some_0,
{
    let mut out = Vec::new();
    let mut decoder = libflate::zlib::Decoder::new(stream)?;
    std::io::Read::read_to_end(&mut decoder, &mut out)?;
    Ok(out)
}

/// `core::str::from_utf8` accepts exactly the byte strings that are valid
/// UTF-8, and the string slice it returns holds the characters that they
/// spell.
pub assume_specification<'a>[ core::str::from_utf8 ](v: &'a [u8]) -> (r: Result<
    &'a str,
    core::str::Utf8Error,
>)
    ensures
        r is Ok <==> valid_utf8(v@),
        r is Ok ==> r->Ok_0@ == decode_utf8(v@),
;

/// `String::push` appends one character.
pub assume_specification[ String::push ](s: &mut String, c: char)
    ensures
        final(s)@ == old(s)@.push(c),
;

} // verus!

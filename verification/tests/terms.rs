use std::io::Write;

use beam_file::chunk::{
    AbstChunk, AtomChunk, AttrChunk, CInfChunk, CodeChunk, DbgiChunk, DocsChunk, ExpTChunk,
    FunTChunk, ImpTChunk, LitTChunk, LocTChunk, RawChunk, StandardChunk, StrTChunk,
};
use beam_file::error::{Error, IoCause};
use beam_file::parts::{Atom, Export, Function, Import, Local};
use beam_file::term::{literal_table, sized_table, term_or_error};
use beam_file::{RawBeamFile, StandardBeamFile};
use eetf::Term;

fn encoded(term: &Term) -> Vec<u8> {
    let mut out = Vec::new();
    term.encode(&mut out).unwrap();
    out
}

fn deflated(bytes: &[u8]) -> Vec<u8> {
    let mut encoder = libflate::zlib::Encoder::new(Vec::new()).unwrap();
    encoder.write_all(bytes).unwrap();
    encoder.finish().into_result().unwrap()
}

fn words(values: &[u32]) -> Vec<u8> {
    let mut out = Vec::new();
    for v in values {
        out.extend_from_slice(&v.to_be_bytes());
    }
    out
}

fn table_of(entries: &[Vec<u8>]) -> Vec<u8> {
    let mut out = words(&[entries.len() as u32]);
    for entry in entries {
        out.extend_from_slice(&words(&[entry.len() as u32]));
        out.extend_from_slice(entry);
    }
    out
}

fn plain_envelope(table: &[u8]) -> Vec<u8> {
    let mut out = words(&[0]);
    out.extend_from_slice(table);
    out
}

fn compressed_envelope(table: &[u8]) -> Vec<u8> {
    let mut out = words(&[table.len() as u32]);
    out.extend_from_slice(&deflated(table));
    out
}

fn atom_term(name: &str) -> Term {
    Term::from(eetf::Atom::from(name))
}

fn number(value: i32) -> Term {
    Term::from(eetf::FixInteger::from(value))
}

fn sample_terms() -> Vec<Term> {
    vec![
        atom_term("ok"),
        number(-7),
        Term::from(eetf::Tuple::from(vec![atom_term("error"), number(404)])),
        Term::from(eetf::Binary::from(b"some bytes".to_vec())),
        Term::from(eetf::List::from(vec![atom_term("a"), atom_term("b")])),
        Term::from(eetf::List::nil()),
    ]
}

fn is_malformed<T: std::fmt::Debug>(r: &Result<T, Error>, id: &[u8; 4]) -> bool {
    matches!(r, Err(Error::Io { chunk: Some(found), cause: IoCause::Malformed }) if found == id)
}

fn chunk_bytes(id: &[u8; 4], payload: &[u8]) -> Vec<u8> {
    let mut out = Vec::new();
    out.extend_from_slice(id);
    out.extend_from_slice(&(payload.len() as u32).to_be_bytes());
    out.extend_from_slice(payload);
    while out.len() % 4 != 0 {
        out.push(0);
    }
    out
}

fn file_bytes(chunks: &[(&[u8; 4], Vec<u8>)]) -> Vec<u8> {
    let mut body = Vec::new();
    for (id, payload) in chunks {
        body.extend_from_slice(&chunk_bytes(id, payload));
    }
    let mut out = Vec::new();
    out.extend_from_slice(b"FOR1");
    out.extend_from_slice(&((body.len() + 4) as u32).to_be_bytes());
    out.extend_from_slice(b"BEAM");
    out.extend_from_slice(&body);
    out
}

#[test]
fn a_metadata_chunk_holds_the_term_of_its_payload() {
    let term = Term::from(eetf::Tuple::from(vec![atom_term("vsn"), number(3)]));
    let payload = encoded(&term);
    assert_eq!(AttrChunk::decode_data(b"Attr", &payload).unwrap().term, term);
    assert_eq!(CInfChunk::decode_data(b"CInf", &payload).unwrap().term, term);
    assert_eq!(AbstChunk::decode_data(b"Abst", &payload).unwrap().term, term);
    assert_eq!(DbgiChunk::decode_data(b"Dbgi", &payload).unwrap().term, term);
    assert_eq!(DocsChunk::decode_data(b"Docs", &payload).unwrap().term, term);
    // The bytes of an atom, written out.
    let chunk = AttrChunk::decode_data(b"Attr", &[131, 119, 3, 102, 111, 111]).unwrap();
    assert_eq!(chunk.term, atom_term("foo"));
}

#[test]
fn the_dispatcher_stores_a_term_under_the_kind_of_its_id() {
    let term = atom_term("meta");
    let payload = encoded(&term);
    assert_eq!(
        StandardChunk::decode_data(b"Attr", &payload).unwrap(),
        StandardChunk::Attr(AttrChunk { term: term.clone() })
    );
    assert_eq!(
        StandardChunk::decode_data(b"CInf", &payload).unwrap(),
        StandardChunk::CInf(CInfChunk { term: term.clone() })
    );
    assert_eq!(
        StandardChunk::decode_data(b"Abst", &payload).unwrap(),
        StandardChunk::Abst(AbstChunk { term: term.clone() })
    );
    assert_eq!(
        StandardChunk::decode_data(b"Dbgi", &payload).unwrap(),
        StandardChunk::Dbgi(DbgiChunk { term: term.clone() })
    );
    assert_eq!(
        StandardChunk::decode_data(b"Docs", &payload).unwrap(),
        StandardChunk::Docs(DocsChunk { term: term.clone() })
    );
    for id in [b"Attr", b"CInf", b"Abst", b"Dbgi", b"Docs"] {
        assert_eq!(StandardChunk::decode_data(id, &payload).unwrap().id(), *id);
    }
}

#[test]
fn a_compressed_term_is_decompressed_and_decoded() {
    let term = Term::from(eetf::Binary::from(vec![7u8; 300]));
    let plain = encoded(&term);
    let mut payload = vec![131, 80];
    payload.extend_from_slice(&words(&[(plain.len() - 1) as u32]));
    payload.extend_from_slice(&deflated(&plain[1..]));
    assert!(payload.len() < plain.len());
    assert_eq!(DbgiChunk::decode_data(b"Dbgi", &payload).unwrap().term, term);
}

#[test]
fn the_term_of_a_metadata_chunk_must_use_up_its_payload() {
    let term = atom_term("ok");
    let mut payload = encoded(&term);
    assert_eq!(AttrChunk::decode_data(b"Attr", &payload).unwrap().term, term);
    payload.push(0);
    assert!(is_malformed(&AttrChunk::decode_data(b"Attr", &payload), b"Attr"));
    payload.pop();
    payload.pop();
    assert!(is_malformed(&AttrChunk::decode_data(b"Attr", &payload), b"Attr"));
    // A tuple that counts more terms than there are bytes.
    assert!(is_malformed(&AbstChunk::decode_data(b"Abst", &[131, 104, 2, 106]), b"Abst"));
    assert!(is_malformed(&AbstChunk::decode_data(b"Abst", &[131, 104, 1]), b"Abst"));
}

#[test]
fn a_payload_that_the_codec_rejects_is_a_term_decode_error() {
    match AttrChunk::decode_data(b"Attr", &[131, 255]) {
        Err(Error::TermDecodeError { chunk, cause }) => {
            assert_eq!(chunk, Some(*b"Attr"));
            assert!(matches!(cause, eetf::DecodeError::UnknownTag { tag: 255 }));
        }
        other => panic!("{:?}", other),
    }
    match CInfChunk::decode_data(b"CInf", &[130, 106]) {
        Err(Error::TermDecodeError { chunk, cause }) => {
            assert_eq!(chunk, Some(*b"CInf"));
            assert!(matches!(cause, eetf::DecodeError::UnsupportedVersion { version: 130 }));
        }
        other => panic!("{:?}", other),
    }
    // No byte at all, the version byte alone, a number cut short, a tag
    // that is none inside a tuple.
    assert!(matches!(
        DocsChunk::decode_data(b"Docs", &[]),
        Err(Error::TermDecodeError { chunk: Some(id), cause: eetf::DecodeError::Io(_) })
            if &id == b"Docs"
    ));
    assert!(matches!(
        StandardChunk::decode_data(b"Dbgi", &[131]),
        Err(Error::TermDecodeError { chunk: Some(id), cause: eetf::DecodeError::Io(_) })
            if &id == b"Dbgi"
    ));
    assert!(matches!(
        AbstChunk::decode_data(b"Abst", &[131, 98, 0, 0]),
        Err(Error::TermDecodeError { chunk: Some(id), cause: eetf::DecodeError::Io(_) })
            if &id == b"Abst"
    ));
    assert!(matches!(
        AttrChunk::decode_data(b"Attr", &[131, 104, 2, 106, 1]),
        Err(Error::TermDecodeError {
            chunk: Some(id),
            cause: eetf::DecodeError::UnknownTag { tag: 1 },
        }) if &id == b"Attr"
    ));
    // A process id whose fields behind the node are cut short.
    assert!(matches!(
        AttrChunk::decode_data(b"Attr", &[131, 103, 119, 1, b'n', 0, 0, 0, 1]),
        Err(Error::TermDecodeError { chunk: Some(id), cause: eetf::DecodeError::Io(_) })
            if &id == b"Attr"
    ));
}

#[test]
fn a_term_that_the_codec_rejects_is_a_term_decode_error() {
    // A float that is no number.
    match AttrChunk::decode_data(b"Attr", &[131, 70, 0x7f, 0xf8, 0, 0, 0, 0, 0, 0]) {
        Err(Error::TermDecodeError { chunk, cause }) => {
            assert_eq!(chunk, Some(*b"Attr"));
            assert!(matches!(cause, eetf::DecodeError::NonFiniteFloat));
        }
        other => panic!("{:?}", other),
    }
    // A process id whose node is no atom.
    match CInfChunk::decode_data(b"CInf", &[131, 103, 106, 0, 0, 0, 1, 0, 0, 0, 2, 3]) {
        Err(Error::TermDecodeError { chunk, cause }) => {
            assert_eq!(chunk, Some(*b"CInf"));
            assert!(matches!(cause, eetf::DecodeError::UnexpectedType { .. }));
        }
        other => panic!("{:?}", other),
    }
    // An atom whose name is no UTF-8, and a number with a sign that is none.
    assert!(matches!(
        DocsChunk::decode_data(b"Docs", &[131, 119, 1, 0xff]),
        Err(Error::TermDecodeError { chunk: Some(id), cause: eetf::DecodeError::Io(_) })
            if &id == b"Docs"
    ));
    assert!(matches!(
        AbstChunk::decode_data(b"Abst", &[131, 110, 1, 7, 1]),
        Err(Error::TermDecodeError { chunk: Some(id), .. }) if &id == b"Abst"
    ));
    assert!(matches!(
        StandardChunk::decode_data(b"Dbgi", &[131, 113, 106, 106, 106]),
        Err(Error::TermDecodeError { chunk: Some(id), .. }) if &id == b"Dbgi"
    ));
}

#[test]
fn a_metadata_decoder_rejects_a_chunk_of_another_kind() {
    let payload = encoded(&atom_term("ok"));
    assert!(matches!(
        AttrChunk::decode_data(b"CInf", &payload),
        Err(Error::UnexpectedChunk { found: Some(f), expected: e }) if &f == b"CInf" && &e == b"Attr"
    ));
    assert!(matches!(
        CInfChunk::decode_data(b"Attr", &payload),
        Err(Error::UnexpectedChunk { found: Some(f), expected: e }) if &f == b"Attr" && &e == b"CInf"
    ));
    assert!(matches!(
        AbstChunk::decode_data(b"Attr", &payload),
        Err(Error::UnexpectedChunk { found: Some(f), expected: e }) if &f == b"Attr" && &e == b"Abst"
    ));
    assert!(matches!(
        DbgiChunk::decode_data(b"Attr", &payload),
        Err(Error::UnexpectedChunk { found: Some(f), expected: e }) if &f == b"Attr" && &e == b"Dbgi"
    ));
    assert!(matches!(
        DocsChunk::decode_data(b"Attr", &payload),
        Err(Error::UnexpectedChunk { found: Some(f), expected: e }) if &f == b"Attr" && &e == b"Docs"
    ));
    assert!(matches!(
        LitTChunk::decode_data(b"Attr", &payload),
        Err(Error::UnexpectedChunk { found: Some(f), expected: e }) if &f == b"Attr" && &e == b"LitT"
    ));
}

#[test]
fn the_codec_answer_is_passed_on_with_the_id_of_the_chunk() {
    let term = atom_term("ok");
    assert_eq!(term_or_error(b"Attr", Ok(term.clone())).unwrap(), term);
    match term_or_error(b"LitT", Err(eetf::DecodeError::UnknownTag { tag: 1 })) {
        Err(Error::TermDecodeError { chunk, cause }) => {
            assert_eq!(chunk, Some(*b"LitT"));
            assert!(matches!(cause, eetf::DecodeError::UnknownTag { tag: 1 }));
        }
        other => panic!("{:?}", other),
    }
}

#[test]
fn literals_are_decoded_in_their_order() {
    let terms = sample_terms();
    let entries: Vec<Vec<u8>> = terms.iter().map(encoded).collect();
    let table = table_of(&entries);
    let chunk = LitTChunk::decode_table(b"LitT", &table).unwrap();
    assert_eq!(chunk.literals, terms);
    let chunk = LitTChunk::decode_data(b"LitT", &plain_envelope(&table)).unwrap();
    assert_eq!(chunk.literals, terms);
    let chunk = LitTChunk::decode_data(b"LitT", &compressed_envelope(&table)).unwrap();
    assert_eq!(chunk.literals, terms);
    assert_eq!(
        StandardChunk::decode_data(b"LitT", &compressed_envelope(&table)).unwrap(),
        StandardChunk::LitT(LitTChunk { literals: terms })
    );
}

#[test]
fn a_literal_table_may_be_empty() {
    let table = table_of(&[]);
    assert_eq!(table, vec![0, 0, 0, 0]);
    assert_eq!(LitTChunk::decode_table(b"LitT", &table).unwrap().literals, vec![]);
    assert_eq!(LitTChunk::decode_data(b"LitT", &plain_envelope(&table)).unwrap().literals, vec![]);
    assert_eq!(
        LitTChunk::decode_data(b"LitT", &compressed_envelope(&table)).unwrap().literals,
        vec![]
    );
}

#[test]
fn the_envelope_of_a_literal_table_is_opened() {
    let table = table_of(&[encoded(&atom_term("ok")), encoded(&number(1))]);
    assert_eq!(literal_table(b"LitT", &plain_envelope(&table)).unwrap(), table);
    let compressed = compressed_envelope(&table);
    assert_ne!(compressed[4..], table[..]);
    assert_eq!(literal_table(b"LitT", &compressed).unwrap(), table);
    // A zero size word and nothing behind it: an empty byte string, which is
    // then no table.
    assert_eq!(literal_table(b"LitT", &[0, 0, 0, 0]).unwrap(), Vec::<u8>::new());
    assert!(is_malformed(&LitTChunk::decode_data(b"LitT", &[0, 0, 0, 0]), b"LitT"));
    // No size word.
    assert!(is_malformed(&literal_table(b"LitT", &[0, 0, 0]), b"LitT"));
    assert!(is_malformed(&LitTChunk::decode_data(b"LitT", &[]), b"LitT"));
}

#[test]
fn a_stream_that_does_not_decompress_is_a_failure_of_the_source() {
    let mut payload = words(&[8]);
    payload.extend_from_slice(b"no zlib stream");
    match LitTChunk::decode_data(b"LitT", &payload) {
        Err(Error::Io { chunk, cause: IoCause::Source(cause) }) => {
            assert_eq!(chunk, Some(*b"LitT"));
            assert_eq!(cause.kind(), std::io::ErrorKind::InvalidData);
        }
        other => panic!("{:?}", other),
    }
    // A stream that is cut short, and one whose checksum is wrong.
    let table = table_of(&[encoded(&atom_term("ok"))]);
    let whole = compressed_envelope(&table);
    let cut = &whole[..whole.len() - 5];
    assert!(matches!(
        literal_table(b"LitT", cut),
        Err(Error::Io { chunk: Some(id), cause: IoCause::Source(_) }) if &id == b"LitT"
    ));
    let mut wrong = whole.clone();
    let last = wrong.len() - 1;
    wrong[last] ^= 0xff;
    assert!(matches!(
        literal_table(b"LitT", &wrong),
        Err(Error::Io { chunk: Some(id), cause: IoCause::Source(_) }) if &id == b"LitT"
    ));
    // Nothing behind a size word that is not zero.
    assert!(matches!(
        literal_table(b"LitT", &[0, 0, 0, 1]),
        Err(Error::Io { chunk: Some(id), cause: IoCause::Source(_) }) if &id == b"LitT"
    ));
}

#[test]
fn a_stream_of_another_size_than_declared_is_malformed() {
    let table = table_of(&[encoded(&atom_term("ok"))]);
    let mut payload = compressed_envelope(&table);
    payload[3] += 1;
    assert!(is_malformed(&literal_table(b"LitT", &payload), b"LitT"));
    assert!(is_malformed(&LitTChunk::decode_data(b"LitT", &payload), b"LitT"));
    payload[3] -= 2;
    assert!(is_malformed(&LitTChunk::decode_data(b"LitT", &payload), b"LitT"));
}

#[test]
fn the_decompressor_answer_is_held_against_the_declared_size() {
    assert_eq!(sized_table(b"LitT", 3, Ok(vec![1, 2, 3])).unwrap(), vec![1, 2, 3]);
    assert_eq!(sized_table(b"LitT", 0, Ok(vec![])).unwrap(), Vec::<u8>::new());
    assert!(is_malformed(&sized_table(b"LitT", 2, Ok(vec![1, 2, 3])), b"LitT"));
    assert!(is_malformed(&sized_table(b"LitT", 4, Ok(vec![1, 2, 3])), b"LitT"));
    assert!(is_malformed(&sized_table(b"Abcd", u32::MAX, Ok(vec![])), b"Abcd"));
    let failure = std::io::Error::new(std::io::ErrorKind::InvalidData, "bad");
    match sized_table(b"LitT", 3, Err(failure)) {
        Err(Error::Io { chunk, cause: IoCause::Source(cause) }) => {
            assert_eq!(chunk, Some(*b"LitT"));
            assert_eq!(cause.kind(), std::io::ErrorKind::InvalidData);
            assert_eq!(cause.to_string(), "bad");
        }
        other => panic!("{:?}", other),
    }
}

#[test]
fn a_literal_table_must_use_up_its_bytes() {
    let entry = encoded(&atom_term("ok"));
    let good = table_of(&[entry.clone(), entry.clone()]);
    assert!(LitTChunk::decode_table(b"LitT", &good).is_ok());
    // No count, a count too large, a count too small, bytes behind the last
    // entry, an entry cut short.
    assert!(is_malformed(&LitTChunk::decode_table(b"LitT", &[]), b"LitT"));
    assert!(is_malformed(&LitTChunk::decode_table(b"LitT", &[0, 0, 0]), b"LitT"));
    let mut more = good.clone();
    more[3] = 3;
    assert!(is_malformed(&LitTChunk::decode_table(b"LitT", &more), b"LitT"));
    let mut fewer = good.clone();
    fewer[3] = 1;
    assert!(is_malformed(&LitTChunk::decode_table(b"LitT", &fewer), b"LitT"));
    let mut longer = good.clone();
    longer.push(0);
    assert!(is_malformed(&LitTChunk::decode_table(b"LitT", &longer), b"LitT"));
    assert!(is_malformed(&LitTChunk::decode_table(b"LitT", &good[..good.len() - 1]), b"LitT"));
    assert!(is_malformed(&LitTChunk::decode_data(b"LitT", &plain_envelope(&more)), b"LitT"));
    assert!(is_malformed(&LitTChunk::decode_data(b"LitT", &compressed_envelope(&longer)), b"LitT"));
}

#[test]
fn a_literal_that_the_codec_rejects_is_a_term_decode_error() {
    let not_a_number = vec![131, 70, 0x7f, 0xf8, 0, 0, 0, 0, 0, 0];
    let table = table_of(&[encoded(&atom_term("ok")), not_a_number, encoded(&number(1))]);
    match LitTChunk::decode_data(b"LitT", &plain_envelope(&table)) {
        Err(Error::TermDecodeError { chunk, cause }) => {
            assert_eq!(chunk, Some(*b"LitT"));
            assert!(matches!(cause, eetf::DecodeError::NonFiniteFloat));
        }
        other => panic!("{:?}", other),
    }
}

#[test]
fn a_literal_that_is_not_one_whole_term_is_malformed() {
    // A byte behind the term, a tuple that counts more terms than there are
    // bytes, a binary longer than the bytes.
    for entry in [vec![131, 106, 0], vec![131, 104, 1], vec![131, 109, 0, 0, 0, 9, 1]] {
        let table = table_of(&[encoded(&atom_term("ok")), entry]);
        assert!(is_malformed(&LitTChunk::decode_table(b"LitT", &table), b"LitT"));
    }
    // A tag that is none and an empty entry are for the codec to reject.
    for entry in [vec![131, 255], vec![]] {
        let table = table_of(&[encoded(&atom_term("ok")), entry]);
        assert!(matches!(
            LitTChunk::decode_table(b"LitT", &table),
            Err(Error::TermDecodeError { chunk: Some(id), .. }) if &id == b"LitT"
        ));
    }
    // The first entry that fails decides how the table fails.
    let not_a_number = vec![131, 70, 0x7f, 0xf8, 0, 0, 0, 0, 0, 0];
    let table = table_of(&[not_a_number.clone(), vec![131, 106, 0]]);
    assert!(matches!(
        LitTChunk::decode_table(b"LitT", &table),
        Err(Error::TermDecodeError { .. })
    ));
    let table = table_of(&[vec![131, 106, 0], not_a_number]);
    assert!(is_malformed(&LitTChunk::decode_table(b"LitT", &table), b"LitT"));
}

#[test]
fn the_shape_of_a_literal_table_is_judged_before_its_terms() {
    // The first entry is no term and the table has a byte too many.
    let mut table = table_of(&[vec![131, 255], encoded(&number(1))]);
    table.push(0);
    assert!(is_malformed(&LitTChunk::decode_table(b"LitT", &table), b"LitT"));
}

#[test]
fn a_file_with_one_chunk_of_each_kind_is_decoded_field_for_field() {
    let literals = sample_terms();
    let literal_entries: Vec<Vec<u8>> = literals.iter().map(encoded).collect();
    let attributes = Term::from(eetf::List::from(vec![Term::from(eetf::Tuple::from(vec![
        atom_term("vsn"),
        Term::from(eetf::List::from(vec![number(100_000)])),
    ]))]));
    let compile_info = Term::from(eetf::Tuple::from(vec![atom_term("version"), number(8)]));
    let abstract_code = atom_term("raw_abstract_v1");
    let debug_info = Term::from(eetf::Tuple::from(vec![atom_term("debug_info_v1"), number(0)]));
    let docs = Term::from(eetf::Binary::from(b"Some documentation.".to_vec()));
    let mut code = words(&[16, 0, 171, 9, 2]);
    code.extend_from_slice(&[1, 16, 153, 16, 2, 18, 34, 0, 1, 32, 3]);
    let chunks: Vec<(&[u8; 4], Vec<u8>)> = vec![
        (b"AtU8", b"\x00\x00\x00\x03\x04mod1\x05start\x05\xc3\xa9t\xc3\xa9".to_vec()),
        (b"Code", code),
        (b"StrT", b"hello".to_vec()),
        (b"ImpT", words(&[2, 4, 5, 1, 4, 6, 2])),
        (b"ExpT", words(&[1, 2, 0, 7])),
        (b"LitT", compressed_envelope(&table_of(&literal_entries))),
        (b"LocT", words(&[2, 8, 1, 9, 10, 3, 11])),
        (b"FunT", words(&[1, 12, 1, 13, 0, 2, 0x0bad_cafe])),
        (b"Attr", encoded(&attributes)),
        (b"CInf", encoded(&compile_info)),
        (b"Abst", encoded(&abstract_code)),
        (b"Dbgi", encoded(&debug_info)),
        (b"Docs", encoded(&docs)),
    ];
    let bytes = file_bytes(&chunks);
    assert_eq!(bytes.len() % 4, 0);

    let file = StandardBeamFile::from_bytes(&bytes).unwrap();
    let expected = vec![
        StandardChunk::Atom(AtomChunk {
            is_unicode: true,
            atoms: vec![
                Atom { name: "mod1".to_string() },
                Atom { name: "start".to_string() },
                Atom { name: "\u{e9}t\u{e9}".to_string() },
            ],
        }),
        StandardChunk::Code(CodeChunk {
            info_size: 16,
            version: 0,
            opcode_max: 171,
            label_count: 9,
            function_count: 2,
            bytecode: vec![1, 16, 153, 16, 2, 18, 34, 0, 1, 32, 3],
        }),
        StandardChunk::StrT(StrTChunk { strings: b"hello".to_vec() }),
        StandardChunk::ImpT(ImpTChunk {
            imports: vec![
                Import { module: 4, function: 5, arity: 1 },
                Import { module: 4, function: 6, arity: 2 },
            ],
        }),
        StandardChunk::ExpT(ExpTChunk { exports: vec![Export { function: 2, arity: 0, label: 7 }] }),
        StandardChunk::LitT(LitTChunk { literals }),
        StandardChunk::LocT(LocTChunk {
            locals: vec![
                Local { function: 8, arity: 1, label: 9 },
                Local { function: 10, arity: 3, label: 11 },
            ],
        }),
        StandardChunk::FunT(FunTChunk {
            functions: vec![Function {
                function: 12,
                arity: 1,
                label: 13,
                index: 0,
                num_free: 2,
                old_uniq: 0x0bad_cafe,
            }],
        }),
        StandardChunk::Attr(AttrChunk { term: attributes }),
        StandardChunk::CInf(CInfChunk { term: compile_info }),
        StandardChunk::Abst(AbstChunk { term: abstract_code }),
        StandardChunk::Dbgi(DbgiChunk { term: debug_info }),
        StandardChunk::Docs(DocsChunk { term: docs }),
    ];
    assert_eq!(file.chunks, expected);
    let ids: Vec<[u8; 4]> = file.chunks.iter().map(|c| c.id()).collect();
    let written: Vec<[u8; 4]> = chunks.iter().map(|(id, _)| **id).collect();
    assert_eq!(ids, written);

    // The same file, its chunks kept as they stand.
    let raw = RawBeamFile::from_bytes(&bytes).unwrap();
    let kept: Vec<RawChunk> =
        chunks.iter().map(|(id, payload)| RawChunk { id: **id, data: payload.clone() }).collect();
    assert_eq!(raw.chunks, kept);
    assert_eq!(StandardBeamFile::from_raw(&raw).unwrap(), file);
    for (raw_chunk, chunk) in raw.chunks.iter().zip(file.chunks.iter()) {
        assert_eq!(&StandardChunk::from_raw(raw_chunk).unwrap(), chunk);
        assert_eq!(file.find(&raw_chunk.id).unwrap(), chunk);
    }
}

#[test]
fn the_legacy_atom_table_stands_in_a_file_under_its_own_id() {
    let bytes = file_bytes(&[(b"Atom", b"\x00\x00\x00\x01\x02\xe9t".to_vec())]);
    let file = StandardBeamFile::from_bytes(&bytes).unwrap();
    assert_eq!(
        file.chunks,
        vec![StandardChunk::Atom(AtomChunk {
            is_unicode: false,
            atoms: vec![Atom { name: "\u{e9}t".to_string() }],
        })]
    );
    assert_eq!(file.chunks[0].id(), *b"Atom");
    assert_eq!(file.position(b"Atom"), Some(0));
    assert_eq!(file.position(b"AtU8"), None);
}

use beam_file::atom::encode_name;
use beam_file::beam_file::{frame_chunk, split_chunks};
use beam_file::chunk::{
    AbstChunk, AtomChunk, AttrChunk, CInfChunk, CodeChunk, DbgiChunk, DocsChunk, ExpTChunk,
    FunTChunk, ImpTChunk, LitTChunk, LocTChunk, RawChunk, StandardChunk, StrTChunk,
};
use beam_file::entries::{join_entries, split_entries};
use beam_file::error::{Error, IoCause};
use beam_file::parts::{Atom, Export, Function, Import, Local};
use beam_file::term::{frame_literals, payload_or_error};
use eetf::Term;

fn atom(name: &str) -> Atom {
    Atom { name: name.to_string() }
}

fn atom_term(name: &str) -> Term {
    Term::from(eetf::Atom::from(name))
}

fn encoded(term: &Term) -> Vec<u8> {
    let mut out = Vec::new();
    term.encode(&mut out).unwrap();
    out
}

fn is_malformed<T: std::fmt::Debug>(r: &Result<T, Error>, id: &[u8; 4]) -> bool {
    matches!(r, Err(Error::Io { chunk: Some(found), cause: IoCause::Malformed }) if found == id)
}

fn sample_chunks() -> Vec<StandardChunk> {
    vec![
        StandardChunk::Atom(AtomChunk {
            is_unicode: true,
            atoms: vec![atom("m"), atom("\u{e9}t\u{e9}"), atom("\u{20ac}\u{1f600}")],
        }),
        StandardChunk::Atom(AtomChunk {
            is_unicode: false,
            atoms: vec![atom("m"), atom("\u{e9}t\u{e9}"), atom("\u{ff}\u{0}")],
        }),
        StandardChunk::Code(CodeChunk {
            info_size: 16,
            version: 0,
            opcode_max: 171,
            label_count: 9,
            function_count: 2,
            bytecode: vec![1, 2, 3],
        }),
        StandardChunk::StrT(StrTChunk { strings: b"hello".to_vec() }),
        StandardChunk::ImpT(ImpTChunk {
            imports: vec![
                Import { module: 1, function: 2, arity: 3 },
                Import { module: u32::MAX, function: 0, arity: 255 },
            ],
        }),
        StandardChunk::ExpT(ExpTChunk { exports: vec![Export { function: 2, arity: 0, label: 7 }] }),
        StandardChunk::LitT(LitTChunk {
            literals: vec![
                atom_term("ok"),
                Term::from(eetf::Tuple::from(vec![atom_term("a"), atom_term("b")])),
                Term::from(eetf::Binary::from(vec![0u8; 40])),
            ],
        }),
        StandardChunk::LocT(LocTChunk { locals: vec![Local { function: 8, arity: 1, label: 9 }] }),
        StandardChunk::FunT(FunTChunk {
            functions: vec![
                Function { function: 1, arity: 2, label: 3, index: 4, num_free: 5, old_uniq: 6 },
                Function { function: 7, arity: 8, label: 9, index: 10, num_free: 11, old_uniq: 12 },
            ],
        }),
        StandardChunk::Attr(AttrChunk { term: atom_term("attributes") }),
        StandardChunk::CInf(CInfChunk { term: atom_term("compile_info") }),
        StandardChunk::Abst(AbstChunk { term: atom_term("abstract_code") }),
        StandardChunk::Dbgi(DbgiChunk { term: atom_term("debug_info") }),
        StandardChunk::Docs(DocsChunk { term: atom_term("docs") }),
        StandardChunk::Unknown(RawChunk { id: *b"Zzzz", data: vec![9, 8, 7, 6, 5] }),
        StandardChunk::Unknown(RawChunk { id: *b"Line", data: vec![] }),
    ]
}

#[test]
fn every_chunk_that_is_written_is_read_back() {
    for chunk in sample_chunks() {
        let payload = chunk.encode_data().unwrap();
        let id = chunk.id();
        assert_eq!(StandardChunk::decode_data(&id, &payload).unwrap(), chunk);
    }
}

#[test]
fn framed_chunks_are_split_and_read_back() {
    let chunks = sample_chunks();
    let mut body = Vec::new();
    for chunk in &chunks {
        let frame = chunk.encode().unwrap();
        assert_eq!(frame.len() % 4, 0);
        assert_eq!(&frame[0..4], &chunk.id());
        body.extend_from_slice(&frame);
    }
    let raw = split_chunks(&body).unwrap();
    assert_eq!(raw.len(), chunks.len());
    for (raw_chunk, chunk) in raw.iter().zip(chunks.iter()) {
        assert_eq!(raw_chunk.id, chunk.id());
        assert_eq!(raw_chunk.data, chunk.encode_data().unwrap());
        assert_eq!(&StandardChunk::from_raw(raw_chunk).unwrap(), chunk);
        assert_eq!(raw_chunk.encode().unwrap(), chunk.encode().unwrap());
    }
}

#[test]
fn a_frame_is_id_length_payload_and_zero_padding() {
    assert_eq!(frame_chunk(b"Abcd", &[]).unwrap(), b"Abcd\x00\x00\x00\x00".to_vec());
    assert_eq!(frame_chunk(b"Abcd", &[7]).unwrap(), b"Abcd\x00\x00\x00\x01\x07\x00\x00\x00".to_vec());
    assert_eq!(
        frame_chunk(b"Abcd", &[7, 8]).unwrap(),
        b"Abcd\x00\x00\x00\x02\x07\x08\x00\x00".to_vec()
    );
    assert_eq!(
        frame_chunk(b"Abcd", &[7, 8, 9]).unwrap(),
        b"Abcd\x00\x00\x00\x03\x07\x08\x09\x00".to_vec()
    );
    assert_eq!(
        frame_chunk(b"Abcd", &[7, 8, 9, 10]).unwrap(),
        b"Abcd\x00\x00\x00\x04\x07\x08\x09\x0a".to_vec()
    );
    let long = vec![1u8; 0x0102];
    let frame = frame_chunk(b"Abcd", &long).unwrap();
    assert_eq!(&frame[..8], b"Abcd\x00\x00\x01\x02");
    assert_eq!(frame.len(), 8 + 0x0102 + 2);
    assert_eq!(
        RawChunk { id: *b"Zzzz", data: vec![1] }.encode().unwrap(),
        b"Zzzz\x00\x00\x00\x01\x01\x00\x00\x00".to_vec()
    );
}

#[test]
fn an_atom_table_is_written_as_count_and_names() {
    let chunk = AtomChunk { is_unicode: true, atoms: vec![atom("ok"), atom("error")] };
    assert_eq!(chunk.encode_data().unwrap(), b"\x00\x00\x00\x02\x02ok\x05error".to_vec());
    let chunk = AtomChunk { is_unicode: false, atoms: vec![atom("ok"), atom("error")] };
    assert_eq!(chunk.encode_data().unwrap(), b"\x00\x00\x00\x02\x02ok\x05error".to_vec());
    let chunk = AtomChunk { is_unicode: false, atoms: vec![] };
    assert_eq!(chunk.encode_data().unwrap(), vec![0, 0, 0, 0]);
    let chunk = AtomChunk { is_unicode: true, atoms: vec![atom("")] };
    assert_eq!(chunk.encode_data().unwrap(), vec![0, 0, 0, 1, 0]);
}

#[test]
fn a_name_is_written_in_the_encoding_of_its_table() {
    let chunk = AtomChunk { is_unicode: true, atoms: vec![atom("\u{e9}")] };
    assert_eq!(chunk.encode_data().unwrap(), b"\x00\x00\x00\x01\x02\xc3\xa9".to_vec());
    let chunk = AtomChunk { is_unicode: false, atoms: vec![atom("\u{e9}")] };
    assert_eq!(chunk.encode_data().unwrap(), b"\x00\x00\x00\x01\x01\xe9".to_vec());
    assert_eq!(encode_name("a\u{ff}", false), Some(vec![0x61, 0xff]));
    assert_eq!(encode_name("a\u{ff}", true), Some(vec![0x61, 0xc3, 0xbf]));
    assert_eq!(encode_name("", false), Some(vec![]));
    assert_eq!(encode_name("\u{100}", false), None);
    assert_eq!(encode_name("\u{100}", true), Some(vec![0xc4, 0x80]));
    assert_eq!(encode_name("ab\u{20ac}", false), None);
}

#[test]
fn a_name_outside_latin1_cannot_be_written_to_the_legacy_table() {
    let chunk = AtomChunk { is_unicode: false, atoms: vec![atom("ok"), atom("\u{20ac}")] };
    match chunk.encode_data() {
        Err(Error::InvalidString { chunk, cause: None }) => assert_eq!(chunk, Some(*b"Atom")),
        other => panic!("{:?}", other),
    }
    let chunk = AtomChunk { is_unicode: true, atoms: vec![atom("ok"), atom("\u{20ac}")] };
    assert!(chunk.encode_data().is_ok());
    // A name that cannot be written comes before a name that is too long.
    let chunk =
        AtomChunk { is_unicode: false, atoms: vec![atom(&"x".repeat(256)), atom("\u{20ac}")] };
    assert!(matches!(chunk.encode_data(), Err(Error::InvalidString { .. })));
}

#[test]
fn a_name_of_more_than_255_bytes_cannot_be_written() {
    let chunk = AtomChunk { is_unicode: false, atoms: vec![atom(&"x".repeat(255))] };
    assert_eq!(chunk.encode_data().unwrap().len(), 4 + 1 + 255);
    let chunk = AtomChunk { is_unicode: false, atoms: vec![atom(&"x".repeat(256))] };
    assert!(is_malformed(&chunk.encode_data(), b"Atom"));
    // 128 characters of two bytes each.
    let chunk = AtomChunk { is_unicode: true, atoms: vec![atom(&"\u{e9}".repeat(128))] };
    assert!(is_malformed(&chunk.encode_data(), b"AtU8"));
    let chunk = AtomChunk { is_unicode: false, atoms: vec![atom(&"\u{e9}".repeat(128))] };
    assert_eq!(chunk.encode_data().unwrap().len(), 4 + 1 + 128);
    assert!(is_malformed(
        &StandardChunk::Atom(AtomChunk { is_unicode: true, atoms: vec![atom(&"x".repeat(300))] })
            .encode(),
        b"AtU8"
    ));
}

#[test]
fn tables_are_written_as_count_and_records() {
    let imports = ImpTChunk {
        imports: vec![
            Import { module: 1, function: 2, arity: 3 },
            Import { module: 0x0a0b_0c0d, function: 0, arity: u32::MAX },
        ],
    };
    assert_eq!(
        imports.encode_data().unwrap(),
        vec![
            0, 0, 0, 2, 0, 0, 0, 1, 0, 0, 0, 2, 0, 0, 0, 3, 10, 11, 12, 13, 0, 0, 0, 0, 255, 255,
            255, 255
        ]
    );
    let exports = ExpTChunk { exports: vec![Export { function: 1, arity: 2, label: 3 }] };
    assert_eq!(exports.encode_data().unwrap(), vec![0, 0, 0, 1, 0, 0, 0, 1, 0, 0, 0, 2, 0, 0, 0, 3]);
    let locals = LocTChunk { locals: vec![Local { function: 4, arity: 5, label: 6 }] };
    assert_eq!(locals.encode_data().unwrap(), vec![0, 0, 0, 1, 0, 0, 0, 4, 0, 0, 0, 5, 0, 0, 0, 6]);
    let functions = FunTChunk {
        functions: vec![Function {
            function: 1,
            arity: 2,
            label: 3,
            index: 4,
            num_free: 5,
            old_uniq: 0x0102_0304,
        }],
    };
    assert_eq!(
        functions.encode_data().unwrap(),
        vec![
            0, 0, 0, 1, 0, 0, 0, 1, 0, 0, 0, 2, 0, 0, 0, 3, 0, 0, 0, 4, 0, 0, 0, 5, 1, 2, 3, 4
        ]
    );
    assert_eq!(ImpTChunk { imports: vec![] }.encode_data().unwrap(), vec![0, 0, 0, 0]);
}

#[test]
fn code_strings_and_raw_bytes_are_written_as_they_stand() {
    let code = CodeChunk {
        info_size: 1,
        version: 2,
        opcode_max: 3,
        label_count: 4,
        function_count: 0x0506_0708,
        bytecode: vec![9, 9],
    };
    assert_eq!(
        code.encode_data().unwrap(),
        vec![0, 0, 0, 1, 0, 0, 0, 2, 0, 0, 0, 3, 0, 0, 0, 4, 5, 6, 7, 8, 9, 9]
    );
    assert_eq!(StrTChunk { strings: b"ab".to_vec() }.encode_data().unwrap(), b"ab".to_vec());
    assert_eq!(RawChunk { id: *b"Zzzz", data: vec![1, 2] }.encode_data().unwrap(), vec![1, 2]);
}

#[test]
fn entries_are_joined_behind_their_length_prefixes() {
    let entries = vec![b"ok".to_vec(), vec![], b"error".to_vec()];
    let mut out = vec![0xaa];
    assert!(join_entries(&mut out, &entries, false));
    assert_eq!(out, b"\xaa\x02ok\x00\x05error".to_vec());
    assert_eq!(split_entries(&out[1..], 3, false), Some(entries.clone()));
    let mut out = vec![];
    assert!(join_entries(&mut out, &entries, true));
    assert_eq!(out, b"\x00\x00\x00\x02ok\x00\x00\x00\x00\x00\x00\x00\x05error".to_vec());
    assert_eq!(split_entries(&out, 3, true), Some(entries));
    // An entry too long for one length byte: nothing is appended.
    let long = vec![b"ok".to_vec(), vec![0u8; 256]];
    let mut out = vec![0xaa];
    assert!(!join_entries(&mut out, &long, false));
    assert_eq!(out, vec![0xaa]);
    assert!(join_entries(&mut out, &long, true));
    assert_eq!(out.len(), 1 + 4 + 2 + 4 + 256);
}

#[test]
fn a_metadata_chunk_is_written_as_its_term() {
    let term = Term::from(eetf::Tuple::from(vec![atom_term("vsn"), atom_term("one")]));
    let expected = encoded(&term);
    assert_eq!(AttrChunk { term: term.clone() }.encode_data().unwrap(), expected);
    assert_eq!(CInfChunk { term: term.clone() }.encode_data().unwrap(), expected);
    assert_eq!(AbstChunk { term: term.clone() }.encode_data().unwrap(), expected);
    assert_eq!(DbgiChunk { term: term.clone() }.encode_data().unwrap(), expected);
    assert_eq!(DocsChunk { term: term.clone() }.encode_data().unwrap(), expected);
    assert_eq!(
        AttrChunk { term: atom_term("foo") }.encode_data().unwrap(),
        vec![131, 119, 3, 102, 111, 111]
    );
}

#[test]
fn a_term_that_the_codec_cannot_write_is_a_term_encode_error() {
    // A name of 70000 bytes is more than an atom can be written with.
    let term = atom_term(&"x".repeat(70_000));
    match (AttrChunk { term: term.clone() }).encode_data() {
        Err(Error::TermEncodeError { chunk, cause }) => {
            assert_eq!(chunk, Some(*b"Attr"));
            assert!(matches!(cause, eetf::EncodeError::TooLongAtomName(_)));
        }
        other => panic!("{:?}", other),
    }
    assert!(matches!(
        (CInfChunk { term: term.clone() }).encode_data(),
        Err(Error::TermEncodeError { chunk: Some(id), .. }) if &id == b"CInf"
    ));
    assert!(matches!(
        (AbstChunk { term: term.clone() }).encode_data(),
        Err(Error::TermEncodeError { chunk: Some(id), .. }) if &id == b"Abst"
    ));
    assert!(matches!(
        (DbgiChunk { term: term.clone() }).encode_data(),
        Err(Error::TermEncodeError { chunk: Some(id), .. }) if &id == b"Dbgi"
    ));
    assert!(matches!(
        (DocsChunk { term: term.clone() }).encode_data(),
        Err(Error::TermEncodeError { chunk: Some(id), .. }) if &id == b"Docs"
    ));
    let literals = LitTChunk { literals: vec![atom_term("ok"), term.clone()] };
    assert!(matches!(
        literals.encode_data(),
        Err(Error::TermEncodeError { chunk: Some(id), .. }) if &id == b"LitT"
    ));
    assert!(matches!(
        StandardChunk::LitT(literals).encode(),
        Err(Error::TermEncodeError { chunk: Some(id), .. }) if &id == b"LitT"
    ));
}

#[test]
fn the_codec_answer_for_a_written_term_is_passed_on() {
    assert_eq!(payload_or_error(b"Attr", Ok(vec![131, 106])).unwrap(), vec![131, 106]);
    let failure = eetf::EncodeError::TooLongAtomName(eetf::Atom::from("a"));
    assert!(matches!(
        payload_or_error(b"Docs", Err(failure)),
        Err(Error::TermEncodeError { chunk: Some(id), cause: eetf::EncodeError::TooLongAtomName(_) })
            if &id == b"Docs"
    ));
}

#[test]
fn a_literal_table_is_written_without_compression() {
    let terms = vec![atom_term("ok"), atom_term("error")];
    let chunk = LitTChunk { literals: terms.clone() };
    let payload = chunk.encode_data().unwrap();
    let mut expected = vec![0, 0, 0, 0, 0, 0, 0, 2];
    for term in &terms {
        let bytes = encoded(term);
        expected.extend_from_slice(&(bytes.len() as u32).to_be_bytes());
        expected.extend_from_slice(&bytes);
    }
    assert_eq!(payload, expected);
    assert_eq!(LitTChunk::decode_data(b"LitT", &payload).unwrap(), chunk);
    assert_eq!(LitTChunk { literals: vec![] }.encode_data().unwrap(), vec![0, 0, 0, 0, 0, 0, 0, 0]);
}

#[test]
fn written_terms_are_framed_as_a_literal_payload() {
    let entries = vec![vec![131, 106], vec![], vec![131, 97, 5]];
    assert_eq!(
        frame_literals(&entries).unwrap(),
        vec![0, 0, 0, 0, 0, 0, 0, 3, 0, 0, 0, 2, 131, 106, 0, 0, 0, 0, 0, 0, 0, 3, 131, 97, 5]
    );
    assert_eq!(frame_literals(&vec![]).unwrap(), vec![0, 0, 0, 0, 0, 0, 0, 0]);
}

#[test]
fn every_written_term_starts_with_the_version_byte() {
    let mut map = std::collections::HashMap::new();
    map.insert(atom_term("a"), atom_term("b"));
    map.insert(atom_term("c"), Term::from(eetf::FixInteger::from(-1)));
    let terms = vec![
        atom_term("ok"),
        Term::from(eetf::FixInteger::from(70_000)),
        Term::from(eetf::List::nil()),
        Term::from(eetf::Tuple::from(vec![])),
        Term::from(eetf::Binary::from(vec![])),
        Term::from(eetf::Map::from(map)),
    ];
    for term in &terms {
        for payload in [
            AttrChunk { term: term.clone() }.encode_data().unwrap(),
            CInfChunk { term: term.clone() }.encode_data().unwrap(),
            AbstChunk { term: term.clone() }.encode_data().unwrap(),
            DbgiChunk { term: term.clone() }.encode_data().unwrap(),
            DocsChunk { term: term.clone() }.encode_data().unwrap(),
        ] {
            assert!(payload.len() >= 1);
            assert_eq!(payload[0], 131);
            assert_eq!(&Term::decode(&payload[..]).unwrap(), term);
        }
    }
    // In a literal table each entry is a written term.
    let payload = LitTChunk { literals: terms.clone() }.encode_data().unwrap();
    assert_eq!(&payload[..8], &[0, 0, 0, 0, 0, 0, 0, 6]);
    let entries = split_entries(&payload[8..], 6, true).unwrap();
    for (entry, term) in entries.iter().zip(terms.iter()) {
        assert_eq!(entry[0], 131);
        assert_eq!(&Term::decode(&entry[..]).unwrap(), term);
    }
}

use beam_file::beam_file::{frame_chunk, split_chunks};
use beam_file::bytes::{padding_size, push_u32, read_u32};
use beam_file::chunk::{
    classify, AtomChunk, CodeChunk, FunTChunk, ImpTChunk, Kind, RawChunk, StandardChunk,
};
use beam_file::entries::{join_entries, split_entries};
use beam_file::error::{Error, IoCause};
use beam_file::parts::{Atom, Function, Import};
use beam_file::{RawBeamFile, StandardBeamFile};

/// A small generator of numbers that gives the same run every time.
struct Numbers(u64);

impl Numbers {
    fn next(&mut self) -> u32 {
        self.0 = self.0.wrapping_mul(6364136223846793005).wrapping_add(1442695040888963407);
        (self.0 >> 32) as u32
    }

    fn below(&mut self, bound: u32) -> u32 {
        self.next() % bound
    }

    fn some_bytes(&mut self, bound: u32) -> Vec<u8> {
        let len = self.below(bound);
        (0..len).map(|_| self.next() as u8).collect()
    }
}

#[test]
fn a_word_that_is_written_is_read_back() {
    let mut numbers = Numbers(1);
    for _ in 0..2000 {
        let v = numbers.next();
        let mut out = numbers.some_bytes(5);
        let at = out.len();
        push_u32(&mut out, v);
        assert_eq!(out[at..], v.to_be_bytes());
        assert_eq!(read_u32(&out, at), v);
    }
}

#[test]
fn padding_brings_every_length_to_a_multiple_of_four() {
    let mut numbers = Numbers(2);
    for len in (0..64u32).chain((0..2000).map(|_| numbers.next())) {
        let padding = padding_size(len);
        assert!(padding < 4);
        assert_eq!((len as u64 + padding as u64) % 4, 0);
    }
}

#[test]
fn entries_that_are_joined_are_split_again() {
    let mut numbers = Numbers(3);
    for round in 0..300 {
        let wide = round % 2 == 0;
        let count = numbers.below(6) as usize;
        let entries: Vec<Vec<u8>> =
            (0..count).map(|_| numbers.some_bytes(40)).collect();
        let mut joined = Vec::new();
        assert!(join_entries(&mut joined, &entries, wide));
        assert_eq!(split_entries(&joined, count as u32, wide), Some(entries.clone()));
        // One byte more or less, or another count, and the entries do not
        // use up the bytes.
        let mut longer = joined.clone();
        longer.push(0);
        assert_eq!(split_entries(&longer, count as u32, wide), None);
        assert_eq!(split_entries(&joined, count as u32 + 1, wide), None);
        if !joined.is_empty() {
            assert_eq!(split_entries(&joined[..joined.len() - 1], count as u32, wide), None);
        }
    }
}

#[test]
fn frames_that_follow_each_other_are_split_into_their_chunks() {
    let mut numbers = Numbers(4);
    for _ in 0..200 {
        let count = numbers.below(5) as usize;
        let chunks: Vec<RawChunk> = (0..count)
            .map(|_| {
                let id = [b'Z', numbers.next() as u8, numbers.next() as u8, numbers.next() as u8];
                RawChunk { id, data: numbers.some_bytes(30) }
            })
            .collect();
        let mut body = Vec::new();
        for chunk in &chunks {
            let frame = frame_chunk(&chunk.id, &chunk.data).unwrap();
            let padding = padding_size(chunk.data.len() as u32) as usize;
            assert_eq!(frame.len(), 8 + chunk.data.len() + padding);
            body.extend_from_slice(&frame);
        }
        assert_eq!(split_chunks(&body).unwrap(), chunks);

        let mut bytes = b"FOR1".to_vec();
        bytes.extend_from_slice(&((body.len() + 4) as u32).to_be_bytes());
        bytes.extend_from_slice(b"BEAM");
        bytes.extend_from_slice(&body);
        assert_eq!(RawBeamFile::from_bytes(&bytes).unwrap().chunks, chunks);
        let standard = StandardBeamFile::from_bytes(&bytes).unwrap();
        let kept: Vec<StandardChunk> = chunks
            .iter()
            .map(|c| StandardChunk::Unknown(RawChunk { id: c.id, data: c.data.clone() }))
            .collect();
        assert_eq!(standard.chunks, kept);
        // Any proper prefix of the body that ends inside a frame fails.
        if !body.is_empty() {
            let cut = numbers.below(body.len() as u32) as usize;
            let r = split_chunks(&body[..cut]);
            match r {
                Ok(found) => assert_eq!(found[..], chunks[..found.len()]),
                Err(e) => assert!(matches!(
                    e,
                    Error::Io { chunk: None, cause: IoCause::UnexpectedEof }
                )),
            }
        }
    }
}

#[test]
fn tables_that_are_written_are_read_back() {
    let mut numbers = Numbers(5);
    for _ in 0..200 {
        let count = numbers.below(8) as usize;
        let imports = ImpTChunk {
            imports: (0..count)
                .map(|_| Import {
                    module: numbers.next(),
                    function: numbers.next(),
                    arity: numbers.next(),
                })
                .collect(),
        };
        let payload = imports.encode_data().unwrap();
        assert_eq!(payload.len(), 4 + 12 * count);
        assert_eq!(ImpTChunk::decode_data(b"ImpT", &payload).unwrap(), imports);
        let functions = FunTChunk {
            functions: (0..count)
                .map(|_| Function {
                    function: numbers.next(),
                    arity: numbers.next(),
                    label: numbers.next(),
                    index: numbers.next(),
                    num_free: numbers.next(),
                    old_uniq: numbers.next(),
                })
                .collect(),
        };
        let payload = functions.encode_data().unwrap();
        assert_eq!(payload.len(), 4 + 24 * count);
        assert_eq!(FunTChunk::decode_data(b"FunT", &payload).unwrap(), functions);
        // Every other length is malformed.
        let other = numbers.below(4 + 24 * count as u32 + 30) as usize;
        if other != payload.len() {
            let mut changed = payload.clone();
            changed.resize(other, 0);
            assert!(matches!(
                FunTChunk::decode_data(b"FunT", &changed),
                Err(Error::Io { chunk: Some(_), cause: IoCause::Malformed })
            ));
        }
    }
}

#[test]
fn atom_tables_and_code_that_are_written_are_read_back() {
    let mut numbers = Numbers(6);
    for round in 0..200 {
        let unicode = round % 2 == 0;
        let count = numbers.below(6) as usize;
        let atoms: Vec<Atom> = (0..count)
            .map(|_| {
                let len = numbers.below(20);
                let name: String = (0..len)
                    .map(|_| {
                        let bound = if unicode { 0x800 } else { 0x100 };
                        char::from_u32(numbers.below(bound)).unwrap()
                    })
                    .collect();
                Atom { name }
            })
            .collect();
        let chunk = AtomChunk { is_unicode: unicode, atoms };
        let payload = chunk.encode_data().unwrap();
        let id = if unicode { b"AtU8" } else { b"Atom" };
        assert_eq!(AtomChunk::decode_data(id, &payload).unwrap(), chunk);

        let code = CodeChunk {
            info_size: numbers.next(),
            version: numbers.next(),
            opcode_max: numbers.next(),
            label_count: numbers.next(),
            function_count: numbers.next(),
            bytecode: numbers.some_bytes(50),
        };
        let payload = code.encode_data().unwrap();
        assert_eq!(CodeChunk::decode_data(b"Code", &payload).unwrap(), code);
    }
}

#[test]
fn a_chunk_under_an_id_that_is_not_known_keeps_any_payload() {
    let mut numbers = Numbers(7);
    let mut unknown = 0;
    for _ in 0..500 {
        let id = [
            b'A' + numbers.below(26) as u8,
            b'a' + numbers.below(26) as u8,
            b'a' + numbers.below(26) as u8,
            b'A' + numbers.below(60) as u8,
        ];
        let payload = numbers.some_bytes(64);
        if classify(&id) == Kind::Unknown {
            unknown += 1;
            assert_eq!(
                StandardChunk::decode_data(&id, &payload).unwrap(),
                StandardChunk::Unknown(RawChunk { id, data: payload })
            );
        }
    }
    assert!(unknown > 400);
}

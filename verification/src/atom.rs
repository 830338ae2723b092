//! The atom table: a count, then that many names, each behind one length
//! byte. The id of the chunk alone decides how the bytes of a name are read:
//! as Latin-1 under `Atom`, as UTF-8 under `AtU8`.
use vstd::prelude::*;
use vstd::slice::slice_to_vec;
use vstd::string::StrSliceExecFns;
use vstd::utf8::*;
use crate::bytes::{be_bytes, lemma_word_at_appended, push_u32, read_u32, word_at};
use crate::chunk::{decoded, same_id, AtomChunk, ChunkSource, Id, ATOM, ATU8};
use crate::entries::{
    entries_fit, join_entries, lemma_join_split, spec_entries, spec_join, split_entries, views,
};
use crate::error::{outcome, Error, Fault};
use crate::parts::{names_of, Atom};

verus! {

/// The characters that bytes spell in Latin-1: each byte is the code point
/// of one character.
pub open spec fn latin1(bytes: Seq<u8>) -> Seq<char> {
    Seq::new(bytes.len(), |i: int| bytes[i] as char)
}

/// Whether `bytes` can be read as a name. Every byte string is Latin-1.
pub open spec fn name_ok(bytes: Seq<u8>, unicode: bool) -> bool {
    unicode ==> valid_utf8(bytes)
}

/// The name that `bytes` spell.
pub open spec fn spec_name(bytes: Seq<u8>, unicode: bool) -> Seq<char> {
    if unicode {
        decode_utf8(bytes)
    } else {
        latin1(bytes)
    }
}

/// The names that the entries spell, in their order; `None` where one of
/// them is no name.
pub open spec fn spec_names(entries: Seq<Seq<u8>>, unicode: bool) -> Option<Seq<Seq<char>>> {
    if forall|i: int| 0 <= i < entries.len() ==> name_ok(#[trigger] entries[i], unicode) {
        Some(Seq::new(entries.len(), |i: int| spec_name(entries[i], unicode)))
    } else {
        None
    }
}

/// What the payload of an atom table with the id `id` decodes to. A payload
/// whose entries do not use it up exactly is malformed, whatever its names
/// are; one of the right shape with a name that is no text is an invalid
/// string.
pub open spec fn spec_atom_table(id: Seq<u8>, payload: Seq<u8>, unicode: bool) -> Result<
    ChunkSource,
    Fault,
> {
    if payload.len() < 4 {
        Err(Fault::malformed(id))
    } else {
        match spec_entries(
            payload.subrange(4, payload.len() as int),
            word_at(payload, 0) as nat,
            false,
        ) {
            None => Err(Fault::malformed(id)),
            Some(entries) => match spec_names(entries, unicode) {
                None => Err(Fault::InvalidString { chunk: Some(id) }),
                Some(names) => Ok(ChunkSource::Atom { is_unicode: unicode, names }),
            },
        }
    }
}

/// What a chunk with the id `id` and the payload `payload` decodes to when
/// an atom table is asked for.
pub open spec fn spec_atom_chunk(id: Seq<u8>, payload: Seq<u8>) -> Result<ChunkSource, Fault> {
    if id == ATOM@ {
        spec_atom_table(id, payload, false)
    } else if id == ATU8@ {
        spec_atom_table(id, payload, true)
    } else {
        Err(Fault::UnexpectedChunk { found: Some(id), expected: ATU8@ })
    }
}

/// Reads bytes as Latin-1.
pub fn latin1_string(bytes: &[u8]) -> (r: String)
    ensures
        r@ == latin1(bytes@),
{
    let mut r = String::new();
    let mut i: usize = 0;
    while i < bytes.len()
        invariant
            i <= bytes@.len(),
            r@ == latin1(bytes@.subrange(0, i as int)),
        decreases bytes@.len() - i,
    {
        r.push(bytes[i] as char);
        i += 1;
    }
    r
}

/// Reads the bytes of one name.
pub fn decode_name(bytes: &[u8], unicode: bool) -> (r: Result<String, core::str::Utf8Error>)
    ensures
        r is Ok <==> name_ok(bytes@, unicode),
        r is Ok ==> r->Ok_0@ == spec_name(bytes@, unicode),
{
    if unicode {
        match core::str::from_utf8(bytes) {
            Ok(s) => Ok(s.to_owned()),
            Err(e) => Err(e),
        }
    } else {
        Ok(latin1_string(bytes))
    }
}

impl AtomChunk {
    /// Decodes the payload of an atom table that stands under the id `id`.
    pub fn decode_data(id: &Id, payload: &[u8]) -> (r: Result<AtomChunk, Error>)
        ensures
            decoded(outcome(r), spec_atom_chunk(id@, payload@)),
    {
        let unicode = if same_id(id, &ATOM) {
            false
        } else if same_id(id, &ATU8) {
            true
        } else {
            return Err(Error::UnexpectedChunk { found: Some(*id), expected: ATU8 });
        };
        if payload.len() < 4 {
            return Err(Error::malformed(id));
        }
        let count = read_u32(payload, 0);
        let body = vstd::slice::slice_subrange(payload, 4, payload.len());
        let entries = match split_entries(body, count, false) {
            Some(entries) => entries,
            None => {
                return Err(Error::malformed(id));
            },
        };
        let mut atoms: Vec<Atom> = Vec::new();
        let mut i: usize = 0;
        while i < entries.len()
            invariant
                i <= entries@.len(),
                atoms@.len() == i,
                payload@.len() >= 4,
                spec_atom_chunk(id@, payload@) == spec_atom_table(id@, payload@, unicode),
                spec_entries(
                    payload@.subrange(4, payload@.len() as int),
                    word_at(payload@, 0) as nat,
                    false,
                ) == Some(views(entries@)),
                forall|j: int| 0 <= j < i ==> name_ok(#[trigger] views(entries@)[j], unicode),
                forall|j: int|
                    0 <= j < i ==> (#[trigger] atoms@[j])@ == spec_name(views(entries@)[j], unicode),
            decreases entries@.len() - i,
        {
            match decode_name(entries[i].as_slice(), unicode) {
                Ok(name) => {
                    atoms.push(Atom { name });
                },
                Err(e) => {
                    assert(!name_ok(views(entries@)[i as int], unicode));
                    return Err(Error::InvalidString { chunk: Some(*id), cause: Some(e) });
                },
            }
            i += 1;
        }
        assert(names_of(atoms@) =~= spec_names(views(entries@), unicode)->Some_0);
        Ok(AtomChunk { is_unicode: unicode, atoms })
    }
}

/// Whether a name can be written: every name is UTF-8; a name is Latin-1
/// where each of its characters has a code point below 256.
pub open spec fn name_writes(name: Seq<char>, unicode: bool) -> bool {
    unicode || forall|i: int| 0 <= i < name.len() ==> (#[trigger] name[i]) as u32 <= 0xff
}

/// The bytes that spell a name.
pub open spec fn spec_name_bytes(name: Seq<char>, unicode: bool) -> Seq<u8> {
    if unicode {
        encode_utf8(name)
    } else {
        Seq::new(name.len(), |i: int| name[i] as u8)
    }
}

/// The bytes that spell each of the names.
pub open spec fn spec_names_bytes(names: Seq<Seq<char>>, unicode: bool) -> Seq<Seq<u8>> {
    Seq::new(names.len(), |i: int| spec_name_bytes(names[i], unicode))
}

/// The id of the atom table that reads its names in this way.
pub open spec fn atom_id(unicode: bool) -> Seq<u8> {
    if unicode {
        ATU8@
    } else {
        ATOM@
    }
}

/// The payload of an atom table with these names. A name that cannot be
/// written in the table's encoding is an invalid string; more names than a
/// count word can say, or a name of more than 255 bytes, make a chunk that
/// does not have the shape of its kind.
pub open spec fn spec_encode_atoms(names: Seq<Seq<char>>, unicode: bool) -> Result<
    Seq<u8>,
    Fault,
> {
    if !(forall|i: int| 0 <= i < names.len() ==> name_writes(#[trigger] names[i], unicode)) {
        Err(Fault::InvalidString { chunk: Some(atom_id(unicode)) })
    } else if names.len() > 0xffff_ffff || !entries_fit(spec_names_bytes(names, unicode), false) {
        Err(Fault::malformed(atom_id(unicode)))
    } else {
        Ok(be_bytes(names.len() as u32) + spec_join(spec_names_bytes(names, unicode), false))
    }
}

/// A character with a code point below 256 is the character that its one
/// byte spells in Latin-1.
pub proof fn lemma_latin1_char(c: char)
    requires
        c as u32 <= 0xff,
    ensures
        ((c as u8) as char) == c,
{
}

/// An atom table that is written and read again is the same table.
pub proof fn lemma_atoms_round_trip(names: Seq<Seq<char>>, unicode: bool)
    ensures
        spec_encode_atoms(names, unicode) matches Ok(payload) ==> spec_atom_chunk(
            atom_id(unicode),
            payload,
        ) == Ok::<ChunkSource, Fault>(ChunkSource::Atom { is_unicode: unicode, names }),
{
    broadcast use {encode_utf8_valid_utf8, encode_utf8_decode_utf8};

    if let Ok(payload) = spec_encode_atoms(names, unicode) {
        let entries = spec_names_bytes(names, unicode);
        let joined = spec_join(entries, false);
        lemma_word_at_appended(Seq::<u8>::empty(), names.len() as u32, joined);
        assert(payload.subrange(4, payload.len() as int) =~= joined);
        lemma_join_split(entries, false);
        assert forall|i: int| 0 <= i < entries.len() implies name_ok(
            #[trigger] entries[i],
            unicode,
        ) && spec_name(entries[i], unicode) == names[i] by {
            if !unicode {
                let name = names[i];
                let bytes = entries[i];
                assert forall|k: int| 0 <= k < name.len() implies #[trigger] latin1(bytes)[k]
                    == name[k] by {
                    lemma_latin1_char(name[k]);
                }
            }
        }
        assert(spec_names(entries, unicode)->Some_0 =~= names);
    }
}

/// Writes the bytes of one name, where it can be written.
pub fn encode_name(name: &str, unicode: bool) -> (r: Option<Vec<u8>>)
    ensures
        r is Some <==> name_writes(name@, unicode),
        r is Some ==> r->Some_0@ == spec_name_bytes(name@, unicode),
{
    if unicode {
        return Some(slice_to_vec(name.as_bytes()));
    }
    let n: usize = name.unicode_len();
    let mut out: Vec<u8> = Vec::new();
    let mut i: usize = 0;
    while i < n
        invariant
            i <= n,
            n == name@.len(),
            !unicode,
            forall|j: int| 0 <= j < i ==> (#[trigger] name@[j]) as u32 <= 0xff,
            out@ == Seq::new(i as nat, |j: int| name@[j] as u8),
        decreases n - i,
    {
        let c: char = name.get_char(i);
        if c as u32 > 0xff {
            return None;
        }
        out.push(c as u8);
        i += 1;
    }
    Some(out)
}

impl AtomChunk {
    /// Writes the payload of this atom table.
    pub fn encode_data(&self) -> (r: Result<Vec<u8>, Error>)
        ensures
            outcome(r) == spec_encode_atoms(names_of(self.atoms@), self.is_unicode),
    {
        let unicode = self.is_unicode;
        let id = if unicode {
            ATU8
        } else {
            ATOM
        };
        let ghost names = names_of(self.atoms@);
        let mut entries: Vec<Vec<u8>> = Vec::new();
        let mut i: usize = 0;
        while i < self.atoms.len()
            invariant
                i <= self.atoms@.len(),
                names == names_of(self.atoms@),
                unicode == self.is_unicode,
                id@ == atom_id(unicode),
                forall|j: int| 0 <= j < i ==> name_writes(#[trigger] names[j], unicode),
                views(entries@) == Seq::new(i as nat, |j: int| spec_name_bytes(names[j], unicode)),
            decreases self.atoms@.len() - i,
        {
            match encode_name(self.atoms[i].name.as_str(), unicode) {
                Some(bytes) => {
                    let ghost before = views(entries@);
                    entries.push(bytes);
                    assert(views(entries@) =~= before.push(bytes@));
                },
                None => {
                    assert(!name_writes(names[i as int], unicode));
                    return Err(Error::InvalidString { chunk: Some(id), cause: None });
                },
            }
            i += 1;
        }
        if self.atoms.len() > 0xffff_ffff {
            return Err(Error::malformed(&id));
        }
        let mut out: Vec<u8> = Vec::new();
        push_u32(&mut out, self.atoms.len() as u32);
        if join_entries(&mut out, &entries, false) {
            Ok(out)
        } else {
            Err(Error::malformed(&id))
        }
    }
}

} // verus!

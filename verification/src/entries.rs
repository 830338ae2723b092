//! Runs of entries that each carry their own length: the names of an atom
//! table behind one length byte each, the terms of a literal table behind a
//! length word each.
use vstd::prelude::*;
use crate::bytes::{
    be_bytes, copy_range, lemma_word_at_appended, push_bytes, push_u32, read_u32, word_at,
};

verus! {

/// The number of bytes of a length prefix: four where `wide`, else one.
pub open spec fn prefix_width(wide: bool) -> int {
    if wide {
        4
    } else {
        1
    }
}

/// The length that the prefix at the start of `data` gives.
pub open spec fn prefix_value(data: Seq<u8>, wide: bool) -> int
    recommends
        data.len() >= prefix_width(wide),
{
    if wide {
        word_at(data, 0) as int
    } else {
        data[0] as int
    }
}

/// The `count` entries that `data` is made of, each without its length
/// prefix; `None` unless `data` holds exactly that many entries and nothing
/// else.
pub open spec fn spec_entries(data: Seq<u8>, count: nat, wide: bool) -> Option<Seq<Seq<u8>>>
    decreases count,
{
    if count == 0 {
        if data.len() == 0 {
            Some(Seq::empty())
        } else {
            None
        }
    } else if data.len() < prefix_width(wide) {
        None
    } else {
        let end = prefix_width(wide) + prefix_value(data, wide);
        if data.len() < end {
            None
        } else {
            prepend(
                seq![data.subrange(prefix_width(wide), end)],
                spec_entries(data.subrange(end, data.len() as int), (count - 1) as nat, wide),
            )
        }
    }
}

/// `head` in front of the entries `rest`, where there are any.
pub open spec fn prepend<T>(head: Seq<T>, rest: Option<Seq<T>>) -> Option<Seq<T>> {
    match rest {
        Some(rest) => Some(head + rest),
        None => None,
    }
}

/// What a vector of byte vectors holds.
pub open spec fn views(v: Seq<Vec<u8>>) -> Seq<Seq<u8>> {
    Seq::new(v.len(), |i: int| v[i]@)
}

/// Splits `data` into `count` length-prefixed entries. The entries must use
/// up `data` exactly.
pub fn split_entries(data: &[u8], count: u32, wide: bool) -> (r: Option<Vec<Vec<u8>>>)
    ensures
        match r {
            Some(v) => spec_entries(data@, count as nat, wide) == Some(views(v@)),
            None => spec_entries(data@, count as nat, wide) is None,
        },
{
    let width: usize = if wide {
        4
    } else {
        1
    };
    let mut found: Vec<Vec<u8>> = Vec::new();
    let mut pos: usize = 0;
    let mut i: u32 = 0;
    assert(data@.subrange(0, data@.len() as int) =~= data@);
    while i < count
        invariant
            i <= count,
            pos <= data@.len(),
            width == prefix_width(wide),
            spec_entries(data@, count as nat, wide) == prepend(
                views(found@),
                spec_entries(
                    data@.subrange(pos as int, data@.len() as int),
                    (count - i) as nat,
                    wide,
                ),
            ),
        decreases count - i,
    {
        let ghost rest = data@.subrange(pos as int, data@.len() as int);
        if data.len() - pos < width {
            return None;
        }
        let n: usize = if wide {
            read_u32(data, pos) as usize
        } else {
            data[pos] as usize
        };
        if data.len() - pos - width < n {
            return None;
        }
        let entry = copy_range(data, pos + width, pos + width + n);
        proof {
            let end = width + n;
            assert(rest.subrange(width as int, end as int) =~= entry@);
            assert(rest.subrange(end as int, rest.len() as int) =~= data@.subrange(
                pos + end,
                data@.len() as int,
            ));
        }
        found.push(entry);
        pos = pos + width + n;
        i = i + 1;
    }
    if pos == data.len() {
        Some(found)
    } else {
        None
    }
}

/// The greatest length that a prefix can give.
pub open spec fn prefix_max(wide: bool) -> int {
    if wide {
        0xffff_ffff
    } else {
        0xff
    }
}

/// The prefix that gives the length `len`.
pub open spec fn spec_prefix(len: int, wide: bool) -> Seq<u8> {
    if wide {
        be_bytes(len as u32)
    } else {
        seq![len as u8]
    }
}

/// Whether each of the entries is short enough for its prefix.
pub open spec fn entries_fit(entries: Seq<Seq<u8>>, wide: bool) -> bool {
    forall|i: int| 0 <= i < entries.len() ==> (#[trigger] entries[i]).len() <= prefix_max(wide)
}

/// The entries one after the other, each behind its length prefix.
pub open spec fn spec_join(entries: Seq<Seq<u8>>, wide: bool) -> Seq<u8>
    decreases entries.len(),
{
    if entries.len() == 0 {
        Seq::empty()
    } else {
        spec_join(entries.drop_last(), wide) + spec_prefix(entries.last().len() as int, wide)
            + entries.last()
    }
}

/// Joined entries start with the first entry behind its prefix.
pub proof fn lemma_join_front(entries: Seq<Seq<u8>>, wide: bool)
    requires
        entries.len() > 0,
    ensures
        spec_join(entries, wide) == spec_prefix(entries[0].len() as int, wide) + entries[0]
            + spec_join(entries.subrange(1, entries.len() as int), wide),
    decreases entries.len(),
{
    let rest = entries.subrange(1, entries.len() as int);
    if entries.len() == 1 {
        assert(spec_join(entries.drop_last(), wide) =~= Seq::<u8>::empty());
    } else {
        lemma_join_front(entries.drop_last(), wide);
        assert(entries.drop_last().subrange(1, entries.len() - 1) =~= rest.drop_last());
    }
}

/// Entries that are joined, each short enough for its prefix, are split
/// again into the same entries.
pub proof fn lemma_join_split(entries: Seq<Seq<u8>>, wide: bool)
    requires
        entries_fit(entries, wide),
    ensures
        spec_entries(spec_join(entries, wide), entries.len(), wide) == Some(entries),
    decreases entries.len(),
{
    if entries.len() == 0 {
    } else {
        let rest = entries.subrange(1, entries.len() as int);
        let data = spec_join(entries, wide);
        let n = entries[0].len() as int;
        let width = prefix_width(wide);
        lemma_join_front(entries, wide);
        lemma_join_split(rest, wide);
        if wide {
            lemma_word_at_appended(
                Seq::<u8>::empty(),
                n as u32,
                entries[0] + spec_join(rest, wide),
            );
        }
        assert(data.subrange(width, width + n) =~= entries[0]);
        assert(data.subrange(width + n, data.len() as int) =~= spec_join(rest, wide));
    }
}

/// Appends the entries to `out`, each behind its length prefix. Nothing is
/// appended unless each entry is short enough for its prefix.
pub fn join_entries(out: &mut Vec<u8>, entries: &Vec<Vec<u8>>, wide: bool) -> (r: bool)
    ensures
        r == entries_fit(views(entries@), wide),
        r ==> final(out)@ == old(out)@ + spec_join(views(entries@), wide),
        !r ==> final(out)@ == old(out)@,
{
    let mut i: usize = 0;
    while i < entries.len()
        invariant
            i <= entries@.len(),
            forall|j: int| 0 <= j < i ==> (#[trigger] views(entries@)[j]).len() <= prefix_max(wide),
        decreases entries@.len() - i,
    {
        let n: usize = entries[i].len();
        if (wide && n > 0xffff_ffff) || (!wide && n > 0xff) {
            assert(views(entries@)[i as int].len() > prefix_max(wide));
            return false;
        }
        i += 1;
    }
    let mut i: usize = 0;
    while i < entries.len()
        invariant
            i <= entries@.len(),
            entries_fit(views(entries@), wide),
            out@ == old(out)@ + spec_join(views(entries@).subrange(0, i as int), wide),
        decreases entries@.len() - i,
    {
        let n: usize = entries[i].len();
        if wide {
            push_u32(out, n as u32);
        } else {
            out.push(n as u8);
        }
        push_bytes(out, entries[i].as_slice());
        proof {
            let head = views(entries@).subrange(0, i + 1);
            assert(head.drop_last() =~= views(entries@).subrange(0, i as int));
        }
        i += 1;
    }
    assert(views(entries@).subrange(0, i as int) =~= views(entries@));
    true
}

} // verus!

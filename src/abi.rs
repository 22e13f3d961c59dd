//! The interface descriptor: a bare concatenation of records
//! `[opcode][name length][name bytes]`, one for each exported function, with
//! opcodes counted from 1 in declaration order.
use vstd::prelude::*;
use vstd::utf8::encode_utf8;

verus! {

/// The most functions a descriptor can list: an opcode is one byte, and 0 is
/// never used.
pub const MAX_FUNCTIONS: usize = 255;

/// The record that describes one exported function: its opcode, the length of
/// its name taken modulo 256, and the name's bytes as they are.
pub open spec fn record(opcode: u8, name: Seq<u8>) -> Seq<u8> {
    seq![opcode, (name.len() % 256) as u8] + name
}

/// The descriptor of the names `names`, whose first record has the opcode
/// `first` and each following one the next opcode.
pub open spec fn descriptor_from(names: Seq<Seq<u8>>, first: nat) -> Seq<u8>
    decreases names.len(),
{
    if names.len() == 0 {
        Seq::empty()
    } else {
        record(first as u8, names[0]) + descriptor_from(names.drop_first(), first + 1)
    }
}

/// The UTF-8 bytes of each name.
pub open spec fn utf8_names(names: Seq<Seq<char>>) -> Seq<Seq<u8>> {
    names.map_values(|n: Seq<char>| encode_utf8(n))
}

/// The descriptor of the function names `names`, in order, opcodes from 1.
pub open spec fn descriptor(names: Seq<Seq<char>>) -> Seq<u8> {
    descriptor_from(utf8_names(names), 1)
}

/// The text of each string.
pub open spec fn texts(v: Seq<String>) -> Seq<Seq<char>> {
    v.map_values(|s: String| s@)
}

/// One record read back from a descriptor.
pub struct AbiEntry {
    pub opcode: u8,
    pub name: Vec<u8>,
}

/// The records of `bytes`, read from the front; `None` where the bytes do not
/// split into whole records.
pub open spec fn decoded(bytes: Seq<u8>) -> Option<Seq<(u8, Seq<u8>)>>
    decreases bytes.len(),
{
    if bytes.len() == 0 {
        Some(Seq::empty())
    } else if bytes.len() < 2 || bytes.len() < 2 + bytes[1] {
        None
    } else {
        let end = 2 + bytes[1];
        match decoded(bytes.subrange(end, bytes.len() as int)) {
            Some(rest) => Some(seq![(bytes[0], bytes.subrange(2, end))] + rest),
            None => None,
        }
    }
}

/// The records that a descriptor of `names` lists: opcodes from `first` on,
/// each with its name.
pub open spec fn entries_from(names: Seq<Seq<u8>>, first: nat) -> Seq<(u8, Seq<u8>)> {
    Seq::new(names.len(), |i: int| ((first + i) as u8, names[i]))
}

/// Each entry as its opcode and name bytes.
pub open spec fn entry_views(v: Seq<AbiEntry>) -> Seq<(u8, Seq<u8>)> {
    v.map_values(|e: AbiEntry| (e.opcode, e.name@))
}

proof fn lemma_descriptor_push(names: Seq<Seq<u8>>, name: Seq<u8>, first: nat)
    requires
        first + names.len() <= 255,
    ensures
        descriptor_from(names.push(name), first) == descriptor_from(names, first) + record(
            (first + names.len()) as u8,
            name,
        ),
    decreases names.len(),
{
    if names.len() == 0 {
        assert(names.push(name).drop_first() =~= Seq::<Seq<u8>>::empty());
        assert(names.push(name)[0] == name);
        assert(descriptor_from(Seq::<Seq<u8>>::empty(), first + 1) == Seq::<u8>::empty());
        assert(record(first as u8, name) + Seq::empty() =~= record(first as u8, name));
        assert(descriptor_from(names.push(name), first) =~= record(first as u8, name));
    } else {
        assert(names.push(name).drop_first() =~= names.drop_first().push(name));
        lemma_descriptor_push(names.drop_first(), name, first + 1);
        assert(descriptor_from(names.push(name), first) =~= descriptor_from(names, first) + record(
            (first + names.len()) as u8,
            name,
        ));
    }
}

/// Encodes the function names `names`, in order, as a descriptor: for the
/// function at index `i` the opcode `i + 1`, the length of its UTF-8 name
/// modulo 256, and the name's bytes.
pub fn encode_descriptor(names: &Vec<String>) -> (r: Vec<u8>)
    requires
        names.len() <= MAX_FUNCTIONS,
    ensures
        r@ == descriptor(texts(names@)),
{
    let ghost all = utf8_names(texts(names@));
    let mut out: Vec<u8> = Vec::new();
    let mut i: usize = 0;
    while i < names.len()
        invariant
            i <= names.len() <= MAX_FUNCTIONS,
            all == utf8_names(texts(names@)),
            out@ == descriptor_from(all.take(i as int), 1),
        decreases names.len() - i,
    {
        let bytes = names[i].as_str().as_bytes();
        let opcode = (i + 1) as u8;
        out.push(opcode);
        out.push((bytes.len() % 256) as u8);
        let ghost before = out@;
        out.extend_from_slice(bytes);
        proof {
            assert(out@ =~= before + bytes@);
            assert(all.take(i + 1) =~= all.take(i as int).push(all[i as int]));
            lemma_descriptor_push(all.take(i as int), all[i as int], 1);
        }
        i = i + 1;
    }
    proof {
        assert(all.take(i as int) =~= all);
    }
    out
}

proof fn lemma_decoded_record(name: Seq<u8>, opcode: u8, rest: Seq<u8>)
    requires
        name.len() <= 255,
    ensures
        decoded(record(opcode, name) + rest) == match decoded(rest) {
            Some(r) => Some(seq![(opcode, name)] + r),
            None => None::<Seq<(u8, Seq<u8>)>>,
        },
{
    let bytes = record(opcode, name) + rest;
    assert(bytes[1] == name.len());
    assert(bytes.subrange(2 + name.len() as int, bytes.len() as int) =~= rest);
    assert(bytes.subrange(2, 2 + name.len() as int) =~= name);
}

proof fn lemma_decoded_descriptor_from(names: Seq<Seq<u8>>, first: nat)
    requires
        first >= 1,
        first + names.len() <= 256,
        forall|i: int| 0 <= i < names.len() ==> #[trigger] names[i].len() <= 255,
    ensures
        decoded(descriptor_from(names, first)) == Some(entries_from(names, first)),
    decreases names.len(),
{
    if names.len() == 0 {
        assert(entries_from(names, first) =~= Seq::empty());
    } else {
        let tail = names.drop_first();
        assert forall|i: int| 0 <= i < tail.len() implies #[trigger] tail[i].len() <= 255 by {
            assert(tail[i] == names[i + 1]);
        }
        lemma_decoded_descriptor_from(tail, first + 1);
        lemma_decoded_record(names[0], first as u8, descriptor_from(tail, first + 1));
        assert(entries_from(names, first) =~= seq![(first as u8, names[0])] + entries_from(
            tail,
            first + 1,
        ));
    }
}

/// Reading back the descriptor of up to 255 names, none longer than 255
/// bytes, gives one record per name, in order, with the opcodes 1, 2, ... and
/// each name's exact bytes.
pub proof fn lemma_descriptor_round_trip(names: Seq<Seq<char>>)
    requires
        names.len() <= MAX_FUNCTIONS,
        forall|i: int| 0 <= i < names.len() ==> #[trigger] encode_utf8(names[i]).len() <= 255,
    ensures
        decoded(descriptor(names)) == Some(entries_from(utf8_names(names), 1)),
        entries_from(utf8_names(names), 1).len() == names.len(),
        forall|i: int|
            0 <= i < names.len() ==> #[trigger] entries_from(utf8_names(names), 1)[i] == (
                (i + 1) as u8,
                encode_utf8(names[i]),
            ),
{
    let u = utf8_names(names);
    assert forall|i: int| 0 <= i < u.len() implies #[trigger] u[i].len() <= 255 by {
        assert(u[i] == encode_utf8(names[i]));
    }
    lemma_decoded_descriptor_from(u, 1);
}

/// Splits `bytes` into records. Returns `None` where the bytes do not split
/// into whole records (a length byte runs past the end).
pub fn decode_descriptor(bytes: &[u8]) -> (r: Option<Vec<AbiEntry>>)
    ensures
        match r {
            Some(v) => decoded(bytes@) == Some(entry_views(v@)),
            None => decoded(bytes@) is None,
        },
{
    let mut out: Vec<AbiEntry> = Vec::new();
    let mut pos: usize = 0;
    proof {
        assert(bytes@.subrange(0, bytes@.len() as int) =~= bytes@);
        match decoded(bytes@) {
            Some(all) => assert(entry_views(out@) + all =~= all),
            None => {},
        }
    }
    while pos < bytes.len()
        invariant
            pos <= bytes.len(),
            decoded(bytes@) == match decoded(bytes@.subrange(pos as int, bytes@.len() as int)) {
                Some(rest) => Some(entry_views(out@) + rest),
                None => None::<Seq<(u8, Seq<u8>)>>,
            },
        decreases bytes.len() - pos,
    {
        let ghost tail = bytes@.subrange(pos as int, bytes@.len() as int);
        if bytes.len() - pos < 2 {
            return None;
        }
        let len = bytes[pos + 1] as usize;
        if bytes.len() - pos - 2 < len {
            return None;
        }
        let end = pos + 2 + len;
        let mut name: Vec<u8> = Vec::new();
        let mut k: usize = pos + 2;
        while k < end
            invariant
                pos + 2 <= k <= end <= bytes.len(),
                name@ == bytes@.subrange(pos + 2, k as int),
            decreases end - k,
        {
            name.push(bytes[k]);
            proof {
                assert(name@ =~= bytes@.subrange(pos + 2, k + 1));
            }
            k = k + 1;
        }
        let ghost old_out = out@;
        out.push(AbiEntry { opcode: bytes[pos], name });
        proof {
            assert(tail.subrange(2 + tail[1], tail.len() as int) =~= bytes@.subrange(
                end as int,
                bytes@.len() as int,
            ));
            assert(tail.subrange(2, 2 + tail[1]) =~= bytes@.subrange(pos + 2, end as int));
            assert(entry_views(out@) =~= entry_views(old_out).push((bytes[pos as int], name@)));
            match decoded(bytes@.subrange(end as int, bytes@.len() as int)) {
                Some(rest) => {
                    assert(entry_views(out@) + rest =~= entry_views(old_out) + (seq![
                        (bytes[pos as int], name@),
                    ] + rest));
                },
                None => {},
            }
        }
        pos = end;
    }
    proof {
        assert(bytes@.subrange(pos as int, bytes@.len() as int) =~= Seq::<u8>::empty());
        assert(entry_views(out@) + Seq::empty() =~= entry_views(out@));
    }
    Some(out)
}

} // verus!

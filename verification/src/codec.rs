//! The envelope codec: the crate's wire format.
//!
//! A buffer is a sequence of entries, each a named field: an 8-byte
//! little-endian length, the field name as UTF-8 text, another 8-byte
//! little-endian length, and the field's value cell, an opaque byte string.
//! Field names are the addressing key; the order of entries is preserved.
//!
//! Value cells carry one leading tag byte that names the shape of the cell:
//! a 64-bit signed integer, UTF-8 text, a nested record (itself an entry
//! sequence), or a link reference.

use vstd::prelude::*;
use vstd::bytes::{
    spec_u64_from_le_bytes, spec_u64_to_le_bytes, u64_from_le_bytes, u64_to_le_bytes,
    lemma_auto_spec_u64_to_from_le_bytes,
};
use vstd::slice::{slice_index_get, slice_subrange, slice_to_vec};
use vstd::utf8::{valid_utf8, decode_utf8, encode_utf8};
use crate::bytes_util::push_bytes;

verus! {

broadcast use vstd::utf8::encode_utf8_valid_utf8, vstd::utf8::encode_utf8_decode_utf8;

/// Tag byte of a cell holding a 64-bit signed integer.
pub const TAG_INT64: u8 = 1;

/// Tag byte of a cell holding UTF-8 text.
pub const TAG_TEXT: u8 = 2;

/// Tag byte of a cell holding a nested record (an entry sequence).
pub const TAG_RECORD: u8 = 3;

/// Tag byte of a cell holding a string-to-string map.
pub const TAG_MAP: u8 = 4;

/// Tag byte of a cell holding an opaque link reference.
pub const TAG_LINK: u8 = 5;

/// One named field of an envelope: a name and an encoded value cell.
#[derive(Debug)]
pub struct Entry {
    pub name: String,
    pub value: Vec<u8>,
}

/// Mathematical model of an [`Entry`].
#[verifier::ext_equal]
pub struct EntryV {
    pub name: Seq<char>,
    pub value: Seq<u8>,
}

impl View for Entry {
    type V = EntryV;

    open spec fn view(&self) -> EntryV {
        EntryV { name: self.name@, value: self.value@ }
    }
}

/// The models of a sequence of entries.
pub open spec fn views_of(s: Seq<Entry>) -> Seq<EntryV> {
    s.map_values(|e: Entry| e@)
}

/// An entry whose name and value fit the wire format's 64-bit lengths.
pub open spec fn entry_wf(e: EntryV) -> bool {
    &&& encode_utf8(e.name).len() < 0x1_0000_0000_0000_0000
    &&& e.value.len() < 0x1_0000_0000_0000_0000
}

/// All entries of a sequence fit the wire format.
pub open spec fn entries_wf(es: Seq<EntryV>) -> bool {
    forall|i: int| 0 <= i < es.len() ==> entry_wf(#[trigger] es[i])
}

/// The encoding of one entry.
pub open spec fn entry_bytes(e: EntryV) -> Seq<u8> {
    spec_u64_to_le_bytes(encode_utf8(e.name).len() as u64) + encode_utf8(e.name)
        + spec_u64_to_le_bytes(e.value.len() as u64) + e.value
}

/// The encoding of an entry sequence: the entries' encodings in order.
pub open spec fn entries_bytes(es: Seq<EntryV>) -> Seq<u8>
    decreases es.len(),
{
    if es.len() == 0 {
        Seq::empty()
    } else {
        entry_bytes(es[0]) + entries_bytes(es.drop_first())
    }
}

/// The parse of a buffer as an entry sequence, or `None` where the buffer
/// is not a well-formed envelope. The whole buffer must be consumed.
pub open spec fn parse_entries(b: Seq<u8>) -> Option<Seq<EntryV>>
    decreases b.len(),
{
    if b.len() == 0 {
        Some(Seq::empty())
    } else if b.len() < 8 {
        None
    } else {
        let nlen = spec_u64_from_le_bytes(b.subrange(0, 8)) as int;
        if b.len() < 16 + nlen {
            None
        } else {
            let name_bytes = b.subrange(8, 8 + nlen);
            if !valid_utf8(name_bytes) {
                None
            } else {
                let vlen = spec_u64_from_le_bytes(b.subrange(8 + nlen, 16 + nlen)) as int;
                if b.len() < 16 + nlen + vlen {
                    None
                } else {
                    match parse_entries(b.subrange(16 + nlen + vlen, b.len() as int)) {
                        Option::None => None,
                        Option::Some(rest) => Some(
                            seq![
                                EntryV {
                                    name: decode_utf8(name_bytes),
                                    value: b.subrange(16 + nlen, 16 + nlen + vlen),
                                },
                            ] + rest,
                        ),
                    }
                }
            }
        }
    }
}

/// Appending one entry to a sequence appends its encoding to the buffer.
pub proof fn lemma_entries_bytes_snoc(es: Seq<EntryV>, e: EntryV)
    ensures
        entries_bytes(es.push(e)) == entries_bytes(es) + entry_bytes(e),
    decreases es.len(),
{
    if es.len() == 0 {
        reveal_with_fuel(entries_bytes, 2);
        assert(es.push(e)[0] == e);
        assert(es.push(e).drop_first() =~= Seq::<EntryV>::empty());
        assert(entries_bytes(es.push(e)) =~= entry_bytes(e));
        assert(entries_bytes(es) + entry_bytes(e) =~= entry_bytes(e));
    } else {
        assert(es.push(e).drop_first() =~= es.drop_first().push(e));
        lemma_entries_bytes_snoc(es.drop_first(), e);
        assert(es.push(e)[0] == es[0]);
        assert(entries_bytes(es.push(e)) == entry_bytes(es[0]) + (entries_bytes(es.drop_first())
            + entry_bytes(e)));
        assert(entries_bytes(es.push(e)) =~= entries_bytes(es) + entry_bytes(e));
    }
}

/// Round trip: parsing the encoding of a well-formed entry sequence gives
/// back exactly that sequence.
pub proof fn lemma_parse_entries_round_trip(es: Seq<EntryV>)
    requires
        entries_wf(es),
    ensures
        parse_entries(entries_bytes(es)) == Some(es),
    decreases es.len(),
{
    lemma_auto_spec_u64_to_from_le_bytes();
    if es.len() == 0 {
        assert(parse_entries(entries_bytes(es)) == Some(Seq::<EntryV>::empty()));
        assert(Seq::<EntryV>::empty() =~= es);
    } else {
        let e = es[0];
        let nb = encode_utf8(e.name);
        let l1 = spec_u64_to_le_bytes(nb.len() as u64);
        let l2 = spec_u64_to_le_bytes(e.value.len() as u64);
        let tail = entries_bytes(es.drop_first());
        let b = entries_bytes(es);
        assert(b =~= l1 + nb + l2 + e.value + tail);
        let nlen = nb.len() as int;
        let vlen = e.value.len() as int;
        assert(b.len() == 16 + nlen + vlen + tail.len());
        assert(b.subrange(0, 8) =~= l1);
        assert(spec_u64_from_le_bytes(b.subrange(0, 8)) as int == nlen);
        assert(b.subrange(8, 8 + nlen) =~= nb);
        assert(valid_utf8(nb));
        assert(b.subrange(8 + nlen, 16 + nlen) =~= l2);
        assert(spec_u64_from_le_bytes(b.subrange(8 + nlen, 16 + nlen)) as int == vlen);
        assert(b.subrange(16 + nlen, 16 + nlen + vlen) =~= e.value);
        assert(b.subrange(16 + nlen + vlen, b.len() as int) =~= tail);
        lemma_parse_entries_round_trip(es.drop_first());
        let head = EntryV { name: decode_utf8(nb), value: b.subrange(16 + nlen, 16 + nlen + vlen) };
        assert(decode_utf8(nb) == e.name);
        assert(head =~= e);
        assert(seq![head] + es.drop_first() =~= es);
    }
}

/// An ASCII name's UTF-8 encoding is as long as the name itself.
pub proof fn lemma_ascii_encode_len(s: Seq<char>)
    requires
        vstd::utf8::is_ascii_chars(s),
    ensures
        encode_utf8(s).len() == s.len(),
{
    vstd::utf8::is_ascii_chars_encode_utf8(s);
}

/// Appends the encoding of one entry to a buffer.
pub fn encode_entry_into(out: &mut Vec<u8>, e: &Entry)
    ensures
        final(out)@ == old(out)@ + entry_bytes(e@),
{
    let nb: &[u8] = e.name.as_str().as_bytes();
    proof {
        assert(nb@ == encode_utf8(e@.name));
    }
    let l1 = u64_to_le_bytes(nb.len() as u64);
    push_bytes(out, l1.as_slice());
    push_bytes(out, nb);
    let l2 = u64_to_le_bytes(e.value.len() as u64);
    push_bytes(out, l2.as_slice());
    push_bytes(out, e.value.as_slice());
    proof {
        assert(final(out)@ =~= old(out)@ + entry_bytes(e@));
    }
}

/// Serializes an entry sequence into one buffer.
pub fn encode_entries_vec(entries: &Vec<Entry>) -> (r: Vec<u8>)
    ensures
        r@ == entries_bytes(views_of(entries@)),
{
    let mut out: Vec<u8> = Vec::new();
    let n = entries.len();
    let mut i: usize = 0;
    while i < n
        invariant
            n == entries@.len(),
            i <= n,
            out@ == entries_bytes(views_of(entries@.take(i as int))),
        decreases n - i,
    {
        proof {
            assert(views_of(entries@.take(i + 1)) =~= views_of(entries@.take(i as int)).push(
                entries@[i as int]@,
            ));
            lemma_entries_bytes_snoc(views_of(entries@.take(i as int)), entries@[i as int]@);
        }
        encode_entry_into(&mut out, &entries[i]);
        i = i + 1;
    }
    proof {
        assert(entries@.take(n as int) =~= entries@);
    }
    out
}

/// Relies on std::str::from_utf8: it succeeds exactly on valid UTF-8 input
/// and returns the text whose UTF-8 encoding is that input.
#[verifier::external_body]
fn utf8_to_string(b: &[u8]) -> (r: Option<String>)
    ensures
        r is Some <==> valid_utf8(b@),
        r is Some ==> encode_utf8(r->0@) == b@,
{
    match std::str::from_utf8(b) {
        Ok(s) => Some(s.to_string()),
        Err(_) => None,
    }
}

/// Prepends an already-parsed prefix to the outcome of parsing a suffix.
pub open spec fn combine(prefix: Seq<EntryV>, rest: Option<Seq<EntryV>>) -> Option<Seq<EntryV>> {
    match rest {
        Option::None => None,
        Option::Some(r) => Some(prefix + r),
    }
}

/// Parses a whole buffer as an entry sequence; `None` exactly where the
/// buffer is not a well-formed envelope.
pub fn decode_entries_slice(b: &[u8]) -> (r: Option<Vec<Entry>>)
    ensures
        r is Some <==> parse_entries(b@) is Some,
        r is Some ==> Some(views_of(r->0@)) == parse_entries(b@),
{
    let mut acc: Vec<Entry> = Vec::new();
    let mut pos: usize = 0;
    let len = b.len();
    proof {
        assert(b@.subrange(0, len as int) =~= b@);
        assert(views_of(acc@) =~= Seq::<EntryV>::empty());
        if parse_entries(b@) is Some {
            assert(Seq::<EntryV>::empty() + parse_entries(b@)->0 =~= parse_entries(b@)->0);
        }
    }
    loop
        invariant
            pos <= len,
            len == b@.len(),
            parse_entries(b@) == combine(
                views_of(acc@),
                parse_entries(b@.subrange(pos as int, len as int)),
            ),
        decreases len - pos,
    {
        let ghost s = b@.subrange(pos as int, len as int);
        if pos == len {
            proof {
                assert(s.len() == 0);
                assert(views_of(acc@) + Seq::<EntryV>::empty() =~= views_of(acc@));
            }
            return Some(acc);
        }
        let remaining = len - pos;
        if remaining < 8 {
            proof {
                assert(parse_entries(s) is None);
            }
            return None;
        }
        let l1 = slice_subrange(b, pos, pos + 8);
        let nlen64 = u64_from_le_bytes(l1);
        proof {
            assert(l1@ =~= s.subrange(0, 8));
        }
        if nlen64 > u64::MAX - 16 || (remaining as u64) < 16 + nlen64 {
            proof {
                assert(s.len() < 16 + spec_u64_from_le_bytes(s.subrange(0, 8)) as int);
                assert(parse_entries(s) is None);
            }
            return None;
        }
        let nlen = nlen64 as usize;
        let name_bytes = slice_subrange(b, pos + 8, pos + 8 + nlen);
        proof {
            assert(name_bytes@ =~= s.subrange(8, 8 + nlen as int));
        }
        let name = match utf8_to_string(name_bytes) {
            Some(name) => name,
            None => {
                proof {
                    assert(parse_entries(s) is None);
                }
                return None;
            },
        };
        let l2 = slice_subrange(b, pos + 8 + nlen, pos + 16 + nlen);
        let vlen64 = u64_from_le_bytes(l2);
        proof {
            assert(l2@ =~= s.subrange(8 + nlen as int, 16 + nlen as int));
        }
        if vlen64 > (remaining as u64) - 16 - nlen64 {
            proof {
                assert(s.len() < 16 + nlen as int + spec_u64_from_le_bytes(
                    s.subrange(8 + nlen as int, 16 + nlen as int),
                ) as int);
                assert(parse_entries(s) is None);
            }
            return None;
        }
        let vlen = vlen64 as usize;
        let value = slice_to_vec(slice_subrange(b, pos + 16 + nlen, pos + 16 + nlen + vlen));
        let new_pos = pos + 16 + nlen + vlen;
        let ghost s2 = b@.subrange(new_pos as int, len as int);
        let entry = Entry { name, value };
        proof {
            assert(value@ =~= s.subrange(16 + nlen as int, 16 + nlen as int + vlen as int));
            assert(s.subrange(16 + nlen as int + vlen as int, s.len() as int) =~= s2);
            assert(entry@.name == decode_utf8(s.subrange(8, 8 + nlen as int)));
            assert(parse_entries(s) == combine(seq![entry@], parse_entries(s2)));
            assert(views_of(acc@.push(entry)) =~= views_of(acc@) + seq![entry@]);
            if parse_entries(s2) is Some {
                assert((views_of(acc@) + seq![entry@]) + parse_entries(s2)->0 =~= views_of(acc@)
                    + (seq![entry@] + parse_entries(s2)->0));
            }
        }
        acc.push(entry);
        pos = new_pos;
    }
}

/// The two's-complement image of a 64-bit signed integer.
pub open spec fn u64_bits_of_i64(v: i64) -> u64 {
    vstd::wrapping::u64_specs::wrapping_add_signed(0u64, v)
}

/// The 64-bit signed integer with the given two's-complement image.
pub open spec fn i64_of_u64_bits(u: u64) -> i64 {
    vstd::wrapping::i64_specs::wrapping_add_unsigned(0i64, u)
}

/// The cell encoding of a 64-bit signed integer.
pub open spec fn int64_cell(v: i64) -> Seq<u8> {
    seq![TAG_INT64] + spec_u64_to_le_bytes(u64_bits_of_i64(v))
}

/// The parse of a cell as a 64-bit signed integer.
pub open spec fn parse_int64_cell(b: Seq<u8>) -> Option<i64> {
    if b.len() == 9 && b[0] == TAG_INT64 {
        Some(i64_of_u64_bits(spec_u64_from_le_bytes(b.subrange(1, 9))))
    } else {
        None
    }
}

/// Round trip: an integer cell parses back to the integer it encodes.
pub proof fn lemma_int64_cell_round_trip(v: i64)
    ensures
        parse_int64_cell(int64_cell(v)) == Some(v),
{
    lemma_auto_spec_u64_to_from_le_bytes();
    let b = int64_cell(v);
    assert(b.subrange(1, 9) =~= spec_u64_to_le_bytes(u64_bits_of_i64(v)));
    assert(i64_of_u64_bits(u64_bits_of_i64(v)) == v);
}

/// Encodes a 64-bit signed integer as a cell.
pub fn encode_int64_cell(v: i64) -> (r: Vec<u8>)
    ensures
        r@ == int64_cell(v),
{
    let mut out: Vec<u8> = Vec::new();
    out.push(TAG_INT64);
    let bits = u64_to_le_bytes(0u64.wrapping_add_signed(v));
    push_bytes(&mut out, bits.as_slice());
    proof {
        assert(out@ =~= int64_cell(v));
    }
    out
}

/// Parses a cell as a 64-bit signed integer.
pub fn decode_int64_cell(b: &[u8]) -> (r: Option<i64>)
    ensures
        r == parse_int64_cell(b@),
{
    if b.len() != 9 {
        return None;
    }
    let tag = *slice_index_get(b, 0);
    if tag != TAG_INT64 {
        return None;
    }
    let tail = slice_subrange(b, 1, 9);
    let u = u64_from_le_bytes(tail);
    proof {
        assert(b@.subrange(1, 9) =~= tail@);
    }
    Some(0i64.wrapping_add_unsigned(u))
}

/// The cell encoding of text (or of a link reference, by its tag).
pub open spec fn text_cell(s: Seq<char>, tag: u8) -> Seq<u8> {
    seq![tag] + encode_utf8(s)
}

/// The parse of a cell as text under the given tag.
pub open spec fn parse_text_cell(b: Seq<u8>, tag: u8) -> Option<Seq<char>> {
    if b.len() >= 1 && b[0] == tag && valid_utf8(b.skip(1)) {
        Some(decode_utf8(b.skip(1)))
    } else {
        None
    }
}

/// Round trip: a text cell parses back to the text it encodes.
pub proof fn lemma_text_cell_round_trip(s: Seq<char>, tag: u8)
    ensures
        parse_text_cell(text_cell(s, tag), tag) == Some(s),
{
    let b = text_cell(s, tag);
    assert(b.skip(1) =~= encode_utf8(s));
}

/// Encodes text as a cell under the given tag.
pub fn encode_text_cell(s: &str, tag: u8) -> (r: Vec<u8>)
    ensures
        r@ == text_cell(s@, tag),
{
    let mut out: Vec<u8> = Vec::new();
    out.push(tag);
    push_bytes(&mut out, s.as_bytes());
    proof {
        assert(out@ =~= text_cell(s@, tag));
    }
    out
}

/// Parses a cell as text under the given tag.
pub fn decode_text_cell(b: &[u8], tag: u8) -> (r: Option<String>)
    ensures
        r is Some <==> parse_text_cell(b@, tag) is Some,
        r is Some ==> parse_text_cell(b@, tag) == Some(r->0@),
{
    if b.len() < 1 {
        return None;
    }
    let head = *slice_index_get(b, 0);
    if head != tag {
        return None;
    }
    let rest = slice_subrange(b, 1, b.len());
    proof {
        assert(rest@ =~= b@.skip(1));
    }
    utf8_to_string(rest)
}

/// The value cell of the first entry with the given name, if any.
pub open spec fn lookup(es: Seq<EntryV>, name: Seq<char>) -> Option<Seq<u8>>
    decreases es.len(),
{
    if es.len() == 0 {
        None
    } else if es[0].name == name {
        Some(es[0].value)
    } else {
        lookup(es.drop_first(), name)
    }
}

/// Finds the value cell of the first entry with the given name.
pub fn find_entry<'a>(entries: &'a Vec<Entry>, name: &str) -> (r: Option<&'a Vec<u8>>)
    ensures
        r is Some <==> lookup(views_of(entries@), name@) is Some,
        r is Some ==> lookup(views_of(entries@), name@) == Some(r->0@),
{
    let n = entries.len();
    let mut i: usize = 0;
    proof {
        assert(entries@.skip(0) =~= entries@);
    }
    while i < n
        invariant
            n == entries@.len(),
            i <= n,
            lookup(views_of(entries@), name@) == lookup(
                views_of(entries@.skip(i as int)),
                name@,
            ),
        decreases n - i,
    {
        let ghost s = views_of(entries@.skip(i as int));
        proof {
            assert(s[0] == entries@[i as int]@);
        }
        if crate::bytes_util::bytes_eq(entries[i].name.as_str().as_bytes(), name.as_bytes()) {
            proof {
                assert(decode_utf8(encode_utf8(entries@[i as int].name@)) == entries@[
                    i as int
                ].name@);
                assert(entries@[i as int].name@ == name@);
            }
            return Some(&entries[i].value);
        }
        proof {
            assert(entries@[i as int].name@ != name@);
            assert(s.drop_first() =~= views_of(entries@.skip(i + 1)));
        }
        i = i + 1;
    }
    proof {
        assert(views_of(entries@.skip(n as int)).len() == 0);
    }
    None
}

} // verus!

//! An ordered map from field name to encoded value cell, and its request
//! buffer form: what one side writes and the payload decoder reads back.

use vstd::prelude::*;
use vstd::bytes::{spec_u32_to_le_bytes, u32_to_le_bytes, lemma_auto_spec_u32_to_from_le_bytes};
use crate::bytes_util::push_bytes;
use crate::codec::{
    encode_entries_vec, entries_bytes, entries_wf, lemma_parse_entries_round_trip, views_of, Entry,
    EntryV,
};
use crate::payload::{parse_payload, PayloadV};

verus! {

/// The request buffer that carries the given invocation id and fields.
pub open spec fn payload_bytes(id: u32, es: Seq<EntryV>) -> Seq<u8> {
    spec_u32_to_le_bytes(id) + entries_bytes(es)
}

/// Round trip: a request buffer built from an id and well-formed fields
/// parses back to exactly that payload.
pub proof fn lemma_parse_payload_round_trip(id: u32, es: Seq<EntryV>)
    requires
        entries_wf(es),
    ensures
        parse_payload(payload_bytes(id, es)) == Some(PayloadV { id, fields: es }),
{
    lemma_auto_spec_u32_to_from_le_bytes();
    let b = payload_bytes(id, es);
    assert(b.subrange(0, 4) =~= spec_u32_to_le_bytes(id));
    assert(b.subrange(4, b.len() as int) =~= entries_bytes(es));
    lemma_parse_entries_round_trip(es);
}

/// An ordered collection of named, encoded field values.
pub struct TransportMap {
    entries: Vec<Entry>,
}

impl View for TransportMap {
    type V = Seq<EntryV>;

    closed spec fn view(&self) -> Seq<EntryV> {
        views_of(self.entries@)
    }
}

impl TransportMap {
    /// An empty map.
    pub fn new() -> (r: TransportMap)
        ensures
            r@ == Seq::<EntryV>::empty(),
    {
        let r = TransportMap { entries: Vec::new() };
        proof {
            assert(r@ =~= Seq::<EntryV>::empty());
        }
        r
    }

    /// Appends one named value cell.
    pub fn insert(&mut self, name: &str, value: Vec<u8>)
        ensures
            final(self)@ == old(self)@.push(EntryV { name: name@, value: value@ }),
    {
        let ghost before = self@;
        let entry = Entry { name: name.to_owned(), value };
        proof {
            assert(views_of(self.entries@.push(entry)) =~= before.push(entry@));
        }
        self.entries.push(entry);
    }

    /// Serializes the map as a request buffer under the given invocation id.
    pub fn to_buffer(&self, id: u32) -> (r: Vec<u8>)
        ensures
            r@ == payload_bytes(id, self@),
    {
        let mut out = u32_to_le_bytes(id);
        let body = encode_entries_vec(&self.entries);
        push_bytes(&mut out, body.as_slice());
        proof {
            assert(out@ =~= payload_bytes(id, self@));
        }
        out
    }
}

} // verus!

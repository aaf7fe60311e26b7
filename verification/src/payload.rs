//! The incoming payload: a decoded view over the raw request buffer.
//!
//! `from_buffer` parses only the outer envelope — the invocation id and the
//! named field slots; a field's cell is decoded into a concrete type only at
//! the point a caller asks for it.

use vstd::prelude::*;
use vstd::bytes::{spec_u32_from_le_bytes, u32_from_le_bytes};
use vstd::slice::slice_subrange;
use crate::codec::{
    decode_entries_slice, find_entry, lookup, parse_entries, views_of, Entry, EntryV,
};
use crate::error::{DispatchError, ErrorSpec};

verus! {

/// Mathematical model of an incoming payload.
#[verifier::ext_equal]
pub struct PayloadV {
    pub id: u32,
    pub fields: Seq<EntryV>,
}

/// The parse of a request buffer: a 4-byte little-endian invocation id
/// followed by the field envelope.
pub open spec fn parse_payload(b: Seq<u8>) -> Option<PayloadV> {
    if b.len() < 4 {
        None
    } else {
        match parse_entries(b.subrange(4, b.len() as int)) {
            Option::None => None,
            Option::Some(es) => Some(
                PayloadV { id: spec_u32_from_le_bytes(b.subrange(0, 4)), fields: es },
            ),
        }
    }
}

/// Decoding a field is idempotent: any two outcomes that satisfy `get`'s
/// contract for the same payload fields and the same name are the same
/// outcome, because each is pinned to the same lookup; the payload itself
/// is never mutated by a read.
pub proof fn lemma_get_idempotent(
    fields: Seq<EntryV>,
    name: Seq<char>,
    first: Option<Seq<u8>>,
    second: Option<Seq<u8>>,
)
    requires
        first == lookup(fields, name),
        second == lookup(fields, name),
    ensures
        first == second,
{
}

/// The decoded envelope of one incoming request.
pub struct IncomingPayload {
    id: u32,
    fields: Vec<Entry>,
}

impl IncomingPayload {
    /// The invocation id carried by the request.
    pub closed spec fn id_view(&self) -> u32 {
        self.id
    }

    /// The named field slots, in buffer order.
    pub closed spec fn fields_view(&self) -> Seq<EntryV> {
        views_of(self.fields@)
    }

    /// Parses the outer envelope of a request buffer. Fails exactly on a
    /// buffer that is not a well-formed envelope, and then with the fatal
    /// boundary error.
    pub fn from_buffer(b: &[u8]) -> (r: Result<IncomingPayload, DispatchError>)
        ensures
            match r {
                Ok(p) => parse_payload(b@) == Some(
                    PayloadV { id: p.id_view(), fields: p.fields_view() },
                ),
                Err(e) => parse_payload(b@) is None && e@ == ErrorSpec::BoundaryDecodeFailure,
            },
    {
        if b.len() < 4 {
            return Err(DispatchError::BoundaryDecodeFailure);
        }
        let head = slice_subrange(b, 0, 4);
        let id = u32_from_le_bytes(head);
        let rest = slice_subrange(b, 4, b.len());
        proof {
            assert(head@ =~= b@.subrange(0, 4));
            assert(rest@ =~= b@.subrange(4, b@.len() as int));
        }
        match decode_entries_slice(rest) {
            Some(fields) => Ok(IncomingPayload { id, fields }),
            None => Err(DispatchError::BoundaryDecodeFailure),
        }
    }

    /// The invocation id.
    pub fn id(&self) -> (r: u32)
        ensures
            r == self.id_view(),
    {
        self.id
    }

    /// The encoded cell of the named field. Reading a field is pure: the
    /// result is a function of the payload and the name alone, so asking
    /// twice returns the same cell. Fails exactly when the name is absent,
    /// and then naming that field.
    pub fn get<'a>(&'a self, name: &str) -> (r: Result<&'a Vec<u8>, DispatchError>)
        ensures
            match r {
                Ok(v) => lookup(self.fields_view(), name@) == Some(v@),
                Err(e) => lookup(self.fields_view(), name@) is None && e@
                    == ErrorSpec::FieldNotFound(name@),
            },
    {
        match find_entry(&self.fields, name) {
            Some(v) => Ok(v),
            None => Err(DispatchError::FieldNotFound(name.to_owned())),
        }
    }
}

} // verus!

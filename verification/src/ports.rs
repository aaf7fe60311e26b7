//! The output side of one invocation.
//!
//! During an invocation the handler's senders append `(port name, cell)`
//! pairs to an [`OutputCollection`]; its final order is the write order. On
//! the consuming side a [`ProviderOutput`] is decoded from the response
//! buffer and handed out port by port.

use vstd::prelude::*;
use vstd::slice::slice_to_vec;
use crate::codec::{
    decode_entries_slice, encode_entries_vec, entries_bytes, parse_entries, views_of, Entry,
    EntryV,
};
use crate::error::{DispatchError, ErrorSpec};

verus! {

broadcast use vstd::utf8::encode_utf8_valid_utf8, vstd::utf8::encode_utf8_decode_utf8;

/// The views of a sequence of value cells.
pub open spec fn cell_views(s: Seq<Vec<u8>>) -> Seq<Seq<u8>> {
    s.map_values(|v: Vec<u8>| v@)
}

/// The port each entry of a collection was written to, in write order.
pub open spec fn port_names(es: Seq<EntryV>) -> Seq<Seq<char>> {
    es.map_values(|e: EntryV| e.name)
}

/// The cells written to the given port, in write order.
pub open spec fn values_for(es: Seq<EntryV>, name: Seq<char>) -> Seq<Seq<u8>>
    decreases es.len(),
{
    if es.len() == 0 {
        Seq::empty()
    } else if es[0].name == name {
        seq![es[0].value] + values_for(es.drop_first(), name)
    } else {
        values_for(es.drop_first(), name)
    }
}

/// The entries that are not addressed to the given port, in order.
pub open spec fn without(es: Seq<EntryV>, name: Seq<char>) -> Seq<EntryV>
    decreases es.len(),
{
    if es.len() == 0 {
        Seq::empty()
    } else if es[0].name == name {
        without(es.drop_first(), name)
    } else {
        seq![es[0]] + without(es.drop_first(), name)
    }
}

/// Appending one entry extends `values_for` exactly when the name matches.
pub proof fn lemma_values_for_snoc(es: Seq<EntryV>, e: EntryV, name: Seq<char>)
    ensures
        values_for(es.push(e), name) == if e.name == name {
            values_for(es, name).push(e.value)
        } else {
            values_for(es, name)
        },
    decreases es.len(),
{
    reveal_with_fuel(values_for, 2);
    if es.len() == 0 {
        assert(es.push(e)[0] == e);
        assert(es.push(e).drop_first() =~= Seq::<EntryV>::empty());
        if e.name == name {
            assert(values_for(es.push(e), name) =~= values_for(es, name).push(e.value));
        }
    } else {
        assert(es.push(e)[0] == es[0]);
        assert(es.push(e).drop_first() =~= es.drop_first().push(e));
        lemma_values_for_snoc(es.drop_first(), e, name);
        if e.name == name {
            assert(values_for(es.push(e), name) =~= values_for(es, name).push(e.value));
        } else {
            assert(values_for(es.push(e), name) =~= values_for(es, name));
        }
    }
}

/// Appending one entry extends `without` exactly when the name differs.
pub proof fn lemma_without_snoc(es: Seq<EntryV>, e: EntryV, name: Seq<char>)
    ensures
        without(es.push(e), name) == if e.name == name {
            without(es, name)
        } else {
            without(es, name).push(e)
        },
    decreases es.len(),
{
    reveal_with_fuel(without, 2);
    if es.len() == 0 {
        assert(es.push(e)[0] == e);
        assert(es.push(e).drop_first() =~= Seq::<EntryV>::empty());
        if e.name != name {
            assert(without(es.push(e), name) =~= without(es, name).push(e));
        }
    } else {
        assert(es.push(e)[0] == es[0]);
        assert(es.push(e).drop_first() =~= es.drop_first().push(e));
        lemma_without_snoc(es.drop_first(), e, name);
        if e.name == name {
            assert(without(es.push(e), name) =~= without(es, name));
        } else {
            assert(without(es.push(e), name) =~= without(es, name).push(e));
        }
    }
}

/// The ordered, append-only collection of (port name, cell) pairs produced
/// during one invocation.
pub struct OutputCollection {
    entries: Vec<Entry>,
}

impl View for OutputCollection {
    type V = Seq<EntryV>;

    closed spec fn view(&self) -> Seq<EntryV> {
        views_of(self.entries@)
    }
}

impl OutputCollection {
    /// An empty collection, fresh for one invocation.
    pub fn new() -> (r: OutputCollection)
        ensures
            r@ == Seq::<EntryV>::empty(),
    {
        let r = OutputCollection { entries: Vec::new() };
        proof {
            assert(r@ =~= Seq::<EntryV>::empty());
        }
        r
    }

    /// Appends one value cell under the given port name. Only the senders
    /// of this crate call this, so a handler cannot address a port it was
    /// not given.
    pub(crate) fn write(&mut self, name: &str, value: Vec<u8>)
        ensures
            final(self)@ == old(self)@.push(EntryV { name: name@, value: value@ }),
    {
        let ghost before = self@;
        let entry = Entry { name: name.to_owned(), value };
        proof {
            assert(views_of(self.entries@.push(entry)) =~= before.push(entry@));
        }
        self.entries.push(entry);
    }

    /// Serializes the collection into one outgoing byte buffer.
    pub fn serialize(&self) -> (r: Vec<u8>)
        ensures
            r@ == entries_bytes(self@),
    {
        encode_entries_vec(&self.entries)
    }
}

/// All the values taken off one port, in write order.
#[derive(Debug)]
pub struct PortOutput {
    pub port: String,
    pub values: Vec<Vec<u8>>,
}

impl PortOutput {
    /// Bundles a port name with the cells read from it.
    pub fn new(port: String, values: Vec<Vec<u8>>) -> (r: PortOutput)
        ensures
            r.port == port,
            r.values == values,
    {
        PortOutput { port, values }
    }
}

/// The decoded response of one invocation, as the consuming side sees it:
/// the ordered entries of the Output Collection, handed out port by port.
#[derive(Debug)]
pub struct ProviderOutput {
    entries: Vec<Entry>,
}

impl View for ProviderOutput {
    type V = Seq<EntryV>;

    closed spec fn view(&self) -> Seq<EntryV> {
        views_of(self.entries@)
    }
}

impl ProviderOutput {
    /// Decodes a response buffer. Fails exactly on a buffer that is not a
    /// well-formed envelope.
    pub fn from_buffer(b: &[u8]) -> (r: Result<ProviderOutput, DispatchError>)
        ensures
            match r {
                Ok(p) => parse_entries(b@) == Some(p@),
                Err(e) => parse_entries(b@) is None && e@ == ErrorSpec::BoundaryDecodeFailure,
            },
    {
        match decode_entries_slice(b) {
            Some(entries) => Ok(ProviderOutput { entries }),
            None => Err(DispatchError::BoundaryDecodeFailure),
        }
    }

    /// Removes and returns every cell written to the given port, in write
    /// order; `None` when the port was never written to.
    pub fn take(&mut self, port: &str) -> (r: Option<Vec<Vec<u8>>>)
        ensures
            final(self)@ == without(old(self)@, port@),
            match r {
                Some(vs) => cell_views(vs@) == values_for(old(self)@, port@) && vs@.len() > 0,
                None => values_for(old(self)@, port@).len() == 0,
            },
    {
        let ghost before = self@;
        let mut kept: Vec<Entry> = Vec::new();
        let mut vals: Vec<Vec<u8>> = Vec::new();
        let n = self.entries.len();
        let mut i: usize = 0;
        proof {
            assert(views_of(self.entries@).take(0) =~= Seq::<EntryV>::empty());
            assert(values_for(Seq::<EntryV>::empty(), port@) =~= Seq::<Seq<u8>>::empty());
            assert(without(Seq::<EntryV>::empty(), port@) =~= Seq::<EntryV>::empty());
            assert(cell_views(vals@) =~= Seq::<Seq<u8>>::empty());
            assert(views_of(kept@) =~= Seq::<EntryV>::empty());
        }
        while i < n
            invariant
                n == self.entries@.len(),
                i <= n,
                before == views_of(self.entries@),
                cell_views(vals@) == values_for(views_of(self.entries@).take(i as int), port@),
                views_of(kept@) == without(views_of(self.entries@).take(i as int), port@),
            decreases n - i,
        {
            let ghost prefix = views_of(self.entries@).take(i as int);
            let ghost e = self.entries@[i as int]@;
            proof {
                assert(views_of(self.entries@).take(i + 1) =~= prefix.push(e));
                lemma_values_for_snoc(prefix, e, port@);
                lemma_without_snoc(prefix, e, port@);
            }
            let name_copy = self.entries[i].name.clone();
            let value_copy = slice_to_vec(self.entries[i].value.as_slice());
            if crate::bytes_util::bytes_eq(name_copy.as_str().as_bytes(), port.as_bytes()) {
                let ghost dv = cell_views(vals@);
                proof {
                    assert(vstd::utf8::decode_utf8(vstd::utf8::encode_utf8(e.name)) == e.name);
                    assert(e.name == port@);
                }
                vals.push(value_copy);
                proof {
                    assert(cell_views(vals@) =~= dv.push(value_copy@));
                }
            } else {
                proof {
                    assert(e.name != port@);
                }
                let entry = Entry { name: name_copy, value: value_copy };
                proof {
                    assert(views_of(kept@.push(entry)) =~= views_of(kept@).push(e));
                }
                kept.push(entry);
            }
            i = i + 1;
        }
        proof {
            assert(views_of(self.entries@).take(n as int) =~= before);
        }
        self.entries = kept;
        if vals.len() == 0 {
            proof {
                assert(cell_views(vals@).len() == 0);
            }
            None
        } else {
            Some(vals)
        }
    }
}

} // verus!

//! The `add` operation: reads `left` and `right`, writes their sum (wrapping
//! on overflow) to the `sum` port.

use vstd::prelude::*;
use crate::codec::{decode_int64_cell, encode_int64_cell, int64_cell, lookup, parse_int64_cell, EntryV};
use crate::error::{DispatchError, ErrorSpec};
use crate::payload::IncomingPayload;
use crate::ports::{cell_views, values_for, without, OutputCollection, PortOutput, ProviderOutput};
use crate::transport::TransportMap;

verus! {

/// The declared inputs of the operation.
#[derive(Debug)]
pub struct Inputs {
    pub left: i64,
    pub right: i64,
}

/// Decoding the declared inputs out of the payload fields: each required
/// field is looked up and decoded in declared order, and the first failure
/// short-circuits the construction.
pub open spec fn inputs_spec(fields: Seq<EntryV>) -> Result<(i64, i64), ErrorSpec> {
    match lookup(fields, "left"@) {
        Option::None => Err(ErrorSpec::FieldNotFound("left"@)),
        Option::Some(lc) => match parse_int64_cell(lc) {
            Option::None => Err(ErrorSpec::TypeMismatch("left"@, "int64"@)),
            Option::Some(l) => match lookup(fields, "right"@) {
                Option::None => Err(ErrorSpec::FieldNotFound("right"@)),
                Option::Some(rc) => match parse_int64_cell(rc) {
                    Option::None => Err(ErrorSpec::TypeMismatch("right"@, "int64"@)),
                    Option::Some(r) => Ok((l, r)),
                },
            },
        },
    }
}

/// A payload missing a required field fails with exactly that field, in
/// declared order: `left` is examined first, and `right` only after `left`
/// has decoded.
pub proof fn lemma_inputs_missing_field(fields: Seq<EntryV>)
    ensures
        lookup(fields, "left"@) is None ==> inputs_spec(fields) == Err::<(i64, i64), ErrorSpec>(
            ErrorSpec::FieldNotFound("left"@),
        ),
        (lookup(fields, "left"@) is Some && parse_int64_cell(lookup(fields, "left"@)->0) is Some
            && lookup(fields, "right"@) is None) ==> inputs_spec(fields) == Err::<
            (i64, i64),
            ErrorSpec,
        >(ErrorSpec::FieldNotFound("right"@)),
{
}

/// A field present but of the wrong shape fails with `TypeMismatch` naming
/// exactly that field; no later field is examined after the first failure.
pub proof fn lemma_inputs_type_mismatch(fields: Seq<EntryV>)
    ensures
        (lookup(fields, "left"@) is Some && parse_int64_cell(lookup(fields, "left"@)->0) is None)
            ==> inputs_spec(fields) == Err::<(i64, i64), ErrorSpec>(
            ErrorSpec::TypeMismatch("left"@, "int64"@),
        ),
        (lookup(fields, "left"@) is Some && parse_int64_cell(lookup(fields, "left"@)->0) is Some
            && lookup(fields, "right"@) is Some && parse_int64_cell(
            lookup(fields, "right"@)->0,
        ) is None) ==> inputs_spec(fields) == Err::<(i64, i64), ErrorSpec>(
            ErrorSpec::TypeMismatch("right"@, "int64"@),
        ),
{
}

/// Constructs the Input Set, atomically: no partially-populated `Inputs`
/// is ever returned.
pub fn populate_inputs(payload: &IncomingPayload) -> (r: Result<Inputs, DispatchError>)
    ensures
        match r {
            Ok(i) => inputs_spec(payload.fields_view()) == Ok::<(i64, i64), ErrorSpec>(
                (i.left, i.right),
            ),
            Err(e) => inputs_spec(payload.fields_view()) == Err::<(i64, i64), ErrorSpec>(e@),
        },
{
    let left_cell = match payload.get("left") {
        Ok(c) => c,
        Err(e) => {
            return Err(e);
        },
    };
    let left = match decode_int64_cell(left_cell.as_slice()) {
        Some(v) => v,
        None => {
            return Err(DispatchError::TypeMismatch("left".to_owned(), "int64".to_owned()));
        },
    };
    let right_cell = match payload.get("right") {
        Ok(c) => c,
        Err(e) => {
            return Err(e);
        },
    };
    let right = match decode_int64_cell(right_cell.as_slice()) {
        Some(v) => v,
        None => {
            return Err(DispatchError::TypeMismatch("right".to_owned(), "int64".to_owned()));
        },
    };
    Ok(Inputs { left, right })
}

impl Inputs {
    /// The inputs as a transport map, under their declared field names.
    pub fn to_transport_map(&self) -> (r: TransportMap)
        ensures
            r@ == seq![
                EntryV { name: "left"@, value: int64_cell(self.left) },
                EntryV { name: "right"@, value: int64_cell(self.right) },
            ],
    {
        let mut map = TransportMap::new();
        map.insert("left", encode_int64_cell(self.left));
        map.insert("right", encode_int64_cell(self.right));
        proof {
            assert(map@ =~= seq![
                EntryV { name: "left"@, value: int64_cell(self.left) },
                EntryV { name: "right"@, value: int64_cell(self.right) },
            ]);
        }
        map
    }
}

/// The pre-bound sender of the `sum` output port.
#[derive(Debug, PartialEq, Clone)]
pub struct SumSender {
    id: u32,
}

impl SumSender {
    /// The invocation-scoped id the sender was created with.
    pub closed spec fn id_view(&self) -> u32 {
        self.id
    }

    /// The port's name.
    pub fn get_name(&self) -> (r: String)
        ensures
            r@ == "sum"@,
    {
        "sum".to_owned()
    }

    /// The port's invocation-scoped numeric id.
    pub fn get_id(&self) -> (r: u32)
        ensures
            r == self.id_view(),
    {
        self.id
    }

    /// Appends one value to the invocation's Output Collection under this
    /// port's name.
    pub fn send(&self, out: &mut OutputCollection, value: i64)
        ensures
            final(out)@ == old(out)@.push(EntryV { name: "sum"@, value: int64_cell(value) }),
    {
        out.write("sum", encode_int64_cell(value));
    }
}

/// The declared output ports, created by the adapter before invocation;
/// handler logic writes to these and never creates its own.
#[derive(Debug)]
pub struct OutputPorts {
    pub sum: SumSender,
}

/// Binds the declared ports to the invocation id.
pub fn get_outputs(id: u32) -> (r: OutputPorts)
    ensures
        r.sum.id_view() == id,
{
    OutputPorts { sum: SumSender { id } }
}

/// The sum written for the given inputs: 64-bit wrapping addition.
pub open spec fn sum_of(l: i64, r: i64) -> i64 {
    vstd::wrapping::i64_specs::wrapping_add(l, r)
}

/// The Output Collection produced by a successful invocation.
pub open spec fn output_entries(l: i64, r: i64) -> Seq<EntryV> {
    seq![EntryV { name: "sum"@, value: int64_cell(sum_of(l, r)) }]
}

/// What one invocation returns for the given payload fields.
pub open spec fn execute_spec(fields: Seq<EntryV>) -> Result<Seq<EntryV>, ErrorSpec> {
    match inputs_spec(fields) {
        Result::Err(e) => Err(e),
        Result::Ok((l, r)) => Ok(output_entries(l, r)),
    }
}

/// Handler logic: adds the two inputs and writes the sum to its port.
pub fn job(inputs: Inputs, outputs: &OutputPorts, out: &mut OutputCollection) -> (r: Result<
    (),
    DispatchError,
>)
    ensures
        r is Ok,
        final(out)@ == old(out)@.push(
            EntryV { name: "sum"@, value: int64_cell(sum_of(inputs.left, inputs.right)) },
        ),
{
    let sum = inputs.left.wrapping_add(inputs.right);
    outputs.sum.send(out, sum);
    Ok(())
}

/// The handler adapter of the `add` operation.
#[derive(Debug)]
pub struct Component {}

impl Default for Component {
    fn default() -> (r: Component)
        ensures
            r == (Component {  }),
    {
        Component {  }
    }
}

impl Component {
    /// One invocation: build the ports, decode the inputs atomically, run
    /// handler logic, and return the collected outputs.
    pub fn execute(&self, payload: &IncomingPayload) -> (r: Result<OutputCollection, DispatchError>)
        ensures
            match r {
                Ok(out) => execute_spec(payload.fields_view()) == Ok::<Seq<EntryV>, ErrorSpec>(out@),
                Err(e) => execute_spec(payload.fields_view()) == Err::<Seq<EntryV>, ErrorSpec>(e@),
            },
    {
        let outputs = get_outputs(payload.id());
        let inputs = match populate_inputs(payload) {
            Ok(i) => i,
            Err(e) => {
                return Err(e);
            },
        };
        let mut out = OutputCollection::new();
        match job(inputs, &outputs, &mut out) {
            Ok(()) => {},
            Err(e) => {
                return Err(e);
            },
        }
        proof {
            assert(out@ =~= output_entries(inputs.left, inputs.right));
        }
        Ok(out)
    }
}

/// The consuming side of one invocation's outputs, handed out port by
/// port.
#[derive(Debug)]
pub struct Outputs {
    packets: ProviderOutput,
}

impl Outputs {
    /// The entries not yet taken off a port.
    pub closed spec fn packets_view(&self) -> Seq<EntryV> {
        self.packets@
    }

    /// Removes and returns everything written to the `sum` port, in
    /// write order; fails with `PortNotProduced` when the port was never
    /// written to.
    pub fn sum(&mut self) -> (r: Result<PortOutput, DispatchError>)
        ensures
            final(self).packets_view() == without(old(self).packets_view(), "sum"@),
            match r {
                Ok(po) => values_for(old(self).packets_view(), "sum"@).len() > 0 && po.port@
                    == "sum"@ && cell_views(po.values@) == values_for(
                    old(self).packets_view(),
                    "sum"@,
                ),
                Err(e) => values_for(old(self).packets_view(), "sum"@).len() == 0 && e@
                    == ErrorSpec::PortNotProduced("sum"@),
            },
    {
        match self.packets.take("sum") {
            Some(vals) => Ok(PortOutput::new("sum".to_owned(), vals)),
            None => Err(DispatchError::PortNotProduced("sum".to_owned())),
        }
    }
}

impl From<ProviderOutput> for Outputs {
    /// Wraps the decoded response entries for port-by-port consumption.
    fn from(packets: ProviderOutput) -> (r: Outputs)
        ensures
            r.packets_view() == packets@,
    {
        Outputs { packets }
    }
}

impl vstd::std_specs::convert::FromSpecImpl<ProviderOutput> for Outputs {
    open spec fn obeys_from_spec() -> bool {
        true
    }

    closed spec fn from_spec(packets: ProviderOutput) -> Outputs {
        Outputs { packets }
    }
}

} // verus!

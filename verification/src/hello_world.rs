//! The `hello-world` operation: reads `message`, writes a greeting to the
//! `greeting` port. The greeting is the message itself.

use vstd::prelude::*;
use crate::codec::{
    decode_text_cell, encode_text_cell, lookup, parse_text_cell, text_cell, EntryV, TAG_TEXT,
};
use crate::error::{DispatchError, ErrorSpec};
use crate::payload::IncomingPayload;
use crate::ports::{cell_views, values_for, without, OutputCollection, PortOutput, ProviderOutput};
use crate::transport::TransportMap;

verus! {

/// The declared inputs of the operation.
#[derive(Debug)]
pub struct Inputs {
    pub message: String,
}

/// Decoding the declared inputs out of the payload fields.
pub open spec fn inputs_spec(fields: Seq<EntryV>) -> Result<Seq<char>, ErrorSpec> {
    match lookup(fields, "message"@) {
        Option::None => Err(ErrorSpec::FieldNotFound("message"@)),
        Option::Some(mc) => match parse_text_cell(mc, TAG_TEXT) {
            Option::None => Err(ErrorSpec::TypeMismatch("message"@, "string"@)),
            Option::Some(m) => Ok(m),
        },
    }
}

/// A payload missing the required field fails with exactly that field.
pub proof fn lemma_inputs_missing_field(fields: Seq<EntryV>)
    ensures
        lookup(fields, "message"@) is None ==> inputs_spec(fields) == Err::<Seq<char>, ErrorSpec>(
            ErrorSpec::FieldNotFound("message"@),
        ),
{
}

/// A field present but of the wrong shape fails with `TypeMismatch` naming
/// exactly that field.
pub proof fn lemma_inputs_type_mismatch(fields: Seq<EntryV>)
    ensures
        (lookup(fields, "message"@) is Some && parse_text_cell(
            lookup(fields, "message"@)->0,
            TAG_TEXT,
        ) is None) ==> inputs_spec(fields) == Err::<Seq<char>, ErrorSpec>(
            ErrorSpec::TypeMismatch("message"@, "string"@),
        ),
{
}

/// Constructs the Input Set, atomically.
pub fn populate_inputs(payload: &IncomingPayload) -> (r: Result<Inputs, DispatchError>)
    ensures
        match r {
            Ok(i) => inputs_spec(payload.fields_view()) == Ok::<Seq<char>, ErrorSpec>(i.message@),
            Err(e) => inputs_spec(payload.fields_view()) == Err::<Seq<char>, ErrorSpec>(e@),
        },
{
    let message_cell = match payload.get("message") {
        Ok(c) => c,
        Err(e) => {
            return Err(e);
        },
    };
    let message = match decode_text_cell(message_cell.as_slice(), TAG_TEXT) {
        Some(m) => m,
        None => {
            return Err(DispatchError::TypeMismatch("message".to_owned(), "string".to_owned()));
        },
    };
    Ok(Inputs { message })
}

impl Inputs {
    /// The inputs as a transport map, under their declared field names.
    pub fn to_transport_map(&self) -> (r: TransportMap)
        ensures
            r@ == seq![EntryV { name: "message"@, value: text_cell(self.message@, TAG_TEXT) }],
    {
        let mut map = TransportMap::new();
        map.insert("message", encode_text_cell(self.message.as_str(), TAG_TEXT));
        proof {
            assert(map@ =~= seq![
                EntryV { name: "message"@, value: text_cell(self.message@, TAG_TEXT) },
            ]);
        }
        map
    }
}

/// The pre-bound sender of the `greeting` output port.
#[derive(Debug, PartialEq, Clone)]
pub struct GreetingSender {
    id: u32,
}

impl GreetingSender {
    /// The invocation-scoped id the sender was created with.
    pub closed spec fn id_view(&self) -> u32 {
        self.id
    }

    /// The port's name.
    pub fn get_name(&self) -> (r: String)
        ensures
            r@ == "greeting"@,
    {
        "greeting".to_owned()
    }

    /// The port's invocation-scoped numeric id.
    pub fn get_id(&self) -> (r: u32)
        ensures
            r == self.id_view(),
    {
        self.id
    }

    /// Appends one value to the invocation's Output Collection under this
    /// port's name.
    pub fn send(&self, out: &mut OutputCollection, value: &str)
        ensures
            final(out)@ == old(out)@.push(
                EntryV { name: "greeting"@, value: text_cell(value@, TAG_TEXT) },
            ),
    {
        out.write("greeting", encode_text_cell(value, TAG_TEXT));
    }
}

/// The declared output ports of the operation.
#[derive(Debug)]
pub struct OutputPorts {
    pub greeting: GreetingSender,
}

/// Binds the declared ports to the invocation id.
pub fn get_outputs(id: u32) -> (r: OutputPorts)
    ensures
        r.greeting.id_view() == id,
{
    OutputPorts { greeting: GreetingSender { id } }
}

/// The Output Collection produced by a successful invocation.
pub open spec fn output_entries(message: Seq<char>) -> Seq<EntryV> {
    seq![EntryV { name: "greeting"@, value: text_cell(message, TAG_TEXT) }]
}

/// What one invocation returns for the given payload fields.
pub open spec fn execute_spec(fields: Seq<EntryV>) -> Result<Seq<EntryV>, ErrorSpec> {
    match inputs_spec(fields) {
        Result::Err(e) => Err(e),
        Result::Ok(m) => Ok(output_entries(m)),
    }
}

/// Handler logic: greets with the message itself.
pub fn job(inputs: Inputs, outputs: &OutputPorts, out: &mut OutputCollection) -> (r: Result<
    (),
    DispatchError,
>)
    ensures
        r is Ok,
        final(out)@ == old(out)@.push(
            EntryV { name: "greeting"@, value: text_cell(inputs.message@, TAG_TEXT) },
        ),
{
    outputs.greeting.send(out, inputs.message.as_str());
    Ok(())
}

/// The handler adapter of the `hello-world` operation.
#[derive(Debug)]
pub struct Component {}

impl Default for Component {
    fn default() -> (r: Component)
        ensures
            r == (Component {  }),
    {
        Component {  }
    }
}

impl Component {
    /// One invocation: build the ports, decode the inputs atomically, run
    /// handler logic, and return the collected outputs.
    pub fn execute(&self, payload: &IncomingPayload) -> (r: Result<OutputCollection, DispatchError>)
        ensures
            match r {
                Ok(out) => execute_spec(payload.fields_view()) == Ok::<Seq<EntryV>, ErrorSpec>(out@),
                Err(e) => execute_spec(payload.fields_view()) == Err::<Seq<EntryV>, ErrorSpec>(e@),
            },
    {
        let outputs = get_outputs(payload.id());
        let inputs = match populate_inputs(payload) {
            Ok(i) => i,
            Err(e) => {
                return Err(e);
            },
        };
        let mut out = OutputCollection::new();
        let ghost message = inputs.message@;
        match job(inputs, &outputs, &mut out) {
            Ok(()) => {},
            Err(e) => {
                return Err(e);
            },
        }
        proof {
            assert(out@ =~= output_entries(message));
        }
        Ok(out)
    }
}

/// The consuming side of one invocation's outputs, handed out port by
/// port.
#[derive(Debug)]
pub struct Outputs {
    packets: ProviderOutput,
}

impl Outputs {
    /// The entries not yet taken off a port.
    pub closed spec fn packets_view(&self) -> Seq<EntryV> {
        self.packets@
    }

    /// Removes and returns everything written to the `greeting` port, in
    /// write order; fails with `PortNotProduced` when the port was never
    /// written to.
    pub fn greeting(&mut self) -> (r: Result<PortOutput, DispatchError>)
        ensures
            final(self).packets_view() == without(old(self).packets_view(), "greeting"@),
            match r {
                Ok(po) => values_for(old(self).packets_view(), "greeting"@).len() > 0 && po.port@
                    == "greeting"@ && cell_views(po.values@) == values_for(
                    old(self).packets_view(),
                    "greeting"@,
                ),
                Err(e) => values_for(old(self).packets_view(), "greeting"@).len() == 0 && e@
                    == ErrorSpec::PortNotProduced("greeting"@),
            },
    {
        match self.packets.take("greeting") {
            Some(vals) => Ok(PortOutput::new("greeting".to_owned(), vals)),
            None => Err(DispatchError::PortNotProduced("greeting".to_owned())),
        }
    }
}

impl From<ProviderOutput> for Outputs {
    /// Wraps the decoded response entries for port-by-port consumption.
    fn from(packets: ProviderOutput) -> (r: Outputs)
        ensures
            r.packets_view() == packets@,
    {
        Outputs { packets }
    }
}

impl vstd::std_specs::convert::FromSpecImpl<ProviderOutput> for Outputs {
    open spec fn obeys_from_spec() -> bool {
        true
    }

    closed spec fn from_spec(packets: ProviderOutput) -> Outputs {
        Outputs { packets }
    }
}

} // verus!

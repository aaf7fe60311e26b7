//! The `http-request` operation: reads a `request` record and writes one
//! record to the `response` port.
//!
//! The outbound call named by the request's link is the host's work, out of
//! this layer's scope: the handler here answers locally, echoing the
//! request's url as the response body and its method as a header, so that
//! every well-formed request produces a response on the declared port.

use vstd::prelude::*;
use crate::codec::{lookup, EntryV};
use crate::error::{DispatchError, ErrorSpec};
use crate::payload::IncomingPayload;
use crate::ports::{cell_views, values_for, without, OutputCollection, PortOutput, ProviderOutput};
use crate::transport::TransportMap;
use crate::types::{
    decode_http_request, encode_http_request, encode_http_response, http_request_cell,
    http_response_cell, parse_http_request_cell, HttpRequest, HttpRequestV, HttpResponse,
    HttpResponseV,
};

verus! {

/// The declared inputs of the operation.
#[derive(Debug)]
pub struct Inputs {
    pub request: HttpRequest,
}

/// Decoding the declared inputs out of the payload fields.
pub open spec fn inputs_spec(fields: Seq<EntryV>) -> Result<HttpRequestV, ErrorSpec> {
    match lookup(fields, "request"@) {
        Option::None => Err(ErrorSpec::FieldNotFound("request"@)),
        Option::Some(rc) => match parse_http_request_cell(rc) {
            Option::None => Err(ErrorSpec::TypeMismatch("request"@, "record"@)),
            Option::Some(r) => Ok(r),
        },
    }
}

/// A payload missing the required field fails with exactly that field.
pub proof fn lemma_inputs_missing_field(fields: Seq<EntryV>)
    ensures
        lookup(fields, "request"@) is None ==> inputs_spec(fields) == Err::<
            HttpRequestV,
            ErrorSpec,
        >(ErrorSpec::FieldNotFound("request"@)),
{
}

/// A field present but of the wrong shape fails with `TypeMismatch` naming
/// exactly that field.
pub proof fn lemma_inputs_type_mismatch(fields: Seq<EntryV>)
    ensures
        (lookup(fields, "request"@) is Some && parse_http_request_cell(
            lookup(fields, "request"@)->0,
        ) is None) ==> inputs_spec(fields) == Err::<HttpRequestV, ErrorSpec>(
            ErrorSpec::TypeMismatch("request"@, "record"@),
        ),
{
}

/// Constructs the Input Set, atomically.
pub fn populate_inputs(payload: &IncomingPayload) -> (r: Result<Inputs, DispatchError>)
    ensures
        match r {
            Ok(i) => inputs_spec(payload.fields_view()) == Ok::<HttpRequestV, ErrorSpec>(
                i.request@,
            ),
            Err(e) => inputs_spec(payload.fields_view()) == Err::<HttpRequestV, ErrorSpec>(e@),
        },
{
    let request_cell = match payload.get("request") {
        Ok(c) => c,
        Err(e) => {
            return Err(e);
        },
    };
    let request = match decode_http_request(request_cell.as_slice()) {
        Some(r) => r,
        None => {
            return Err(DispatchError::TypeMismatch("request".to_owned(), "record".to_owned()));
        },
    };
    Ok(Inputs { request })
}

impl Inputs {
    /// The inputs as a transport map, under their declared field names.
    pub fn to_transport_map(&self) -> (r: TransportMap)
        ensures
            r@ == seq![EntryV { name: "request"@, value: http_request_cell(self.request@) }],
    {
        let mut map = TransportMap::new();
        map.insert("request", encode_http_request(&self.request));
        proof {
            assert(map@ =~= seq![
                EntryV { name: "request"@, value: http_request_cell(self.request@) },
            ]);
        }
        map
    }
}

/// The pre-bound sender of the `response` output port.
#[derive(Debug, PartialEq, Clone)]
pub struct ResponseSender {
    id: u32,
}

impl ResponseSender {
    /// The invocation-scoped id the sender was created with.
    pub closed spec fn id_view(&self) -> u32 {
        self.id
    }

    /// The port's name.
    pub fn get_name(&self) -> (r: String)
        ensures
            r@ == "response"@,
    {
        "response".to_owned()
    }

    /// The port's invocation-scoped numeric id.
    pub fn get_id(&self) -> (r: u32)
        ensures
            r == self.id_view(),
    {
        self.id
    }

    /// Appends one value to the invocation's Output Collection under this
    /// port's name.
    pub fn send(&self, out: &mut OutputCollection, value: &HttpResponse)
        ensures
            final(out)@ == old(out)@.push(
                EntryV { name: "response"@, value: http_response_cell(value@) },
            ),
    {
        out.write("response", encode_http_response(value));
    }
}

/// The declared output ports of the operation.
#[derive(Debug)]
pub struct OutputPorts {
    pub response: ResponseSender,
}

/// Binds the declared ports to the invocation id.
pub fn get_outputs(id: u32) -> (r: OutputPorts)
    ensures
        r.response.id_view() == id,
{
    OutputPorts { response: ResponseSender { id } }
}

/// The response written for the given request: its url as the body and its
/// method under a `method` header.
pub open spec fn response_of(r: HttpRequestV) -> HttpResponseV {
    HttpResponseV { body: r.url, headers: seq![("method"@, r.method)] }
}

/// The Output Collection produced by a successful invocation.
pub open spec fn output_entries(r: HttpRequestV) -> Seq<EntryV> {
    seq![EntryV { name: "response"@, value: http_response_cell(response_of(r)) }]
}

/// What one invocation returns for the given payload fields.
pub open spec fn execute_spec(fields: Seq<EntryV>) -> Result<Seq<EntryV>, ErrorSpec> {
    match inputs_spec(fields) {
        Result::Err(e) => Err(e),
        Result::Ok(r) => Ok(output_entries(r)),
    }
}

/// Handler logic: answers the request locally and writes the response port.
pub fn job(inputs: Inputs, outputs: &OutputPorts, out: &mut OutputCollection) -> (r: Result<
    (),
    DispatchError,
>)
    ensures
        r is Ok,
        final(out)@ == old(out)@.push(
            EntryV { name: "response"@, value: http_response_cell(response_of(inputs.request@)) },
        ),
{
    let headers: Vec<(String, String)> = vec![("method".to_owned(), inputs.request.method.clone())];
    let response = HttpResponse { body: inputs.request.url.clone(), headers };
    proof {
        assert(response@ =~= response_of(inputs.request@));
    }
    outputs.response.send(out, &response);
    Ok(())
}

/// The handler adapter of the `http-request` operation.
#[derive(Debug)]
pub struct Component {}

impl Default for Component {
    fn default() -> (r: Component)
        ensures
            r == (Component {  }),
    {
        Component {  }
    }
}

impl Component {
    /// One invocation: build the ports, decode the inputs atomically, run
    /// handler logic, and return the collected outputs.
    pub fn execute(&self, payload: &IncomingPayload) -> (r: Result<OutputCollection, DispatchError>)
        ensures
            match r {
                Ok(out) => execute_spec(payload.fields_view()) == Ok::<Seq<EntryV>, ErrorSpec>(out@),
                Err(e) => execute_spec(payload.fields_view()) == Err::<Seq<EntryV>, ErrorSpec>(e@),
            },
    {
        let outputs = get_outputs(payload.id());
        let inputs = match populate_inputs(payload) {
            Ok(i) => i,
            Err(e) => {
                return Err(e);
            },
        };
        let mut out = OutputCollection::new();
        let ghost request = inputs.request@;
        match job(inputs, &outputs, &mut out) {
            Ok(()) => {},
            Err(e) => {
                return Err(e);
            },
        }
        proof {
            assert(out@ =~= output_entries(request));
        }
        Ok(out)
    }
}

/// The consuming side of one invocation's outputs, handed out port by
/// port.
#[derive(Debug)]
pub struct Outputs {
    packets: ProviderOutput,
}

impl Outputs {
    /// The entries not yet taken off a port.
    pub closed spec fn packets_view(&self) -> Seq<EntryV> {
        self.packets@
    }

    /// Removes and returns everything written to the `response` port, in
    /// write order; fails with `PortNotProduced` when the port was never
    /// written to.
    pub fn response(&mut self) -> (r: Result<PortOutput, DispatchError>)
        ensures
            final(self).packets_view() == without(old(self).packets_view(), "response"@),
            match r {
                Ok(po) => values_for(old(self).packets_view(), "response"@).len() > 0 && po.port@
                    == "response"@ && cell_views(po.values@) == values_for(
                    old(self).packets_view(),
                    "response"@,
                ),
                Err(e) => values_for(old(self).packets_view(), "response"@).len() == 0 && e@
                    == ErrorSpec::PortNotProduced("response"@),
            },
    {
        match self.packets.take("response") {
            Some(vals) => Ok(PortOutput::new("response".to_owned(), vals)),
            None => Err(DispatchError::PortNotProduced("response".to_owned())),
        }
    }
}

impl From<ProviderOutput> for Outputs {
    /// Wraps the decoded response entries for port-by-port consumption.
    fn from(packets: ProviderOutput) -> (r: Outputs)
        ensures
            r.packets_view() == packets@,
    {
        Outputs { packets }
    }
}

impl vstd::std_specs::convert::FromSpecImpl<ProviderOutput> for Outputs {
    open spec fn obeys_from_spec() -> bool {
        true
    }

    closed spec fn from_spec(packets: ProviderOutput) -> Outputs {
        Outputs { packets }
    }
}

} // verus!

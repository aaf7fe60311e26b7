//! The operation registry and the top-level dispatcher.
//!
//! Dispatch demultiplexes an operation name against the fixed registry by
//! exact string match, drives decode, handler invocation and aggregation,
//! and serializes the resulting Output Collection into one outgoing buffer.

use vstd::prelude::*;
use vstd::bytes::lemma_auto_spec_u64_to_from_le_bytes;
use crate::codec::{
    entries_bytes, entries_wf, entry_wf, lemma_ascii_encode_len, lemma_parse_entries_round_trip,
    parse_entries, EntryV,
};
use crate::error::{DispatchError, ErrorSpec};
use crate::payload::{parse_payload, IncomingPayload};
use crate::ports::port_names;

verus! {

broadcast use
    vstd::utf8::encode_utf8_valid_utf8,
    vstd::utf8::encode_utf8_decode_utf8,
    vstd::string::group_string_axioms;

/// The registered operation names, in declared order.
pub open spec fn registry_names() -> Seq<Seq<char>> {
    seq!["add"@, "hello-world"@, "http-request"@]
}

/// Whether an operation name is in the registry.
pub open spec fn registered(op: Seq<char>) -> bool {
    op == "add"@ || op == "hello-world"@ || op == "http-request"@
}

/// What one dispatch returns for the given operation name and request
/// buffer: the serialized Output Collection of the one matching handler,
/// or the error of the first step that failed.
pub open spec fn dispatch_spec(op: Seq<char>, request: Seq<u8>) -> Result<Seq<u8>, ErrorSpec> {
    match parse_payload(request) {
        Option::None => Err(ErrorSpec::BoundaryDecodeFailure),
        Option::Some(p) => {
            if op == "add"@ {
                match crate::add::execute_spec(p.fields) {
                    Result::Err(e) => Err(e),
                    Result::Ok(es) => Ok(entries_bytes(es)),
                }
            } else if op == "hello-world"@ {
                match crate::hello_world::execute_spec(p.fields) {
                    Result::Err(e) => Err(e),
                    Result::Ok(es) => Ok(entries_bytes(es)),
                }
            } else if op == "http-request"@ {
                match crate::http_request::execute_spec(p.fields) {
                    Result::Err(e) => Err(e),
                    Result::Ok(es) => Ok(entries_bytes(es)),
                }
            } else {
                Err(ErrorSpec::ComponentNotFound(op, registry_names()))
            }
        },
    }
}

/// Dispatching a name not in the registry fails with `ComponentNotFound`
/// carrying the requested name and the full registry listing — the listing
/// independent of the name and of the payload's fields.
pub proof fn lemma_dispatch_unknown(op: Seq<char>, request: Seq<u8>)
    requires
        !registered(op),
        parse_payload(request) is Some,
    ensures
        dispatch_spec(op, request) == Err::<Seq<u8>, ErrorSpec>(
            ErrorSpec::ComponentNotFound(op, registry_names()),
        ),
{
}

/// `add` with a well-formed payload of its declared schema succeeds, and
/// the response buffer parses back to exactly one entry, on the one
/// declared output port `sum`.
pub proof fn lemma_dispatch_add_success(request: Seq<u8>, l: i64, r: i64)
    requires
        parse_payload(request) matches Some(p) && crate::add::inputs_spec(p.fields) == Ok::<
            (i64, i64),
            ErrorSpec,
        >((l, r)),
    ensures
        dispatch_spec("add"@, request) == Ok::<Seq<u8>, ErrorSpec>(
            entries_bytes(crate::add::output_entries(l, r)),
        ),
        parse_entries(entries_bytes(crate::add::output_entries(l, r))) == Some(
            crate::add::output_entries(l, r),
        ),
        port_names(crate::add::output_entries(l, r)) == seq!["sum"@],
{
    let es = crate::add::output_entries(l, r);
    lemma_auto_spec_u64_to_from_le_bytes();
    reveal_strlit("sum");
    assert(vstd::utf8::is_ascii_chars("sum"@));
    lemma_ascii_encode_len("sum"@);
    assert(entry_wf(es[0]));
    assert(entries_wf(es));
    lemma_parse_entries_round_trip(es);
    assert(port_names(es) =~= seq!["sum"@]);
}

/// `hello-world` with a well-formed payload of its declared schema
/// succeeds, and the response buffer parses back to exactly one entry, on
/// the one declared output port `greeting`.
pub proof fn lemma_dispatch_hello_world_success(request: Seq<u8>, m: Seq<char>)
    requires
        parse_payload(request) matches Some(p) && crate::hello_world::inputs_spec(p.fields) == Ok::<
            Seq<char>,
            ErrorSpec,
        >(m),
        vstd::utf8::encode_utf8(m).len() + 1 < 0x1_0000_0000_0000_0000,
    ensures
        dispatch_spec("hello-world"@, request) == Ok::<Seq<u8>, ErrorSpec>(
            entries_bytes(crate::hello_world::output_entries(m)),
        ),
        parse_entries(entries_bytes(crate::hello_world::output_entries(m))) == Some(
            crate::hello_world::output_entries(m),
        ),
        port_names(crate::hello_world::output_entries(m)) == seq!["greeting"@],
{
    let es = crate::hello_world::output_entries(m);
    reveal_strlit("hello-world");
    reveal_strlit("add");
    assert("hello-world"@.len() == 11);
    assert("add"@.len() == 3);
    assert("hello-world"@ != "add"@);
    reveal_strlit("greeting");
    assert(vstd::utf8::is_ascii_chars("greeting"@));
    lemma_ascii_encode_len("greeting"@);
    assert(entry_wf(es[0]));
    assert(entries_wf(es));
    lemma_parse_entries_round_trip(es);
    assert(port_names(es) =~= seq!["greeting"@]);
}

/// `http-request` with a well-formed payload of its declared schema
/// succeeds, and the response buffer parses back to exactly one entry, on
/// the one declared output port `response`. The bounds on the request's
/// parts only keep the re-encoded response within the wire format's 64-bit
/// lengths.
pub proof fn lemma_dispatch_http_request_success(request: Seq<u8>, rv: crate::types::HttpRequestV)
    requires
        parse_payload(request) matches Some(p) && crate::http_request::inputs_spec(p.fields)
            == Ok::<crate::types::HttpRequestV, ErrorSpec>(rv),
        vstd::utf8::encode_utf8(rv.url).len() < 0x1_0000_0000,
        vstd::utf8::encode_utf8(rv.method).len() < 0x1_0000_0000,
    ensures
        dispatch_spec("http-request"@, request) == Ok::<Seq<u8>, ErrorSpec>(
            entries_bytes(crate::http_request::output_entries(rv)),
        ),
        parse_entries(entries_bytes(crate::http_request::output_entries(rv))) == Some(
            crate::http_request::output_entries(rv),
        ),
        port_names(crate::http_request::output_entries(rv)) == seq!["response"@],
{
    let es = crate::http_request::output_entries(rv);
    lemma_auto_spec_u64_to_from_le_bytes();
    reveal_strlit("http-request");
    reveal_strlit("add");
    reveal_strlit("hello-world");
    assert("http-request"@.len() == 12);
    assert("add"@.len() == 3);
    assert("hello-world"@.len() == 11);
    assert("http-request"@ != "add"@ && "http-request"@ != "hello-world"@);
    reveal_strlit("response");
    reveal_strlit("body");
    reveal_strlit("headers");
    reveal_strlit("method");
    assert(vstd::utf8::is_ascii_chars("response"@));
    lemma_ascii_encode_len("response"@);
    assert(vstd::utf8::is_ascii_chars("body"@));
    lemma_ascii_encode_len("body"@);
    assert(vstd::utf8::is_ascii_chars("headers"@));
    lemma_ascii_encode_len("headers"@);
    assert(vstd::utf8::is_ascii_chars("method"@));
    lemma_ascii_encode_len("method"@);
    let resp = crate::http_request::response_of(rv);
    let header_es = crate::types::header_entries(resp.headers);
    reveal_with_fuel(entries_bytes, 3);
    assert(header_es.len() == 1);
    assert(entries_bytes(header_es).len() == 16 + 6 + 1 + vstd::utf8::encode_utf8(
        rv.method,
    ).len()) by {
        assert(header_es.drop_first() =~= Seq::<EntryV>::empty());
    }
    let body_entries = seq![
        EntryV {
            name: "body"@,
            value: crate::codec::text_cell(resp.body, crate::codec::TAG_TEXT),
        },
        EntryV { name: "headers"@, value: crate::types::map_cell(resp.headers) },
    ];
    assert(entries_bytes(body_entries).len() == (16 + 4 + 1 + vstd::utf8::encode_utf8(
        rv.url,
    ).len()) + (16 + 7 + 1 + entries_bytes(header_es).len())) by {
        assert(body_entries.drop_first() =~= seq![
            EntryV { name: "headers"@, value: crate::types::map_cell(resp.headers) },
        ]);
        assert(body_entries.drop_first().drop_first() =~= Seq::<EntryV>::empty());
    }
    assert(crate::types::http_response_cell(resp).len() < 0x1_0000_0000_0000_0000);
    assert(entry_wf(es[0]));
    assert(entries_wf(es));
    lemma_parse_entries_round_trip(es);
    assert(port_names(es) =~= seq!["response"@]);
}

/// Exact, case-sensitive equality of two operation names.
fn op_is(op: &str, name: &str) -> (r: bool)
    ensures
        r == (op@ == name@),
{
    let r = crate::bytes_util::bytes_eq(op.as_bytes(), name.as_bytes());
    proof {
        if r {
            assert(vstd::utf8::decode_utf8(vstd::utf8::encode_utf8(op@)) == op@);
            assert(vstd::utf8::decode_utf8(vstd::utf8::encode_utf8(name@)) == name@);
        }
    }
    r
}

/// The top-level orchestrator.
pub struct Dispatcher {}

impl Dispatcher {
    /// Routes one invocation: decodes the payload envelope, invokes exactly
    /// the one handler registered under the name (never more, never
    /// speculatively), and serializes its Output Collection; an unknown name
    /// fails with the requested name and the full registry listing.
    pub fn dispatch(op: &str, payload: &[u8]) -> (r: Result<Vec<u8>, DispatchError>)
        ensures
            match r {
                Ok(buf) => dispatch_spec(op@, payload@) == Ok::<Seq<u8>, ErrorSpec>(buf@),
                Err(e) => dispatch_spec(op@, payload@) == Err::<Seq<u8>, ErrorSpec>(e@),
            },
    {
        let payload = match IncomingPayload::from_buffer(payload) {
            Ok(p) => p,
            Err(e) => {
                return Err(e);
            },
        };
        let result = if op_is(op, "add") {
            crate::add::Component::default().execute(&payload)
        } else if op_is(op, "hello-world") {
            crate::hello_world::Component::default().execute(&payload)
        } else if op_is(op, "http-request") {
            crate::http_request::Component::default().execute(&payload)
        } else {
            let available: Vec<String> = vec![
                "add".to_owned(),
                "hello-world".to_owned(),
                "http-request".to_owned(),
            ];
            proof {
                assert(available.deep_view() =~= registry_names());
            }
            return Err(DispatchError::ComponentNotFound(op.to_owned(), available));
        };
        match result {
            Ok(collection) => Ok(collection.serialize()),
            Err(e) => Err(e),
        }
    }
}

} // verus!

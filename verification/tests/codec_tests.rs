//! Round trips and edge cases of the envelope codec, the payload decoder,
//! and the port machinery.

use guest_dispatch::add;
use guest_dispatch::codec::{
    decode_entries_slice, decode_int64_cell, decode_text_cell, encode_entries_vec,
    encode_int64_cell, encode_text_cell, Entry, TAG_INT64, TAG_LINK, TAG_TEXT,
};
use guest_dispatch::error::DispatchError;
use guest_dispatch::hello_world;
use guest_dispatch::payload::IncomingPayload;
use guest_dispatch::ports::{OutputCollection, ProviderOutput};
use guest_dispatch::transport::TransportMap;
use guest_dispatch::types::{
    decode_http_request, decode_http_response, encode_http_request, encode_http_response,
    HttpRequest, HttpResponse, LinkRef,
};

fn entry(name: &str, value: Vec<u8>) -> Entry {
    Entry { name: name.to_string(), value }
}

#[test]
fn entries_round_trip_preserves_order_and_duplicates() {
    let entries = vec![
        entry("b", vec![1, 2, 3]),
        entry("a", vec![]),
        entry("b", vec![9]),
        entry("", vec![0xff]),
    ];
    let buffer = encode_entries_vec(&entries);
    let decoded = decode_entries_slice(&buffer).unwrap();
    assert_eq!(decoded.len(), 4);
    for (before, after) in entries.iter().zip(decoded.iter()) {
        assert_eq!(before.name, after.name);
        assert_eq!(before.value, after.value);
    }
}

#[test]
fn empty_envelope_round_trips() {
    let buffer = encode_entries_vec(&Vec::new());
    assert_eq!(buffer.len(), 0);
    let decoded = decode_entries_slice(&buffer).unwrap();
    assert_eq!(decoded.len(), 0);
}

#[test]
fn truncated_envelope_is_rejected() {
    let entries = vec![entry("name", vec![1, 2, 3, 4])];
    let buffer = encode_entries_vec(&entries);
    assert!(decode_entries_slice(&buffer[..buffer.len() - 1]).is_none());
    assert!(decode_entries_slice(&buffer[..5]).is_none());
}

#[test]
fn envelope_with_invalid_name_text_is_rejected() {
    // One entry whose one-byte name is not valid UTF-8.
    let mut buffer = vec![1, 0, 0, 0, 0, 0, 0, 0];
    buffer.push(0xff);
    buffer.extend_from_slice(&[0, 0, 0, 0, 0, 0, 0, 0]);
    assert!(decode_entries_slice(&buffer).is_none());
}

#[test]
fn int64_cell_round_trips() {
    for v in [0i64, 1, -1, 42, i64::MAX, i64::MIN] {
        let cell = encode_int64_cell(v);
        assert_eq!(cell.len(), 9);
        assert_eq!(cell[0], TAG_INT64);
        assert_eq!(decode_int64_cell(&cell), Some(v));
    }
}

#[test]
fn int64_cell_rejects_wrong_tag_and_length() {
    let mut cell = encode_int64_cell(7);
    cell[0] = TAG_TEXT;
    assert_eq!(decode_int64_cell(&cell), None);
    assert_eq!(decode_int64_cell(&cell[..8]), None);
    assert_eq!(decode_int64_cell(&[]), None);
}

#[test]
fn text_cell_round_trips() {
    for s in ["", "hi", "naïve — ünïcode ✓"] {
        let cell = encode_text_cell(s, TAG_TEXT);
        assert_eq!(decode_text_cell(&cell, TAG_TEXT), Some(s.to_string()));
    }
}

#[test]
fn text_cell_distinguishes_tags() {
    let cell = encode_text_cell("target", TAG_LINK);
    assert_eq!(decode_text_cell(&cell, TAG_TEXT), None);
    assert_eq!(decode_text_cell(&cell, TAG_LINK), Some("target".to_string()));
}

#[test]
fn http_request_record_round_trips() {
    let record = HttpRequest {
        url: "https://example.test".to_string(),
        method: "POST".to_string(),
        link: LinkRef { target: "provider".to_string() },
    };
    let cell = encode_http_request(&record);
    let decoded = decode_http_request(&cell).unwrap();
    assert_eq!(decoded.url, record.url);
    assert_eq!(decoded.method, record.method);
    assert_eq!(decoded.link.target, record.link.target);
}

#[test]
fn http_response_record_round_trips() {
    let record = HttpResponse {
        body: "hello".to_string(),
        headers: vec![
            ("content-type".to_string(), "text/plain".to_string()),
            ("x-empty".to_string(), "".to_string()),
        ],
    };
    let cell = encode_http_response(&record);
    let decoded = decode_http_response(&cell).unwrap();
    assert_eq!(decoded.body, record.body);
    assert_eq!(decoded.headers, record.headers);
}

#[test]
fn payload_get_is_idempotent() {
    let mut map = TransportMap::new();
    map.insert("left", encode_int64_cell(41));
    map.insert("right", encode_int64_cell(1));
    let buffer = map.to_buffer(3);
    let payload = IncomingPayload::from_buffer(&buffer).unwrap();
    assert_eq!(payload.id(), 3);
    let first = payload.get("left").unwrap().clone();
    let second = payload.get("left").unwrap().clone();
    assert_eq!(first, second);
    assert_eq!(decode_int64_cell(&first), Some(41));
}

#[test]
fn payload_get_missing_field() {
    let buffer = TransportMap::new().to_buffer(0);
    let payload = IncomingPayload::from_buffer(&buffer).unwrap();
    match payload.get("anything").unwrap_err() {
        DispatchError::FieldNotFound(field) => assert_eq!(field, "anything"),
        other => panic!("expected FieldNotFound, got {:?}", other),
    }
}

#[test]
fn populate_inputs_reads_declared_fields() {
    let mut map = TransportMap::new();
    map.insert("left", encode_int64_cell(-5));
    map.insert("right", encode_int64_cell(12));
    let buffer = map.to_buffer(0);
    let payload = IncomingPayload::from_buffer(&buffer).unwrap();
    let inputs = add::populate_inputs(&payload).unwrap();
    assert_eq!(inputs.left, -5);
    assert_eq!(inputs.right, 12);
    let round = inputs.to_transport_map().to_buffer(0);
    let payload2 = IncomingPayload::from_buffer(&round).unwrap();
    let inputs2 = add::populate_inputs(&payload2).unwrap();
    assert_eq!(inputs2.left, -5);
    assert_eq!(inputs2.right, 12);
}

#[test]
fn writing_one_sender_twice_keeps_both_in_order() {
    let ports = hello_world::get_outputs(4);
    assert_eq!(ports.greeting.get_id(), 4);
    assert_eq!(ports.greeting.get_name(), "greeting");
    let mut out = OutputCollection::new();
    ports.greeting.send(&mut out, "first");
    ports.greeting.send(&mut out, "second");
    let buffer = out.serialize();
    let mut output = ProviderOutput::from_buffer(&buffer).unwrap();
    let values = output.take("greeting").unwrap();
    assert_eq!(values.len(), 2);
    assert_eq!(decode_text_cell(&values[0], TAG_TEXT), Some("first".to_string()));
    assert_eq!(decode_text_cell(&values[1], TAG_TEXT), Some("second".to_string()));
}

#[test]
fn output_collection_round_trips_across_the_boundary() {
    let ports = add::get_outputs(9);
    let mut out = OutputCollection::new();
    ports.sum.send(&mut out, 10);
    ports.sum.send(&mut out, -10);
    let buffer = out.serialize();
    let decoded = decode_entries_slice(&buffer).unwrap();
    assert_eq!(decoded.len(), 2);
    assert_eq!(decoded[0].name, "sum");
    assert_eq!(decode_int64_cell(&decoded[0].value), Some(10));
    assert_eq!(decoded[1].name, "sum");
    assert_eq!(decode_int64_cell(&decoded[1].value), Some(-10));
}

#[test]
fn outputs_report_port_not_produced() {
    let empty = ProviderOutput::from_buffer(&[]).unwrap();
    let mut outputs = add::Outputs::from(empty);
    match outputs.sum().unwrap_err() {
        DispatchError::PortNotProduced(port) => assert_eq!(port, "sum"),
        other => panic!("expected PortNotProduced, got {:?}", other),
    }
}

#[test]
fn outputs_hand_out_each_port_once() {
    let request = {
        let mut map = TransportMap::new();
        map.insert("left", encode_int64_cell(20));
        map.insert("right", encode_int64_cell(22));
        map.to_buffer(5)
    };
    let response = guest_dispatch::dispatch::Dispatcher::dispatch("add", &request).unwrap();
    let provider = ProviderOutput::from_buffer(&response).unwrap();
    let mut outputs = add::Outputs::from(provider);
    let port = outputs.sum().unwrap();
    assert_eq!(port.port, "sum");
    assert_eq!(port.values.len(), 1);
    assert_eq!(decode_int64_cell(&port.values[0]), Some(42));
    assert!(matches!(outputs.sum(), Err(DispatchError::PortNotProduced(_))));
}

//! End-to-end dispatch scenarios and error-path tests.

use guest_dispatch::codec::{decode_int64_cell, decode_text_cell, encode_int64_cell, encode_text_cell, TAG_TEXT};
use guest_dispatch::dispatch::Dispatcher;
use guest_dispatch::error::DispatchError;
use guest_dispatch::ports::ProviderOutput;
use guest_dispatch::transport::TransportMap;
use guest_dispatch::types::{encode_http_request, decode_http_response, HttpRequest, LinkRef};

fn add_request(fields: &[(&str, i64)]) -> Vec<u8> {
    let mut map = TransportMap::new();
    for (name, value) in fields {
        map.insert(name, encode_int64_cell(*value));
    }
    map.to_buffer(1)
}

#[test]
fn add_success_sums_inputs() {
    let request = add_request(&[("left", 2), ("right", 3)]);
    let response = Dispatcher::dispatch("add", &request).unwrap();
    let mut output = ProviderOutput::from_buffer(&response).unwrap();
    let values = output.take("sum").unwrap();
    assert_eq!(values.len(), 1);
    assert_eq!(decode_int64_cell(&values[0]), Some(5));
    assert!(output.take("sum").is_none());
}

#[test]
fn add_success_wraps_on_overflow() {
    let request = add_request(&[("left", i64::MAX), ("right", 1)]);
    let response = Dispatcher::dispatch("add", &request).unwrap();
    let mut output = ProviderOutput::from_buffer(&response).unwrap();
    let values = output.take("sum").unwrap();
    assert_eq!(decode_int64_cell(&values[0]), Some(i64::MIN));
}

#[test]
fn add_missing_right_field() {
    let request = add_request(&[("left", 2)]);
    let err = Dispatcher::dispatch("add", &request).unwrap_err();
    match err {
        DispatchError::FieldNotFound(field) => assert_eq!(field, "right"),
        other => panic!("expected FieldNotFound, got {:?}", other),
    }
}

#[test]
fn add_missing_left_reported_first() {
    let request = add_request(&[("right", 3)]);
    let err = Dispatcher::dispatch("add", &request).unwrap_err();
    match err {
        DispatchError::FieldNotFound(field) => assert_eq!(field, "left"),
        other => panic!("expected FieldNotFound, got {:?}", other),
    }
}

#[test]
fn add_wrong_shape_is_type_mismatch() {
    let mut map = TransportMap::new();
    map.insert("left", encode_text_cell("two", TAG_TEXT));
    map.insert("right", encode_int64_cell(3));
    let err = Dispatcher::dispatch("add", &map.to_buffer(1)).unwrap_err();
    match err {
        DispatchError::TypeMismatch(field, shape) => {
            assert_eq!(field, "left");
            assert_eq!(shape, "int64");
        },
        other => panic!("expected TypeMismatch, got {:?}", other),
    }
}

#[test]
fn add_short_circuits_on_first_bad_field() {
    // `left` has the wrong shape and `right` is absent: the first failure,
    // in declared order, is the one reported.
    let mut map = TransportMap::new();
    map.insert("left", encode_text_cell("two", TAG_TEXT));
    let err = Dispatcher::dispatch("add", &map.to_buffer(1)).unwrap_err();
    match err {
        DispatchError::TypeMismatch(field, _) => assert_eq!(field, "left"),
        other => panic!("expected TypeMismatch, got {:?}", other),
    }
}

#[test]
fn unknown_operation_lists_registry() {
    let request = TransportMap::new().to_buffer(1);
    let err = Dispatcher::dispatch("subtract", &request).unwrap_err();
    match err {
        DispatchError::ComponentNotFound(requested, available) => {
            assert_eq!(requested, "subtract");
            assert_eq!(available, vec!["add", "hello-world", "http-request"]);
        },
        other => panic!("expected ComponentNotFound, got {:?}", other),
    }
}

#[test]
fn unknown_operation_listing_is_independent_of_name() {
    let request = TransportMap::new().to_buffer(1);
    for name in ["", "Add", "add ", "multiply"] {
        let err = Dispatcher::dispatch(name, &request).unwrap_err();
        match err {
            DispatchError::ComponentNotFound(requested, available) => {
                assert_eq!(requested, name);
                assert_eq!(available, vec!["add", "hello-world", "http-request"]);
            },
            other => panic!("expected ComponentNotFound, got {:?}", other),
        }
    }
}

#[test]
fn hello_world_greets_with_message() {
    let mut map = TransportMap::new();
    map.insert("message", encode_text_cell("hi", TAG_TEXT));
    let response = Dispatcher::dispatch("hello-world", &map.to_buffer(1)).unwrap();
    let mut output = ProviderOutput::from_buffer(&response).unwrap();
    let values = output.take("greeting").unwrap();
    assert_eq!(values.len(), 1);
    assert_eq!(decode_text_cell(&values[0], TAG_TEXT), Some("hi".to_string()));
}

#[test]
fn hello_world_missing_message() {
    let request = TransportMap::new().to_buffer(1);
    let err = Dispatcher::dispatch("hello-world", &request).unwrap_err();
    match err {
        DispatchError::FieldNotFound(field) => assert_eq!(field, "message"),
        other => panic!("expected FieldNotFound, got {:?}", other),
    }
}

#[test]
fn http_request_answers_on_response_port() {
    let request_record = HttpRequest {
        url: "https://example.test/x".to_string(),
        method: "GET".to_string(),
        link: LinkRef { target: "self".to_string() },
    };
    let mut map = TransportMap::new();
    map.insert("request", encode_http_request(&request_record));
    let response = Dispatcher::dispatch("http-request", &map.to_buffer(1)).unwrap();
    let mut output = ProviderOutput::from_buffer(&response).unwrap();
    let values = output.take("response").unwrap();
    assert_eq!(values.len(), 1);
    let decoded = decode_http_response(&values[0]).unwrap();
    assert_eq!(decoded.body, "https://example.test/x");
    assert_eq!(decoded.headers, vec![("method".to_string(), "GET".to_string())]);
}

#[test]
fn http_request_wrong_shape_is_type_mismatch() {
    let mut map = TransportMap::new();
    map.insert("request", encode_int64_cell(9));
    let err = Dispatcher::dispatch("http-request", &map.to_buffer(1)).unwrap_err();
    match err {
        DispatchError::TypeMismatch(field, shape) => {
            assert_eq!(field, "request");
            assert_eq!(shape, "record");
        },
        other => panic!("expected TypeMismatch, got {:?}", other),
    }
}

#[test]
fn truncated_request_is_boundary_failure() {
    let err = Dispatcher::dispatch("add", &[1, 2]).unwrap_err();
    assert!(matches!(err, DispatchError::BoundaryDecodeFailure));
}

#[test]
fn garbage_envelope_is_boundary_failure() {
    // A valid id prefix followed by a field envelope that is cut short.
    let err = Dispatcher::dispatch("add", &[0, 0, 0, 0, 9, 9, 9]).unwrap_err();
    assert!(matches!(err, DispatchError::BoundaryDecodeFailure));
}

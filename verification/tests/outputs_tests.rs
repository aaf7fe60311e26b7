//! Per-operation transport maps and host-side output consumption.

use guest_dispatch::codec::{decode_text_cell, TAG_TEXT};
use guest_dispatch::dispatch::Dispatcher;
use guest_dispatch::error::DispatchError;
use guest_dispatch::hello_world;
use guest_dispatch::http_request;
use guest_dispatch::ports::ProviderOutput;
use guest_dispatch::types::{decode_http_response, HttpRequest, LinkRef};

#[test]
fn hello_world_transport_map_round_trips_through_dispatch() {
    let inputs = hello_world::Inputs { message: "round trip".to_string() };
    let request = inputs.to_transport_map().to_buffer(2);
    let response = Dispatcher::dispatch("hello-world", &request).unwrap();
    let provider = ProviderOutput::from_buffer(&response).unwrap();
    let mut outputs = hello_world::Outputs::from(provider);
    let port = outputs.greeting().unwrap();
    assert_eq!(port.port, "greeting");
    assert_eq!(port.values.len(), 1);
    assert_eq!(decode_text_cell(&port.values[0], TAG_TEXT), Some("round trip".to_string()));
}

#[test]
fn http_request_transport_map_round_trips_through_dispatch() {
    let inputs = http_request::Inputs {
        request: HttpRequest {
            url: "https://example.test/echo".to_string(),
            method: "PUT".to_string(),
            link: LinkRef { target: "upstream".to_string() },
        },
    };
    let request = inputs.to_transport_map().to_buffer(8);
    let response = Dispatcher::dispatch("http-request", &request).unwrap();
    let provider = ProviderOutput::from_buffer(&response).unwrap();
    let mut outputs = http_request::Outputs::from(provider);
    let port = outputs.response().unwrap();
    assert_eq!(port.port, "response");
    assert_eq!(port.values.len(), 1);
    let decoded = decode_http_response(&port.values[0]).unwrap();
    assert_eq!(decoded.body, "https://example.test/echo");
    assert_eq!(decoded.headers, vec![("method".to_string(), "PUT".to_string())]);
}

#[test]
fn greeting_port_not_produced_on_empty_output() {
    let provider = ProviderOutput::from_buffer(&[]).unwrap();
    let mut outputs = hello_world::Outputs::from(provider);
    match outputs.greeting().unwrap_err() {
        DispatchError::PortNotProduced(port) => assert_eq!(port, "greeting"),
        other => panic!("expected PortNotProduced, got {:?}", other),
    }
}

#[test]
fn response_port_not_produced_on_empty_output() {
    let provider = ProviderOutput::from_buffer(&[]).unwrap();
    let mut outputs = http_request::Outputs::from(provider);
    match outputs.response().unwrap_err() {
        DispatchError::PortNotProduced(port) => assert_eq!(port, "response"),
        other => panic!("expected PortNotProduced, got {:?}", other),
    }
}

#[test]
fn sender_ids_are_invocation_scoped() {
    let a = http_request::get_outputs(1);
    let b = http_request::get_outputs(2);
    assert_eq!(a.response.get_id(), 1);
    assert_eq!(b.response.get_id(), 2);
    assert_eq!(a.response.get_name(), "response");
    let add_ports = guest_dispatch::add::get_outputs(3);
    assert_eq!(add_ports.sum.get_id(), 3);
    assert_eq!(add_ports.sum.get_name(), "sum");
}

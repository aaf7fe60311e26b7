//! Guest-side dispatch and marshaling layer for a sandboxed plugin component.
//!
//! The component talks to its host across a byte-buffer-only boundary: the
//! host hands over an operation name and a serialized request, and receives
//! either a serialized collection of named output values or a typed error.
//! This crate provides the operation registry and dispatcher, the envelope
//! codec that maps byte buffers to named fields and back, the per-operation
//! input decoding, and the port abstraction through which handlers emit
//! named outputs.

pub mod add;
pub mod bytes_util;
pub mod codec;
pub mod dispatch;
pub mod error;
pub mod hello_world;
pub mod http_request;
pub mod payload;
pub mod ports;
pub mod transport;
pub mod types;

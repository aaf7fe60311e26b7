//! Typed error taxonomy for the dispatch layer.
//!
//! Every component-level failure is a value of [`DispatchError`]; nothing in
//! this layer signals failure by panicking across the boundary.

use vstd::prelude::*;

verus! {

/// A failure raised while dispatching one invocation.
#[derive(Debug)]
pub enum DispatchError {
    /// The requested operation name is not in the registry; carries the
    /// requested name and the full list of registered names.
    ComponentNotFound(String, Vec<String>),
    /// A required input field was absent from the payload envelope.
    FieldNotFound(String),
    /// A field was present but its cell did not decode into the declared
    /// type; carries the field name and the expected shape.
    TypeMismatch(String, String),
    /// A declared output port was never written to during the invocation.
    PortNotProduced(String),
    /// Domain-specific failure raised by handler logic itself.
    HandlerFailure(String),
    /// The request buffer itself was not a well-formed envelope.
    BoundaryDecodeFailure,
}

/// Mathematical model of a [`DispatchError`]: names as character sequences.
#[verifier::ext_equal]
pub enum ErrorSpec {
    ComponentNotFound(Seq<char>, Seq<Seq<char>>),
    FieldNotFound(Seq<char>),
    TypeMismatch(Seq<char>, Seq<char>),
    PortNotProduced(Seq<char>),
    HandlerFailure(Seq<char>),
    BoundaryDecodeFailure,
}

impl View for DispatchError {
    type V = ErrorSpec;

    open spec fn view(&self) -> ErrorSpec {
        match self {
            DispatchError::ComponentNotFound(name, available) => ErrorSpec::ComponentNotFound(
                name@,
                available.deep_view(),
            ),
            DispatchError::FieldNotFound(field) => ErrorSpec::FieldNotFound(field@),
            DispatchError::TypeMismatch(field, shape) => ErrorSpec::TypeMismatch(field@, shape@),
            DispatchError::PortNotProduced(port) => ErrorSpec::PortNotProduced(port@),
            DispatchError::HandlerFailure(detail) => ErrorSpec::HandlerFailure(detail@),
            DispatchError::BoundaryDecodeFailure => ErrorSpec::BoundaryDecodeFailure,
        }
    }
}

} // verus!

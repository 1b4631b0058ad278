//! The description of an RPC method.

use crate::codec::Marshaller;
use vstd::prelude::*;

verus! {

/// How the messages of a call flow.
#[derive(Clone, Copy, Debug, PartialEq, Eq, Structural)]
pub enum MethodType {
    /// One request, one response.
    Unary,
    /// A stream of requests, one response.
    ClientStreaming,
    /// One request, a stream of responses.
    ServerStreaming,
    /// A stream of requests and a stream of responses.
    Duplex,
}

/// An RPC method: its name on the wire, how its messages flow, and the
/// marshaller of each direction. A method is made once and never changed.
pub struct Method<QS, QD, PS, PD> {
    /// The kind of call.
    pub ty: MethodType,
    /// The name by which calls are routed to the method.
    pub name: &'static str,
    /// The marshaller of the request.
    pub req_mar: Marshaller<QS, QD>,
    /// The marshaller of the response.
    pub resp_mar: Marshaller<PS, PD>,
}

} // verus!

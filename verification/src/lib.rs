//! Wire-format marshalling for an RPC call path.
//!
//! A [`codec::Marshaller`] binds one message type to one wire format as a pair
//! of functions: one appends the encoding of a value to an output buffer, the
//! other turns the bytes of one inbound message into a value or a
//! [`error::DecodeError`]. Three formats are provided, each as a module with
//! its own `ser` and `de`.

pub mod call;
pub mod codec;
pub mod error;
pub mod greeter;
pub mod messages;
pub mod method;

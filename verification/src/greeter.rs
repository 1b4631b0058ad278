//! A greeter service with one unary method, carried in the
//! structure-serialization format.

use crate::call::MessageReader;
use crate::codec::bi_codec;
use crate::codec::bi_codec::BincodeMessage;
use crate::codec::pb_codec;
use crate::codec::pb_codec::ProtobufMessage;
use crate::codec::pr_codec::ProstMessage;
use crate::codec::Marshaller;
use crate::error::{CallError, DecodeError};
use crate::method::{Method, MethodType};
use vstd::prelude::*;

verus! {

/// The request of the greeter: a record without fields.
#[derive(Clone, Copy, Debug, PartialEq, Eq, Structural)]
pub struct HelloRequest {}

/// The reply of the greeter: a record without fields.
#[derive(Clone, Copy, Debug, PartialEq, Eq, Structural)]
pub struct HelloReply {}

impl Default for HelloRequest {
    fn default() -> (r: HelloRequest)
        ensures
            r == (HelloRequest {  }),
    {
        HelloRequest {  }
    }
}

impl Default for HelloReply {
    fn default() -> (r: HelloReply)
        ensures
            r == (HelloReply {  }),
    {
        HelloReply {  }
    }
}

/// The name by which the one method of the greeter is called.
pub const SAY_HELLO: &'static str = "hello";

/// What a greeter does. A service is made of an implementation by
/// [`create_greeter`].
pub trait Greeter: Sized {
    /// Whether a greeter in the state `before` may answer `req` with `reply`
    /// and be in the state `after`. An implementation that says nothing of
    /// itself may do anything.
    open spec fn answers(before: Self, req: HelloRequest, after: Self, reply: HelloReply) -> bool {
        true
    }

    /// Answers one request.
    fn say_hello(&mut self, req: HelloRequest) -> (reply: HelloReply)
        ensures
            Self::answers(*old(self), req, *final(self), reply),
    ;
}

/// The description of the greeter's one method: a unary call by the name
/// [`SAY_HELLO`], whose request and reply travel in the
/// structure-serialization format.
///
/// Both marshallers take every value and every source. Each writes its
/// message behind what the buffer holds, and reads back what the format
/// decodes from the source.
pub fn method_greeter_say_hello() -> (method: Method<
    impl Fn(&HelloRequest, &mut Vec<u8>),
    impl Fn(MessageReader) -> Result<HelloRequest, DecodeError>,
    impl Fn(&HelloReply, &mut Vec<u8>),
    impl Fn(MessageReader) -> Result<HelloReply, DecodeError>,
>)
    ensures
        method.ty == MethodType::Unary,
        method.name@ == SAY_HELLO@,
        method.req_mar.writes::<HelloRequest>(),
        method.req_mar.accepts::<HelloRequest>(),
        method.resp_mar.writes::<HelloReply>(),
        method.resp_mar.accepts::<HelloReply>(),
        forall|v: &HelloRequest, b: &mut Vec<u8>| #[trigger]
            call_ensures(method.req_mar.ser, (v, b), ()) ==> (*final(b))@ == (*b)@
                + BincodeMessage::encoding(v),
        forall|v: &HelloReply, b: &mut Vec<u8>| #[trigger]
            call_ensures(method.resp_mar.ser, (v, b), ()) ==> (*final(b))@ == (*b)@
                + BincodeMessage::encoding(v),
        forall|reader: MessageReader, r: Result<HelloRequest, DecodeError>| #[trigger]
            call_ensures(method.req_mar.de, (reader,), r) ==> r == bi_codec::de_outcome::<
                HelloRequest,
            >(reader@),
        forall|reader: MessageReader, r: Result<HelloReply, DecodeError>| #[trigger]
            call_ensures(method.resp_mar.de, (reader,), r) ==> r == bi_codec::de_outcome::<
                HelloReply,
            >(reader@),
{
    Method {
        ty: MethodType::Unary,
        name: SAY_HELLO,
        req_mar: Marshaller { ser: bi_codec::ser::<HelloRequest>, de: bi_codec::de::<HelloRequest> },
        resp_mar: Marshaller { ser: bi_codec::ser::<HelloReply>, de: bi_codec::de::<HelloReply> },
    }
}

/// A greeter that calls can be routed to.
pub struct Service<S> {
    /// The implementation that answers the calls.
    pub instance: S,
}

/// Makes a service of a greeter. The service answers calls of [`SAY_HELLO`],
/// a unary method whose request and reply travel in the
/// structure-serialization format.
pub fn create_greeter<S: Greeter>(s: S) -> (service: Service<S>)
    ensures
        service.instance == s,
{
    Service { instance: s }
}

impl<S: Greeter> Service<S> {
    /// Serves one call: routes it by `name`, decodes the request from
    /// `payload`, lets the greeter answer, and appends the encoded reply to
    /// `out`.
    ///
    /// A request is decoded from any payload and a reply is written as no
    /// bytes, so a call of [`SAY_HELLO`] always reaches the greeter, once, and
    /// `out` is never changed. A call of any other name is refused and does
    /// not reach the greeter.
    pub fn call(&mut self, name: &str, payload: MessageReader, out: &mut Vec<u8>) -> (r: Result<
        (),
        CallError,
    >)
        ensures
            name@ == SAY_HELLO@ ==> r == Ok::<(), CallError>(()),
            name@ == SAY_HELLO@ ==> S::answers(
                old(self).instance,
                HelloRequest {  },
                final(self).instance,
                HelloReply {  },
            ),
            name@ != SAY_HELLO@ ==> r == Err::<(), CallError>(CallError::Unimplemented),
            name@ != SAY_HELLO@ ==> final(self).instance == old(self).instance,
            final(out)@ == old(out)@,
    {
        let method = method_greeter_say_hello();
        if name.to_owned() != method.name.to_owned() {
            return Err(CallError::Unimplemented);
        }
        match method.req_mar.decode(payload) {
            Ok(req) => {
                let reply = self.instance.say_hello(req);
                method.resp_mar.encode(&reply, out);
                assert(out@ =~= old(out)@);
                Ok(())
            },
            Err(e) => Err(CallError::Decode(e)),
        }
    }
}

impl BincodeMessage for HelloRequest {
    open spec fn encoding(&self) -> Seq<u8> {
        Seq::empty()
    }

    open spec fn decoding(bytes: Seq<u8>) -> Result<(Self, nat), DecodeError> {
        Ok((HelloRequest {  }, 0nat))
    }

    fn encode(&self, buf: &mut Vec<u8>) {
        bi_codec::write_unit(buf);
        assert(buf@ =~= old(buf)@ + Seq::<u8>::empty());
    }

    fn decode(bytes: &[u8]) -> (r: Result<(Self, usize), DecodeError>) {
        match bi_codec::read_unit(bytes) {
            Some(left) => Ok((HelloRequest {  }, bytes.len() - left)),
            None => Err(DecodeError::Truncated),
        }
    }

    proof fn lemma_reads_back(&self, rest: Seq<u8>) {
    }

    proof fn lemma_cut_short(&self, keep: int) {
    }
}

impl BincodeMessage for HelloReply {
    open spec fn encoding(&self) -> Seq<u8> {
        Seq::empty()
    }

    open spec fn decoding(bytes: Seq<u8>) -> Result<(Self, nat), DecodeError> {
        Ok((HelloReply {  }, 0nat))
    }

    fn encode(&self, buf: &mut Vec<u8>) {
        bi_codec::write_unit(buf);
        assert(buf@ =~= old(buf)@ + Seq::<u8>::empty());
    }

    fn decode(bytes: &[u8]) -> (r: Result<(Self, usize), DecodeError>) {
        match bi_codec::read_unit(bytes) {
            Some(left) => Ok((HelloReply {  }, bytes.len() - left)),
            None => Err(DecodeError::Truncated),
        }
    }

    proof fn lemma_reads_back(&self, rest: Seq<u8>) {
    }

    proof fn lemma_cut_short(&self, keep: int) {
    }
}

impl ProstMessage for HelloRequest {
    open spec fn encoding(&self) -> Seq<u8> {
        Seq::empty()
    }

    open spec fn decoding(bytes: Seq<u8>) -> Result<Self, DecodeError> {
        if bytes.len() == 0 {
            Ok(HelloRequest {  })
        } else {
            Err(DecodeError::Malformed)
        }
    }

    fn encode(&self, buf: &mut Vec<u8>) {
        assert(buf@ =~= old(buf)@ + Seq::<u8>::empty());
    }

    fn decode(bytes: &[u8]) -> (r: Result<Self, DecodeError>) {
        if bytes.len() == 0 {
            Ok(HelloRequest {  })
        } else {
            Err(DecodeError::Malformed)
        }
    }

    proof fn lemma_reads_back(&self) {
    }

    proof fn lemma_cut_short(&self, keep: int) {
    }
}

impl ProstMessage for HelloReply {
    open spec fn encoding(&self) -> Seq<u8> {
        Seq::empty()
    }

    open spec fn decoding(bytes: Seq<u8>) -> Result<Self, DecodeError> {
        if bytes.len() == 0 {
            Ok(HelloReply {  })
        } else {
            Err(DecodeError::Malformed)
        }
    }

    fn encode(&self, buf: &mut Vec<u8>) {
        assert(buf@ =~= old(buf)@ + Seq::<u8>::empty());
    }

    fn decode(bytes: &[u8]) -> (r: Result<Self, DecodeError>) {
        if bytes.len() == 0 {
            Ok(HelloReply {  })
        } else {
            Err(DecodeError::Malformed)
        }
    }

    proof fn lemma_reads_back(&self) {
    }

    proof fn lemma_cut_short(&self, keep: int) {
    }
}

impl ProtobufMessage for HelloRequest {
    open spec fn encoding(&self) -> Seq<u8> {
        Seq::empty()
    }

    open spec fn decoding(bytes: Seq<u8>) -> Result<Self, DecodeError> {
        match pb_codec::empty_decoding(bytes) {
            None => Ok(HelloRequest {  }),
            Some(e) => Err(e),
        }
    }

    fn encode(&self, buf: &mut Vec<u8>) {
        pb_codec::put_empty(buf);
        assert(buf@ =~= old(buf)@ + Seq::<u8>::empty());
    }

    fn decode(bytes: &[u8]) -> (r: Result<Self, DecodeError>) {
        match pb_codec::take_empty(bytes) {
            None => Ok(HelloRequest {  }),
            Some(e) => Err(e),
        }
    }

    proof fn lemma_reads_back(&self) {
    }

    proof fn lemma_cut_short(&self, keep: int) {
    }
}

impl ProtobufMessage for HelloReply {
    open spec fn encoding(&self) -> Seq<u8> {
        Seq::empty()
    }

    open spec fn decoding(bytes: Seq<u8>) -> Result<Self, DecodeError> {
        match pb_codec::empty_decoding(bytes) {
            None => Ok(HelloReply {  }),
            Some(e) => Err(e),
        }
    }

    fn encode(&self, buf: &mut Vec<u8>) {
        pb_codec::put_empty(buf);
        assert(buf@ =~= old(buf)@ + Seq::<u8>::empty());
    }

    fn decode(bytes: &[u8]) -> (r: Result<Self, DecodeError>) {
        match pb_codec::take_empty(bytes) {
            None => Ok(HelloReply {  }),
            Some(e) => Err(e),
        }
    }

    proof fn lemma_reads_back(&self) {
    }

    proof fn lemma_cut_short(&self, keep: int) {
    }
}

} // verus!

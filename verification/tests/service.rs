use rpc_codec::call::MessageReader;
use rpc_codec::codec::{bi_codec, pr_codec, Marshaller};
use rpc_codec::error::{CallError, DecodeError};
use rpc_codec::greeter::{
    create_greeter, method_greeter_say_hello, Greeter, HelloReply, HelloRequest, SAY_HELLO,
};
use rpc_codec::messages::UInt64Value;
use rpc_codec::method::{Method, MethodType};

struct Counting {
    calls: u32,
}

impl Greeter for Counting {
    fn say_hello(&mut self, _req: HelloRequest) -> HelloReply {
        self.calls += 1;
        HelloReply {}
    }
}

#[test]
fn reader_hands_out_bytes_from_front_to_back() {
    let mut reader = MessageReader::new(vec![1, 2, 3, 4]);
    assert_eq!(reader.remaining(), 4);
    assert!(reader.has_remaining());
    assert_eq!(reader.bytes(), &[1, 2, 3, 4]);
    reader.advance(0);
    assert_eq!(reader.bytes(), &[1, 2, 3, 4]);
    reader.advance(3);
    assert_eq!(reader.remaining(), 1);
    assert_eq!(reader.bytes(), &[4]);
    reader.advance(1);
    assert_eq!(reader.remaining(), 0);
    assert!(!reader.has_remaining());
    assert!(reader.bytes().is_empty());
}

#[test]
fn reader_over_nothing_is_at_its_end() {
    let reader = MessageReader::new(Vec::new());
    assert_eq!(reader.remaining(), 0);
    assert!(!reader.has_remaining());
}

#[test]
fn marshaller_calls_the_functions_it_was_made_of() {
    let m = Marshaller { ser: bi_codec::ser::<UInt64Value>, de: bi_codec::de::<UInt64Value> };
    let mut buf = vec![0x55];
    m.encode(&UInt64Value { value: 2 }, &mut buf);
    assert_eq!(buf, vec![0x55, 2, 0, 0, 0, 0, 0, 0, 0]);
    let mut source = MessageReader::new(buf);
    source.advance(1);
    assert_eq!(m.decode(source), Ok(UInt64Value { value: 2 }));
    assert_eq!(m.decode(MessageReader::new(vec![1, 2])), Err(DecodeError::Truncated));
}

#[test]
fn marshaller_takes_plain_function_references() {
    let m: Marshaller<
        fn(&UInt64Value, &mut Vec<u8>),
        fn(MessageReader) -> Result<UInt64Value, DecodeError>,
    > = Marshaller { ser: pr_codec::ser, de: pr_codec::de };
    let mut buf = Vec::new();
    m.encode(&UInt64Value { value: 300 }, &mut buf);
    assert_eq!(buf, vec![0xAC, 0x02]);
    assert_eq!(m.decode(MessageReader::new(buf)), Ok(UInt64Value { value: 300 }));
}

#[test]
fn method_binds_a_marshaller_to_each_direction() {
    let method = Method {
        ty: MethodType::Unary,
        name: SAY_HELLO,
        req_mar: Marshaller { ser: bi_codec::ser::<HelloRequest>, de: bi_codec::de::<HelloRequest> },
        resp_mar: Marshaller { ser: bi_codec::ser::<HelloReply>, de: bi_codec::de::<HelloReply> },
    };
    assert_eq!(method.name, "hello");
    assert_eq!(method.ty, MethodType::Unary);
    assert_ne!(method.ty, MethodType::Duplex);
    assert_eq!(method.req_mar.decode(MessageReader::new(Vec::new())), Ok(HelloRequest {}));
    let mut out = vec![1];
    method.resp_mar.encode(&HelloReply {}, &mut out);
    assert_eq!(out, vec![1]);
}

#[test]
fn service_answers_the_hello_method() {
    let mut service = create_greeter(Counting { calls: 0 });
    let mut out = vec![0xAB];
    assert_eq!(service.call("hello", MessageReader::new(Vec::new()), &mut out), Ok(()));
    assert_eq!(service.instance.calls, 1);
    assert_eq!(out, vec![0xAB]);
    assert_eq!(service.call(SAY_HELLO, MessageReader::new(vec![9, 9]), &mut out), Ok(()));
    assert_eq!(service.instance.calls, 2);
    assert_eq!(out, vec![0xAB]);
}

#[test]
fn service_refuses_other_names() {
    let mut service = create_greeter(Counting { calls: 0 });
    let mut out = Vec::new();
    for name in ["", "hell", "hello ", "Hello", "goodbye"] {
        assert_eq!(
            service.call(name, MessageReader::new(Vec::new()), &mut out),
            Err(CallError::Unimplemented)
        );
    }
    assert_eq!(service.instance.calls, 0);
    assert!(out.is_empty());
}

#[test]
fn hello_messages_have_defaults() {
    assert_eq!(HelloRequest::default(), HelloRequest {});
    assert_eq!(HelloReply::default(), HelloReply {});
}

#[test]
fn greeter_method_is_a_unary_call_named_hello() {
    let method = method_greeter_say_hello();
    assert_eq!(method.name, "hello");
    assert_eq!(method.name, SAY_HELLO);
    assert_eq!(method.ty, MethodType::Unary);
    assert_eq!(method.req_mar.decode(MessageReader::new(vec![1, 2, 3])), Ok(HelloRequest {}));
    assert_eq!(method.resp_mar.decode(MessageReader::new(Vec::new())), Ok(HelloReply {}));
    let mut out = vec![4, 5];
    method.req_mar.encode(&HelloRequest {}, &mut out);
    method.resp_mar.encode(&HelloReply {}, &mut out);
    assert_eq!(out, vec![4, 5]);
}

use rpc_codec::call::MessageReader;
use rpc_codec::codec::pb_codec::ProtobufFault;
use rpc_codec::codec::{bi_codec, pb_codec, pr_codec};
use rpc_codec::error::DecodeError;
use rpc_codec::greeter::{HelloReply, HelloRequest};
use rpc_codec::messages::UInt64Value;

fn reader(bytes: &[u8]) -> MessageReader {
    MessageReader::new(bytes.to_vec())
}

#[test]
fn bincode_writes_an_integer_least_significant_byte_first() {
    let mut buf = Vec::new();
    bi_codec::ser(&UInt64Value { value: 0x0102_0304_0506_0708 }, &mut buf);
    assert_eq!(buf, vec![8, 7, 6, 5, 4, 3, 2, 1]);
}

#[test]
fn bincode_round_trips_integers() {
    for value in [0u64, 1, 255, 256, 300, u64::MAX] {
        let msg = UInt64Value { value };
        let mut buf = Vec::new();
        bi_codec::ser(&msg, &mut buf);
        assert_eq!(buf.len(), 8);
        assert_eq!(bi_codec::de::<UInt64Value>(MessageReader::new(buf)), Ok(msg));
    }
}

#[test]
fn bincode_round_trips_the_hello_messages() {
    let mut buf = Vec::new();
    bi_codec::ser(&HelloRequest {}, &mut buf);
    assert!(buf.is_empty());
    assert_eq!(bi_codec::de::<HelloRequest>(MessageReader::new(buf)), Ok(HelloRequest {}));
    let mut buf = Vec::new();
    bi_codec::ser(&HelloReply {}, &mut buf);
    assert!(buf.is_empty());
    assert_eq!(bi_codec::de::<HelloReply>(MessageReader::new(buf)), Ok(HelloReply {}));
}

#[test]
fn bincode_rejects_every_proper_prefix() {
    let mut buf = Vec::new();
    bi_codec::ser(&UInt64Value { value: 0xDEAD_BEEF }, &mut buf);
    for keep in 1..buf.len() {
        assert_eq!(
            bi_codec::de::<UInt64Value>(reader(&buf[..keep])),
            Err(DecodeError::Truncated)
        );
    }
}

#[test]
fn bincode_rejects_an_empty_source_for_an_integer() {
    assert_eq!(bi_codec::de::<UInt64Value>(reader(&[])), Err(DecodeError::Truncated));
}

#[test]
fn bincode_stops_at_the_end_of_its_own_record() {
    let mut source = Vec::new();
    bi_codec::ser(&UInt64Value { value: 42 }, &mut source);
    source.extend_from_slice(&[0xAA, 0xBB, 0xCC]);
    let mut reader = MessageReader::new(source);
    assert_eq!(bi_codec::de_next::<UInt64Value>(&mut reader), Ok(UInt64Value { value: 42 }));
    assert_eq!(reader.remaining(), 3);
    assert_eq!(reader.bytes(), &[0xAA, 0xBB, 0xCC]);
}

#[test]
fn bincode_reads_two_records_in_a_row() {
    let mut source = Vec::new();
    bi_codec::ser(&UInt64Value { value: 1 }, &mut source);
    bi_codec::ser(&UInt64Value { value: 2 }, &mut source);
    let mut reader = MessageReader::new(source);
    assert_eq!(bi_codec::de_next::<UInt64Value>(&mut reader), Ok(UInt64Value { value: 1 }));
    assert_eq!(bi_codec::de_next::<UInt64Value>(&mut reader), Ok(UInt64Value { value: 2 }));
    assert!(!reader.has_remaining());
    assert_eq!(bi_codec::de_next::<UInt64Value>(&mut reader), Err(DecodeError::Truncated));
}

#[test]
fn bincode_leaves_a_source_that_fails_where_it_was() {
    let mut reader = reader(&[1, 2, 3]);
    assert_eq!(bi_codec::de_next::<UInt64Value>(&mut reader), Err(DecodeError::Truncated));
    assert_eq!(reader.bytes(), &[1, 2, 3]);
}

#[test]
fn bincode_ignores_what_follows_a_record() {
    let mut source = Vec::new();
    bi_codec::ser(&UInt64Value { value: 7 }, &mut source);
    source.push(0xFF);
    assert_eq!(bi_codec::de::<UInt64Value>(MessageReader::new(source)), Ok(UInt64Value { value: 7 }));
    assert_eq!(bi_codec::de::<HelloRequest>(reader(&[1, 2, 3])), Ok(HelloRequest {}));
}

#[test]
fn protobuf_round_trips_a_populated_integer_field() {
    let msg = UInt64Value { value: 300 };
    let mut buf = Vec::new();
    pb_codec::ser(&msg, &mut buf);
    assert_eq!(buf, vec![8, 0xAC, 0x02]);
    assert_eq!(pb_codec::de::<UInt64Value>(MessageReader::new(buf)), Ok(msg));
}

#[test]
fn protobuf_round_trips_integers() {
    for value in [0u64, 1, 127, 128, 1 << 35, u64::MAX] {
        let msg = UInt64Value { value };
        let mut buf = Vec::new();
        pb_codec::ser(&msg, &mut buf);
        assert_eq!(pb_codec::de::<UInt64Value>(MessageReader::new(buf)), Ok(msg));
    }
}

#[test]
fn protobuf_ignores_an_unknown_field_that_was_appended() {
    let mut buf = Vec::new();
    pb_codec::ser(&UInt64Value { value: 300 }, &mut buf);
    buf.extend_from_slice(&[0x10, 0x01]);
    assert_eq!(pb_codec::de::<UInt64Value>(MessageReader::new(buf)), Ok(UInt64Value { value: 300 }));
    assert_eq!(pb_codec::de::<HelloRequest>(reader(&[0x10, 0x01])), Ok(HelloRequest {}));
}

#[test]
fn protobuf_round_trips_the_hello_messages() {
    let mut buf = Vec::new();
    pb_codec::ser(&HelloRequest {}, &mut buf);
    pb_codec::ser(&HelloReply {}, &mut buf);
    assert!(buf.is_empty());
    assert_eq!(pb_codec::de::<HelloRequest>(reader(&[])), Ok(HelloRequest {}));
    assert_eq!(pb_codec::de::<HelloReply>(reader(&[])), Ok(HelloReply {}));
}

#[test]
fn repeated_calls_give_the_same_bytes_and_values() {
    let msg = UInt64Value { value: 123_456_789 };
    let mut first = Vec::new();
    pr_codec::ser(&msg, &mut first);
    for _ in 0..10 {
        let mut again = Vec::new();
        pr_codec::ser(&msg, &mut again);
        assert_eq!(again, first);
        assert_eq!(pr_codec::de::<UInt64Value>(reader(&first)), Ok(msg));
    }
}

#[test]
fn bincode_writes_a_u32_as_four_bytes() {
    let mut buf = vec![0xFFu8];
    bi_codec::ser(&1u32, &mut buf);
    assert_eq!(buf, vec![0xFF, 0x01, 0x00, 0x00, 0x00]);
    let mut buf = Vec::new();
    bi_codec::ser(&0x0102_0304u32, &mut buf);
    assert_eq!(buf, vec![4, 3, 2, 1]);
}

#[test]
fn bincode_round_trips_bare_integers() {
    for value in [0u32, 1, 255, 256, 65_536, u32::MAX] {
        let mut buf = Vec::new();
        bi_codec::ser(&value, &mut buf);
        assert_eq!(buf.len(), 4);
        for keep in 0..buf.len() {
            assert_eq!(bi_codec::de::<u32>(reader(&buf[..keep])), Err(DecodeError::Truncated));
        }
        assert_eq!(bi_codec::de::<u32>(MessageReader::new(buf)), Ok(value));
    }
    for value in [0u64, 1, 1 << 40, u64::MAX] {
        let mut buf = Vec::new();
        bi_codec::ser(&value, &mut buf);
        let same_as_record = {
            let mut other = Vec::new();
            bi_codec::ser(&UInt64Value { value }, &mut other);
            other
        };
        assert_eq!(buf, same_as_record);
        assert_eq!(bi_codec::de::<u64>(MessageReader::new(buf)), Ok(value));
    }
}

#[test]
fn bincode_reads_records_of_different_types_in_a_row() {
    let mut source = Vec::new();
    bi_codec::ser(&7u32, &mut source);
    bi_codec::ser(&HelloRequest {}, &mut source);
    bi_codec::ser(&9u64, &mut source);
    let mut reader = MessageReader::new(source);
    assert_eq!(bi_codec::de_next::<u32>(&mut reader), Ok(7));
    assert_eq!(bi_codec::de_next::<HelloRequest>(&mut reader), Ok(HelloRequest {}));
    assert_eq!(bi_codec::de_next::<u64>(&mut reader), Ok(9));
    assert_eq!(reader.remaining(), 0);
}

#[test]
fn prost_writes_an_empty_record_as_nothing() {
    let mut buf = Vec::new();
    pr_codec::ser(&HelloRequest {}, &mut buf);
    assert_eq!(buf.len(), 0);
    assert_eq!(pr_codec::de::<HelloRequest>(MessageReader::new(buf)), Ok(HelloRequest {}));
    assert_eq!(pr_codec::de::<HelloReply>(reader(&[])), Ok(HelloReply {}));
}

#[test]
fn prost_writes_the_value_alone() {
    let cases: [(u64, Vec<u8>); 7] = [
        (0, vec![0]),
        (1, vec![1]),
        (127, vec![127]),
        (128, vec![0x80, 0x01]),
        (300, vec![0xAC, 0x02]),
        (1 << 63, vec![0x80, 0x80, 0x80, 0x80, 0x80, 0x80, 0x80, 0x80, 0x80, 0x01]),
        (u64::MAX, vec![0xFF, 0xFF, 0xFF, 0xFF, 0xFF, 0xFF, 0xFF, 0xFF, 0xFF, 0x01]),
    ];
    for (value, bytes) in cases {
        let mut buf = Vec::new();
        pr_codec::ser(&UInt64Value { value }, &mut buf);
        assert_eq!(buf, bytes);
        let mut buf = Vec::new();
        pr_codec::put_uint64(value, &mut buf);
        assert_eq!(buf, bytes);
    }
}

#[test]
fn prost_round_trips_integers() {
    for value in [0u64, 1, 127, 128, 300, 16_383, 16_384, 1 << 35, 1 << 63, u64::MAX] {
        let msg = UInt64Value { value };
        let mut buf = Vec::new();
        pr_codec::ser(&msg, &mut buf);
        assert_eq!(pr_codec::take_uint64(&buf), Ok(value));
        assert_eq!(pr_codec::de::<UInt64Value>(MessageReader::new(buf)), Ok(msg));
    }
}

#[test]
fn prost_reports_every_proper_prefix_as_truncated() {
    for value in [128u64, 300, 1 << 35, u64::MAX] {
        let mut buf = Vec::new();
        pr_codec::ser(&UInt64Value { value }, &mut buf);
        assert!(buf.len() > 1);
        for keep in 1..buf.len() {
            assert_eq!(
                pr_codec::de::<UInt64Value>(reader(&buf[..keep])),
                Err(DecodeError::Truncated)
            );
        }
    }
}

#[test]
fn prost_reports_a_missing_value_as_truncated() {
    assert_eq!(pr_codec::de::<UInt64Value>(reader(&[])), Err(DecodeError::Truncated));
    assert_eq!(pr_codec::take_uint64(&[0x80]), Err(DecodeError::Truncated));
    assert_eq!(pr_codec::take_uint64(&[0xFF; 9]), Err(DecodeError::Truncated));
}

#[test]
fn prost_reports_a_wrong_shape_as_malformed() {
    // bytes behind the value
    assert_eq!(pr_codec::de::<UInt64Value>(reader(&[5, 0])), Err(DecodeError::Malformed));
    assert_eq!(
        pr_codec::de::<UInt64Value>(reader(&[0xAC, 0x02, 0x10, 0x01])),
        Err(DecodeError::Malformed)
    );
    // ten bytes and no last one
    assert_eq!(pr_codec::de::<UInt64Value>(reader(&[0x80; 10])), Err(DecodeError::Malformed));
    assert_eq!(pr_codec::de::<UInt64Value>(reader(&[0xFF; 12])), Err(DecodeError::Malformed));
    // a record without fields takes no bytes
    assert_eq!(pr_codec::de::<HelloRequest>(reader(&[0])), Err(DecodeError::Malformed));
    assert_eq!(pr_codec::de::<HelloReply>(reader(&[0x10, 0x01])), Err(DecodeError::Malformed));
}

#[test]
fn protobuf_writes_key_and_varint() {
    let cases: [(u64, Vec<u8>); 6] = [
        (0, vec![]),
        (1, vec![8, 1]),
        (127, vec![8, 127]),
        (128, vec![8, 0x80, 0x01]),
        (300, vec![8, 0xAC, 0x02]),
        (u64::MAX, vec![8, 0xFF, 0xFF, 0xFF, 0xFF, 0xFF, 0xFF, 0xFF, 0xFF, 0xFF, 0x01]),
    ];
    for (value, bytes) in cases {
        let mut buf = Vec::new();
        pb_codec::ser(&UInt64Value { value }, &mut buf);
        assert_eq!(buf, bytes);
    }
}

#[test]
fn protobuf_reports_every_proper_prefix_as_truncated() {
    for value in [1u64, 300, 1 << 35, u64::MAX] {
        let mut buf = Vec::new();
        pb_codec::ser(&UInt64Value { value }, &mut buf);
        for keep in 1..buf.len() {
            assert_eq!(
                pb_codec::de::<UInt64Value>(reader(&buf[..keep])),
                Err(DecodeError::Truncated)
            );
            assert_eq!(pb_codec::take_uint64(&buf[..keep]), Err(DecodeError::Truncated));
        }
    }
}

#[test]
fn protobuf_tells_the_kinds_of_bad_input_apart() {
    // cut short inside the key
    assert_eq!(pb_codec::de::<HelloRequest>(reader(&[0xFF])), Err(DecodeError::Truncated));
    // a value of five bytes is announced and one is there
    assert_eq!(
        pb_codec::de::<HelloRequest>(reader(&[0x12, 0x05, 0x00])),
        Err(DecodeError::Truncated)
    );
    // field number zero
    assert_eq!(pb_codec::de::<HelloReply>(reader(&[0x00, 0x00])), Err(DecodeError::Malformed));
    // an integer of more than ten bytes
    assert_eq!(
        pb_codec::de::<UInt64Value>(reader(&[8, 0xFF, 0xFF, 0xFF, 0xFF, 0xFF, 0xFF, 0xFF, 0xFF, 0xFF, 0xFF, 0x01])),
        Err(DecodeError::Malformed)
    );
    // field 1 holds a run of bytes where the type takes an integer
    assert_eq!(
        pb_codec::de::<UInt64Value>(reader(&[0x0A, 0x01, 0x00])),
        Err(DecodeError::Unsupported)
    );
}

#[test]
fn protobuf_faults_are_classified() {
    assert_eq!(pb_codec::classify(ProtobufFault::Io), DecodeError::Truncated);
    assert_eq!(pb_codec::classify(ProtobufFault::UnexpectedEof), DecodeError::Truncated);
    assert_eq!(pb_codec::classify(ProtobufFault::TruncatedMessage), DecodeError::Truncated);
    assert_eq!(pb_codec::classify(ProtobufFault::Wire), DecodeError::Malformed);
    assert_eq!(pb_codec::classify(ProtobufFault::Utf8), DecodeError::Malformed);
    assert_eq!(pb_codec::classify(ProtobufFault::UnexpectedWireType), DecodeError::Unsupported);
    assert_eq!(pb_codec::classify(ProtobufFault::NotInitialized), DecodeError::Unsupported);
}

#[test]
fn protobuf_field_helpers_agree_with_the_codec() {
    let mut buf = vec![0x77];
    pb_codec::put_empty(&mut buf);
    assert_eq!(buf, vec![0x77]);
    pb_codec::put_uint64(300, &mut buf);
    assert_eq!(buf, vec![0x77, 8, 0xAC, 0x02]);
    assert_eq!(pb_codec::take_uint64(&buf[1..]), Ok(300));
    assert_eq!(pb_codec::take_uint64(&[]), Ok(0));
    assert_eq!(pb_codec::take_empty(&[]), None);
    assert_eq!(pb_codec::take_empty(&[0x10, 0x01]), None);
    assert_eq!(pb_codec::take_empty(&[0x10]), Some(DecodeError::Truncated));
}

#[test]
fn every_codec_keeps_what_the_buffer_held() {
    let msg = UInt64Value { value: 9 };
    let mut buf = vec![0xF0, 0xF1];
    bi_codec::ser(&msg, &mut buf);
    assert_eq!(buf, vec![0xF0, 0xF1, 9, 0, 0, 0, 0, 0, 0, 0]);
    pr_codec::ser(&msg, &mut buf);
    assert_eq!(buf, vec![0xF0, 0xF1, 9, 0, 0, 0, 0, 0, 0, 0, 9]);
    pb_codec::ser(&msg, &mut buf);
    assert_eq!(buf, vec![0xF0, 0xF1, 9, 0, 0, 0, 0, 0, 0, 0, 9, 8, 9]);
    bi_codec::ser(&HelloRequest {}, &mut buf);
    pr_codec::ser(&HelloRequest {}, &mut buf);
    pb_codec::ser(&HelloReply {}, &mut buf);
    assert_eq!(buf.len(), 13);
}

#[test]
fn decoding_starts_where_the_source_stands() {
    let mut source = MessageReader::new(vec![0xEE, 5]);
    source.advance(1);
    assert_eq!(pr_codec::de::<UInt64Value>(source), Ok(UInt64Value { value: 5 }));
    let mut source = MessageReader::new(vec![0xEE, 8, 5]);
    source.advance(1);
    assert_eq!(pb_codec::de::<UInt64Value>(source), Ok(UInt64Value { value: 5 }));
    let mut source = MessageReader::new(vec![0xEE, 5, 0, 0, 0, 0, 0, 0, 0]);
    source.advance(1);
    assert_eq!(bi_codec::de::<UInt64Value>(source), Ok(UInt64Value { value: 5 }));
}

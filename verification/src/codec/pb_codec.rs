//! The structured-message format: a message is a run of tagged fields, read
//! through a buffered input stream and merged into a fresh value of the
//! message type. Fields that the type does not know are passed over.

use crate::call::MessageReader;
use crate::codec::{lemma_varint_injective, lemma_varint_shape, uint64_field, varint};
use crate::error::DecodeError;
use protobuf::error::WireError;
use protobuf::well_known_types::{Empty, UInt64Value};
use protobuf::{CodedInputStream, Message, ProtobufError};
use vstd::prelude::*;

verus! {

/// What went wrong while the structured-message format read a message.
#[derive(Clone, Copy, Debug, PartialEq, Eq, Structural)]
pub enum ProtobufFault {
    /// The source could not be read.
    Io,
    /// The source ended inside a key or a value.
    UnexpectedEof,
    /// The source ended before a length that it announced was reached.
    TruncatedMessage,
    /// A field holds a kind of value that the message type does not take
    /// for it.
    UnexpectedWireType,
    /// The bytes are not well-formed fields in some other way.
    Wire,
    /// A string field does not hold UTF-8.
    Utf8,
    /// A field that the message type requires is not there.
    NotInitialized,
}

/// The kind of decode error that a fault is reported as.
pub open spec fn fault_kind(fault: ProtobufFault) -> DecodeError {
    match fault {
        ProtobufFault::Io => DecodeError::Truncated,
        ProtobufFault::UnexpectedEof => DecodeError::Truncated,
        ProtobufFault::TruncatedMessage => DecodeError::Truncated,
        ProtobufFault::UnexpectedWireType => DecodeError::Unsupported,
        ProtobufFault::Wire => DecodeError::Malformed,
        ProtobufFault::Utf8 => DecodeError::Malformed,
        ProtobufFault::NotInitialized => DecodeError::Unsupported,
    }
}

/// Turns a fault of the format into the decode error that callers see.
pub fn classify(fault: ProtobufFault) -> (e: DecodeError)
    ensures
        e == fault_kind(fault),
{
    match fault {
        ProtobufFault::Io | ProtobufFault::UnexpectedEof | ProtobufFault::TruncatedMessage => {
            DecodeError::Truncated
        },
        ProtobufFault::Wire | ProtobufFault::Utf8 => DecodeError::Malformed,
        ProtobufFault::UnexpectedWireType | ProtobufFault::NotInitialized => {
            DecodeError::Unsupported
        },
    }
}

/// A message type that this format can carry.
pub trait ProtobufMessage: Sized {
    /// The bytes that the value is written as.
    spec fn encoding(&self) -> Seq<u8>;

    /// The value that `bytes`, taken as a whole, stand for, or the reason why
    /// they stand for none.
    spec fn decoding(bytes: Seq<u8>) -> Result<Self, DecodeError>;

    /// Appends the encoding of the value to `buf`.
    fn encode(&self, buf: &mut Vec<u8>)
        ensures
            final(buf)@ == old(buf)@ + self.encoding(),
    ;

    /// Decodes the value that `bytes` stand for.
    fn decode(bytes: &[u8]) -> (r: Result<Self, DecodeError>)
        ensures
            r == Self::decoding(bytes@),
    ;

    /// A value is read back from its own encoding.
    proof fn lemma_reads_back(&self)
        ensures
            Self::decoding(self.encoding()) == Ok::<Self, DecodeError>(*self),
    ;

    /// An encoding that was cut short, to at least one byte, is refused as
    /// truncated.
    proof fn lemma_cut_short(&self, keep: int)
        ensures
            0 < keep < self.encoding().len() ==> Self::decoding(self.encoding().take(keep)) == Err::<
                Self,
                DecodeError,
            >(DecodeError::Truncated),
    ;
}

/// Appends the encoding of `t` to `buf`. What `buf` held stays in front.
pub fn ser<T: ProtobufMessage>(t: &T, buf: &mut Vec<u8>)
    ensures
        final(buf)@ == old(buf)@ + t.encoding(),
{
    t.encode(buf)
}

/// Decodes the message that the source holds, from where the source stands to
/// its end.
pub fn de<T: ProtobufMessage>(reader: MessageReader) -> (r: Result<T, DecodeError>)
    ensures
        r == T::decoding(reader@),
{
    T::decode(reader.bytes())
}

/// Decoding what [`ser`] wrote into an empty buffer gives the value back.
pub proof fn lemma_round_trip<T: ProtobufMessage>(t: T)
    ensures
        T::decoding(t.encoding()) == Ok::<T, DecodeError>(t),
{
    t.lemma_reads_back();
}

/// No proper, non-empty prefix of an encoding is decoded to a value: each is
/// refused as truncated.
pub proof fn lemma_truncation<T: ProtobufMessage>(t: T, keep: int)
    requires
        0 < keep < t.encoding().len(),
    ensures
        T::decoding(t.encoding().take(keep)) == Err::<T, DecodeError>(DecodeError::Truncated),
{
    t.lemma_cut_short(keep);
}

/// Whether `bytes` end inside the one field of a record whose only field,
/// numbered 1, is an unsigned integer: the key of the field, which is the
/// byte 8, and then at most nine bytes, none of them below 128.
pub open spec fn is_cut_uint64_field(bytes: Seq<u8>) -> bool {
    &&& 1 <= bytes.len() <= 10
    &&& bytes[0] == 8
    &&& forall|i: int| 1 <= i < bytes.len() ==> bytes[i] >= 128
}

/// What a source that holds `bytes` is decoded to as a record whose only
/// field, numbered 1, is an unsigned integer: a truncated source where the
/// bytes end inside that field, the integer whose encoding they are where
/// there is one, else what the decoder makes of them.
pub open spec fn uint64_decoding(bytes: Seq<u8>) -> Result<u64, DecodeError> {
    if is_cut_uint64_field(bytes) {
        Err(DecodeError::Truncated)
    } else if exists|v: u64| #[trigger] uint64_field(v) == bytes {
        Ok(choose|v: u64| #[trigger] uint64_field(v) == bytes)
    } else {
        match protobuf_uint64_decoding(bytes) {
            Ok(value) => Ok(value),
            Err(fault) => Err(fault_kind(fault)),
        }
    }
}

/// What a source that holds `bytes` is decoded to as a record without fields:
/// nothing wrong where there are no bytes, else what the decoder makes of
/// them.
pub open spec fn empty_decoding(bytes: Seq<u8>) -> Option<DecodeError> {
    if bytes.len() == 0 {
        None
    } else {
        match protobuf_empty_fault(bytes) {
            None => None,
            Some(fault) => Some(fault_kind(fault)),
        }
    }
}

/// Appends a record whose only field, numbered 1, holds `value`.
pub fn put_uint64(value: u64, buf: &mut Vec<u8>)
    ensures
        final(buf)@ == old(buf)@ + uint64_field(value),
{
    write_uint64(value, buf)
}

/// Decodes a source that holds a record whose only field, numbered 1, is an
/// unsigned integer.
pub fn take_uint64(bytes: &[u8]) -> (r: Result<u64, DecodeError>)
    ensures
        r == uint64_decoding(bytes@),
{
    match read_uint64(bytes) {
        Ok(value) => Ok(value),
        Err(fault) => Err(classify(fault)),
    }
}

/// Appends a record without fields, which is nothing.
pub fn put_empty(buf: &mut Vec<u8>)
    ensures
        final(buf)@ == old(buf)@,
{
    write_empty(buf)
}

/// Decodes a source that holds a record without fields, and says what is
/// wrong with it, if anything is.
pub fn take_empty(bytes: &[u8]) -> (e: Option<DecodeError>)
    ensures
        e == empty_decoding(bytes@),
{
    match read_empty(bytes) {
        None => None,
        Some(fault) => Some(classify(fault)),
    }
}

/// Two integers with the same encoding as a one-field record are the same
/// integer.
pub proof fn lemma_uint64_field_injective(a: u64, b: u64)
    requires
        uint64_field(a) == uint64_field(b),
    ensures
        a == b,
{
    lemma_varint_shape(a);
    lemma_varint_shape(b);
    if a != 0 && b != 0 {
        assert(uint64_field(a).skip(1) =~= varint(a));
        assert(uint64_field(b).skip(1) =~= varint(b));
        lemma_varint_injective(a, b);
    }
}

/// The encoding of an integer as a one-field record is decoded to that
/// integer.
pub proof fn lemma_uint64_reads_back(value: u64)
    ensures
        uint64_decoding(uint64_field(value)) == Ok::<u64, DecodeError>(value),
{
    lemma_varint_shape(value);
    let bytes = uint64_field(value);
    if value != 0 {
        assert(bytes[bytes.len() - 1] == varint(value)[varint(value).len() - 1]);
    }
    let v = choose|v: u64| #[trigger] uint64_field(v) == bytes;
    lemma_uint64_field_injective(v, value);
}

/// The encoding of an integer as a one-field record, cut short to at least
/// one byte, is refused as truncated.
pub proof fn lemma_uint64_cut_short(value: u64, keep: int)
    requires
        0 < keep < uint64_field(value).len(),
    ensures
        uint64_decoding(uint64_field(value).take(keep)) == Err::<u64, DecodeError>(
            DecodeError::Truncated,
        ),
{
    lemma_varint_shape(value);
    let cut = uint64_field(value).take(keep);
    assert forall|i: int| 1 <= i < cut.len() implies cut[i] >= 128 by {
        assert(cut[i] == varint(value)[i - 1]);
    }
    assert(is_cut_uint64_field(cut));
}

/// What `protobuf::Message::merge_from` makes of `bytes` for an `Empty`:
/// `None` where it reads them as a run of well-formed fields, else the fault
/// that it stops with.
pub uninterp spec fn protobuf_empty_fault(bytes: Seq<u8>) -> Option<ProtobufFault>;

/// What `protobuf::Message::merge_from` makes of `bytes` for a `UInt64Value`:
/// the integer, or the fault that it stops with.
pub uninterp spec fn protobuf_uint64_decoding(bytes: Seq<u8>) -> Result<u64, ProtobufFault>;

/// Calls `protobuf::Message::write_to_vec` on a fresh `Empty`, the record
/// without fields. It has nothing to write, so the buffer is left as it was.
#[verifier::external_body]
fn write_empty(buf: &mut Vec<u8>)
    ensures
        final(buf)@ == old(buf)@,
{
    let m = <Empty as Message>::new();
    Message::write_to_vec(&m, buf).unwrap()
}

/// Calls `protobuf::Message::merge_from` on a fresh `Empty`, through a
/// `CodedInputStream` over the bytes, and tells the variants of the error
/// apart. Merging reads fields until the stream is at its end, so a source
/// without bytes gives no fault.
#[verifier::external_body]
fn read_empty(bytes: &[u8]) -> (fault: Option<ProtobufFault>)
    ensures
        fault == protobuf_empty_fault(bytes@),
        bytes@.len() == 0 ==> fault.is_none(),
{
    let mut src = bytes;
    let mut s = CodedInputStream::from_buffered_reader(&mut src);
    match Message::merge_from(&mut <Empty as Message>::new(), &mut s) {
        Ok(()) => None,
        Err(ProtobufError::IoError(_)) => Some(ProtobufFault::Io),
        Err(ProtobufError::WireError(WireError::UnexpectedEof)) => Some(ProtobufFault::UnexpectedEof),
        Err(ProtobufError::WireError(WireError::TruncatedMessage)) => Some(ProtobufFault::TruncatedMessage),
        Err(ProtobufError::WireError(WireError::UnexpectedWireType(_))) => Some(ProtobufFault::UnexpectedWireType),
        Err(ProtobufError::WireError(_)) => Some(ProtobufFault::Wire),
        Err(ProtobufError::Utf8(_)) => Some(ProtobufFault::Utf8),
        Err(ProtobufError::MessageNotInitialized { .. }) => Some(ProtobufFault::NotInitialized),
    }
}

/// Calls `protobuf::Message::write_to_vec` on a `UInt64Value` that holds
/// `value`. Zero is written as nothing; any other value as the key of field 1,
/// which is the byte 8, and the integer in base-128 form.
#[verifier::external_body]
fn write_uint64(value: u64, buf: &mut Vec<u8>)
    ensures
        final(buf)@ == old(buf)@ + uint64_field(value),
{
    let mut m = <UInt64Value as Message>::new();
    m.set_value(value);
    Message::write_to_vec(&m, buf).unwrap()
}

/// Calls `protobuf::Message::merge_from` on a fresh `UInt64Value`, through a
/// `CodedInputStream` over the bytes, and tells the variants of the error
/// apart.
///
/// Merging starts from zero and reads fields until the stream is at its end.
/// From the bytes that an integer is written as it reads that integer; a
/// source without bytes gives zero. Where the source ends behind the key of
/// field 1, or inside the integer that follows the key, it stops with the
/// fault of a source that ended too early.
#[verifier::external_body]
fn read_uint64(bytes: &[u8]) -> (r: Result<u64, ProtobufFault>)
    ensures
        r == protobuf_uint64_decoding(bytes@),
        forall|v: u64| #[trigger] uint64_field(v) == bytes@ ==> r is Ok && r->Ok_0 == v,
        is_cut_uint64_field(bytes@) ==> r is Err && r->Err_0 == ProtobufFault::UnexpectedEof,
{
    let mut src = bytes;
    let mut s = CodedInputStream::from_buffered_reader(&mut src);
    let mut m = <UInt64Value as Message>::new();
    match Message::merge_from(&mut m, &mut s) {
        Ok(()) => Ok(m.get_value()),
        Err(ProtobufError::IoError(_)) => Err(ProtobufFault::Io),
        Err(ProtobufError::WireError(WireError::UnexpectedEof)) => Err(ProtobufFault::UnexpectedEof),
        Err(ProtobufError::WireError(WireError::TruncatedMessage)) => Err(ProtobufFault::TruncatedMessage),
        Err(ProtobufError::WireError(WireError::UnexpectedWireType(_))) => Err(ProtobufFault::UnexpectedWireType),
        Err(ProtobufError::WireError(_)) => Err(ProtobufFault::Wire),
        Err(ProtobufError::Utf8(_)) => Err(ProtobufFault::Utf8),
        Err(ProtobufError::MessageNotInitialized { .. }) => Err(ProtobufFault::NotInitialized),
    }
}

} // verus!

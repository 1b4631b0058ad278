//! The structure-serialization format: a value is written field by field, as
//! its type lays it out, with no tags and no length in front. An integer takes
//! a fixed number of bytes, least significant first.
//!
//! The format marks no end of a message, so decoding takes what the value
//! needs from the front of the source and leaves what follows untouched.

use crate::call::MessageReader;
use crate::error::DecodeError;
use vstd::prelude::*;

verus! {

/// A message type that this format can carry.
pub trait BincodeMessage: Sized {
    /// The bytes that the value is written as.
    spec fn encoding(&self) -> Seq<u8>;

    /// The value that stands at the front of `bytes`, with the number of bytes
    /// that it takes there, or the reason why there is none.
    spec fn decoding(bytes: Seq<u8>) -> Result<(Self, nat), DecodeError>;

    /// Appends the encoding of the value to `buf`.
    fn encode(&self, buf: &mut Vec<u8>)
        ensures
            final(buf)@ == old(buf)@ + self.encoding(),
    ;

    /// Decodes the value at the front of `bytes`, and says how many bytes it
    /// took.
    fn decode(bytes: &[u8]) -> (r: Result<(Self, usize), DecodeError>)
        ensures
            match Self::decoding(bytes@) {
                Ok((value, taken)) => r == Ok::<(Self, usize), DecodeError>((value, taken as usize))
                    && taken <= bytes@.len(),
                Err(e) => r == Err::<(Self, usize), DecodeError>(e),
            },
    ;

    /// A value is read back from its own encoding, whatever follows it, and
    /// takes exactly the bytes of that encoding.
    proof fn lemma_reads_back(&self, rest: Seq<u8>)
        ensures
            Self::decoding(self.encoding() + rest) == Ok::<(Self, nat), DecodeError>(
                (*self, self.encoding().len()),
            ),
    ;

    /// An encoding that was cut short, to at least one byte, is refused as
    /// truncated.
    proof fn lemma_cut_short(&self, keep: int)
        ensures
            0 < keep < self.encoding().len() ==> Self::decoding(self.encoding().take(keep)) == Err::<
                (Self, nat),
                DecodeError,
            >(DecodeError::Truncated),
    ;
}

/// What [`de`] makes of a source that holds `bytes`.
pub open spec fn de_outcome<M: BincodeMessage>(bytes: Seq<u8>) -> Result<M, DecodeError> {
    match M::decoding(bytes) {
        Ok((value, _)) => Ok(value),
        Err(e) => Err(e),
    }
}

/// Appends the encoding of `msg` to `buf`. What `buf` held stays in front.
pub fn ser<M: BincodeMessage>(msg: &M, buf: &mut Vec<u8>)
    ensures
        final(buf)@ == old(buf)@ + msg.encoding(),
{
    msg.encode(buf)
}

/// Decodes the message at the front of the source, and moves the source past
/// the bytes of that message and no further. A source that cannot be decoded
/// is left where it was.
pub fn de_next<M: BincodeMessage>(reader: &mut MessageReader) -> (r: Result<M, DecodeError>)
    ensures
        match M::decoding(old(reader)@) {
            Ok((value, taken)) => r == Ok::<M, DecodeError>(value) && final(reader)@ == old(
                reader,
            )@.skip(taken as int),
            Err(e) => r == Err::<M, DecodeError>(e) && final(reader)@ == old(reader)@,
        },
{
    let available = reader.remaining();
    match M::decode(reader.bytes()) {
        Ok((value, taken)) => {
            assert(taken <= available);
            reader.advance(taken);
            Ok(value)
        },
        Err(e) => Err(e),
    }
}

/// Decodes the message that the source holds. Bytes that follow the message
/// are not read.
pub fn de<M: BincodeMessage>(reader: MessageReader) -> (r: Result<M, DecodeError>)
    ensures
        r == de_outcome::<M>(reader@),
{
    let mut reader = reader;
    de_next(&mut reader)
}

/// Decoding what [`ser`] wrote into an empty buffer gives the value back.
pub proof fn lemma_round_trip<M: BincodeMessage>(msg: M)
    ensures
        de_outcome::<M>(msg.encoding()) == Ok::<M, DecodeError>(msg),
{
    msg.lemma_reads_back(Seq::empty());
    assert(msg.encoding() + Seq::<u8>::empty() =~= msg.encoding());
}

/// A message that is followed at once by the bytes of another is decoded to
/// the same value, and the source then stands at the first byte that follows.
pub proof fn lemma_stops_at_boundary<M: BincodeMessage>(msg: M, rest: Seq<u8>)
    ensures
        M::decoding(msg.encoding() + rest) == Ok::<(M, nat), DecodeError>(
            (msg, msg.encoding().len()),
        ),
        (msg.encoding() + rest).skip(msg.encoding().len() as int) == rest,
{
    msg.lemma_reads_back(rest);
    assert((msg.encoding() + rest).skip(msg.encoding().len() as int) =~= rest);
}

/// No proper, non-empty prefix of an encoding is decoded to a value: each is
/// refused as truncated.
pub proof fn lemma_truncation<M: BincodeMessage>(msg: M, keep: int)
    requires
        0 < keep < msg.encoding().len(),
    ensures
        de_outcome::<M>(msg.encoding().take(keep)) == Err::<M, DecodeError>(DecodeError::Truncated),
{
    msg.lemma_cut_short(keep);
}

/// The four bytes of a `u32`, least significant first.
pub open spec fn u32_le_bytes(value: u32) -> Seq<u8> {
    seq![
        (value % 256) as u8,
        (value / 256 % 256) as u8,
        (value / 65536 % 256) as u8,
        (value / 16777216) as u8,
    ]
}

/// The `u32` that the first four of `bytes` stand for, least significant
/// first.
pub open spec fn u32_from_le_bytes(bytes: Seq<u8>) -> u32 {
    (bytes[0] + 256 * bytes[1] + 65536 * bytes[2] + 16777216 * bytes[3]) as u32
}

/// The eight bytes of a `u64`, least significant first.
pub open spec fn u64_le_bytes(value: u64) -> Seq<u8> {
    seq![
        (value % 256) as u8,
        (value / 256 % 256) as u8,
        (value / 65536 % 256) as u8,
        (value / 16777216 % 256) as u8,
        (value / 4294967296 % 256) as u8,
        (value / 1099511627776 % 256) as u8,
        (value / 281474976710656 % 256) as u8,
        (value / 72057594037927936) as u8,
    ]
}

/// The `u64` that the first eight of `bytes` stand for, least significant
/// first.
pub open spec fn u64_from_le_bytes(bytes: Seq<u8>) -> u64 {
    (bytes[0] + 256 * bytes[1] + 65536 * bytes[2] + 16777216 * bytes[3] + 4294967296 * bytes[4]
        + 1099511627776 * bytes[5] + 281474976710656 * bytes[6] + 72057594037927936
        * bytes[7]) as u64
}

/// The bytes of a `u32` stand for that `u32`.
pub proof fn lemma_u32_le_bytes(value: u32)
    ensures
        u32_le_bytes(value).len() == 4,
        u32_from_le_bytes(u32_le_bytes(value)) == value,
{
}

/// The bytes of a `u64` stand for that `u64`.
pub proof fn lemma_u64_le_bytes(value: u64)
    ensures
        u64_le_bytes(value).len() == 8,
        u64_from_le_bytes(u64_le_bytes(value)) == value,
{
    let q1 = value / 256;
    let q2 = value / 65536;
    let q3 = value / 16777216;
    let q4 = value / 4294967296;
    let q5 = value / 1099511627776;
    let q6 = value / 281474976710656;
    let q7 = value / 72057594037927936;
    assert(q2 == q1 / 256 && q3 == q2 / 256 && q4 == q3 / 256 && q5 == q4 / 256 && q6 == q5 / 256
        && q7 == q6 / 256 && q7 < 256) by (bit_vector)
        requires
            q1 == value / 256,
            q2 == value / 65536,
            q3 == value / 16777216,
            q4 == value / 4294967296,
            q5 == value / 1099511627776,
            q6 == value / 281474976710656,
            q7 == value / 72057594037927936,
    ;
    let bytes = u64_le_bytes(value);
    assert(bytes[0] == value % 256);
    assert(bytes[1] == q1 % 256);
    assert(bytes[2] == q2 % 256);
    assert(bytes[3] == q3 % 256);
    assert(bytes[4] == q4 % 256);
    assert(bytes[5] == q5 % 256);
    assert(bytes[6] == q6 % 256);
    assert(bytes[7] == q7);
}

/// Calls `bincode::serialize_into` on the unit value, with the writer that
/// `bytes` makes of the buffer. The unit value is written as no bytes at
/// all, so the buffer is left as it was.
#[verifier::external_body]
pub(crate) fn write_unit(buf: &mut Vec<u8>)
    ensures
        final(buf)@ == old(buf)@,
{
    bincode::serialize_into(bytes::buf::BufMutExt::writer(buf), &())
        .expect("Writing message to buffer failed");
}

/// Calls `bincode::deserialize_from` for the unit value. Nothing is read for
/// it, so the call succeeds on every source; the result is the number of bytes
/// that the source still holds, which is all of them.
#[verifier::external_body]
pub(crate) fn read_unit(bytes: &[u8]) -> (left: Option<usize>)
    ensures
        left == Some(bytes@.len() as usize),
{
    let mut src = bytes;
    match bincode::deserialize_from::<_, ()>(&mut src) {
        Ok(()) => Some(src.len()),
        Err(_) => None,
    }
}

/// Calls `bincode::serialize_into` on a `u32`, with the writer that `bytes`
/// makes of the buffer. The integer is appended as four bytes, least
/// significant first.
#[verifier::external_body]
pub(crate) fn write_u32(value: u32, buf: &mut Vec<u8>)
    ensures
        final(buf)@ == old(buf)@ + u32_le_bytes(value),
{
    bincode::serialize_into(bytes::buf::BufMutExt::writer(buf), &value)
        .expect("Writing message to buffer failed");
}

/// Calls `bincode::deserialize_from` for a `u32`. It reads exactly four
/// bytes, least significant first, and fails where the source holds fewer. The
/// result pairs the integer with the number of bytes that the source still
/// holds after it.
#[verifier::external_body]
pub(crate) fn read_u32(bytes: &[u8]) -> (r: Option<(u32, usize)>)
    ensures
        bytes@.len() < 4 ==> r.is_none(),
        bytes@.len() >= 4 ==> r == Some(
            (u32_from_le_bytes(bytes@.take(4)), (bytes@.len() - 4) as usize),
        ),
{
    let mut src = bytes;
    match bincode::deserialize_from::<_, u32>(&mut src) {
        Ok(value) => Some((value, src.len())),
        Err(_) => None,
    }
}

/// Calls `bincode::serialize_into` on a `u64`, with the writer that `bytes`
/// makes of the buffer. The integer is appended as eight bytes, least
/// significant first.
#[verifier::external_body]
pub(crate) fn write_u64(value: u64, buf: &mut Vec<u8>)
    ensures
        final(buf)@ == old(buf)@ + u64_le_bytes(value),
{
    bincode::serialize_into(bytes::buf::BufMutExt::writer(buf), &value)
        .expect("Writing message to buffer failed");
}

/// Calls `bincode::deserialize_from` for a `u64`. It reads exactly eight
/// bytes, least significant first, and fails where the source holds fewer. The
/// result pairs the integer with the number of bytes that the source still
/// holds after it.
#[verifier::external_body]
pub(crate) fn read_u64(bytes: &[u8]) -> (r: Option<(u64, usize)>)
    ensures
        bytes@.len() < 8 ==> r.is_none(),
        bytes@.len() >= 8 ==> r == Some(
            (u64_from_le_bytes(bytes@.take(8)), (bytes@.len() - 8) as usize),
        ),
{
    let mut src = bytes;
    match bincode::deserialize_from::<_, u64>(&mut src) {
        Ok(value) => Some((value, src.len())),
        Err(_) => None,
    }
}

} // verus!

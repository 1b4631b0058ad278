//! The compact binary format: the fields of a record in the order in which
//! its type declares them, each as its value alone, with no key in front and
//! no length. An unsigned integer is written in base-128 form.
//!
//! The format marks no end of a message: the source holds exactly one
//! message, and a source that holds less or more is refused.

use crate::call::MessageReader;
use crate::codec::{lemma_varint_injective, lemma_varint_shape, varint};
use crate::error::DecodeError;
use vstd::prelude::*;

verus! {

/// A message type that this format can carry.
pub trait ProstMessage: Sized {
    /// The bytes that the value is written as.
    spec fn encoding(&self) -> Seq<u8>;

    /// The value that `bytes`, taken as a whole, stand for, or the reason why
    /// they stand for none.
    spec fn decoding(bytes: Seq<u8>) -> Result<Self, DecodeError>;

    /// Appends the encoding of the value to `buf`.
    fn encode(&self, buf: &mut Vec<u8>)
        ensures
            final(buf)@ == old(buf)@ + self.encoding(),
    ;

    /// Decodes the value that `bytes` stand for.
    fn decode(bytes: &[u8]) -> (r: Result<Self, DecodeError>)
        ensures
            r == Self::decoding(bytes@),
    ;

    /// A value is read back from its own encoding.
    proof fn lemma_reads_back(&self)
        ensures
            Self::decoding(self.encoding()) == Ok::<Self, DecodeError>(*self),
    ;

    /// An encoding that was cut short, to at least one byte, is refused as
    /// truncated.
    proof fn lemma_cut_short(&self, keep: int)
        ensures
            0 < keep < self.encoding().len() ==> Self::decoding(self.encoding().take(keep)) == Err::<
                Self,
                DecodeError,
            >(DecodeError::Truncated),
    ;
}

/// Appends the encoding of `msg` to `buf`. What `buf` held stays in front.
pub fn ser<M: ProstMessage>(msg: &M, buf: &mut Vec<u8>)
    ensures
        final(buf)@ == old(buf)@ + msg.encoding(),
{
    msg.encode(buf)
}

/// Decodes the message that the source holds, from where the source stands to
/// its end.
pub fn de<M: ProstMessage>(reader: MessageReader) -> (r: Result<M, DecodeError>)
    ensures
        r == M::decoding(reader@),
{
    let ghost whole = reader@;
    let mut reader = reader;
    reader.advance(0);
    assert(reader@ =~= whole);
    M::decode(reader.bytes())
}

/// Decoding what [`ser`] wrote into an empty buffer gives the value back.
pub proof fn lemma_round_trip<M: ProstMessage>(msg: M)
    ensures
        M::decoding(msg.encoding()) == Ok::<M, DecodeError>(msg),
{
    msg.lemma_reads_back();
}

/// No proper, non-empty prefix of an encoding is decoded to a value: each is
/// refused as truncated.
pub proof fn lemma_truncation<M: ProstMessage>(msg: M, keep: int)
    requires
        0 < keep < msg.encoding().len(),
    ensures
        M::decoding(msg.encoding().take(keep)) == Err::<M, DecodeError>(DecodeError::Truncated),
{
    msg.lemma_cut_short(keep);
}

/// Whether `bytes` are exactly one integer in base-128 form: from one to ten
/// bytes, the last below 128 and every other not.
pub open spec fn is_varint(bytes: Seq<u8>) -> bool {
    &&& 1 <= bytes.len() <= 10
    &&& bytes[bytes.len() - 1] < 128
    &&& forall|i: int| 0 <= i < bytes.len() - 1 ==> bytes[i] >= 128
}

/// Whether `bytes` end inside an integer in base-128 form: fewer than ten
/// bytes, none of them below 128.
pub open spec fn is_cut_varint(bytes: Seq<u8>) -> bool {
    &&& bytes.len() < 10
    &&& forall|i: int| 0 <= i < bytes.len() ==> bytes[i] >= 128
}

/// The integer that `bytes` are read as: the one whose base-128 form they
/// are, where there is one, else what the decoder makes of them.
pub open spec fn varint_value(bytes: Seq<u8>) -> u64 {
    if exists|v: u64| #[trigger] varint(v) == bytes {
        choose|v: u64| #[trigger] varint(v) == bytes
    } else {
        prost_varint_value(bytes)
    }
}

/// What a source that holds `bytes` is decoded to as a record of one unsigned
/// integer: the integer where the bytes are exactly one, a truncated source
/// where they end inside one, else a malformed one.
pub open spec fn uint64_decoding(bytes: Seq<u8>) -> Result<u64, DecodeError> {
    if is_varint(bytes) {
        Ok(varint_value(bytes))
    } else if is_cut_varint(bytes) {
        Err(DecodeError::Truncated)
    } else {
        Err(DecodeError::Malformed)
    }
}

/// Appends an unsigned integer in base-128 form.
pub fn put_uint64(value: u64, buf: &mut Vec<u8>)
    ensures
        final(buf)@ == old(buf)@ + varint(value),
{
    write_varint(value, buf)
}

/// Decodes a source that holds one unsigned integer in base-128 form and
/// nothing else.
pub fn take_uint64(bytes: &[u8]) -> (r: Result<u64, DecodeError>)
    ensures
        r == uint64_decoding(bytes@),
{
    match read_varint(bytes) {
        Some((value, left)) => {
            if left == 0 {
                assert(bytes@.take(bytes@.len() - 0) =~= bytes@);
                assert(value == varint_value(bytes@)) by {
                    if exists|v: u64| #[trigger] varint(v) == bytes@ {
                        let v = choose|v: u64| #[trigger] varint(v) == bytes@;
                        assert(varint(v).is_prefix_of(bytes@));
                    }
                }
                Ok(value)
            } else {
                let ghost end = bytes@.len() - left;
                assert(bytes@.take(end)[end - 1] == bytes@[end - 1]);
                Err(DecodeError::Malformed)
            }
        },
        None => {
            if bytes.len() < 10 {
                Err(DecodeError::Truncated)
            } else {
                Err(DecodeError::Malformed)
            }
        },
    }
}

/// The base-128 form of an integer is decoded to that integer.
pub proof fn lemma_uint64_reads_back(value: u64)
    ensures
        uint64_decoding(varint(value)) == Ok::<u64, DecodeError>(value),
{
    lemma_varint_shape(value);
    let v = choose|v: u64| #[trigger] varint(v) == varint(value);
    lemma_varint_injective(v, value);
}

/// The base-128 form of an integer, cut short to at least one byte, is
/// refused as truncated.
pub proof fn lemma_uint64_cut_short(value: u64, keep: int)
    requires
        0 < keep < varint(value).len(),
    ensures
        uint64_decoding(varint(value).take(keep)) == Err::<u64, DecodeError>(DecodeError::Truncated),
{
    lemma_varint_shape(value);
    let cut = varint(value).take(keep);
    assert(cut[cut.len() - 1] == varint(value)[keep - 1]);
    assert(is_cut_varint(cut));
}

/// The integer that `prost::encoding::decode_varint` reads from the front of
/// `bytes`, where it reads one.
pub uninterp spec fn prost_varint_value(bytes: Seq<u8>) -> u64;

/// Calls `prost::encoding::encode_varint`, which appends the integer in
/// base-128 form and grows the buffer as it needs.
#[verifier::external_body]
fn write_varint(value: u64, buf: &mut Vec<u8>)
    ensures
        final(buf)@ == old(buf)@ + varint(value),
{
    prost::encoding::encode_varint(value, buf)
}

/// Calls `prost::encoding::decode_varint` on the bytes, and pairs the integer
/// with the number of bytes that are left behind it.
///
/// The call reads up to the first byte below 128 and looks at no more than ten
/// bytes. It succeeds where there is such a byte among them, and fails where
/// there is none. From the base-128 form of an integer, whatever follows it,
/// it reads that integer.
#[verifier::external_body]
fn read_varint(bytes: &[u8]) -> (r: Option<(u64, usize)>)
    ensures
        match r {
            Some((value, left)) => left < bytes@.len() && is_varint(
                bytes@.take(bytes@.len() - left),
            ) && value == prost_varint_value(bytes@),
            None => forall|i: int| 0 <= i < bytes@.len() && i < 10 ==> bytes@[i] >= 128,
        },
        forall|v: u64| #[trigger] varint(v).is_prefix_of(bytes@) ==> r is Some && r->Some_0.0 == v,
{
    let mut src = bytes;
    match prost::encoding::decode_varint(&mut src) {
        Ok(value) => Some((value, src.len())),
        Err(_) => None,
    }
}

} // verus!

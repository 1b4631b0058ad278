//! Message types that the wire formats of this crate can carry: a record of
//! one unsigned integer, for every format, and the bare integers, for the
//! structure-serialization format.

use crate::codec::bi_codec;
use crate::codec::bi_codec::{
    lemma_u32_le_bytes, lemma_u64_le_bytes, u32_from_le_bytes, u32_le_bytes, u64_from_le_bytes,
    u64_le_bytes, BincodeMessage,
};
use crate::codec::pb_codec;
use crate::codec::pb_codec::ProtobufMessage;
use crate::codec::pr_codec;
use crate::codec::pr_codec::ProstMessage;
use crate::codec::{uint64_field, varint};
use crate::error::DecodeError;
use vstd::prelude::*;

verus! {

/// A record with one unsigned integer field, which is zero where the field is
/// not set.
#[derive(Clone, Copy, Debug, PartialEq, Eq, Structural)]
pub struct UInt64Value {
    pub value: u64,
}

impl BincodeMessage for UInt64Value {
    open spec fn encoding(&self) -> Seq<u8> {
        u64_le_bytes(self.value)
    }

    open spec fn decoding(bytes: Seq<u8>) -> Result<(Self, nat), DecodeError> {
        if bytes.len() >= 8 {
            Ok((UInt64Value { value: u64_from_le_bytes(bytes.take(8)) }, 8nat))
        } else {
            Err(DecodeError::Truncated)
        }
    }

    fn encode(&self, buf: &mut Vec<u8>) {
        bi_codec::write_u64(self.value, buf)
    }

    fn decode(bytes: &[u8]) -> (r: Result<(Self, usize), DecodeError>) {
        match bi_codec::read_u64(bytes) {
            Some((value, left)) => Ok((UInt64Value { value }, bytes.len() - left)),
            None => Err(DecodeError::Truncated),
        }
    }

    proof fn lemma_reads_back(&self, rest: Seq<u8>) {
        lemma_u64_le_bytes(self.value);
        let written = u64_le_bytes(self.value);
        assert((written + rest).take(8) =~= written);
    }

    proof fn lemma_cut_short(&self, keep: int) {
    }
}

impl BincodeMessage for u64 {
    open spec fn encoding(&self) -> Seq<u8> {
        u64_le_bytes(*self)
    }

    open spec fn decoding(bytes: Seq<u8>) -> Result<(Self, nat), DecodeError> {
        if bytes.len() >= 8 {
            Ok((u64_from_le_bytes(bytes.take(8)), 8nat))
        } else {
            Err(DecodeError::Truncated)
        }
    }

    fn encode(&self, buf: &mut Vec<u8>) {
        bi_codec::write_u64(*self, buf)
    }

    fn decode(bytes: &[u8]) -> (r: Result<(Self, usize), DecodeError>) {
        match bi_codec::read_u64(bytes) {
            Some((value, left)) => Ok((value, bytes.len() - left)),
            None => Err(DecodeError::Truncated),
        }
    }

    proof fn lemma_reads_back(&self, rest: Seq<u8>) {
        lemma_u64_le_bytes(*self);
        let written = u64_le_bytes(*self);
        assert((written + rest).take(8) =~= written);
    }

    proof fn lemma_cut_short(&self, keep: int) {
    }
}

impl BincodeMessage for u32 {
    open spec fn encoding(&self) -> Seq<u8> {
        u32_le_bytes(*self)
    }

    open spec fn decoding(bytes: Seq<u8>) -> Result<(Self, nat), DecodeError> {
        if bytes.len() >= 4 {
            Ok((u32_from_le_bytes(bytes.take(4)), 4nat))
        } else {
            Err(DecodeError::Truncated)
        }
    }

    fn encode(&self, buf: &mut Vec<u8>) {
        bi_codec::write_u32(*self, buf)
    }

    fn decode(bytes: &[u8]) -> (r: Result<(Self, usize), DecodeError>) {
        match bi_codec::read_u32(bytes) {
            Some((value, left)) => Ok((value, bytes.len() - left)),
            None => Err(DecodeError::Truncated),
        }
    }

    proof fn lemma_reads_back(&self, rest: Seq<u8>) {
        lemma_u32_le_bytes(*self);
        let written = u32_le_bytes(*self);
        assert((written + rest).take(4) =~= written);
    }

    proof fn lemma_cut_short(&self, keep: int) {
    }
}

impl ProstMessage for UInt64Value {
    open spec fn encoding(&self) -> Seq<u8> {
        varint(self.value)
    }

    open spec fn decoding(bytes: Seq<u8>) -> Result<Self, DecodeError> {
        match pr_codec::uint64_decoding(bytes) {
            Ok(value) => Ok(UInt64Value { value }),
            Err(e) => Err(e),
        }
    }

    fn encode(&self, buf: &mut Vec<u8>) {
        pr_codec::put_uint64(self.value, buf)
    }

    fn decode(bytes: &[u8]) -> (r: Result<Self, DecodeError>) {
        match pr_codec::take_uint64(bytes) {
            Ok(value) => Ok(UInt64Value { value }),
            Err(e) => Err(e),
        }
    }

    proof fn lemma_reads_back(&self) {
        pr_codec::lemma_uint64_reads_back(self.value);
    }

    proof fn lemma_cut_short(&self, keep: int) {
        if 0 < keep < varint(self.value).len() {
            pr_codec::lemma_uint64_cut_short(self.value, keep);
        }
    }
}

impl ProtobufMessage for UInt64Value {
    open spec fn encoding(&self) -> Seq<u8> {
        uint64_field(self.value)
    }

    open spec fn decoding(bytes: Seq<u8>) -> Result<Self, DecodeError> {
        match pb_codec::uint64_decoding(bytes) {
            Ok(value) => Ok(UInt64Value { value }),
            Err(e) => Err(e),
        }
    }

    fn encode(&self, buf: &mut Vec<u8>) {
        pb_codec::put_uint64(self.value, buf)
    }

    fn decode(bytes: &[u8]) -> (r: Result<Self, DecodeError>) {
        match pb_codec::take_uint64(bytes) {
            Ok(value) => Ok(UInt64Value { value }),
            Err(e) => Err(e),
        }
    }

    proof fn lemma_reads_back(&self) {
        pb_codec::lemma_uint64_reads_back(self.value);
    }

    proof fn lemma_cut_short(&self, keep: int) {
        if 0 < keep < uint64_field(self.value).len() {
            pb_codec::lemma_uint64_cut_short(self.value, keep);
        }
    }
}

} // verus!

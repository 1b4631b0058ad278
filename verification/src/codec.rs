//! Marshallers, and the wire formats that they can be bound to.

use crate::call::MessageReader;
use crate::error::DecodeError;
use vstd::prelude::*;

pub mod bi_codec;
pub mod pb_codec;
pub mod pr_codec;

verus! {

/// How values of one message type are turned into bytes and back: a pair of
/// functions, fixed when the marshaller is made and called without any
/// indirection.
pub struct Marshaller<S, D> {
    /// The serialize function.
    pub ser: S,
    /// The deserialize function.
    pub de: D,
}

impl<S, D> Marshaller<S, D> {
    /// Whether `ser` takes every value of `T` and every buffer.
    pub open spec fn writes<T>(&self) -> bool where S: Fn(&T, &mut Vec<u8>) {
        forall|t: &T, buf: &mut Vec<u8>| call_requires(self.ser, (t, buf))
    }

    /// Whether `de` takes every byte source.
    pub open spec fn accepts<T>(&self) -> bool where D: Fn(MessageReader) -> Result<T, DecodeError> {
        forall|reader: MessageReader| call_requires(self.de, (reader,))
    }

    /// Appends the encoding of `t` to `buf`, as `ser` does it.
    ///
    /// A marshaller serves a call path only if its `ser` never fails and never
    /// drops what the buffer already holds. Given that, `buf` ends as a call
    /// of `ser` on what it held leaves it, with what it held still in front.
    pub fn encode<T>(&self, t: &T, buf: &mut Vec<u8>) where S: Fn(&T, &mut Vec<u8>)
        requires
            self.writes::<T>(),
            forall|v: &T, b: &mut Vec<u8>| #[trigger]
                call_ensures(self.ser, (v, b), ()) ==> (*b)@.is_prefix_of((*final(b))@),
        ensures
            exists|b: &mut Vec<u8>|
                *b == *old(buf) && *final(b) == *final(buf) && #[trigger] call_ensures(
                    self.ser,
                    (t, b),
                    (),
                ),
            old(buf)@.is_prefix_of(final(buf)@),
    {
        (self.ser)(t, buf)
    }

    /// Decodes the message that `reader` holds, as `de` does it: the result
    /// is one that `de` gives for this source.
    pub fn decode<T>(&self, reader: MessageReader) -> (r: Result<T, DecodeError>) where
        D: Fn(MessageReader) -> Result<T, DecodeError>,

        requires
            self.accepts::<T>(),
        ensures
            call_ensures(self.de, (reader,), r),
    {
        (self.de)(reader)
    }
}

/// The bytes of an unsigned integer in base-128 form: seven bits to a byte,
/// least significant group first, and the top bit set on every byte but the
/// last.
pub open spec fn varint(value: u64) -> Seq<u8>
    decreases value,
{
    if value < 128 {
        seq![value as u8]
    } else {
        seq![(value % 128 + 128) as u8] + varint(value / 128)
    }
}

/// 128 to the power of `k`.
pub open spec fn pow128(k: nat) -> nat
    decreases k,
{
    if k == 0 {
        1
    } else {
        128 * pow128((k - 1) as nat)
    }
}

proof fn lemma_varint_len(value: u64, k: nat)
    requires
        k >= 1,
        value < pow128(k),
    ensures
        1 <= varint(value).len() <= k,
    decreases value,
{
    reveal_with_fuel(pow128, 2);
    if value >= 128 {
        lemma_varint_len(value / 128, (k - 1) as nat);
    }
}

/// The base-128 form of an integer has from one to ten bytes; the last is
/// below 128 and every other is not.
pub proof fn lemma_varint_shape(value: u64)
    ensures
        1 <= varint(value).len() <= 10,
        varint(value)[varint(value).len() - 1] < 128,
        forall|i: int| 0 <= i < varint(value).len() - 1 ==> varint(value)[i] >= 128,
    decreases value,
{
    assert(value < pow128(10)) by {
        reveal_with_fuel(pow128, 11);
    }
    lemma_varint_len(value, 10);
    if value >= 128 {
        lemma_varint_shape(value / 128);
        let head = seq![(value % 128 + 128) as u8];
        let tail = varint(value / 128);
        assert(varint(value) =~= head + tail);
        assert forall|i: int| 0 <= i < varint(value).len() - 1 implies varint(value)[i] >= 128 by {
            if i > 0 {
                assert(varint(value)[i] == tail[i - 1]);
            }
        }
        assert(varint(value)[varint(value).len() - 1] == tail[tail.len() - 1]);
    }
}

/// Two integers with the same base-128 form are the same integer.
pub proof fn lemma_varint_injective(a: u64, b: u64)
    requires
        varint(a) == varint(b),
    ensures
        a == b,
    decreases a,
{
    lemma_varint_shape(a);
    lemma_varint_shape(b);
    if a < 128 {
        if b >= 128 {
            lemma_varint_shape(b / 128);
            assert(varint(b).len() == 1 + varint(b / 128).len());
        }
        assert(varint(a)[0] == a as u8);
        assert(varint(b)[0] == b as u8);
    } else {
        if b < 128 {
            lemma_varint_shape(a / 128);
            assert(varint(a).len() == 1 + varint(a / 128).len());
        }
        let ta = varint(a / 128);
        let tb = varint(b / 128);
        assert(varint(a)[0] == (a % 128 + 128) as u8);
        assert(varint(b)[0] == (b % 128 + 128) as u8);
        assert(varint(a).skip(1) =~= ta);
        assert(varint(b).skip(1) =~= tb);
        lemma_varint_injective(a / 128, b / 128);
    }
}

/// The bytes of a record whose only field, numbered 1, is an unsigned integer,
/// in the tagged form: nothing where the field is zero, else the key of the
/// field, which is the byte 8, and the integer in base-128 form.
pub open spec fn uint64_field(value: u64) -> Seq<u8> {
    if value == 0 {
        Seq::empty()
    } else {
        seq![8u8] + varint(value)
    }
}

} // verus!

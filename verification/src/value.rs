//! Values of fixed size, as the flat bytes that cross the process boundary.

use vstd::prelude::*;
use crate::bytes::{
    decode_le, encode_le, le_bytes, le_value, lemma_le_roundtrip, lemma_le_value_bound,
    lemma_span_values,
};

verus! {

/// A type whose values occupy a fixed number of bytes in the target process
/// and can be told from those bytes alone.
pub trait FixedSize: Sized {
    /// Bytes that one value occupies.
    spec fn size() -> nat;

    /// The bytes of a value, as they lie in memory.
    spec fn encode(self) -> Seq<u8>;

    /// The value that `size()` bytes of memory hold.
    spec fn decode(bytes: Seq<u8>) -> Self;

    /// A value fills exactly its size, and its bytes give it back.
    proof fn lemma_encode_decode(value: Self)
        ensures
            value.encode().len() == Self::size(),
            Self::decode(value.encode()) == value,
    ;

    /// Bytes that one value occupies, at run time.
    fn byte_size() -> (n: usize)
        ensures
            n == Self::size(),
    ;

    /// The bytes of this value.
    fn to_bytes(&self) -> (bytes: Vec<u8>)
        ensures
            bytes@ == self.encode(),
    ;

    /// The value that `bytes` hold.
    fn from_bytes(bytes: &[u8]) -> (value: Self)
        requires
            bytes@.len() == Self::size(),
        ensures
            value == Self::decode(bytes@),
    ;
}

impl FixedSize for u8 {
    open spec fn size() -> nat {
        1
    }

    open spec fn encode(self) -> Seq<u8> {
        le_bytes(self as nat, 1)
    }

    open spec fn decode(bytes: Seq<u8>) -> u8 {
        le_value(bytes) as u8
    }

    proof fn lemma_encode_decode(value: u8) {
        lemma_span_values();
        lemma_le_roundtrip(value as nat, 1);
    }

    fn byte_size() -> (n: usize) {
        1
    }

    fn to_bytes(&self) -> (bytes: Vec<u8>) {
        encode_le(*self as u64, 1)
    }

    fn from_bytes(bytes: &[u8]) -> (value: u8) {
        proof {
            lemma_span_values();
            lemma_le_value_bound(bytes@);
        }
        decode_le(bytes) as u8
    }
}

impl FixedSize for u16 {
    open spec fn size() -> nat {
        2
    }

    open spec fn encode(self) -> Seq<u8> {
        le_bytes(self as nat, 2)
    }

    open spec fn decode(bytes: Seq<u8>) -> u16 {
        le_value(bytes) as u16
    }

    proof fn lemma_encode_decode(value: u16) {
        lemma_span_values();
        lemma_le_roundtrip(value as nat, 2);
    }

    fn byte_size() -> (n: usize) {
        2
    }

    fn to_bytes(&self) -> (bytes: Vec<u8>) {
        encode_le(*self as u64, 2)
    }

    fn from_bytes(bytes: &[u8]) -> (value: u16) {
        proof {
            lemma_span_values();
            lemma_le_value_bound(bytes@);
        }
        decode_le(bytes) as u16
    }
}

impl FixedSize for u32 {
    open spec fn size() -> nat {
        4
    }

    open spec fn encode(self) -> Seq<u8> {
        le_bytes(self as nat, 4)
    }

    open spec fn decode(bytes: Seq<u8>) -> u32 {
        le_value(bytes) as u32
    }

    proof fn lemma_encode_decode(value: u32) {
        lemma_span_values();
        lemma_le_roundtrip(value as nat, 4);
    }

    fn byte_size() -> (n: usize) {
        4
    }

    fn to_bytes(&self) -> (bytes: Vec<u8>) {
        encode_le(*self as u64, 4)
    }

    fn from_bytes(bytes: &[u8]) -> (value: u32) {
        proof {
            lemma_span_values();
            lemma_le_value_bound(bytes@);
        }
        decode_le(bytes) as u32
    }
}

impl FixedSize for u64 {
    open spec fn size() -> nat {
        8
    }

    open spec fn encode(self) -> Seq<u8> {
        le_bytes(self as nat, 8)
    }

    open spec fn decode(bytes: Seq<u8>) -> u64 {
        le_value(bytes) as u64
    }

    proof fn lemma_encode_decode(value: u64) {
        lemma_span_values();
        lemma_le_roundtrip(value as nat, 8);
    }

    fn byte_size() -> (n: usize) {
        8
    }

    fn to_bytes(&self) -> (bytes: Vec<u8>) {
        encode_le(*self as u64, 8)
    }

    fn from_bytes(bytes: &[u8]) -> (value: u64) {
        proof {
            lemma_span_values();
            lemma_le_value_bound(bytes@);
        }
        decode_le(bytes) as u64
    }
}

impl FixedSize for i8 {
    open spec fn size() -> nat {
        1
    }

    open spec fn encode(self) -> Seq<u8> {
        le_bytes((self as u8) as nat, 1)
    }

    open spec fn decode(bytes: Seq<u8>) -> i8 {
        (le_value(bytes) as u8) as i8
    }

    proof fn lemma_encode_decode(value: i8) {
        lemma_span_values();
        lemma_le_roundtrip((value as u8) as nat, 1);
        assert(((value as u8) as i8) == value) by (bit_vector);
    }

    fn byte_size() -> (n: usize) {
        1
    }

    fn to_bytes(&self) -> (bytes: Vec<u8>) {
        encode_le((*self as u8) as u64, 1)
    }

    fn from_bytes(bytes: &[u8]) -> (value: i8) {
        proof {
            lemma_span_values();
            lemma_le_value_bound(bytes@);
        }
        (decode_le(bytes) as u8) as i8
    }
}

impl FixedSize for i16 {
    open spec fn size() -> nat {
        2
    }

    open spec fn encode(self) -> Seq<u8> {
        le_bytes((self as u16) as nat, 2)
    }

    open spec fn decode(bytes: Seq<u8>) -> i16 {
        (le_value(bytes) as u16) as i16
    }

    proof fn lemma_encode_decode(value: i16) {
        lemma_span_values();
        lemma_le_roundtrip((value as u16) as nat, 2);
        assert(((value as u16) as i16) == value) by (bit_vector);
    }

    fn byte_size() -> (n: usize) {
        2
    }

    fn to_bytes(&self) -> (bytes: Vec<u8>) {
        encode_le((*self as u16) as u64, 2)
    }

    fn from_bytes(bytes: &[u8]) -> (value: i16) {
        proof {
            lemma_span_values();
            lemma_le_value_bound(bytes@);
        }
        (decode_le(bytes) as u16) as i16
    }
}

impl FixedSize for i32 {
    open spec fn size() -> nat {
        4
    }

    open spec fn encode(self) -> Seq<u8> {
        le_bytes((self as u32) as nat, 4)
    }

    open spec fn decode(bytes: Seq<u8>) -> i32 {
        (le_value(bytes) as u32) as i32
    }

    proof fn lemma_encode_decode(value: i32) {
        lemma_span_values();
        lemma_le_roundtrip((value as u32) as nat, 4);
        assert(((value as u32) as i32) == value) by (bit_vector);
    }

    fn byte_size() -> (n: usize) {
        4
    }

    fn to_bytes(&self) -> (bytes: Vec<u8>) {
        encode_le((*self as u32) as u64, 4)
    }

    fn from_bytes(bytes: &[u8]) -> (value: i32) {
        proof {
            lemma_span_values();
            lemma_le_value_bound(bytes@);
        }
        (decode_le(bytes) as u32) as i32
    }
}

impl FixedSize for i64 {
    open spec fn size() -> nat {
        8
    }

    open spec fn encode(self) -> Seq<u8> {
        le_bytes((self as u64) as nat, 8)
    }

    open spec fn decode(bytes: Seq<u8>) -> i64 {
        (le_value(bytes) as u64) as i64
    }

    proof fn lemma_encode_decode(value: i64) {
        lemma_span_values();
        lemma_le_roundtrip((value as u64) as nat, 8);
        assert(((value as u64) as i64) == value) by (bit_vector);
    }

    fn byte_size() -> (n: usize) {
        8
    }

    fn to_bytes(&self) -> (bytes: Vec<u8>) {
        encode_le((*self as u64) as u64, 8)
    }

    fn from_bytes(bytes: &[u8]) -> (value: i64) {
        proof {
            lemma_span_values();
            lemma_le_value_bound(bytes@);
        }
        (decode_le(bytes) as u64) as i64
    }
}

} // verus!

//! Pixel types and how their values lie in memory.

use vstd::bytes::{
    u16_from_le_bytes, u16_to_le_bytes, u32_from_le_bytes, u32_to_le_bytes, u64_from_le_bytes,
    u64_to_le_bytes,
};
use vstd::prelude::*;
use vstd::slice::slice_subrange;

use crate::primitives::{F32Bits, F64Bits};

verus! {

/// A type whose values are stored as a fixed number of bytes.
pub trait PixelBytes: Copy {
    /// How many bytes a value takes.
    spec fn size() -> nat;

    /// The bytes of a value.
    spec fn bytes(self) -> Seq<u8>;

    /// The value that the bytes stand for.
    spec fn from_bytes(bytes: Seq<u8>) -> Self;

    /// A value can be read back from its bytes.
    proof fn lemma_round_trip(self)
        ensures
            1 <= Self::size() <= 8,
            self.bytes().len() == Self::size(),
            Self::from_bytes(self.bytes()) == self,
    ;

    proof fn lemma_size()
        ensures
            1 <= Self::size() <= 8,
    ;

    /// How many bytes a value takes.
    fn size_in_bytes() -> (size: usize)
        ensures
            size == Self::size(),
    ;

    /// The bytes of a value.
    fn to_bytes(&self) -> (bytes: Vec<u8>)
        ensures
            bytes@ == self.bytes(),
    ;

    /// The value that the bytes stand for.
    fn read(bytes: &[u8]) -> (value: Self)
        requires
            bytes@.len() == Self::size(),
        ensures
            value == Self::from_bytes(bytes@),
    ;
}

impl PixelBytes for bool {
    open spec fn size() -> nat {
        1
    }

    open spec fn bytes(self) -> Seq<u8> {
        seq![if self {
            1u8
        } else {
            0u8
        }]
    }

    open spec fn from_bytes(bytes: Seq<u8>) -> Self {
        bytes[0] != 0
    }

    proof fn lemma_round_trip(self) {
    }

    proof fn lemma_size() {
    }

    fn size_in_bytes() -> (size: usize) {
        1
    }

    fn to_bytes(&self) -> (bytes: Vec<u8>) {
        vec![if *self {
            1u8
        } else {
            0u8
        }]
    }

    fn read(bytes: &[u8]) -> (value: Self) {
        bytes[0] != 0
    }
}

impl PixelBytes for u8 {
    open spec fn size() -> nat {
        1
    }

    open spec fn bytes(self) -> Seq<u8> {
        seq![self]
    }

    open spec fn from_bytes(bytes: Seq<u8>) -> Self {
        bytes[0]
    }

    proof fn lemma_round_trip(self) {
    }

    proof fn lemma_size() {
    }

    fn size_in_bytes() -> (size: usize) {
        1
    }

    fn to_bytes(&self) -> (bytes: Vec<u8>) {
        vec![*self]
    }

    fn read(bytes: &[u8]) -> (value: Self) {
        bytes[0]
    }
}

impl PixelBytes for i8 {
    open spec fn size() -> nat {
        1
    }

    open spec fn bytes(self) -> Seq<u8> {
        seq![self as u8]
    }

    open spec fn from_bytes(bytes: Seq<u8>) -> Self {
        bytes[0] as i8
    }

    proof fn lemma_round_trip(self) {
        assert((self as u8) as i8 == self) by (bit_vector);
    }

    proof fn lemma_size() {
    }

    fn size_in_bytes() -> (size: usize) {
        1
    }

    fn to_bytes(&self) -> (bytes: Vec<u8>) {
        vec![*self as u8]
    }

    fn read(bytes: &[u8]) -> (value: Self) {
        bytes[0] as i8
    }
}

impl PixelBytes for u16 {
    open spec fn size() -> nat {
        2
    }

    open spec fn bytes(self) -> Seq<u8> {
        vstd::bytes::spec_u16_to_le_bytes(self)
    }

    open spec fn from_bytes(bytes: Seq<u8>) -> Self {
        vstd::bytes::spec_u16_from_le_bytes(bytes)
    }

    proof fn lemma_round_trip(self) {
        vstd::bytes::lemma_auto_spec_u16_to_from_le_bytes();
        assert(self.bytes().len() == Self::size());
    }

    proof fn lemma_size() {
    }

    fn size_in_bytes() -> (size: usize) {
        2
    }

    fn to_bytes(&self) -> (bytes: Vec<u8>) {
        u16_to_le_bytes(*self)
    }

    fn read(bytes: &[u8]) -> (value: Self) {
        u16_from_le_bytes(bytes)
    }
}

impl PixelBytes for i16 {
    open spec fn size() -> nat {
        2
    }

    open spec fn bytes(self) -> Seq<u8> {
        vstd::bytes::spec_u16_to_le_bytes(self as u16)
    }

    open spec fn from_bytes(bytes: Seq<u8>) -> Self {
        vstd::bytes::spec_u16_from_le_bytes(bytes) as i16
    }

    proof fn lemma_round_trip(self) {
        vstd::bytes::lemma_auto_spec_u16_to_from_le_bytes();
        assert(self.bytes().len() == Self::size());
        assert((self as u16) as i16 == self) by (bit_vector);
    }

    proof fn lemma_size() {
    }

    fn size_in_bytes() -> (size: usize) {
        2
    }

    fn to_bytes(&self) -> (bytes: Vec<u8>) {
        u16_to_le_bytes(*self as u16)
    }

    fn read(bytes: &[u8]) -> (value: Self) {
        u16_from_le_bytes(bytes) as i16
    }
}

impl PixelBytes for u32 {
    open spec fn size() -> nat {
        4
    }

    open spec fn bytes(self) -> Seq<u8> {
        vstd::bytes::spec_u32_to_le_bytes(self)
    }

    open spec fn from_bytes(bytes: Seq<u8>) -> Self {
        vstd::bytes::spec_u32_from_le_bytes(bytes)
    }

    proof fn lemma_round_trip(self) {
        vstd::bytes::lemma_auto_spec_u32_to_from_le_bytes();
        assert(self.bytes().len() == Self::size());
    }

    proof fn lemma_size() {
    }

    fn size_in_bytes() -> (size: usize) {
        4
    }

    fn to_bytes(&self) -> (bytes: Vec<u8>) {
        u32_to_le_bytes(*self)
    }

    fn read(bytes: &[u8]) -> (value: Self) {
        u32_from_le_bytes(bytes)
    }
}

impl PixelBytes for i32 {
    open spec fn size() -> nat {
        4
    }

    open spec fn bytes(self) -> Seq<u8> {
        vstd::bytes::spec_u32_to_le_bytes(self as u32)
    }

    open spec fn from_bytes(bytes: Seq<u8>) -> Self {
        vstd::bytes::spec_u32_from_le_bytes(bytes) as i32
    }

    proof fn lemma_round_trip(self) {
        vstd::bytes::lemma_auto_spec_u32_to_from_le_bytes();
        assert(self.bytes().len() == Self::size());
        assert((self as u32) as i32 == self) by (bit_vector);
    }

    proof fn lemma_size() {
    }

    fn size_in_bytes() -> (size: usize) {
        4
    }

    fn to_bytes(&self) -> (bytes: Vec<u8>) {
        u32_to_le_bytes(*self as u32)
    }

    fn read(bytes: &[u8]) -> (value: Self) {
        u32_from_le_bytes(bytes) as i32
    }
}

impl PixelBytes for u64 {
    open spec fn size() -> nat {
        8
    }

    open spec fn bytes(self) -> Seq<u8> {
        vstd::bytes::spec_u64_to_le_bytes(self)
    }

    open spec fn from_bytes(bytes: Seq<u8>) -> Self {
        vstd::bytes::spec_u64_from_le_bytes(bytes)
    }

    proof fn lemma_round_trip(self) {
        vstd::bytes::lemma_auto_spec_u64_to_from_le_bytes();
        assert(self.bytes().len() == Self::size());
    }

    proof fn lemma_size() {
    }

    fn size_in_bytes() -> (size: usize) {
        8
    }

    fn to_bytes(&self) -> (bytes: Vec<u8>) {
        u64_to_le_bytes(*self)
    }

    fn read(bytes: &[u8]) -> (value: Self) {
        u64_from_le_bytes(bytes)
    }
}

impl PixelBytes for i64 {
    open spec fn size() -> nat {
        8
    }

    open spec fn bytes(self) -> Seq<u8> {
        vstd::bytes::spec_u64_to_le_bytes(self as u64)
    }

    open spec fn from_bytes(bytes: Seq<u8>) -> Self {
        vstd::bytes::spec_u64_from_le_bytes(bytes) as i64
    }

    proof fn lemma_round_trip(self) {
        vstd::bytes::lemma_auto_spec_u64_to_from_le_bytes();
        assert(self.bytes().len() == Self::size());
        assert((self as u64) as i64 == self) by (bit_vector);
    }

    proof fn lemma_size() {
    }

    fn size_in_bytes() -> (size: usize) {
        8
    }

    fn to_bytes(&self) -> (bytes: Vec<u8>) {
        u64_to_le_bytes(*self as u64)
    }

    fn read(bytes: &[u8]) -> (value: Self) {
        u64_from_le_bytes(bytes) as i64
    }
}

impl PixelBytes for F32Bits {
    open spec fn size() -> nat {
        4
    }

    open spec fn bytes(self) -> Seq<u8> {
        vstd::bytes::spec_u32_to_le_bytes(self.bits)
    }

    open spec fn from_bytes(bytes: Seq<u8>) -> Self {
        F32Bits { bits: vstd::bytes::spec_u32_from_le_bytes(bytes) }
    }

    proof fn lemma_round_trip(self) {
        vstd::bytes::lemma_auto_spec_u32_to_from_le_bytes();
        assert(self.bytes().len() == Self::size());
    }

    proof fn lemma_size() {
    }

    fn size_in_bytes() -> (size: usize) {
        4
    }

    fn to_bytes(&self) -> (bytes: Vec<u8>) {
        u32_to_le_bytes(self.bits)
    }

    fn read(bytes: &[u8]) -> (value: Self) {
        F32Bits { bits: u32_from_le_bytes(bytes) }
    }
}

impl PixelBytes for F64Bits {
    open spec fn size() -> nat {
        8
    }

    open spec fn bytes(self) -> Seq<u8> {
        vstd::bytes::spec_u64_to_le_bytes(self.bits)
    }

    open spec fn from_bytes(bytes: Seq<u8>) -> Self {
        F64Bits { bits: vstd::bytes::spec_u64_from_le_bytes(bytes) }
    }

    proof fn lemma_round_trip(self) {
        vstd::bytes::lemma_auto_spec_u64_to_from_le_bytes();
        assert(self.bytes().len() == Self::size());
    }

    proof fn lemma_size() {
    }

    fn size_in_bytes() -> (size: usize) {
        8
    }

    fn to_bytes(&self) -> (bytes: Vec<u8>) {
        u64_to_le_bytes(self.bits)
    }

    fn read(bytes: &[u8]) -> (value: Self) {
        F64Bits { bits: u64_from_le_bytes(bytes) }
    }
}

/// The bytes of a sequence of values, one after the other.
pub open spec fn all_bytes<T: PixelBytes>(values: Seq<T>) -> Seq<u8>
    decreases values.len(),
{
    if values.len() == 0 {
        Seq::empty()
    } else {
        all_bytes(values.drop_last()) + values.last().bytes()
    }
}

/// The values in a sequence of bytes; bytes at the end that do not make up a value are left out.
pub open spec fn all_values<T: PixelBytes>(bytes: Seq<u8>) -> Seq<T> {
    Seq::new(
        bytes.len() / T::size(),
        |i: int| T::from_bytes(bytes.subrange(i * T::size(), i * T::size() + T::size())),
    )
}

/// Each value takes the same number of bytes.
pub proof fn lemma_all_bytes_len<T: PixelBytes>(values: Seq<T>)
    ensures
        all_bytes(values).len() == values.len() * T::size(),
    decreases values.len(),
{
    if values.len() > 0 {
        lemma_all_bytes_len(values.drop_last());
        values.last().lemma_round_trip();
        let n = values.len() as int;
        let size = T::size() as int;
        assert((n - 1) * size + size == n * size) by (nonlinear_arith);
    }
}

/// The bytes of one value within the bytes of all.
proof fn lemma_all_bytes_at<T: PixelBytes>(values: Seq<T>, i: int)
    requires
        0 <= i < values.len(),
    ensures
        0 <= i * T::size() <= i * T::size() + T::size() <= all_bytes(values).len(),
        all_bytes(values).subrange(i * T::size(), i * T::size() + T::size()) == values[i].bytes(),
    decreases values.len(),
{
    let n = values.len() as int;
    let size = T::size() as int;
    let front = values.drop_last();
    values.last().lemma_round_trip();
    lemma_all_bytes_len(values);
    lemma_all_bytes_len(front);
    assert(0 <= i * size && i * size + size <= n * size && (n - 1) * size + size == n * size)
        by (nonlinear_arith)
        requires
            0 <= i < n,
            1 <= size,
    ;
    if i == n - 1 {
        assert(all_bytes(values).subrange(i * size, i * size + size) =~= values.last().bytes());
    } else {
        lemma_all_bytes_at(front, i);
        assert(all_bytes(values).subrange(i * size, i * size + size) =~= all_bytes(front).subrange(
            i * size,
            i * size + size,
        ));
    }
}

/// Values can be read back from their bytes.
pub proof fn law_values_round_trip<T: PixelBytes>(values: Seq<T>)
    ensures
        all_values::<T>(all_bytes(values)) == values,
{
    let bytes = all_bytes(values);
    T::lemma_size();
    lemma_all_bytes_len(values);
    vstd::arithmetic::div_mod::lemma_div_multiples_vanish(values.len() as int, T::size() as int);
    assert(values.len() * T::size() == T::size() * values.len()) by (nonlinear_arith);
    assert forall|i: int| 0 <= i < values.len() implies all_values::<T>(bytes)[i] == values[i] by {
        lemma_all_bytes_at(values, i);
        values[i].lemma_round_trip();
    }
    assert(all_values::<T>(bytes) =~= values);
}

/// The bytes of the values in memory.
pub fn data_to_bytes<T: PixelBytes>(data: &Vec<T>) -> (bytes: Vec<u8>)
    ensures
        bytes@ == all_bytes(data@),
{
    let mut bytes: Vec<u8> = Vec::new();
    let mut i: usize = 0;
    while i < data.len()
        invariant
            i <= data.len(),
            bytes@ == all_bytes(data@.take(i as int)),
        decreases data.len() - i,
    {
        let mut value = data[i].to_bytes();
        bytes.append(&mut value);
        proof {
            assert(data@.take(i + 1).drop_last() =~= data@.take(i as int));
        }
        i += 1;
    }
    assert(data@.take(i as int) =~= data@);
    bytes
}

/// The values that the bytes stand for.
pub fn bytes_to_data<T: PixelBytes>(bytes: &[u8]) -> (data: Vec<T>)
    ensures
        data@ == all_values::<T>(bytes@),
{
    let size: usize = T::size_in_bytes();
    proof {
        T::lemma_size();
    }
    let count: usize = bytes.len() / size;
    let mut data: Vec<T> = Vec::new();
    let mut i: usize = 0;
    let mut at: usize = 0;
    proof {
        vstd::arithmetic::div_mod::lemma_fundamental_div_mod(bytes.len() as int, size as int);
        assert(count * size == size * count) by (nonlinear_arith);
    }
    while i < count
        invariant
            i <= count,
            1 <= size <= 8,
            size == T::size(),
            count == bytes@.len() / T::size(),
            count * size <= bytes@.len(),
            bytes@.len() <= usize::MAX,
            at == i * size,
            data@ =~= all_values::<T>(bytes@).take(i as int),
        decreases count - i,
    {
        proof {
            assert(i * size + size <= count * size && (i + 1) * size == i * size + size)
                by (nonlinear_arith)
                requires
                    i < count,
                    1 <= size,
            ;
        }
        data.push(T::read(slice_subrange(bytes, at, at + size)));
        at += size;
        i += 1;
    }
    assert(all_values::<T>(bytes@).take(count as int) =~= all_values::<T>(bytes@));
    data
}

} // verus!

//! Values that the arena can store: plain data, copied in as bytes, with no
//! resources of their own and nothing to run when the arena is reset.
use vstd::layout::size_of;
use vstd::prelude::*;

verus! {

broadcast use vstd::layout::layout_of_primitives;

/// A trivially copyable value with a fixed byte encoding of
/// `size_of::<Self>()` bytes.
pub trait Plain: Copy + Sized {
    /// The bytes that hold `v`.
    spec fn bytes_of(v: Self) -> Seq<u8>;

    /// The value that the bytes `b` hold.
    spec fn value_of(b: Seq<u8>) -> Self;

    /// Every value takes `size_of::<Self>()` bytes and is read back intact.
    proof fn lemma_bytes_round_trip(v: Self)
        ensures
            Self::bytes_of(v).len() == size_of::<Self>(),
            Self::value_of(Self::bytes_of(v)) == v,
    ;

    /// The encoding of `self`.
    fn to_bytes(&self) -> (r: Vec<u8>)
        ensures
            r@ == Self::bytes_of(*self),
    ;

    /// The value held by the `size_of::<Self>()` bytes of `buf` from `at` on.
    fn from_bytes(buf: &Vec<u8>, at: usize) -> (r: Self)
        requires
            at + size_of::<Self>() <= buf@.len(),
        ensures
            r == Self::value_of(buf@.subrange(at as int, at + size_of::<Self>())),
    ;
}

impl Plain for u8 {
    open spec fn bytes_of(v: u8) -> Seq<u8> {
        seq![v]
    }

    open spec fn value_of(b: Seq<u8>) -> u8 {
        b[0]
    }

    proof fn lemma_bytes_round_trip(v: u8) {
    }

    fn to_bytes(&self) -> (r: Vec<u8>) {
        vec![*self]
    }

    fn from_bytes(buf: &Vec<u8>, at: usize) -> (r: u8) {
        assert(size_of::<u8>() == 1);
        buf[at]
    }
}

impl Plain for u16 {
    open spec fn bytes_of(v: u16) -> Seq<u8> {
        seq![v as u8, (v >> 8u16) as u8]
    }

    open spec fn value_of(b: Seq<u8>) -> u16 {
        b[0] as u16 | (b[1] as u16) << 8u16
    }

    proof fn lemma_bytes_round_trip(v: u16) {
        assert(v as u8 as u16 | ((v >> 8u16) as u8 as u16) << 8u16 == v) by (bit_vector);
    }

    fn to_bytes(&self) -> (r: Vec<u8>) {
        let v = *self;
        vec![v as u8, (v >> 8u16) as u8]
    }

    fn from_bytes(buf: &Vec<u8>, at: usize) -> (r: u16) {
        assert(size_of::<u16>() == 2);
        assert(buf@.len() == buf.len());
        buf[at] as u16 | (buf[at + 1] as u16) << 8u16
    }
}

impl Plain for u32 {
    open spec fn bytes_of(v: u32) -> Seq<u8> {
        seq![v as u8, (v >> 8u32) as u8, (v >> 16u32) as u8, (v >> 24u32) as u8]
    }

    open spec fn value_of(b: Seq<u8>) -> u32 {
        b[0] as u32 | (b[1] as u32) << 8u32 | (b[2] as u32) << 16u32 | (b[3] as u32) << 24u32
    }

    proof fn lemma_bytes_round_trip(v: u32) {
        assert(v as u8 as u32 | ((v >> 8u32) as u8 as u32) << 8u32 | ((v >> 16u32) as u8 as u32)
            << 16u32 | ((v >> 24u32) as u8 as u32) << 24u32 == v) by (bit_vector);
    }

    fn to_bytes(&self) -> (r: Vec<u8>) {
        let v = *self;
        vec![v as u8, (v >> 8u32) as u8, (v >> 16u32) as u8, (v >> 24u32) as u8]
    }

    fn from_bytes(buf: &Vec<u8>, at: usize) -> (r: u32) {
        assert(size_of::<u32>() == 4);
        assert(buf@.len() == buf.len());
        buf[at] as u32 | (buf[at + 1] as u32) << 8u32 | (buf[at + 2] as u32) << 16u32 | (buf[at
            + 3] as u32) << 24u32
    }
}

impl Plain for u64 {
    open spec fn bytes_of(v: u64) -> Seq<u8> {
        seq![
            v as u8,
            (v >> 8u64) as u8,
            (v >> 16u64) as u8,
            (v >> 24u64) as u8,
            (v >> 32u64) as u8,
            (v >> 40u64) as u8,
            (v >> 48u64) as u8,
            (v >> 56u64) as u8,
        ]
    }

    open spec fn value_of(b: Seq<u8>) -> u64 {
        b[0] as u64 | (b[1] as u64) << 8u64 | (b[2] as u64) << 16u64 | (b[3] as u64) << 24u64
            | (b[4] as u64) << 32u64 | (b[5] as u64) << 40u64 | (b[6] as u64) << 48u64
            | (b[7] as u64) << 56u64
    }

    proof fn lemma_bytes_round_trip(v: u64) {
        assert(v as u8 as u64 | ((v >> 8u64) as u8 as u64) << 8u64 | ((v >> 16u64) as u8 as u64)
            << 16u64 | ((v >> 24u64) as u8 as u64) << 24u64 | ((v >> 32u64) as u8 as u64) << 32u64
            | ((v >> 40u64) as u8 as u64) << 40u64 | ((v >> 48u64) as u8 as u64) << 48u64 | ((v
            >> 56u64) as u8 as u64) << 56u64 == v) by (bit_vector);
    }

    fn to_bytes(&self) -> (r: Vec<u8>) {
        let v = *self;
        vec![
            v as u8,
            (v >> 8u64) as u8,
            (v >> 16u64) as u8,
            (v >> 24u64) as u8,
            (v >> 32u64) as u8,
            (v >> 40u64) as u8,
            (v >> 48u64) as u8,
            (v >> 56u64) as u8,
        ]
    }

    fn from_bytes(buf: &Vec<u8>, at: usize) -> (r: u64) {
        assert(size_of::<u64>() == 8);
        assert(buf@.len() == buf.len());
        buf[at] as u64 | (buf[at + 1] as u64) << 8u64 | (buf[at + 2] as u64) << 16u64 | (buf[at
            + 3] as u64) << 24u64 | (buf[at + 4] as u64) << 32u64 | (buf[at + 5] as u64) << 40u64
            | (buf[at + 6] as u64) << 48u64 | (buf[at + 7] as u64) << 56u64
    }
}

} // verus!

use crate::field::{field_ok, is_field, is_scalar, scalar_ok};
use vstd::prelude::*;
use vstd::utf8::encode_utf8;

verus! {

/// The number of bits that a base field element is written with.
pub const FIELD_BITS: usize = 253;

/// The number of bits that a scalar field element is written with.
pub const SCALAR_BITS: usize = 251;

/// A typed value of the machine. Field, group and scalar elements are held as their
/// little-endian bits (a group element by its x-coordinate); they are written padded with
/// `false` to their field's width.
pub enum Literal {
    Boolean(bool),
    Field(Vec<bool>),
    Group(Vec<bool>),
    Scalar(Vec<bool>),
    I8(i8),
    I16(i16),
    I32(i32),
    I64(i64),
    I128(i128),
    U8(u8),
    U16(u16),
    U32(u32),
    U64(u64),
    U128(u128),
    String(String),
}

/// The lowest `n` bits of `v`, least significant first.
pub open spec fn int_bits(v: u128, n: nat) -> Seq<bool> {
    Seq::new(n, |i: int| (v >> (i as u128)) & 1 == 1)
}

/// The bits of a byte string: eight bits per byte, each byte least significant first.
pub open spec fn bytes_bits(b: Seq<u8>) -> Seq<bool>
    decreases b.len(),
{
    if b.len() == 0 {
        Seq::empty()
    } else {
        bytes_bits(b.drop_last()) + int_bits(b.last() as u128, 8)
    }
}

/// Whether a literal is a value of its type: field and group elements (by their
/// x-coordinate) below the base modulus, scalars below the scalar modulus.
pub open spec fn literal_ok(l: Literal) -> bool {
    match l {
        Literal::Field(bits) => field_ok(bits@),
        Literal::Group(bits) => field_ok(bits@),
        Literal::Scalar(bits) => scalar_ok(bits@),
        _ => true,
    }
}

/// `bits` padded with `false` up to `n` bits; left as it is when it already has `n` or more.
pub open spec fn padded(bits: Seq<bool>, n: nat) -> Seq<bool> {
    if bits.len() >= n {
        bits
    } else {
        bits + Seq::new((n - bits.len()) as nat, |i: int| false)
    }
}

/// The serialization of a literal into bits. Signed integers are written in two's
/// complement at their own width; strings by the bytes of their UTF-8 encoding.
pub open spec fn literal_bits(l: Literal) -> Seq<bool> {
    match l {
        Literal::Boolean(b) => seq![b],
        Literal::Field(bits) => padded(bits@, FIELD_BITS as nat),
        Literal::Group(bits) => padded(bits@, FIELD_BITS as nat),
        Literal::Scalar(bits) => padded(bits@, SCALAR_BITS as nat),
        Literal::I8(v) => int_bits(v as u8 as u128, 8),
        Literal::I16(v) => int_bits(v as u16 as u128, 16),
        Literal::I32(v) => int_bits(v as u32 as u128, 32),
        Literal::I64(v) => int_bits(v as u64 as u128, 64),
        Literal::I128(v) => int_bits(v as u128, 128),
        Literal::U8(v) => int_bits(v as u128, 8),
        Literal::U16(v) => int_bits(v as u128, 16),
        Literal::U32(v) => int_bits(v as u128, 32),
        Literal::U64(v) => int_bits(v as u128, 64),
        Literal::U128(v) => int_bits(v, 128),
        Literal::String(s) => bytes_bits(encode_utf8(s@)),
    }
}

/// The serialization of a string has eight bits per byte.
pub proof fn lemma_bytes_bits_len(b: Seq<u8>)
    ensures
        bytes_bits(b).len() == 8 * b.len(),
    decreases b.len(),
{
    if b.len() > 0 {
        lemma_bytes_bits_len(b.drop_last());
    }
}

/// Appends the lowest `n` bits of `v` to `out`.
fn push_int_bits(out: &mut Vec<bool>, v: u128, n: usize)
    requires
        n <= 128,
    ensures
        final(out)@ == old(out)@ + int_bits(v, n as nat),
{
    let ghost start = out@;
    let mut i: usize = 0;
    while i < n
        invariant
            i <= n,
            n <= 128,
            out@ == start + int_bits(v, i as nat),
        decreases n - i,
    {
        out.push((v >> (i as u128)) & 1 == 1);
        i = i + 1;
        assert(out@ =~= start + int_bits(v, i as nat));
    }
}

/// Appends the bits of a byte string to `out`.
fn push_bytes_bits(out: &mut Vec<bool>, b: &[u8])
    ensures
        final(out)@ == old(out)@ + bytes_bits(b@),
{
    let ghost start = out@;
    let mut j: usize = 0;
    while j < b.len()
        invariant
            j <= b@.len(),
            out@ == start + bytes_bits(b@.subrange(0, j as int)),
        decreases b@.len() - j,
    {
        let ghost before = out@;
        push_int_bits(out, b[j] as u128, 8);
        assert(b@.subrange(0, j + 1).drop_last() =~= b@.subrange(0, j as int));
        j = j + 1;
        assert(out@ =~= start + bytes_bits(b@.subrange(0, j as int)));
    }
    assert(b@.subrange(0, b@.len() as int) =~= b@);
}

/// Appends `bits` to `out`.
pub(crate) fn copy_bits(out: &mut Vec<bool>, bits: &Vec<bool>)
    ensures
        final(out)@ == old(out)@ + bits@,
{
    let ghost start = out@;
    let mut i: usize = 0;
    while i < bits.len()
        invariant
            i <= bits@.len(),
            out@ == start + bits@.subrange(0, i as int),
        decreases bits@.len() - i,
    {
        out.push(bits[i]);
        i = i + 1;
        assert(out@ =~= start + bits@.subrange(0, i as int));
    }
    assert(bits@.subrange(0, bits@.len() as int) =~= bits@);
}

/// Appends `bits` padded with `false` up to `n` bits to `out`.
fn push_padded(out: &mut Vec<bool>, bits: &Vec<bool>, n: usize)
    ensures
        final(out)@ == old(out)@ + padded(bits@, n as nat),
{
    let ghost start = out@;
    copy_bits(out, bits);
    let mut k: usize = bits.len();
    while k < n
        invariant
            bits@.len() <= k,
            k <= n || k == bits@.len(),
            out@ == start + bits@ + Seq::new((k - bits@.len()) as nat, |i: int| false),
        decreases n - k,
    {
        out.push(false);
        k = k + 1;
        assert(out@ =~= start + bits@ + Seq::new((k - bits@.len()) as nat, |i: int| false));
    }
    assert(out@ =~= start + padded(bits@, n as nat));
}

impl Literal {
    /// Whether this literal is a value of its type.
    pub fn is_valid(&self) -> (r: bool)
        ensures
            r == literal_ok(*self),
    {
        match self {
            Literal::Field(bits) => is_field(bits),
            Literal::Group(bits) => is_field(bits),
            Literal::Scalar(bits) => is_scalar(bits),
            _ => true,
        }
    }

    /// Returns the little-endian bit serialization of this literal.
    pub fn to_bits_le(&self) -> (r: Vec<bool>)
        ensures
            r@ == literal_bits(*self),
    {
        let mut out: Vec<bool> = Vec::new();
        match self {
            Literal::Boolean(b) => out.push(*b),
            Literal::Field(bits) => push_padded(&mut out, bits, FIELD_BITS),
            Literal::Group(bits) => push_padded(&mut out, bits, FIELD_BITS),
            Literal::Scalar(bits) => push_padded(&mut out, bits, SCALAR_BITS),
            Literal::I8(v) => push_int_bits(&mut out, *v as u8 as u128, 8),
            Literal::I16(v) => push_int_bits(&mut out, *v as u16 as u128, 16),
            Literal::I32(v) => push_int_bits(&mut out, *v as u32 as u128, 32),
            Literal::I64(v) => push_int_bits(&mut out, *v as u64 as u128, 64),
            Literal::I128(v) => push_int_bits(&mut out, *v as u128, 128),
            Literal::U8(v) => push_int_bits(&mut out, *v as u128, 8),
            Literal::U16(v) => push_int_bits(&mut out, *v as u128, 16),
            Literal::U32(v) => push_int_bits(&mut out, *v as u128, 32),
            Literal::U64(v) => push_int_bits(&mut out, *v as u128, 64),
            Literal::U128(v) => push_int_bits(&mut out, *v, 128),
            Literal::String(s) => push_bytes_bits(&mut out, s.as_str().as_bytes()),
        }
        assert(out@ =~= literal_bits(*self));
        out
    }
}

} // verus!

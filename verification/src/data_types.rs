//! Data-type registry: the mapping from native value types to graphics
//! primitive type tags, element counts and byte encodings.
//!
//! Floating-point texel and uniform components are carried as raw IEEE-754
//! bit patterns (`F32Bits`, `F64Bits`, and the matrix types built from them):
//! the library never computes with them, it only describes their memory
//! layout to the graphics server, so the bit pattern is the value.

use vstd::prelude::*;

use crate::gl;

verus! {

/// The little-endian byte encoding of a 16-bit value.
pub open spec fn spec_le_bytes_u16(x: u16) -> Seq<u8> {
    seq![(x & 0xff) as u8, ((x >> 8) & 0xff) as u8]
}

/// The little-endian byte encoding of a 32-bit value.
pub open spec fn spec_le_bytes_u32(x: u32) -> Seq<u8> {
    seq![
        (x & 0xff) as u8,
        ((x >> 8) & 0xff) as u8,
        ((x >> 16) & 0xff) as u8,
        ((x >> 24) & 0xff) as u8,
    ]
}

/// The little-endian byte encoding of a 64-bit value.
pub open spec fn spec_le_bytes_u64(x: u64) -> Seq<u8> {
    spec_le_bytes_u32((x & 0xffff_ffff) as u32) + spec_le_bytes_u32(((x >> 32) & 0xffff_ffff) as u32)
}

/// The concatenated little-endian encoding of a sequence of 32-bit values.
pub open spec fn spec_le_bytes_u32_seq(s: Seq<u32>) -> Seq<u8>
    decreases s.len(),
{
    if s.len() == 0 {
        Seq::empty()
    } else {
        spec_le_bytes_u32_seq(s.drop_last()) + spec_le_bytes_u32(s.last())
    }
}

/// Appends the little-endian bytes of a 32-bit value to a byte vector.
pub fn push_le_bytes_u32(out: &mut Vec<u8>, x: u32)
    ensures
        final(out)@ == old(out)@ + spec_le_bytes_u32(x),
{
    out.push((x & 0xff) as u8);
    out.push(((x >> 8) & 0xff) as u8);
    out.push(((x >> 16) & 0xff) as u8);
    out.push(((x >> 24) & 0xff) as u8);
    assert(out@ =~= old(out)@ + spec_le_bytes_u32(x));
}

/// Appends the little-endian bytes of each value of a slice of 32-bit values.
pub fn push_le_bytes_u32_all(out: &mut Vec<u8>, xs: &[u32])
    ensures
        final(out)@ == old(out)@ + spec_le_bytes_u32_seq(xs@),
{
    let n = xs.len();
    let mut i: usize = 0;
    while i < n
        invariant
            n == xs@.len(),
            i <= n,
            out@ == old(out)@ + spec_le_bytes_u32_seq(xs@.take(i as int)),
        decreases n - i,
    {
        push_le_bytes_u32(out, xs[i]);
        proof {
            assert(xs@.take(i + 1 as int).drop_last() =~= xs@.take(i as int));
            assert(xs@.take(i + 1 as int).last() == xs@[i as int]);
        }
        i = i + 1;
    }
    proof {
        assert(xs@.take(n as int) =~= xs@);
    }
}

/// A 32-bit floating-point component, held as its IEEE-754 bit pattern.
#[derive(Clone, Copy, PartialEq, Eq, Structural, Debug)]
pub struct F32Bits {
    /// The raw bit pattern.
    pub bits: u32,
}

/// A 64-bit floating-point component, held as its IEEE-754 bit pattern.
#[derive(Clone, Copy, PartialEq, Eq, Structural, Debug)]
pub struct F64Bits {
    /// The raw bit pattern.
    pub bits: u64,
}

/// A column-major 2x2 matrix of 32-bit float bit patterns.
#[derive(Clone, Copy, Debug)]
pub struct Mat2 {
    /// The coefficients, column by column.
    pub coefficients: [u32; 4],
}

/// A column-major 3x3 matrix of 32-bit float bit patterns.
#[derive(Clone, Copy, Debug)]
pub struct Mat3 {
    /// The coefficients, column by column.
    pub coefficients: [u32; 9],
}

/// A column-major 4x4 matrix of 32-bit float bit patterns.
#[derive(Clone, Copy, Debug)]
pub struct Mat4 {
    /// The coefficients, column by column.
    pub coefficients: [u32; 16],
}

/// A scalar type that can be used as an index-buffer element.
pub trait GLDataType: Sized + Copy {
    /// The type tag that describes this scalar to the graphics server.
    spec fn spec_gl_type() -> gl::GLenum;

    /// The byte width of one value.
    spec fn spec_byte_size() -> nat;

    /// The little-endian byte encoding of one value.
    spec fn spec_to_bytes(self) -> Seq<u8>;

    /// The encoding is always exactly `spec_byte_size` bytes long.
    proof fn lemma_bytes_len(self)
        ensures
            self.spec_to_bytes().len() == Self::spec_byte_size(),
    ;

    /// Returns the type tag that describes this scalar to the graphics server.
    fn get_gl_type(&self) -> (r: gl::GLenum)
        ensures
            r == Self::spec_gl_type(),
    ;

    /// Returns the type tag of the scalar type itself.
    fn static_gl_type() -> (r: gl::GLenum)
        ensures
            r == Self::spec_gl_type(),
    ;

    /// Appends the little-endian byte encoding of this value.
    fn push_bytes(&self, out: &mut Vec<u8>)
        ensures
            final(out)@ == old(out)@ + self.spec_to_bytes(),
    ;
}

impl GLDataType for i8 {
    open spec fn spec_gl_type() -> gl::GLenum {
        gl::BYTE
    }

    open spec fn spec_byte_size() -> nat {
        1
    }

    open spec fn spec_to_bytes(self) -> Seq<u8> {
        seq![self as u8]
    }

    proof fn lemma_bytes_len(self) {
    }

    fn get_gl_type(&self) -> (r: gl::GLenum) {
        gl::BYTE
    }

    fn static_gl_type() -> (r: gl::GLenum) {
        gl::BYTE
    }

    fn push_bytes(&self, out: &mut Vec<u8>) {
        out.push(*self as u8);
        assert(out@ =~= old(out)@ + <i8 as GLDataType>::spec_to_bytes(*self));
    }
}

impl GLDataType for u8 {
    open spec fn spec_gl_type() -> gl::GLenum {
        gl::UNSIGNED_BYTE
    }

    open spec fn spec_byte_size() -> nat {
        1
    }

    open spec fn spec_to_bytes(self) -> Seq<u8> {
        seq![self]
    }

    proof fn lemma_bytes_len(self) {
    }

    fn get_gl_type(&self) -> (r: gl::GLenum) {
        gl::UNSIGNED_BYTE
    }

    fn static_gl_type() -> (r: gl::GLenum) {
        gl::UNSIGNED_BYTE
    }

    fn push_bytes(&self, out: &mut Vec<u8>) {
        out.push(*self);
        assert(out@ =~= old(out)@ + <u8 as GLDataType>::spec_to_bytes(*self));
    }
}

impl GLDataType for i16 {
    open spec fn spec_gl_type() -> gl::GLenum {
        gl::SHORT
    }

    open spec fn spec_byte_size() -> nat {
        2
    }

    open spec fn spec_to_bytes(self) -> Seq<u8> {
        spec_le_bytes_u16(self as u16)
    }

    proof fn lemma_bytes_len(self) {
    }

    fn get_gl_type(&self) -> (r: gl::GLenum) {
        gl::SHORT
    }

    fn static_gl_type() -> (r: gl::GLenum) {
        gl::SHORT
    }

    fn push_bytes(&self, out: &mut Vec<u8>) {
        let x = *self as u16;
        out.push((x & 0xff) as u8);
        out.push(((x >> 8) & 0xff) as u8);
        assert(out@ =~= old(out)@ + <i16 as GLDataType>::spec_to_bytes(*self));
    }
}

impl GLDataType for u16 {
    open spec fn spec_gl_type() -> gl::GLenum {
        gl::UNSIGNED_SHORT
    }

    open spec fn spec_byte_size() -> nat {
        2
    }

    open spec fn spec_to_bytes(self) -> Seq<u8> {
        spec_le_bytes_u16(self)
    }

    proof fn lemma_bytes_len(self) {
    }

    fn get_gl_type(&self) -> (r: gl::GLenum) {
        gl::UNSIGNED_SHORT
    }

    fn static_gl_type() -> (r: gl::GLenum) {
        gl::UNSIGNED_SHORT
    }

    fn push_bytes(&self, out: &mut Vec<u8>) {
        let x = *self;
        out.push((x & 0xff) as u8);
        out.push(((x >> 8) & 0xff) as u8);
        assert(out@ =~= old(out)@ + <u16 as GLDataType>::spec_to_bytes(*self));
    }
}

/// A texel type: a fixed-width tuple of float components.
pub trait GLDataTuple: Sized + Copy {
    /// The component type tag of this texel.
    spec fn spec_gl_type() -> gl::GLenum;

    /// The number of components in one texel.
    spec fn spec_num_elems() -> nat;

    /// The byte width of one texel.
    spec fn spec_total_size() -> nat;

    /// The little-endian byte encoding of one texel.
    spec fn spec_to_bytes(self) -> Seq<u8>;

    /// The encoding is always exactly `spec_total_size` bytes long.
    proof fn lemma_bytes_len(self)
        ensures
            self.spec_to_bytes().len() == Self::spec_total_size(),
    ;

    /// Returns the component type tag of this texel.
    fn get_gl_type(&self) -> (r: gl::GLenum)
        ensures
            r == Self::spec_gl_type(),
    ;

    /// Returns the component type tag of the texel type itself.
    fn static_gl_type() -> (r: gl::GLenum)
        ensures
            r == Self::spec_gl_type(),
    ;

    /// Returns the component count of the texel type itself.
    fn static_num_elems() -> (r: usize)
        ensures
            r == Self::spec_num_elems(),
    ;

    /// Returns the number of components in one texel.
    fn get_num_elems(&self) -> (r: usize)
        ensures
            r == Self::spec_num_elems(),
    ;

    /// Returns the byte width of one texel.
    fn get_total_size(&self) -> (r: usize)
        ensures
            r == Self::spec_total_size(),
    ;

    /// Appends the little-endian byte encoding of this texel.
    fn push_bytes(&self, out: &mut Vec<u8>)
        ensures
            final(out)@ == old(out)@ + self.spec_to_bytes(),
    ;
}

impl GLDataTuple for F32Bits {
    open spec fn spec_gl_type() -> gl::GLenum {
        gl::FLOAT
    }

    open spec fn spec_num_elems() -> nat {
        1
    }

    open spec fn spec_total_size() -> nat {
        4
    }

    open spec fn spec_to_bytes(self) -> Seq<u8> {
        spec_le_bytes_u32(self.bits)
    }

    proof fn lemma_bytes_len(self) {
    }

    fn get_gl_type(&self) -> (r: gl::GLenum) {
        gl::FLOAT
    }

    fn static_gl_type() -> (r: gl::GLenum) {
        gl::FLOAT
    }

    fn static_num_elems() -> (r: usize) {
        1
    }

    fn get_num_elems(&self) -> (r: usize) {
        1
    }

    fn get_total_size(&self) -> (r: usize) {
        4
    }

    fn push_bytes(&self, out: &mut Vec<u8>) {
        push_le_bytes_u32(out, self.bits);
    }
}

impl GLDataTuple for [F32Bits; 2] {
    open spec fn spec_gl_type() -> gl::GLenum {
        gl::FLOAT
    }

    open spec fn spec_num_elems() -> nat {
        2
    }

    open spec fn spec_total_size() -> nat {
        8
    }

    open spec fn spec_to_bytes(self) -> Seq<u8> {
        spec_le_bytes_u32(self[0].bits) + spec_le_bytes_u32(self[1].bits)
    }

    proof fn lemma_bytes_len(self) {
    }

    fn get_gl_type(&self) -> (r: gl::GLenum) {
        gl::FLOAT
    }

    fn static_gl_type() -> (r: gl::GLenum) {
        gl::FLOAT
    }

    fn static_num_elems() -> (r: usize) {
        2
    }

    fn get_num_elems(&self) -> (r: usize) {
        2
    }

    fn get_total_size(&self) -> (r: usize) {
        8
    }

    fn push_bytes(&self, out: &mut Vec<u8>) {
        push_le_bytes_u32(out, self[0].bits);
        push_le_bytes_u32(out, self[1].bits);
    }
}

impl GLDataTuple for [F32Bits; 3] {
    open spec fn spec_gl_type() -> gl::GLenum {
        gl::FLOAT
    }

    open spec fn spec_num_elems() -> nat {
        3
    }

    open spec fn spec_total_size() -> nat {
        12
    }

    open spec fn spec_to_bytes(self) -> Seq<u8> {
        spec_le_bytes_u32(self[0].bits) + spec_le_bytes_u32(self[1].bits)
            + spec_le_bytes_u32(self[2].bits)
    }

    proof fn lemma_bytes_len(self) {
    }

    fn get_gl_type(&self) -> (r: gl::GLenum) {
        gl::FLOAT
    }

    fn static_gl_type() -> (r: gl::GLenum) {
        gl::FLOAT
    }

    fn static_num_elems() -> (r: usize) {
        3
    }

    fn get_num_elems(&self) -> (r: usize) {
        3
    }

    fn get_total_size(&self) -> (r: usize) {
        12
    }

    fn push_bytes(&self, out: &mut Vec<u8>) {
        push_le_bytes_u32(out, self[0].bits);
        push_le_bytes_u32(out, self[1].bits);
        push_le_bytes_u32(out, self[2].bits);
    }
}

impl GLDataTuple for [F32Bits; 4] {
    open spec fn spec_gl_type() -> gl::GLenum {
        gl::FLOAT
    }

    open spec fn spec_num_elems() -> nat {
        4
    }

    open spec fn spec_total_size() -> nat {
        16
    }

    open spec fn spec_to_bytes(self) -> Seq<u8> {
        spec_le_bytes_u32(self[0].bits) + spec_le_bytes_u32(self[1].bits)
            + spec_le_bytes_u32(self[2].bits) + spec_le_bytes_u32(self[3].bits)
    }

    proof fn lemma_bytes_len(self) {
    }

    fn get_gl_type(&self) -> (r: gl::GLenum) {
        gl::FLOAT
    }

    fn static_gl_type() -> (r: gl::GLenum) {
        gl::FLOAT
    }

    fn static_num_elems() -> (r: usize) {
        4
    }

    fn get_num_elems(&self) -> (r: usize) {
        4
    }

    fn get_total_size(&self) -> (r: usize) {
        16
    }

    fn push_bytes(&self, out: &mut Vec<u8>) {
        push_le_bytes_u32(out, self[0].bits);
        push_le_bytes_u32(out, self[1].bits);
        push_le_bytes_u32(out, self[2].bits);
        push_le_bytes_u32(out, self[3].bits);
    }
}

/// A value that can be stored in a program uniform.
pub trait UniformValue: Sized + Copy {
    /// The uniform type tag of this value.
    spec fn spec_gl_type() -> gl::GLenum;

    /// The byte encoding of this value, as uploaded to the graphics server.
    spec fn spec_to_bytes(self) -> Seq<u8>;

    /// Returns the uniform type tag of this value.
    fn get_gl_type(&self) -> (r: gl::GLenum)
        ensures
            r == Self::spec_gl_type(),
    ;

    /// Returns the byte encoding of this value.
    fn to_byte_vec(&self) -> (r: Vec<u8>)
        ensures
            r@ == self.spec_to_bytes(),
    ;
}

impl UniformValue for i8 {
    open spec fn spec_gl_type() -> gl::GLenum {
        gl::BYTE
    }

    open spec fn spec_to_bytes(self) -> Seq<u8> {
        seq![self as u8]
    }

    fn get_gl_type(&self) -> (r: gl::GLenum) {
        gl::BYTE
    }

    fn to_byte_vec(&self) -> (r: Vec<u8>) {
        let mut out: Vec<u8> = Vec::new();
        out.push(*self as u8);
        proof {
            assert(out@ =~= <i8 as UniformValue>::spec_to_bytes(*self));
        }
        out
    }
}

impl UniformValue for u8 {
    open spec fn spec_gl_type() -> gl::GLenum {
        gl::UNSIGNED_BYTE
    }

    open spec fn spec_to_bytes(self) -> Seq<u8> {
        seq![self]
    }

    fn get_gl_type(&self) -> (r: gl::GLenum) {
        gl::UNSIGNED_BYTE
    }

    fn to_byte_vec(&self) -> (r: Vec<u8>) {
        let mut out: Vec<u8> = Vec::new();
        out.push(*self);
        proof {
            assert(out@ =~= <u8 as UniformValue>::spec_to_bytes(*self));
        }
        out
    }
}

impl UniformValue for i16 {
    open spec fn spec_gl_type() -> gl::GLenum {
        gl::SHORT
    }

    open spec fn spec_to_bytes(self) -> Seq<u8> {
        spec_le_bytes_u16(self as u16)
    }

    fn get_gl_type(&self) -> (r: gl::GLenum) {
        gl::SHORT
    }

    fn to_byte_vec(&self) -> (r: Vec<u8>) {
        let x = *self as u16;
        let mut out: Vec<u8> = Vec::new();
        out.push((x & 0xff) as u8);
        out.push(((x >> 8) & 0xff) as u8);
        proof {
            assert(out@ =~= <i16 as UniformValue>::spec_to_bytes(*self));
        }
        out
    }
}

impl UniformValue for u16 {
    open spec fn spec_gl_type() -> gl::GLenum {
        gl::UNSIGNED_SHORT
    }

    open spec fn spec_to_bytes(self) -> Seq<u8> {
        spec_le_bytes_u16(self)
    }

    fn get_gl_type(&self) -> (r: gl::GLenum) {
        gl::UNSIGNED_SHORT
    }

    fn to_byte_vec(&self) -> (r: Vec<u8>) {
        let x = *self;
        let mut out: Vec<u8> = Vec::new();
        out.push((x & 0xff) as u8);
        out.push(((x >> 8) & 0xff) as u8);
        proof {
            assert(out@ =~= <u16 as UniformValue>::spec_to_bytes(*self));
        }
        out
    }
}

impl UniformValue for F32Bits {
    open spec fn spec_gl_type() -> gl::GLenum {
        gl::FLOAT
    }

    open spec fn spec_to_bytes(self) -> Seq<u8> {
        spec_le_bytes_u32(self.bits)
    }

    fn get_gl_type(&self) -> (r: gl::GLenum) {
        gl::FLOAT
    }

    fn to_byte_vec(&self) -> (r: Vec<u8>) {
        let mut out: Vec<u8> = Vec::new();
        push_le_bytes_u32(&mut out, self.bits);
        out
    }
}

impl UniformValue for F64Bits {
    open spec fn spec_gl_type() -> gl::GLenum {
        gl::DOUBLE
    }

    open spec fn spec_to_bytes(self) -> Seq<u8> {
        spec_le_bytes_u64(self.bits)
    }

    fn get_gl_type(&self) -> (r: gl::GLenum) {
        gl::DOUBLE
    }

    fn to_byte_vec(&self) -> (r: Vec<u8>) {
        let mut out: Vec<u8> = Vec::new();
        push_le_bytes_u32(&mut out, (self.bits & 0xffff_ffff) as u32);
        push_le_bytes_u32(&mut out, ((self.bits >> 32) & 0xffff_ffff) as u32);
        out
    }
}

impl UniformValue for Mat2 {
    open spec fn spec_gl_type() -> gl::GLenum {
        gl::FLOAT_MAT2
    }

    open spec fn spec_to_bytes(self) -> Seq<u8> {
        spec_le_bytes_u32_seq(self.coefficients@)
    }

    fn get_gl_type(&self) -> (r: gl::GLenum) {
        gl::FLOAT_MAT2
    }

    fn to_byte_vec(&self) -> (r: Vec<u8>) {
        let mut out: Vec<u8> = Vec::new();
        push_le_bytes_u32_all(&mut out, self.coefficients.as_slice());
        out
    }
}

impl UniformValue for Mat3 {
    open spec fn spec_gl_type() -> gl::GLenum {
        gl::FLOAT_MAT3
    }

    open spec fn spec_to_bytes(self) -> Seq<u8> {
        spec_le_bytes_u32_seq(self.coefficients@)
    }

    fn get_gl_type(&self) -> (r: gl::GLenum) {
        gl::FLOAT_MAT3
    }

    fn to_byte_vec(&self) -> (r: Vec<u8>) {
        let mut out: Vec<u8> = Vec::new();
        push_le_bytes_u32_all(&mut out, self.coefficients.as_slice());
        out
    }
}

impl UniformValue for Mat4 {
    open spec fn spec_gl_type() -> gl::GLenum {
        gl::FLOAT_MAT4
    }

    open spec fn spec_to_bytes(self) -> Seq<u8> {
        spec_le_bytes_u32_seq(self.coefficients@)
    }

    fn get_gl_type(&self) -> (r: gl::GLenum) {
        gl::FLOAT_MAT4
    }

    fn to_byte_vec(&self) -> (r: Vec<u8>) {
        let mut out: Vec<u8> = Vec::new();
        push_le_bytes_u32_all(&mut out, self.coefficients.as_slice());
        out
    }
}

/// The concatenated byte encoding of a sequence of index scalars.
pub open spec fn spec_scalar_seq_bytes<T: GLDataType>(s: Seq<T>) -> Seq<u8>
    decreases s.len(),
{
    if s.len() == 0 {
        Seq::empty()
    } else {
        spec_scalar_seq_bytes(s.drop_last()) + s.last().spec_to_bytes()
    }
}

/// Serializes a slice of index scalars to the bytes uploaded to the server.
pub fn scalar_slice_bytes<T: GLDataType>(data: &[T]) -> (r: Vec<u8>)
    ensures
        r@ == spec_scalar_seq_bytes(data@),
{
    let n = data.len();
    let mut r: Vec<u8> = Vec::new();
    let mut i: usize = 0;
    proof {
        assert(data@.take(0) =~= Seq::<T>::empty());
    }
    while i < n
        invariant
            n == data@.len(),
            i <= n,
            r@ == spec_scalar_seq_bytes(data@.take(i as int)),
        decreases n - i,
    {
        data[i].push_bytes(&mut r);
        proof {
            assert(data@.take(i + 1).drop_last() =~= data@.take(i as int));
            assert(data@.take(i + 1).last() == data@[i as int]);
        }
        i = i + 1;
    }
    proof {
        assert(data@.take(n as int) =~= data@);
    }
    r
}

/// The concatenated byte encoding of a sequence of texels.
pub open spec fn spec_texel_seq_bytes<T: GLDataTuple>(s: Seq<T>) -> Seq<u8>
    decreases s.len(),
{
    if s.len() == 0 {
        Seq::empty()
    } else {
        spec_texel_seq_bytes(s.drop_last()) + s.last().spec_to_bytes()
    }
}

/// Serializes a slice of texels to the bytes uploaded to the server.
pub fn texel_slice_bytes<T: GLDataTuple>(data: &[T]) -> (r: Vec<u8>)
    ensures
        r@ == spec_texel_seq_bytes(data@),
{
    let n = data.len();
    let mut r: Vec<u8> = Vec::new();
    let mut i: usize = 0;
    proof {
        assert(data@.take(0) =~= Seq::<T>::empty());
    }
    while i < n
        invariant
            n == data@.len(),
            i <= n,
            r@ == spec_texel_seq_bytes(data@.take(i as int)),
        decreases n - i,
    {
        data[i].push_bytes(&mut r);
        proof {
            assert(data@.take(i + 1).drop_last() =~= data@.take(i as int));
            assert(data@.take(i + 1).last() == data@[i as int]);
        }
        i = i + 1;
    }
    proof {
        assert(data@.take(n as int) =~= data@);
    }
    r
}

} // verus!

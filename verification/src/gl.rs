//! Numeric tags of the graphics wire protocol.
//!
//! Every value that crosses the boundary between the library and the
//! graphics server model is tagged with one of these numbers.  They are the
//! standard enumerant values of the native graphics API, kept as plain `u32`
//! constants so that contracts can speak about them directly.

use vstd::prelude::*;

verus! {

/// The tag type used throughout the library.
pub type GLenum = u32;

// Scalar component types.
pub const BYTE: GLenum = 0x1400;
pub const UNSIGNED_BYTE: GLenum = 0x1401;
pub const SHORT: GLenum = 0x1402;
pub const UNSIGNED_SHORT: GLenum = 0x1403;
pub const INT: GLenum = 0x1404;
pub const UNSIGNED_INT: GLenum = 0x1405;
pub const FLOAT: GLenum = 0x1406;
pub const DOUBLE: GLenum = 0x140A;

// Vector and matrix types.
pub const FLOAT_VEC2: GLenum = 0x8B50;
pub const FLOAT_VEC3: GLenum = 0x8B51;
pub const FLOAT_VEC4: GLenum = 0x8B52;
pub const FLOAT_MAT2: GLenum = 0x8B5A;
pub const FLOAT_MAT3: GLenum = 0x8B5B;
pub const FLOAT_MAT4: GLenum = 0x8B5C;

// Sampler types.
pub const SAMPLER_1D: GLenum = 0x8B5D;
pub const SAMPLER_2D: GLenum = 0x8B5E;
pub const SAMPLER_3D: GLenum = 0x8B5F;
pub const SAMPLER_CUBE: GLenum = 0x8B60;

// Primitive topologies.
pub const POINTS: GLenum = 0x0000;
pub const LINES: GLenum = 0x0001;
pub const LINE_STRIP: GLenum = 0x0003;
pub const TRIANGLES: GLenum = 0x0004;
pub const TRIANGLE_STRIP: GLenum = 0x0005;
pub const TRIANGLE_FAN: GLenum = 0x0006;
pub const LINES_ADJACENCY: GLenum = 0x000A;
pub const LINE_STRIP_ADJACENCY: GLenum = 0x000B;
pub const TRIANGLES_ADJACENCY: GLenum = 0x000C;
pub const TRIANGLE_STRIP_ADJACENCY: GLenum = 0x000D;

// Buffer binding targets.
pub const ARRAY_BUFFER: GLenum = 0x8892;
pub const ELEMENT_ARRAY_BUFFER: GLenum = 0x8893;

// Texture binding targets.
pub const TEXTURE_1D: GLenum = 0x0DE0;
pub const TEXTURE_2D: GLenum = 0x0DE1;
pub const TEXTURE_3D: GLenum = 0x806F;
pub const TEXTURE_1D_ARRAY: GLenum = 0x8C18;
pub const TEXTURE_2D_ARRAY: GLenum = 0x8C1A;

// Texel formats.
pub const RED: GLenum = 0x1903;
pub const RG: GLenum = 0x8227;
pub const RGB: GLenum = 0x1907;
pub const RGBA: GLenum = 0x1908;

// Shader stages.
pub const FRAGMENT_SHADER: GLenum = 0x8B30;
pub const VERTEX_SHADER: GLenum = 0x8B31;
pub const GEOMETRY_SHADER: GLenum = 0x8DD9;

// Framebuffer targets and attachments.
pub const FRAMEBUFFER: GLenum = 0x8D40;
pub const DRAW_FRAMEBUFFER: GLenum = 0x8CA9;
pub const COLOR_ATTACHMENT0: GLenum = 0x8CE0;

// Fixed pipeline state touched by the draw command.
pub const DEPTH_TEST: GLenum = 0x0B71;
pub const BLEND: GLenum = 0x0BE2;
pub const SRC_ALPHA: GLenum = 0x0302;
pub const ONE_MINUS_SRC_ALPHA: GLenum = 0x0303;
pub const TEXTURE0: GLenum = 0x84C0;
pub const COLOR_BUFFER_BIT: GLenum = 0x4000;

/// Whether a uniform type tag names a texture sampler.
pub open spec fn spec_is_sampler_type(t: GLenum) -> bool {
    t == SAMPLER_1D || t == SAMPLER_2D || t == SAMPLER_3D || t == SAMPLER_CUBE
}

/// Whether a uniform type tag names a texture sampler.
pub fn is_sampler_type(t: GLenum) -> (r: bool)
    ensures
        r == spec_is_sampler_type(t),
{
    t == SAMPLER_1D || t == SAMPLER_2D || t == SAMPLER_3D || t == SAMPLER_CUBE
}

} // verus!

//! Textures: typed texel arrays loaded in the graphics server's memory.

use vstd::prelude::*;

use crate::data_types::GLDataTuple;
use crate::data_types::spec_texel_seq_bytes;
use crate::data_types::texel_slice_bytes;
use crate::display::Display;
use crate::display::ResourceKind;
use crate::gl;
use crate::gpu::CmdResult;
use crate::gpu::GlCmd;
use crate::gpu::GpuObject;
use crate::gpu::spec_has_object;
use crate::gpu::spec_object_of;
use crate::gpu::spec_texture_data;

verus! {

/// Why a texture could not be built.
#[derive(Clone, Copy, PartialEq, Eq, Structural, Debug)]
pub enum TextureError {
    /// The texel list's length is not `width * height * depth * array_size`.
    DataSizeMismatch,
    /// The texel type has an unsupported number of components.
    UnsupportedTextureType,
}

/// The binding target chosen from a texture's dimensions: one-, two- or
/// three-dimensional, possibly an array.
pub open spec fn spec_texture_bind_point(
    height: usize,
    depth: usize,
    array_size: usize,
) -> gl::GLenum {
    if height == 1 && depth == 1 {
        if array_size == 1 {
            gl::TEXTURE_1D
        } else {
            gl::TEXTURE_1D_ARRAY
        }
    } else if depth == 1 {
        if array_size == 1 {
            gl::TEXTURE_2D
        } else {
            gl::TEXTURE_2D_ARRAY
        }
    } else {
        gl::TEXTURE_3D
    }
}

/// The row alignment texel data is unpacked with: four when the width is a
/// multiple of four, two when the height is even, one otherwise.
pub open spec fn spec_unpack_alignment(width: usize, height: usize) -> u8 {
    if width % 4 == 0 {
        4
    } else if height % 2 == 0 {
        2
    } else {
        1
    }
}

/// The texel format for a component count, if the count is supported.
pub open spec fn spec_texel_format(n: nat) -> Option<gl::GLenum> {
    if n == 1 {
        Some(gl::RED)
    } else if n == 2 {
        Some(gl::RG)
    } else if n == 3 {
        Some(gl::RGB)
    } else if n == 4 {
        Some(gl::RGBA)
    } else {
        None
    }
}

/// The server-side identity and metadata shared by every handle to one
/// texture.
pub struct TextureImpl {
    /// The server-side object name.
    pub id: u32,
    /// The binding target chosen from the dimensions.
    pub bind_point: gl::GLenum,
    /// Width in texels.
    pub width: usize,
    /// Height in texels, or 1 for a one-dimensional texture.
    pub height: usize,
    /// Depth in texels, or 1 for a one- or two-dimensional texture.
    pub depth: usize,
    /// Number of layers, or 1 for a non-array texture.
    pub array_size: usize,
}

/// A texture usable by the graphics server.
pub struct Texture {
    /// The shared identity and metadata.
    pub texture: TextureImpl,
}

/// This function is accessible from within the library but is of no use for
/// the user: it exposes the shared identity of a texture handle.
pub fn get_impl<'a>(texture: &'a Texture) -> (r: &'a TextureImpl)
    ensures
        *r == texture.texture,
{
    &texture.texture
}

impl Texture {
    /// Builds a new texture from a flat list of texels.
    ///
    /// The texel list must hold exactly `width * height * depth *
    /// array_size` entries — any other length is a fatal construction
    /// error — and the texel type must have one to four components.  On
    /// success the texels are serialized and uploaded through exactly one
    /// synchronous command, and the handle owns one reference to the
    /// created texture.
    pub fn new<T: GLDataTuple>(
        display: &mut Display,
        data: &[T],
        width: usize,
        height: usize,
        depth: usize,
        array_size: usize,
    ) -> (r: Result<Texture, TextureError>)
        requires
            old(display).wf(),
            old(display).context.state is Running,
            old(display).context.next_ticket < u64::MAX,
            old(display).context.gpu.next_id < u32::MAX,
        ensures
            final(display).wf(),
            r is Err ==> *final(display) == *old(display),
            (r matches Err(e) && e == TextureError::DataSizeMismatch) <==> width * height * depth
                * array_size != data@.len(),
            (r matches Err(e) && e == TextureError::UnsupportedTextureType) <==> (width * height
                * depth * array_size == data@.len() && spec_texel_format(T::spec_num_elems())
                is None),
            r matches Ok(t) ==> {
                &&& t.texture.id == old(display).context.gpu.next_id
                &&& t.texture.width == width
                &&& t.texture.height == height
                &&& t.texture.depth == depth
                &&& t.texture.array_size == array_size
                &&& t.texture.bind_point == spec_texture_bind_point(height, depth, array_size)
                &&& final(display).context.state is Running
                &&& final(display).spec_live(t.texture.id)
                &&& final(display).spec_count(t.texture.id) == 1
                &&& final(display).spec_kind(t.texture.id) == ResourceKind::Texture
                &&& spec_has_object(final(display).context.gpu.objects@, t.texture.id)
                &&& spec_object_of(final(display).context.gpu.objects@, t.texture.id)
                    matches GpuObject::Texture {
                    id,
                    bind_point,
                    width: w2,
                    height: h2,
                    depth: d2,
                    array_size: a2,
                    format,
                    data_type,
                    unpack_alignment,
                    data: stored,
                } && id == t.texture.id && bind_point == spec_texture_bind_point(
                    height,
                    depth,
                    array_size,
                ) && w2 == width && h2 == height && d2 == depth && a2 == array_size && format
                    == spec_texel_format(T::spec_num_elems()).unwrap() && data_type
                    == T::spec_gl_type() && unpack_alignment == spec_unpack_alignment(width, height)
                    && stored@ == spec_texel_seq_bytes(data@)
                &&& final(display).context.gpu.next_id == old(display).context.gpu.next_id + 1
                &&& forall|oid: u32|
                    #[trigger] old(display).spec_live(oid) ==> final(display).spec_live(oid)
                        && final(display).spec_count(oid) == old(display).spec_count(oid) && final(display).spec_kind(oid) == old(display).spec_kind(oid)
                &&& forall|oid: u32|
                    #[trigger] old(display).spec_live(oid) ==> spec_has_object(
                        final(display).context.gpu.objects@,
                        oid,
                    ) && spec_object_of(final(display).context.gpu.objects@, oid) == spec_object_of(
                        old(display).context.gpu.objects@,
                        oid,
                    )
            },
    {
        let data_len = data.len();
        let size_ok: bool;
        if width == 0 || height == 0 || depth == 0 || array_size == 0 {
            proof {
                assert(width * height * depth * array_size == 0) by (nonlinear_arith)
                    requires
                        width == 0 || height == 0 || depth == 0 || array_size == 0,
                ;
            }
            size_ok = data_len == 0;
        } else {
            let p1 = width.checked_mul(height);
            let p2 = match p1 {
                Some(p) => p.checked_mul(depth),
                None => None,
            };
            let p3 = match p2 {
                Some(p) => p.checked_mul(array_size),
                None => None,
            };
            match p3 {
                Some(p) => {
                    size_ok = p == data_len;
                },
                None => {
                    proof {
                        if p1 is None {
                            assert(width * height * depth * array_size >= width * height) by (nonlinear_arith)
                                requires
                                    depth >= 1,
                                    array_size >= 1,
                                    width * height >= 0,
                            ;
                        } else if p2 is None {
                            assert((width * height) * depth * array_size >= (width * height)
                                * depth) by (nonlinear_arith)
                                requires
                                    array_size >= 1,
                                    (width * height) * depth >= 0,
                            ;
                        }
                        assert(width * height * depth * array_size > usize::MAX);
                    }
                    size_ok = false;
                },
            }
        }
        if !size_ok {
            return Err(TextureError::DataSizeMismatch);
        }
        let elem = data_format_of::<T>();
        let format = match elem {
            Some(f) => f,
            None => {
                return Err(TextureError::UnsupportedTextureType);
            },
        };
        let bind_point = if height == 1 && depth == 1 {
            if array_size == 1 {
                gl::TEXTURE_1D
            } else {
                gl::TEXTURE_1D_ARRAY
            }
        } else if depth == 1 {
            if array_size == 1 {
                gl::TEXTURE_2D
            } else {
                gl::TEXTURE_2D_ARRAY
            }
        } else {
            gl::TEXTURE_3D
        };
        let unpack_alignment: u8 = if width % 4 == 0 {
            4
        } else if height % 2 == 0 {
            2
        } else {
            1
        };
        let bytes = texel_slice_bytes(data);
        let data_type = T::static_gl_type();
        let res = display.submit(
            GlCmd::GenTexture {
                bind_point,
                width,
                height,
                depth,
                array_size,
                format,
                data_type,
                unpack_alignment,
                data: bytes,
            },
        );
        let id = match res {
            CmdResult::NewId(id) => id,
            _ => {
                proof {
                    assert(false);
                }
                0
            },
        };
        let ghost mid = *display;
        display.insert_resource(id, ResourceKind::Texture);
        proof {
            assert forall|oid: u32| old(display).spec_live(oid) implies display.spec_live(oid)
                && display.spec_count(oid) == old(display).spec_count(oid) && display.spec_kind(
                oid,
            ) == old(display).spec_kind(oid) by {
                assert(mid.spec_live(oid));
                assert(oid != id);
                assert(display.spec_live(oid));
            }
        }
        Ok(
            Texture {
                texture: TextureImpl { id, bind_point, width, height, depth, array_size },
            },
        )
    }

    /// Returns the width of the texture.
    pub fn get_width(&self) -> (r: usize)
        ensures
            r == self.texture.width,
    {
        self.texture.width
    }

    /// Returns the height of the texture, or 1 if the texture is a 1D
    /// texture.
    pub fn get_height(&self) -> (r: usize)
        ensures
            r == self.texture.height,
    {
        self.texture.height
    }

    /// Returns the depth of the texture, or 1 if the texture is a 1D or 2D
    /// texture.
    pub fn get_depth(&self) -> (r: usize)
        ensures
            r == self.texture.depth,
    {
        self.texture.depth
    }

    /// Returns the number of elements in the texture array, or 1 if the
    /// texture is not an array.
    pub fn get_array_size(&self) -> (r: usize)
        ensures
            r == self.texture.array_size,
    {
        self.texture.array_size
    }

    /// Reads the content of the texture back from the graphics server: the
    /// same bytes the texture was built from.
    pub fn read(&self, display: &mut Display) -> (r: Vec<u8>)
        requires
            old(display).wf(),
            old(display).context.state is Running,
            old(display).context.next_ticket < u64::MAX,
            old(display).spec_live(self.texture.id),
            spec_object_of(old(display).context.gpu.objects@, self.texture.id) is Texture,
        ensures
            final(display).wf(),
            final(display).context.state is Running,
            r@ == spec_texture_data(
                spec_object_of(old(display).context.gpu.objects@, self.texture.id),
            ),
            final(display).registry == old(display).registry,
            final(display).retired == old(display).retired,
            final(display).delete_log == old(display).delete_log,
            forall|oid: u32|
                #[trigger] old(display).spec_live(oid) ==> spec_has_object(
                    final(display).context.gpu.objects@,
                    oid,
                ) && spec_object_of(final(display).context.gpu.objects@, oid) == spec_object_of(
                    old(display).context.gpu.objects@,
                    oid,
                ),
    {
        self.read_mipmap(display, 0)
    }

    /// Reads the content of one mipmap level of the texture.  Only level 0
    /// is stored by the server.
    pub fn read_mipmap(&self, display: &mut Display, level: usize) -> (r: Vec<u8>)
        requires
            old(display).wf(),
            old(display).context.state is Running,
            old(display).context.next_ticket < u64::MAX,
            old(display).spec_live(self.texture.id),
            spec_object_of(old(display).context.gpu.objects@, self.texture.id) is Texture,
            level == 0,
        ensures
            final(display).wf(),
            final(display).context.state is Running,
            r@ == spec_texture_data(
                spec_object_of(old(display).context.gpu.objects@, self.texture.id),
            ),
            final(display).registry == old(display).registry,
            final(display).retired == old(display).retired,
            final(display).delete_log == old(display).delete_log,
            forall|oid: u32|
                #[trigger] old(display).spec_live(oid) ==> spec_has_object(
                    final(display).context.gpu.objects@,
                    oid,
                ) && spec_object_of(final(display).context.gpu.objects@, oid) == spec_object_of(
                    old(display).context.gpu.objects@,
                    oid,
                ),
    {
        proof {
            crate::display::lemma_reg_index_props(display.registry@, self.texture.id);
        }
        let res = display.submit(GlCmd::ReadTexture { id: self.texture.id });
        match res {
            CmdResult::TexData(d) => d,
            _ => {
                proof {
                    assert(false);
                }
                Vec::new()
            },
        }
    }

    /// Releases this handle's reference to the texture.  Releasing the last
    /// reference enqueues exactly one deletion command, fire and forget.
    pub fn release(self, display: &mut Display)
        requires
            old(display).wf(),
            old(display).spec_live(self.texture.id),
            old(display).context.next_ticket < u64::MAX,
        ensures
            final(display).wf(),
            old(display).spec_count(self.texture.id) == 1 ==> !final(display).spec_live(
                self.texture.id,
            ) && final(display).spec_retired(self.texture.id) && crate::display::spec_count_of(
                final(display).delete_log@,
                self.texture.id,
            ) == 1,
            old(display).spec_count(self.texture.id) > 1 ==> final(display).spec_live(
                self.texture.id,
            ) && final(display).spec_count(self.texture.id) == old(display).spec_count(
                self.texture.id,
            ) - 1,
            forall|oid: u32|
                oid != self.texture.id ==> (old(display).spec_live(oid) <==> final(display).spec_live(oid)),
            final(display).context.gpu == old(display).context.gpu,
            final(display).context.state == old(display).context.state,
    {
        display.release_resource(self.texture.id);
    }
}

/// Returns the texel format of `T`'s component count, if supported.
fn data_format_of<T: GLDataTuple>() -> (r: Option<gl::GLenum>)
    ensures
        r == spec_texel_format(T::spec_num_elems()),
{
    let n = T::static_num_elems();
    if n == 1 {
        Some(gl::RED)
    } else if n == 2 {
        Some(gl::RG)
    } else if n == 3 {
        Some(gl::RGB)
    } else if n == 4 {
        Some(gl::RGBA)
    } else {
        None
    }
}

impl Texture {
    /// Starts drawing on this texture: builds a framebuffer object, attaches
    /// the texture as its color target, and returns a target with no
    /// deferred end action — finishing it releases the framebuffer and
    /// swaps nothing.
    pub fn draw(&mut self, display: &mut Display) -> (r: crate::Target)
        requires
            old(display).wf(),
            old(display).context.state is Running,
            old(display).context.next_ticket + 2 <= u64::MAX,
            old(display).context.gpu.next_id < u32::MAX,
            old(display).spec_live(old(self).texture.id),
        ensures
            final(display).wf(),
            final(display).context.state is Running,
            *final(self) == *old(self),
            r.with_end_action == false,
            r.framebuffer matches Some(f) && final(display).spec_live(f.id) && final(display).spec_kind(f.id) == ResourceKind::Framebuffer && spec_object_of(
                final(display).context.gpu.objects@,
                f.id,
            ) == (GpuObject::Framebuffer { id: f.id, attachment: Some(old(self).texture.id) }),
            forall|oid: u32|
                #[trigger] old(display).spec_live(oid) ==> final(display).spec_live(oid) && final(display).spec_count(oid) == old(display).spec_count(oid),
    {
        let fbo = crate::FrameBufferObject::new(display);
        let fbo_id = fbo.id;
        let res = display.submit(
            GlCmd::AttachTexture { fbo: fbo_id, texture: self.texture.id },
        );
        crate::Target { framebuffer: Some(fbo), with_end_action: false }
    }
}

} // verus!

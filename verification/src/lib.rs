//! A high-level wrapper around a native graphics context.
//!
//! All graphics work is serialized onto one command-execution context: callers
//! enqueue commands from anywhere, a single consumer applies them in
//! submission order against the graphics server, and frame boundaries act as
//! barriers between batches of commands.  Resources (buffers, textures,
//! programs, framebuffers) are handles to server-side objects whose lifetime
//! is reference counted; releasing the last handle enqueues exactly one
//! deletion command.
//!
//! The graphics server itself is represented by an explicit model
//! ([`gpu::GpuModel`]): a value that holds the server-side object tables and
//! records every operation applied to it, so that the behaviour of the whole
//! pipeline — ordering, frame barriers, uploads, draw calls — is stated in
//! contracts and can be observed by callers.

use vstd::prelude::*;

pub mod bytes;
pub mod context;
pub mod data_types;
pub mod display;
pub mod gl;
pub mod glsl;
pub mod gpu;
pub mod index_buffer;
pub mod program;
pub mod texture;
pub mod vertex_buffer;
pub mod vertex_format;

pub use data_types::{F32Bits, F64Bits, GLDataTuple, GLDataType, Mat2, Mat3, Mat4, UniformValue};
pub use vertex_format::{VertexAttrib, VertexBindings, VertexFormatBuilder};
pub use display::Display;
pub use context::{Context, Event, FrameOutcome, LoopState};
pub use gpu::{object_id, GpuModel};
pub use index_buffer::IndexBuffer;
pub use texture::{Texture, TextureError, TextureImpl};
pub use program::{Program, ProgramUniforms, UniformError};
pub use texture::get_impl;
pub use index_buffer::get_clone;
pub use vertex_buffer::{PositionVertex, VertexBuffer, VertexFormat};

verus! {

/// Types of primitives that an index buffer can assemble.
#[derive(Clone, Copy, PartialEq, Eq, Structural, Debug)]
pub enum PrimitiveType {
    PointsList,
    LinesList,
    LinesListAdjacency,
    LineStrip,
    LineStripAdjacency,
    TrianglesList,
    TrianglesListAdjacency,
    TriangleStrip,
    TriangleStripAdjacency,
    TriangleFan,
}

/// The topology tag that the graphics server uses for a primitive type.
pub open spec fn spec_primitive_gl_enum(p: PrimitiveType) -> gl::GLenum {
    match p {
        PrimitiveType::PointsList => gl::POINTS,
        PrimitiveType::LinesList => gl::LINES,
        PrimitiveType::LinesListAdjacency => gl::LINES_ADJACENCY,
        PrimitiveType::LineStrip => gl::LINE_STRIP,
        PrimitiveType::LineStripAdjacency => gl::LINE_STRIP_ADJACENCY,
        PrimitiveType::TrianglesList => gl::TRIANGLES,
        PrimitiveType::TrianglesListAdjacency => gl::TRIANGLES_ADJACENCY,
        PrimitiveType::TriangleStrip => gl::TRIANGLE_STRIP,
        PrimitiveType::TriangleStripAdjacency => gl::TRIANGLE_STRIP_ADJACENCY,
        PrimitiveType::TriangleFan => gl::TRIANGLE_FAN,
    }
}

impl PrimitiveType {
    /// Returns the topology tag passed to the draw call for this primitive type.
    pub fn get_gl_enum(&self) -> (r: gl::GLenum)
        ensures
            r == spec_primitive_gl_enum(*self),
    {
        match *self {
            PrimitiveType::PointsList => gl::POINTS,
            PrimitiveType::LinesList => gl::LINES,
            PrimitiveType::LinesListAdjacency => gl::LINES_ADJACENCY,
            PrimitiveType::LineStrip => gl::LINE_STRIP,
            PrimitiveType::LineStripAdjacency => gl::LINE_STRIP_ADJACENCY,
            PrimitiveType::TrianglesList => gl::TRIANGLES,
            PrimitiveType::TrianglesListAdjacency => gl::TRIANGLES_ADJACENCY,
            PrimitiveType::TriangleStrip => gl::TRIANGLE_STRIP,
            PrimitiveType::TriangleStripAdjacency => gl::TRIANGLE_STRIP_ADJACENCY,
            PrimitiveType::TriangleFan => gl::TRIANGLE_FAN,
        }
    }
}

/// Function that the graphics server will use for blending.
#[derive(Clone, Copy, PartialEq, Eq, Structural, Debug)]
pub enum BlendingFunction {
    /// Always replace the destination pixel by the source.
    AlwaysReplace,
    /// Linear interpolation of the source pixel by the source pixel's alpha.
    LerpBySourceAlpha,
    /// Linear interpolation of the source pixel by the destination pixel's alpha.
    LerpByDestinationAlpha,
}

/// Culling mode: how triangles may be filtered before the fragment stage.
#[derive(Clone, Copy, PartialEq, Eq, Structural, Debug)]
pub enum BackfaceCullingMode {
    /// All triangles are always drawn.
    CullingDisabled,
    /// Triangles whose vertices are counter-clock-wise won't be drawn.
    CullCounterClockWise,
    /// Triangles whose vertices are clock-wise won't be drawn.
    CullClockWise,
}

/// Function to use for out-of-bounds texture samples.
#[derive(Clone, Copy, PartialEq, Eq, Structural, Debug)]
pub enum SamplerWrapFunction {
    /// Samples at coord `x + 1` are mapped to coord `x`.
    Repeat,
    /// Samples at coord `x + 1` are mapped to coord `1 - x`.
    Mirror,
    /// Samples at coord `x + 1` are mapped to coord `1`.
    Clamp,
}

/// The function used when loading the value of a texel.
#[derive(Clone, Copy, PartialEq, Eq, Structural, Debug)]
pub enum SamplerFilter {
    /// The nearest texel will be loaded.
    Nearest,
    /// All nearby texels will be loaded and their values will be merged.
    Linear,
}

/// The function used to decide whether to write over an existing pixel.
#[derive(Clone, Copy, PartialEq, Eq, Structural, Debug)]
pub enum DepthFunction {
    /// Never replace the target pixel.
    Ignore,
    /// Always replace the target pixel.
    Overwrite,
    /// Replace if the z-value of the source equals the destination's.
    IfEqual,
    /// Replace if the z-value of the source differs from the destination's.
    IfNotEqual,
    /// Replace if the z-value of the source is more than the destination's.
    IfMore,
    /// Replace if the z-value of the source is more or equal to the destination's.
    IfMoreOrEqual,
    /// Replace if the z-value of the source is less than the destination's.
    IfLess,
    /// Replace if the z-value of the source is less or equal to the destination's.
    IfLessOrEqual,
}

/// A framebuffer object: the offscreen destination a texture target draws
/// into.
pub struct FrameBufferObject {
    /// The server-side object name.
    pub id: u32,
}

impl FrameBufferObject {
    /// Builds a new framebuffer object, registered with one reference.
    pub fn new(display: &mut display::Display) -> (r: FrameBufferObject)
        requires
            old(display).wf(),
            old(display).context.state is Running,
            old(display).context.next_ticket < u64::MAX,
            old(display).context.gpu.next_id < u32::MAX,
        ensures
            final(display).wf(),
            final(display).context.state is Running,
            r.id == old(display).context.gpu.next_id,
            final(display).context.next_ticket == old(display).context.next_ticket + 1,
            final(display).spec_live(r.id),
            final(display).spec_count(r.id) == 1,
            final(display).spec_kind(r.id) == display::ResourceKind::Framebuffer,
            gpu::spec_has_object(final(display).context.gpu.objects@, r.id),
            gpu::spec_object_of(final(display).context.gpu.objects@, r.id) == (
            gpu::GpuObject::Framebuffer { id: r.id, attachment: None }),
            final(display).context.gpu.next_id == old(display).context.gpu.next_id + 1,
            forall|oid: u32|
                #[trigger] old(display).spec_live(oid) ==> final(display).spec_live(oid) && final(display).spec_count(oid) == old(display).spec_count(oid) && final(display).spec_kind(oid)
                    == old(display).spec_kind(oid),
            forall|oid: u32|
                #[trigger] old(display).spec_live(oid) ==> gpu::spec_has_object(
                    final(display).context.gpu.objects@,
                    oid,
                ) && gpu::spec_object_of(final(display).context.gpu.objects@, oid)
                    == gpu::spec_object_of(old(display).context.gpu.objects@, oid),
    {
        let res = display.submit(gpu::GlCmd::GenFramebuffer);
        let id = match res {
            gpu::CmdResult::NewId(id) => id,
            _ => {
                proof {
                    assert(false);
                }
                0
            },
        };
        let ghost mid = *display;
        display.insert_resource(id, display::ResourceKind::Framebuffer);
        proof {
            assert forall|oid: u32| old(display).spec_live(oid) implies display.spec_live(oid)
                && display.spec_count(oid) == old(display).spec_count(oid) && display.spec_kind(
                oid,
            ) == old(display).spec_kind(oid) by {
                assert(mid.spec_live(oid));
                assert(oid != id);
                assert(display.spec_live(oid));
            }
        }
        FrameBufferObject { id }
    }

    /// Releases this handle's reference to the framebuffer.
    pub fn release(self, display: &mut display::Display)
        requires
            old(display).wf(),
            old(display).spec_live(self.id),
            old(display).context.next_ticket < u64::MAX,
        ensures
            final(display).wf(),
            old(display).spec_count(self.id) == 1 ==> !final(display).spec_live(self.id) && final(display).spec_retired(self.id) && display::spec_count_of(final(display).delete_log@, self.id)
                == 1,
            forall|oid: u32|
                oid != self.id ==> (old(display).spec_live(oid) <==> final(display).spec_live(oid)),
            final(display).context.gpu == old(display).context.gpu,
            final(display).context.state == old(display).context.state,
    {
        display.release_resource(self.id);
    }
}

/// A render buffer.
pub struct RenderBuffer {
    /// The server-side object name.
    pub id: u32,
}

impl RenderBuffer {
    /// Builds a new render buffer, registered with one reference.
    pub fn new(display: &mut display::Display) -> (r: RenderBuffer)
        requires
            old(display).wf(),
            old(display).context.state is Running,
            old(display).context.next_ticket < u64::MAX,
            old(display).context.gpu.next_id < u32::MAX,
        ensures
            final(display).wf(),
            final(display).context.state is Running,
            r.id == old(display).context.gpu.next_id,
            final(display).spec_live(r.id),
            final(display).spec_count(r.id) == 1,
            final(display).spec_kind(r.id) == display::ResourceKind::Renderbuffer,
            forall|oid: u32|
                #[trigger] old(display).spec_live(oid) ==> final(display).spec_live(oid) && final(display).spec_count(oid) == old(display).spec_count(oid),
    {
        let res = display.submit(gpu::GlCmd::GenRenderbuffer);
        let id = match res {
            gpu::CmdResult::NewId(id) => id,
            _ => {
                proof {
                    assert(false);
                }
                0
            },
        };
        let ghost mid = *display;
        display.insert_resource(id, display::ResourceKind::Renderbuffer);
        proof {
            assert forall|oid: u32| old(display).spec_live(oid) implies display.spec_live(oid)
                && display.spec_count(oid) == old(display).spec_count(oid) by {
                assert(mid.spec_live(oid));
                assert(oid != id);
                assert(display.spec_live(oid));
            }
        }
        RenderBuffer { id }
    }

    /// Releases this handle's reference to the render buffer.
    pub fn release(self, display: &mut display::Display)
        requires
            old(display).wf(),
            old(display).spec_live(self.id),
            old(display).context.next_ticket < u64::MAX,
        ensures
            final(display).wf(),
            old(display).spec_count(self.id) == 1 ==> !final(display).spec_live(self.id) && final(display).spec_retired(self.id) && display::spec_count_of(final(display).delete_log@, self.id)
                == 1,
            forall|oid: u32|
                oid != self.id ==> (old(display).spec_live(oid) <==> final(display).spec_live(oid)),
    {
        display.release_resource(self.id);
    }
}

/// A target where things can be drawn: the window's back buffer, or a
/// texture-backed framebuffer.  Finishing the target runs its deferred end
/// action (for a window target: signal the end of the frame, then queue a
/// clear for the next frame's initial state) and releases its framebuffer.
pub struct Target {
    /// The framebuffer drawn to; `None` is the window's back buffer.
    pub framebuffer: Option<FrameBufferObject>,
    /// Whether finishing this target ends the frame.
    pub with_end_action: bool,
}

/// Draws one (vertex buffer, index buffer, uniforms) triple onto a target:
/// composes a single draw command — select the framebuffer, fix the
/// blending and depth disposition, bind the program, upload the stored
/// uniforms, bind the textures to units 0, 1, ..., bind both buffers,
/// resolve and enable each vertex attribute the program declares, issue the
/// indexed draw call, and disable the attributes again — and submits it
/// synchronously, so no other command can interleave with it.
///
/// An unsupported stored uniform type, or an integer-typed attribute the
/// program declares, kills the consumer as an unrecoverable error.
#[verifier::rlimit(100)]
pub fn draw_triple(
    display: &mut display::Display,
    target: &Target,
    vb: &VertexBuffer,
    ib: &IndexBuffer,
    uniforms: &ProgramUniforms,
)
    requires
        old(display).wf(),
        old(display).context.state is Running,
        old(display).context.next_ticket < u64::MAX,
        old(display).spec_live(vb.id),
        old(display).spec_live(ib.id),
        old(display).spec_live(uniforms.program),
        gpu::spec_object_of(old(display).context.gpu.objects@, uniforms.program) is Program,
    ensures
        final(display).wf(),
        ({
            let attrs = gpu::spec_program_attrs(
                gpu::spec_object_of(old(display).context.gpu.objects@, uniforms.program),
            );
            &&& (!gpu::spec_uniform_tags_ok(uniforms.values@) ==> final(display).context.state
                is Stopped)
            &&& ((gpu::spec_uniform_tags_ok(uniforms.values@) && !gpu::spec_bindings_ok(
                vb.bindings.entries@,
                attrs,
            )) ==> final(display).context.state is Stopped)
            &&& ((gpu::spec_uniform_tags_ok(uniforms.values@) && gpu::spec_bindings_ok(
                vb.bindings.entries@,
                attrs,
            )) ==> {
                &&& final(display).context.state is Running
                &&& final(display).context.gpu.current_draws@.len() >= 1
                &&& {
                    let d = final(display).context.gpu.current_draws@.last();
                    &&& d.fbo == (match target.framebuffer {
                        Some(f) => f.id,
                        None => 0u32,
                    })
                    &&& d.depth_test == false
                    &&& d.blend == true
                    &&& d.blend_src == gl::SRC_ALPHA
                    &&& d.blend_dst == gl::ONE_MINUS_SRC_ALPHA
                    &&& d.program == uniforms.program
                    &&& d.vertex_buffer == vb.id
                    &&& d.index_buffer == ib.id
                    &&& d.element_count == ib.elements_count
                    &&& d.index_type == ib.data_type
                    &&& d.primitives == ib.primitives
                    &&& program::spec_values_eq(d.uniform_values@, uniforms.values@)
                    &&& d.texture_bindings@ == uniforms.textures@
                    &&& d.enabled_attributes@ == gpu::spec_enabled_locs(
                        vb.bindings.entries@,
                        attrs,
                    )
                }
                &&& (!context::spec_has_end(old(display).context.pending@) ==> final(display).context.gpu.current_draws@.drop_last() == old(display).context.gpu.current_draws@)
            })
        }),
        final(display).registry == old(display).registry,
        final(display).retired == old(display).retired,
        final(display).delete_log == old(display).delete_log,
        forall|oid: u32|
            #[trigger] old(display).spec_live(oid) ==> gpu::spec_has_object(
                final(display).context.gpu.objects@,
                oid,
            ) && gpu::spec_object_of(final(display).context.gpu.objects@, oid)
                == gpu::spec_object_of(old(display).context.gpu.objects@, oid),
{
    let fbo = match &target.framebuffer {
        Some(f) => Some(f.id),
        None => None,
    };
    let values = program::copy_values(&uniforms.values);
    let textures = program::copy_texture_bindings(&uniforms.textures);
    let bindings = vertex_buffer::copy_bindings(&vb.bindings);
    let params = gpu::DrawParams {
        fbo,
        vertex_buffer: vb.id,
        vertex_stride: vb.elements_size,
        bindings,
        index_buffer: ib.id,
        element_count: ib.elements_count,
        index_type: ib.data_type,
        primitives: ib.primitives,
        program: uniforms.program,
        uniform_values: values,
        uniform_textures: textures,
    };
    let ghost gparams = params;
    proof {
        let attrs = gpu::spec_program_attrs(
            gpu::spec_object_of(old(display).context.gpu.objects@, uniforms.program),
        );
        assert(gpu::spec_uniform_tags_ok(gparams.uniform_values@) == gpu::spec_uniform_tags_ok(
            uniforms.values@,
        )) by {
            if gpu::spec_uniform_tags_ok(uniforms.values@) {
                assert forall|i: int|
                    0 <= i < gparams.uniform_values@.len() implies gpu::spec_upload_supported(
                    (#[trigger] gparams.uniform_values@[i]).1,
                ) by {
                    assert(gparams.uniform_values@[i].1 == uniforms.values@[i].1);
                }
            }
            if gpu::spec_uniform_tags_ok(gparams.uniform_values@) {
                assert forall|i: int|
                    0 <= i < uniforms.values@.len() implies gpu::spec_upload_supported(
                    (#[trigger] uniforms.values@[i]).1,
                ) by {
                    assert(gparams.uniform_values@[i].1 == uniforms.values@[i].1);
                }
            }
        }
        gpu::lemma_bindings_ok_eq(gparams.bindings.entries@, vb.bindings.entries@, attrs);
        gpu::lemma_enabled_locs_eq(gparams.bindings.entries@, vb.bindings.entries@, attrs);
    }
    let res = display.submit(gpu::GlCmd::Draw(params));
    proof {
        assert forall|i: int| 0 <= i < uniforms.values@.len() implies (
        #[trigger] uniforms.values@[i]).0 == gparams.uniform_values@[i].0
            && uniforms.values@[i].1 == gparams.uniform_values@[i].1 && uniforms.values@[i].2@
            == gparams.uniform_values@[i].2@ by {}
    }
}

/// Something that can be drawn onto a target.
pub trait Draw {
    /// What must hold of the display for this object to be drawable: its
    /// handles name live resources of the display.
    spec fn spec_valid(&self, d: display::Display) -> bool;

    /// Whether the graphics server accepts the draw command this object
    /// composes: every stored uniform carries an uploadable type tag and no
    /// resolved vertex attribute is integer-typed.  When it does not, the
    /// draw is an unrecoverable error and the consumer dies.
    spec fn spec_draw_ok(&self, d: display::Display) -> bool;

    /// Whether `rec` is the draw record this object submits onto `target`:
    /// the target's framebuffer, the fixed pipeline disposition, the
    /// object's buffers, program, uniforms and resolved attributes.
    spec fn spec_is_record(
        &self,
        d: display::Display,
        target: Target,
        rec: gpu::DrawRecord,
    ) -> bool;

    /// Draws the object on the specified target: composes one draw command
    /// and submits it synchronously, so nothing can interleave with it.
    fn draw(&self, display: &mut display::Display, target: &mut Target)
        requires
            old(display).wf(),
            old(display).context.state is Running,
            old(display).context.next_ticket < u64::MAX,
            self.spec_valid(*old(display)),
        ensures
            final(display).wf(),
            final(display).registry == old(display).registry,
            final(display).retired == old(display).retired,
            final(display).delete_log == old(display).delete_log,
            *final(target) == *old(target),
            self.spec_draw_ok(*old(display)) ==> {
                &&& final(display).context.state is Running
                &&& final(display).context.gpu.current_draws@.len() >= 1
                &&& self.spec_is_record(
                    *old(display),
                    *old(target),
                    final(display).context.gpu.current_draws@.last(),
                )
                &&& (!context::spec_has_end(old(display).context.pending@) ==> final(display).context.gpu.current_draws@.drop_last() == old(display).context.gpu.current_draws@)
            },
            !self.spec_draw_ok(*old(display)) ==> final(display).context.state is Stopped,
    ;
}

impl<'a, 'b, 'c> Draw for (&'a VertexBuffer, &'b IndexBuffer, &'c ProgramUniforms) {
    open spec fn spec_valid(&self, d: display::Display) -> bool {
        &&& d.spec_live(self.0.id)
        &&& d.spec_live(self.1.id)
        &&& d.spec_live(self.2.program)
        &&& gpu::spec_object_of(d.context.gpu.objects@, self.2.program) is Program
    }

    open spec fn spec_draw_ok(&self, d: display::Display) -> bool {
        let attrs = gpu::spec_program_attrs(
            gpu::spec_object_of(d.context.gpu.objects@, self.2.program),
        );
        &&& gpu::spec_uniform_tags_ok(self.2.values@)
        &&& gpu::spec_bindings_ok(self.0.bindings.entries@, attrs)
    }

    open spec fn spec_is_record(
        &self,
        d: display::Display,
        target: Target,
        rec: gpu::DrawRecord,
    ) -> bool {
        let attrs = gpu::spec_program_attrs(
            gpu::spec_object_of(d.context.gpu.objects@, self.2.program),
        );
        &&& rec.fbo == (match target.framebuffer {
            Some(f) => f.id,
            None => 0u32,
        })
        &&& rec.depth_test == false
        &&& rec.blend == true
        &&& rec.blend_src == gl::SRC_ALPHA
        &&& rec.blend_dst == gl::ONE_MINUS_SRC_ALPHA
        &&& rec.program == self.2.program
        &&& rec.vertex_buffer == self.0.id
        &&& rec.index_buffer == self.1.id
        &&& rec.element_count == self.1.elements_count
        &&& rec.index_type == self.1.data_type
        &&& rec.primitives == self.1.primitives
        &&& program::spec_values_eq(rec.uniform_values@, self.2.values@)
        &&& rec.texture_bindings@ == self.2.textures@
        &&& rec.enabled_attributes@ == gpu::spec_enabled_locs(self.0.bindings.entries@, attrs)
    }

    fn draw(&self, display: &mut display::Display, target: &mut Target) {
        draw_triple(display, target, self.0, self.1, self.2);
    }
}

impl Target {
    /// Draws an object onto this target; see [`Draw::draw`].
    pub fn draw<D: Draw>(&mut self, display: &mut display::Display, object: &D)
        requires
            old(display).wf(),
            old(display).context.state is Running,
            old(display).context.next_ticket < u64::MAX,
            object.spec_valid(*old(display)),
        ensures
            final(display).wf(),
            final(display).registry == old(display).registry,
            final(display).retired == old(display).retired,
            final(display).delete_log == old(display).delete_log,
            *final(self) == *old(self),
            object.spec_draw_ok(*old(display)) ==> {
                &&& final(display).context.state is Running
                &&& final(display).context.gpu.current_draws@.len() >= 1
                &&& object.spec_is_record(
                    *old(display),
                    *old(self),
                    final(display).context.gpu.current_draws@.last(),
                )
                &&& (!context::spec_has_end(old(display).context.pending@) ==> final(display).context.gpu.current_draws@.drop_last() == old(display).context.gpu.current_draws@)
            },
            !object.spec_draw_ok(*old(display)) ==> final(display).context.state is Stopped,
    {
        object.draw(display, self);
    }

    /// Stops drawing on the target.  A window target signals the end of the
    /// frame — a fire-and-forget barrier: everything submitted before it is
    /// applied before the buffer swap — and queues a clear for the next
    /// frame's initial state.  A texture target releases its framebuffer.
    pub fn finish(self, display: &mut display::Display)
        requires
            old(display).wf(),
            old(display).context.next_ticket + 2 <= u64::MAX,
            self.framebuffer matches Some(f) ==> old(display).spec_live(f.id),
        ensures
            final(display).wf(),
            (self.with_end_action && self.framebuffer is None) ==> final(display).context.pending@
                == old(display).context.pending@.push(context::Message::EndFrame).push(
                context::Message::Execute {
                    ticket: old(display).context.next_ticket,
                    cmd: gpu::GlCmd::Clear,
                },
            ) && final(display).registry == old(display).registry && final(display).retired == old(display).retired && final(display).delete_log == old(display).delete_log,
            (!self.with_end_action && self.framebuffer is None) ==> *final(display) == *old(display),
            self.framebuffer matches Some(f) ==> ((!self.with_end_action && old(display).spec_count(f.id) == 1) ==> (!final(display).spec_live(f.id) && final(display).spec_retired(f.id) && display::spec_count_of(final(display).delete_log@, f.id)
                == 1)),
            final(display).context.gpu.frames == old(display).context.gpu.frames,
            final(display).context.state == old(display).context.state,
    {
        let Target { framebuffer, with_end_action } = self;
        if with_end_action {
            display.enqueue_end_frame();
            display.enqueue_async(gpu::GlCmd::Clear);
        }
        match framebuffer {
            Some(f) => {
                f.release(display);
            },
            None => {},
        }
    }
}

impl display::Display {
    /// Starts drawing a frame on the window's back buffer.  Finishing the
    /// returned target swaps the buffers and queues the clear of the next
    /// frame.
    pub fn draw(&self) -> (r: Target)
        ensures
            r.framebuffer is None,
            r.with_end_action == true,
    {
        Target { framebuffer: None, with_end_action: true }
    }

    /// See `VertexBuffer::new`.
    pub fn build_vertex_buffer<T: vertex_buffer::VertexFormat>(&mut self, data: Vec<T>) -> (r:
        VertexBuffer)
        requires
            old(self).wf(),
            old(self).context.state is Running,
            old(self).context.next_ticket < u64::MAX,
            old(self).context.gpu.next_id < u32::MAX,
        ensures
            final(self).wf(),
            final(self).context.state is Running,
            r.id == old(self).context.gpu.next_id,
            r.elements_size == T::spec_stride(),
            r.bindings.wf(),
            final(self).spec_live(r.id),
            final(self).spec_count(r.id) == 1,
            gpu::spec_object_of(final(self).context.gpu.objects@, r.id)
                matches gpu::GpuObject::Buffer { id, target, data: stored } && id == r.id && target
                == gl::ARRAY_BUFFER && stored@ == vertex_buffer::spec_vertex_seq_bytes(data@),
            forall|oid: u32|
                #[trigger] old(self).spec_live(oid) ==> final(self).spec_live(oid) && final(self).spec_count(oid) == old(self).spec_count(oid),
    {
        VertexBuffer::new(self, data)
    }

    /// See `IndexBuffer::new`.
    pub fn build_index_buffer<T: GLDataType>(&mut self, prim: PrimitiveType, data: &[T]) -> (r:
        IndexBuffer)
        requires
            old(self).wf(),
            old(self).context.state is Running,
            old(self).context.next_ticket < u64::MAX,
            old(self).context.gpu.next_id < u32::MAX,
        ensures
            final(self).wf(),
            final(self).context.state is Running,
            r.id == old(self).context.gpu.next_id,
            r.elements_count == data@.len(),
            r.data_type == T::spec_gl_type(),
            r.primitives == spec_primitive_gl_enum(prim),
            final(self).spec_live(r.id),
            final(self).spec_count(r.id) == 1,
            gpu::spec_object_of(final(self).context.gpu.objects@, r.id)
                matches gpu::GpuObject::Buffer { id, target, data: stored } && id == r.id && target
                == gl::ELEMENT_ARRAY_BUFFER && stored@ == data_types::spec_scalar_seq_bytes(data@),
            forall|oid: u32|
                #[trigger] old(self).spec_live(oid) ==> final(self).spec_live(oid) && final(self).spec_count(oid) == old(self).spec_count(oid),
            forall|oid: u32|
                #[trigger] old(self).spec_live(oid) ==> gpu::spec_has_object(
                    final(self).context.gpu.objects@,
                    oid,
                ) && gpu::spec_object_of(final(self).context.gpu.objects@, oid)
                    == gpu::spec_object_of(old(self).context.gpu.objects@, oid),
    {
        IndexBuffer::new(self, prim, data)
    }

    /// See `Texture::new`.
    pub fn build_texture<T: GLDataTuple>(
        &mut self,
        data: &[T],
        width: usize,
        height: usize,
        depth: usize,
        array_size: usize,
    ) -> (r: Result<Texture, TextureError>)
        requires
            old(self).wf(),
            old(self).context.state is Running,
            old(self).context.next_ticket < u64::MAX,
            old(self).context.gpu.next_id < u32::MAX,
        ensures
            final(self).wf(),
            r is Err ==> *final(self) == *old(self),
            (r matches Err(e) && e == TextureError::DataSizeMismatch) <==> width * height * depth
                * array_size != data@.len(),
            (r matches Err(e) && e == TextureError::UnsupportedTextureType) <==> (width * height
                * depth * array_size == data@.len() && texture::spec_texel_format(
                T::spec_num_elems(),
            ) is None),
            r matches Ok(t) ==> {
                &&& t.texture.width == width
                &&& t.texture.height == height
                &&& t.texture.depth == depth
                &&& t.texture.array_size == array_size
                &&& final(self).context.state is Running
                &&& final(self).spec_live(t.texture.id)
                &&& gpu::spec_object_of(final(self).context.gpu.objects@, t.texture.id) is Texture
            },
    {
        Texture::new(self, data, width, height, depth, array_size)
    }

    /// Signals the end of the current frame, fire and forget: everything
    /// submitted before the signal is applied before the buffer swap.
    pub fn swap_buffers(&mut self)
        requires
            old(self).wf(),
        ensures
            final(self).wf(),
            final(self).context.pending@ == old(self).context.pending@.push(
                context::Message::EndFrame,
            ),
            final(self).registry == old(self).registry,
    {
        self.enqueue_end_frame();
    }
}

/// Objects that can build a `Display` object.
pub trait DisplayBuild: Sized {
    /// Builds a context and a `Display` to draw on it.
    fn build_simple_gl(self) -> (r: Result<display::Display, ()>)
        ensures
            r matches Ok(d) ==> {
                &&& d.wf()
                &&& d.context.state is Running
                &&& d.context.pending@.len() == 0
                &&& d.context.executed@.len() == 0
                &&& d.context.next_ticket == 0
                &&& d.context.events@.len() == 0
                &&& d.context.gpu.next_id == 1
                &&& d.context.gpu.objects@.len() == 0
                &&& d.context.gpu.frames@.len() == 0
                &&& d.context.gpu.current_draws@.len() == 0
                &&& d.registry@.len() == 0
                &&& d.retired@.len() == 0
                &&& d.delete_log@.len() == 0
            },
    ;
}

/// Describes the window a display is built for: its inner size and the
/// start of its frame schedule.
pub struct WindowBuilder {
    /// The window's inner width, in pixels.
    pub width: u32,
    /// The window's inner height, in pixels.
    pub height: u32,
    /// When the first frame is scheduled, in nanoseconds.
    pub start_ns: u64,
}

impl WindowBuilder {
    /// A default window description.
    pub fn new() -> (r: WindowBuilder)
        ensures
            r.width == 800,
            r.height == 600,
            r.start_ns == 0,
    {
        WindowBuilder { width: 800, height: 600, start_ns: 0 }
    }

    /// Sets the window's inner size.
    pub fn with_dimensions(self, width: u32, height: u32) -> (r: WindowBuilder)
        ensures
            r.width == width,
            r.height == height,
            r.start_ns == self.start_ns,
    {
        WindowBuilder { width, height, ..self }
    }
}

impl DisplayBuild for WindowBuilder {
    fn build_simple_gl(self) -> (r: Result<display::Display, ()>) {
        let d = display::Display {
            context: context::Context::new(self.start_ns),
            registry: Vec::new(),
            retired: Vec::new(),
            delete_log: Vec::new(),
        };
        proof {
            assert forall|id: u32| true implies display::spec_count_of(d.delete_log@, id)
                == display::spec_count_of(d.retired@, id) && display::spec_count_of(d.retired@, id)
                <= 1 by {
                assert(d.delete_log@.len() == 0);
                assert(d.retired@.len() == 0);
            }
        }
        Ok(d)
    }
}

/// The bytes of the attribute name `iPosition`, as the ready-made vertex
/// shape declares it.
pub fn position_attribute_name() -> (r: Vec<u8>)
    ensures
        r@ == seq![105u8, 80, 111, 115, 105, 116, 105, 111, 110],
{
    let r = vec![105u8, 80, 111, 115, 105, 116, 105, 111, 110];
    proof {
        assert(r@ =~= seq![105u8, 80, 111, 115, 105, 116, 105, 111, 110]);
    }
    r
}

} // verus!

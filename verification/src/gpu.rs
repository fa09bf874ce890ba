//! The graphics server model.
//!
//! The native graphics binding is represented by an explicit state machine:
//! a table of server-side objects, the draw records of the frame being
//! composed, and the finished frames.  Every command the execution context
//! consumes is applied to this model, so the effect of each command is
//! stated in a contract and the whole pipeline can be observed by callers
//! and tests.

use vstd::prelude::*;

use crate::bytes::copy_bytes;
use crate::gl;
use crate::glsl;
use crate::vertex_format::VertexAttrib;
use crate::vertex_format::VertexBindings;

verus! {

/// One reflected uniform variable of a linked program: its name, assigned
/// location, type tag and array size.
pub struct UniformDecl {
    /// The uniform name.
    pub name: Vec<u8>,
    /// The location handed to upload calls.
    pub location: i32,
    /// The declared type tag.
    pub gltype: gl::GLenum,
    /// The declared array size (always 1 in this model).
    pub size: i32,
}

/// One reflected vertex attribute of a linked program.
pub struct AttribDecl {
    /// The attribute name.
    pub name: Vec<u8>,
    /// The location assigned by the linker.
    pub location: i32,
}

/// A server-side object.
pub enum GpuObject {
    /// A data buffer.
    Buffer {
        /// The object name.
        id: u32,
        /// The binding target the buffer was created for.
        target: gl::GLenum,
        /// The uploaded bytes.
        data: Vec<u8>,
    },
    /// A texture.
    Texture {
        /// The object name.
        id: u32,
        /// The binding target chosen from the dimensions.
        bind_point: gl::GLenum,
        /// Width in texels.
        width: usize,
        /// Height in texels.
        height: usize,
        /// Depth in texels.
        depth: usize,
        /// Number of layers of the texture array.
        array_size: usize,
        /// The texel format.
        format: gl::GLenum,
        /// The component type tag.
        data_type: gl::GLenum,
        /// The row alignment the data was unpacked with.
        unpack_alignment: u8,
        /// The uploaded texel bytes.
        data: Vec<u8>,
    },
    /// A compiled shader stage.
    Shader {
        /// The object name.
        id: u32,
        /// The stage tag.
        stage: gl::GLenum,
        /// The source text the stage was compiled from.
        source: Vec<u8>,
    },
    /// A linked program.
    Program {
        /// The object name.
        id: u32,
        /// The reflected vertex attributes.
        attributes: Vec<AttribDecl>,
    },
    /// A framebuffer object.
    Framebuffer {
        /// The object name.
        id: u32,
        /// The texture attached as its color target, if any.
        attachment: Option<u32>,
    },
    /// A render buffer.
    Renderbuffer {
        /// The object name.
        id: u32,
    },
}

/// The object name of a server-side object.
pub open spec fn spec_obj_id(o: GpuObject) -> u32 {
    match o {
        GpuObject::Buffer { id, .. } => id,
        GpuObject::Texture { id, .. } => id,
        GpuObject::Shader { id, .. } => id,
        GpuObject::Program { id, .. } => id,
        GpuObject::Framebuffer { id, .. } => id,
        GpuObject::Renderbuffer { id } => id,
    }
}

/// The index of the object with the given name, or -1 if there is none.
pub open spec fn spec_index_of(objects: Seq<GpuObject>, id: u32) -> int
    decreases objects.len(),
{
    if objects.len() == 0 {
        -1
    } else if spec_obj_id(objects[0]) == id {
        0
    } else {
        let r = spec_index_of(objects.drop_first(), id);
        if r == -1 {
            -1
        } else {
            r + 1
        }
    }
}

/// Whether an object with the given name exists.
pub open spec fn spec_has_object(objects: Seq<GpuObject>, id: u32) -> bool {
    spec_index_of(objects, id) >= 0
}

/// The object with the given name.
pub open spec fn spec_object_of(objects: Seq<GpuObject>, id: u32) -> GpuObject {
    objects[spec_index_of(objects, id)]
}

/// The index returned by `spec_index_of` is a valid index of a matching
/// object, and -1 exactly when no object matches.
pub proof fn lemma_index_of_props(objects: Seq<GpuObject>, id: u32)
    ensures
        spec_index_of(objects, id) >= 0 ==> spec_index_of(objects, id) < objects.len()
            && spec_obj_id(objects[spec_index_of(objects, id)]) == id,
        spec_index_of(objects, id) == -1 ==> forall|k: int|
            0 <= k < objects.len() ==> spec_obj_id(#[trigger] objects[k]) != id,
        spec_index_of(objects, id) >= -1,
    decreases objects.len(),
{
    if objects.len() > 0 {
        lemma_index_of_props(objects.drop_first(), id);
        if spec_index_of(objects, id) == -1 {
            assert forall|k: int| 0 <= k < objects.len() implies spec_obj_id(
                #[trigger] objects[k],
            ) != id by {
                if k > 0 {
                    assert(objects.drop_first()[k - 1] == objects[k]);
                }
            }
        }
    }
}

/// If the first `m` objects do not carry `id`, the index of `id` in the whole
/// table is its index in the rest, shifted by `m`.
pub proof fn lemma_index_of_skip(objects: Seq<GpuObject>, id: u32, m: int)
    requires
        0 <= m <= objects.len(),
        forall|k: int| 0 <= k < m ==> spec_obj_id(#[trigger] objects[k]) != id,
    ensures
        spec_index_of(objects, id) == if spec_index_of(objects.skip(m), id) == -1 {
            -1
        } else {
            spec_index_of(objects.skip(m), id) + m
        },
    decreases m,
{
    if m > 0 {
        assert(spec_obj_id(objects[0]) != id);
        assert forall|k: int| 0 <= k < m - 1 implies spec_obj_id(
            #[trigger] objects.drop_first()[k],
        ) != id by {
            assert(objects.drop_first()[k] == objects[k + 1]);
        }
        lemma_index_of_skip(objects.drop_first(), id, m - 1);
        assert(objects.drop_first().skip(m - 1) =~= objects.skip(m));
        lemma_index_of_props(objects.skip(m), id);
        let r = spec_index_of(objects.drop_first(), id);
        assert(r == if spec_index_of(objects.skip(m), id) == -1 {
            -1int
        } else {
            spec_index_of(objects.skip(m), id) + (m - 1)
        });
        assert(spec_index_of(objects, id) == if r == -1 {
            -1int
        } else {
            r + 1
        });
    } else {
        assert(objects.skip(0) =~= objects);
    }
}

/// One draw call as recorded by the server.
pub struct DrawRecord {
    /// The framebuffer drawn to; 0 is the window's back buffer.
    pub fbo: u32,
    /// Whether the depth test was enabled.  The draw command fixes a
    /// minimal pipeline disposition: the depth test is always off.
    pub depth_test: bool,
    /// Whether blending was enabled: always on.
    pub blend: bool,
    /// The source blend factor: always the source alpha.
    pub blend_src: gl::GLenum,
    /// The destination blend factor: always one minus the source alpha.
    pub blend_dst: gl::GLenum,
    /// The program used.
    pub program: u32,
    /// The bound vertex buffer.
    pub vertex_buffer: u32,
    /// The bound index buffer.
    pub index_buffer: u32,
    /// The number of indices drawn.
    pub element_count: usize,
    /// The type tag of one index.
    pub index_type: gl::GLenum,
    /// The primitive topology.
    pub primitives: gl::GLenum,
    /// The uniform values uploaded, as (location, type tag, bytes).
    pub uniform_values: Vec<(i32, gl::GLenum, Vec<u8>)>,
    /// The textures bound, as (location, texture id), to units 0, 1, ...
    pub texture_bindings: Vec<(i32, u32)>,
    /// The attribute locations enabled for the call, in binding-table order.
    pub enabled_attributes: Vec<i32>,
}

/// One finished frame: what was drawn and cleared between two buffer swaps.
pub struct FrameRecord {
    /// The draw calls of the frame, in submission order.
    pub draws: Vec<DrawRecord>,
    /// How many clears were applied during the frame.
    pub clears: usize,
}

/// Everything a draw command carries.
pub struct DrawParams {
    /// The destination framebuffer; `None` is the window's back buffer.
    pub fbo: Option<u32>,
    /// The vertex buffer to bind.
    pub vertex_buffer: u32,
    /// The byte stride of one vertex record.
    pub vertex_stride: usize,
    /// The binding table of the vertex shape.
    pub bindings: VertexBindings,
    /// The index buffer to bind.
    pub index_buffer: u32,
    /// The number of indices to draw.
    pub element_count: usize,
    /// The type tag of one index.
    pub index_type: gl::GLenum,
    /// The primitive topology.
    pub primitives: gl::GLenum,
    /// The program to bind.
    pub program: u32,
    /// The uniform values to upload, as (location, type tag, bytes).
    pub uniform_values: Vec<(i32, gl::GLenum, Vec<u8>)>,
    /// The textures to bind, as (location, texture id).
    pub uniform_textures: Vec<(i32, u32)>,
}

/// A command applied by the execution context to the graphics server.
pub enum GlCmd {
    /// Create a buffer and upload `data` to it.
    GenBuffer {
        /// The binding target.
        target: gl::GLenum,
        /// The bytes to upload.
        data: Vec<u8>,
    },
    /// Delete a buffer; unknown names are silently ignored.
    DeleteBuffer {
        /// The object name.
        id: u32,
    },
    /// Create a texture and upload its texel data.
    GenTexture {
        /// The binding target chosen from the dimensions.
        bind_point: gl::GLenum,
        /// Width in texels.
        width: usize,
        /// Height in texels.
        height: usize,
        /// Depth in texels.
        depth: usize,
        /// Number of layers of the texture array.
        array_size: usize,
        /// The texel format.
        format: gl::GLenum,
        /// The component type tag.
        data_type: gl::GLenum,
        /// The row alignment to unpack with.
        unpack_alignment: u8,
        /// The texel bytes.
        data: Vec<u8>,
    },
    /// Delete a texture; unknown names are silently ignored.
    DeleteTexture {
        /// The object name.
        id: u32,
    },
    /// Read back the texel bytes of a texture.
    ReadTexture {
        /// The object name.
        id: u32,
    },
    /// Compile one shader stage from source.
    CompileShader {
        /// The stage tag.
        stage: gl::GLenum,
        /// The source text.
        source: Vec<u8>,
    },
    /// Delete a shader; unknown names are silently ignored.
    DeleteShader {
        /// The object name.
        id: u32,
    },
    /// Link the given compiled shaders into a program and reflect its
    /// interface.
    LinkProgram {
        /// The shader objects to link, in attachment order.
        shaders: Vec<u32>,
    },
    /// Create a framebuffer object.
    GenFramebuffer,
    /// Delete a framebuffer; unknown names are silently ignored.
    DeleteFramebuffer {
        /// The object name.
        id: u32,
    },
    /// Attach a texture as the color target of a framebuffer.
    AttachTexture {
        /// The framebuffer.
        fbo: u32,
        /// The texture to attach.
        texture: u32,
    },
    /// Create a render buffer.
    GenRenderbuffer,
    /// Delete a render buffer; unknown names are silently ignored.
    DeleteRenderbuffer {
        /// The object name.
        id: u32,
    },
    /// Draw one object.
    Draw(DrawParams),
    /// Clear the color buffer.
    Clear,
}

/// What a command evaluated to.
pub enum CmdResult {
    /// A fresh object name.
    NewId(u32),
    /// A shader stage compiled into this object.
    ShaderCompiled(u32),
    /// A shader stage failed to compile; the compiler's diagnostic text.
    ShaderError(String),
    /// A program linked into this object, with its reflected uniform table.
    ProgramLinked {
        /// The program object name.
        id: u32,
        /// The reflected uniforms: location, type and size of each, by name.
        uniforms: Vec<UniformDecl>,
    },
    /// A program failed to link; the linker's diagnostic text.
    LinkError(String),
    /// The texel bytes read back from a texture.
    TexData(Vec<u8>),
    /// The command completed with nothing to report.
    Done,
    /// The command violated an invariant of the server; the consumer thread
    /// dies with this diagnostic.
    Fatal(String),
}

/// Whether a command allocates a fresh object name.
pub open spec fn spec_cmd_allocates(cmd: GlCmd) -> bool {
    match cmd {
        GlCmd::GenBuffer { .. } => true,
        GlCmd::GenTexture { .. } => true,
        GlCmd::CompileShader { .. } => true,
        GlCmd::LinkProgram { .. } => true,
        GlCmd::GenFramebuffer => true,
        GlCmd::GenRenderbuffer => true,
        _ => false,
    }
}

/// Whether a command may sit in the queue unattended: it neither allocates,
/// nor produces a result a caller waits for, nor can it fail.  Deletion and
/// clear commands are the fire-and-forget commands of this library.
pub open spec fn spec_cmd_async_ok(cmd: GlCmd) -> bool {
    match cmd {
        GlCmd::DeleteBuffer { .. } => true,
        GlCmd::DeleteTexture { .. } => true,
        GlCmd::DeleteShader { .. } => true,
        GlCmd::DeleteFramebuffer { .. } => true,
        GlCmd::DeleteRenderbuffer { .. } => true,
        GlCmd::Clear => true,
        _ => false,
    }
}

/// The graphics server: object tables, the frame being composed, and the
/// finished frames.
pub struct GpuModel {
    /// The next object name to hand out; names start at 1.
    pub next_id: u32,
    /// The live server-side objects.
    pub objects: Vec<GpuObject>,
    /// The current viewport, if one was ever set.
    pub viewport: Option<(u32, u32)>,
    /// The draw calls of the frame being composed.
    pub current_draws: Vec<DrawRecord>,
    /// The clears applied in the frame being composed.
    pub current_clears: usize,
    /// The finished frames, oldest first; one is pushed per buffer swap.
    pub frames: Vec<FrameRecord>,
}

impl GpuModel {
    /// Object names are unique, positive, and below the allocation counter.
    pub open spec fn wf(self) -> bool {
        &&& self.next_id >= 1
        &&& forall|i: int|
            0 <= i < self.objects@.len() ==> 1 <= spec_obj_id(#[trigger] self.objects@[i])
                < self.next_id
        &&& forall|i: int, j: int|
            0 <= i < j < self.objects@.len() ==> spec_obj_id(#[trigger] self.objects@[i])
                != spec_obj_id(#[trigger] self.objects@[j])
    }

    /// A fresh, empty server.
    pub fn new() -> (r: GpuModel)
        ensures
            r.wf(),
            r.next_id == 1,
            r.objects@ == Seq::<GpuObject>::empty(),
            r.viewport is None,
            r.current_draws@ == Seq::<DrawRecord>::empty(),
            r.current_clears == 0,
            r.frames@ == Seq::<FrameRecord>::empty(),
    {
        GpuModel {
            next_id: 1,
            objects: Vec::new(),
            viewport: None,
            current_draws: Vec::new(),
            current_clears: 0,
            frames: Vec::new(),
        }
    }

    /// Records the window size as the viewport.
    pub fn set_viewport(&mut self, width: u32, height: u32)
        ensures
            *final(self) == (GpuModel { viewport: Some((width, height)), ..*old(self) }),
    {
        self.viewport = Some((width, height));
    }

    /// Finishes the frame being composed: pushes its record and starts the
    /// next one empty.  This is the server side of a buffer swap.
    pub fn end_frame(&mut self)
        ensures
            final(self).frames@ == old(self).frames@.push(
                FrameRecord {
                    draws: old(self).current_draws,
                    clears: old(self).current_clears,
                },
            ),
            final(self).current_draws@ == Seq::<DrawRecord>::empty(),
            final(self).current_clears == 0,
            final(self).next_id == old(self).next_id,
            final(self).objects == old(self).objects,
            final(self).viewport == old(self).viewport,
    {
        let mut draws: Vec<DrawRecord> = Vec::new();
        core::mem::swap(&mut draws, &mut self.current_draws);
        let clears = self.current_clears;
        self.current_clears = 0;
        self.frames.push(FrameRecord { draws, clears });
    }
}

/// Finds the index of the object with the given name.
pub fn find_object(objects: &Vec<GpuObject>, id: u32) -> (r: Option<usize>)
    ensures
        match r {
            Some(i) => spec_index_of(objects@, id) == i as int,
            None => spec_index_of(objects@, id) == -1,
        },
{
    let n = objects.len();
    let mut i: usize = 0;
    while i < n
        invariant
            n == objects@.len(),
            i <= n,
            forall|k: int| 0 <= k < i ==> spec_obj_id(#[trigger] objects@[k]) != id,
        decreases n - i,
    {
        let matches_here = match &objects[i] {
            GpuObject::Buffer { id: oid, .. } => *oid == id,
            GpuObject::Texture { id: oid, .. } => *oid == id,
            GpuObject::Shader { id: oid, .. } => *oid == id,
            GpuObject::Program { id: oid, .. } => *oid == id,
            GpuObject::Framebuffer { id: oid, .. } => *oid == id,
            GpuObject::Renderbuffer { id: oid } => *oid == id,
        };
        if matches_here {
            proof {
                lemma_index_of_skip(objects@, id, i as int);
                assert(objects@.skip(i as int)[0] == objects@[i as int]);
            }
            return Some(i);
        }
        i = i + 1;
    }
    proof {
        lemma_index_of_skip(objects@, id, n as int);
        assert(objects@.skip(n as int).len() == 0);
    }
    None
}

/// Whether the draw command can upload a uniform value of this type tag.
pub open spec fn spec_upload_supported(t: gl::GLenum) -> bool {
    t == gl::FLOAT || t == gl::FLOAT_MAT4
}

/// Whether every stored uniform value carries an uploadable type tag.
pub open spec fn spec_uniform_tags_ok(vals: Seq<(i32, gl::GLenum, Vec<u8>)>) -> bool {
    forall|i: int| 0 <= i < vals.len() ==> spec_upload_supported(#[trigger] vals[i].1)
}

/// Whether a component type tag is an integer type, which the draw command
/// does not support for vertex attributes.
pub open spec fn spec_is_int_attr_type(t: gl::GLenum) -> bool {
    t == gl::BYTE || t == gl::UNSIGNED_BYTE || t == gl::SHORT || t == gl::UNSIGNED_SHORT || t
        == gl::INT || t == gl::UNSIGNED_INT
}

/// The location of the first reflected attribute with the given name.
pub open spec fn spec_attr_lookup(attrs: Seq<AttribDecl>, name: Seq<u8>) -> Option<i32>
    decreases attrs.len(),
{
    if attrs.len() == 0 {
        None
    } else if attrs[0].name@ == name {
        Some(attrs[0].location)
    } else {
        spec_attr_lookup(attrs.drop_first(), name)
    }
}

/// Whether no binding-table entry that resolves to a program attribute has
/// an integer component type.
pub open spec fn spec_bindings_ok(bindings: Seq<VertexAttrib>, attrs: Seq<AttribDecl>) -> bool {
    forall|i: int|
        0 <= i < bindings.len() ==> (spec_attr_lookup(attrs, (#[trigger] bindings[i]).name@) is Some
            ==> !spec_is_int_attr_type(bindings[i].gltype))
}

/// The attribute locations the draw command enables: for each binding-table
/// entry, in order, the location its name resolves to, skipping names the
/// program does not declare.
pub open spec fn spec_enabled_locs(bindings: Seq<VertexAttrib>, attrs: Seq<AttribDecl>) -> Seq<i32>
    decreases bindings.len(),
{
    if bindings.len() == 0 {
        Seq::empty()
    } else {
        let rest = spec_enabled_locs(bindings.drop_last(), attrs);
        match spec_attr_lookup(attrs, bindings.last().name@) {
            Some(l) => rest.push(l),
            None => rest,
        }
    }
}

/// The reflected attributes of a program object (empty for any other kind).
pub open spec fn spec_program_attrs(o: GpuObject) -> Seq<AttribDecl> {
    match o {
        GpuObject::Program { attributes, .. } => attributes@,
        _ => Seq::empty(),
    }
}

/// Whether every listed object name exists and is a shader.
pub open spec fn spec_all_shaders(objects: Seq<GpuObject>, ids: Seq<u32>) -> bool {
    forall|i: int|
        0 <= i < ids.len() ==> spec_has_object(objects, #[trigger] ids[i]) && spec_object_of(
            objects,
            ids[i],
        ) is Shader
}

/// The source text of a shader object (empty for any other kind).
pub open spec fn spec_shader_source(objects: Seq<GpuObject>, id: u32) -> Seq<u8> {
    match spec_object_of(objects, id) {
        GpuObject::Shader { source, .. } => source@,
        _ => Seq::empty(),
    }
}

/// The interface declarations a linker reflects for a keyword: those of each
/// attached shader's source, in attachment order.
pub open spec fn spec_link_decls(objects: Seq<GpuObject>, ids: Seq<u32>, keyword: Seq<u8>) -> Seq<
    (Seq<u8>, gl::GLenum),
>
    decreases ids.len(),
{
    if ids.len() == 0 {
        Seq::empty()
    } else {
        spec_link_decls(objects, ids.drop_last(), keyword) + glsl::spec_reflect(
            spec_shader_source(objects, ids.last()),
            keyword,
        )
    }
}

/// Whether `t` is the uniform table of the declaration list `flat`: the
/// `i`-th declaration under location `i`, with size 1.
pub open spec fn spec_is_uniform_table(t: Seq<UniformDecl>, flat: Seq<(Seq<u8>, gl::GLenum)>) -> bool {
    &&& t.len() == flat.len()
    &&& forall|i: int|
        0 <= i < t.len() ==> (#[trigger] t[i]).name@ == flat[i].0 && t[i].location == i
            && t[i].gltype == flat[i].1 && t[i].size == 1
}

/// Whether `t` is the attribute table of the declaration list `flat`.
pub open spec fn spec_is_attr_table(t: Seq<AttribDecl>, flat: Seq<(Seq<u8>, gl::GLenum)>) -> bool {
    &&& t.len() == flat.len()
    &&& forall|i: int|
        0 <= i < t.len() ==> (#[trigger] t[i]).name@ == flat[i].0 && t[i].location == i
}

/// Everything outside the object table: viewport, the frame being composed,
/// and the finished frames.
pub open spec fn spec_frames_unchanged(a: GpuModel, b: GpuModel) -> bool {
    &&& a.viewport == b.viewport
    &&& a.current_draws == b.current_draws
    &&& a.current_clears == b.current_clears
    &&& a.frames == b.frames
}

/// The object-table discipline of `GpuModel::wf`, as a free predicate.
pub open spec fn spec_table_wf(objects: Seq<GpuObject>, next_id: u32) -> bool {
    &&& next_id >= 1
    &&& forall|i: int|
        0 <= i < objects.len() ==> 1 <= spec_obj_id(#[trigger] objects[i]) < next_id
    &&& forall|i: int, j: int|
        0 <= i < j < objects.len() ==> spec_obj_id(#[trigger] objects[i]) != spec_obj_id(
            #[trigger] objects[j],
        )
}

/// Appending an object under the fresh name keeps the table disciplined.
proof fn lemma_table_push_wf(objects: Seq<GpuObject>, next_id: u32, o: GpuObject)
    requires
        spec_table_wf(objects, next_id),
        spec_obj_id(o) == next_id,
        next_id < u32::MAX,
    ensures
        spec_table_wf(objects.push(o), (next_id + 1) as u32),
{
    assert forall|i: int, j: int| 0 <= i < j < objects.push(o).len() implies spec_obj_id(
        #[trigger] objects.push(o)[i],
    ) != spec_obj_id(#[trigger] objects.push(o)[j]) by {
        if j < objects.len() {
            assert(objects.push(o)[i] == objects[i]);
            assert(objects.push(o)[j] == objects[j]);
        } else {
            assert(objects.push(o)[i] == objects[i]);
            assert(objects.push(o)[j] == o);
        }
    }
}

/// Removing an object keeps the table disciplined.
proof fn lemma_table_remove_wf(objects: Seq<GpuObject>, next_id: u32, i: int)
    requires
        spec_table_wf(objects, next_id),
        0 <= i < objects.len(),
    ensures
        spec_table_wf(objects.remove(i), next_id),
{
    objects.remove_ensures(i);
    assert forall|a: int, b: int| 0 <= a < b < objects.remove(i).len() implies spec_obj_id(
        #[trigger] objects.remove(i)[a],
    ) != spec_obj_id(#[trigger] objects.remove(i)[b]) by {
        let ra = if a < i { a } else { a + 1 };
        let rb = if b < i { b } else { b + 1 };
        assert(objects.remove(i)[a] == objects[ra]);
        assert(objects.remove(i)[b] == objects[rb]);
    }
    assert forall|a: int| 0 <= a < objects.remove(i).len() implies 1 <= spec_obj_id(
        #[trigger] objects.remove(i)[a],
    ) < next_id by {
        let ra = if a < i { a } else { a + 1 };
        assert(objects.remove(i)[a] == objects[ra]);
    }
}

/// Looks up the location of a reflected attribute by name.
fn attr_lookup(attrs: &Vec<AttribDecl>, name: &[u8]) -> (r: Option<i32>)
    ensures
        r == spec_attr_lookup(attrs@, name@),
{
    let n = attrs.len();
    let mut i: usize = 0;
    proof {
        assert(attrs@.skip(0) =~= attrs@);
    }
    while i < n
        invariant
            n == attrs@.len(),
            i <= n,
            spec_attr_lookup(attrs@, name@) == spec_attr_lookup(attrs@.skip(i as int), name@),
        decreases n - i,
    {
        proof {
            assert(attrs@.skip(i as int)[0] == attrs@[i as int]);
        }
        if crate::bytes::bytes_eq(attrs[i].name.as_slice(), name) {
            return Some(attrs[i].location);
        }
        proof {
            assert(attrs@.skip(i as int).drop_first() =~= attrs@.skip(i + 1));
        }
        i = i + 1;
    }
    proof {
        assert(attrs@.skip(n as int).len() == 0);
    }
    None
}

/// Returns whether every stored uniform value carries an uploadable tag.
fn check_uniform_tags(vals: &Vec<(i32, gl::GLenum, Vec<u8>)>) -> (r: bool)
    ensures
        r == spec_uniform_tags_ok(vals@),
{
    let n = vals.len();
    let mut i: usize = 0;
    while i < n
        invariant
            n == vals@.len(),
            i <= n,
            forall|k: int| 0 <= k < i ==> spec_upload_supported(#[trigger] vals@[k].1),
        decreases n - i,
    {
        let tag = vals[i].1;
        if !(tag == gl::FLOAT || tag == gl::FLOAT_MAT4) {
            return false;
        }
        i = i + 1;
    }
    true
}

/// Resolves each binding-table entry against the program's attributes,
/// collecting the locations to enable; fails when a resolved entry has an
/// integer component type.
fn compute_enabled(bindings: &Vec<VertexAttrib>, attrs: &Vec<AttribDecl>) -> (r: Result<
    Vec<i32>,
    (),
>)
    ensures
        r is Ok <==> spec_bindings_ok(bindings@, attrs@),
        r matches Ok(v) ==> v@ == spec_enabled_locs(bindings@, attrs@),
{
    let n = bindings.len();
    let mut enabled: Vec<i32> = Vec::new();
    let mut i: usize = 0;
    proof {
        assert(bindings@.take(0) =~= Seq::<VertexAttrib>::empty());
    }
    while i < n
        invariant
            n == bindings@.len(),
            i <= n,
            enabled@ == spec_enabled_locs(bindings@.take(i as int), attrs@),
            forall|k: int|
                0 <= k < i ==> (spec_attr_lookup(attrs@, (#[trigger] bindings@[k]).name@) is Some
                    ==> !spec_is_int_attr_type(bindings@[k].gltype)),
        decreases n - i,
    {
        let entry_type = bindings[i].gltype;
        let looked = attr_lookup(attrs, bindings[i].name.as_slice());
        proof {
            assert(bindings@.take(i + 1).drop_last() =~= bindings@.take(i as int));
            assert(bindings@.take(i + 1).last() == bindings@[i as int]);
        }
        match looked {
            Some(loc) => {
                if entry_type == gl::BYTE || entry_type == gl::UNSIGNED_BYTE || entry_type
                    == gl::SHORT || entry_type == gl::UNSIGNED_SHORT || entry_type == gl::INT
                    || entry_type == gl::UNSIGNED_INT {
                    return Err(());
                }
                enabled.push(loc);
            },
            None => {},
        }
        i = i + 1;
    }
    proof {
        assert(bindings@.take(n as int) =~= bindings@);
    }
    Ok(enabled)
}

/// Appends reflected declarations to a uniform table, assigning the next
/// locations; fails without changing the table when locations would not fit.
fn append_uniform_decls(table: &mut Vec<UniformDecl>, decls: &Vec<(Vec<u8>, gl::GLenum)>) -> (ok:
    bool)
    ensures
        ok <==> old(table)@.len() + decls@.len() <= i32::MAX,
        !ok ==> *final(table) == *old(table),
        ok ==> {
            &&& final(table)@.len() == old(table)@.len() + decls@.len()
            &&& forall|k: int| 0 <= k < old(table)@.len() ==> final(table)@[k] == old(table)@[k]
            &&& forall|k: int|
                0 <= k < decls@.len() ==> {
                    let d = #[trigger] final(table)@[old(table)@.len() + k];
                    &&& d.name@ == decls@[k].0@
                    &&& d.location == old(table)@.len() + k
                    &&& d.gltype == decls@[k].1
                    &&& d.size == 1
                }
        },
{
    let n = decls.len();
    let base = table.len();
    if base > (i32::MAX as usize) {
        return false;
    }
    if n > (i32::MAX as usize) - base {
        return false;
    }
    let mut i: usize = 0;
    while i < n
        invariant
            n == decls@.len(),
            base == old(table)@.len(),
            base + n <= i32::MAX,
            i <= n,
            table@.len() == base + i,
            forall|k: int| 0 <= k < base ==> table@[k] == old(table)@[k],
            forall|k: int|
                0 <= k < i ==> {
                    let d = #[trigger] table@[base + k];
                    &&& d.name@ == decls@[k].0@
                    &&& d.location == base + k
                    &&& d.gltype == decls@[k].1
                    &&& d.size == 1
                },
        decreases n - i,
    {
        let name = copy_bytes(decls[i].0.as_slice());
        let location = (base + i) as i32;
        table.push(UniformDecl { name, location, gltype: decls[i].1, size: 1 });
        i = i + 1;
    }
    true
}

/// Appends reflected declarations to an attribute table, assigning the next
/// locations; fails without changing the table when locations would not fit.
fn append_attr_decls(table: &mut Vec<AttribDecl>, decls: &Vec<(Vec<u8>, gl::GLenum)>) -> (ok: bool)
    ensures
        ok <==> old(table)@.len() + decls@.len() <= i32::MAX,
        !ok ==> *final(table) == *old(table),
        ok ==> {
            &&& final(table)@.len() == old(table)@.len() + decls@.len()
            &&& forall|k: int| 0 <= k < old(table)@.len() ==> final(table)@[k] == old(table)@[k]
            &&& forall|k: int|
                0 <= k < decls@.len() ==> {
                    let d = #[trigger] final(table)@[old(table)@.len() + k];
                    &&& d.name@ == decls@[k].0@
                    &&& d.location == old(table)@.len() + k
                }
        },
{
    let n = decls.len();
    let base = table.len();
    if base > (i32::MAX as usize) {
        return false;
    }
    if n > (i32::MAX as usize) - base {
        return false;
    }
    let mut i: usize = 0;
    while i < n
        invariant
            n == decls@.len(),
            base == old(table)@.len(),
            base + n <= i32::MAX,
            i <= n,
            table@.len() == base + i,
            forall|k: int| 0 <= k < base ==> table@[k] == old(table)@[k],
            forall|k: int|
                0 <= k < i ==> {
                    let d = #[trigger] table@[base + k];
                    &&& d.name@ == decls@[k].0@
                    &&& d.location == base + k
                },
        decreases n - i,
    {
        let name = copy_bytes(decls[i].0.as_slice());
        let location = (base + i) as i32;
        table.push(AttribDecl { name, location });
        i = i + 1;
    }
    true
}

/// The linker table of the next prefix: one more shader's declarations.
proof fn lemma_link_decls_take_succ(
    objects: Seq<GpuObject>,
    ids: Seq<u32>,
    keyword: Seq<u8>,
    j: int,
)
    requires
        0 <= j < ids.len(),
    ensures
        spec_link_decls(objects, ids.take(j + 1), keyword) == spec_link_decls(
            objects,
            ids.take(j),
            keyword,
        ) + glsl::spec_reflect(spec_shader_source(objects, ids[j]), keyword),
{
    assert(ids.take(j + 1).drop_last() =~= ids.take(j));
    assert(ids.take(j + 1).last() == ids[j]);
}

/// A prefix of the attached shaders never reflects more declarations than
/// the whole list.
proof fn lemma_link_decls_prefix_le(objects: Seq<GpuObject>, ids: Seq<u32>, keyword: Seq<u8>, i: int)
    requires
        0 <= i <= ids.len(),
    ensures
        spec_link_decls(objects, ids.take(i), keyword).len() <= spec_link_decls(
            objects,
            ids,
            keyword,
        ).len(),
    decreases ids.len() - i,
{
    if i < ids.len() {
        lemma_link_decls_take_succ(objects, ids, keyword, i);
        lemma_link_decls_prefix_le(objects, ids, keyword, i + 1);
    } else {
        assert(ids.take(i) =~= ids);
    }
}

/// How appending an object moves the index of every name: names already
/// present keep their index, the new object's name is found at the end, and
/// absent names stay absent.
pub proof fn lemma_index_of_push(s: Seq<GpuObject>, o: GpuObject, id: u32)
    ensures
        spec_index_of(s.push(o), id) == if spec_index_of(s, id) >= 0 {
            spec_index_of(s, id)
        } else if spec_obj_id(o) == id {
            s.len() as int
        } else {
            -1
        },
    decreases s.len(),
{
    lemma_index_of_props(s, id);
    if s.len() == 0 {
        assert(s.push(o)[0] == o);
        assert(s.push(o).drop_first() =~= Seq::<GpuObject>::empty());
        assert(spec_index_of(Seq::<GpuObject>::empty(), id) == -1);
    } else {
        assert(s.push(o)[0] == s[0]);
        if spec_obj_id(s[0]) == id {
            assert(spec_index_of(s.push(o), id) == 0);
            assert(spec_index_of(s, id) == 0);
        }
        if spec_obj_id(s[0]) != id {
            lemma_index_of_push(s.drop_first(), o, id);
            assert(s.push(o).drop_first() =~= s.drop_first().push(o));
            lemma_index_of_props(s.drop_first(), id);
            let rec = spec_index_of(s.push(o).drop_first(), id);
            assert(rec == spec_index_of(s.drop_first().push(o), id));
            assert(spec_index_of(s.push(o), id) == if rec == -1 {
                -1int
            } else {
                rec + 1
            });
            assert(spec_index_of(s, id) == if spec_index_of(s.drop_first(), id) == -1 {
                -1int
            } else {
                spec_index_of(s.drop_first(), id) + 1
            });
        }
    }
}

/// Removing one object leaves every other name present with the same
/// object, and brings no name back.
pub proof fn lemma_remove_preserves_others(s: Seq<GpuObject>, next_id: u32, k: int, id: u32)
    requires
        spec_table_wf(s, next_id),
        0 <= k < s.len(),
        spec_obj_id(s[k]) != id,
    ensures
        spec_has_object(s.remove(k), id) == spec_has_object(s, id),
        spec_has_object(s, id) ==> spec_object_of(s.remove(k), id) == spec_object_of(s, id),
{
    s.remove_ensures(k);
    lemma_index_of_props(s, id);
    lemma_index_of_props(s.remove(k), id);
    if spec_has_object(s, id) {
        let i1 = spec_index_of(s, id);
        assert(i1 != k);
        let j = if i1 < k {
            i1
        } else {
            i1 - 1
        };
        assert(s.remove(k)[j] == s[i1]);
        assert(spec_index_of(s.remove(k), id) >= 0);
        let i2 = spec_index_of(s.remove(k), id);
        let ri = if i2 < k {
            i2
        } else {
            i2 + 1
        };
        assert(s.remove(k)[i2] == s[ri]);
        assert(spec_obj_id(s[ri]) == id);
        assert(ri == i1);
    } else {
        if spec_has_object(s.remove(k), id) {
            let i2 = spec_index_of(s.remove(k), id);
            let ri = if i2 < k {
                i2
            } else {
                i2 + 1
            };
            assert(s.remove(k)[i2] == s[ri]);
            assert(spec_obj_id(s[ri]) == id);
        }
    }
}

/// Replacing an object by one with the same name leaves the index of every
/// name unchanged.
pub proof fn lemma_index_of_update(s: Seq<GpuObject>, k: int, o: GpuObject, id: u32)
    requires
        0 <= k < s.len(),
        spec_obj_id(o) == spec_obj_id(s[k]),
    ensures
        spec_index_of(s.update(k, o), id) == spec_index_of(s, id),
    decreases s.len(),
{
    if s.len() > 0 {
        if k == 0 {
            assert(s.update(k, o)[0] == o);
            assert(s.update(k, o).drop_first() =~= s.drop_first());
        } else {
            assert(s.update(k, o)[0] == s[0]);
            assert(s.update(k, o).drop_first() =~= s.drop_first().update(k - 1, o));
            if spec_obj_id(s[0]) != id {
                lemma_index_of_update(s.drop_first(), k - 1, o, id);
            }
        }
    }
}

/// Applying a deletion (of `removed_id`, or of nothing) leaves every other
/// name present with the same object, and brings no name back.
pub proof fn lemma_delete_preserves(
    s: Seq<GpuObject>,
    next_id: u32,
    removed_id: u32,
    s2: Seq<GpuObject>,
    oid: u32,
)
    requires
        spec_table_wf(s, next_id),
        s2 == s || (spec_has_object(s, removed_id) && s2 == s.remove(
            spec_index_of(s, removed_id),
        )),
    ensures
        oid != removed_id && spec_has_object(s, oid) ==> spec_has_object(s2, oid)
            && spec_object_of(s2, oid) == spec_object_of(s, oid),
        spec_has_object(s2, oid) ==> spec_has_object(s, oid),
{
    if s2 == s {
    } else {
        let k = spec_index_of(s, removed_id);
        lemma_index_of_props(s, removed_id);
        if oid != removed_id {
            lemma_remove_preserves_others(s, next_id, k, oid);
        } else {
            if spec_has_object(s2, oid) {
                s.remove_ensures(k);
                lemma_index_of_props(s2, oid);
                let i2 = spec_index_of(s2, oid);
                let ri = if i2 < k {
                    i2
                } else {
                    i2 + 1
                };
                assert(s2[i2] == s[ri]);
                assert(spec_obj_id(s[ri]) == oid);
                lemma_index_of_props(s, oid);
            }
        }
    }
}

/// Two object tables that agree on every listed shader reflect the same
/// declarations for it.
pub proof fn lemma_link_decls_same(
    a: Seq<GpuObject>,
    b: Seq<GpuObject>,
    ids: Seq<u32>,
    keyword: Seq<u8>,
)
    requires
        forall|i: int|
            0 <= i < ids.len() ==> spec_has_object(a, #[trigger] ids[i]) && spec_has_object(
                b,
                ids[i],
            ) && spec_object_of(a, ids[i]) == spec_object_of(b, ids[i]),
    ensures
        spec_link_decls(a, ids, keyword) == spec_link_decls(b, ids, keyword),
    decreases ids.len(),
{
    if ids.len() > 0 {
        assert forall|i: int| 0 <= i < ids.drop_last().len() implies spec_has_object(
            a,
            #[trigger] ids.drop_last()[i],
        ) && spec_has_object(b, ids.drop_last()[i]) && spec_object_of(a, ids.drop_last()[i])
            == spec_object_of(b, ids.drop_last()[i]) by {
            assert(ids.drop_last()[i] == ids[i]);
        }
        lemma_link_decls_same(a, b, ids.drop_last(), keyword);
        assert(ids.last() == ids[ids.len() - 1]);
        assert(spec_shader_source(a, ids.last()) == spec_shader_source(b, ids.last()));
    }
}

/// Equal binding tables resolve equally against a program's attributes.
pub proof fn lemma_bindings_ok_eq(
    a: Seq<VertexAttrib>,
    b: Seq<VertexAttrib>,
    attrs: Seq<AttribDecl>,
)
    requires
        crate::vertex_format::spec_attribs_eq(a, b),
    ensures
        spec_bindings_ok(a, attrs) == spec_bindings_ok(b, attrs),
{
    if spec_bindings_ok(a, attrs) {
        assert forall|i: int|
            0 <= i < b.len() implies (spec_attr_lookup(attrs, (#[trigger] b[i]).name@) is Some
            ==> !spec_is_int_attr_type(b[i].gltype)) by {
            assert(a[i].name@ == b[i].name@ && a[i].gltype == b[i].gltype);
        }
    }
    if spec_bindings_ok(b, attrs) {
        assert forall|i: int|
            0 <= i < a.len() implies (spec_attr_lookup(attrs, (#[trigger] a[i]).name@) is Some
            ==> !spec_is_int_attr_type(a[i].gltype)) by {
            assert(a[i].name@ == b[i].name@ && a[i].gltype == b[i].gltype);
        }
    }
}

/// Equal binding tables enable the same attribute locations.
pub proof fn lemma_enabled_locs_eq(
    a: Seq<VertexAttrib>,
    b: Seq<VertexAttrib>,
    attrs: Seq<AttribDecl>,
)
    requires
        crate::vertex_format::spec_attribs_eq(a, b),
    ensures
        spec_enabled_locs(a, attrs) == spec_enabled_locs(b, attrs),
    decreases a.len(),
{
    if a.len() > 0 {
        assert forall|i: int| 0 <= i < a.drop_last().len() implies (
        #[trigger] a.drop_last()[i]).name@ == b.drop_last()[i].name@ && a.drop_last()[i].gltype
            == b.drop_last()[i].gltype && a.drop_last()[i].elems == b.drop_last()[i].elems
            && a.drop_last()[i].offset == b.drop_last()[i].offset by {
            assert(a.drop_last()[i] == a[i]);
            assert(b.drop_last()[i] == b[i]);
        }
        lemma_enabled_locs_eq(a.drop_last(), b.drop_last(), attrs);
        assert(a.last() == a[a.len() - 1]);
        assert(b.last() == b[b.len() - 1]);
        assert(a.last().name@ == b.last().name@);
    }
}

/// Returns the object name of a server-side object.
pub fn object_id(o: &GpuObject) -> (r: u32)
    ensures
        r == spec_obj_id(*o),
{
    match o {
        GpuObject::Buffer { id, .. } => *id,
        GpuObject::Texture { id, .. } => *id,
        GpuObject::Shader { id, .. } => *id,
        GpuObject::Program { id, .. } => *id,
        GpuObject::Framebuffer { id, .. } => *id,
        GpuObject::Renderbuffer { id } => *id,
    }
}

/// The texel bytes of a texture object (empty for any other kind).
pub open spec fn spec_texture_data(o: GpuObject) -> Seq<u8> {
    match o {
        GpuObject::Texture { data, .. } => data@,
        _ => Seq::empty(),
    }
}

/// How one command transforms the server and what it returns: the full
/// command semantics, shared by everything that applies commands.
pub open spec fn spec_cmd_post(pre: GpuModel, cmd: GlCmd, post: GpuModel, r: CmdResult) -> bool {
    &&& cmd matches GlCmd::GenBuffer { target, data } ==> {
                &&& r matches CmdResult::NewId(nid) && nid == pre.next_id
                &&& post.next_id == pre.next_id + 1
                &&& post.objects@ == pre.objects@.push(
                    GpuObject::Buffer { id: pre.next_id, target, data },
                )
                &&& spec_frames_unchanged(pre, post)
            }
    &&&             cmd matches GlCmd::GenTexture {
                bind_point,
                width,
                height,
                depth,
                array_size,
                format,
                data_type,
                unpack_alignment,
                data,
            } ==> {
                &&& r matches CmdResult::NewId(nid) && nid == pre.next_id
                &&& post.next_id == pre.next_id + 1
                &&& post.objects@ == pre.objects@.push(
                    GpuObject::Texture {
                        id: pre.next_id,
                        bind_point,
                        width,
                        height,
                        depth,
                        array_size,
                        format,
                        data_type,
                        unpack_alignment,
                        data,
                    },
                )
                &&& spec_frames_unchanged(pre, post)
            }
    &&&             cmd matches GlCmd::GenFramebuffer ==> {
                &&& r matches CmdResult::NewId(nid) && nid == pre.next_id
                &&& post.next_id == pre.next_id + 1
                &&& post.objects@ == pre.objects@.push(
                    GpuObject::Framebuffer { id: pre.next_id, attachment: None },
                )
                &&& spec_frames_unchanged(pre, post)
            }
    &&&             cmd matches GlCmd::GenRenderbuffer ==> {
                &&& r matches CmdResult::NewId(nid) && nid == pre.next_id
                &&& post.next_id == pre.next_id + 1
                &&& post.objects@ == pre.objects@.push(
                    GpuObject::Renderbuffer { id: pre.next_id },
                )
                &&& spec_frames_unchanged(pre, post)
            }
    &&&             cmd matches GlCmd::DeleteBuffer { id } ==> {
                &&& r is Done
                &&& post.next_id == pre.next_id
                &&& spec_frames_unchanged(pre, post)
                &&& post.objects@ == if spec_has_object(pre.objects@, id)
                    && spec_object_of(pre.objects@, id) is Buffer {
                    pre.objects@.remove(spec_index_of(pre.objects@, id))
                } else {
                    pre.objects@
                }
            }
    &&&             cmd matches GlCmd::DeleteTexture { id } ==> {
                &&& r is Done
                &&& post.next_id == pre.next_id
                &&& spec_frames_unchanged(pre, post)
                &&& post.objects@ == if spec_has_object(pre.objects@, id)
                    && spec_object_of(pre.objects@, id) is Texture {
                    pre.objects@.remove(spec_index_of(pre.objects@, id))
                } else {
                    pre.objects@
                }
            }
    &&&             cmd matches GlCmd::DeleteShader { id } ==> {
                &&& r is Done
                &&& post.next_id == pre.next_id
                &&& spec_frames_unchanged(pre, post)
                &&& post.objects@ == if spec_has_object(pre.objects@, id)
                    && spec_object_of(pre.objects@, id) is Shader {
                    pre.objects@.remove(spec_index_of(pre.objects@, id))
                } else {
                    pre.objects@
                }
            }
    &&&             cmd matches GlCmd::DeleteFramebuffer { id } ==> {
                &&& r is Done
                &&& post.next_id == pre.next_id
                &&& spec_frames_unchanged(pre, post)
                &&& post.objects@ == if spec_has_object(pre.objects@, id)
                    && spec_object_of(pre.objects@, id) is Framebuffer {
                    pre.objects@.remove(spec_index_of(pre.objects@, id))
                } else {
                    pre.objects@
                }
            }
    &&&             cmd matches GlCmd::DeleteRenderbuffer { id } ==> {
                &&& r is Done
                &&& post.next_id == pre.next_id
                &&& spec_frames_unchanged(pre, post)
                &&& post.objects@ == if spec_has_object(pre.objects@, id)
                    && spec_object_of(pre.objects@, id) is Renderbuffer {
                    pre.objects@.remove(spec_index_of(pre.objects@, id))
                } else {
                    pre.objects@
                }
            }
    &&&             cmd matches GlCmd::ReadTexture { id } ==> {
                &&& post == pre
                &&& if spec_has_object(pre.objects@, id) && spec_object_of(
                    pre.objects@,
                    id,
                ) is Texture {
                    r matches CmdResult::TexData(d) && d@ == spec_texture_data(
                        spec_object_of(pre.objects@, id),
                    )
                } else {
                    r matches CmdResult::Fatal(m) && m@ == "unknown texture object"@
                }
            }
    &&&             cmd matches GlCmd::CompileShader { stage, source } ==> {
                &&& spec_frames_unchanged(pre, post)
                &&& if source@.len() == 0 {
                    (r matches CmdResult::ShaderError(m) && m@
                        == "shader compilation failed: empty source"@) && post == pre
                } else {
                    &&& r matches CmdResult::ShaderCompiled(nid) && nid == pre.next_id
                    &&& post.next_id == pre.next_id + 1
                    &&& post.objects@ == pre.objects@.push(
                        GpuObject::Shader { id: pre.next_id, stage, source },
                    )
                }
            }
    &&&             cmd matches GlCmd::LinkProgram { shaders } ==> {
                &&& spec_frames_unchanged(pre, post)
                &&& {
                    let flat_u = spec_link_decls(
                        pre.objects@,
                        shaders@,
                        glsl::spec_keyword_uniform(),
                    );
                    let flat_a = spec_link_decls(
                        pre.objects@,
                        shaders@,
                        glsl::spec_keyword_attribute(),
                    );
                    if spec_all_shaders(pre.objects@, shaders@) && flat_u.len() <= i32::MAX
                        && flat_a.len() <= i32::MAX {
                        &&& r matches CmdResult::ProgramLinked { id: pid, uniforms: ut } && pid
                            == pre.next_id && spec_is_uniform_table(ut@, flat_u)
                        &&& post.next_id == pre.next_id + 1
                        &&& post.objects@.len() == pre.objects@.len() + 1
                        &&& post.objects@.drop_last() == pre.objects@
                        &&& post.objects@.last() matches GpuObject::Program {
                            id: pid2,
                            attributes: at,
                        } && pid2 == pre.next_id && spec_is_attr_table(at@, flat_a)
                    } else {
                        (r is LinkError) && post == pre
                    }
                }
            }
    &&&             cmd matches GlCmd::AttachTexture { fbo, texture } ==> {
                &&& post.next_id == pre.next_id
                &&& spec_frames_unchanged(pre, post)
                &&& if spec_has_object(pre.objects@, fbo) && spec_object_of(
                    pre.objects@,
                    fbo,
                ) is Framebuffer {
                    (r is Done) && post.objects@ == pre.objects@.update(
                        spec_index_of(pre.objects@, fbo),
                        GpuObject::Framebuffer { id: fbo, attachment: Some(texture) },
                    )
                } else {
                    (r matches CmdResult::Fatal(m) && m@ == "unknown framebuffer object"@)
                        && post.objects@ == pre.objects@
                }
            }
    &&&             cmd matches GlCmd::Draw(params) ==> {
                &&& post.objects == pre.objects
                &&& post.next_id == pre.next_id
                &&& post.viewport == pre.viewport
                &&& post.frames == pre.frames
                &&& post.current_clears == pre.current_clears
                &&& {
                    let prog_ok = spec_has_object(pre.objects@, params.program)
                        && spec_object_of(pre.objects@, params.program) is Program;
                    let attrs = spec_program_attrs(
                        spec_object_of(pre.objects@, params.program),
                    );
                    if !prog_ok {
                        (r matches CmdResult::Fatal(m) && m@ == "unknown program object"@)
                            && post.current_draws == pre.current_draws
                    } else if !spec_uniform_tags_ok(params.uniform_values@) {
                        (r matches CmdResult::Fatal(m) && m@
                            == "Loading uniforms for this type not implemented"@) && post.current_draws == pre.current_draws
                    } else if !spec_bindings_ok(params.bindings.entries@, attrs) {
                        (r matches CmdResult::Fatal(m) && m@ == "Not supported"@) && post.current_draws == pre.current_draws
                    } else {
                        &&& r is Done
                        &&& post.current_draws@.len() == pre.current_draws@.len() + 1
                        &&& post.current_draws@.drop_last() == pre.current_draws@
                        &&& {
                            let d = post.current_draws@.last();
                            &&& d.fbo == (match params.fbo {
                                Some(f) => f,
                                None => 0u32,
                            })
                            &&& d.depth_test == false
                            &&& d.blend == true
                            &&& d.blend_src == gl::SRC_ALPHA
                            &&& d.blend_dst == gl::ONE_MINUS_SRC_ALPHA
                            &&& d.program == params.program
                            &&& d.vertex_buffer == params.vertex_buffer
                            &&& d.index_buffer == params.index_buffer
                            &&& d.element_count == params.element_count
                            &&& d.index_type == params.index_type
                            &&& d.primitives == params.primitives
                            &&& d.uniform_values == params.uniform_values
                            &&& d.texture_bindings == params.uniform_textures
                            &&& d.enabled_attributes@ == spec_enabled_locs(
                                params.bindings.entries@,
                                attrs,
                            )
                        }
                    }
                }
            }
    &&&             cmd matches GlCmd::Clear ==> {
                &&& r is Done
                &&& post.objects == pre.objects
                &&& post.next_id == pre.next_id
                &&& post.viewport == pre.viewport
                &&& post.frames == pre.frames
                &&& post.current_draws == pre.current_draws
                &&& post.current_clears == if pre.current_clears < usize::MAX {
                    pre.current_clears + 1
                } else {
                    pre.current_clears as int
                }
            }
}

impl GpuModel {
    /// Applies one command to the server and returns its result.
    ///
    /// The model compiler accepts any non-empty source.  The model linker
    /// reflects the interface declarations of the attached shaders in
    /// attachment order and assigns locations in that order.  The draw
    /// command uploads float and 4x4-float-matrix uniform values and dies on
    /// any other stored tag, as it dies on an integer-typed vertex attribute
    /// that the program declares; a `Fatal` result is the death of the
    /// consumer thread.
    #[verifier::rlimit(100)]
    pub fn exec_cmd(&mut self, cmd: GlCmd) -> (r: CmdResult)
        requires
            old(self).wf(),
            spec_cmd_allocates(cmd) ==> old(self).next_id < u32::MAX,
        ensures
            final(self).wf(),
            final(self).next_id >= old(self).next_id,
            final(self).frames == old(self).frames,
            final(self).viewport == old(self).viewport,
            spec_cmd_post(*old(self), cmd, *final(self), r),
    {
        match cmd {
            GlCmd::GenBuffer { target, data } => {
                let id = self.next_id;
                let obj = GpuObject::Buffer { id, target, data };
                proof {
                    lemma_table_push_wf(self.objects@, self.next_id, obj);
                }
                self.objects.push(obj);
                self.next_id = id + 1;
                CmdResult::NewId(id)
            },
            GlCmd::GenTexture {
                bind_point,
                width,
                height,
                depth,
                array_size,
                format,
                data_type,
                unpack_alignment,
                data,
            } => {
                let id = self.next_id;
                let obj = GpuObject::Texture {
                    id,
                    bind_point,
                    width,
                    height,
                    depth,
                    array_size,
                    format,
                    data_type,
                    unpack_alignment,
                    data,
                };
                proof {
                    lemma_table_push_wf(self.objects@, self.next_id, obj);
                }
                self.objects.push(obj);
                self.next_id = id + 1;
                CmdResult::NewId(id)
            },
            GlCmd::GenFramebuffer => {
                let id = self.next_id;
                let obj = GpuObject::Framebuffer { id, attachment: None };
                proof {
                    lemma_table_push_wf(self.objects@, self.next_id, obj);
                }
                self.objects.push(obj);
                self.next_id = id + 1;
                CmdResult::NewId(id)
            },
            GlCmd::GenRenderbuffer => {
                let id = self.next_id;
                let obj = GpuObject::Renderbuffer { id };
                proof {
                    lemma_table_push_wf(self.objects@, self.next_id, obj);
                }
                self.objects.push(obj);
                self.next_id = id + 1;
                CmdResult::NewId(id)
            },
            GlCmd::DeleteBuffer { id } => {
                match find_object(&self.objects, id) {
                    Some(idx) => {
                        proof {
                            lemma_index_of_props(self.objects@, id);
                        }
                        let is_kind = matches!(&self.objects[idx], GpuObject::Buffer { .. });
                        if is_kind {
                            proof {
                                lemma_table_remove_wf(self.objects@, self.next_id, idx as int);
                            }
                            self.objects.remove(idx);
                        }
                    },
                    None => {
                        proof {
                            lemma_index_of_props(self.objects@, id);
                        }
                    },
                }
                CmdResult::Done
            },
            GlCmd::DeleteTexture { id } => {
                match find_object(&self.objects, id) {
                    Some(idx) => {
                        proof {
                            lemma_index_of_props(self.objects@, id);
                        }
                        let is_kind = matches!(&self.objects[idx], GpuObject::Texture { .. });
                        if is_kind {
                            proof {
                                lemma_table_remove_wf(self.objects@, self.next_id, idx as int);
                            }
                            self.objects.remove(idx);
                        }
                    },
                    None => {
                        proof {
                            lemma_index_of_props(self.objects@, id);
                        }
                    },
                }
                CmdResult::Done
            },
            GlCmd::DeleteShader { id } => {
                match find_object(&self.objects, id) {
                    Some(idx) => {
                        proof {
                            lemma_index_of_props(self.objects@, id);
                        }
                        let is_kind = matches!(&self.objects[idx], GpuObject::Shader { .. });
                        if is_kind {
                            proof {
                                lemma_table_remove_wf(self.objects@, self.next_id, idx as int);
                            }
                            self.objects.remove(idx);
                        }
                    },
                    None => {
                        proof {
                            lemma_index_of_props(self.objects@, id);
                        }
                    },
                }
                CmdResult::Done
            },
            GlCmd::DeleteFramebuffer { id } => {
                match find_object(&self.objects, id) {
                    Some(idx) => {
                        proof {
                            lemma_index_of_props(self.objects@, id);
                        }
                        let is_kind = matches!(&self.objects[idx], GpuObject::Framebuffer { .. });
                        if is_kind {
                            proof {
                                lemma_table_remove_wf(self.objects@, self.next_id, idx as int);
                            }
                            self.objects.remove(idx);
                        }
                    },
                    None => {
                        proof {
                            lemma_index_of_props(self.objects@, id);
                        }
                    },
                }
                CmdResult::Done
            },
            GlCmd::DeleteRenderbuffer { id } => {
                match find_object(&self.objects, id) {
                    Some(idx) => {
                        proof {
                            lemma_index_of_props(self.objects@, id);
                        }
                        let is_kind = matches!(&self.objects[idx], GpuObject::Renderbuffer { .. });
                        if is_kind {
                            proof {
                                lemma_table_remove_wf(self.objects@, self.next_id, idx as int);
                            }
                            self.objects.remove(idx);
                        }
                    },
                    None => {
                        proof {
                            lemma_index_of_props(self.objects@, id);
                        }
                    },
                }
                CmdResult::Done
            },
            GlCmd::ReadTexture { id } => {
                match find_object(&self.objects, id) {
                    Some(idx) => {
                        proof {
                            lemma_index_of_props(self.objects@, id);
                        }
                        match &self.objects[idx] {
                            GpuObject::Texture { data, .. } => CmdResult::TexData(
                                copy_bytes(data.as_slice()),
                            ),
                            _ => CmdResult::Fatal("unknown texture object".to_owned()),
                        }
                    },
                    None => {
                        proof {
                            lemma_index_of_props(self.objects@, id);
                        }
                        CmdResult::Fatal("unknown texture object".to_owned())
                    },
                }
            },
            GlCmd::CompileShader { stage, source } => {
                if source.len() == 0 {
                    CmdResult::ShaderError("shader compilation failed: empty source".to_owned())
                } else {
                    let id = self.next_id;
                    let obj = GpuObject::Shader { id, stage, source };
                    proof {
                        lemma_table_push_wf(self.objects@, self.next_id, obj);
                    }
                    self.objects.push(obj);
                    self.next_id = id + 1;
                    CmdResult::ShaderCompiled(id)
                }
            },
            GlCmd::LinkProgram { shaders } => self.link_program(shaders),
            GlCmd::AttachTexture { fbo, texture } => {
                match find_object(&self.objects, fbo) {
                    Some(idx) => {
                        proof {
                            lemma_index_of_props(self.objects@, fbo);
                        }
                        let is_kind = matches!(&self.objects[idx], GpuObject::Framebuffer { .. });
                        if is_kind {
                            let updated = GpuObject::Framebuffer {
                                id: fbo,
                                attachment: Some(texture),
                            };
                            proof {
                                lemma_table_update_wf(
                                    self.objects@,
                                    self.next_id,
                                    idx as int,
                                    updated,
                                );
                            }
                            self.objects[idx] = updated;
                            CmdResult::Done
                        } else {
                            CmdResult::Fatal("unknown framebuffer object".to_owned())
                        }
                    },
                    None => {
                        proof {
                            lemma_index_of_props(self.objects@, fbo);
                        }
                        CmdResult::Fatal("unknown framebuffer object".to_owned())
                    },
                }
            },
            GlCmd::Draw(params) => {
                let pidx = match find_object(&self.objects, params.program) {
                    Some(i) => {
                        proof {
                            lemma_index_of_props(self.objects@, params.program);
                        }
                        i
                    },
                    None => {
                        proof {
                            lemma_index_of_props(self.objects@, params.program);
                        }
                        return CmdResult::Fatal("unknown program object".to_owned());
                    },
                };
                let enabled_res = match &self.objects[pidx] {
                    GpuObject::Program { attributes, .. } => {
                        if !check_uniform_tags(&params.uniform_values) {
                            return CmdResult::Fatal(
                                "Loading uniforms for this type not implemented".to_owned(),
                            );
                        }
                        compute_enabled(&params.bindings.entries, attributes)
                    },
                    _ => {
                        return CmdResult::Fatal("unknown program object".to_owned());
                    },
                };
                let enabled = match enabled_res {
                    Ok(v) => v,
                    Err(()) => {
                        return CmdResult::Fatal("Not supported".to_owned());
                    },
                };
                let fbo_id = match params.fbo {
                    Some(f) => f,
                    None => 0,
                };
                let record = DrawRecord {
                    fbo: fbo_id,
                    depth_test: false,
                    blend: true,
                    blend_src: gl::SRC_ALPHA,
                    blend_dst: gl::ONE_MINUS_SRC_ALPHA,
                    program: params.program,
                    vertex_buffer: params.vertex_buffer,
                    index_buffer: params.index_buffer,
                    element_count: params.element_count,
                    index_type: params.index_type,
                    primitives: params.primitives,
                    uniform_values: params.uniform_values,
                    texture_bindings: params.uniform_textures,
                    enabled_attributes: enabled,
                };
                proof {
                    assert(self.current_draws@.push(record).drop_last() =~= self.current_draws@);
                }
                self.current_draws.push(record);
                CmdResult::Done
            },
            GlCmd::Clear => {
                if self.current_clears < usize::MAX {
                    self.current_clears = self.current_clears + 1;
                }
                CmdResult::Done
            },
        }
    }
}

/// Updating an object in place, keeping its name, keeps the table
/// disciplined.
proof fn lemma_table_update_wf(objects: Seq<GpuObject>, next_id: u32, i: int, o: GpuObject)
    requires
        spec_table_wf(objects, next_id),
        0 <= i < objects.len(),
        spec_obj_id(o) == spec_obj_id(objects[i]),
    ensures
        spec_table_wf(objects.update(i, o), next_id),
{
}

impl GpuModel {
    /// Links the given shaders: reflects their interface declarations in
    /// attachment order, assigns locations, and creates the program object.
    #[verifier::rlimit(100)]
    fn link_program(&mut self, shaders: Vec<u32>) -> (r: CmdResult)
        requires
            old(self).wf(),
            old(self).next_id < u32::MAX,
        ensures
            final(self).wf(),
            final(self).next_id >= old(self).next_id,
            spec_frames_unchanged(*old(self), *final(self)),
            ({
                let flat_u = spec_link_decls(
                    old(self).objects@,
                    shaders@,
                    glsl::spec_keyword_uniform(),
                );
                let flat_a = spec_link_decls(
                    old(self).objects@,
                    shaders@,
                    glsl::spec_keyword_attribute(),
                );
                if spec_all_shaders(old(self).objects@, shaders@) && flat_u.len() <= i32::MAX
                    && flat_a.len() <= i32::MAX {
                    &&& r matches CmdResult::ProgramLinked { id: pid, uniforms: ut } && pid == old(self).next_id && spec_is_uniform_table(ut@, flat_u)
                    &&& final(self).next_id == old(self).next_id + 1
                    &&& final(self).objects@.len() == old(self).objects@.len() + 1
                    &&& final(self).objects@.drop_last() == old(self).objects@
                    &&& final(self).objects@.last() matches GpuObject::Program {
                        id: pid2,
                        attributes: at,
                    } && pid2 == old(self).next_id && spec_is_attr_table(at@, flat_a)
                } else {
                    (r is LinkError) && *final(self) == *old(self)
                }
            }),
    {
        let kw_u = glsl::keyword_uniform();
        let kw_a = glsl::keyword_attribute();
        let mut uniforms: Vec<UniformDecl> = Vec::new();
        let mut attributes: Vec<AttribDecl> = Vec::new();
        let n = shaders.len();
        let mut i: usize = 0;
        proof {
            assert(shaders@.take(0) =~= Seq::<u32>::empty());
        }
        while i < n
            invariant
                old(self).wf(),
                *self == *old(self),
                n == shaders@.len(),
                i <= n,
                kw_u@ == glsl::spec_keyword_uniform(),
                kw_a@ == glsl::spec_keyword_attribute(),
                forall|k: int|
                    0 <= k < i ==> spec_has_object(self.objects@, #[trigger] shaders@[k])
                        && spec_object_of(self.objects@, shaders@[k]) is Shader,
                spec_is_uniform_table(
                    uniforms@,
                    spec_link_decls(
                        self.objects@,
                        shaders@.take(i as int),
                        glsl::spec_keyword_uniform(),
                    ),
                ),
                spec_is_attr_table(
                    attributes@,
                    spec_link_decls(
                        self.objects@,
                        shaders@.take(i as int),
                        glsl::spec_keyword_attribute(),
                    ),
                ),
                uniforms@.len() <= i32::MAX,
                attributes@.len() <= i32::MAX,
            decreases n - i,
        {
            let sid = shaders[i];
            let sidx = match find_object(&self.objects, sid) {
                Some(x) => {
                    proof {
                        lemma_index_of_props(self.objects@, sid);
                    }
                    x
                },
                None => {
                    proof {
                        lemma_index_of_props(self.objects@, sid);
                    }
                    return CmdResult::LinkError("unknown shader object".to_owned());
                },
            };
            let (u_decls, a_decls) = match &self.objects[sidx] {
                GpuObject::Shader { source, .. } => {
                    let u = glsl::reflect(source.as_slice(), kw_u.as_slice());
                    let a = glsl::reflect(source.as_slice(), kw_a.as_slice());
                    proof {
                        assert(spec_object_of(self.objects@, sid) == self.objects@[sidx as int]);
                        assert(spec_shader_source(self.objects@, sid) == source@);
                    }
                    (u, a)
                },
                _ => {
                    return CmdResult::LinkError("unknown shader object".to_owned());
                },
            };
            proof {
                lemma_link_decls_take_succ(
                    self.objects@,
                    shaders@,
                    glsl::spec_keyword_uniform(),
                    i as int,
                );
                lemma_link_decls_take_succ(
                    self.objects@,
                    shaders@,
                    glsl::spec_keyword_attribute(),
                    i as int,
                );
            }
            let ghost flat_u_i = spec_link_decls(
                self.objects@,
                shaders@.take(i as int),
                glsl::spec_keyword_uniform(),
            );
            let ghost flat_u_next = spec_link_decls(
                self.objects@,
                shaders@.take(i + 1),
                glsl::spec_keyword_uniform(),
            );
            let ghost flat_a_i = spec_link_decls(
                self.objects@,
                shaders@.take(i as int),
                glsl::spec_keyword_attribute(),
            );
            let ghost flat_a_next = spec_link_decls(
                self.objects@,
                shaders@.take(i + 1),
                glsl::spec_keyword_attribute(),
            );
            proof {
                assert(glsl::decl_views(u_decls@) == glsl::spec_reflect(
                    spec_shader_source(self.objects@, sid),
                    glsl::spec_keyword_uniform(),
                ));
                assert(glsl::decl_views(a_decls@) == glsl::spec_reflect(
                    spec_shader_source(self.objects@, sid),
                    glsl::spec_keyword_attribute(),
                ));
                assert(flat_u_next == flat_u_i + glsl::decl_views(u_decls@));
                assert(flat_a_next == flat_a_i + glsl::decl_views(a_decls@));
                assert(flat_u_next.len() == flat_u_i.len() + u_decls@.len());
                assert(flat_a_next.len() == flat_a_i.len() + a_decls@.len());
            }
            let ghost pre_uniforms = uniforms@;
            let ghost pre_attributes = attributes@;
            let ok_u = append_uniform_decls(&mut uniforms, &u_decls);
            if !ok_u {
                proof {
                    lemma_link_decls_prefix_le(
                        self.objects@,
                        shaders@,
                        glsl::spec_keyword_uniform(),
                        i + 1,
                    );
                }
                return CmdResult::LinkError("too many uniform declarations".to_owned());
            }
            let ok_a = append_attr_decls(&mut attributes, &a_decls);
            if !ok_a {
                proof {
                    lemma_link_decls_prefix_le(
                        self.objects@,
                        shaders@,
                        glsl::spec_keyword_attribute(),
                        i + 1,
                    );
                }
                return CmdResult::LinkError("too many attribute declarations".to_owned());
            }
            proof {
                assert(pre_uniforms.len() == flat_u_i.len());
                assert(uniforms@.len() == flat_u_next.len());
                assert forall|m: int| 0 <= m < uniforms@.len() implies {
                    let d = #[trigger] uniforms@[m];
                    &&& d.name@ == flat_u_next[m].0
                    &&& d.location == m
                    &&& d.gltype == flat_u_next[m].1
                    &&& d.size == 1
                } by {
                    if m < flat_u_i.len() {
                        assert(uniforms@[m] == pre_uniforms[m]);
                        assert(pre_uniforms[m].name@ == flat_u_i[m].0);
                        assert(flat_u_next[m] == flat_u_i[m]);
                    } else {
                        let k = m - flat_u_i.len();
                        assert(uniforms@[pre_uniforms.len() + k] == uniforms@[m]);
                        assert(flat_u_next[m] == glsl::decl_views(u_decls@)[k]);
                        assert(glsl::decl_views(u_decls@)[k] == (u_decls@[k].0@, u_decls@[k].1));
                    }
                }
                assert(pre_attributes.len() == flat_a_i.len());
                assert(attributes@.len() == flat_a_next.len());
                assert forall|m: int| 0 <= m < attributes@.len() implies {
                    let d = #[trigger] attributes@[m];
                    &&& d.name@ == flat_a_next[m].0
                    &&& d.location == m
                } by {
                    if m < flat_a_i.len() {
                        assert(attributes@[m] == pre_attributes[m]);
                        assert(pre_attributes[m].name@ == flat_a_i[m].0);
                        assert(flat_a_next[m] == flat_a_i[m]);
                    } else {
                        let k = m - flat_a_i.len();
                        assert(attributes@[pre_attributes.len() + k] == attributes@[m]);
                        assert(flat_a_next[m] == glsl::decl_views(a_decls@)[k]);
                        assert(glsl::decl_views(a_decls@)[k] == (a_decls@[k].0@, a_decls@[k].1));
                    }
                }
            }
            i = i + 1;
        }
        proof {
            assert(shaders@.take(n as int) =~= shaders@);
            assert(spec_all_shaders(self.objects@, shaders@));
        }
        let id = self.next_id;
        let obj = GpuObject::Program { id, attributes };
        proof {
            lemma_table_push_wf(self.objects@, self.next_id, obj);
            assert(self.objects@.push(obj).drop_last() =~= self.objects@);
        }
        self.objects.push(obj);
        self.next_id = id + 1;
        CmdResult::ProgramLinked { id, uniforms }
    }
}

} // verus!

//! Index buffers: lists of indices loaded in the graphics server's memory.

use vstd::prelude::*;

use crate::PrimitiveType;
use crate::data_types::GLDataType;
use crate::data_types::scalar_slice_bytes;
use crate::data_types::spec_scalar_seq_bytes;
use crate::display::Display;
use crate::display::ResourceKind;
use crate::gl;
use crate::gpu::CmdResult;
use crate::gpu::GlCmd;
use crate::gpu::GpuObject;
use crate::gpu::spec_has_object;
use crate::gpu::spec_object_of;
use crate::spec_primitive_gl_enum;

verus! {

/// A list of indices loaded in the graphics server's memory.
pub struct IndexBuffer {
    /// The server-side object name.
    pub id: u32,
    /// The number of indices in the buffer.
    pub elements_count: usize,
    /// The type tag of one index.
    pub data_type: gl::GLenum,
    /// The primitive topology the indices assemble.
    pub primitives: gl::GLenum,
}

/// This function is accessible from within the library but is of no use for
/// the user: it hands a draw command the buffer's identity and metadata.
pub fn get_clone(ib: &IndexBuffer) -> (r: (u32, usize, gl::GLenum, gl::GLenum))
    ensures
        r == (ib.id, ib.elements_count, ib.data_type, ib.primitives),
{
    (ib.id, ib.elements_count, ib.data_type, ib.primitives)
}

impl IndexBuffer {
    /// Builds a new index buffer from a primitive topology and a list of
    /// indices.  The indices are serialized and uploaded through exactly
    /// one synchronous command; the handle owns one reference to the
    /// created buffer.
    pub fn new<T: GLDataType>(display: &mut Display, prim: PrimitiveType, data: &[T]) -> (r:
        IndexBuffer)
        requires
            old(display).wf(),
            old(display).context.state is Running,
            old(display).context.next_ticket < u64::MAX,
            old(display).context.gpu.next_id < u32::MAX,
        ensures
            final(display).wf(),
            final(display).context.state is Running,
            r.id == old(display).context.gpu.next_id,
            r.elements_count == data@.len(),
            r.data_type == T::spec_gl_type(),
            r.primitives == spec_primitive_gl_enum(prim),
            final(display).spec_live(r.id),
            final(display).spec_count(r.id) == 1,
            final(display).spec_kind(r.id) == ResourceKind::Buffer,
            spec_has_object(final(display).context.gpu.objects@, r.id),
            spec_object_of(final(display).context.gpu.objects@, r.id)
                matches GpuObject::Buffer { id, target, data: stored } && id == r.id && target
                == gl::ELEMENT_ARRAY_BUFFER && stored@ == spec_scalar_seq_bytes(data@),
            final(display).context.gpu.next_id == old(display).context.gpu.next_id + 1,
            final(display).context.next_ticket == old(display).context.next_ticket + 1,
            final(display).retired == old(display).retired,
            final(display).delete_log == old(display).delete_log,
            forall|oid: u32|
                #[trigger] old(display).spec_live(oid) ==> final(display).spec_live(oid) && final(display).spec_count(oid) == old(display).spec_count(oid) && final(display).spec_kind(oid)
                    == old(display).spec_kind(oid),
            forall|oid: u32|
                #[trigger] old(display).spec_live(oid) ==> spec_object_of(
                    final(display).context.gpu.objects@,
                    oid,
                ) == spec_object_of(old(display).context.gpu.objects@, oid) && spec_has_object(
                    final(display).context.gpu.objects@,
                    oid,
                ),
    {
        let bytes = scalar_slice_bytes(data);
        let res = display.submit(GlCmd::GenBuffer { target: gl::ELEMENT_ARRAY_BUFFER, data: bytes });
        let id = match res {
            CmdResult::NewId(id) => id,
            _ => {
                proof {
                    assert(false);
                }
                0
            },
        };
        let ghost mid = *display;
        display.insert_resource(id, ResourceKind::Buffer);
        proof {
            assert forall|oid: u32| old(display).spec_live(oid) implies display.spec_live(oid)
                && display.spec_count(oid) == old(display).spec_count(oid) && display.spec_kind(
                oid,
            ) == old(display).spec_kind(oid) by {
                assert(mid.spec_live(oid));
                assert(oid != id);
                assert(display.spec_live(oid));
            }
        }
        IndexBuffer {
            id,
            elements_count: data.len(),
            data_type: T::static_gl_type(),
            primitives: prim.get_gl_enum(),
        }
    }

    /// Releases this handle's reference to the buffer.  Releasing the last
    /// reference enqueues exactly one deletion command, fire and forget.
    pub fn release(self, display: &mut Display)
        requires
            old(display).wf(),
            old(display).spec_live(self.id),
            old(display).context.next_ticket < u64::MAX,
        ensures
            final(display).wf(),
            old(display).spec_count(self.id) == 1 ==> !final(display).spec_live(self.id) && final(display).spec_retired(self.id) && crate::display::spec_count_of(
                final(display).delete_log@,
                self.id,
            ) == 1,
            old(display).spec_count(self.id) > 1 ==> final(display).spec_live(self.id) && final(display).spec_count(self.id) == old(display).spec_count(self.id) - 1,
            forall|oid: u32|
                oid != self.id ==> (old(display).spec_live(oid) <==> final(display).spec_live(oid)),
            final(display).context.gpu == old(display).context.gpu,
            final(display).context.state == old(display).context.state,
    {
        display.release_resource(self.id);
    }
}

} // verus!

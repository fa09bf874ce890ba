//! Vertex buffers: typed vertex records loaded in the graphics server's
//! memory, together with the binding table of their shape.

use vstd::prelude::*;

use crate::display::Display;
use crate::display::ResourceKind;
use crate::gl;
use crate::gpu::CmdResult;
use crate::gpu::GlCmd;
use crate::gpu::GpuObject;
use crate::gpu::spec_has_object;
use crate::gpu::spec_object_of;
use crate::vertex_format::VertexAttrib;
use crate::vertex_format::VertexBindings;

verus! {

/// A vertex shape: a record type with a fixed byte layout and a binding
/// table declared once for the whole shape.
pub trait VertexFormat: Sized + Copy {
    /// The byte stride of one record.
    spec fn spec_stride() -> nat;

    /// The byte encoding of one record.
    spec fn spec_to_bytes(self) -> Seq<u8>;

    /// The encoding is always exactly one stride long.
    proof fn lemma_bytes_len(self)
        ensures
            self.spec_to_bytes().len() == Self::spec_stride(),
    ;

    /// Appends the byte encoding of this record.
    fn push_bytes(&self, out: &mut Vec<u8>)
        ensures
            final(out)@ == old(out)@ + self.spec_to_bytes(),
    ;

    /// Builds the binding table of the shape, with consistent offsets and
    /// the shape's stride.
    fn build_bindings() -> (r: VertexBindings)
        ensures
            r.wf(),
            r.stride == Self::spec_stride(),
    ;
}

/// The concatenated byte encoding of a sequence of vertex records.
pub open spec fn spec_vertex_seq_bytes<T: VertexFormat>(s: Seq<T>) -> Seq<u8>
    decreases s.len(),
{
    if s.len() == 0 {
        Seq::empty()
    } else {
        spec_vertex_seq_bytes(s.drop_last()) + s.last().spec_to_bytes()
    }
}

/// Copies a binding table.
pub fn copy_bindings(b: &VertexBindings) -> (r: VertexBindings)
    ensures
        crate::vertex_format::spec_attribs_eq(r.entries@, b.entries@),
        r.stride == b.stride,
{
    let n = b.entries.len();
    let mut entries: Vec<VertexAttrib> = Vec::new();
    let mut i: usize = 0;
    while i < n
        invariant
            n == b.entries@.len(),
            i <= n,
            entries@.len() == i,
            forall|k: int|
                0 <= k < i ==> (#[trigger] entries@[k]).name@ == b.entries@[k].name@
                    && entries@[k].gltype == b.entries@[k].gltype && entries@[k].elems
                    == b.entries@[k].elems && entries@[k].offset == b.entries@[k].offset,
        decreases n - i,
    {
        let name = crate::bytes::copy_bytes(b.entries[i].name.as_slice());
        entries.push(
            VertexAttrib {
                name,
                gltype: b.entries[i].gltype,
                elems: b.entries[i].elems,
                offset: b.entries[i].offset,
            },
        );
        i = i + 1;
    }
    VertexBindings { entries, stride: b.stride }
}

/// A list of vertex records loaded in the graphics server's memory.
pub struct VertexBuffer {
    /// The server-side object name.
    pub id: u32,
    /// The byte stride of one vertex record.
    pub elements_size: usize,
    /// The binding table of the shape.
    pub bindings: VertexBindings,
}

impl VertexBuffer {
    /// Builds a new vertex buffer from a list of typed vertex records: the
    /// shape's binding table is built once and the records are serialized
    /// and uploaded through exactly one synchronous command.
    pub fn new<T: VertexFormat>(display: &mut Display, data: Vec<T>) -> (r: VertexBuffer)
        requires
            old(display).wf(),
            old(display).context.state is Running,
            old(display).context.next_ticket < u64::MAX,
            old(display).context.gpu.next_id < u32::MAX,
        ensures
            final(display).wf(),
            final(display).context.state is Running,
            r.id == old(display).context.gpu.next_id,
            r.elements_size == T::spec_stride(),
            r.bindings.wf(),
            final(display).spec_live(r.id),
            final(display).spec_count(r.id) == 1,
            final(display).spec_kind(r.id) == ResourceKind::Buffer,
            spec_has_object(final(display).context.gpu.objects@, r.id),
            spec_object_of(final(display).context.gpu.objects@, r.id)
                matches GpuObject::Buffer { id, target, data: stored } && id == r.id && target
                == gl::ARRAY_BUFFER && stored@ == spec_vertex_seq_bytes(data@),
            forall|oid: u32|
                #[trigger] old(display).spec_live(oid) ==> final(display).spec_live(oid) && final(display).spec_count(oid) == old(display).spec_count(oid) && final(display).spec_kind(oid)
                    == old(display).spec_kind(oid),
            forall|oid: u32|
                #[trigger] old(display).spec_live(oid) ==> spec_has_object(
                    final(display).context.gpu.objects@,
                    oid,
                ) && spec_object_of(final(display).context.gpu.objects@, oid) == spec_object_of(
                    old(display).context.gpu.objects@,
                    oid,
                ),
    {
        let n = data.len();
        let mut bytes: Vec<u8> = Vec::new();
        let mut i: usize = 0;
        proof {
            assert(data@.take(0) =~= Seq::<T>::empty());
        }
        while i < n
            invariant
                n == data@.len(),
                i <= n,
                bytes@ == spec_vertex_seq_bytes(data@.take(i as int)),
            decreases n - i,
        {
            data[i].push_bytes(&mut bytes);
            proof {
                assert(data@.take(i + 1).drop_last() =~= data@.take(i as int));
                assert(data@.take(i + 1).last() == data@[i as int]);
            }
            i = i + 1;
        }
        proof {
            assert(data@.take(n as int) =~= data@);
        }
        let bindings = T::build_bindings();
        let stride = bindings.stride;
        let res = display.submit(GlCmd::GenBuffer { target: gl::ARRAY_BUFFER, data: bytes });
        let id = match res {
            CmdResult::NewId(id) => id,
            _ => {
                proof {
                    assert(false);
                }
                0
            },
        };
        let ghost mid = *display;
        display.insert_resource(id, ResourceKind::Buffer);
        proof {
            assert forall|oid: u32| old(display).spec_live(oid) implies display.spec_live(oid)
                && display.spec_count(oid) == old(display).spec_count(oid) && display.spec_kind(
                oid,
            ) == old(display).spec_kind(oid) by {
                assert(mid.spec_live(oid));
                assert(oid != id);
                assert(display.spec_live(oid));
            }
        }
        VertexBuffer { id, elements_size: stride, bindings }
    }

    /// Builds a new vertex buffer from already-serialized vertex bytes and
    /// an explicitly declared binding table, whose stride is the byte size
    /// of one record.
    pub fn new_raw(display: &mut Display, data: Vec<u8>, bindings: VertexBindings) -> (r:
        VertexBuffer)
        requires
            old(display).wf(),
            old(display).context.state is Running,
            old(display).context.next_ticket < u64::MAX,
            old(display).context.gpu.next_id < u32::MAX,
            bindings.wf(),
        ensures
            final(display).wf(),
            final(display).context.state is Running,
            r.id == old(display).context.gpu.next_id,
            r.elements_size == bindings.stride,
            r.bindings == bindings,
            r.bindings.wf(),
            final(display).spec_live(r.id),
            final(display).spec_count(r.id) == 1,
            final(display).spec_kind(r.id) == ResourceKind::Buffer,
            spec_has_object(final(display).context.gpu.objects@, r.id),
            spec_object_of(final(display).context.gpu.objects@, r.id)
                matches GpuObject::Buffer { id, target, data: stored } && id == r.id && target
                == gl::ARRAY_BUFFER && stored@ == data@,
            forall|oid: u32|
                #[trigger] old(display).spec_live(oid) ==> final(display).spec_live(oid) && final(display).spec_count(oid) == old(display).spec_count(oid) && final(display).spec_kind(oid)
                    == old(display).spec_kind(oid),
            forall|oid: u32|
                #[trigger] old(display).spec_live(oid) ==> spec_has_object(
                    final(display).context.gpu.objects@,
                    oid,
                ) && spec_object_of(final(display).context.gpu.objects@, oid) == spec_object_of(
                    old(display).context.gpu.objects@,
                    oid,
                ),
    {
        let stride = bindings.stride;
        let res = display.submit(GlCmd::GenBuffer { target: gl::ARRAY_BUFFER, data });
        let id = match res {
            CmdResult::NewId(id) => id,
            _ => {
                proof {
                    assert(false);
                }
                0
            },
        };
        let ghost mid = *display;
        display.insert_resource(id, ResourceKind::Buffer);
        proof {
            assert forall|oid: u32| old(display).spec_live(oid) implies display.spec_live(oid)
                && display.spec_count(oid) == old(display).spec_count(oid) && display.spec_kind(
                oid,
            ) == old(display).spec_kind(oid) by {
                assert(mid.spec_live(oid));
                assert(oid != id);
                assert(display.spec_live(oid));
            }
        }
        VertexBuffer { id, elements_size: stride, bindings }
    }

    /// Releases this handle's reference to the buffer.  Releasing the last
    /// reference enqueues exactly one deletion command, fire and forget.
    pub fn release(self, display: &mut Display)
        requires
            old(display).wf(),
            old(display).spec_live(self.id),
            old(display).context.next_ticket < u64::MAX,
        ensures
            final(display).wf(),
            old(display).spec_count(self.id) == 1 ==> !final(display).spec_live(self.id) && final(display).spec_retired(self.id) && crate::display::spec_count_of(
                final(display).delete_log@,
                self.id,
            ) == 1,
            old(display).spec_count(self.id) > 1 ==> final(display).spec_live(self.id) && final(display).spec_count(self.id) == old(display).spec_count(self.id) - 1,
            forall|oid: u32|
                oid != self.id ==> (old(display).spec_live(oid) <==> final(display).spec_live(oid)),
            final(display).context.gpu == old(display).context.gpu,
            final(display).context.state == old(display).context.state,
    {
        display.release_resource(self.id);
    }
}

/// A ready-made vertex shape: one two-component float position, bound
/// under the attribute name `iPosition`.  Components are carried as raw
/// IEEE-754 bit patterns, like every float in this library.
#[derive(Clone, Copy, PartialEq, Eq, Structural, Debug)]
pub struct PositionVertex {
    /// The bit pattern of the x coordinate.
    pub x_bits: u32,
    /// The bit pattern of the y coordinate.
    pub y_bits: u32,
}

impl VertexFormat for PositionVertex {
    open spec fn spec_stride() -> nat {
        8
    }

    open spec fn spec_to_bytes(self) -> Seq<u8> {
        crate::data_types::spec_le_bytes_u32(self.x_bits) + crate::data_types::spec_le_bytes_u32(
            self.y_bits,
        )
    }

    proof fn lemma_bytes_len(self) {
    }

    fn push_bytes(&self, out: &mut Vec<u8>) {
        crate::data_types::push_le_bytes_u32(out, self.x_bits);
        crate::data_types::push_le_bytes_u32(out, self.y_bits);
    }

    fn build_bindings() -> (r: VertexBindings) {
        let mut b = crate::vertex_format::VertexFormatBuilder::new();
        let added = b.add_field(crate::position_attribute_name(), crate::gl::FLOAT, 2);
        proof {
            assert(added is Ok);
        }
        b.build()
    }
}

} // verus!

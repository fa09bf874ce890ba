//! Per-vertex-shape binding tables.
//!
//! A binding table maps each attribute of a vertex record to its component
//! type tag, component count and byte offset within one record, together
//! with the record's total byte stride.  It is declared once per vertex
//! shape through [`VertexFormatBuilder`] and reused for every buffer of that
//! shape: offsets are assigned by accumulating the byte sizes of the fields
//! in declaration order.

use vstd::prelude::*;

use crate::gl;

verus! {

/// One attribute of a vertex record.
pub struct VertexAttrib {
    /// The attribute name, as looked up in the compiled program.
    pub name: Vec<u8>,
    /// The component type tag.
    pub gltype: gl::GLenum,
    /// The number of components.
    pub elems: u32,
    /// The byte offset of the attribute within one vertex record.
    pub offset: usize,
}

/// The binding table of one vertex shape.
pub struct VertexBindings {
    /// The attributes, in declaration order.
    pub entries: Vec<VertexAttrib>,
    /// The byte stride of one vertex record: the sum of all field sizes.
    pub stride: usize,
}

/// The byte width of one component of the given type tag, or 0 for a tag
/// that cannot appear in a vertex record.
pub open spec fn spec_component_size(t: gl::GLenum) -> nat {
    if t == gl::BYTE || t == gl::UNSIGNED_BYTE {
        1
    } else if t == gl::SHORT || t == gl::UNSIGNED_SHORT {
        2
    } else if t == gl::FLOAT || t == gl::INT || t == gl::UNSIGNED_INT {
        4
    } else if t == gl::DOUBLE {
        8
    } else {
        0
    }
}

/// Returns the byte width of one component of the given type tag.
pub fn component_size(t: gl::GLenum) -> (r: usize)
    ensures
        r == spec_component_size(t),
{
    if t == gl::BYTE || t == gl::UNSIGNED_BYTE {
        1
    } else if t == gl::SHORT || t == gl::UNSIGNED_SHORT {
        2
    } else if t == gl::FLOAT || t == gl::INT || t == gl::UNSIGNED_INT {
        4
    } else if t == gl::DOUBLE {
        8
    } else {
        0
    }
}

impl VertexBindings {
    /// A binding table is well formed when its offsets are consistent: each
    /// field starts where the previous one ended, the first at offset 0, and
    /// the stride is the end of the last field.
    pub open spec fn wf(self) -> bool {
        &&& forall|i: int|
            0 <= i < self.entries@.len() ==> spec_component_size(#[trigger] self.entries@[i].gltype)
                > 0
        &&& forall|i: int|
            0 <= i < self.entries@.len() ==> (#[trigger] self.entries@[i].offset) == spec_offset_at(
                self.entries@,
                i,
            )
        &&& self.stride == spec_offset_at(self.entries@, self.entries@.len() as int)
    }
}

/// The byte size of one attribute: component count times component width.
pub open spec fn spec_attrib_size(a: VertexAttrib) -> nat {
    (a.elems * spec_component_size(a.gltype)) as nat
}

/// The byte offset of the `i`-th attribute: the sum of the sizes of the
/// attributes before it.
pub open spec fn spec_offset_at(entries: Seq<VertexAttrib>, i: int) -> nat
    decreases i,
{
    if i <= 0 {
        0
    } else {
        spec_offset_at(entries, i - 1) + spec_attrib_size(entries[i - 1])
    }
}

/// Declares the attributes of one vertex shape, in field order, and assigns
/// their byte offsets.
pub struct VertexFormatBuilder {
    /// The attributes declared so far.
    pub entries: Vec<VertexAttrib>,
    /// The byte offset where the next attribute starts.
    pub offset: usize,
}

impl VertexFormatBuilder {
    /// The attributes declared so far.
    pub open spec fn spec_entries(self) -> Seq<VertexAttrib> {
        self.entries@
    }

    /// The byte offset where the next attribute would start.
    pub open spec fn spec_offset(self) -> usize {
        self.offset
    }

    /// The builder state is well formed under the same offset discipline as
    /// the finished table.
    pub open spec fn wf(self) -> bool {
        &&& forall|i: int|
            0 <= i < self.entries@.len() ==> spec_component_size(#[trigger] self.entries@[i].gltype)
                > 0
        &&& forall|i: int|
            0 <= i < self.entries@.len() ==> (#[trigger] self.entries@[i].offset) == spec_offset_at(
                self.entries@,
                i,
            )
        &&& self.offset == spec_offset_at(self.entries@, self.entries@.len() as int)
    }

    /// Starts a new vertex shape with no attributes.
    pub fn new() -> (r: VertexFormatBuilder)
        ensures
            r.wf(),
            r.spec_entries() == Seq::<VertexAttrib>::empty(),
            r.spec_offset() == 0,
    {
        VertexFormatBuilder { entries: Vec::new(), offset: 0 }
    }

    /// Declares the next attribute: `elems` components of the scalar type
    /// `gltype`.  Its offset is the end of the previous attribute.
    pub fn add_field(&mut self, name: Vec<u8>, gltype: gl::GLenum, elems: u32) -> (r: Result<
        (),
        (),
    >)
        requires
            old(self).wf(),
        ensures
            final(self).wf(),
            r is Ok <==> (spec_component_size(gltype) > 0 && old(self).spec_offset() + elems
                * spec_component_size(gltype) <= usize::MAX),
            r is Ok ==> final(self).spec_entries() == old(self).spec_entries().push(
                VertexAttrib {
                    name: name,
                    gltype: gltype,
                    elems: elems,
                    offset: old(self).spec_offset(),
                },
            ) && final(self).spec_offset() == old(self).spec_offset() + elems
                * spec_component_size(gltype),
            r is Err ==> *final(self) == *old(self),
    {
        let csize = component_size(gltype);
        if csize == 0 {
            return Err(());
        }
        let field_size = (elems as usize).checked_mul(csize);
        let total = match field_size {
            Some(fs) => self.offset.checked_add(fs),
            None => None,
        };
        match total {
            Some(t) => {
                let entry = VertexAttrib { name, gltype, elems, offset: self.offset };
                proof {
                    let new_entries = self.entries@.push(entry);
                    assert(new_entries.drop_last() =~= self.entries@);
                    assert forall|i: int| 0 <= i < new_entries.len() implies (
                    #[trigger] new_entries[i].offset) == spec_offset_at(new_entries, i) by {
                        lemma_offset_at_push(self.entries@, entry, i);
                    }
                    lemma_offset_at_push(self.entries@, entry, new_entries.len() as int);
                }
                self.entries.push(entry);
                self.offset = t;
                Ok(())
            },
            None => Err(()),
        }
    }

    /// Finishes the declaration, yielding the binding table.  The stride of
    /// the table is the total byte size of one vertex record.
    pub fn build(self) -> (r: VertexBindings)
        requires
            self.wf(),
        ensures
            r.wf(),
            r.entries@ == self.spec_entries(),
            r.stride == self.spec_offset(),
    {
        VertexBindings { entries: self.entries, stride: self.offset }
    }
}

/// Appending an attribute does not change the offsets already assigned.
proof fn lemma_offset_at_push(entries: Seq<VertexAttrib>, entry: VertexAttrib, i: int)
    requires
        0 <= i <= entries.len() + 1,
    ensures
        i <= entries.len() ==> spec_offset_at(entries.push(entry), i) == spec_offset_at(entries, i),
        i == entries.len() + 1 ==> spec_offset_at(entries.push(entry), i) == spec_offset_at(
            entries,
            entries.len() as int,
        ) + spec_attrib_size(entry),
    decreases i,
{
    if i > 0 {
        lemma_offset_at_push(entries, entry, i - 1);
        if i <= entries.len() {
            assert(entries.push(entry)[i - 1] == entries[i - 1]);
        } else {
            assert(entries.push(entry)[i - 1] == entry);
        }
    }
}

/// Whether two binding tables declare the same attributes.
pub open spec fn spec_attribs_eq(a: Seq<VertexAttrib>, b: Seq<VertexAttrib>) -> bool {
    &&& a.len() == b.len()
    &&& forall|i: int|
        0 <= i < a.len() ==> (#[trigger] a[i]).name@ == b[i].name@ && a[i].gltype == b[i].gltype
            && a[i].elems == b[i].elems && a[i].offset == b[i].offset
}

} // verus!

//! Buffer layout descriptions for record types that are uploaded to the GPU.
//!
//! A record type describes itself once, as a constant table: the stride
//! between consecutive records, how often the GPU steps to the next record,
//! and for each field its byte offset, numeric format and shader input slot.

use vstd::prelude::*;

verus! {

/// Numeric format of one attribute as the shader sees it.
#[derive(Clone, Copy, Debug, PartialEq, Eq, Structural)]
pub enum VertexFormat {
    /// Three 32-bit floats.
    Float32x3,
    /// Four 32-bit floats.
    Float32x4,
}

/// How often the GPU advances to the next record of a buffer.
#[derive(Clone, Copy, Debug, PartialEq, Eq, Structural)]
pub enum VertexStepMode {
    /// One record per vertex.
    Vertex,
    /// One record per instance.
    Instance,
}

/// One field of a record, as bound to a shader input.
#[derive(Clone, Copy, Debug, PartialEq, Eq, Structural)]
pub struct VertexAttribute {
    pub format: VertexFormat,
    /// Byte offset of the field from the start of the record.
    pub offset: u64,
    /// Shader input slot that the field is bound to.
    pub shader_location: u32,
}

/// The layout of one buffer: a stride, a step rate and the fields of a record.
#[derive(Debug)]
pub struct VertexBufferLayout {
    /// Distance in bytes between the starts of two consecutive records.
    pub array_stride: u64,
    pub step_mode: VertexStepMode,
    pub attributes: Vec<VertexAttribute>,
}

/// Mathematical model of a [`VertexBufferLayout`].
pub struct LayoutView {
    pub array_stride: nat,
    pub step_mode: VertexStepMode,
    pub attributes: Seq<VertexAttribute>,
}

impl VertexFormat {
    /// Number of bytes that a value of this format occupies.
    pub open spec fn size(self) -> nat {
        match self {
            VertexFormat::Float32x3 => 12,
            VertexFormat::Float32x4 => 16,
        }
    }
}

impl VertexAttribute {
    /// First byte after the field, counted from the start of the record.
    pub open spec fn end(self) -> nat {
        self.offset as nat + self.format.size()
    }
}

impl LayoutView {
    /// Every field lies inside one record.
    pub open spec fn fields_in_bounds(self) -> bool {
        forall|i: int|
            0 <= i < self.attributes.len() ==> (#[trigger] self.attributes[i]).end()
                <= self.array_stride
    }

    /// No two fields share a byte of the record.
    pub open spec fn fields_disjoint(self) -> bool {
        forall|i: int, j: int|
            0 <= i < j < self.attributes.len() ==> {
                let a = #[trigger] self.attributes[i];
                let b = #[trigger] self.attributes[j];
                a.end() <= b.offset || b.end() <= a.offset
            }
    }

    /// No two fields are bound to the same shader input slot.
    pub open spec fn slots_distinct(self) -> bool {
        forall|i: int, j: int|
            0 <= i < j < self.attributes.len() ==> (#[trigger] self.attributes[i]).shader_location
                != (#[trigger] self.attributes[j]).shader_location
    }

    /// The stride and every field offset are multiples of four bytes, the
    /// size of one scalar.
    pub open spec fn aligned(self) -> bool {
        &&& self.array_stride % 4 == 0
        &&& forall|i: int|
            0 <= i < self.attributes.len() ==> (#[trigger] self.attributes[i]).offset % 4 == 0
    }

    /// A layout that a pipeline can accept on its own.
    pub open spec fn well_formed(self) -> bool {
        &&& self.aligned()
        &&& self.fields_in_bounds()
        &&& self.fields_disjoint()
        &&& self.slots_distinct()
    }

    /// The shader input slot `slot` is taken by some field of this layout.
    pub open spec fn uses_slot(self, slot: u32) -> bool {
        exists|i: int|
            0 <= i < self.attributes.len() && (#[trigger] self.attributes[i]).shader_location
                == slot
    }

    /// Two layouts can be bound in the same draw call: no slot is taken by both.
    pub open spec fn compatible_with(self, other: LayoutView) -> bool {
        forall|slot: u32| !(self.uses_slot(slot) && other.uses_slot(slot))
    }
}

impl View for VertexBufferLayout {
    type V = LayoutView;

    open spec fn view(&self) -> LayoutView {
        LayoutView {
            array_stride: self.array_stride as nat,
            step_mode: self.step_mode,
            attributes: self.attributes@,
        }
    }
}

/// A record type with a fixed binary layout that can describe itself for
/// binding as a vertex or instance buffer.
pub trait Vertex {
    /// Size of one record in bytes.
    spec fn record_size() -> nat;

    /// The layout of a buffer of these records.
    spec fn layout() -> LayoutView;

    /// Returns the layout of a buffer of these records. The stride is the
    /// size of one record, and the layout is well formed.
    fn desc() -> (layout: VertexBufferLayout)
        ensures
            layout@ == Self::layout(),
            layout@.array_stride == Self::record_size(),
            layout@.well_formed(),
    ;
}

} // verus!

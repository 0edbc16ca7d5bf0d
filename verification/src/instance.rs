//! The two forms of one rendered point: the record that is stored, and the
//! record that the GPU reads.
//!
//! Every scalar is the bit pattern of a binary32 number.

use vstd::prelude::*;
use crate::sphere_mesh::SphereMeshVertex;
use crate::vertex::{
    LayoutView, Vertex, VertexAttribute, VertexBufferLayout, VertexFormat, VertexStepMode,
};

verus! {

/// Render form of one point: exactly a 4x4 matrix and one colour, twenty
/// words of four bytes.
#[derive(Clone, Copy, Debug)]
pub struct Instance {
    model_matrix: [[u32; 4]; 4],
    color: [u32; 4],
}

/// Storage form of one point.
#[derive(Clone, Copy, Debug)]
pub struct RawInstance {
    /// World-space coordinates `x`, `y`, `z`.
    pub position: [u32; 3],
    /// A quaternion, vector part first: `x`, `y`, `z`, `w`. All zeros
    /// stands for no rotation and is the default.
    pub rotation: [u32; 4],
    /// Red, green, blue and alpha, each between zero and one.
    pub color: [u32; 4],
    /// Class label.
    pub segmentation_id: u32,
    /// Capture timestamp.
    pub captured_time: u32,
    /// The device or session that acquired the point.
    pub capturer_id: u32,
}

impl Instance {
    /// The model matrix, column by column.
    pub closed spec fn spec_model_matrix(&self) -> [[u32; 4]; 4] {
        self.model_matrix
    }

    /// The colour.
    pub closed spec fn spec_color(&self) -> [u32; 4] {
        self.color
    }

    /// Puts a render record together from its two parts.
    pub fn new(model_matrix: [[u32; 4]; 4], color: [u32; 4]) -> (instance: Self)
        ensures
            instance.model_matrix() == model_matrix,
            instance.color() == color,
    {
        Self { model_matrix, color }
    }

    /// The render record of a stored point whose model matrix has been
    /// composed: the colour is taken over unchanged, and nothing else of
    /// the stored record is kept.
    pub fn from_raw(raw: &RawInstance, model_matrix: [[u32; 4]; 4]) -> (instance: Self)
        ensures
            instance.model_matrix() == model_matrix,
            instance.color() == raw.color,
    {
        Self { model_matrix, color: raw.color }
    }

    /// The model matrix, column by column.
    #[verifier::when_used_as_spec(spec_model_matrix)]
    pub fn model_matrix(&self) -> (model_matrix: [[u32; 4]; 4])
        ensures
            model_matrix == self.spec_model_matrix(),
    {
        self.model_matrix
    }

    /// The colour.
    #[verifier::when_used_as_spec(spec_color)]
    pub fn color(&self) -> (color: [u32; 4])
        ensures
            color == self.spec_color(),
    {
        self.color
    }
}

impl Default for Instance {
    /// The record of all zeros.
    fn default() -> (instance: Self)
        ensures
            instance.model_matrix() == [
                [0u32, 0u32, 0u32, 0u32],
                [0u32, 0u32, 0u32, 0u32],
                [0u32, 0u32, 0u32, 0u32],
                [0u32, 0u32, 0u32, 0u32],
            ],
            instance.color() == [0u32, 0u32, 0u32, 0u32],
    {
        Instance {
            model_matrix: [[0, 0, 0, 0], [0, 0, 0, 0], [0, 0, 0, 0], [0, 0, 0, 0]],
            color: [0, 0, 0, 0],
        }
    }
}

impl Vertex for Instance {
    /// Sixteen words of matrix and four of colour.
    open spec fn record_size() -> nat {
        16 * 4 + 4 * 4
    }

    /// The matrix is bound as four vectors, one for each column, in slots
    /// 10 to 13; the colour follows in slot 14. The buffer is stepped once
    /// per instance.
    open spec fn layout() -> LayoutView {
        LayoutView {
            array_stride: 80,
            step_mode: VertexStepMode::Instance,
            attributes: seq![
                VertexAttribute { format: VertexFormat::Float32x4, offset: 0, shader_location: 10 },
                VertexAttribute { format: VertexFormat::Float32x4, offset: 16, shader_location: 11 },
                VertexAttribute { format: VertexFormat::Float32x4, offset: 32, shader_location: 12 },
                VertexAttribute { format: VertexFormat::Float32x4, offset: 48, shader_location: 13 },
                VertexAttribute { format: VertexFormat::Float32x4, offset: 64, shader_location: 14 },
            ],
        }
    }

    fn desc() -> (layout: VertexBufferLayout) {
        let layout = VertexBufferLayout {
            array_stride: 80,
            step_mode: VertexStepMode::Instance,
            attributes: vec![
                VertexAttribute { format: VertexFormat::Float32x4, offset: 0, shader_location: 10 },
                VertexAttribute { format: VertexFormat::Float32x4, offset: 16, shader_location: 11 },
                VertexAttribute { format: VertexFormat::Float32x4, offset: 32, shader_location: 12 },
                VertexAttribute { format: VertexFormat::Float32x4, offset: 48, shader_location: 13 },
                VertexAttribute { format: VertexFormat::Float32x4, offset: 64, shader_location: 14 },
            ],
        };
        assert(layout@.attributes =~= Self::layout().attributes);
        layout
    }
}

impl RawInstance {
    /// The record of all zeros: at the origin, not rotated, transparent
    /// black, without provenance.
    pub open spec fn zero() -> RawInstance {
        RawInstance {
            position: [0u32, 0u32, 0u32],
            rotation: [0u32, 0u32, 0u32, 0u32],
            color: [0u32, 0u32, 0u32, 0u32],
            segmentation_id: 0,
            captured_time: 0,
            capturer_id: 0,
        }
    }

    /// Puts a record together from its fields. The receiver is not read.
    pub fn new(
        &self,
        position: [u32; 3],
        rotation: [u32; 4],
        color: [u32; 4],
        segmentation_id: u32,
        captured_time: u32,
        capturer_id: u32,
    ) -> (record: Self)
        ensures
            record == (RawInstance {
                position,
                rotation,
                color,
                segmentation_id,
                captured_time,
                capturer_id,
            }),
    {
        Self { position, rotation, color, segmentation_id, captured_time, capturer_id }
    }

    /// Replaces the position and hands the record back for further changes.
    pub fn set_position(&mut self, position: [u32; 3]) -> (record: &mut Self)
        ensures
            *record == (RawInstance { position, ..*old(self) }),
            *final(self) == *final(record),
    {
        self.position = position;
        self
    }

    /// Replaces the rotation and hands the record back for further changes.
    pub fn set_rotation(&mut self, rotation: [u32; 4]) -> (record: &mut Self)
        ensures
            *record == (RawInstance { rotation, ..*old(self) }),
            *final(self) == *final(record),
    {
        self.rotation = rotation;
        self
    }

    /// Replaces the colour and hands the record back for further changes.
    pub fn set_color(&mut self, color: [u32; 4]) -> (record: &mut Self)
        ensures
            *record == (RawInstance { color, ..*old(self) }),
            *final(self) == *final(record),
    {
        self.color = color;
        self
    }

    /// Replaces the capture timestamp and hands the record back for
    /// further changes.
    pub fn set_captured_time(&mut self, captured_time: u32) -> (record: &mut Self)
        ensures
            *record == (RawInstance { captured_time, ..*old(self) }),
            *final(self) == *final(record),
    {
        self.captured_time = captured_time;
        self
    }

    /// Replaces the capturer and hands the record back for further changes.
    pub fn set_capturer_id(&mut self, capturer_id: u32) -> (record: &mut Self)
        ensures
            *record == (RawInstance { capturer_id, ..*old(self) }),
            *final(self) == *final(record),
    {
        self.capturer_id = capturer_id;
        self
    }
}

impl Default for RawInstance {
    /// The record of all zeros.
    fn default() -> (record: Self)
        ensures
            record == RawInstance::zero(),
    {
        RawInstance {
            position: [0, 0, 0],
            rotation: [0, 0, 0, 0],
            color: [0, 0, 0, 0],
            segmentation_id: 0,
            captured_time: 0,
            capturer_id: 0,
        }
    }
}

/// A render record is its matrix and its colour and nothing more: two
/// records that agree on both are the same record.
pub proof fn lemma_instance_is_matrix_and_color(a: Instance, b: Instance)
    requires
        a.model_matrix() == b.model_matrix(),
        a.color() == b.color(),
    ensures
        a == b,
{
}

/// The four columns of the matrix take four consecutive slots, each column
/// one vector of sixteen bytes after the one before, and the colour takes
/// the slot and the sixteen bytes after the last column.
pub proof fn lemma_instance_fields_consecutive()
    ensures
        Instance::layout().attributes.len() == 5,
        Instance::layout().attributes[0].offset == 0,
        Instance::layout().attributes[0].shader_location == 10,
        forall|i: int|
            1 <= i < 5 ==> {
                let previous = Instance::layout().attributes[i - 1];
                let field = #[trigger] Instance::layout().attributes[i];
                &&& field.offset == previous.end()
                &&& field.shader_location == previous.shader_location + 1
            },
        Instance::layout().attributes[4].end() == Instance::record_size(),
{
}

/// The slots of an instance buffer are exactly the block from 10 to 14,
/// which leaves the slots below it to per-vertex geometry.
pub proof fn lemma_instance_slots()
    ensures
        forall|slot: u32| Instance::layout().uses_slot(slot) <==> 10 <= slot <= 14,
{
    let attributes = Instance::layout().attributes;
    assert forall|slot: u32| 10 <= slot <= 14 implies Instance::layout().uses_slot(slot) by {
        assert(attributes[slot - 10].shader_location == slot);
    }
}

/// An instance buffer and a marker vertex buffer can be bound in one draw
/// call: no shader input slot is taken by both.
pub proof fn lemma_instance_and_marker_compatible()
    ensures
        Instance::layout().compatible_with(SphereMeshVertex::layout()),
{
}

} // verus!

//! Import of a point cloud: from the attribute streams of a scene's mesh
//! primitives to one flat list of instance records.
//!
//! A scene is an ordered list of meshes, a mesh an ordered list of
//! primitives, and a primitive may carry a stream of positions and a stream
//! of eight-bit RGBA colours. A primitive that carries both contributes one
//! record for each position that has a colour at the same index; any other
//! primitive contributes nothing. Records keep the order of meshes, then of
//! primitives, then of vertices.

use vstd::prelude::*;
use crate::color::{lemma_channel_bits, normalize_rgba, rgba_bits};
use crate::instance::RawInstance;
use crate::single::ONE;

verus! {

/// The two attribute streams of one primitive that the import reads, each
/// drained into memory, or `None` where the primitive does not have it.
#[derive(Debug)]
pub struct PrimitiveStreams {
    /// Vertex positions `x`, `y`, `z`, as binary32 bit patterns.
    pub positions: Option<Vec<[u32; 3]>>,
    /// Vertex colours of the first colour set: red, green, blue, alpha.
    pub colors: Option<Vec<[u8; 4]>>,
}

/// The primitives of one mesh, in order.
#[derive(Debug)]
pub struct MeshStreams {
    pub primitives: Vec<PrimitiveStreams>,
}

/// The record of one imported point: the position as given, the colour
/// normalised, and everything else zero.
pub open spec fn point_record(position: [u32; 3], color: [u8; 4]) -> RawInstance {
    RawInstance { position, color: rgba_bits(color), ..RawInstance::zero() }
}

/// What the import leaves in a record besides its position: no rotation,
/// no provenance, and colour channels between zero and one.
pub open spec fn is_imported_point(record: RawInstance) -> bool {
    &&& record.rotation == RawInstance::zero().rotation
    &&& record.segmentation_id == 0
    &&& record.captured_time == 0
    &&& record.capturer_id == 0
    &&& forall|channel: int| 0 <= channel < 4 ==> #[trigger] record.color[channel] <= ONE
}

impl PrimitiveStreams {
    /// The primitive carries both streams.
    pub open spec fn qualifies(&self) -> bool {
        self.positions is Some && self.colors is Some
    }

    /// The number of vertices that have both a position and a colour.
    pub open spec fn paired_len(&self) -> nat {
        if self.qualifies() {
            let positions = self.positions->Some_0@;
            let colors = self.colors->Some_0@;
            if positions.len() <= colors.len() {
                positions.len()
            } else {
                colors.len()
            }
        } else {
            0
        }
    }

    /// The records that the primitive contributes, in vertex order.
    pub open spec fn records(&self) -> Seq<RawInstance> {
        Seq::new(
            self.paired_len(),
            |i: int| point_record(self.positions->Some_0@[i], self.colors->Some_0@[i]),
        )
    }
}

/// The records of a list of primitives: those of the first primitive, then
/// those of the second, and so on.
pub open spec fn primitives_records(primitives: Seq<PrimitiveStreams>) -> Seq<RawInstance>
    decreases primitives.len(),
{
    if primitives.len() == 0 {
        Seq::empty()
    } else {
        primitives_records(primitives.drop_last()) + primitives.last().records()
    }
}

impl MeshStreams {
    /// The records that the mesh contributes, in primitive order.
    pub open spec fn records(&self) -> Seq<RawInstance> {
        primitives_records(self.primitives@)
    }
}

/// The records of a list of meshes: those of the first mesh, then those of
/// the second, and so on.
pub open spec fn scene_records(meshes: Seq<MeshStreams>) -> Seq<RawInstance>
    decreases meshes.len(),
{
    if meshes.len() == 0 {
        Seq::empty()
    } else {
        scene_records(meshes.drop_last()) + meshes.last().records()
    }
}

/// Pairs the two streams of a primitive into records. Without both
/// streams there are no records; with both there is one record for each
/// index that both streams have, in order.
pub fn primitive_instances(primitive: &PrimitiveStreams) -> (instances: Vec<RawInstance>)
    ensures
        instances@ == primitive.records(),
        instances.len() == primitive.paired_len(),
        !primitive.qualifies() ==> instances.len() == 0,
        forall|i: int|
            0 <= i < instances.len() ==> #[trigger] instances[i] == point_record(
                primitive.positions->Some_0[i],
                primitive.colors->Some_0[i],
            ),
{
    let mut instances: Vec<RawInstance> = Vec::new();
    match (&primitive.positions, &primitive.colors) {
        (Some(positions), Some(colors)) => {
            let count: usize = if positions.len() <= colors.len() {
                positions.len()
            } else {
                colors.len()
            };
            let mut i: usize = 0;
            while i < count
                invariant
                    primitive.positions == Some(*positions),
                    primitive.colors == Some(*colors),
                    count == primitive.paired_len(),
                    i <= count,
                    instances@ == primitive.records().take(i as int),
                decreases count - i,
            {
                let record = RawInstance {
                    position: positions[i],
                    rotation: [0, 0, 0, 0],
                    color: normalize_rgba(colors[i]),
                    segmentation_id: 0,
                    captured_time: 0,
                    capturer_id: 0,
                };
                instances.push(record);
                i += 1;
                assert(instances@ =~= primitive.records().take(i as int));
            }
            assert(instances@ =~= primitive.records());
        },
        _ => {
            assert(instances@ =~= primitive.records());
        },
    }
    instances
}

/// Imports a whole scene: the records of every primitive of every mesh,
/// in the order of the meshes, then of the primitives, then of the
/// vertices.
pub fn load_gltf_pointcloud(meshes: &Vec<MeshStreams>) -> (instances: Vec<RawInstance>)
    ensures
        instances@ == scene_records(meshes@),
{
    let mut aggregated_instances: Vec<RawInstance> = Vec::new();
    let mut m: usize = 0;
    while m < meshes.len()
        invariant
            m <= meshes.len(),
            aggregated_instances@ == scene_records(meshes@.take(m as int)),
        decreases meshes.len() - m,
    {
        let mesh = &meshes[m];
        let mut mesh_instances: Vec<RawInstance> = Vec::new();
        let mut p: usize = 0;
        while p < mesh.primitives.len()
            invariant
                p <= mesh.primitives.len(),
                mesh_instances@ == primitives_records(mesh.primitives@.take(p as int)),
            decreases mesh.primitives.len() - p,
        {
            let mut instances = primitive_instances(&mesh.primitives[p]);
            mesh_instances.append(&mut instances);
            proof {
                let upto = mesh.primitives@.take(p + 1);
                assert(upto.drop_last() =~= mesh.primitives@.take(p as int));
            }
            p += 1;
        }
        assert(mesh.primitives@.take(p as int) =~= mesh.primitives@);
        aggregated_instances.append(&mut mesh_instances);
        proof {
            let upto = meshes@.take(m + 1);
            assert(upto.drop_last() =~= meshes@.take(m as int));
        }
        m += 1;
    }
    assert(meshes@.take(m as int) =~= meshes@);
    aggregated_instances
}

/// The records of two lists of primitives, one after the other, are the
/// records of the first list followed by those of the second.
pub proof fn lemma_primitives_records_concat(
    front: Seq<PrimitiveStreams>,
    back: Seq<PrimitiveStreams>,
)
    ensures
        primitives_records(front + back) == primitives_records(front) + primitives_records(back),
    decreases back.len(),
{
    if back.len() == 0 {
        assert(front + back =~= front);
        assert(primitives_records(front) + primitives_records(back) =~= primitives_records(front));
    } else {
        lemma_primitives_records_concat(front, back.drop_last());
        assert((front + back).drop_last() =~= front + back.drop_last());
        assert(primitives_records(front + back) =~= primitives_records(front)
            + primitives_records(back));
    }
}

/// The records of two lists of meshes, one after the other, are the
/// records of the first list followed by those of the second.
pub proof fn lemma_scene_records_concat(front: Seq<MeshStreams>, back: Seq<MeshStreams>)
    ensures
        scene_records(front + back) == scene_records(front) + scene_records(back),
    decreases back.len(),
{
    if back.len() == 0 {
        assert(front + back =~= front);
        assert(scene_records(front) + scene_records(back) =~= scene_records(front));
    } else {
        lemma_scene_records_concat(front, back.drop_last());
        assert((front + back).drop_last() =~= front + back.drop_last());
        assert(scene_records(front + back) =~= scene_records(front) + scene_records(back));
    }
}

/// A list of primitives of which none carries both streams has no records.
pub proof fn lemma_no_qualifying_primitive(primitives: Seq<PrimitiveStreams>)
    requires
        forall|p: int| 0 <= p < primitives.len() ==> !(#[trigger] primitives[p]).qualifies(),
    ensures
        primitives_records(primitives).len() == 0,
    decreases primitives.len(),
{
    if primitives.len() > 0 {
        lemma_no_qualifying_primitive(primitives.drop_last());
    }
}

/// A scene in which no primitive of any mesh carries both streams imports
/// to the empty list.
pub proof fn lemma_no_qualifying_scene(meshes: Seq<MeshStreams>)
    requires
        forall|m: int, p: int|
            0 <= m < meshes.len() && 0 <= p < meshes[m].primitives.len() ==> !(
            #[trigger] meshes[m].primitives[p]).qualifies(),
    ensures
        scene_records(meshes) == Seq::<RawInstance>::empty(),
    decreases meshes.len(),
{
    if meshes.len() > 0 {
        lemma_no_qualifying_scene(meshes.drop_last());
        lemma_no_qualifying_primitive(meshes.last().primitives@);
    }
    assert(scene_records(meshes) =~= Seq::<RawInstance>::empty());
}

/// A primitive whose two streams both have `n` entries has exactly `n`
/// records, and record `i` is made of position `i` and colour `i`.
pub proof fn lemma_paired_streams(primitive: PrimitiveStreams, n: nat)
    requires
        primitive.positions is Some,
        primitive.colors is Some,
        primitive.positions->Some_0.len() == n,
        primitive.colors->Some_0.len() == n,
    ensures
        primitive.records().len() == n,
        forall|i: int|
            0 <= i < n ==> #[trigger] primitive.records()[i] == point_record(
                primitive.positions->Some_0[i],
                primitive.colors->Some_0[i],
            ),
{
}

/// A primitive that lacks the position stream or the colour stream has no
/// records.
pub proof fn lemma_missing_stream(primitive: PrimitiveStreams)
    requires
        primitive.positions is None || primitive.colors is None,
    ensures
        primitive.records().len() == 0,
{
}

proof fn lemma_all_imported_points(front: Seq<RawInstance>, back: Seq<RawInstance>)
    requires
        forall|i: int| 0 <= i < front.len() ==> is_imported_point(#[trigger] front[i]),
        forall|i: int| 0 <= i < back.len() ==> is_imported_point(#[trigger] back[i]),
    ensures
        forall|i: int|
            0 <= i < (front + back).len() ==> is_imported_point(#[trigger] (front + back)[i]),
{
    assert forall|i: int| 0 <= i < (front + back).len() implies is_imported_point(
        #[trigger] (front + back)[i],
    ) by {
        if i < front.len() {
            assert((front + back)[i] == front[i]);
        } else {
            assert((front + back)[i] == back[i - front.len()]);
        }
    }
}

/// Every record of a list of primitives is an imported point.
pub proof fn lemma_primitives_records_shape(primitives: Seq<PrimitiveStreams>)
    ensures
        forall|i: int|
            0 <= i < primitives_records(primitives).len() ==> is_imported_point(
                #[trigger] primitives_records(primitives)[i],
            ),
    decreases primitives.len(),
{
    if primitives.len() > 0 {
        lemma_primitives_records_shape(primitives.drop_last());
        let last = primitives.last();
        assert forall|i: int| 0 <= i < last.records().len() implies is_imported_point(
            #[trigger] last.records()[i],
        ) by {
            let color = last.colors->Some_0[i];
            lemma_channel_bits(color[0]);
            lemma_channel_bits(color[1]);
            lemma_channel_bits(color[2]);
            lemma_channel_bits(color[3]);
        }
        lemma_all_imported_points(primitives_records(primitives.drop_last()), last.records());
    }
}

/// Every record that an import gives is an imported point: it has no
/// rotation and no provenance, and its colour channels lie between zero
/// and one.
pub proof fn lemma_scene_records_shape(meshes: Seq<MeshStreams>)
    ensures
        forall|i: int|
            0 <= i < scene_records(meshes).len() ==> is_imported_point(
                #[trigger] scene_records(meshes)[i],
            ),
    decreases meshes.len(),
{
    if meshes.len() > 0 {
        lemma_scene_records_shape(meshes.drop_last());
        lemma_primitives_records_shape(meshes.last().primitives@);
        lemma_all_imported_points(scene_records(meshes.drop_last()), meshes.last().records());
    }
}

} // verus!

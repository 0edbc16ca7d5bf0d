use cgmath::{Matrix4, Quaternion, Vector3};
use pointcloud::instance::{Instance, RawInstance};
use pointcloud::pointcloud_loader::{primitive_instances, PrimitiveStreams};

fn record(position: [f32; 3], rotation: [f32; 4], color: [f32; 4]) -> RawInstance {
    RawInstance::default().new(
        position.map(f32::to_bits),
        rotation.map(f32::to_bits),
        color.map(f32::to_bits),
        0,
        0,
        0,
    )
}

/// Translation after rotation, composed in floating point.
fn convert(raw: &RawInstance) -> Instance {
    let model_matrix: [[f32; 4]; 4] =
        (Matrix4::from_translation(Vector3::from(raw.position.map(f32::from_bits)))
            * Matrix4::from(Quaternion::from(raw.rotation.map(f32::from_bits))))
        .into();
    Instance::from_raw(raw, model_matrix.map(|column| column.map(f32::to_bits)))
}

fn matrix_of(instance: &Instance) -> [[f32; 4]; 4] {
    instance.model_matrix().map(|column| column.map(f32::from_bits))
}

#[test]
fn unrotated_record_converts_to_a_translation() {
    let raw = record([1.5, -2.0, 3.25], [0.0; 4], [0.1, 0.2, 0.3, 0.4]);
    let instance = convert(&raw);
    assert_eq!(
        matrix_of(&instance),
        [
            [1.0, 0.0, 0.0, 0.0],
            [0.0, 1.0, 0.0, 0.0],
            [0.0, 0.0, 1.0, 0.0],
            [1.5, -2.0, 3.25, 1.0],
        ]
    );
    assert_eq!(instance.color(), raw.color);
}

#[test]
fn default_record_converts_to_the_identity() {
    let instance = convert(&RawInstance::default());
    assert_eq!(
        matrix_of(&instance),
        [
            [1.0, 0.0, 0.0, 0.0],
            [0.0, 1.0, 0.0, 0.0],
            [0.0, 0.0, 1.0, 0.0],
            [0.0, 0.0, 0.0, 1.0],
        ]
    );
    assert_eq!(instance.color(), [0, 0, 0, 0]);
}

#[test]
fn unit_quaternion_rotates_before_it_translates() {
    // Half a turn about z, then a move along x.
    let raw = record([10.0, 0.0, 0.0], [0.0, 0.0, 1.0, 0.0], [1.0, 1.0, 1.0, 1.0]);
    let instance = convert(&raw);
    assert_eq!(
        matrix_of(&instance),
        [
            [-1.0, 0.0, 0.0, 0.0],
            [0.0, -1.0, 0.0, 0.0],
            [0.0, 0.0, 1.0, 0.0],
            [10.0, 0.0, 0.0, 1.0],
        ]
    );
}

#[test]
fn converting_twice_gives_the_same_bits() {
    let raw = record([0.1, 0.2, 0.3], [0.5, 0.5, 0.5, 0.5], [0.9, 0.8, 0.7, 0.6]);
    let first = convert(&raw);
    let second = convert(&raw);
    assert_eq!(first.model_matrix(), second.model_matrix());
    assert_eq!(first.color(), second.color());
}

#[test]
fn conversion_ignores_provenance() {
    let mut raw = record([1.0, 2.0, 3.0], [0.0, 0.0, 0.0, 1.0], [0.5, 0.5, 0.5, 1.0]);
    let plain = convert(&raw);
    raw.set_captured_time(77).set_capturer_id(88);
    raw.segmentation_id = 99;
    let tagged = convert(&raw);
    assert_eq!(plain.model_matrix(), tagged.model_matrix());
    assert_eq!(plain.color(), tagged.color());
}

#[test]
fn imported_points_convert_to_translations() {
    let primitive = PrimitiveStreams {
        positions: Some(vec![[4.0f32, 5.0, 6.0].map(f32::to_bits)]),
        colors: Some(vec![[255, 0, 255, 255]]),
    };
    let records = primitive_instances(&primitive);
    assert_eq!(records.len(), 1);
    let instance = convert(&records[0]);
    assert_eq!(matrix_of(&instance)[3], [4.0, 5.0, 6.0, 1.0]);
    assert_eq!(matrix_of(&instance)[0], [1.0, 0.0, 0.0, 0.0]);
    assert_eq!(instance.color().map(f32::from_bits), [1.0, 0.0, 1.0, 1.0]);
}

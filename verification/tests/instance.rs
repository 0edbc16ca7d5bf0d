use pointcloud::instance::{Instance, RawInstance};
use pointcloud::vertex::{Vertex, VertexFormat, VertexStepMode};

fn bits3(v: [f32; 3]) -> [u32; 3] {
    v.map(f32::to_bits)
}

fn bits4(v: [f32; 4]) -> [u32; 4] {
    v.map(f32::to_bits)
}

#[test]
fn default_raw_instance_is_all_zero() {
    let record = RawInstance::default();
    assert_eq!(record.position, [0, 0, 0]);
    assert_eq!(record.rotation, [0, 0, 0, 0]);
    assert_eq!(record.color, [0, 0, 0, 0]);
    assert_eq!(record.segmentation_id, 0);
    assert_eq!(record.captured_time, 0);
    assert_eq!(record.capturer_id, 0);
    assert_eq!(record.position.map(f32::from_bits), [0.0, 0.0, 0.0]);
    assert_eq!(record.color.map(f32::from_bits), [0.0, 0.0, 0.0, 0.0]);
}

#[test]
fn new_raw_instance_takes_every_field() {
    let seed = RawInstance::default();
    let record = seed.new(
        bits3([1.0, -2.0, 3.5]),
        bits4([0.0, 0.0, 0.0, 1.0]),
        bits4([0.25, 0.5, 0.75, 1.0]),
        7,
        1_700_000_000,
        42,
    );
    assert_eq!(record.position.map(f32::from_bits), [1.0, -2.0, 3.5]);
    assert_eq!(record.rotation.map(f32::from_bits), [0.0, 0.0, 0.0, 1.0]);
    assert_eq!(record.color.map(f32::from_bits), [0.25, 0.5, 0.75, 1.0]);
    assert_eq!(record.segmentation_id, 7);
    assert_eq!(record.captured_time, 1_700_000_000);
    assert_eq!(record.capturer_id, 42);
}

#[test]
fn new_raw_instance_does_not_read_the_receiver() {
    let seed = RawInstance::default();
    let first = seed.new([1, 2, 3], [4, 5, 6, 7], [8, 9, 10, 11], 12, 13, 14);
    let second = first.new([0, 0, 0], [0, 0, 0, 0], [0, 0, 0, 0], 0, 0, 0);
    assert_eq!(second.position, [0, 0, 0]);
    assert_eq!(second.rotation, [0, 0, 0, 0]);
    assert_eq!(second.color, [0, 0, 0, 0]);
    assert_eq!(second.segmentation_id, 0);
    assert_eq!(second.captured_time, 0);
    assert_eq!(second.capturer_id, 0);
    assert_eq!(first.position, [1, 2, 3]);
    assert_eq!(first.capturer_id, 14);
}

#[test]
fn setters_change_one_field_each() {
    let seed = RawInstance::default();
    let mut record = seed.new([1, 2, 3], [4, 5, 6, 7], [8, 9, 10, 11], 12, 13, 14);

    record.set_position([21, 22, 23]);
    assert_eq!(record.position, [21, 22, 23]);
    assert_eq!(record.rotation, [4, 5, 6, 7]);
    assert_eq!(record.color, [8, 9, 10, 11]);
    assert_eq!((record.segmentation_id, record.captured_time, record.capturer_id), (12, 13, 14));

    record.set_rotation([24, 25, 26, 27]);
    assert_eq!(record.position, [21, 22, 23]);
    assert_eq!(record.rotation, [24, 25, 26, 27]);
    assert_eq!(record.color, [8, 9, 10, 11]);

    record.set_color([28, 29, 30, 31]);
    assert_eq!(record.rotation, [24, 25, 26, 27]);
    assert_eq!(record.color, [28, 29, 30, 31]);
    assert_eq!((record.segmentation_id, record.captured_time, record.capturer_id), (12, 13, 14));

    record.set_captured_time(33);
    assert_eq!((record.segmentation_id, record.captured_time, record.capturer_id), (12, 33, 14));

    record.set_capturer_id(34);
    assert_eq!((record.segmentation_id, record.captured_time, record.capturer_id), (12, 33, 34));
    assert_eq!(record.position, [21, 22, 23]);
    assert_eq!(record.color, [28, 29, 30, 31]);
}

#[test]
fn setters_chain() {
    let mut record = RawInstance::default();
    record
        .set_position(bits3([1.0, 2.0, 3.0]))
        .set_rotation(bits4([0.0, 0.0, 0.0, 1.0]))
        .set_color(bits4([1.0, 0.0, 0.0, 1.0]))
        .set_captured_time(5)
        .set_capturer_id(6);
    assert_eq!(record.position.map(f32::from_bits), [1.0, 2.0, 3.0]);
    assert_eq!(record.rotation.map(f32::from_bits), [0.0, 0.0, 0.0, 1.0]);
    assert_eq!(record.color.map(f32::from_bits), [1.0, 0.0, 0.0, 1.0]);
    assert_eq!(record.segmentation_id, 0);
    assert_eq!(record.captured_time, 5);
    assert_eq!(record.capturer_id, 6);
}

#[test]
fn instance_new_keeps_its_parts() {
    let matrix = [[1, 2, 3, 4], [5, 6, 7, 8], [9, 10, 11, 12], [13, 14, 15, 16]];
    let instance = Instance::new(matrix, [17, 18, 19, 20]);
    assert_eq!(instance.model_matrix(), matrix);
    assert_eq!(instance.color(), [17, 18, 19, 20]);
}

#[test]
fn default_instance_is_all_zero() {
    let instance = Instance::default();
    assert_eq!(instance.model_matrix(), [[0; 4]; 4]);
    assert_eq!(instance.color(), [0; 4]);
}

#[test]
fn from_raw_copies_the_colour_and_drops_the_rest() {
    let seed = RawInstance::default();
    let raw = seed.new([1, 2, 3], [4, 5, 6, 7], [8, 9, 10, 11], 12, 13, 14);
    let matrix = [[21, 22, 23, 24], [25, 26, 27, 28], [29, 30, 31, 32], [33, 34, 35, 36]];
    let instance = Instance::from_raw(&raw, matrix);
    assert_eq!(instance.model_matrix(), matrix);
    assert_eq!(instance.color(), [8, 9, 10, 11]);

    let mut other = raw;
    other.set_position([0, 0, 0]).set_rotation([0, 0, 0, 0]).set_captured_time(0).set_capturer_id(0);
    let again = Instance::from_raw(&other, matrix);
    assert_eq!(again.model_matrix(), instance.model_matrix());
    assert_eq!(again.color(), instance.color());
}

#[test]
fn from_raw_twice_gives_the_same_record() {
    let seed = RawInstance::default();
    let raw = seed.new([1, 2, 3], [4, 5, 6, 7], [8, 9, 10, 11], 12, 13, 14);
    let matrix = [[1, 0, 0, 0], [0, 1, 0, 0], [0, 0, 1, 0], [7, 8, 9, 1]];
    let first = Instance::from_raw(&raw, matrix);
    let second = Instance::from_raw(&raw, matrix);
    assert_eq!(first.model_matrix(), second.model_matrix());
    assert_eq!(first.color(), second.color());
}

#[test]
fn instance_layout_is_five_vectors_in_slots_ten_to_fourteen() {
    let layout = Instance::desc();
    assert_eq!(layout.array_stride, 80);
    assert_eq!(layout.array_stride as usize, std::mem::size_of::<[[f32; 4]; 4]>() + std::mem::size_of::<[f32; 4]>());
    assert_eq!(layout.step_mode, VertexStepMode::Instance);
    assert_eq!(layout.attributes.len(), 5);
    let expected: [(u64, u32); 5] = [(0, 10), (16, 11), (32, 12), (48, 13), (64, 14)];
    for (attribute, (offset, slot)) in layout.attributes.iter().zip(expected) {
        assert_eq!(attribute.format, VertexFormat::Float32x4);
        assert_eq!(attribute.offset, offset);
        assert_eq!(attribute.shader_location, slot);
    }
}

#[test]
fn instance_layout_offsets_follow_array_sizes() {
    let layout = Instance::desc();
    assert_eq!(layout.attributes[1].offset as usize, std::mem::size_of::<[f32; 4]>());
    assert_eq!(layout.attributes[2].offset as usize, std::mem::size_of::<[f32; 8]>());
    assert_eq!(layout.attributes[3].offset as usize, std::mem::size_of::<[f32; 12]>());
    assert_eq!(layout.attributes[4].offset as usize, std::mem::size_of::<[f32; 16]>());
}

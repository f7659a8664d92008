use pko_tools::gltf_builder::{AccessorType, BufferTarget, ComponentType, GltfBuilder};
use pko_tools::scene_model::{decode_data_uri, PlannedPrimitive};

#[test]
fn builder_starts_empty() {
    let b = GltfBuilder::new();
    assert!(b.buffers.is_empty());
    assert!(b.buffer_views.is_empty());
    assert!(b.accessors.is_empty());
}

#[test]
fn index_accessor_embeds_short_indices() {
    let mut b = GltfBuilder::new();
    let idx = b.add_index_accessor(&vec![0, 1, 2], "geom0");
    assert_eq!(idx, 0);
    assert_eq!(b.buffers[0].name, "geom0_buffer");
    assert_eq!(b.buffers[0].uri, "data:application/octet-stream;base64,AAABAAIA");
    assert_eq!(b.buffers[0].byte_length, 6);
    assert_eq!(b.buffer_views[0].buffer, 0);
    assert_eq!(b.buffer_views[0].target, BufferTarget::ElementArrayBuffer);
    assert_eq!(b.buffer_views[0].name, "geom0_view");
    assert_eq!(b.accessors[0].buffer_view, 0);
    assert_eq!(b.accessors[0].component_type, ComponentType::U16);
    assert_eq!(b.accessors[0].count, 3);
    assert_eq!(b.accessors[0].accessor_type, AccessorType::Scalar);
    assert_eq!(b.accessors[0].name, "geom0_accessor");
    assert!(b.accessors[0].min_bits.is_none());
}

#[test]
fn wide_indices_use_u32() {
    let mut b = GltfBuilder::new();
    b.add_index_accessor(&vec![70000], "big");
    assert_eq!(b.accessors[0].component_type, ComponentType::U32);
    assert_eq!(decode_data_uri(&b.buffers[0].uri), Some(70000u32.to_le_bytes().to_vec()));
}

#[test]
fn accessors_reference_their_own_view_and_buffer() {
    let mut b = GltfBuilder::new();
    b.add_index_accessor(&vec![0, 1, 2], "geom0");
    let data: Vec<u32> = [1.0f32, 2.0, 3.0, 4.0, 5.0, 6.0].iter().map(|f| f.to_bits()).collect();
    let min = vec![1.0f32.to_bits(), 2.0f32.to_bits(), 3.0f32.to_bits()];
    let max = vec![4.0f32.to_bits(), 5.0f32.to_bits(), 6.0f32.to_bits()];
    let pos = b.add_accessor_f32(&data, "pos", AccessorType::Vec3, 3, Some(min.clone()), Some(max));
    assert_eq!(pos, 1);
    assert_eq!(b.accessors[1].count, 2);
    assert_eq!(b.accessors[1].component_type, ComponentType::F32);
    assert_eq!(b.accessors[1].min_bits, Some(min));
    assert_eq!(b.buffers[1].byte_length, 24);
    let bytes = decode_data_uri(&b.buffers[1].uri).unwrap();
    assert_eq!(f32::from_le_bytes([bytes[4], bytes[5], bytes[6], bytes[7]]), 2.0);
    let joints = b.add_accessor_u8(&[0, 1, 2, 3, 4, 5, 6, 7], "joints", AccessorType::Vec4, 4);
    assert_eq!(joints, 2);
    assert_eq!(b.accessors[2].count, 2);
    assert_eq!(b.accessors[2].component_type, ComponentType::U8);
    for i in 0..3 {
        assert_eq!(b.buffer_views[i].buffer, i as u32);
        assert_eq!(b.accessors[i].buffer_view, i as u32);
        assert_eq!(b.buffer_views[i].byte_length, b.buffers[i].byte_length);
        assert_eq!(b.buffer_views[i].target == BufferTarget::ElementArrayBuffer, i == 0);
    }
}

#[test]
fn primitive_index_accessors_named_by_subset() {
    let mut b = GltfBuilder::new();
    let first = b.add_index_accessor(&vec![0, 1, 2], "pos");
    assert_eq!(first, 0);
    let prims = vec![
        PlannedPrimitive { subset: Some(0), indices: vec![0, 2, 1], material: 0 },
        PlannedPrimitive { subset: Some(2), indices: vec![70000, 1, 2], material: 1 },
    ];
    let idx = b.add_primitive_index_accessors(&prims, "geom0");
    assert_eq!(idx, vec![1, 2]);
    assert_eq!(b.accessors.len(), 3);
    assert_eq!(b.accessors[1].name, "geom0_idx_s0_accessor");
    assert_eq!(b.accessors[1].component_type, ComponentType::U16);
    assert_eq!(b.accessors[2].name, "geom0_idx_s2_accessor");
    assert_eq!(b.accessors[2].component_type, ComponentType::U32);
    assert_eq!(b.accessors[2].count, 3);
    let whole = vec![PlannedPrimitive { subset: None, indices: vec![0, 1, 2], material: 0 }];
    b.add_primitive_index_accessors(&whole, "geom1");
    assert_eq!(b.accessors[3].name, "geom1_idx_accessor");
    assert_eq!(b.buffer_views[3].target, BufferTarget::ElementArrayBuffer);
}

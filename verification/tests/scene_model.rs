use pko_tools::scene_model::{
    append_aligned, bone_children, decode_data_uri, decode_data_uri_with_mime,
    default_dst_blend_for_transp_type, default_src_blend_for_transp_type, effective_transp_type,
    encode_indices, find_lmo_path, find_texture_file, lmo_path_candidates, material_alpha_cutoff,
    material_alpha_mode, material_alpha_ref, material_name, merge_buffers, octet_stream_data_uri,
    plan_primitives, png_data_uri, rebased_view_offset, root_joints, texture_file_candidates,
    texture_stem, LmoSubset, MaterialAlphaMode, D3DBLEND_DESTALPHA, D3DBLEND_INVSRCCOLOR,
    D3DBLEND_ONE, D3DBLEND_SRCALPHA, D3DBLEND_SRCCOLOR, D3DBLEND_ZERO, NO_PARENT,
};

#[test]
fn default_blend_for_all_transp_types() {
    // Type 0 (FILTER): no blend set
    assert_eq!(default_src_blend_for_transp_type(0), None);
    assert_eq!(default_dst_blend_for_transp_type(0), None);

    // Type 1 (ADDITIVE): One/One
    assert_eq!(default_src_blend_for_transp_type(1), Some(D3DBLEND_ONE));
    assert_eq!(default_dst_blend_for_transp_type(1), Some(D3DBLEND_ONE));

    // Type 2 (ADDITIVE1): SrcColor/One
    assert_eq!(default_src_blend_for_transp_type(2), Some(D3DBLEND_SRCCOLOR));
    assert_eq!(default_dst_blend_for_transp_type(2), Some(D3DBLEND_ONE));

    // Type 3 (ADDITIVE2): SrcColor/InvSrcColor
    assert_eq!(default_src_blend_for_transp_type(3), Some(D3DBLEND_SRCCOLOR));
    assert_eq!(
        default_dst_blend_for_transp_type(3),
        Some(D3DBLEND_INVSRCCOLOR)
    );

    // Type 4 (ADDITIVE3): SrcAlpha/DestAlpha
    assert_eq!(default_src_blend_for_transp_type(4), Some(D3DBLEND_SRCALPHA));
    assert_eq!(
        default_dst_blend_for_transp_type(4),
        Some(D3DBLEND_DESTALPHA)
    );

    // Type 5 (SUBTRACTIVE): Zero/InvSrcColor
    assert_eq!(default_src_blend_for_transp_type(5), Some(D3DBLEND_ZERO));
    assert_eq!(
        default_dst_blend_for_transp_type(5),
        Some(D3DBLEND_INVSRCCOLOR)
    );

    // Types 6-8: fall through to One/One (same as type 1)
    for t in 6..=8 {
        assert_eq!(
            default_src_blend_for_transp_type(t),
            Some(D3DBLEND_ONE),
            "type {} src",
            t
        );
        assert_eq!(
            default_dst_blend_for_transp_type(t),
            Some(D3DBLEND_ONE),
            "type {} dst",
            t
        );
    }
}

#[test]
fn default_blend_other_types_fall_through_to_one() {
    assert_eq!(default_src_blend_for_transp_type(9), Some(D3DBLEND_ONE));
    assert_eq!(default_dst_blend_for_transp_type(42), Some(D3DBLEND_ONE));
}

#[test]
fn blend_types_6_to_8_match_type_1() {
    for t in 6..=8 {
        assert_eq!(default_src_blend_for_transp_type(t), default_src_blend_for_transp_type(1));
        assert_eq!(default_dst_blend_for_transp_type(t), default_dst_blend_for_transp_type(1));
    }
}

#[test]
fn effective_transp_type_remaps_unknown_and_6_to_8() {
    for t in 0..=5 {
        assert_eq!(effective_transp_type(t), t);
    }
    for t in [6, 7, 8, 9, 100] {
        assert_eq!(effective_transp_type(t), 1);
    }
}

#[test]
fn material_name_type3_with_partial_opacity() {
    // opacity 0.75 → byte 191
    let name = material_name("test", 3, false, 0, true, 191);
    assert_eq!(name, "test__PKO_T3_A0_O191");
}

#[test]
fn material_name_types_6_to_8_canonicalize_to_t1() {
    for t in [6, 7, 8] {
        assert_eq!(material_name("test", t, false, 0, false, 255), "test__PKO_T1_A0_O255");
    }
}

#[test]
fn material_name_type9_remapped_to_t1() {
    let name = material_name("test_type9", 9, false, 0, false, 255);
    assert!(name.contains("__PKO_T1_"));
    assert_eq!(material_alpha_mode(9, false, false), MaterialAlphaMode::Opaque);
}

#[test]
fn material_name_alpha_ref_zero_encodes_engine_default() {
    let name = material_name("tree_leaf", 0, true, 0, false, 255);
    assert_eq!(name, "tree_leaf__PKO_T0_A129_O255");
    assert_eq!(material_alpha_ref(true, 0), 129);
    assert_eq!(material_alpha_cutoff(true, 0), Some(129));
    assert_eq!(material_alpha_mode(0, true, false), MaterialAlphaMode::Mask);
}

#[test]
fn material_name_additive_with_alpha_test() {
    assert_eq!(material_name("fx", 1, true, 129, false, 255), "fx__PKO_T1_A129_O255");
    assert_eq!(material_alpha_mode(1, true, false), MaterialAlphaMode::Mask);
    assert_eq!(material_alpha_cutoff(true, 129), Some(129));
}

#[test]
fn material_name_plain_material_keeps_name() {
    assert_eq!(material_name("wall", 0, false, 0, false, 255), "wall");
    assert_eq!(material_alpha_mode(0, false, false), MaterialAlphaMode::Opaque);
    assert_eq!(material_alpha_cutoff(false, 200), None);
    assert_eq!(material_alpha_ref(false, 200), 0);
}

#[test]
fn material_name_subtractive_type5() {
    assert_eq!(material_name("shadow", 5, false, 0, false, 255), "shadow__PKO_T5_A0_O255");
    assert_eq!(material_alpha_mode(5, false, false), MaterialAlphaMode::Opaque);
}

#[test]
fn material_name_partial_opacity_plain() {
    // opacity 0.5 → byte 128, blend mode
    assert_eq!(material_name("glass", 0, false, 0, true, 128), "glass__PKO_T0_A0_O128");
    assert_eq!(material_alpha_mode(0, false, true), MaterialAlphaMode::Blend);
}

#[test]
fn material_name_partial_opacity_with_alpha_test() {
    // opacity 0.7 → byte 179
    assert_eq!(material_name("fence", 0, true, 129, true, 179), "fence__PKO_T0_A129_O179");
    assert_eq!(material_alpha_mode(0, true, true), MaterialAlphaMode::Mask);
}

#[test]
fn lmo_candidates_in_lookup_order() {
    let c = lmo_path_candidates("House.LMO");
    assert_eq!(
        c,
        vec![
            "model/scene/House.LMO".to_string(),
            "model/House.LMO".to_string(),
            "model/scene/house.lmo".to_string(),
            "model/house.lmo".to_string(),
        ]
    );
}

#[test]
fn find_lmo_path_takes_first_existing() {
    assert_eq!(
        find_lmo_path("House.LMO", &[false, false, true, true]),
        Some("model/scene/house.lmo".to_string())
    );
    assert_eq!(
        find_lmo_path("House.LMO", &[false, true, true, true]),
        Some("model/House.LMO".to_string())
    );
    assert_eq!(find_lmo_path("House.LMO", &[false, false, false, false]), None);
    // missing flags count as absent
    assert_eq!(find_lmo_path("House.LMO", &[false]), None);
}

#[test]
fn texture_stem_strips_last_extension() {
    assert_eq!(texture_stem("tree.bmp"), "tree");
    assert_eq!(texture_stem("a.b.dds"), "a.b");
    assert_eq!(texture_stem("noext"), "noext");
}

#[test]
fn texture_candidates_order() {
    let c = texture_file_candidates("Tree.BMP");
    assert_eq!(c.len(), 40);
    assert_eq!(c[0], "texture/scene/Tree.bmp");
    assert_eq!(c[1], "texture/scene/tree.bmp");
    assert_eq!(c[2], "texture/scene/Tree.tga");
    assert_eq!(c[7], "texture/scene/tree.png");
    assert_eq!(c[8], "texture/model/Tree.bmp");
    assert_eq!(c[39], "texture/tree.png");
}

#[test]
fn find_texture_file_takes_first_existing() {
    let mut exists = vec![false; 40];
    exists[3] = true;
    exists[20] = true;
    assert_eq!(find_texture_file("Tree.BMP", &exists), Some("texture/scene/tree.tga".to_string()));
    assert_eq!(find_texture_file("Tree.BMP", &vec![false; 40]), None);
}

#[test]
fn plan_primitives_one_per_subset() {
    let indices = vec![0, 1, 2, 3, 4, 5];
    let subsets = vec![
        LmoSubset { primitive_num: 1, start_index: 0, vertex_num: 3, min_index: 0 },
        LmoSubset { primitive_num: 1, start_index: 3, vertex_num: 3, min_index: 3 },
    ];
    let prims = plan_primitives(6, &indices, &subsets, 1, 5);
    assert_eq!(prims.len(), 2);
    assert_eq!(prims[0].subset, Some(0));
    assert_eq!(prims[0].indices, vec![0, 2, 1]);
    assert_eq!(prims[0].material, 5);
    assert_eq!(prims[1].subset, Some(1));
    assert_eq!(prims[1].indices, vec![3, 5, 4]);
    // no material of its own: the first one
    assert_eq!(prims[1].material, 5);
}

#[test]
fn plan_primitives_without_subsets_or_vertices() {
    let indices = vec![0, 1, 2, 2, 1, 3];
    let prims = plan_primitives(4, &indices, &Vec::new(), 0, 2);
    assert_eq!(prims.len(), 1);
    assert_eq!(prims[0].subset, None);
    assert_eq!(prims[0].indices, vec![0, 2, 1, 2, 3, 1]);
    assert_eq!(prims[0].material, 2);
    assert!(plan_primitives(0, &indices, &Vec::new(), 0, 2).is_empty());
    assert!(plan_primitives(4, &Vec::new(), &Vec::new(), 0, 2).is_empty());
}

#[test]
fn plan_primitives_clips_and_skips_subsets() {
    let indices = vec![0, 1, 2, 3, 4, 5];
    let subsets = vec![
        // runs past the end: clipped to the last triangle
        LmoSubset { primitive_num: 5, start_index: 3, vertex_num: 3, min_index: 0 },
        // starts past the end: skipped
        LmoSubset { primitive_num: 1, start_index: 9, vertex_num: 3, min_index: 0 },
    ];
    let prims = plan_primitives(6, &indices, &subsets, 2, 0);
    assert_eq!(prims.len(), 1);
    assert_eq!(prims[0].subset, Some(0));
    assert_eq!(prims[0].indices, vec![3, 5, 4]);
    assert_eq!(prims[0].material, 0);
}

#[test]
fn encode_indices_uses_u16_when_possible() {
    let (bytes, short) = encode_indices(&vec![1, 2, 65535]);
    assert!(short);
    assert_eq!(bytes, vec![1, 0, 2, 0, 255, 255]);
}

#[test]
fn encode_indices_uses_u32_for_large_values() {
    let (bytes, short) = encode_indices(&vec![1, 70000]);
    assert!(!short);
    assert_eq!(bytes, vec![1, 0, 0, 0, 0x70, 0x11, 0x01, 0x00]);
}

#[test]
fn bone_children_groups_by_parent() {
    let parents = vec![NO_PARENT, 0, 0, 1];
    let children = bone_children(&parents, 4, 10);
    assert_eq!(children, vec![vec![11, 12], vec![13], vec![], vec![]]);
    assert_eq!(root_joints(&parents, 10), vec![10]);
}

#[test]
fn bone_children_ignores_out_of_range_parents() {
    let parents = vec![NO_PARENT, 7, 0, NO_PARENT];
    let children = bone_children(&parents, 2, 0);
    assert_eq!(children, vec![vec![2], vec![]]);
    assert_eq!(root_joints(&parents, 0), vec![0, 3]);
}

#[test]
fn decode_data_uri_accepts_base64() {
    assert_eq!(decode_data_uri("data:text/plain;base64,aGVsbG8="), Some(b"hello".to_vec()));
    assert_eq!(
        decode_data_uri_with_mime("data:text/plain;base64,aGVsbG8="),
        Some(("text/plain".to_string(), b"hello".to_vec()))
    );
}

#[test]
fn decode_data_uri_rejects_other_input() {
    assert_eq!(decode_data_uri("http://example.com/a.bin"), None);
    assert_eq!(decode_data_uri("data:text/plain,hello"), None);
    assert_eq!(decode_data_uri("data:text/plain;base64,@@@"), None);
    assert_eq!(decode_data_uri_with_mime("data:;base64,!"), None);
}

#[test]
fn octet_stream_data_uri_round_trips() {
    let bytes = vec![0u8, 1, 2, 250, 251, 252, 253];
    let uri = octet_stream_data_uri(&bytes);
    assert!(uri.starts_with("data:application/octet-stream;base64,"));
    assert_eq!(decode_data_uri(&uri), Some(bytes));
    assert_eq!(octet_stream_data_uri(b"hello"), "data:application/octet-stream;base64,aGVsbG8=");
}

#[test]
fn png_data_uri_encodes_bytes() {
    assert_eq!(png_data_uri(b"hi"), "data:image/png;base64,aGk=");
}

#[test]
fn append_aligned_pads_to_four_bytes() {
    let mut bin = vec![1u8, 2, 3, 4, 5];
    let off = append_aligned(&mut bin, &[9]);
    assert_eq!(off, 8);
    assert_eq!(bin, vec![1, 2, 3, 4, 5, 0, 0, 0, 9]);
}

#[test]
fn merge_buffers_aligns_each_buffer() {
    let (merged, offsets) = merge_buffers(&vec![vec![1, 2, 3], vec![4, 5], vec![]]);
    assert_eq!(merged, vec![1, 2, 3, 0, 4, 5, 0, 0]);
    assert_eq!(offsets, vec![0, 4, 8]);
    for (k, data) in [vec![1u8, 2, 3], vec![4, 5]].iter().enumerate() {
        assert_eq!(&merged[offsets[k]..offsets[k] + data.len()], &data[..]);
    }
}

#[test]
fn rebased_view_offset_adds_buffer_base() {
    let offsets = vec![0usize, 4, 8];
    assert_eq!(rebased_view_offset(&offsets, 1, 10), 14);
    assert_eq!(rebased_view_offset(&offsets, 5, 10), 10);
}

#[test]
fn external_texture_uri_points_at_scene_dds() {
    assert_eq!(pko_tools::scene_model::external_texture_uri("wall.bmp"), "../textures/scene/wall.dds");
    assert_eq!(pko_tools::scene_model::external_texture_uri("Wall_01.DDS"), "../textures/scene/Wall_01.dds");
    assert_eq!(pko_tools::scene_model::external_texture_uri("roof"), "../textures/scene/roof.dds");
}

#[test]
fn plan_limits_checked() {
    let indices = vec![0, 1, 2, 3];
    assert!(!pko_tools::scene_model::plan_primitives_within_limits(4, &indices, &Vec::new(), 0, 0));
    assert!(pko_tools::scene_model::plan_primitives_within_limits(0, &indices, &Vec::new(), 0, 0));
    let subsets = vec![LmoSubset { primitive_num: 1, start_index: 2, vertex_num: 3, min_index: 0 }];
    // the subset's range is cut at the end of the buffer: two indices only
    assert!(!pko_tools::scene_model::plan_primitives_within_limits(4, &indices, &subsets, 1, 0));
    let ok = vec![LmoSubset { primitive_num: 1, start_index: 0, vertex_num: 3, min_index: 0 }];
    assert!(pko_tools::scene_model::plan_primitives_within_limits(4, &indices, &ok, 1, 0));
    // the first subset's material index is the base itself
    assert!(pko_tools::scene_model::plan_primitives_within_limits(4, &indices, &ok, 1, u32::MAX));
    let two = vec![
        LmoSubset { primitive_num: 1, start_index: 0, vertex_num: 3, min_index: 0 },
        LmoSubset { primitive_num: 1, start_index: 0, vertex_num: 3, min_index: 0 },
    ];
    // the second subset's own material would be u32::MAX + 1
    assert!(!pko_tools::scene_model::plan_primitives_within_limits(4, &indices, &two, 2, u32::MAX));
    // with one material the second subset falls back to the base
    assert!(pko_tools::scene_model::plan_primitives_within_limits(4, &indices, &two, 1, u32::MAX));
    // an unused subset needs no material index
    let unused = vec![
        LmoSubset { primitive_num: 1, start_index: 0, vertex_num: 3, min_index: 0 },
        LmoSubset { primitive_num: 1, start_index: 9, vertex_num: 3, min_index: 0 },
    ];
    assert!(pko_tools::scene_model::plan_primitives_within_limits(4, &indices, &unused, 2, u32::MAX));
}

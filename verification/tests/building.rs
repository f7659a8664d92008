use pko_tools::building::{plan_building, plan_map_model, BoneChannel, BoneRig, GeomSummary};
use pko_tools::scene_model::{
    material_double_sided, material_texture_source, TextureMode, TextureSource, D3DCULL_NONE, NO_PARENT,
};

fn geom(material_count: usize, primitive_count: usize) -> GeomSummary {
    GeomSummary { material_count, primitive_count, anim_frames: None, rig: None }
}

fn butterfly() -> GeomSummary {
    GeomSummary {
        material_count: 1,
        primitive_count: 1,
        anim_frames: None,
        rig: Some(BoneRig { parents: vec![NO_PARENT, 0, 1, 1], bone_num: 4, frame_num: 10, keyframe_tracks: 4 }),
    }
}

#[test]
fn single_static_geometry_layout() {
    let layout = plan_building(&vec![geom(1, 1)]).unwrap();
    assert_eq!(layout.geoms.len(), 1);
    let g = &layout.geoms[0];
    assert_eq!(g.material_base, 0);
    assert_eq!(g.material_names, vec!["geom0_mat0".to_string()]);
    assert_eq!(g.mesh, Some(0));
    assert_eq!(g.node, Some(0));
    assert!(g.skin.is_none());
    assert_eq!(layout.children, vec![0]);
    assert_eq!(layout.root, 1);
    assert!(layout.animated_nodes.is_empty());
    assert!(layout.bone_channels.is_empty());
}

#[test]
fn geometry_without_materials_gets_default_material() {
    let layout = plan_building(&vec![geom(2, 1), geom(0, 1), geom(3, 2)]).unwrap();
    assert_eq!(layout.geoms[0].material_names, vec!["geom0_mat0".to_string(), "geom0_mat1".to_string()]);
    assert_eq!(layout.geoms[1].material_names, vec!["geom1_default_mat".to_string()]);
    assert_eq!(layout.geoms[1].material_base, 2);
    assert_eq!(layout.geoms[2].material_base, 3);
    assert_eq!(layout.geoms[2].material_names.len(), 3);
}

#[test]
fn empty_geometry_is_skipped_but_keeps_its_materials() {
    let layout = plan_building(&vec![geom(1, 0), geom(1, 3)]).unwrap();
    assert!(layout.geoms[0].mesh.is_none());
    assert!(layout.geoms[0].node.is_none());
    assert_eq!(layout.geoms[1].material_base, 1);
    assert_eq!(layout.geoms[1].mesh, Some(0));
    assert_eq!(layout.geoms[1].node, Some(0));
    assert_eq!(layout.children, vec![0]);
    assert_eq!(layout.root, 1);
}

#[test]
fn no_renderable_geometry_is_an_error() {
    let err = plan_building(&vec![geom(1, 0), geom(0, 0)]).unwrap_err();
    assert_eq!(err, "No renderable geometry in LMO file");
    assert!(plan_building(&Vec::new()).is_err());
}

#[test]
fn joints_come_before_their_geometry_node() {
    let layout = plan_building(&vec![geom(1, 1), butterfly(), geom(1, 1)]).unwrap();
    assert_eq!(layout.geoms[0].node, Some(0));
    let skin = layout.geoms[1].skin.expect("skinned");
    assert_eq!(skin.skin, 0);
    assert_eq!(skin.first_joint, 1);
    assert_eq!(skin.joints, 4);
    assert_eq!(skin.sampler_offset, 0);
    assert_eq!(skin.animated_bones, 4);
    assert_eq!(layout.geoms[1].node, Some(5));
    assert_eq!(layout.geoms[1].mesh, Some(1));
    assert_eq!(layout.geoms[2].node, Some(6));
    assert_eq!(layout.children, vec![0, 5, 6]);
    assert_eq!(layout.root, 7);
}

#[test]
fn five_butterflies_merge_into_forty_bone_channels() {
    let geoms = vec![butterfly(), butterfly(), butterfly(), butterfly(), butterfly()];
    let layout = plan_building(&geoms).unwrap();
    let skins: Vec<_> = layout.geoms.iter().filter_map(|g| g.skin).collect();
    assert_eq!(skins.len(), 5);
    for (i, s) in skins.iter().enumerate() {
        assert_eq!(s.skin as usize, i);
        assert_eq!(s.joints, 4);
        assert_eq!(s.sampler_offset as usize, 8 * i);
    }
    assert_eq!(layout.bone_channels.len(), 40);
    for (i, c) in layout.bone_channels.iter().enumerate() {
        assert_eq!(c.sampler as usize, i);
    }
    // the second butterfly's joints are nodes 5..9; its node is 9
    assert_eq!(layout.bone_channels[8], BoneChannel { sampler: 8, node: 5, rotation: false });
    assert_eq!(layout.bone_channels[9], BoneChannel { sampler: 9, node: 5, rotation: true });
    assert_eq!(layout.bone_channels[15], BoneChannel { sampler: 15, node: 8, rotation: true });
    assert_eq!(layout.geoms[1].node, Some(9));
    assert_eq!(layout.root, 25);
}

#[test]
fn single_frame_rig_has_skin_but_no_channels() {
    let mut g = butterfly();
    if let Some(r) = g.rig.as_mut() {
        r.frame_num = 1;
    }
    let layout = plan_building(&vec![g]).unwrap();
    let skin = layout.geoms[0].skin.expect("skinned");
    assert_eq!(skin.animated_bones, 0);
    assert!(layout.bone_channels.is_empty());
}

#[test]
fn animated_bones_limited_by_tracks_and_header() {
    let mut g = butterfly();
    if let Some(r) = g.rig.as_mut() {
        r.keyframe_tracks = 2;
    }
    let layout = plan_building(&vec![g]).unwrap();
    assert_eq!(layout.geoms[0].skin.unwrap().animated_bones, 2);
    assert_eq!(layout.bone_channels.len(), 4);
}

#[test]
fn node_animation_needs_frames() {
    let mut a = geom(1, 1);
    a.anim_frames = Some(3);
    let mut b = geom(1, 1);
    b.anim_frames = Some(0);
    let layout = plan_building(&vec![a, b, geom(1, 0)]).unwrap();
    assert_eq!(layout.animated_nodes, vec![0]);
}

#[test]
fn double_sided_only_for_cull_none() {
    assert!(material_double_sided(Some(D3DCULL_NONE)));
    assert!(!material_double_sided(Some(3)));
    assert!(!material_double_sided(None));
}

#[test]
fn texture_source_per_mode() {
    assert!(matches!(material_texture_source(TextureMode::Skip, Some("wall.bmp")), TextureSource::Untextured));
    assert!(matches!(material_texture_source(TextureMode::Embed, None), TextureSource::Untextured));
    assert!(matches!(material_texture_source(TextureMode::Embed, Some("")), TextureSource::Untextured));
    match material_texture_source(TextureMode::Embed, Some("wall.bmp")) {
        TextureSource::Embedded { tex_name } => assert_eq!(tex_name, "wall.bmp"),
        other => panic!("expected an embedded texture, got {:?}", other),
    }
    match material_texture_source(TextureMode::ExternalUri, Some("Wall.BMP")) {
        TextureSource::External { uri, name } => {
            assert_eq!(uri, "../textures/scene/Wall.dds");
            assert_eq!(name, "wall");
        }
        other => panic!("expected an external texture, got {:?}", other),
    }
}

#[test]
fn map_model_names_and_single_mesh() {
    let layout = plan_map_model(42, &vec![geom(0, 1), geom(2, 0)], 5, 3);
    assert_eq!(layout.material_bases, vec![5, 6]);
    assert_eq!(layout.material_names[0], vec!["obj42_0_mat".to_string()]);
    assert_eq!(layout.material_names[1], vec!["obj42_1_mat0".to_string(), "obj42_1_mat1".to_string()]);
    assert_eq!(layout.materials_after, 8);
    assert_eq!(layout.mesh, Some(3));
    assert_eq!(layout.mesh_name, "building_42");
}

#[test]
fn map_model_without_primitives_gets_no_mesh() {
    let layout = plan_map_model(7, &vec![geom(1, 0)], 0, 0);
    assert_eq!(layout.mesh, None);
    assert_eq!(layout.materials_after, 1);
}

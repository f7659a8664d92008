use pko_tools::character::{
    first_mesh_file, import_file_names, lab_file_name, lgo_file_name, scene_nodes,
    AnimationSummary, Character, ModelPartSummary,
};

fn character(model: u16, suit_id: u16, parts: [u16; 8]) -> Character {
    Character {
        id: 7,
        name: "Lance".to_string(),
        icon_name: "icon".to_string(),
        model_type: 1,
        ctrl_type: 0,
        model,
        suit_id,
        suit_num: 1,
        mesh_part_0: parts[0],
        mesh_part_1: parts[1],
        mesh_part_2: parts[2],
        mesh_part_3: parts[3],
        mesh_part_4: parts[4],
        mesh_part_5: parts[5],
        mesh_part_6: parts[6],
        mesh_part_7: parts[7],
        feff_id: "0".to_string(),
        eeff_id: 0,
        effect_action_id: "0".to_string(),
        shadow: 1,
        action_id: 3,
    }
}

#[test]
fn part_ids_skip_empty_slots() {
    let c = character(725, 0, [1, 0, 2, 0, 0, 0, 0, 0]);
    assert_eq!(c.part_count(), 2);
    assert_eq!(c.part_model_ids(), vec![725000000, 725000001]);
    let c2 = character(1, 3, [0, 0, 0, 0, 0, 0, 0, 9]);
    assert_eq!(c2.part_model_ids(), vec![1030000]);
}

#[test]
fn metadata_sums_parts() {
    let c = character(725, 0, [1, 0, 2, 0, 0, 0, 0, 0]);
    let models = vec![
        ModelPartSummary { mesh: Some((100, 300)), material_count: Some(2), helpers: Some((1, 2)) },
        ModelPartSummary { mesh: Some((50, 91)), material_count: None, helpers: None },
    ];
    let animation = AnimationSummary { bone_num: 20, frame_num: 40, dummy_num: 3 };
    assert!(c.metadata_inputs_fit(&models));
    let m = c.get_metadata(&models, &animation);
    assert_eq!(m.character_id, 7);
    assert_eq!(m.character_name, "Lance");
    assert_eq!(m.model_id, 725);
    assert_eq!(m.animation_id, 725);
    assert_eq!(m.bone_count, 20);
    assert_eq!(m.frame_count, 40);
    assert_eq!(m.dummy_count, 3);
    assert_eq!(m.vertex_count, 150);
    assert_eq!(m.triangle_count, 130);
    assert_eq!(m.material_count, 2);
    assert_eq!(m.bounding_spheres, 1);
    assert_eq!(m.bounding_boxes, 2);
    assert_eq!(m.model_parts, vec!["0725000000".to_string(), "0725000001".to_string()]);
}

#[test]
fn metadata_inputs_checked() {
    let c = character(725, 0, [1, 0, 0, 0, 0, 0, 0, 0]);
    // one summary per part
    assert!(!c.metadata_inputs_fit(&vec![]));
    // totals must stay within u32
    let big = ModelPartSummary { mesh: Some((u32::MAX, 0)), material_count: None, helpers: None };
    let c2 = character(725, 0, [1, 1, 0, 0, 0, 0, 0, 0]);
    assert!(!c2.metadata_inputs_fit(&vec![big, big]));
    assert!(c.metadata_inputs_fit(&vec![big]));
    // part file ids must fit in u32
    let huge = character(65535, 0, [1, 0, 0, 0, 0, 0, 0, 0]);
    assert!(!huge.metadata_inputs_fit(&vec![big]));
}

#[test]
fn file_names_are_zero_padded() {
    assert_eq!(lgo_file_name(725000001), "0725000001.lgo");
    assert_eq!(lgo_file_name(0), "0000000000.lgo");
    assert_eq!(lab_file_name(725), "0725.lab");
    assert_eq!(lab_file_name(12345), "12345.lab");
}

#[test]
fn import_names_one_file_per_mesh() {
    let r = import_file_names(725, 2);
    assert_eq!(r.animation_file, "0725.lab");
    assert_eq!(r.mesh_count, 2);
    assert_eq!(r.mesh_files, vec!["0725000000.lgo".to_string(), "0725000001.lgo".to_string()]);
    assert_eq!(first_mesh_file(&r, 725), "0725000000.lgo");
    let none = import_file_names(9, 0);
    assert!(none.mesh_files.is_empty());
    assert_eq!(first_mesh_file(&none, 9), "0009000000.lgo");
}

#[test]
fn scene_nodes_root_meshes_then_helpers() {
    assert_eq!(scene_nodes(10, 2, 3), vec![0, 5, 6, 7, 8, 9]);
    assert_eq!(scene_nodes(1, 0, 0), vec![0]);
}

#[test]
fn gltf_layout_names_part_files_and_animation() {
    let c = character(725, 2, [1, 0, 2, 0, 0, 0, 0, 0]);
    let layout = c.gltf_layout(true, true);
    assert_eq!(
        layout.model_files,
        vec!["model/character/0725020000.lgo".to_string(), "model/character/0725020001.lgo".to_string()]
    );
    assert_eq!(layout.mesh_names, vec!["0725020000".to_string(), "0725020001".to_string()]);
    assert_eq!(layout.animation_file, "animation/0725.lab");
    assert!(layout.split_animations);
}

#[test]
fn gltf_layout_splits_only_with_both_tables() {
    let c = character(1, 0, [1, 0, 0, 0, 0, 0, 0, 0]);
    assert!(!c.gltf_layout(true, false).split_animations);
    assert!(!c.gltf_layout(false, true).split_animations);
    assert_eq!(c.gltf_layout(false, false).model_files, vec!["model/character/0001000000.lgo".to_string()]);
}

#[test]
fn character_without_parts_has_no_id_limit() {
    // no part file id is computed, so a large model is accepted
    let c = character(65535, 65535, [0; 8]);
    assert!(c.metadata_inputs_fit(&vec![]));
    let m = c.get_metadata(&vec![], &AnimationSummary { bone_num: 3, frame_num: 4, dummy_num: 5 });
    assert!(m.model_parts.is_empty());
    assert_eq!(m.vertex_count, 0);
    // the last part's id is the largest one: 4294 * 1000000 + 0 + 0 fits, + 1 more part does not
    let edge = character(4294, 0, [1, 0, 0, 0, 0, 0, 0, 0]);
    assert!(edge.metadata_inputs_fit(&vec![ModelPartSummary { mesh: None, material_count: None, helpers: None }]));
    assert_eq!(edge.part_model_ids(), vec![4294000000]);
}

#[test]
fn get_gltf_json_splits_when_tables_present() {
    let c = character(725, 0, [1, 0, 0, 0, 0, 0, 0, 0]);
    let layout = c.get_gltf_json(true);
    assert!(layout.split_animations);
    assert_eq!(layout.model_files, vec!["model/character/0725000000.lgo".to_string()]);
    assert!(!c.get_gltf_json(false).split_animations);
}

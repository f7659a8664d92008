use std::collections::HashMap;

use pko_tools::map::{
    building_display_name, building_list, filter_placements, normalize_query, placement_record,
    placement_records, placement_summary, placement_window, unique_building_ids,
    MapPlacementRecord, SceneEffectInfo, SceneObjInfo, SceneObjPlacement,
};

fn obj(obj_type: u8, obj_id: u32) -> SceneObjPlacement {
    SceneObjPlacement {
        obj_type,
        obj_id,
        world_x_bits: 1.5f32.to_bits(),
        world_y_bits: 2.5f32.to_bits(),
        world_z_bits: 0.0f32.to_bits(),
        yaw_angle: 90,
        scale: 100,
    }
}

fn tables() -> (HashMap<u32, SceneObjInfo>, HashMap<u32, SceneEffectInfo>) {
    let mut buildings = HashMap::new();
    buildings.insert(
        12,
        SceneObjInfo { id: 12, filename: "House01.lmo".to_string(), display_name: "Town House".to_string(), attach_effect_id: 4 },
    );
    buildings.insert(
        13,
        SceneObjInfo { id: 13, filename: "wall.lmo".to_string(), display_name: String::new(), attach_effect_id: 0 },
    );
    let mut effects = HashMap::new();
    effects.insert(7, SceneEffectInfo { id: 7, filename: "Fire.par".to_string(), display_name: "Torch".to_string() });
    (buildings, effects)
}

fn records() -> Vec<MapPlacementRecord> {
    let (b, e) = tables();
    placement_records(&vec![obj(0, 12), obj(1, 7), obj(0, 13), obj(2, 5), obj(0, 99)], &b, &e)
}

#[test]
fn placement_record_building_with_info() {
    let (b, e) = tables();
    let r = placement_record(3, &obj(0, 12), &b, &e);
    assert_eq!(r.index, 3);
    assert_eq!(r.kind, "building");
    assert_eq!(r.display_name, Some("Town House".to_string()));
    assert_eq!(r.asset_name, Some("House01.lmo".to_string()));
    assert_eq!(r.attach_effect_id, Some(4));
    assert_eq!(f32::from_bits(r.world_x_bits), 1.5);
    assert_eq!(r.yaw_angle, 90);
    assert_eq!(r.scale, 100);
}

#[test]
fn placement_records_kinds_and_names() {
    let rs = records();
    assert_eq!(rs.len(), 5);
    assert_eq!(rs.iter().map(|r| r.index).collect::<Vec<_>>(), vec![0, 1, 2, 3, 4]);
    assert_eq!(rs[1].kind, "effect");
    assert_eq!(rs[1].display_name, Some("Torch".to_string()));
    assert_eq!(rs[1].attach_effect_id, None);
    // empty display name is not shown
    assert_eq!(rs[2].display_name, None);
    assert_eq!(rs[2].asset_name, Some("wall.lmo".to_string()));
    assert_eq!(rs[3].kind, "unknown");
    assert_eq!(rs[3].asset_name, None);
    // building without table record
    assert_eq!(rs[4].kind, "building");
    assert_eq!(rs[4].asset_name, None);
    assert_eq!(rs[4].attach_effect_id, None);
}

#[test]
fn placement_summary_counts_types() {
    let s = placement_summary(&records());
    assert_eq!(s.total, 5);
    assert_eq!(s.building_count, 3);
    assert_eq!(s.effect_count, 1);
    assert!(s.building_count + s.effect_count <= s.total);
}

#[test]
fn query_normalized_trimmed_and_lowercased() {
    assert_eq!(normalize_query(&Some("  House ".to_string())), "house");
    assert_eq!(normalize_query(&None), "");
    assert_eq!(normalize_query(&Some("ÄB".to_string())), "Äb");
    // Unicode white space (no-break and ideographic spaces) is trimmed too
    assert_eq!(normalize_query(&Some("\u{a0}\tTower\u{3000}\n".to_string())), "tower");
    assert_eq!(normalize_query(&Some(" \u{2003} ".to_string())), "");
}

#[test]
fn filter_by_type() {
    let rs = records();
    assert_eq!(filter_placements(&rs, "building", ""), vec![0, 2, 4]);
    assert_eq!(filter_placements(&rs, "effect", ""), vec![1]);
    assert_eq!(filter_placements(&rs, "all", ""), vec![0, 1, 2, 3, 4]);
    assert_eq!(filter_placements(&rs, "whatever", ""), vec![0, 1, 2, 3, 4]);
}

#[test]
fn filter_by_text() {
    let rs = records();
    // display name, case-insensitive
    assert_eq!(filter_placements(&rs, "all", "town"), vec![0]);
    // asset name
    assert_eq!(filter_placements(&rs, "all", "fire"), vec![1]);
    // object id or index digits
    assert_eq!(filter_placements(&rs, "all", "99"), vec![4]);
    assert_eq!(filter_placements(&rs, "all", "3"), vec![2, 3]);
    // kind
    assert_eq!(filter_placements(&rs, "all", "unknown"), vec![3]);
    assert_eq!(filter_placements(&rs, "effect", "build"), Vec::<usize>::new());
}

#[test]
fn window_defaults_and_clamps() {
    let w = placement_window(1000, None, None);
    assert_eq!((w.offset, w.limit, w.start, w.end), (0, 200, 0, 200));
    let w = placement_window(1000, Some(990), Some(0));
    assert_eq!((w.offset, w.limit, w.start, w.end), (990, 1, 990, 991));
    let w = placement_window(1000, Some(10), Some(9999));
    assert_eq!((w.offset, w.limit, w.start, w.end), (10, 500, 10, 510));
    let w = placement_window(5, Some(10), Some(3));
    assert_eq!((w.offset, w.limit, w.start, w.end), (10, 3, 5, 5));
    let w = placement_window(5, Some(3), None);
    assert_eq!((w.start, w.end), (3, 5));
}

#[test]
fn building_display_names() {
    assert_eq!(building_display_name("House01.lmo"), "House01");
    assert_eq!(building_display_name("TOWER.LMO"), "TOWER");
    assert_eq!(building_display_name("mixed.Lmo"), "mixed.Lmo");
    assert_eq!(building_display_name("noext"), "noext");
    assert_eq!(building_display_name(".lmo"), "");
}

#[test]
fn building_list_sorted_by_id() {
    let infos = vec![
        SceneObjInfo { id: 30, filename: "c.lmo".to_string(), display_name: String::new(), attach_effect_id: 0 },
        SceneObjInfo { id: 10, filename: "A.LMO".to_string(), display_name: String::new(), attach_effect_id: 0 },
        SceneObjInfo { id: 20, filename: "b.bmp".to_string(), display_name: String::new(), attach_effect_id: 0 },
    ];
    let list = building_list(&infos);
    assert_eq!(list.iter().map(|e| e.id).collect::<Vec<_>>(), vec![10, 20, 30]);
    assert_eq!(list[0].filename, "A.LMO");
    assert_eq!(list[0].display_name, "A");
    assert_eq!(list[1].display_name, "b.bmp");
    assert_eq!(list[2].display_name, "c");
    assert!(building_list(&vec![]).is_empty());
}

#[test]
fn unique_building_ids_sorted_and_deduplicated() {
    let objects = vec![obj(0, 12), obj(1, 3), obj(0, 5), obj(0, 12), obj(2, 1), obj(0, 5)];
    assert_eq!(unique_building_ids(&objects), vec![5, 12]);
    assert!(unique_building_ids(&vec![obj(1, 1)]).is_empty());
}

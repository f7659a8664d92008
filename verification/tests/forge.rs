use std::collections::HashMap;

use pko_tools::forge::{
    forge_effect_level, item_category_availability, plan_forge_effect, plan_forge_trace,
    ForgeGemTrace, ForgeTraceGemInput,
};
use pko_tools::refine::{
    ItemRefineInfoEntry, ItemRefineInfoTable, RefineEffectEntry, RefineEffectTable, StoneInfoEntry,
    StoneInfoTable,
};

const WEAPON: u32 = 5001;

fn refine_info() -> ItemRefineInfoTable {
    let mut values = vec![0i16; 14];
    values[1] = 3; // category 2
    values[4] = 3; // category 5
    values[6] = -2; // category 7: negative ids select nothing in previews
    values[7] = 99; // category 8: no such effect record
    let mut entries = HashMap::new();
    entries.insert(
        WEAPON as i32,
        ItemRefineInfoEntry { id: WEAPON as i32, values, cha_effect_scale: vec![1.0f32.to_bits(); 4] },
    );
    ItemRefineInfoTable { entries }
}

fn effects() -> RefineEffectTable {
    let mut effect_ids = vec![0i16; 16];
    effect_ids[0] = 10;
    effect_ids[1] = 11;
    effect_ids[4] = 20;
    effect_ids[5] = 21;
    effect_ids[7] = 23;
    RefineEffectTable {
        entries: vec![
            RefineEffectEntry { id: 3, light_id: 7, effect_ids, dummy_ids: vec![1, 2, 3, 4] },
            RefineEffectEntry { id: 3, light_id: 8, effect_ids: vec![0; 16], dummy_ids: vec![0; 4] },
            RefineEffectEntry { id: 4, light_id: 0, effect_ids: vec![0; 16], dummy_ids: vec![0; 4] },
        ],
    }
}

fn scene_files() -> HashMap<u32, String> {
    let mut m = HashMap::new();
    m.insert(201, "a.par".to_string());
    m.insert(211, "b.par".to_string());
    m.insert(101, "c.par".to_string());
    m
}

fn stones() -> StoneInfoTable {
    let mut by_item_id = HashMap::new();
    by_item_id.insert(880, StoneInfoEntry { id: 1, item_id: 880, equip_pos: vec![1, 0, 0], stone_type: 1, hint_func: "h1".to_string() });
    by_item_id.insert(881, StoneInfoEntry { id: 2, item_id: 881, equip_pos: vec![1, 0, 0], stone_type: 2, hint_func: "h2".to_string() });
    StoneInfoTable { by_item_id }
}

#[test]
fn forge_effect_level_tiers() {
    assert_eq!(forge_effect_level(0), 0);
    assert_eq!(forge_effect_level(1), 0);
    assert_eq!(forge_effect_level(4), 0);
    assert_eq!(forge_effect_level(5), 1);
    assert_eq!(forge_effect_level(9), 2);
    assert_eq!(forge_effect_level(12), 2);
    assert_eq!(forge_effect_level(13), 3);
    assert_eq!(forge_effect_level(1000), 3);
}

#[test]
fn forge_effect_level_never_decreases() {
    let mut prev = forge_effect_level(0);
    for level in 1..=40 {
        let cur = forge_effect_level(level);
        assert!(cur >= prev);
        prev = cur;
    }
}

#[test]
fn category_availability_lists_all_fourteen() {
    let r = item_category_availability(WEAPON, &refine_info(), &effects());
    assert_eq!(r.item_id, WEAPON);
    assert_eq!(r.categories.len(), 14);
    for (i, c) in r.categories.iter().enumerate() {
        assert_eq!(c.category, i as u32 + 1);
    }
    assert!(!r.categories[0].available);
    assert_eq!(r.categories[0].lit_id, 0);
    // first record with the id wins
    assert!(r.categories[1].available);
    assert_eq!(r.categories[1].lit_id, 7);
    assert!(r.categories[1].has_particles);
    // an id without record: available, but nothing to show
    assert!(r.categories[7].available);
    assert_eq!(r.categories[7].lit_id, 0);
    assert!(!r.categories[7].has_particles);
}

#[test]
fn category_availability_unknown_item() {
    let r = item_category_availability(1, &refine_info(), &effects());
    assert_eq!(r.categories.len(), 14);
    assert!(r.categories.iter().all(|c| !c.available && c.lit_id == 0 && !c.has_particles));
}

#[test]
fn forge_preview_resolves_particles() {
    let plan = plan_forge_effect(&refine_info(), &effects(), &scene_files(), WEAPON, 5, 1, 2);
    assert_eq!(plan.effect_level, 1);
    assert_eq!(plan.lit_id, Some(7));
    assert_eq!(plan.scale_index, Some(1));
    assert_eq!(plan.particles.len(), 2);
    assert_eq!(plan.particles[0].par_file, "a.par");
    assert_eq!(plan.particles[0].effect_id, 201);
    assert_eq!(plan.particles[0].dummy_id, 1);
    assert_eq!(plan.particles[1].par_file, "b.par");
    assert_eq!(plan.particles[1].effect_id, 211);
    assert_eq!(plan.particles[1].dummy_id, 2);
}

#[test]
fn forge_preview_character_index_capped() {
    let plan = plan_forge_effect(&refine_info(), &effects(), &scene_files(), WEAPON, 1, 9, 2);
    assert_eq!(plan.scale_index, Some(3));
    assert_eq!(plan.effect_level, 0);
    assert!(plan.particles.is_empty());
}

#[test]
fn forge_preview_empty_without_chain() {
    let info = refine_info();
    let fx = effects();
    let files = scene_files();
    for (level, category, item) in [(0, 2, WEAPON), (5, 0, WEAPON), (5, 15, WEAPON), (5, 1, WEAPON), (5, 7, WEAPON), (5, 8, WEAPON), (5, 2, 1)] {
        let plan = plan_forge_effect(&info, &fx, &files, item, level, 0, category);
        assert_eq!(plan.lit_id, None);
        assert!(plan.particles.is_empty());
        assert_eq!(plan.scale_index, None);
        assert_eq!(plan.effect_level, forge_effect_level(level));
    }
}

#[test]
fn gem_trace_collects_slots_and_levels() {
    let stone_info = stones();
    let mut t = ForgeGemTrace::new();
    assert_eq!(t.stone_types, vec![-1, -1, -1]);
    let g0 = ForgeTraceGemInput { item_id: 880, level: 3 };
    let g1 = ForgeTraceGemInput { item_id: 881, level: 2 };
    assert!(g0.is_filled());
    assert!(!ForgeTraceGemInput { item_id: 880, level: 0 }.is_filled());
    assert!(!ForgeTraceGemInput { item_id: 0, level: 4 }.is_filled());
    t.add_gem(0, &g0, "Gem A".to_string(), &stone_info).unwrap();
    t.add_gem(1, &g1, "Gem B".to_string(), &stone_info).unwrap();
    assert_eq!(t.stone_types, vec![1, 2, -1]);
    assert_eq!(t.total_level, 5);
    assert_eq!(t.gems.len(), 2);
    assert_eq!(t.gems[1].slot, 2);
    assert_eq!(t.gems[1].item_name, "Gem B");
    assert_eq!(t.gems[1].stone_info_id, 2);
    assert_eq!(t.gems[1].stone_type, 2);
}

#[test]
fn gem_trace_missing_stone_is_an_error() {
    let stone_info = stones();
    let mut t = ForgeGemTrace::new();
    let err = t
        .add_gem(2, &ForgeTraceGemInput { item_id: 999, level: 1 }, "X".to_string(), &stone_info)
        .unwrap_err();
    assert_eq!(err, "StoneInfo entry not found for gem item 999");
    assert_eq!(t.stone_types, vec![-1, -1, -1]);
    assert_eq!(t.total_level, 0);
    assert!(t.gems.is_empty());
}

#[test]
fn forge_trace_resolves_lanes() {
    let stone_info = stones();
    let mut t = ForgeGemTrace::new();
    t.add_gem(0, &ForgeTraceGemInput { item_id: 880, level: 3 }, "A".to_string(), &stone_info).unwrap();
    t.add_gem(1, &ForgeTraceGemInput { item_id: 881, level: 2 }, "B".to_string(), &stone_info).unwrap();
    let plan = plan_forge_trace(&refine_info(), &effects(), &scene_files(), WEAPON, 1, &t);
    assert_eq!(plan.total_level, 5);
    assert_eq!(plan.effect_level, 1);
    // stone types 1, 2, -1: sum 2, product -2
    assert_eq!(plan.category, 5);
    assert_eq!(plan.item_refine_values.len(), 14);
    assert_eq!(plan.refine_effect_id, Some(3));
    assert_eq!(plan.light_id, Some(7));
    assert_eq!(plan.scale_index, 1);
    assert_eq!(plan.lanes.len(), 3);
    assert_eq!(plan.lanes[0].lane_tier, 0);
    assert_eq!(plan.lanes[0].base_effect_id, 20);
    assert_eq!(plan.lanes[0].final_effect_id, 201);
    assert_eq!(plan.lanes[0].par_file, Some("a.par".to_string()));
    assert_eq!(plan.lanes[1].final_effect_id, 211);
    assert_eq!(plan.lanes[2].lane_tier, 3);
    assert_eq!(plan.lanes[2].final_effect_id, 231);
    assert_eq!(plan.lanes[2].dummy_id, 4);
    assert_eq!(plan.lanes[2].par_file, None);
}

#[test]
fn forge_trace_without_gems_or_record() {
    let t = ForgeGemTrace::new();
    let plan = plan_forge_trace(&refine_info(), &effects(), &scene_files(), 42, 0, &t);
    assert_eq!(plan.total_level, 0);
    assert_eq!(plan.effect_level, 0);
    assert_eq!(plan.item_refine_values, vec![0; 14]);
    assert_eq!(plan.refine_effect_id, None);
    assert_eq!(plan.light_id, None);
    assert!(plan.lanes.is_empty());
}

#[test]
fn trace_limits_checked() {
    let stone_info = stones();
    let mut t = ForgeGemTrace::new();
    t.add_gem(0, &ForgeTraceGemInput { item_id: 880, level: 3 }, "A".to_string(), &stone_info).unwrap();
    t.add_gem(1, &ForgeTraceGemInput { item_id: 881, level: 2 }, "B".to_string(), &stone_info).unwrap();
    assert!(pko_tools::forge::forge_trace_within_limits(&refine_info(), &effects(), WEAPON, 1, &t));
    // a negative base id becomes a huge lane id
    let mut fx = effects();
    fx.entries[0].effect_ids[4] = -1;
    assert!(!pko_tools::forge::forge_trace_within_limits(&refine_info(), &fx, WEAPON, 1, &t));
    // the extreme stone types overflow the product
    let mut big = ForgeGemTrace::new();
    big.stone_types = vec![i32::MAX, i32::MAX - 1, 3];
    assert!(!pko_tools::forge::forge_trace_within_limits(&refine_info(), &effects(), WEAPON, 1, &big));
}

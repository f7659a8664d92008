use pko_tools::refine::{
    parse_item_refine_info, parse_refine_effects, parse_stone_info, stone_effect_category,
    table_layout_ok, ITEM_REFINE_READ_SIZE, RAW_DATA_INFO_SIZE, REFINE_EFFECT_READ_SIZE,
    STONE_INFO_READ_SIZE,
};

#[test]
fn stone_effect_all_same_type_returns_zero() {
    assert_eq!(stone_effect_category(1, 1, 1), 1);
}

#[test]
fn stone_effect_all_zeros() {
    assert_eq!(stone_effect_category(0, 0, 0), 0);
}

#[test]
fn stone_effect_category_2() {
    assert_eq!(stone_effect_category(2, 2, 2), 2);
}

#[test]
fn stone_effect_category_3() {
    assert_eq!(stone_effect_category(3, 3, 3), 3);
}

#[test]
fn stone_effect_category_4() {
    assert_eq!(stone_effect_category(4, 4, 4), 4);
}

#[test]
fn stone_effect_distinct_types_category_5() {
    assert_eq!(stone_effect_category(1, 2, 3), 11);
}

#[test]
fn stone_effect_category_11_to_14() {
    assert_eq!(stone_effect_category(1, 2, 3), 11);
    assert_eq!(stone_effect_category(1, 2, 4), 12);
    assert_eq!(stone_effect_category(1, 2, 5), 13);
    assert_eq!(stone_effect_category(1, 2, 6), 14);
}

#[test]
fn stone_effect_two_same_one_different() {
    assert_eq!(stone_effect_category(1, 1, 3), 6);
}

#[test]
fn stone_effect_product_negative_sum_4_disambiguate() {
    assert_eq!(stone_effect_category(1, 1, 4), 7);
    assert_eq!(stone_effect_category(2, 2, 3), 8);
}

#[test]
fn stone_effect_order_independence() {
    let expected = stone_effect_category(1, 2, 3);
    assert_eq!(stone_effect_category(2, 1, 3), expected);
    assert_eq!(stone_effect_category(3, 1, 2), expected);
    assert_eq!(stone_effect_category(3, 2, 1), expected);
}

#[test]
fn stone_effect_order_independence_with_duplicates() {
    // (a, a, b) in every order clears one of the pair
    let expected = stone_effect_category(1, 1, 3);
    assert_eq!(stone_effect_category(1, 3, 1), expected);
    assert_eq!(stone_effect_category(3, 1, 1), expected);
}

#[test]
fn stone_effect_remaining_categories() {
    // product < 0: sums 2, 5, 6
    assert_eq!(stone_effect_category(1, 1, 2), 5); // -1 + 1 + 2 = 2, product -2
    assert_eq!(stone_effect_category(2, 2, 4), 9); // -1 + 2 + 4 = 5, product -8
    assert_eq!(stone_effect_category(2, 2, 5), 10); // -1 + 2 + 5 = 6, product -10
    // product > 0: sum -1 and 0 handled above; sum outside the table
    assert_eq!(stone_effect_category(5, 5, 5), 0); // -1 -1 + 5 = 3, product 5
    // product < 0, sum 4 but product neither -4 nor -6
    assert_eq!(stone_effect_category(-2, 1, 5), 0); // sum 4, product -10
    // the pair (3, 3) leaves -2, -1, 3: sum 0, product 6
    assert_eq!(stone_effect_category(-2, 3, 3), 2);
}

fn build_refine_effect_entry(
    id: i32,
    light_id: i32,
    effect_ids: &[i16; 16],
    dummy_ids: &[i8; 4],
) -> Vec<u8> {
    let entry_size = 164usize;
    let mut buf = vec![0u8; entry_size];
    buf[0..4].copy_from_slice(&1i32.to_le_bytes());
    buf[100..104].copy_from_slice(&id.to_le_bytes());
    let d = RAW_DATA_INFO_SIZE;
    buf[d..d + 4].copy_from_slice(&light_id.to_le_bytes());
    for (j, &eid) in effect_ids.iter().enumerate() {
        let off = d + 4 + j * 2;
        buf[off..off + 2].copy_from_slice(&eid.to_le_bytes());
    }
    for (j, &did) in dummy_ids.iter().enumerate() {
        buf[d + 4 + 32 + j] = did as u8;
    }
    buf
}

#[test]
fn parse_refine_effects_single_entry() {
    let effect_ids: [i16; 16] = [10, 20, 30, 40, 0, 0, 0, 0, 0, 0, 0, 0, 0, 0, 0, 0];
    let dummy_ids: [i8; 4] = [1, 2, 3, 0];
    let entry = build_refine_effect_entry(42, 7, &effect_ids, &dummy_ids);

    let mut data = Vec::new();
    data.extend_from_slice(&164u32.to_le_bytes());
    data.extend_from_slice(&entry);

    let table = parse_refine_effects(&data).unwrap();
    assert_eq!(table.entries.len(), 1);
    assert_eq!(table.entries[0].id, 42);
    assert_eq!(table.entries[0].light_id, 7);
    assert_eq!(table.entries[0].effect_ids.len(), 16);
    assert_eq!(table.entries[0].effect_ids[0], 10);
    assert_eq!(table.entries[0].effect_ids[1], 20);
    assert_eq!(table.entries[0].effect_ids[2], 30);
    assert_eq!(table.entries[0].effect_ids[3], 40);
    assert_eq!(table.entries[0].dummy_ids, vec![1, 2, 3, 0]);
}

#[test]
fn parse_refine_effects_skips_non_existent() {
    let effect_ids: [i16; 16] = [0; 16];
    let dummy_ids: [i8; 4] = [0; 4];

    let mut entry1 = build_refine_effect_entry(1, 0, &effect_ids, &dummy_ids);
    entry1[0..4].copy_from_slice(&0i32.to_le_bytes());
    let entry2 = build_refine_effect_entry(2, 5, &effect_ids, &dummy_ids);

    let mut data = Vec::new();
    data.extend_from_slice(&164u32.to_le_bytes());
    data.extend_from_slice(&entry1);
    data.extend_from_slice(&entry2);

    let table = parse_refine_effects(&data).unwrap();
    assert_eq!(table.entries.len(), 1);
    assert_eq!(table.entries[0].id, 2);
    assert_eq!(table.entries[0].light_id, 5);
}

#[test]
fn parse_refine_effects_empty_data() {
    let table = parse_refine_effects(&[]).unwrap();
    assert!(table.entries.is_empty());

    let table = parse_refine_effects(&0u32.to_le_bytes()).unwrap();
    assert!(table.entries.is_empty());
}

#[test]
fn parse_refine_effects_negative_values_and_trailing_bytes() {
    let mut effect_ids: [i16; 16] = [0; 16];
    effect_ids[15] = -2;
    let dummy_ids: [i8; 4] = [-1, 0, 0, 127];
    let entry = build_refine_effect_entry(-5, -9, &effect_ids, &dummy_ids);
    let mut data = Vec::new();
    data.extend_from_slice(&164u32.to_le_bytes());
    data.extend_from_slice(&entry);
    data.extend_from_slice(&[9u8; 100]); // an incomplete record is ignored
    assert!(table_layout_ok(&data, REFINE_EFFECT_READ_SIZE));
    let table = parse_refine_effects(&data).unwrap();
    assert_eq!(table.entries.len(), 1);
    assert_eq!(table.entries[0].id, -5);
    assert_eq!(table.entries[0].light_id, -9);
    assert_eq!(table.entries[0].effect_ids[15], -2);
    assert_eq!(table.entries[0].dummy_ids, vec![-1, 0, 0, 127]);
}

#[test]
fn table_layout_rejects_short_records() {
    // a present record of 120 bytes cannot hold the refine effect fields
    let mut data = Vec::new();
    data.extend_from_slice(&120u32.to_le_bytes());
    let mut rec = vec![0u8; 120];
    rec[0] = 1;
    data.extend_from_slice(&rec);
    assert!(!table_layout_ok(&data, REFINE_EFFECT_READ_SIZE));
    // an absent record of the same size is fine
    data[4] = 0;
    assert!(table_layout_ok(&data, REFINE_EFFECT_READ_SIZE));
    // a record too short even for bExist
    let mut tiny = Vec::new();
    tiny.extend_from_slice(&2u32.to_le_bytes());
    tiny.extend_from_slice(&[0u8, 0u8]);
    assert!(!table_layout_ok(&tiny, REFINE_EFFECT_READ_SIZE));
}

fn build_refine_info_entry(id: i32, values: &[i16; 14], scales: &[f32; 4]) -> Vec<u8> {
    let entry_size = 152usize;
    let mut buf = vec![0u8; entry_size];
    buf[0..4].copy_from_slice(&1i32.to_le_bytes());
    buf[100..104].copy_from_slice(&id.to_le_bytes());
    let d = RAW_DATA_INFO_SIZE;
    for (j, &v) in values.iter().enumerate() {
        let off = d + j * 2;
        buf[off..off + 2].copy_from_slice(&v.to_le_bytes());
    }
    for (j, &s) in scales.iter().enumerate() {
        let off = d + 28 + j * 4;
        buf[off..off + 4].copy_from_slice(&s.to_le_bytes());
    }
    buf
}

#[test]
fn parse_item_refine_info_single_entry() {
    let values: [i16; 14] = [1, 2, 3, 4, 5, 6, 7, 8, 9, 10, 11, 12, 13, 14];
    let scales: [f32; 4] = [1.0, 1.5, 0.8, 2.0];
    let entry = build_refine_info_entry(100, &values, &scales);

    let mut data = Vec::new();
    data.extend_from_slice(&152u32.to_le_bytes());
    data.extend_from_slice(&entry);

    let table = parse_item_refine_info(&data).unwrap();
    assert_eq!(table.entries.len(), 1);
    let e = table.entries.get(&100).unwrap();
    assert_eq!(e.id, 100);
    assert_eq!(e.values, values.to_vec());
    assert_eq!(f32::from_bits(e.cha_effect_scale[0]), 1.0);
    assert_eq!(f32::from_bits(e.cha_effect_scale[1]), 1.5);
    assert_eq!(f32::from_bits(e.cha_effect_scale[2]), 0.8);
    assert_eq!(f32::from_bits(e.cha_effect_scale[3]), 2.0);
}

#[test]
fn parse_item_refine_info_empty_data() {
    let table = parse_item_refine_info(&[]).unwrap();
    assert!(table.entries.is_empty());
}

#[test]
fn parse_item_refine_info_multiple_entries() {
    let values1: [i16; 14] = [10; 14];
    let values2: [i16; 14] = [20; 14];
    let scales: [f32; 4] = [1.0; 4];

    let entry1 = build_refine_info_entry(5, &values1, &scales);
    let entry2 = build_refine_info_entry(10, &values2, &scales);

    let mut data = Vec::new();
    data.extend_from_slice(&152u32.to_le_bytes());
    data.extend_from_slice(&entry1);
    data.extend_from_slice(&entry2);

    let table = parse_item_refine_info(&data).unwrap();
    assert_eq!(table.entries.len(), 2);
    assert_eq!(table.entries.get(&5).unwrap().values[0], 10);
    assert_eq!(table.entries.get(&10).unwrap().values[0], 20);
}

#[test]
fn parse_item_refine_info_later_record_wins() {
    let entry1 = build_refine_info_entry(7, &[1; 14], &[1.0; 4]);
    let entry2 = build_refine_info_entry(7, &[2; 14], &[1.0; 4]);
    let mut data = Vec::new();
    data.extend_from_slice(&152u32.to_le_bytes());
    data.extend_from_slice(&entry1);
    data.extend_from_slice(&entry2);
    assert!(table_layout_ok(&data, ITEM_REFINE_READ_SIZE));
    let table = parse_item_refine_info(&data).unwrap();
    assert_eq!(table.entries.len(), 1);
    assert_eq!(table.entries.get(&7).unwrap().values[0], 2);
}

fn build_stone_entry(id: i32, item_id: i32, stone_type: i32, hint: &[u8]) -> Vec<u8> {
    let mut buf = vec![0u8; 192];
    buf[0..4].copy_from_slice(&1i32.to_le_bytes());
    buf[100..104].copy_from_slice(&id.to_le_bytes());
    let d = RAW_DATA_INFO_SIZE;
    buf[d..d + 4].copy_from_slice(&item_id.to_le_bytes());
    for j in 0..3 {
        let off = d + 4 + j * 4;
        buf[off..off + 4].copy_from_slice(&((j as i32) + 1).to_le_bytes());
    }
    buf[d + 16..d + 20].copy_from_slice(&stone_type.to_le_bytes());
    buf[d + 20..d + 20 + hint.len()].copy_from_slice(hint);
    buf
}

#[test]
fn parse_stone_info_keys_by_item_id() {
    let mut data = Vec::new();
    data.extend_from_slice(&192u32.to_le_bytes());
    data.extend_from_slice(&build_stone_entry(1, 3885, 4, b"StoneHint_A"));
    data.extend_from_slice(&build_stone_entry(2, 3886, 6, b"StoneHint_B"));
    assert!(table_layout_ok(&data, STONE_INFO_READ_SIZE));
    let table = parse_stone_info(&data).unwrap();
    assert_eq!(table.by_item_id.len(), 2);
    let a = table.by_item_id.get(&3885).unwrap();
    assert_eq!(a.id, 1);
    assert_eq!(a.stone_type, 4);
    assert_eq!(a.equip_pos, vec![1, 2, 3]);
    assert_eq!(a.hint_func, "StoneHint_A");
    let b = table.by_item_id.get(&3886).unwrap();
    assert_eq!(b.stone_type, 6);
    assert_eq!(b.hint_func, "StoneHint_B");
}

#[test]
fn parse_stone_info_full_width_and_invalid_hint() {
    let mut data = Vec::new();
    data.extend_from_slice(&192u32.to_le_bytes());
    data.extend_from_slice(&build_stone_entry(1, 10, 1, &[b'x'; 64]));
    data.extend_from_slice(&build_stone_entry(2, 11, 1, &[0xff, b'a']));
    let table = parse_stone_info(&data).unwrap();
    assert_eq!(table.by_item_id.get(&10).unwrap().hint_func, "x".repeat(64));
    assert_eq!(table.by_item_id.get(&11).unwrap().hint_func, "\u{FFFD}a");
}

#[test]
fn stone_type_limits() {
    use_limits_check();
}

fn use_limits_check() {
    assert!(pko_tools::refine::stone_types_within_limits(1, 2, 3));
    assert!(pko_tools::refine::stone_types_within_limits(i32::MAX, i32::MAX, 1));
    assert!(!pko_tools::refine::stone_types_within_limits(i32::MAX, 2, 3));
    assert!(!pko_tools::refine::stone_types_within_limits(70000, 70000 - 1, 1));
}

#[test]
fn parse_stone_info_single_record_abc_hint() {
    let mut data = 192u32.to_le_bytes().to_vec();
    let mut rec = vec![0u8; 192];
    rec[0..4].copy_from_slice(&1i32.to_le_bytes());
    rec[100..104].copy_from_slice(&7i32.to_le_bytes());
    rec[108..112].copy_from_slice(&5001i32.to_le_bytes());
    rec[112..116].copy_from_slice(&1i32.to_le_bytes());
    rec[116..120].copy_from_slice(&2i32.to_le_bytes());
    rec[120..124].copy_from_slice(&3i32.to_le_bytes());
    rec[124..128].copy_from_slice(&4i32.to_le_bytes());
    rec[128..132].copy_from_slice(&[0x61, 0x62, 0x63, 0x00]);
    data.extend_from_slice(&rec);
    let t = parse_stone_info(&data).unwrap();
    assert_eq!(t.by_item_id.len(), 1);
    let e = t.by_item_id.get(&5001).unwrap();
    assert_eq!(e.id, 7);
    assert_eq!(e.item_id, 5001);
    assert_eq!(e.equip_pos, vec![1, 2, 3]);
    assert_eq!(e.stone_type, 4);
    assert_eq!(e.hint_func, "abc");
}

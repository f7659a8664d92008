use pko_tools::shadeinfo::{PkoShadeinfo, PkoShadeinfo_ShadeInfoEntry, ShadeinfoError, SHADE_RECORD_SIZE};

fn record(id: i32, data_name: &[u8], name: &[u8], size: f32, color: [i32; 4]) -> Vec<u8> {
    let mut r = vec![0u8; SHADE_RECORD_SIZE];
    r[0..4].copy_from_slice(&1u32.to_le_bytes());
    r[4..8].copy_from_slice(&(id - 1).to_le_bytes());
    r[8..8 + data_name.len()].copy_from_slice(data_name);
    r[84..88].copy_from_slice(&1u32.to_le_bytes());
    r[100..104].copy_from_slice(&id.to_le_bytes());
    r[108..108 + name.len()].copy_from_slice(name);
    r[124..128].copy_from_slice(&5i32.to_le_bytes());
    r[128..132].copy_from_slice(&size.to_bits().to_le_bytes());
    r[132..136].copy_from_slice(&1i32.to_le_bytes());
    r[136..140].copy_from_slice(&2i32.to_le_bytes());
    r[140..144].copy_from_slice(&4i32.to_le_bytes());
    r[148..152].copy_from_slice(&1i32.to_le_bytes());
    for (k, c) in color.iter().enumerate() {
        r[152 + 4 * k..156 + 4 * k].copy_from_slice(&c.to_le_bytes());
    }
    r[168..172].copy_from_slice(&1i32.to_le_bytes());
    r
}

fn table(records: &[Vec<u8>]) -> Vec<u8> {
    let mut data = 172u32.to_le_bytes().to_vec();
    for r in records {
        data.extend_from_slice(r);
    }
    data
}

#[test]
fn reads_header_and_records() {
    let data = table(&[
        record(1, b"shade_circle", b"Circle", 1.5, [255, 128, 0, 200]),
        record(2, b"shade_aoe", b"AoE", 3.0, [1, 2, 3, 4]),
    ]);
    let t = PkoShadeinfo::read(&data).unwrap();
    assert_eq!(t.record_size(), 172);
    assert!(t.has_expected_record_size());
    assert_eq!(t.entry_count(), 2);
    let e: &PkoShadeinfo_ShadeInfoEntry = &t.entries()[0];
    assert!(e.b_exist());
    assert!(e.b_enable());
    assert_eq!(e.b_exist_raw(), 1);
    assert_eq!(e.n_index(), 0);
    assert_eq!(e.sz_data_name(), "shade_circle");
    assert_eq!(e.sz_name(), "Circle");
    assert_eq!(e.n_id(), 1);
    assert_eq!(e.n_photo_tex_id(), 5);
    assert_eq!(f32::from_bits(e.f_size_bits()), 1.5);
    assert_eq!(e.n_ani(), 1);
    assert_eq!(e.n_row(), 2);
    assert_eq!(e.n_col(), 4);
    assert_eq!(e.n_use_alpha_test(), 0);
    assert_eq!(e.n_alpha_type(), 1);
    assert_eq!((e.n_color_r(), e.n_color_g(), e.n_color_b(), e.n_color_a()), (255, 128, 0, 200));
    assert_eq!(e.n_type(), 1);
    assert_eq!(e.dw_last_use_tick(), 0);
    assert_eq!(e.p_data(), 0);
    assert_eq!(e.dw_pack_offset(), 0);
    assert_eq!(e.dw_data_size(), 0);
    assert_eq!(e.dw_load_cnt(), 0);
    assert_eq!(e.b_enable_raw(), 1);
    assert_eq!(t.entries()[1].n_id(), 2);
    assert_eq!(t.entries()[1].sz_data_name(), "shade_aoe");
}

#[test]
fn header_only_table_is_empty() {
    let t = PkoShadeinfo::read(&168u32.to_le_bytes()).unwrap();
    assert_eq!(t.entry_count(), 0);
    assert!(!t.has_expected_record_size());
}

#[test]
fn truncated_tables_are_rejected() {
    assert_eq!(PkoShadeinfo::read(&[1, 2]).unwrap_err(), ShadeinfoError::EndOfStream);
    let mut data = table(&[record(1, b"a", b"b", 1.0, [0; 4])]);
    data.pop();
    assert_eq!(PkoShadeinfo::read(&data).unwrap_err(), ShadeinfoError::EndOfStream);
}

#[test]
fn names_stop_at_nul_and_replace_non_ascii() {
    let mut r = record(1, b"ab\0cd", b"n\xE9", 1.0, [0; 4]);
    // a full-width name without terminator
    r[108..124].copy_from_slice(b"0123456789abcdef");
    let t = PkoShadeinfo::read(&table(&[r.clone()])).unwrap();
    assert_eq!(t.entries()[0].sz_data_name(), "ab");
    assert_eq!(t.entries()[0].sz_name(), "0123456789abcdef");
    let mut r2 = r;
    r2[108..124].copy_from_slice(&[b'n', 0xE9, 0, 0, 0, 0, 0, 0, 0, 0, 0, 0, 0, 0, 0, 0]);
    let t2 = PkoShadeinfo::read(&table(&[r2])).unwrap();
    assert_eq!(t2.entries()[0].sz_name(), "n\u{FFFD}");
}

use pko_tools::item::{
    find_case_insensitive, forge_alpha_quarters, item_export_file_name, ItemExportResult,
    ItemImportResult, FORGE_ALPHA_DENOMINATOR,
};

/// The glow opacity as a fraction: the quarter steps over their denominator.
fn compute_forge_alpha(level: u32) -> f32 {
    forge_alpha_quarters(level) as f32 / FORGE_ALPHA_DENOMINATOR as f32
}

#[test]
fn export_file_name_pattern() {
    assert_eq!(item_export_file_name(5001, "0100"), "item_5001_0100.gltf");
    assert_eq!(item_export_file_name(0, ""), "item_0_.gltf");
}

#[test]
fn forge_alpha_level_zero() {
    // Level 0 and 1 both return base alpha = 80/255
    let a = compute_forge_alpha(0);
    assert!((a - 80.0 / 255.0).abs() < 1e-6);
}

#[test]
fn forge_alpha_level_one() {
    let a = compute_forge_alpha(1);
    assert!((a - 80.0 / 255.0).abs() < 1e-6);
}

#[test]
fn forge_alpha_level_thirteen_or_above() {
    assert!((compute_forge_alpha(13) - 1.0).abs() < 1e-6);
    assert!((compute_forge_alpha(14) - 1.0).abs() < 1e-6);
    assert!((compute_forge_alpha(100) - 1.0).abs() < 1e-6);
}

#[test]
fn forge_alpha_tier_boundaries() {
    let a5 = compute_forge_alpha(5);
    assert!((a5 - 140.0 / 255.0).abs() < 1e-6);
    let a9 = compute_forge_alpha(9);
    assert!((a9 - 200.0 / 255.0).abs() < 1e-6);
}

#[test]
fn forge_alpha_mid_tier_interpolation() {
    // Level 3 → tl=2, tier=0, frac=2/4=0.5: (80 + 0.5 * (140-80)) / 255 = 110/255
    let a3 = compute_forge_alpha(3);
    assert!((a3 - 110.0 / 255.0).abs() < 1e-6);
}

#[test]
fn forge_alpha_monotonically_increasing() {
    let mut prev = compute_forge_alpha(0);
    for level in 1..=12 {
        let cur = compute_forge_alpha(level);
        assert!(cur >= prev, "alpha should increase: level {} ({}) >= level {} ({})", level, cur, level - 1, prev);
        prev = cur;
    }
}

#[test]
fn forge_alpha_quarter_steps() {
    assert_eq!(forge_alpha_quarters(0), 320);
    assert_eq!(forge_alpha_quarters(1), 320);
    assert_eq!(forge_alpha_quarters(3), 440);
    assert_eq!(forge_alpha_quarters(12), 965);
    for level in [13, 14, 100, u32::MAX] {
        assert_eq!(forge_alpha_quarters(level), 1020);
    }
    let mut prev = forge_alpha_quarters(0);
    for level in 1..=20 {
        let cur = forge_alpha_quarters(level);
        assert!(cur >= prev);
        prev = cur;
    }
}

#[test]
fn case_insensitive_match_takes_first() {
    let names = vec!["a.tga".to_string(), "glow.tga".to_string(), "GLOW.tga".to_string()];
    assert_eq!(find_case_insensitive("Glow.TGA", &names), Some(1));
    assert_eq!(find_case_insensitive("missing.tga", &names), None);
    assert_eq!(find_case_insensitive("A.TGA", &names), Some(0));
}

#[test]
fn result_records_hold_paths() {
    let e = ItemExportResult { file_path: "out/item_1_2.gltf".to_string(), folder_path: "out".to_string() };
    assert_eq!(e.folder_path, "out");
    let i = ItemImportResult { lgo_file: "m.lgo".to_string(), texture_files: vec!["t.bmp".to_string()], import_dir: "imp".to_string() };
    assert_eq!(i.texture_files.len(), 1);
}

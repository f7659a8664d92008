//! Item export and import results, export file naming, the forge glow
//! opacity and case-insensitive file matching.

use vstd::prelude::*;
use crate::text::{decimal, lowercase, push_decimal, str_to_lowercase};

verus! {

/// Where an item export was written.
#[derive(Debug, Clone)]
pub struct ItemExportResult {
    pub file_path: String,
    pub folder_path: String,
}

/// What an item import produced.
#[derive(Debug, Clone)]
pub struct ItemImportResult {
    pub lgo_file: String,
    pub texture_files: Vec<String>,
    pub import_dir: String,
}

/// File name of an item export: `item_{item_id}_{model_id}.gltf`.
pub open spec fn spec_item_export_file_name(item_id: u32, model_id: Seq<char>) -> Seq<char> {
    "item_"@ + decimal(item_id as nat) + "_"@ + model_id + ".gltf"@
}

/// The file name under which an item model is exported.
pub fn item_export_file_name(item_id: u32, model_id: &str) -> (r: String)
    ensures
        r@ == spec_item_export_file_name(item_id, model_id@),
{
    let mut s = String::from_str("item_");
    push_decimal(&mut s, item_id as u64);
    s.append("_");
    s.append(model_id);
    s.append(".gltf");
    s
}

/// Four times the opacity (0..=255 scale) of the forge glow for a total
/// stone level: 80 up to level 1, 255 from level 13, and in between a linear
/// step between the tier values 80, 140, 200 and 255, a quarter of a tier
/// per level.  The opacity as a fraction is this value divided by 1020.
pub open spec fn spec_forge_alpha_quarters(total_level: u32) -> int {
    if total_level <= 1 {
        4 * 80int
    } else if total_level >= 13 {
        4 * 255int
    } else {
        let tl = total_level - 1;
        let tier = tl / 4;
        let frac = tl % 4;
        if tier == 0 {
            4 * 80 + frac * (140 - 80)
        } else if tier == 1 {
            4 * 140 + frac * (200 - 140)
        } else {
            4 * 200 + frac * (255 - 200)
        }
    }
}

/// Denominator of [`forge_alpha_quarters`]: the opacity is `quarters / 1020`.
pub const FORGE_ALPHA_DENOMINATOR: u32 = 1020;

/// Four times the forge glow opacity (0..=255 scale) for a total stone level.
pub fn forge_alpha_quarters(total_level: u32) -> (r: u32)
    ensures
        r == spec_forge_alpha_quarters(total_level),
        320 <= r <= 1020,
{
    if total_level <= 1 {
        return 4 * 80;
    }
    if total_level >= 13 {
        return 4 * 255;
    }
    let tl = total_level - 1;
    let tier = tl / 4;
    let frac = tl % 4;
    if tier == 0 {
        4 * 80 + frac * (140 - 80)
    } else if tier == 1 {
        4 * 140 + frac * (200 - 140)
    } else {
        4 * 200 + frac * (255 - 200)
    }
}

/// The forge glow never fades as the stone level grows.
pub proof fn forge_alpha_monotonic(a: u32, b: u32)
    requires
        a <= b,
    ensures
        spec_forge_alpha_quarters(a) <= spec_forge_alpha_quarters(b),
{
}

/// Index of the first name that equals `target` once both are lowercased.
pub open spec fn first_case_insensitive(names: Seq<Seq<char>>, target: Seq<char>, i: int) -> Option<int>
    decreases names.len() - i,
{
    if i >= names.len() || i < 0 {
        None
    } else if lowercase(names[i]) == lowercase(target) {
        Some(i)
    } else {
        first_case_insensitive(names, target, i + 1)
    }
}

/// Finds, among the entries of a directory, the first whose name equals
/// `file_name` ignoring case (both lowercased).
pub fn find_case_insensitive(file_name: &str, names: &Vec<String>) -> (r: Option<usize>)
    ensures
        match r {
            Some(i) => first_case_insensitive(names@.map_values(|n: String| n@), file_name@, 0) == Some(i as int),
            None => first_case_insensitive(names@.map_values(|n: String| n@), file_name@, 0) is None,
        },
{
    let ghost ns = names@.map_values(|n: String| n@);
    let target = str_to_lowercase(file_name);
    let mut i: usize = 0;
    while i < names.len()
        invariant
            ns == names@.map_values(|n: String| n@),
            target@ == lowercase(file_name@),
            i <= names@.len(),
            first_case_insensitive(ns, file_name@, i as int) == first_case_insensitive(ns, file_name@, 0),
        decreases names@.len() - i,
    {
        let lower = str_to_lowercase(names[i].as_str());
        assert(ns[i as int] == names@[i as int]@);
        if lower == target {
            return Some(i);
        }
        i += 1;
    }
    None
}

} // verus!

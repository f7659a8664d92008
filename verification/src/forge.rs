//! The forge (refine) effect chain: from an item and its stone combination
//! to the glow and particle effects that the game shows.
//!
//! item id → item refine record → refine effect record → scene effects.

use vstd::prelude::*;
use std::collections::HashMap;
use crate::refine::{
    ItemRefineInfoTable, ItemRefineInfoModel, RefineEffectEntry, RefineEffectEntryModel,
    RefineEffectTable, StoneInfoTable,
};

verus! {

broadcast use vstd::std_specs::hash::group_hash_axioms;

/// Effect tier (0..=3) of a total stone level: one tier per four levels above the first.
pub open spec fn spec_forge_effect_level(level: u32) -> u32 {
    if level >= 1 {
        let t = (level - 1) / 4;
        if t < 3 { t as u32 } else { 3 }
    } else {
        0
    }
}

/// The effect tier of a total stone level.
pub fn forge_effect_level(level: u32) -> (r: u32)
    ensures
        r == spec_forge_effect_level(level),
        r <= 3,
{
    if level >= 1 {
        let t = (level - 1) / 4;
        if t < 3 { t } else { 3 }
    } else {
        0
    }
}

/// The effect tier never decreases as the stone level grows.
pub proof fn forge_effect_level_monotonic(a: u32, b: u32)
    requires
        a <= b,
    ensures
        spec_forge_effect_level(a) <= spec_forge_effect_level(b),
{
}

/// Index of the first refine effect record with id `id` among the first `n`, or `n`.
pub open spec fn find_effect_from(entries: Seq<RefineEffectEntryModel>, id: i32, i: int) -> int
    decreases entries.len() - i,
{
    if i >= entries.len() {
        entries.len() as int
    } else if entries[i].id == id {
        i
    } else {
        find_effect_from(entries, id, i + 1)
    }
}

/// The first refine effect record with id `id`, if any.
pub open spec fn find_effect(entries: Seq<RefineEffectEntryModel>, id: i32) -> Option<RefineEffectEntryModel> {
    let k = find_effect_from(entries, id, 0);
    if 0 <= k < entries.len() { Some(entries[k]) } else { None }
}

proof fn lemma_find_effect_from(entries: Seq<RefineEffectEntryModel>, id: i32, i: int)
    requires
        0 <= i <= entries.len(),
    ensures
        i <= find_effect_from(entries, id, i) <= entries.len(),
        find_effect_from(entries, id, i) < entries.len() ==> entries[find_effect_from(entries, id, i)].id == id,
    decreases entries.len() - i,
{
    if i < entries.len() && entries[i].id != id {
        lemma_find_effect_from(entries, id, i + 1);
    }
}

/// Finds the first refine effect record with id `id`.
fn find_effect_entry(table: &RefineEffectTable, id: i32) -> (r: Option<&RefineEffectEntry>)
    ensures
        r matches Some(e) ==> find_effect(table@, id) == Some(e@),
        r is None ==> find_effect(table@, id) is None,
{
    let n = table.entries.len();
    let mut i: usize = 0;
    while i < n
        invariant
            n == table.entries@.len(),
            table@.len() == n,
            i <= n,
            find_effect_from(table@, id, i as int) == find_effect_from(table@, id, 0),
        decreases n - i,
    {
        if table.entries[i].id == id {
            assert(table@[i as int] == table.entries@[i as int]@);
            return Some(&table.entries[i]);
        }
        i += 1;
    }
    None
}

/// Whether any particle effect id of a refine effect record is nonzero.
pub open spec fn has_particles(e: RefineEffectEntryModel) -> bool {
    some_nonzero(e.effect_ids)
}

/// Whether some value of `ids` is nonzero.
pub open spec fn some_nonzero(ids: Seq<i16>) -> bool {
    exists|i: int| 0 <= i < ids.len() && ids[i] != 0
}

fn any_nonzero(ids: &Vec<i16>) -> (r: bool)
    ensures
        r == some_nonzero(ids@),
{
    let mut i: usize = 0;
    while i < ids.len()
        invariant
            i <= ids@.len(),
            forall|k: int| 0 <= k < i ==> ids@[k] == 0,
        decreases ids@.len() - i,
    {
        if ids[i] != 0 {
            return true;
        }
        i += 1;
    }
    false
}

/// Whether an effect category can be forged on an item, and what it shows.
#[derive(Debug, Clone, Copy)]
pub struct CategorySummary {
    pub category: u32,
    pub available: bool,
    pub lit_id: i32,
    pub has_particles: bool,
}

/// The 14 effect categories of an item.
#[derive(Debug, Clone)]
pub struct ItemCategoryAvailability {
    pub item_id: u32,
    pub categories: Vec<CategorySummary>,
}

/// The refine effect id of category index `idx` (0-based) of an item's refine
/// record, 0 when the item has no record or the record no such entry.
pub open spec fn category_effect_id(info: Option<ItemRefineInfoModel>, idx: int) -> i16 {
    match info {
        Some(r) => if 0 <= idx < r.values.len() { r.values[idx] } else { 0 },
        None => 0,
    }
}

/// Summary of category `idx + 1` of an item: available when its refine effect
/// id is nonzero; the light id and particle presence come from the first
/// refine effect record with that id (none: light 0, no particles).
pub open spec fn spec_category_summary(
    info: Option<ItemRefineInfoModel>,
    effects: Seq<RefineEffectEntryModel>,
    idx: int,
) -> CategorySummary {
    let id = category_effect_id(info, idx);
    let available = id != 0;
    let (lit_id, particles) = if available {
        match find_effect(effects, id as i32) {
            Some(e) => (e.light_id, has_particles(e)),
            None => (0i32, false),
        }
    } else {
        (0i32, false)
    };
    CategorySummary { category: (idx + 1) as u32, available, lit_id, has_particles: particles }
}

/// The refine record of an item: the one whose id is the item id (as `i32`).
pub open spec fn item_refine_record(refine_info: Map<i32, ItemRefineInfoModel>, item_id: u32) -> Option<ItemRefineInfoModel> {
    if refine_info.contains_key(item_id as i32) { Some(refine_info[item_id as i32]) } else { None }
}

/// Which of the 14 effect categories can be forged on an item, with the glow
/// light id and whether particles are shown for each.
pub fn item_category_availability(
    item_id: u32,
    refine_info: &ItemRefineInfoTable,
    effects: &RefineEffectTable,
) -> (r: ItemCategoryAvailability)
    ensures
        r.item_id == item_id,
        r.categories@.len() == 14,
        forall|i: int| 0 <= i < 14 ==> #[trigger] r.categories@[i] == spec_category_summary(
            item_refine_record(refine_info@, item_id), effects@, i),
{
    let info = refine_info.entries.get(&(item_id as i32));
    let ghost rec = item_refine_record(refine_info@, item_id);
    assert(info matches Some(e) ==> rec == Some(e@));
    assert(info is None ==> rec is None);
    let mut categories: Vec<CategorySummary> = Vec::with_capacity(14);
    let mut idx: u32 = 0;
    while idx < 14
        invariant
            idx <= 14,
            rec == item_refine_record(refine_info@, item_id),
            info matches Some(e) ==> rec == Some(e@),
            info is None ==> rec is None,
            categories@.len() == idx,
            forall|i: int| 0 <= i < idx ==> #[trigger] categories@[i] == spec_category_summary(rec, effects@, i),
        decreases 14 - idx,
    {
        let refine_effect_id: i16 = match info {
            Some(e) => if (idx as usize) < e.values.len() { e.values[idx as usize] } else { 0 },
            None => 0,
        };
        let available = refine_effect_id != 0;
        assert(refine_effect_id == category_effect_id(rec, idx as int));
        let (lit_id, has_p) = if available {
            match find_effect_entry(effects, refine_effect_id as i32) {
                Some(entry) => {
                    (entry.light_id, any_nonzero(&entry.effect_ids))
                },
                None => (0i32, false),
            }
        } else {
            (0i32, false)
        };
        let ghost old_c = categories@;
        categories.push(CategorySummary { category: idx + 1, available, lit_id, has_particles: has_p });
        assert(categories@[idx as int] == spec_category_summary(rec, effects@, idx as int));
        assert(forall|i: int| 0 <= i < idx ==> categories@[i] == old_c[i]);
        idx += 1;
    }
    ItemCategoryAvailability { item_id, categories }
}

// ---------------------------------------------------------------------------
// Forge preview
// ---------------------------------------------------------------------------

/// One particle effect of a forge preview.
#[derive(Debug, Clone)]
pub struct ForgeParticle {
    pub par_file: String,
    pub dummy_id: i32,
    pub effect_id: u32,
}

/// Mathematical value of a [`ForgeParticle`].
pub struct ForgeParticleModel {
    pub par_file: Seq<char>,
    pub dummy_id: i32,
    pub effect_id: u32,
}

impl View for ForgeParticle {
    type V = ForgeParticleModel;

    open spec fn view(&self) -> ForgeParticleModel {
        ForgeParticleModel { par_file: self.par_file@, dummy_id: self.dummy_id, effect_id: self.effect_id }
    }
}

/// The resolved forge effect of an item (everything but the glow entry and
/// the effect scale, which need the light table and floating point).
#[derive(Debug, Clone)]
pub struct ForgeEffectPlan {
    /// Glow light id, when the refine effect record has one.
    pub lit_id: Option<i32>,
    pub particles: Vec<ForgeParticle>,
    pub effect_level: u32,
    /// Character index (0..=3) whose effect scale applies, when an effect record was found.
    pub scale_index: Option<usize>,
}

/// Character index used for effect ids and scales: the character type, at most 3.
pub open spec fn char_index(char_type: u32) -> int {
    if char_type < 3 { char_type as int } else { 3 }
}

/// The character lane of a forge effect: character types 0 to 3 use their
/// own lane and scale, every later type the last one (3); particle lane
/// `tier` of character type `t` is effect id `4 * min(t, 3) + tier`.
pub proof fn forge_char_lane_is_capped_type(char_type: u32, e: RefineEffectEntryModel, tier: int)
    requires
        0 <= tier < 4,
        e.effect_ids.len() == 16,
    ensures
        char_index(char_type) == (if char_type <= 3 { char_type as int } else { 3 }),
        lane_base_id(e, char_index(char_type), tier)
            == e.effect_ids[4 * (if char_type <= 3 { char_type as int } else { 3 }) + tier],
{
}

/// Particle effect id of lane `tier` for a character index: 0 when missing.
pub open spec fn lane_base_id(e: RefineEffectEntryModel, ci: int, tier: int) -> i16 {
    if 0 <= ci * 4 + tier < e.effect_ids.len() { e.effect_ids[ci * 4 + tier] } else { 0 }
}

/// Dummy point of lane `tier`: 0 when missing.
pub open spec fn lane_dummy(e: RefineEffectEntryModel, tier: int) -> i32 {
    if 0 <= tier < e.dummy_ids.len() { e.dummy_ids[tier] as i32 } else { 0 }
}

/// Preview particles of the first `n` lanes: a lane with a nonzero base id
/// shows scene effect `base * 10 + level` when that scene effect exists.
pub open spec fn preview_particles(
    e: RefineEffectEntryModel,
    ci: int,
    level: u32,
    scene: Map<u32, String>,
    n: int,
) -> Seq<ForgeParticleModel>
    decreases n,
{
    if n <= 0 {
        Seq::empty()
    } else {
        let prev = preview_particles(e, ci, level, scene, n - 1);
        let base = lane_base_id(e, ci, n - 1);
        let id = (base * 10 + level) as u32;
        if base != 0 && scene.contains_key(id) {
            prev.push(ForgeParticleModel { par_file: scene[id]@, dummy_id: lane_dummy(e, n - 1), effect_id: id })
        } else {
            prev
        }
    }
}

proof fn lemma_preview_particles(e: RefineEffectEntryModel, ci: int, level: u32, scene: Map<u32, String>, n: int)
    requires
        0 <= n <= 4,
        0 <= ci <= 3,
        e.effect_ids.len() == 16,
        e.dummy_ids.len() == 4,
    ensures
        forall|k: int| #![trigger preview_particles(e, ci, level, scene, n)[k]] 0 <= k < preview_particles(e, ci, level, scene, n).len() ==> exists|t: int| #![trigger e.dummy_ids[t]] {
            let base = e.effect_ids[4 * ci + t];
            let id = (base * 10 + level) as u32;
            &&& 0 <= t < n
            &&& base != 0
            &&& scene.contains_key(id)
            &&& preview_particles(e, ci, level, scene, n)[k]
                == (ForgeParticleModel { par_file: scene[id]@, dummy_id: e.dummy_ids[t] as i32, effect_id: id })
        },
        forall|t: int| 0 <= t < n && #[trigger] e.effect_ids[4 * ci + t] != 0
            && scene.contains_key((e.effect_ids[4 * ci + t] * 10 + level) as u32) ==> exists|k: int|
            0 <= k < preview_particles(e, ci, level, scene, n).len()
            && #[trigger] preview_particles(e, ci, level, scene, n)[k] == (ForgeParticleModel {
                par_file: scene[(e.effect_ids[4 * ci + t] * 10 + level) as u32]@,
                dummy_id: e.dummy_ids[t] as i32,
                effect_id: (e.effect_ids[4 * ci + t] * 10 + level) as u32,
            }),
    decreases n,
{
    if n > 0 {
        lemma_preview_particles(e, ci, level, scene, n - 1);
        let prev = preview_particles(e, ci, level, scene, n - 1);
        let cur = preview_particles(e, ci, level, scene, n);
        let base = lane_base_id(e, ci, n - 1);
        let id = (base * 10 + level) as u32;
        if base != 0 && scene.contains_key(id) {
            assert forall|k: int| 0 <= k < prev.len() implies cur[k] == prev[k] by {}
            assert forall|k: int| #![trigger cur[k]] 0 <= k < cur.len() implies exists|t: int| #![trigger e.dummy_ids[t]] {
                let b = e.effect_ids[4 * ci + t];
                let i = (b * 10 + level) as u32;
                &&& 0 <= t < n
                &&& b != 0
                &&& scene.contains_key(i)
                &&& cur[k] == (ForgeParticleModel { par_file: scene[i]@, dummy_id: e.dummy_ids[t] as i32, effect_id: i })
            } by {
                if k < prev.len() {
                    assert(cur[k] == prev[k]);
                    let t = choose|t: int| {
                        let b = e.effect_ids[4 * ci + t];
                        let i = (b * 10 + level) as u32;
                        &&& 0 <= t < n - 1
                        &&& b != 0
                        &&& scene.contains_key(i)
                        &&& prev[k] == (ForgeParticleModel { par_file: scene[i]@, dummy_id: #[trigger] e.dummy_ids[t] as i32, effect_id: i })
                    };
                    assert(e.dummy_ids[t] == e.dummy_ids[t]);
                } else {
                    assert(cur[k] == (ForgeParticleModel { par_file: scene[id]@, dummy_id: e.dummy_ids[n - 1] as i32, effect_id: id }));
                    assert(e.dummy_ids[n - 1] == e.dummy_ids[n - 1]);
                }
            }
            assert forall|t: int| 0 <= t < n && #[trigger] e.effect_ids[4 * ci + t] != 0
                && scene.contains_key((e.effect_ids[4 * ci + t] * 10 + level) as u32) implies exists|k: int|
                0 <= k < cur.len()
                && #[trigger] cur[k] == (ForgeParticleModel {
                    par_file: scene[(e.effect_ids[4 * ci + t] * 10 + level) as u32]@,
                    dummy_id: e.dummy_ids[t] as i32,
                    effect_id: (e.effect_ids[4 * ci + t] * 10 + level) as u32,
                }) by {
                if t < n - 1 {
                    let k = choose|k: int| 0 <= k < prev.len() && #[trigger] prev[k] == (ForgeParticleModel {
                        par_file: scene[(e.effect_ids[4 * ci + t] * 10 + level) as u32]@,
                        dummy_id: e.dummy_ids[t] as i32,
                        effect_id: (e.effect_ids[4 * ci + t] * 10 + level) as u32,
                    });
                    assert(cur[k] == prev[k]);
                } else {
                    assert(cur[prev.len() as int] == (ForgeParticleModel { par_file: scene[id]@, dummy_id: e.dummy_ids[n - 1] as i32, effect_id: id }));
                }
            }
        }
    }
}

/// The particles of a forge preview: each comes from a tier whose effect id
/// `base = e.effect_ids[4 * ci + tier]` is nonzero and whose scene effect
/// `base * 10 + level` exists, and shows that scene effect's file at the
/// tier's dummy point; every such tier shows one.
pub proof fn forge_preview_particles_per_lane(e: RefineEffectEntryModel, ci: int, level: u32, scene: Map<u32, String>)
    requires
        0 <= ci <= 3,
        e.effect_ids.len() == 16,
        e.dummy_ids.len() == 4,
    ensures
        forall|k: int| #![trigger preview_particles(e, ci, level, scene, 4)[k]] 0 <= k < preview_particles(e, ci, level, scene, 4).len() ==> exists|t: int| #![trigger e.dummy_ids[t]] {
            let base = e.effect_ids[4 * ci + t];
            let id = (base * 10 + level) as u32;
            &&& 0 <= t < 4
            &&& base != 0
            &&& scene.contains_key(id)
            &&& preview_particles(e, ci, level, scene, 4)[k]
                == (ForgeParticleModel { par_file: scene[id]@, dummy_id: e.dummy_ids[t] as i32, effect_id: id })
        },
        forall|t: int| 0 <= t < 4 && #[trigger] e.effect_ids[4 * ci + t] != 0
            && scene.contains_key((e.effect_ids[4 * ci + t] * 10 + level) as u32) ==> exists|k: int|
            0 <= k < preview_particles(e, ci, level, scene, 4).len()
            && #[trigger] preview_particles(e, ci, level, scene, 4)[k] == (ForgeParticleModel {
                par_file: scene[(e.effect_ids[4 * ci + t] * 10 + level) as u32]@,
                dummy_id: e.dummy_ids[t] as i32,
                effect_id: (e.effect_ids[4 * ci + t] * 10 + level) as u32,
            }),
{
    lemma_preview_particles(e, ci, level, scene, 4);
    let ps = preview_particles(e, ci, level, scene, 4);
    assert forall|k: int| #![trigger ps[k]] 0 <= k < ps.len() implies exists|t: int| #![trigger e.dummy_ids[t]] {
        let base = e.effect_ids[4 * ci + t];
        let id = (base * 10 + level) as u32;
        &&& 0 <= t < 4
        &&& base != 0
        &&& scene.contains_key(id)
        &&& ps[k] == (ForgeParticleModel { par_file: scene[id]@, dummy_id: e.dummy_ids[t] as i32, effect_id: id })
    } by {
        assert(ps[k] == preview_particles(e, ci, level, scene, 4)[k]);
    }
}

/// The refine effect record of a forge preview, if the chain reaches one:
/// a nonzero refine level and category (1..=14), an item refine record, a
/// positive refine effect id for the category, and a record with that id.
pub open spec fn preview_effect(
    refine_info: Map<i32, ItemRefineInfoModel>,
    effects: Seq<RefineEffectEntryModel>,
    item_id: u32,
    refine_level: u32,
    effect_category: u32,
) -> Option<RefineEffectEntryModel> {
    if effect_category == 0 || refine_level == 0 || effect_category - 1 >= 14 {
        None
    } else {
        match item_refine_record(refine_info, item_id) {
            None => None,
            Some(info) => {
                let id = category_effect_id(Some(info), effect_category - 1);
                if id <= 0 { None } else { find_effect(effects, id as i32) }
            },
        }
    }
}

/// Resolves the forge effect chain of an item for a total stone level, a
/// character type and a stone effect category (1-based; 0 means none).
pub fn plan_forge_effect(
    refine_info: &ItemRefineInfoTable,
    effects: &RefineEffectTable,
    scene_effect_files: &HashMap<u32, String>,
    item_id: u32,
    refine_level: u32,
    char_type: u32,
    effect_category: u32,
) -> (r: ForgeEffectPlan)
    ensures
        r.effect_level == spec_forge_effect_level(refine_level),
        match preview_effect(refine_info@, effects@, item_id, refine_level, effect_category) {
            None => r.lit_id is None && r.particles@.len() == 0 && r.scale_index is None,
            Some(e) => {
                &&& r.lit_id == (if e.light_id != 0 { Some(e.light_id) } else { None::<i32> })
                &&& r.scale_index == Some(char_index(char_type) as usize)
                &&& r.particles@.map_values(|p: ForgeParticle| p@) == preview_particles(
                    e, char_index(char_type), spec_forge_effect_level(refine_level), scene_effect_files@, 4)
            },
        },
{
    let effect_level = forge_effect_level(refine_level);
    let empty = ForgeEffectPlan { lit_id: None, particles: Vec::new(), effect_level, scale_index: None };
    if effect_category == 0 || refine_level == 0 {
        return empty;
    }
    let effect_idx = (effect_category - 1) as usize;
    if effect_idx >= 14 {
        return empty;
    }
    let info = match refine_info.entries.get(&(item_id as i32)) {
        Some(info) => info,
        None => {
            return empty;
        },
    };
    assert(item_refine_record(refine_info@, item_id) == Some(info@));
    let refine_effect_id: i16 = if effect_idx < info.values.len() { info.values[effect_idx] } else { 0 };
    if refine_effect_id <= 0 {
        return empty;
    }
    let entry = match find_effect_entry(effects, refine_effect_id as i32) {
        Some(e) => e,
        None => {
            return empty;
        },
    };
    let lit_id = if entry.light_id != 0 { Some(entry.light_id) } else { None };
    let char_idx: usize = if char_type < 3 { char_type as usize } else { 3 };
    let mut particles: Vec<ForgeParticle> = Vec::new();
    let mut tier: usize = 0;
    while tier < 4
        invariant
            tier <= 4,
            char_idx == char_index(char_type),
            effect_level == spec_forge_effect_level(refine_level),
            effect_level <= 3,
            particles@.map_values(|p: ForgeParticle| p@) == preview_particles(
                entry@, char_idx as int, effect_level, scene_effect_files@, tier as int),
        decreases 4 - tier,
    {
        let flat_idx = char_idx * 4 + tier;
        let base_id: i16 = if flat_idx < entry.effect_ids.len() { entry.effect_ids[flat_idx] } else { 0 };
        let ghost old_p = particles@;
        if base_id != 0 {
            let scene_effect_id: i32 = (base_id as i32) * 10 + (effect_level as i32);
            let dummy_id: i32 = if tier < entry.dummy_ids.len() { entry.dummy_ids[tier] as i32 } else { 0 };
            match scene_effect_files.get(&(scene_effect_id as u32)) {
                Some(file) => {
                    let p = ForgeParticle { par_file: file.clone(), dummy_id, effect_id: scene_effect_id as u32 };
                    particles.push(p);
                    assert(particles@.map_values(|p: ForgeParticle| p@) =~= old_p.map_values(|p: ForgeParticle| p@).push(p@));
                },
                None => {},
            }
        }
        tier += 1;
    }
    ForgeEffectPlan { lit_id, particles, effect_level, scale_index: Some(char_idx) }
}

// ---------------------------------------------------------------------------
// Forge trace
// ---------------------------------------------------------------------------

/// A gem put into a forge slot.
#[derive(Debug, Clone, Copy)]
pub struct ForgeTraceGemInput {
    pub item_id: u32,
    pub level: u32,
}

/// A gem of a forge trace, with its stone record.
#[derive(Debug, Clone)]
pub struct ForgeTraceGemResolved {
    pub slot: u32,
    pub item_id: u32,
    pub item_name: String,
    pub level: u32,
    pub stone_info_id: i32,
    pub stone_type: i32,
}

/// The gems of a forge trace so far: the resolved gems, the stone type of
/// each of the three slots (-1 for an empty slot) and the total stone level.
#[derive(Debug, Clone)]
pub struct ForgeGemTrace {
    pub gems: Vec<ForgeTraceGemResolved>,
    pub stone_types: Vec<i32>,
    pub total_level: u32,
}

impl ForgeTraceGemInput {
    /// Whether this slot holds a gem (nonzero item and level).
    pub fn is_filled(&self) -> (r: bool)
        ensures
            r == (self.item_id != 0 && self.level != 0),
    {
        self.item_id != 0 && self.level != 0
    }
}

impl ForgeGemTrace {
    /// No gems: every slot empty, total level 0.
    pub fn new() -> (t: Self)
        ensures
            t.gems@.len() == 0,
            t.stone_types@ == seq![-1i32, -1i32, -1i32],
            t.total_level == 0,
    {
        let mut stone_types: Vec<i32> = Vec::new();
        stone_types.push(-1);
        stone_types.push(-1);
        stone_types.push(-1);
        ForgeGemTrace { gems: Vec::new(), stone_types, total_level: 0 }
    }

    /// Adds the gem of slot `idx` (0-based), named `item_name`: its stone
    /// type goes to the slot and its level to the total.  Fails, leaving the
    /// trace unchanged, when the stone table has no record for the gem.
    pub fn add_gem(
        &mut self,
        idx: usize,
        gem: &ForgeTraceGemInput,
        item_name: String,
        stone_info: &StoneInfoTable,
    ) -> (r: Result<(), String>)
        requires
            idx < 3,
            old(self).stone_types@.len() == 3,
            old(self).total_level + gem.level <= u32::MAX,
        ensures
            final(self).stone_types@.len() == 3,
            match r {
                Ok(()) => {
                    &&& stone_info@.contains_key(gem.item_id as i32)
                    &&& final(self).stone_types@ == old(self).stone_types@.update(idx as int, stone_info@[gem.item_id as i32].stone_type)
                    &&& final(self).total_level == old(self).total_level + gem.level
                    &&& final(self).gems@.len() == old(self).gems@.len() + 1
                    &&& forall|k: int| 0 <= k < old(self).gems@.len() ==> #[trigger] final(self).gems@[k] == old(self).gems@[k]
                    &&& ({
                        let g = final(self).gems@[old(self).gems@.len() as int];
                        &&& g.slot == idx + 1
                        &&& g.item_id == gem.item_id
                        &&& g.item_name == item_name
                        &&& g.level == gem.level
                        &&& g.stone_info_id == stone_info@[gem.item_id as i32].id
                        &&& g.stone_type == stone_info@[gem.item_id as i32].stone_type
                    })
                },
                Err(msg) => {
                    &&& !stone_info@.contains_key(gem.item_id as i32)
                    &&& msg@ == "StoneInfo entry not found for gem item "@ + crate::text::decimal(gem.item_id as nat)
                    &&& *final(self) == *old(self)
                },
            },
    {
        match stone_info.by_item_id.get(&(gem.item_id as i32)) {
            Some(stone) => {
                assert(stone_info@[gem.item_id as i32] == stone@);
                self.stone_types.set(idx, stone.stone_type);
                self.total_level = self.total_level + gem.level;
                self.gems.push(ForgeTraceGemResolved {
                    slot: idx as u32 + 1,
                    item_id: gem.item_id,
                    item_name,
                    level: gem.level,
                    stone_info_id: stone.id,
                    stone_type: stone.stone_type,
                });
                Ok(())
            },
            None => {
                let mut msg = String::from_str("StoneInfo entry not found for gem item ");
                crate::text::push_decimal(&mut msg, gem.item_id as u64);
                Err(msg)
            },
        }
    }
}

/// One particle lane of a forge trace.
#[derive(Debug, Clone)]
pub struct ForgeTraceLane {
    pub lane_tier: u32,
    pub base_effect_id: i32,
    pub final_effect_id: u32,
    pub dummy_id: i32,
    pub par_file: Option<String>,
}

/// Mathematical value of a [`ForgeTraceLane`].
pub struct ForgeTraceLaneModel {
    pub lane_tier: u32,
    pub base_effect_id: i32,
    pub final_effect_id: u32,
    pub dummy_id: i32,
    pub par_file: Option<Seq<char>>,
}

impl View for ForgeTraceLane {
    type V = ForgeTraceLaneModel;

    open spec fn view(&self) -> ForgeTraceLaneModel {
        ForgeTraceLaneModel {
            lane_tier: self.lane_tier,
            base_effect_id: self.base_effect_id,
            final_effect_id: self.final_effect_id,
            dummy_id: self.dummy_id,
            par_file: match self.par_file { Some(f) => Some(f@), None => None },
        }
    }
}

/// Final scene effect id of a lane: the base id (as `u32`) times 10 plus the level.
pub open spec fn lane_final_id(base: i16, level: u32) -> int {
    (base as i32 as u32) * 10 + level
}

/// Trace lanes of the first `n` tiers: every lane with a nonzero base id,
/// with its scene effect file when the scene effect exists.
pub open spec fn trace_lanes(
    e: RefineEffectEntryModel,
    ci: int,
    level: u32,
    scene: Map<u32, String>,
    n: int,
) -> Seq<ForgeTraceLaneModel>
    decreases n,
{
    if n <= 0 {
        Seq::empty()
    } else {
        let prev = trace_lanes(e, ci, level, scene, n - 1);
        let base = lane_base_id(e, ci, n - 1);
        let id = lane_final_id(base, level) as u32;
        if base != 0 {
            prev.push(ForgeTraceLaneModel {
                lane_tier: (n - 1) as u32,
                base_effect_id: base as i32,
                final_effect_id: id,
                dummy_id: lane_dummy(e, n - 1),
                par_file: if scene.contains_key(id) { Some(scene[id]@) } else { None },
            })
        } else {
            prev
        }
    }
}

proof fn lemma_trace_lanes(e: RefineEffectEntryModel, ci: int, level: u32, scene: Map<u32, String>, n: int)
    requires
        0 <= n <= 4,
        0 <= ci <= 3,
        e.effect_ids.len() == 16,
        e.dummy_ids.len() == 4,
    ensures
        forall|k: int| 0 <= k < trace_lanes(e, ci, level, scene, n).len() ==> {
            let l = #[trigger] trace_lanes(e, ci, level, scene, n)[k];
            let t = l.lane_tier as int;
            let base = e.effect_ids[4 * ci + t];
            let id = ((base as i32 as u32) * 10 + level) as u32;
            &&& 0 <= t < n
            &&& base != 0
            &&& l.base_effect_id == base as i32
            &&& l.final_effect_id == id
            &&& l.dummy_id == e.dummy_ids[t] as i32
            &&& l.par_file == (if scene.contains_key(id) { Some(scene[id]@) } else { None::<Seq<char>> })
        },
        forall|k1: int, k2: int| 0 <= k1 < k2 < trace_lanes(e, ci, level, scene, n).len()
            ==> (#[trigger] trace_lanes(e, ci, level, scene, n)[k1]).lane_tier
                < (#[trigger] trace_lanes(e, ci, level, scene, n)[k2]).lane_tier,
        forall|t: int| 0 <= t < n && #[trigger] e.effect_ids[4 * ci + t] != 0 ==> exists|k: int|
            0 <= k < trace_lanes(e, ci, level, scene, n).len()
            && (#[trigger] trace_lanes(e, ci, level, scene, n)[k]).lane_tier == t,
    decreases n,
{
    if n > 0 {
        lemma_trace_lanes(e, ci, level, scene, n - 1);
        let prev = trace_lanes(e, ci, level, scene, n - 1);
        let cur = trace_lanes(e, ci, level, scene, n);
        if lane_base_id(e, ci, n - 1) != 0 {
            assert forall|k: int| 0 <= k < prev.len() implies cur[k] == prev[k] by {}
            assert(cur[prev.len() as int].lane_tier == n - 1);
            assert forall|t: int| 0 <= t < n && #[trigger] e.effect_ids[4 * ci + t] != 0 implies exists|k: int|
                0 <= k < cur.len() && (#[trigger] cur[k]).lane_tier == t by {
                if t < n - 1 {
                    let k = choose|k: int| 0 <= k < prev.len() && (#[trigger] prev[k]).lane_tier == t;
                    assert(cur[k] == prev[k]);
                } else {
                    assert(cur[prev.len() as int].lane_tier == t);
                }
            }
        }
    }
}

/// The particle lanes of a forge trace: one lane for each tier (in tier
/// order) whose effect id `e.effect_ids[4 * ci + tier]` is nonzero, with
/// that base id, the final scene effect id `base * 10 + level`, the tier's
/// dummy point, and the scene effect file of the final id when there is one.
pub proof fn forge_trace_lanes_per_nonzero_tier(e: RefineEffectEntryModel, ci: int, level: u32, scene: Map<u32, String>)
    requires
        0 <= ci <= 3,
        e.effect_ids.len() == 16,
        e.dummy_ids.len() == 4,
    ensures
        forall|k: int| 0 <= k < trace_lanes(e, ci, level, scene, 4).len() ==> {
            let l = #[trigger] trace_lanes(e, ci, level, scene, 4)[k];
            let t = l.lane_tier as int;
            let base = e.effect_ids[4 * ci + t];
            let id = ((base as i32 as u32) * 10 + level) as u32;
            &&& 0 <= t < 4
            &&& base != 0
            &&& l.base_effect_id == base as i32
            &&& l.final_effect_id == id
            &&& l.dummy_id == e.dummy_ids[t] as i32
            &&& l.par_file == (if scene.contains_key(id) { Some(scene[id]@) } else { None::<Seq<char>> })
        },
        forall|k1: int, k2: int| 0 <= k1 < k2 < trace_lanes(e, ci, level, scene, 4).len()
            ==> (#[trigger] trace_lanes(e, ci, level, scene, 4)[k1]).lane_tier
                < (#[trigger] trace_lanes(e, ci, level, scene, 4)[k2]).lane_tier,
        forall|t: int| 0 <= t < 4 && #[trigger] e.effect_ids[4 * ci + t] != 0 ==> exists|k: int|
            0 <= k < trace_lanes(e, ci, level, scene, 4).len()
            && (#[trigger] trace_lanes(e, ci, level, scene, 4)[k]).lane_tier == t,
{
    lemma_trace_lanes(e, ci, level, scene, 4);
}

/// Every lane's final scene effect id fits in `u32`.
pub open spec fn trace_lane_ids_fit(e: RefineEffectEntryModel, ci: int, level: u32) -> bool {
    forall|t: int| 0 <= t < 4 ==> lane_final_id(#[trigger] lane_base_id(e, ci, t), level) <= u32::MAX
}

/// The resolved chain of a forge trace.
#[derive(Debug, Clone)]
pub struct ForgeTracePlan {
    pub total_level: u32,
    pub effect_level: u32,
    pub category: u32,
    pub item_refine_values: Vec<i16>,
    pub refine_effect_id: Option<i32>,
    pub light_id: Option<i32>,
    /// Character index (0..=3) whose effect scale applies.
    pub scale_index: usize,
    pub lanes: Vec<ForgeTraceLane>,
}

/// Refine effect id selected by the stone category of a forge trace.
pub open spec fn trace_refine_effect_id(info: Option<ItemRefineInfoModel>, category: u32) -> Option<i32> {
    if category >= 1 {
        let id = category_effect_id(info, category - 1);
        if id > 0 { Some(id as i32) } else { None }
    } else {
        None
    }
}

/// The forge chain of a trace stays within machine limits: three slots,
/// stone sums and products within `i32`, and every particle lane's final
/// scene effect id within `u32`.
pub open spec fn forge_trace_fits(
    refine_info: Map<i32, ItemRefineInfoModel>,
    effects: Seq<RefineEffectEntryModel>,
    weapon_item_id: u32,
    char_type: u32,
    stone_types: Seq<i32>,
    total_level: u32,
) -> bool {
    &&& stone_types.len() == 3
    &&& crate::refine::stone_arith_fits(stone_types[0] as int, stone_types[1] as int, stone_types[2] as int)
    &&& {
        let category = crate::refine::spec_stone_effect_category(
            stone_types[0] as int, stone_types[1] as int, stone_types[2] as int);
        let rec = item_refine_record(refine_info, weapon_item_id);
        match trace_refine_effect_id(rec, category as u32) {
            Some(id) => match find_effect(effects, id) {
                Some(e) => trace_lane_ids_fit(e, char_index(char_type), spec_forge_effect_level(total_level)),
                None => true,
            },
            None => true,
        }
    }
}

/// Whether [`plan_forge_trace`] can resolve the chain of these gems (see [`forge_trace_fits`]).
pub fn forge_trace_within_limits(
    refine_info: &ItemRefineInfoTable,
    effects: &RefineEffectTable,
    weapon_item_id: u32,
    char_type: u32,
    gems: &ForgeGemTrace,
) -> (r: bool)
    ensures
        r == forge_trace_fits(refine_info@, effects@, weapon_item_id, char_type, gems.stone_types@, gems.total_level),
{
    if gems.stone_types.len() != 3 {
        return false;
    }
    let (a, b, c) = (gems.stone_types[0], gems.stone_types[1], gems.stone_types[2]);
    if !crate::refine::stone_types_within_limits(a, b, c) {
        return false;
    }
    let category = crate::refine::stone_effect_category(a, b, c);
    let info = refine_info.entries.get(&(weapon_item_id as i32));
    let ghost rec = item_refine_record(refine_info@, weapon_item_id);
    assert(info matches Some(e) ==> rec == Some(e@));
    assert(info is None ==> rec is None);
    if category < 1 {
        return true;
    }
    let idx = (category - 1) as usize;
    let id: i16 = match info {
        Some(e) => if idx < e.values.len() { e.values[idx] } else { 0 },
        None => 0,
    };
    assert(id == category_effect_id(rec, category - 1));
    if id <= 0 {
        return true;
    }
    let entry = match find_effect_entry(effects, id as i32) {
        Some(e) => e,
        None => {
            return true;
        },
    };
    let ghost cat = crate::refine::spec_stone_effect_category(a as int, b as int, c as int);
    assert(cat as u32 == category);
    assert(trace_refine_effect_id(rec, cat as u32) == Some(id as i32));
    assert(find_effect(effects@, id as i32) == Some(entry@));
    let level = forge_effect_level(gems.total_level);
    let ci: usize = if char_type < 3 { char_type as usize } else { 3 };
    assert(forge_trace_fits(refine_info@, effects@, weapon_item_id, char_type, gems.stone_types@, gems.total_level)
        == trace_lane_ids_fit(entry@, ci as int, level));
    let mut t: usize = 0;
    while t < 4
        invariant
            forge_trace_fits(refine_info@, effects@, weapon_item_id, char_type, gems.stone_types@, gems.total_level)
                == trace_lane_ids_fit(entry@, ci as int, level),
            t <= 4,
            ci == char_index(char_type),
            level == spec_forge_effect_level(gems.total_level),
            level <= 3,
            forall|k: int| 0 <= k < t ==> lane_final_id(#[trigger] lane_base_id(entry@, ci as int, k), level) <= u32::MAX,
        decreases 4 - t,
    {
        let flat = ci * 4 + t;
        let base: i16 = if flat < entry.effect_ids.len() { entry.effect_ids[flat] } else { 0 };
        assert(base == lane_base_id(entry@, ci as int, t as int));
        let wide: u64 = (base as i32 as u32) as u64 * 10 + level as u64;
        if wide > u32::MAX as u64 {
            assert(!trace_lane_ids_fit(entry@, ci as int, level));
            return false;
        }
        t += 1;
    }
    true
}

/// Resolves the forge chain of a weapon for the gems of a trace and a character type.
pub fn plan_forge_trace(
    refine_info: &ItemRefineInfoTable,
    effects: &RefineEffectTable,
    scene_effect_files: &HashMap<u32, String>,
    weapon_item_id: u32,
    char_type: u32,
    gems: &ForgeGemTrace,
) -> (r: ForgeTracePlan)
    requires
        forge_trace_fits(refine_info@, effects@, weapon_item_id, char_type, gems.stone_types@, gems.total_level),
    ensures
        r.total_level == gems.total_level,
        r.effect_level == spec_forge_effect_level(gems.total_level),
        r.category == crate::refine::spec_stone_effect_category(
            gems.stone_types@[0] as int, gems.stone_types@[1] as int, gems.stone_types@[2] as int),
        r.scale_index == char_index(char_type),
        ({
            let rec = item_refine_record(refine_info@, weapon_item_id);
            &&& r.item_refine_values@ == (match rec { Some(info) => info.values, None => Seq::new(14, |_i: int| 0i16) })
            &&& r.refine_effect_id == trace_refine_effect_id(rec, r.category)
            &&& match r.refine_effect_id {
                Some(id) => match find_effect(effects@, id) {
                    Some(e) => {
                        &&& r.light_id == (if e.light_id != 0 { Some(e.light_id) } else { None::<i32> })
                        &&& r.lanes@.map_values(|l: ForgeTraceLane| l@) == trace_lanes(
                            e, char_index(char_type), r.effect_level, scene_effect_files@, 4)
                    },
                    None => r.light_id is None && r.lanes@.len() == 0,
                },
                None => r.light_id is None && r.lanes@.len() == 0,
            }
        }),
{
    let category = crate::refine::stone_effect_category(gems.stone_types[0], gems.stone_types[1], gems.stone_types[2]);
    let effect_level = forge_effect_level(gems.total_level);
    let info = refine_info.entries.get(&(weapon_item_id as i32));
    let ghost rec = item_refine_record(refine_info@, weapon_item_id);
    assert(info matches Some(e) ==> rec == Some(e@));
    assert(info is None ==> rec is None);
    let item_refine_values: Vec<i16> = match info {
        Some(e) => e.values.clone(),
        None => {
            let mut v: Vec<i16> = Vec::new();
            let mut k: usize = 0;
            while k < 14
                invariant
                    k <= 14,
                    v@ == Seq::new(k as nat, |_i: int| 0i16),
                decreases 14 - k,
            {
                v.push(0);
                k += 1;
                assert(v@ =~= Seq::new(k as nat, |_i: int| 0i16));
            }
            v
        },
    };
    let refine_effect_id: Option<i32> = if category >= 1 {
        let idx = (category - 1) as usize;
        let id: i16 = match info {
            Some(e) => if idx < e.values.len() { e.values[idx] } else { 0 },
            None => 0,
        };
        if id > 0 { Some(id as i32) } else { None }
    } else {
        None
    };
    let entry = match refine_effect_id {
        Some(id) => find_effect_entry(effects, id),
        None => None,
    };
    let light_id = match entry {
        Some(e) => if e.light_id != 0 { Some(e.light_id) } else { None },
        None => None,
    };
    let char_idx: usize = if char_type < 3 { char_type as usize } else { 3 };
    let mut lanes: Vec<ForgeTraceLane> = Vec::new();
    match entry {
        Some(e) => {
            let mut tier: usize = 0;
            while tier < 4
                invariant
                    tier <= 4,
                    char_idx == char_index(char_type),
                    effect_level <= 3,
                    trace_lane_ids_fit(e@, char_idx as int, effect_level),
                    lanes@.map_values(|l: ForgeTraceLane| l@) == trace_lanes(
                        e@, char_idx as int, effect_level, scene_effect_files@, tier as int),
                decreases 4 - tier,
            {
                let flat_idx = char_idx * 4 + tier;
                let base: i16 = if flat_idx < e.effect_ids.len() { e.effect_ids[flat_idx] } else { 0 };
                let ghost old_l = lanes@;
                if base != 0 {
                    assert(lane_final_id(lane_base_id(e@, char_idx as int, tier as int), effect_level) <= u32::MAX);
                    let base_effect_id = base as i32;
                    let final_effect_id = (base_effect_id as u32) * 10 + effect_level;
                    let dummy_id: i32 = if tier < e.dummy_ids.len() { e.dummy_ids[tier] as i32 } else { 0 };
                    let par_file = match scene_effect_files.get(&final_effect_id) {
                        Some(f) => Some(f.clone()),
                        None => None,
                    };
                    let lane = ForgeTraceLane { lane_tier: tier as u32, base_effect_id, final_effect_id, dummy_id, par_file };
                    lanes.push(lane);
                    assert(lanes@.map_values(|l: ForgeTraceLane| l@) =~= old_l.map_values(|l: ForgeTraceLane| l@).push(lane@));
                }
                tier += 1;
            }
        },
        None => {},
    }
    ForgeTracePlan {
        total_level: gems.total_level,
        effect_level,
        category,
        item_refine_values,
        refine_effect_id,
        light_id,
        scale_index: char_idx,
        lanes,
    }
}

} // verus!

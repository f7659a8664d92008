//! Maps and their placed objects: the records that the map views show,
//! placement counting and querying, and the building list.

use vstd::prelude::*;
use std::collections::HashMap;
use crate::text::{
    ascii_lower, ascii_lowercase, chars_of, contains_chars, decimal, decimal_string, seq_contains,
    str_trim, string_of, trimmed,
};

verus! {

broadcast use vstd::std_specs::hash::group_hash_axioms;

/// A map of the project, as listed for the map browser.
#[derive(Debug, Clone)]
pub struct MapEntry {
    pub name: String,
    pub display_name: String,
    pub map_file: String,
    pub has_obj: bool,
    pub has_rbo: bool,
    pub width: i32,
    pub height: i32,
}

/// A building of `sceneobjinfo`, as listed for the building browser.
#[derive(Debug, Clone)]
pub struct BuildingEntry {
    pub id: u32,
    pub filename: String,
    pub display_name: String,
}

/// Size and content counts of a map.
#[derive(Debug, Clone)]
pub struct MapMetadata {
    pub name: String,
    pub width: i32,
    pub height: i32,
    pub section_width: i32,
    pub section_height: i32,
    pub total_sections: u32,
    pub non_empty_sections: u32,
    pub total_tiles: u32,
    pub object_count: u32,
}

/// Where a map export was written.
#[derive(Debug, Clone)]
pub struct MapExportResult {
    pub gltf_path: String,
    pub bin_path: String,
    pub map_name: String,
}

/// Where the export of one building of a map was written.
#[derive(Debug, Clone)]
pub struct BuildingExportEntry {
    pub obj_id: u32,
    pub filename: String,
    pub gltf_path: String,
}

/// Counts of the objects placed on a map.
#[derive(Debug, Clone, Copy)]
pub struct MapPlacementSummary {
    pub total: u32,
    pub building_count: u32,
    pub effect_count: u32,
}

/// Object type of a placed building.
pub const OBJ_TYPE_BUILDING: u8 = 0;

/// Object type of a placed scene effect.
pub const OBJ_TYPE_EFFECT: u8 = 1;

/// One object as the map's object file places it.  Coordinates are kept
/// as the bit patterns of their `f32` values.
#[derive(Debug, Clone, Copy)]
pub struct SceneObjPlacement {
    pub obj_type: u8,
    pub obj_id: u32,
    pub world_x_bits: u32,
    pub world_y_bits: u32,
    pub world_z_bits: u32,
    pub yaw_angle: i16,
    pub scale: i16,
}

/// A record of `sceneobjinfo`: a building model.
#[derive(Debug, Clone)]
pub struct SceneObjInfo {
    pub id: u32,
    pub filename: String,
    pub display_name: String,
    pub attach_effect_id: i32,
}

/// A record of `sceneffectinfo`: a scene effect.
#[derive(Debug, Clone)]
pub struct SceneEffectInfo {
    pub id: u32,
    pub filename: String,
    pub display_name: String,
}

/// A placed object with what the tables say of it.  Coordinates are kept as
/// the bit patterns of their `f32` values.
#[derive(Debug, Clone)]
pub struct MapPlacementRecord {
    pub index: u32,
    pub obj_type: u8,
    pub obj_id: u32,
    pub kind: String,
    pub world_x_bits: u32,
    pub world_y_bits: u32,
    pub world_z_bits: u32,
    pub yaw_angle: i16,
    pub scale: i16,
    pub display_name: Option<String>,
    pub asset_name: Option<String>,
    pub attach_effect_id: Option<i32>,
}

/// Mathematical value of a [`MapPlacementRecord`].
pub struct MapPlacementRecordModel {
    pub index: u32,
    pub obj_type: u8,
    pub obj_id: u32,
    pub kind: Seq<char>,
    pub world_x_bits: u32,
    pub world_y_bits: u32,
    pub world_z_bits: u32,
    pub yaw_angle: i16,
    pub scale: i16,
    pub display_name: Option<Seq<char>>,
    pub asset_name: Option<Seq<char>>,
    pub attach_effect_id: Option<i32>,
}

/// The view of an optional string.
pub open spec fn opt_view(s: Option<String>) -> Option<Seq<char>> {
    match s {
        Some(v) => Some(v@),
        None => None,
    }
}

impl View for MapPlacementRecord {
    type V = MapPlacementRecordModel;

    open spec fn view(&self) -> MapPlacementRecordModel {
        MapPlacementRecordModel {
            index: self.index,
            obj_type: self.obj_type,
            obj_id: self.obj_id,
            kind: self.kind@,
            world_x_bits: self.world_x_bits,
            world_y_bits: self.world_y_bits,
            world_z_bits: self.world_z_bits,
            yaw_angle: self.yaw_angle,
            scale: self.scale,
            display_name: opt_view(self.display_name),
            asset_name: opt_view(self.asset_name),
            attach_effect_id: self.attach_effect_id,
        }
    }
}

/// A display name as shown: none when empty.
pub open spec fn shown_name(name: Seq<char>) -> Option<Seq<char>> {
    if name.len() == 0 { None } else { Some(name) }
}

/// The record of object `index` of a map.  A building (type 0) and a scene
/// effect (type 1) take their display name (when not empty) and file name
/// from their table record, if there is one; a building also its attached
/// effect.  Other types are "unknown" and carry nothing.
pub open spec fn spec_placement_record(
    index: u32,
    obj: SceneObjPlacement,
    buildings: Map<u32, SceneObjInfo>,
    effects: Map<u32, SceneEffectInfo>,
) -> MapPlacementRecordModel {
    let (kind, display_name, asset_name, attach_effect_id) = if obj.obj_type == 0 {
        if buildings.contains_key(obj.obj_id) {
            let b = buildings[obj.obj_id];
            ("building"@, shown_name(b.display_name@), Some(b.filename@), Some(b.attach_effect_id))
        } else {
            ("building"@, None, None, None)
        }
    } else if obj.obj_type == 1 {
        if effects.contains_key(obj.obj_id) {
            let e = effects[obj.obj_id];
            ("effect"@, shown_name(e.display_name@), Some(e.filename@), None)
        } else {
            ("effect"@, None, None, None)
        }
    } else {
        ("unknown"@, None, None, None)
    };
    MapPlacementRecordModel {
        index,
        obj_type: obj.obj_type,
        obj_id: obj.obj_id,
        kind,
        world_x_bits: obj.world_x_bits,
        world_y_bits: obj.world_y_bits,
        world_z_bits: obj.world_z_bits,
        yaw_angle: obj.yaw_angle,
        scale: obj.scale,
        display_name,
        asset_name,
        attach_effect_id,
    }
}

fn shown_display_name(name: &String) -> (r: Option<String>)
    ensures
        opt_view(r) == shown_name(name@),
{
    if name.as_str().unicode_len() == 0 {
        None
    } else {
        Some(name.clone())
    }
}

/// The record of object `index` of a map, with its table records looked up.
pub fn placement_record(
    index: u32,
    obj: &SceneObjPlacement,
    buildings: &HashMap<u32, SceneObjInfo>,
    effects: &HashMap<u32, SceneEffectInfo>,
) -> (r: MapPlacementRecord)
    ensures
        r@ == spec_placement_record(index, *obj, buildings@, effects@),
{
    let (kind, display_name, asset_name, attach_effect_id) = if obj.obj_type == 0 {
        match buildings.get(&obj.obj_id) {
            Some(b) => (
                String::from_str("building"),
                shown_display_name(&b.display_name),
                Some(b.filename.clone()),
                Some(b.attach_effect_id),
            ),
            None => (String::from_str("building"), None, None, None),
        }
    } else if obj.obj_type == 1 {
        match effects.get(&obj.obj_id) {
            Some(e) => (String::from_str("effect"), shown_display_name(&e.display_name), Some(e.filename.clone()), None),
            None => (String::from_str("effect"), None, None, None),
        }
    } else {
        (String::from_str("unknown"), None, None, None)
    };
    MapPlacementRecord {
        index,
        obj_type: obj.obj_type,
        obj_id: obj.obj_id,
        kind,
        world_x_bits: obj.world_x_bits,
        world_y_bits: obj.world_y_bits,
        world_z_bits: obj.world_z_bits,
        yaw_angle: obj.yaw_angle,
        scale: obj.scale,
        display_name,
        asset_name,
        attach_effect_id,
    }
}

/// The records of all objects of a map, in file order (record `i` has index `i`).
pub fn placement_records(
    objects: &Vec<SceneObjPlacement>,
    buildings: &HashMap<u32, SceneObjInfo>,
    effects: &HashMap<u32, SceneEffectInfo>,
) -> (r: Vec<MapPlacementRecord>)
    requires
        objects@.len() <= u32::MAX,
    ensures
        r@.len() == objects@.len(),
        forall|i: int| 0 <= i < objects@.len() ==> #[trigger] r@[i]@ == spec_placement_record(
            i as u32, objects@[i], buildings@, effects@),
{
    let mut r: Vec<MapPlacementRecord> = Vec::with_capacity(objects.len());
    let mut i: usize = 0;
    while i < objects.len()
        invariant
            objects@.len() <= u32::MAX,
            i <= objects@.len(),
            r@.len() == i,
            forall|k: int| 0 <= k < i ==> #[trigger] r@[k]@ == spec_placement_record(
                k as u32, objects@[k], buildings@, effects@),
        decreases objects@.len() - i,
    {
        let rec = placement_record(i as u32, &objects[i], buildings, effects);
        r.push(rec);
        i += 1;
    }
    r
}

/// Number of values equal to `t` among `types`.
pub open spec fn count_type(types: Seq<u8>, t: u8) -> nat
    decreases types.len(),
{
    if types.len() == 0 {
        0
    } else {
        count_type(types.drop_last(), t) + if types.last() == t { 1nat } else { 0nat }
    }
}

/// The object types of a list of placements.
pub open spec fn placement_types(ps: Seq<MapPlacementRecord>) -> Seq<u8> {
    ps.map_values(|p: MapPlacementRecord| p.obj_type)
}

proof fn lemma_count_type_le(types: Seq<u8>, t: u8)
    ensures
        count_type(types, t) <= types.len(),
    decreases types.len(),
{
    if types.len() > 0 {
        lemma_count_type_le(types.drop_last(), t);
    }
}

/// Buildings and effects together never outnumber the placements.
pub proof fn placement_counts_bounded(types: Seq<u8>)
    ensures
        count_type(types, 0) + count_type(types, 1) <= types.len(),
    decreases types.len(),
{
    if types.len() > 0 {
        placement_counts_bounded(types.drop_last());
    }
}

/// Counts the placements of a map: all of them, the buildings and the effects.
pub fn placement_summary(placements: &Vec<MapPlacementRecord>) -> (r: MapPlacementSummary)
    requires
        placements@.len() <= u32::MAX,
    ensures
        r.total == placements@.len(),
        r.building_count == count_type(placement_types(placements@), 0),
        r.effect_count == count_type(placement_types(placements@), 1),
{
    let ghost types = placement_types(placements@);
    let mut building_count: u32 = 0;
    let mut effect_count: u32 = 0;
    let mut i: usize = 0;
    while i < placements.len()
        invariant
            placements@.len() <= u32::MAX,
            types == placement_types(placements@),
            i <= placements@.len(),
            building_count == count_type(types.subrange(0, i as int), 0),
            effect_count == count_type(types.subrange(0, i as int), 1),
        decreases placements@.len() - i,
    {
        proof {
            assert(types.subrange(0, i + 1).drop_last() =~= types.subrange(0, i as int));
            placement_counts_bounded(types.subrange(0, i as int));
        }
        let t = placements[i].obj_type;
        if t == 0 {
            building_count += 1;
        } else if t == 1 {
            effect_count += 1;
        }
        i += 1;
    }
    assert(types.subrange(0, placements@.len() as int) =~= types);
    MapPlacementSummary { total: placements.len() as u32, building_count, effect_count }
}

// ---------------------------------------------------------------------------
// Placement queries
// ---------------------------------------------------------------------------

/// A query text as the search uses it: trimmed, then ASCII-lowercased.
pub open spec fn spec_normalize_query(query: Option<Seq<char>>) -> Seq<char> {
    match query {
        Some(q) => ascii_lower(trimmed(q)),
        None => ascii_lower(trimmed(Seq::empty())),
    }
}

/// Normalizes a search text (no text: the empty text).
pub fn normalize_query(query: &Option<String>) -> (r: String)
    ensures
        r@ == spec_normalize_query(opt_view(*query)),
{
    let empty = String::new();
    let q: &String = match query {
        Some(q) => q,
        None => &empty,
    };
    let t = str_trim(q.as_str());
    let lower = ascii_lowercase(&chars_of(t));
    string_of(&lower)
}

/// Whether an object type passes a type filter: "building" keeps buildings,
/// "effect" keeps effects, anything else keeps everything.
pub open spec fn type_matches(placement_type: Seq<char>, obj_type: u8) -> bool {
    if placement_type == "building"@ {
        obj_type == 0
    } else if placement_type == "effect"@ {
        obj_type == 1
    } else {
        true
    }
}

/// Whether a placement matches a (normalized) search text: every placement
/// matches the empty text; otherwise the text must occur in the decimal
/// object id or index, in the ASCII-lowercased display or asset name, or in
/// the kind.
pub open spec fn text_matches(query: Seq<char>, p: MapPlacementRecordModel) -> bool {
    ||| query.len() == 0
    ||| seq_contains(decimal(p.obj_id as nat), query)
    ||| seq_contains(decimal(p.index as nat), query)
    ||| (p.display_name matches Some(d) && seq_contains(ascii_lower(d), query))
    ||| (p.asset_name matches Some(a) && seq_contains(ascii_lower(a), query))
    ||| seq_contains(p.kind, query)
}

/// Whether a placement passes both the type filter and the search text.
pub open spec fn placement_matches(placement_type: Seq<char>, query: Seq<char>, p: MapPlacementRecordModel) -> bool {
    type_matches(placement_type, p.obj_type) && text_matches(query, p)
}

/// Indices of the matching placements among the first `n`, in order.
pub open spec fn matching_indices(
    ps: Seq<MapPlacementRecord>,
    placement_type: Seq<char>,
    query: Seq<char>,
    n: int,
) -> Seq<usize>
    decreases n,
{
    if n <= 0 {
        Seq::empty()
    } else {
        let prev = matching_indices(ps, placement_type, query, n - 1);
        if placement_matches(placement_type, query, ps[n - 1]@) { prev.push((n - 1) as usize) } else { prev }
    }
}

fn equals_chars(a: &Vec<char>, b: &str) -> (r: bool)
    ensures
        r == (a@ == b@),
{
    let bc = chars_of(b);
    if a.len() != bc.len() {
        return false;
    }
    let mut i: usize = 0;
    while i < a.len()
        invariant
            a@.len() == bc@.len(),
            bc@ == b@,
            i <= a@.len(),
            forall|k: int| 0 <= k < i ==> a@[k] == bc@[k],
        decreases a@.len() - i,
    {
        if a[i] != bc[i] {
            return false;
        }
        i += 1;
    }
    assert(a@ =~= bc@);
    true
}

fn optional_name_matches(name: &Option<String>, query: &Vec<char>) -> (r: bool)
    ensures
        r == (opt_view(*name) matches Some(d) && seq_contains(ascii_lower(d), query@)),
{
    match name {
        Some(d) => contains_chars(&ascii_lowercase(&chars_of(d.as_str())), query),
        None => false,
    }
}

fn record_matches(p: &MapPlacementRecord, type_chars: &Vec<char>, query: &Vec<char>) -> (r: bool)
    ensures
        r == placement_matches(type_chars@, query@, p@),
{
    let type_ok = if equals_chars(type_chars, "building") {
        p.obj_type == 0
    } else if equals_chars(type_chars, "effect") {
        p.obj_type == 1
    } else {
        true
    };
    if !type_ok {
        return false;
    }
    if query.len() == 0 {
        return true;
    }
    contains_chars(&chars_of(decimal_string(p.obj_id as u64).as_str()), query)
        || contains_chars(&chars_of(decimal_string(p.index as u64).as_str()), query)
        || optional_name_matches(&p.display_name, query)
        || optional_name_matches(&p.asset_name, query)
        || contains_chars(&chars_of(p.kind.as_str()), query)
}

/// Indices of the placements that pass the type filter and the (normalized)
/// search text, in list order.
pub fn filter_placements(placements: &Vec<MapPlacementRecord>, placement_type: &str, query: &str) -> (r: Vec<usize>)
    ensures
        r@ == matching_indices(placements@, placement_type@, query@, placements@.len() as int),
{
    let type_chars = chars_of(placement_type);
    let query_chars = chars_of(query);
    let mut r: Vec<usize> = Vec::new();
    let mut i: usize = 0;
    while i < placements.len()
        invariant
            type_chars@ == placement_type@,
            query_chars@ == query@,
            i <= placements@.len(),
            r@ == matching_indices(placements@, placement_type@, query@, i as int),
        decreases placements@.len() - i,
    {
        if record_matches(&placements[i], &type_chars, &query_chars) {
            r.push(i);
        }
        i += 1;
    }
    r
}

/// The window of a placement page: the echoed offset and limit, and the
/// range `start..end` of the filtered placements that the page holds.
#[derive(Debug, Clone, Copy)]
pub struct PlacementWindow {
    pub offset: u32,
    pub limit: u32,
    pub start: usize,
    pub end: usize,
}

/// Page size used when none is asked for.
pub const DEFAULT_PAGE_LIMIT: u32 = 200;

/// Largest page size.
pub const MAX_PAGE_LIMIT: u32 = 500;

/// The page size for a requested one: 200 by default, clamped to `1..=500`.
pub open spec fn page_limit(limit: Option<u32>) -> u32 {
    let l = match limit {
        Some(l) => l,
        None => 200,
    };
    if l < 1 { 1 } else if l > 500 { 500 } else { l }
}

/// The page of `total` filtered placements that starts at `offset` (0 by
/// default) and holds at most [`page_limit`] of them.
pub fn placement_window(total: usize, offset: Option<u32>, limit: Option<u32>) -> (w: PlacementWindow)
    ensures
        w.offset == (match offset { Some(o) => o, None => 0 }),
        w.limit == page_limit(limit),
        w.start == (if w.offset <= total { w.offset as int } else { total as int }),
        w.end == (if w.start + w.limit <= total { w.start + w.limit } else { total as int }),
{
    let off: u32 = match offset {
        Some(o) => o,
        None => 0,
    };
    let requested: u32 = match limit {
        Some(l) => l,
        None => DEFAULT_PAGE_LIMIT,
    };
    let lim: u32 = if requested < 1 {
        1
    } else if requested > MAX_PAGE_LIMIT {
        MAX_PAGE_LIMIT
    } else {
        requested
    };
    let start: usize = if (off as usize) <= total { off as usize } else { total };
    let end: usize = if (lim as usize) <= total - start { start + lim as usize } else { total };
    PlacementWindow { offset: off, limit: lim, start, end }
}

// ---------------------------------------------------------------------------
// Building list
// ---------------------------------------------------------------------------

/// Whether `s` ends with `suffix`.
pub open spec fn ends_with(s: Seq<char>, suffix: Seq<char>) -> bool {
    s.len() >= suffix.len() && s.subrange(s.len() - suffix.len(), s.len() as int) == suffix
}

/// The name shown for a building model file: the file name without a
/// trailing ".lmo" (or else ".LMO").
pub open spec fn spec_building_display_name(filename: Seq<char>) -> Seq<char> {
    if ends_with(filename, ".lmo"@) {
        filename.subrange(0, filename.len() - 4)
    } else if ends_with(filename, ".LMO"@) {
        filename.subrange(0, filename.len() - 4)
    } else {
        filename
    }
}

fn ends_with_chars(cs: &Vec<char>, suffix: &str) -> (r: bool)
    ensures
        r == ends_with(cs@, suffix@),
{
    let sc = chars_of(suffix);
    if sc.len() > cs.len() {
        return false;
    }
    let base = cs.len() - sc.len();
    let mut i: usize = 0;
    while i < sc.len()
        invariant
            sc@ == suffix@,
            base + sc@.len() == cs.len(),
            i <= sc@.len(),
            forall|k: int| 0 <= k < i ==> cs@[base + k] == sc@[k],
        decreases sc@.len() - i,
    {
        if cs[base + i] != sc[i] {
            assert(cs@.subrange(base as int, cs@.len() as int)[i as int] != sc@[i as int]);
            return false;
        }
        i += 1;
    }
    assert(cs@.subrange(base as int, cs@.len() as int) =~= sc@);
    true
}

/// The name shown for a building model file.
pub fn building_display_name(filename: &str) -> (r: String)
    ensures
        r@ == spec_building_display_name(filename@),
{
    let cs = chars_of(filename);
    proof {
        reveal_strlit(".lmo");
        reveal_strlit(".LMO");
    }
    if ends_with_chars(&cs, ".lmo") || ends_with_chars(&cs, ".LMO") {
        String::from_str(filename.substring_char(0, cs.len() - 4))
    } else {
        String::from_str(filename)
    }
}

/// Mathematical value of a [`BuildingEntry`].
pub struct BuildingEntryModel {
    pub id: u32,
    pub filename: Seq<char>,
    pub display_name: Seq<char>,
}

impl View for BuildingEntry {
    type V = BuildingEntryModel;

    open spec fn view(&self) -> BuildingEntryModel {
        BuildingEntryModel { id: self.id, filename: self.filename@, display_name: self.display_name@ }
    }
}

/// The list entry of a building record.
pub open spec fn building_entry_of(info: SceneObjInfo) -> BuildingEntryModel {
    BuildingEntryModel {
        id: info.id,
        filename: info.filename@,
        display_name: spec_building_display_name(info.filename@),
    }
}

/// Entries in ascending id order.
pub open spec fn sorted_by_id(es: Seq<BuildingEntryModel>) -> bool {
    forall|i: int, j: int| 0 <= i < j < es.len() ==> es[i].id <= es[j].id
}

/// The views of a list of entries.
pub open spec fn entry_views(es: Seq<BuildingEntry>) -> Seq<BuildingEntryModel> {
    es.map_values(|e: BuildingEntry| e@)
}

/// Position at which an entry with id `id` goes into `es`: after every
/// entry whose id is at most `id`.
fn insert_position(es: &Vec<BuildingEntry>, id: u32) -> (p: usize)
    requires
        sorted_by_id(entry_views(es@)),
    ensures
        p <= es@.len(),
        forall|k: int| 0 <= k < p ==> es@[k].id <= id,
        forall|k: int| p <= k < es@.len() ==> es@[k].id > id,
{
    let mut p: usize = es.len();
    while p > 0 && es[p - 1].id > id
        invariant
            sorted_by_id(entry_views(es@)),
            p <= es@.len(),
            forall|k: int| p <= k < es@.len() ==> es@[k].id > id,
        decreases p,
    {
        p -= 1;
    }
    proof {
        assert forall|k: int| 0 <= k < p implies es@[k].id <= id by {
            if p > 0 {
                assert(entry_views(es@)[k].id <= entry_views(es@)[p - 1].id);
            }
        }
    }
    p
}

/// The building list: one entry per building record, with its display
/// name, in ascending id order.
pub fn building_list(infos: &Vec<SceneObjInfo>) -> (r: Vec<BuildingEntry>)
    ensures
        sorted_by_id(entry_views(r@)),
        entry_views(r@).to_multiset() == infos@.map_values(|i: SceneObjInfo| building_entry_of(i)).to_multiset(),
{
    let ghost src = infos@.map_values(|i: SceneObjInfo| building_entry_of(i));
    let mut r: Vec<BuildingEntry> = Vec::with_capacity(infos.len());
    let mut n: usize = 0;
    assert(entry_views(r@) =~= src.subrange(0, 0));
    while n < infos.len()
        invariant
            n <= infos@.len(),
            src == infos@.map_values(|i: SceneObjInfo| building_entry_of(i)),
            sorted_by_id(entry_views(r@)),
            entry_views(r@).to_multiset() == src.subrange(0, n as int).to_multiset(),
        decreases infos@.len() - n,
    {
        let info = &infos[n];
        let entry = BuildingEntry {
            id: info.id,
            filename: info.filename.clone(),
            display_name: building_display_name(info.filename.as_str()),
        };
        assert(entry@ == src[n as int]);
        let p = insert_position(&r, entry.id);
        let ghost old_r = r@;
        r.insert(p, entry);
        proof {
            assert(entry_views(r@) =~= entry_views(old_r).insert(p as int, src[n as int]));
            vstd::seq_lib::to_multiset_insert(entry_views(old_r), p as int, src[n as int]);
            assert(src.subrange(0, n + 1) =~= src.subrange(0, n as int).push(src[n as int]));
            vstd::seq_lib::to_multiset_build(src.subrange(0, n as int), src[n as int]);
            assert forall|i: int, j: int| 0 <= i < j < entry_views(r@).len() implies
                entry_views(r@)[i].id <= entry_views(r@)[j].id by {
                assert(entry_views(old_r)[i].id == old_r[i].id);
                if j < p {
                    assert(entry_views(old_r)[i].id <= entry_views(old_r)[j].id);
                } else if j == p {
                } else if i < p {
                    assert(entry_views(old_r)[i].id <= entry_views(old_r)[j - 1].id);
                } else if i == p {
                } else {
                    assert(entry_views(old_r)[i - 1].id <= entry_views(old_r)[j - 1].id);
                }
            }
        }
        n += 1;
    }
    assert(src.subrange(0, infos@.len() as int) =~= src);
    r
}

// ---------------------------------------------------------------------------
// Scene models of a map
// ---------------------------------------------------------------------------

/// Whether some building (type 0) object of `objects` has id `id`.
pub open spec fn places_building(objects: Seq<SceneObjPlacement>, id: u32) -> bool {
    exists|i: int| 0 <= i < objects.len() && objects[i].obj_type == 0 && objects[i].obj_id == id
}

/// Strictly ascending ids.
pub open spec fn strictly_ascending(ids: Seq<u32>) -> bool {
    forall|i: int, j: int| 0 <= i < j < ids.len() ==> ids[i] < ids[j]
}

/// Inserts `id` into a strictly ascending list unless it is there already.
fn insert_unique(ids: &mut Vec<u32>, id: u32)
    requires
        strictly_ascending(old(ids)@),
    ensures
        strictly_ascending(final(ids)@),
        forall|x: u32| final(ids)@.contains(x) <==> (old(ids)@.contains(x) || x == id),
{
    let mut p: usize = 0;
    while p < ids.len() && ids[p] < id
        invariant
            ids@ == old(ids)@,
            p <= ids@.len(),
            forall|k: int| 0 <= k < p ==> ids@[k] < id,
        decreases ids@.len() - p,
    {
        p += 1;
    }
    if p < ids.len() && ids[p] == id {
        assert(ids@[p as int] == id);
        assert(ids@.contains(id));
        return;
    }
    let ghost before = ids@;
    ids.insert(p, id);
    proof {
        assert forall|i: int, j: int| 0 <= i < j < ids@.len() implies ids@[i] < ids@[j] by {
            if j < p {
            } else if j == p {
            } else if i < p {
                assert(before[j - 1] >= id);
            } else if i == p {
                assert(before[j - 1] > id || before[j - 1] == id);
                assert(before[p as int] > id);
                if j - 1 > p {
                    assert(before[p as int] < before[j - 1]);
                }
            } else {
            }
        }
        assert(before == old(ids)@);
        assert forall|x: u32| #[trigger] ids@.contains(x) <==> (old(ids)@.contains(x) || x == id) by {
            if ids@.contains(x) {
                let k = choose|k: int| 0 <= k < ids@.len() && ids@[k] == x;
                if k < p {
                    assert(before[k] == x);
                } else if k > p {
                    assert(before[k - 1] == x);
                }
            }
            if before.contains(x) {
                let k = choose|k: int| 0 <= k < before.len() && before[k] == x;
                if k < p {
                    assert(ids@[k] == x);
                } else {
                    assert(ids@[k + 1] == x);
                }
            }
            if x == id {
                assert(ids@[p as int] == x);
            }
        }
    }
}

/// The distinct ids of the buildings placed on a map, in ascending order:
/// the models that a map export loads, each once.
pub fn unique_building_ids(objects: &Vec<SceneObjPlacement>) -> (r: Vec<u32>)
    ensures
        strictly_ascending(r@),
        forall|id: u32| r@.contains(id) <==> places_building(objects@, id),
{
    let mut r: Vec<u32> = Vec::new();
    let mut i: usize = 0;
    while i < objects.len()
        invariant
            i <= objects@.len(),
            strictly_ascending(r@),
            forall|id: u32| r@.contains(id) <==> places_building(objects@.subrange(0, i as int), id),
        decreases objects@.len() - i,
    {
        let o = objects[i];
        let ghost before = r@;
        if o.obj_type == 0 {
            insert_unique(&mut r, o.obj_id);
        }
        proof {
            let s0 = objects@.subrange(0, i as int);
            let s1 = objects@.subrange(0, i + 1);
            assert forall|id: u32| r@.contains(id) <==> places_building(s1, id) by {
                if places_building(s1, id) {
                    let k = choose|k: int| 0 <= k < s1.len() && s1[k].obj_type == 0 && s1[k].obj_id == id;
                    if k < i {
                        assert(s0[k] == s1[k]);
                        assert(places_building(s0, id));
                    }
                }
                if places_building(s0, id) {
                    let k = choose|k: int| 0 <= k < s0.len() && s0[k].obj_type == 0 && s0[k].obj_id == id;
                    assert(s1[k] == s0[k]);
                }
                if o.obj_type == 0 && id == o.obj_id {
                    assert(s1[i as int] == o);
                }
            }
        }
        i += 1;
    }
    assert(objects@.subrange(0, objects@.len() as int) =~= objects@);
    r
}

} // verus!

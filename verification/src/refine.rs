//! Refine tables (`ItemRefineEffectInfo.bin`, `ItemRefineInfo.bin`,
//! `StoneInfo.bin`) and the stone combination rule.
//!
//! Every table file starts with a little-endian `u32` entry size followed by
//! fixed-size records.  Each record begins with the 108-byte raw-data header
//! (`bExist` at offset 0, `nID` at offset 100) and continues with the
//! table-specific fields.

use vstd::prelude::*;
use std::collections::HashMap;
use crate::bytes::{le_i16, le_i32, le_u32, read_i16, read_i32, read_u32};
use crate::text::{lossy_text, string_from_utf8_lossy};

verus! {

broadcast use vstd::std_specs::hash::group_hash_axioms;

/// Size of the raw-data header that precedes the table-specific fields.
pub const RAW_DATA_INFO_SIZE: usize = 108;
/// Offset of `bExist` within a record.
pub const RAW_DATA_INFO_BEXIST_OFFSET: usize = 0;
/// Offset of `nID` within a record.
pub const RAW_DATA_INFO_NID_OFFSET: usize = 100;

/// Bytes of a refine-effect record that the parser reads.
pub const REFINE_EFFECT_READ_SIZE: usize = 148;
/// Bytes of an item-refine record that the parser reads.
pub const ITEM_REFINE_READ_SIZE: usize = 152;
/// Bytes of a stone record that the parser reads.
pub const STONE_INFO_READ_SIZE: usize = 192;

// ---------------------------------------------------------------------------
// Table framing
// ---------------------------------------------------------------------------

/// The record size announced in the table header.
pub open spec fn table_entry_size(data: Seq<u8>) -> int {
    le_u32(data, 0)
}

/// Number of whole records that follow the header (0 when there is no usable header).
pub open spec fn table_entry_count(data: Seq<u8>) -> int {
    if data.len() < 4 || table_entry_size(data) == 0 {
        0
    } else {
        (data.len() - 4) / table_entry_size(data)
    }
}

/// Offset of record `i` in the file.
pub open spec fn table_entry_base(data: Seq<u8>, i: int) -> int {
    4 + i * table_entry_size(data)
}

/// Whether record `i` is marked as present (`bExist != 0`).
pub open spec fn table_entry_exists(data: Seq<u8>, i: int) -> bool {
    le_i32(data, table_entry_base(data, i)) != 0
}

/// Record `i` can be read: its `bExist` field lies inside the record and, when
/// it is present, all `need` bytes that the parser reads lie inside it.
pub open spec fn table_entry_readable(data: Seq<u8>, i: int, need: int) -> bool {
    &&& table_entry_size(data) >= 4
    &&& table_entry_exists(data, i) ==> table_entry_size(data) >= need
}

/// Every record of the table can be read with a layout of `need` bytes.
pub open spec fn table_reads_in_bounds(data: Seq<u8>, need: int) -> bool {
    forall|i: int| 0 <= i < table_entry_count(data) ==> #[trigger] table_entry_readable(data, i, need)
}

proof fn lemma_entry_fits(len: int, es: int, i: int)
    requires
        es > 0,
        len >= 0,
        0 <= i < len / es,
    ensures
        0 <= i * es,
        i * es + es <= len,
{
    assert(0 <= i * es) by (nonlinear_arith)
        requires
            es > 0,
            i >= 0,
    ;
    assert(i * es + es <= len) by (nonlinear_arith)
        requires
            es > 0,
            len >= 0,
            0 <= i < len / es,
    ;
}

/// Whether every record of `data` can be read with a layout of `need` bytes.
pub fn table_layout_ok(data: &[u8], need: usize) -> (ok: bool)
    ensures
        ok == table_reads_in_bounds(data@, need as int),
{
    if data.len() < 4 {
        return true;
    }
    let entry_size = read_u32(data, 0) as usize;
    if entry_size == 0 {
        return true;
    }
    let len = data.len();
    let count = (len - 4) / entry_size;
    let mut i: usize = 0;
    while i < count
        invariant
            len == data@.len(),
            data@.len() >= 4,
            entry_size == table_entry_size(data@),
            entry_size > 0,
            count == table_entry_count(data@),
            i <= count,
            forall|k: int| 0 <= k < i ==> #[trigger] table_entry_readable(data@, k, need as int),
        decreases count - i,
    {
        proof {
            lemma_entry_fits(data@.len() - 4, entry_size as int, i as int);
        }
        if entry_size < 4 {
            assert(!table_entry_readable(data@, i as int, need as int));
            return false;
        }
        let base = 4 + i * entry_size;
        let exists = read_i32(data, base) != 0;
        if exists && entry_size < need {
            assert(!table_entry_readable(data@, i as int, need as int));
            return false;
        }
        assert(table_entry_readable(data@, i as int, need as int));
        i += 1;
    }
    true
}

/// A table can be read in full when it has no usable header (shorter than 4
/// bytes, or a record size of 0) or when its records are at least as large
/// as the `need` bytes (at least the 4-byte `bExist`) that the parser reads.
pub proof fn table_reads_in_bounds_when_records_fit(data: Seq<u8>, need: int)
    requires
        need >= 4,
        data.len() < 4 || table_entry_size(data) == 0 || table_entry_size(data) >= need,
    ensures
        table_reads_in_bounds(data, need),
{
    assert forall|i: int| 0 <= i < table_entry_count(data) implies #[trigger] table_entry_readable(data, i, need) by {}
}

/// The indices of the present records among the first `n` records, in file order.
pub open spec fn present_records(data: Seq<u8>, n: int) -> Seq<int> {
    Seq::new(n as nat, |i: int| i).filter(|i: int| table_entry_exists(data, i))
}

proof fn lemma_present_records_step(data: Seq<u8>, n: int)
    requires
        n > 0,
    ensures
        present_records(data, n) == (if table_entry_exists(data, n - 1) {
            present_records(data, n - 1).push(n - 1)
        } else {
            present_records(data, n - 1)
        }),
{
    reveal(Seq::filter);
    let s = Seq::new(n as nat, |i: int| i);
    assert(s.drop_last() =~= Seq::new((n - 1) as nat, |i: int| i));
}

// ---------------------------------------------------------------------------
// ItemRefineEffectInfo.bin
// ---------------------------------------------------------------------------

/// One refine effect record: light glow and particle effect ids.
#[derive(Debug, Clone)]
pub struct RefineEffectEntry {
    pub id: i32,
    pub light_id: i32,
    /// Effect ids indexed `[char_type][tier]`, flattened to 16 values.
    pub effect_ids: Vec<i16>,
    /// Dummy point ids, one per tier.
    pub dummy_ids: Vec<i8>,
}

/// Mathematical value of a [`RefineEffectEntry`].
pub struct RefineEffectEntryModel {
    pub id: i32,
    pub light_id: i32,
    pub effect_ids: Seq<i16>,
    pub dummy_ids: Seq<i8>,
}

impl View for RefineEffectEntry {
    type V = RefineEffectEntryModel;

    open spec fn view(&self) -> RefineEffectEntryModel {
        RefineEffectEntryModel {
            id: self.id,
            light_id: self.light_id,
            effect_ids: self.effect_ids@,
            dummy_ids: self.dummy_ids@,
        }
    }
}

/// All present records of `ItemRefineEffectInfo.bin`, in file order.
#[derive(Debug, Clone)]
pub struct RefineEffectTable {
    pub entries: Vec<RefineEffectEntry>,
}

impl View for RefineEffectTable {
    type V = Seq<RefineEffectEntryModel>;

    open spec fn view(&self) -> Seq<RefineEffectEntryModel> {
        self.entries@.map_values(|e: RefineEffectEntry| e@)
    }
}

/// The refine effect record stored at offset `b`.
pub open spec fn refine_effect_at(data: Seq<u8>, b: int) -> RefineEffectEntryModel {
    RefineEffectEntryModel {
        id: le_i32(data, b + 100) as i32,
        light_id: le_i32(data, b + 108) as i32,
        effect_ids: Seq::new(16, |j: int| le_i16(data, b + 112 + 2 * j) as i16),
        dummy_ids: Seq::new(4, |j: int| data[b + 144 + j] as i8),
    }
}

/// Present refine effect records among the first `n` records.
pub open spec fn refine_effects_prefix(data: Seq<u8>, n: nat) -> Seq<RefineEffectEntryModel>
    decreases n,
{
    if n == 0 {
        Seq::empty()
    } else {
        let prev = refine_effects_prefix(data, (n - 1) as nat);
        if table_entry_exists(data, n - 1) {
            prev.push(refine_effect_at(data, table_entry_base(data, n - 1)))
        } else {
            prev
        }
    }
}

/// What `ItemRefineEffectInfo.bin` holds: its present records in file order.
pub open spec fn spec_refine_effects(data: Seq<u8>) -> Seq<RefineEffectEntryModel> {
    refine_effects_prefix(data, table_entry_count(data) as nat)
}

fn read_refine_effect(data: &[u8], base: usize) -> (e: RefineEffectEntry)
    requires
        base + 148 <= data.len(),
    ensures
        e@ == refine_effect_at(data@, base as int),
{
    let id = read_i32(data, base + RAW_DATA_INFO_NID_OFFSET);
    let derived = base + RAW_DATA_INFO_SIZE;
    let light_id = read_i32(data, derived);
    let mut effect_ids: Vec<i16> = Vec::with_capacity(16);
    let mut j: usize = 0;
    while j < 16
        invariant
            base + 148 <= data.len(),
            derived == base + 108,
            j <= 16,
            effect_ids@.len() == j,
            forall|k: int| 0 <= k < j ==> #[trigger] effect_ids@[k] == le_i16(data@, base + 112 + 2 * k) as i16,
        decreases 16 - j,
    {
        let val = read_i16(data, derived + 4 + j * 2);
        effect_ids.push(val);
        j += 1;
    }
    let mut dummy_ids: Vec<i8> = Vec::with_capacity(4);
    let mut j: usize = 0;
    while j < 4
        invariant
            base + 148 <= data.len(),
            derived == base + 108,
            j <= 4,
            dummy_ids@.len() == j,
            forall|k: int| 0 <= k < j ==> #[trigger] dummy_ids@[k] == data@[base + 144 + k] as i8,
        decreases 4 - j,
    {
        dummy_ids.push(data[derived + 4 + 32 + j] as i8);
        j += 1;
    }
    let e = RefineEffectEntry { id, light_id, effect_ids, dummy_ids };
    assert(e@.effect_ids =~= refine_effect_at(data@, base as int).effect_ids);
    assert(e@.dummy_ids =~= refine_effect_at(data@, base as int).dummy_ids);
    e
}

/// Parses `ItemRefineEffectInfo.bin`: every present record, in file order.
/// A file shorter than the header or announcing a record size of 0 holds no records.
pub fn parse_refine_effects(data: &[u8]) -> (r: Result<RefineEffectTable, String>)
    requires
        table_reads_in_bounds(data@, REFINE_EFFECT_READ_SIZE as int),
    ensures
        r is Ok,
        r matches Ok(t) ==> t@ == spec_refine_effects(data@),
{
    if data.len() < 4 {
        return Ok(RefineEffectTable { entries: Vec::new() });
    }
    let entry_size = read_u32(data, 0) as usize;
    if entry_size == 0 {
        return Ok(RefineEffectTable { entries: Vec::new() });
    }
    let len = data.len();
    let count = (len - 4) / entry_size;
    let mut entries: Vec<RefineEffectEntry> = Vec::new();
    let mut i: usize = 0;
    while i < count
        invariant
            len == data@.len(),
            data@.len() >= 4,
            entry_size == table_entry_size(data@),
            entry_size > 0,
            count == table_entry_count(data@),
            i <= count,
            table_reads_in_bounds(data@, REFINE_EFFECT_READ_SIZE as int),
            entries@.map_values(|e: RefineEffectEntry| e@) == refine_effects_prefix(data@, i as nat),
        decreases count - i,
    {
        proof {
            lemma_entry_fits(data@.len() - 4, entry_size as int, i as int);
            assert(table_entry_readable(data@, i as int, REFINE_EFFECT_READ_SIZE as int));
        }
        let base = 4 + i * entry_size;
        let ghost old_entries = entries@;
        if read_i32(data, base + RAW_DATA_INFO_BEXIST_OFFSET) != 0 {
            let e = read_refine_effect(data, base);
            entries.push(e);
            assert(entries@.map_values(|e: RefineEffectEntry| e@) =~= old_entries.map_values(
                |e: RefineEffectEntry| e@,
            ).push(e@));
        }
        i += 1;
    }
    Ok(RefineEffectTable { entries })
}

proof fn lemma_refine_effects_prefix(data: Seq<u8>, n: nat)
    ensures
        refine_effects_prefix(data, n) == present_records(data, n as int).map_values(
            |i: int| refine_effect_at(data, table_entry_base(data, i)),
        ),
    decreases n,
{
    reveal(Seq::filter);
    if n > 0 {
        lemma_refine_effects_prefix(data, (n - 1) as nat);
        lemma_present_records_step(data, n as int);
        let f = |i: int| refine_effect_at(data, table_entry_base(data, i));
        let prev = present_records(data, n - 1);
        if table_entry_exists(data, n - 1) {
            assert(prev.push(n - 1).map_values(f) =~= prev.map_values(f).push(f(n - 1)));
        }
    } else {
        assert(present_records(data, 0) =~= Seq::<int>::empty());
    }
}

/// The refine effect table in closed form: of the whole records that follow
/// the header, in file order, those marked present, each read at its offset
/// `4 + i * size`; a trailing partial record is not read, and a file without
/// a usable header holds no records.
pub proof fn refine_effects_closed_form(data: Seq<u8>)
    ensures
        spec_refine_effects(data) == present_records(data, table_entry_count(data)).map_values(
            |i: int| refine_effect_at(data, table_entry_base(data, i)),
        ),
        data.len() < 4 || table_entry_size(data) == 0 ==> spec_refine_effects(data).len() == 0,
{
    lemma_refine_effects_prefix(data, table_entry_count(data) as nat);
    if data.len() < 4 || table_entry_size(data) == 0 {
        assert(present_records(data, 0) =~= Seq::<int>::empty()) by {
            reveal(Seq::filter);
        }
    }
}

// ---------------------------------------------------------------------------
// ItemRefineInfo.bin
// ---------------------------------------------------------------------------

/// One item refine record: the refine effect id of each of the 14 effect
/// categories and the per-character-type effect scale.
#[derive(Debug, Clone)]
pub struct ItemRefineInfoEntry {
    pub id: i32,
    pub values: Vec<i16>,
    /// Per-character-type effect scale, as IEEE-754 single-precision bit patterns.
    pub cha_effect_scale: Vec<u32>,
}

/// Mathematical value of an [`ItemRefineInfoEntry`].
pub struct ItemRefineInfoModel {
    pub id: i32,
    pub values: Seq<i16>,
    pub cha_effect_scale: Seq<u32>,
}

impl View for ItemRefineInfoEntry {
    type V = ItemRefineInfoModel;

    open spec fn view(&self) -> ItemRefineInfoModel {
        ItemRefineInfoModel {
            id: self.id,
            values: self.values@,
            cha_effect_scale: self.cha_effect_scale@,
        }
    }
}

/// Present records of `ItemRefineInfo.bin`, keyed by id (a later record wins).
#[derive(Debug, Clone)]
pub struct ItemRefineInfoTable {
    pub entries: HashMap<i32, ItemRefineInfoEntry>,
}

impl View for ItemRefineInfoTable {
    type V = Map<i32, ItemRefineInfoModel>;

    open spec fn view(&self) -> Map<i32, ItemRefineInfoModel> {
        self.entries@.map_values(|e: ItemRefineInfoEntry| e@)
    }
}

/// The item refine record stored at offset `b`.
pub open spec fn item_refine_at(data: Seq<u8>, b: int) -> ItemRefineInfoModel {
    ItemRefineInfoModel {
        id: le_i32(data, b + 100) as i32,
        values: Seq::new(14, |j: int| le_i16(data, b + 108 + 2 * j) as i16),
        cha_effect_scale: Seq::new(4, |j: int| le_u32(data, b + 136 + 4 * j) as u32),
    }
}

/// Present item refine records among the first `n` records, keyed by id.
pub open spec fn item_refine_prefix(data: Seq<u8>, n: nat) -> Map<i32, ItemRefineInfoModel>
    decreases n,
{
    if n == 0 {
        Map::empty()
    } else {
        let prev = item_refine_prefix(data, (n - 1) as nat);
        if table_entry_exists(data, n - 1) {
            let e = item_refine_at(data, table_entry_base(data, n - 1));
            prev.insert(e.id, e)
        } else {
            prev
        }
    }
}

/// What `ItemRefineInfo.bin` holds: its present records keyed by id.
pub open spec fn spec_item_refine_info(data: Seq<u8>) -> Map<i32, ItemRefineInfoModel> {
    item_refine_prefix(data, table_entry_count(data) as nat)
}

fn read_item_refine(data: &[u8], base: usize) -> (e: ItemRefineInfoEntry)
    requires
        base + 152 <= data.len(),
    ensures
        e@ == item_refine_at(data@, base as int),
{
    let id = read_i32(data, base + RAW_DATA_INFO_NID_OFFSET);
    let derived = base + RAW_DATA_INFO_SIZE;
    let mut values: Vec<i16> = Vec::with_capacity(14);
    let mut j: usize = 0;
    while j < 14
        invariant
            base + 152 <= data.len(),
            derived == base + 108,
            j <= 14,
            values@.len() == j,
            forall|k: int| 0 <= k < j ==> #[trigger] values@[k] == le_i16(data@, base + 108 + 2 * k) as i16,
        decreases 14 - j,
    {
        values.push(read_i16(data, derived + j * 2));
        j += 1;
    }
    let mut cha_effect_scale: Vec<u32> = Vec::with_capacity(4);
    let mut j: usize = 0;
    while j < 4
        invariant
            base + 152 <= data.len(),
            derived == base + 108,
            j <= 4,
            cha_effect_scale@.len() == j,
            forall|k: int| 0 <= k < j ==> #[trigger] cha_effect_scale@[k] == le_u32(data@, base + 136 + 4 * k) as u32,
        decreases 4 - j,
    {
        cha_effect_scale.push(read_u32(data, derived + 28 + j * 4));
        j += 1;
    }
    let e = ItemRefineInfoEntry { id, values, cha_effect_scale };
    assert(e@.values =~= item_refine_at(data@, base as int).values);
    assert(e@.cha_effect_scale =~= item_refine_at(data@, base as int).cha_effect_scale);
    e
}

/// Parses `ItemRefineInfo.bin`: every present record, keyed by its id; when
/// two present records share an id, the later one is kept.
pub fn parse_item_refine_info(data: &[u8]) -> (r: Result<ItemRefineInfoTable, String>)
    requires
        table_reads_in_bounds(data@, ITEM_REFINE_READ_SIZE as int),
    ensures
        r is Ok,
        r matches Ok(t) ==> t@ == spec_item_refine_info(data@),
{
    if data.len() < 4 {
        let t = ItemRefineInfoTable { entries: HashMap::new() };
        assert(t@ =~= spec_item_refine_info(data@));
        return Ok(t);
    }
    let entry_size = read_u32(data, 0) as usize;
    if entry_size == 0 {
        let t = ItemRefineInfoTable { entries: HashMap::new() };
        assert(t@ =~= spec_item_refine_info(data@));
        return Ok(t);
    }
    let len = data.len();
    let count = (len - 4) / entry_size;
    let mut entries: HashMap<i32, ItemRefineInfoEntry> = HashMap::new();
    let mut i: usize = 0;
    assert(entries@.map_values(|e: ItemRefineInfoEntry| e@) =~= item_refine_prefix(data@, 0));
    while i < count
        invariant
            len == data@.len(),
            data@.len() >= 4,
            entry_size == table_entry_size(data@),
            entry_size > 0,
            count == table_entry_count(data@),
            i <= count,
            table_reads_in_bounds(data@, ITEM_REFINE_READ_SIZE as int),
            entries@.map_values(|e: ItemRefineInfoEntry| e@) == item_refine_prefix(data@, i as nat),
        decreases count - i,
    {
        proof {
            lemma_entry_fits(data@.len() - 4, entry_size as int, i as int);
            assert(table_entry_readable(data@, i as int, ITEM_REFINE_READ_SIZE as int));
        }
        let base = 4 + i * entry_size;
        let ghost old_entries = entries@;
        if read_i32(data, base + RAW_DATA_INFO_BEXIST_OFFSET) != 0 {
            let e = read_item_refine(data, base);
            let ghost ev = e@;
            let id = e.id;
            entries.insert(id, e);
            assert(entries@.map_values(|e: ItemRefineInfoEntry| e@) =~= old_entries.map_values(
                |e: ItemRefineInfoEntry| e@,
            ).insert(id, ev));
        }
        i += 1;
    }
    Ok(ItemRefineInfoTable { entries })
}

/// Record `i` is one of the first `n` records, is present and carries the id `k`.
pub open spec fn item_refine_keyed(data: Seq<u8>, n: int, i: int, k: i32) -> bool {
    &&& 0 <= i < n
    &&& table_entry_exists(data, i)
    &&& item_refine_at(data, table_entry_base(data, i)).id == k
}

proof fn lemma_item_refine_prefix(data: Seq<u8>, n: nat)
    ensures
        forall|k: i32| #[trigger] item_refine_prefix(data, n).contains_key(k)
            <==> exists|i: int| item_refine_keyed(data, n as int, i, k),
        forall|k: i32, i: int| #[trigger] item_refine_keyed(data, n as int, i, k)
            && !(exists|j: int| i < j && item_refine_keyed(data, n as int, j, k))
            ==> item_refine_prefix(data, n)[k] == item_refine_at(data, table_entry_base(data, i)),
        forall|k: i32| #[trigger] item_refine_prefix(data, n).contains_key(k) ==> {
            &&& item_refine_prefix(data, n)[k].id == k
            &&& item_refine_prefix(data, n)[k].values.len() == 14
            &&& item_refine_prefix(data, n)[k].cha_effect_scale.len() == 4
        },
    decreases n,
{
    if n > 0 {
        let m = (n - 1) as nat;
        lemma_item_refine_prefix(data, m);
        let prev = item_refine_prefix(data, m);
        let cur = item_refine_prefix(data, n);
        let e = item_refine_at(data, table_entry_base(data, m as int));
        assert forall|k: i32, i: int| item_refine_keyed(data, m as int, i, k) implies item_refine_keyed(data, n as int, i, k) by {}
        assert forall|k: i32| #[trigger] cur.contains_key(k) <==> exists|i: int| item_refine_keyed(data, n as int, i, k) by {
            if exists|i: int| item_refine_keyed(data, n as int, i, k) {
                let i = choose|i: int| item_refine_keyed(data, n as int, i, k);
                if i < m {
                    assert(item_refine_keyed(data, m as int, i, k));
                }
            }
            if table_entry_exists(data, m as int) && k == e.id {
                assert(item_refine_keyed(data, n as int, m as int, k));
            }
            if prev.contains_key(k) {
                let i = choose|i: int| item_refine_keyed(data, m as int, i, k);
                assert(item_refine_keyed(data, n as int, i, k));
            }
        }
        assert forall|k: i32, i: int| #[trigger] item_refine_keyed(data, n as int, i, k)
            && !(exists|j: int| i < j && item_refine_keyed(data, n as int, j, k))
            implies cur[k] == item_refine_at(data, table_entry_base(data, i)) by {
            if i < m {
                assert(item_refine_keyed(data, m as int, i, k));
                assert(!item_refine_keyed(data, n as int, m as int, k));
                assert forall|j: int| i < j implies !item_refine_keyed(data, m as int, j, k) by {
                    if item_refine_keyed(data, m as int, j, k) {
                        assert(item_refine_keyed(data, n as int, j, k));
                    }
                }
            }
        }
    }
}

/// The item refine table keyed by id: an id is a key exactly when some
/// present whole record carries it; it maps to the last such record in file
/// order, whose id is the key and which holds 14 effect ids and 4 effect
/// scales.  A file without a usable header holds no records.
pub proof fn item_refine_info_keys_and_last_wins(data: Seq<u8>)
    ensures
        forall|k: i32| #[trigger] spec_item_refine_info(data).contains_key(k)
            <==> exists|i: int| item_refine_keyed(data, table_entry_count(data), i, k),
        forall|k: i32, i: int| #[trigger] item_refine_keyed(data, table_entry_count(data), i, k)
            && !(exists|j: int| i < j && item_refine_keyed(data, table_entry_count(data), j, k))
            ==> spec_item_refine_info(data)[k] == item_refine_at(data, table_entry_base(data, i)),
        forall|k: i32| #[trigger] spec_item_refine_info(data).contains_key(k) ==> {
            &&& spec_item_refine_info(data)[k].id == k
            &&& spec_item_refine_info(data)[k].values.len() == 14
            &&& spec_item_refine_info(data)[k].cha_effect_scale.len() == 4
        },
        data.len() < 4 || table_entry_size(data) == 0 ==> spec_item_refine_info(data) == Map::<i32, ItemRefineInfoModel>::empty(),
{
    lemma_item_refine_prefix(data, table_entry_count(data) as nat);
}

// ---------------------------------------------------------------------------
// StoneInfo.bin
// ---------------------------------------------------------------------------

/// One stone record: the gem item it describes and its stone type.
#[derive(Debug, Clone)]
pub struct StoneInfoEntry {
    pub id: i32,
    pub item_id: i32,
    pub equip_pos: Vec<i32>,
    pub stone_type: i32,
    pub hint_func: String,
}

/// Mathematical value of a [`StoneInfoEntry`].
pub struct StoneInfoModel {
    pub id: i32,
    pub item_id: i32,
    pub equip_pos: Seq<i32>,
    pub stone_type: i32,
    pub hint_func: Seq<char>,
}

impl View for StoneInfoEntry {
    type V = StoneInfoModel;

    open spec fn view(&self) -> StoneInfoModel {
        StoneInfoModel {
            id: self.id,
            item_id: self.item_id,
            equip_pos: self.equip_pos@,
            stone_type: self.stone_type,
            hint_func: self.hint_func@,
        }
    }
}

/// Present records of `StoneInfo.bin`, keyed by the gem's item id (a later record wins).
#[derive(Debug, Clone)]
pub struct StoneInfoTable {
    pub by_item_id: HashMap<i32, StoneInfoEntry>,
}

impl View for StoneInfoTable {
    type V = Map<i32, StoneInfoModel>;

    open spec fn view(&self) -> Map<i32, StoneInfoModel> {
        self.by_item_id@.map_values(|e: StoneInfoEntry| e@)
    }
}

/// Index of the first zero byte of `s` at or after `i`, or `s.len()` when there is none.
pub open spec fn nul_from(s: Seq<u8>, i: int) -> int
    decreases s.len() - i,
{
    if i >= s.len() {
        s.len() as int
    } else if s[i] == 0 {
        i
    } else {
        nul_from(s, i + 1)
    }
}

/// The bytes of a fixed-size, NUL-terminated text field: up to the first zero byte.
pub open spec fn cstr_bytes(data: Seq<u8>, off: int, max_len: int) -> Seq<u8> {
    let field = data.subrange(off, off + max_len);
    field.subrange(0, nul_from(field, 0))
}

proof fn lemma_nul_from_bounds(s: Seq<u8>, i: int)
    requires
        0 <= i <= s.len(),
    ensures
        i <= nul_from(s, i) <= s.len(),
        nul_from(s, i) < s.len() ==> s[nul_from(s, i)] == 0,
        forall|k: int| i <= k < nul_from(s, i) ==> s[k] != 0,
    decreases s.len() - i,
{
    if i < s.len() && s[i] != 0 {
        lemma_nul_from_bounds(s, i + 1);
    }
}

/// Reads a NUL-terminated text field of `max_len` bytes at `offset`.
fn read_cstr(data: &[u8], offset: usize, max_len: usize) -> (r: String)
    requires
        offset + max_len <= data.len(),
    ensures
        r@ == lossy_text(cstr_bytes(data@, offset as int, max_len as int)),
{
    let slice = &data[offset..offset + max_len];
    let mut end: usize = 0;
    while end < max_len && slice[end] != 0
        invariant
            offset + max_len <= data.len(),
            slice@ == data@.subrange(offset as int, offset + max_len),
            slice@.len() == max_len,
            end <= max_len,
            nul_from(slice@, end as int) == nul_from(slice@, 0),
        decreases max_len - end,
    {
        end += 1;
    }
    assert(end == nul_from(slice@, 0));
    let text = &slice[0..end];
    string_from_utf8_lossy(text)
}

/// The stone record stored at offset `b`.
pub open spec fn stone_info_at(data: Seq<u8>, b: int) -> StoneInfoModel {
    StoneInfoModel {
        id: le_i32(data, b + 100) as i32,
        item_id: le_i32(data, b + 108) as i32,
        equip_pos: Seq::new(3, |j: int| le_i32(data, b + 112 + 4 * j) as i32),
        stone_type: le_i32(data, b + 124) as i32,
        hint_func: lossy_text(cstr_bytes(data, b + 128, 64)),
    }
}

/// Present stone records among the first `n` records, keyed by item id.
pub open spec fn stone_info_prefix(data: Seq<u8>, n: nat) -> Map<i32, StoneInfoModel>
    decreases n,
{
    if n == 0 {
        Map::empty()
    } else {
        let prev = stone_info_prefix(data, (n - 1) as nat);
        if table_entry_exists(data, n - 1) {
            let e = stone_info_at(data, table_entry_base(data, n - 1));
            prev.insert(e.item_id, e)
        } else {
            prev
        }
    }
}

/// What `StoneInfo.bin` holds: its present records keyed by the gem's item id.
pub open spec fn spec_stone_info(data: Seq<u8>) -> Map<i32, StoneInfoModel> {
    stone_info_prefix(data, table_entry_count(data) as nat)
}

fn read_stone_info(data: &[u8], base: usize) -> (e: StoneInfoEntry)
    requires
        base + 192 <= data.len(),
    ensures
        e@ == stone_info_at(data@, base as int),
{
    let id = read_i32(data, base + RAW_DATA_INFO_NID_OFFSET);
    let d = base + RAW_DATA_INFO_SIZE;
    let item_id = read_i32(data, d);
    let mut equip_pos: Vec<i32> = Vec::with_capacity(3);
    let mut j: usize = 0;
    while j < 3
        invariant
            base + 192 <= data.len(),
            d == base + 108,
            j <= 3,
            equip_pos@.len() == j,
            forall|k: int| 0 <= k < j ==> #[trigger] equip_pos@[k] == le_i32(data@, base + 112 + 4 * k) as i32,
        decreases 3 - j,
    {
        equip_pos.push(read_i32(data, d + 4 + j * 4));
        j += 1;
    }
    let stone_type = read_i32(data, d + 16);
    let hint_func = read_cstr(data, d + 20, 64);
    let e = StoneInfoEntry { id, item_id, equip_pos, stone_type, hint_func };
    assert(e@.equip_pos =~= stone_info_at(data@, base as int).equip_pos);
    e
}

/// Parses `StoneInfo.bin`: every present record, keyed by the gem's item id;
/// when two present records share an item id, the later one is kept.
pub fn parse_stone_info(data: &[u8]) -> (r: Result<StoneInfoTable, String>)
    requires
        table_reads_in_bounds(data@, STONE_INFO_READ_SIZE as int),
    ensures
        r is Ok,
        r matches Ok(t) ==> t@ == spec_stone_info(data@),
{
    if data.len() < 4 {
        let t = StoneInfoTable { by_item_id: HashMap::new() };
        assert(t@ =~= spec_stone_info(data@));
        return Ok(t);
    }
    let entry_size = read_u32(data, 0) as usize;
    if entry_size == 0 {
        let t = StoneInfoTable { by_item_id: HashMap::new() };
        assert(t@ =~= spec_stone_info(data@));
        return Ok(t);
    }
    let len = data.len();
    let count = (len - 4) / entry_size;
    let mut by_item_id: HashMap<i32, StoneInfoEntry> = HashMap::new();
    let mut i: usize = 0;
    assert(by_item_id@.map_values(|e: StoneInfoEntry| e@) =~= stone_info_prefix(data@, 0));
    while i < count
        invariant
            len == data@.len(),
            data@.len() >= 4,
            entry_size == table_entry_size(data@),
            entry_size > 0,
            count == table_entry_count(data@),
            i <= count,
            table_reads_in_bounds(data@, STONE_INFO_READ_SIZE as int),
            by_item_id@.map_values(|e: StoneInfoEntry| e@) == stone_info_prefix(data@, i as nat),
        decreases count - i,
    {
        proof {
            lemma_entry_fits(data@.len() - 4, entry_size as int, i as int);
            assert(table_entry_readable(data@, i as int, STONE_INFO_READ_SIZE as int));
        }
        let base = 4 + i * entry_size;
        let ghost old_map = by_item_id@;
        if read_i32(data, base + RAW_DATA_INFO_BEXIST_OFFSET) != 0 {
            let e = read_stone_info(data, base);
            let ghost ev = e@;
            let key = e.item_id;
            by_item_id.insert(key, e);
            assert(by_item_id@.map_values(|e: StoneInfoEntry| e@) =~= old_map.map_values(
                |e: StoneInfoEntry| e@,
            ).insert(key, ev));
        }
        i += 1;
    }
    Ok(StoneInfoTable { by_item_id })
}

/// Record `i` is one of the first `n` records, is present and describes the gem with item id `k`.
pub open spec fn stone_keyed(data: Seq<u8>, n: int, i: int, k: i32) -> bool {
    &&& 0 <= i < n
    &&& table_entry_exists(data, i)
    &&& stone_info_at(data, table_entry_base(data, i)).item_id == k
}

proof fn lemma_stone_info_prefix(data: Seq<u8>, n: nat)
    ensures
        forall|k: i32| #[trigger] stone_info_prefix(data, n).contains_key(k)
            <==> exists|i: int| stone_keyed(data, n as int, i, k),
        forall|k: i32, i: int| #[trigger] stone_keyed(data, n as int, i, k)
            && !(exists|j: int| i < j && stone_keyed(data, n as int, j, k))
            ==> stone_info_prefix(data, n)[k] == stone_info_at(data, table_entry_base(data, i)),
        forall|k: i32| #[trigger] stone_info_prefix(data, n).contains_key(k) ==> stone_info_prefix(data, n)[k].item_id == k,
    decreases n,
{
    if n > 0 {
        let m = (n - 1) as nat;
        lemma_stone_info_prefix(data, m);
        let prev = stone_info_prefix(data, m);
        let cur = stone_info_prefix(data, n);
        let e = stone_info_at(data, table_entry_base(data, m as int));
        assert forall|k: i32, i: int| stone_keyed(data, m as int, i, k) implies stone_keyed(data, n as int, i, k) by {}
        assert forall|k: i32| #[trigger] cur.contains_key(k) <==> exists|i: int| stone_keyed(data, n as int, i, k) by {
            if exists|i: int| stone_keyed(data, n as int, i, k) {
                let i = choose|i: int| stone_keyed(data, n as int, i, k);
                if i < m {
                    assert(stone_keyed(data, m as int, i, k));
                }
            }
            if table_entry_exists(data, m as int) && k == e.item_id {
                assert(stone_keyed(data, n as int, m as int, k));
            }
            if prev.contains_key(k) {
                let i = choose|i: int| stone_keyed(data, m as int, i, k);
                assert(stone_keyed(data, n as int, i, k));
            }
        }
        assert forall|k: i32, i: int| #[trigger] stone_keyed(data, n as int, i, k)
            && !(exists|j: int| i < j && stone_keyed(data, n as int, j, k))
            implies cur[k] == stone_info_at(data, table_entry_base(data, i)) by {
            if i < m {
                assert(stone_keyed(data, m as int, i, k));
                assert(!stone_keyed(data, n as int, m as int, k));
                assert forall|j: int| i < j implies !stone_keyed(data, m as int, j, k) by {
                    if stone_keyed(data, m as int, j, k) {
                        assert(stone_keyed(data, n as int, j, k));
                    }
                }
            }
        }
    }
}

/// The stone table keyed by the gem's item id (not by the record id): an
/// item id is a key exactly when some present whole record carries it; it
/// maps to the last such record in file order, whose item id is the key.  A
/// file without a usable header holds no records.
pub proof fn stone_info_keys_and_last_wins(data: Seq<u8>)
    ensures
        forall|k: i32| #[trigger] spec_stone_info(data).contains_key(k)
            <==> exists|i: int| stone_keyed(data, table_entry_count(data), i, k),
        forall|k: i32, i: int| #[trigger] stone_keyed(data, table_entry_count(data), i, k)
            && !(exists|j: int| i < j && stone_keyed(data, table_entry_count(data), j, k))
            ==> spec_stone_info(data)[k] == stone_info_at(data, table_entry_base(data, i)),
        forall|k: i32| #[trigger] spec_stone_info(data).contains_key(k) ==> spec_stone_info(data)[k].item_id == k,
        data.len() < 4 || table_entry_size(data) == 0 ==> spec_stone_info(data) == Map::<i32, StoneInfoModel>::empty(),
{
    lemma_stone_info_prefix(data, table_entry_count(data) as nat);
}

// ---------------------------------------------------------------------------
// Stone combination
// ---------------------------------------------------------------------------

/// The three stone types after duplicates are cleared: a first stone equal to
/// the second or (after that) to the third becomes -1, and a second stone
/// equal to the third becomes -1.
pub open spec fn stone_dedup(a: int, b: int, c: int) -> (int, int, int) {
    let s1 = if a == b { -1 } else { a };
    let s1 = if s1 == c { -1 } else { s1 };
    let s2 = if b == c { -1 } else { b };
    (s1, s2, c)
}

/// Effect category for the sum and product of the cleared stone types.
pub open spec fn stone_category_of(sum: int, product: int) -> int {
    if product > 0 {
        if sum == -1 { 1 }
        else if sum == 0 { 2 }
        else if sum == 1 { 3 }
        else if sum == 2 { 4 }
        else if sum == 6 { 11 }
        else if sum == 7 { 12 }
        else if sum == 8 { 13 }
        else if sum == 9 { 14 }
        else { 0 }
    } else if product < 0 {
        if sum == 2 { 5 }
        else if sum == 3 { 6 }
        else if sum == 4 {
            if product == -4 { 7 } else if product == -6 { 8 } else { 0 }
        }
        else if sum == 5 { 9 }
        else if sum == 6 { 10 }
        else { 0 }
    } else {
        0
    }
}

/// Effect category (0..=14) of a combination of three stone types.
pub open spec fn spec_stone_effect_category(a: int, b: int, c: int) -> int {
    let (s1, s2, s3) = stone_dedup(a, b, c);
    stone_category_of(s1 + s2 + s3, s1 * s2 * s3)
}

/// The stone combination table.  A stone type equal to a later one is
/// cleared to -1 (the first stone when it equals the second or the third,
/// the second when it equals the third); then, with `sum` and `product` of
/// the three cleared types: a positive product gives categories 1, 2, 3, 4
/// for sums -1, 0, 1, 2 and 11 to 14 for sums 6 to 9; a negative product
/// gives 5 and 6 for sums 2 and 3, 7 and 8 for sum 4 with products -4 and
/// -6, and 9 and 10 for sums 5 and 6 whatever the product; every other
/// combination, and a zero product, gives 0.
pub proof fn stone_category_table(a: int, b: int, c: int)
    ensures
        ({
            let s1 = if a == b || a == c { -1 } else { a };
            let s2 = if b == c { -1 } else { b };
            let s3 = c;
            let sum = s1 + s2 + s3;
            let product = s1 * s2 * s3;
            let cat = spec_stone_effect_category(a, b, c);
            &&& product > 0 ==> {
                &&& sum == -1 ==> cat == 1
                &&& sum == 0 ==> cat == 2
                &&& sum == 1 ==> cat == 3
                &&& sum == 2 ==> cat == 4
                &&& sum == 6 ==> cat == 11
                &&& sum == 7 ==> cat == 12
                &&& sum == 8 ==> cat == 13
                &&& sum == 9 ==> cat == 14
                &&& !(-1 <= sum <= 2 || 6 <= sum <= 9) ==> cat == 0
            }
            &&& product < 0 ==> {
                &&& sum == 2 ==> cat == 5
                &&& sum == 3 ==> cat == 6
                &&& (sum == 4 && product == -4) ==> cat == 7
                &&& (sum == 4 && product == -6) ==> cat == 8
                &&& (sum == 4 && product != -4 && product != -6) ==> cat == 0
                &&& sum == 5 ==> cat == 9
                &&& sum == 6 ==> cat == 10
                &&& !(2 <= sum <= 6) ==> cat == 0
            }
            &&& product == 0 ==> cat == 0
        }),
{
}

/// The sums and products of the cleared stone types fit in `i32`.
pub open spec fn stone_arith_fits(a: int, b: int, c: int) -> bool {
    let (s1, s2, s3) = stone_dedup(a, b, c);
    &&& i32::MIN <= s1 + s2 <= i32::MAX
    &&& i32::MIN <= s1 + s2 + s3 <= i32::MAX
    &&& i32::MIN <= s1 * s2 <= i32::MAX
    &&& i32::MIN <= s1 * s2 * s3 <= i32::MAX
}

/// Whether [`stone_effect_category`] can combine these stone types without
/// its sums and products leaving `i32` (see [`stone_arith_fits`]).
pub fn stone_types_within_limits(stone1: i32, stone2: i32, stone3: i32) -> (r: bool)
    ensures
        r == stone_arith_fits(stone1 as int, stone2 as int, stone3 as int),
{
    let s1: i64 = if stone1 == stone2 { -1 } else { stone1 as i64 };
    let s1: i64 = if s1 == stone3 as i64 { -1 } else { s1 };
    let s2: i64 = if stone2 == stone3 { -1 } else { stone2 as i64 };
    let s3: i64 = stone3 as i64;
    let sum2 = s1 + s2;
    let sum3 = sum2 + s3;
    assert(-0x8000_0000 * 0x8000_0000 <= s1 * s2 <= 0x8000_0000 * 0x8000_0000) by (nonlinear_arith)
        requires -0x8000_0000 <= s1 <= 0x7FFF_FFFF, -0x8000_0000 <= s2 <= 0x7FFF_FFFF;
    let prod2 = s1 * s2;
    let lo: i64 = i32::MIN as i64;
    let hi: i64 = i32::MAX as i64;
    if !(lo <= sum2 && sum2 <= hi && lo <= sum3 && sum3 <= hi && lo <= prod2 && prod2 <= hi) {
        return false;
    }
    assert(-0x8000_0000 * 0x8000_0000 <= prod2 * s3 <= 0x8000_0000 * 0x8000_0000) by (nonlinear_arith)
        requires -0x8000_0000 <= prod2 <= 0x7FFF_FFFF, -0x8000_0000 <= s3 <= 0x7FFF_FFFF;
    let prod3 = prod2 * s3;
    lo <= prod3 && prod3 <= hi
}

/// Effect category (0..=14) of three stone types: duplicates are cleared to
/// -1, then the sum and product of the three values select the category.
pub fn stone_effect_category(stone1: i32, stone2: i32, stone3: i32) -> (r: u32)
    requires
        stone_arith_fits(stone1 as int, stone2 as int, stone3 as int),
    ensures
        r == spec_stone_effect_category(stone1 as int, stone2 as int, stone3 as int),
        r <= 14,
{
    let mut s1 = stone1;
    let mut s2 = stone2;
    let s3 = stone3;
    if s1 == s2 {
        s1 = -1;
    }
    if s1 == s3 {
        s1 = -1;
    }
    if s2 == s3 {
        s2 = -1;
    }
    let sum = s1 + s2 + s3;
    let product = s1 * s2 * s3;
    if product > 0 {
        if sum == -1 { 1 }
        else if sum == 0 { 2 }
        else if sum == 1 { 3 }
        else if sum == 2 { 4 }
        else if sum == 6 { 11 }
        else if sum == 7 { 12 }
        else if sum == 8 { 13 }
        else if sum == 9 { 14 }
        else { 0 }
    } else if product < 0 {
        if sum == 2 { 5 }
        else if sum == 3 { 6 }
        else if sum == 4 {
            if product == -4 { 7 } else if product == -6 { 8 } else { 0 }
        }
        else if sum == 5 { 9 }
        else if sum == 6 { 10 }
        else { 0 }
    } else {
        0
    }
}

proof fn lemma_product_perm(x: int, y: int, z: int)
    ensures
        x * y * z == y * x * z,
        x * y * z == x * z * y,
        x * y * z == z * y * x,
        x * y * z == y * z * x,
        x * y * z == z * x * y,
{
    assert(x * y * z == y * x * z) by (nonlinear_arith);
    assert(x * y * z == x * z * y) by (nonlinear_arith);
    assert(x * y * z == z * y * x) by (nonlinear_arith);
    assert(x * y * z == y * z * x) by (nonlinear_arith);
    assert(x * y * z == z * x * y) by (nonlinear_arith);
}

/// The effect category does not depend on the order of the three stones:
/// swapping the first two, or the last two, stones gives the same category
/// (and these two swaps generate every reordering).
pub proof fn stone_effect_category_order_independent(a: int, b: int, c: int)
    ensures
        spec_stone_effect_category(a, b, c) == spec_stone_effect_category(b, a, c),
        spec_stone_effect_category(a, b, c) == spec_stone_effect_category(a, c, b),
        spec_stone_effect_category(a, b, c) == spec_stone_effect_category(c, b, a),
{
    let (p1, p2, p3) = stone_dedup(a, b, c);
    let (q1, q2, q3) = stone_dedup(b, a, c);
    let (r1, r2, r3) = stone_dedup(a, c, b);
    let (t1, t2, t3) = stone_dedup(c, b, a);
    lemma_product_perm(p1, p2, p3);
    lemma_product_perm(q1, q2, q3);
    lemma_product_perm(r1, r2, r3);
    lemma_product_perm(t1, t2, t3);
}

/// Whatever the stones, the category lies in 0..=14.
pub proof fn stone_effect_category_in_range(a: int, b: int, c: int)
    ensures
        0 <= spec_stone_effect_category(a, b, c) <= 14,
{
}

} // verus!

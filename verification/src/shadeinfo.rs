//! The `shadeinfo` table (ground shades under characters and effects):
//! a little-endian `u32` record size, then 172-byte `CShadeInfo` records up
//! to the end of the file.  Shade ids are 1-based: the first record has id 1.

use vstd::prelude::*;
use crate::bytes::{le_i32, le_u32, read_i32, read_u32};
use crate::refine::{cstr_bytes, nul_from};
use crate::text::push_char;

verus! {

/// Size in bytes of one shade record as the 32-bit game client writes it.
pub const SHADE_RECORD_SIZE: usize = 172;

/// Why a shade table could not be read.
#[derive(Debug, Clone, Copy, PartialEq, Eq, Structural)]
pub enum ShadeinfoError {
    /// The data ends inside the header or inside a record.
    EndOfStream,
}

/// The characters of a text field: ASCII bytes as themselves, any other
/// byte as U+FFFD.
pub open spec fn ascii_text(bytes: Seq<u8>) -> Seq<char> {
    bytes.map_values(|b: u8| if b < 128 { b as char } else { '\u{FFFD}' })
}

/// A text field of `len` bytes at `off`: its bytes up to the first zero byte.
pub open spec fn text_field(data: Seq<u8>, off: int, len: int) -> Seq<char> {
    ascii_text(cstr_bytes(data, off, len))
}

/// One shade record.  The shade radius is kept as the bit pattern of its `f32`.
#[allow(non_camel_case_types)]
#[derive(Debug, Clone)]
pub struct PkoShadeinfo_ShadeInfoEntry {
    b_exist_raw: u32,
    n_index: i32,
    sz_data_name: String,
    dw_last_use_tick: u32,
    b_enable_raw: u32,
    p_data: u32,
    dw_pack_offset: u32,
    dw_data_size: u32,
    n_id: i32,
    dw_load_cnt: u32,
    sz_name: String,
    n_photo_tex_id: i32,
    f_size_bits: u32,
    n_ani: i32,
    n_row: i32,
    n_col: i32,
    n_use_alpha_test: i32,
    n_alpha_type: i32,
    n_color_r: i32,
    n_color_g: i32,
    n_color_b: i32,
    n_color_a: i32,
    n_type: i32,
}

/// Mathematical value of a shade record.
pub struct ShadeInfoEntryModel {
    pub b_exist_raw: u32,
    pub n_index: i32,
    pub sz_data_name: Seq<char>,
    pub dw_last_use_tick: u32,
    pub b_enable_raw: u32,
    pub p_data: u32,
    pub dw_pack_offset: u32,
    pub dw_data_size: u32,
    pub n_id: i32,
    pub dw_load_cnt: u32,
    pub sz_name: Seq<char>,
    pub n_photo_tex_id: i32,
    pub f_size_bits: u32,
    pub n_ani: i32,
    pub n_row: i32,
    pub n_col: i32,
    pub n_use_alpha_test: i32,
    pub n_alpha_type: i32,
    pub n_color_r: i32,
    pub n_color_g: i32,
    pub n_color_b: i32,
    pub n_color_a: i32,
    pub n_type: i32,
}

impl View for PkoShadeinfo_ShadeInfoEntry {
    type V = ShadeInfoEntryModel;

    closed spec fn view(&self) -> ShadeInfoEntryModel {
        ShadeInfoEntryModel {
            b_exist_raw: self.b_exist_raw,
            n_index: self.n_index,
            sz_data_name: self.sz_data_name@,
            dw_last_use_tick: self.dw_last_use_tick,
            b_enable_raw: self.b_enable_raw,
            p_data: self.p_data,
            dw_pack_offset: self.dw_pack_offset,
            dw_data_size: self.dw_data_size,
            n_id: self.n_id,
            dw_load_cnt: self.dw_load_cnt,
            sz_name: self.sz_name@,
            n_photo_tex_id: self.n_photo_tex_id,
            f_size_bits: self.f_size_bits,
            n_ani: self.n_ani,
            n_row: self.n_row,
            n_col: self.n_col,
            n_use_alpha_test: self.n_use_alpha_test,
            n_alpha_type: self.n_alpha_type,
            n_color_r: self.n_color_r,
            n_color_g: self.n_color_g,
            n_color_b: self.n_color_b,
            n_color_a: self.n_color_a,
            n_type: self.n_type,
        }
    }
}

/// The shade record stored at offset `b`.
pub open spec fn shade_entry_at(data: Seq<u8>, b: int) -> ShadeInfoEntryModel {
    ShadeInfoEntryModel {
        b_exist_raw: le_u32(data, b) as u32,
        n_index: le_i32(data, b + 4) as i32,
        sz_data_name: text_field(data, b + 8, 72),
        dw_last_use_tick: le_u32(data, b + 80) as u32,
        b_enable_raw: le_u32(data, b + 84) as u32,
        p_data: le_u32(data, b + 88) as u32,
        dw_pack_offset: le_u32(data, b + 92) as u32,
        dw_data_size: le_u32(data, b + 96) as u32,
        n_id: le_i32(data, b + 100) as i32,
        dw_load_cnt: le_u32(data, b + 104) as u32,
        sz_name: text_field(data, b + 108, 16),
        n_photo_tex_id: le_i32(data, b + 124) as i32,
        f_size_bits: le_u32(data, b + 128) as u32,
        n_ani: le_i32(data, b + 132) as i32,
        n_row: le_i32(data, b + 136) as i32,
        n_col: le_i32(data, b + 140) as i32,
        n_use_alpha_test: le_i32(data, b + 144) as i32,
        n_alpha_type: le_i32(data, b + 148) as i32,
        n_color_r: le_i32(data, b + 152) as i32,
        n_color_g: le_i32(data, b + 156) as i32,
        n_color_b: le_i32(data, b + 160) as i32,
        n_color_a: le_i32(data, b + 164) as i32,
        n_type: le_i32(data, b + 168) as i32,
    }
}

/// Whether the data holds a header and whole records only.
pub open spec fn shade_layout_ok(data: Seq<u8>) -> bool {
    data.len() >= 4 && (data.len() - 4) % 172 == 0
}

/// Number of records of a well-formed table.
pub open spec fn shade_record_count(data: Seq<u8>) -> int {
    (data.len() - 4) / 172
}

/// The records of a well-formed table, in file order.
pub open spec fn spec_shade_entries(data: Seq<u8>) -> Seq<ShadeInfoEntryModel> {
    Seq::new(shade_record_count(data) as nat, |k: int| shade_entry_at(data, 4 + 172 * k))
}

fn ascii_char(b: u8) -> (c: char)
    ensures
        c == (if b < 128 { b as char } else { '\u{FFFD}' }),
{
    if b < 128 { b as char } else { '\u{FFFD}' }
}

fn read_text_field(data: &[u8], offset: usize, len: usize) -> (r: String)
    requires
        offset + len <= data.len(),
    ensures
        r@ == text_field(data@, offset as int, len as int),
{
    let ghost field = data@.subrange(offset as int, offset + len);
    let mut end: usize = 0;
    while end < len && data[offset + end] != 0
        invariant
            offset + len <= data.len(),
            field == data@.subrange(offset as int, offset + len),
            end <= len,
            nul_from(field, end as int) == nul_from(field, 0),
        decreases len - end,
    {
        end += 1;
    }
    assert(end == nul_from(field, 0));
    let ghost bytes = cstr_bytes(data@, offset as int, len as int);
    assert(bytes =~= data@.subrange(offset as int, offset + end));
    let mut s = String::new();
    let mut i: usize = 0;
    while i < end
        invariant
            offset + len <= data.len(),
            end <= len,
            bytes == data@.subrange(offset as int, offset + end),
            i <= end,
            s@ == ascii_text(bytes.subrange(0, i as int)),
        decreases end - i,
    {
        push_char(&mut s, ascii_char(data[offset + i]));
        i += 1;
        assert(s@ =~= ascii_text(bytes.subrange(0, i as int)));
    }
    assert(bytes.subrange(0, end as int) =~= bytes);
    s
}

impl PkoShadeinfo_ShadeInfoEntry {
    /// Reads the shade record stored at offset `base`.
    pub fn read(data: &[u8], base: usize) -> (e: Self)
        requires
            base + 172 <= data.len(),
        ensures
            e@ == shade_entry_at(data@, base as int),
    {
        PkoShadeinfo_ShadeInfoEntry {
            b_exist_raw: read_u32(data, base),
            n_index: read_i32(data, base + 4),
            sz_data_name: read_text_field(data, base + 8, 72),
            dw_last_use_tick: read_u32(data, base + 80),
            b_enable_raw: read_u32(data, base + 84),
            p_data: read_u32(data, base + 88),
            dw_pack_offset: read_u32(data, base + 92),
            dw_data_size: read_u32(data, base + 96),
            n_id: read_i32(data, base + 100),
            dw_load_cnt: read_u32(data, base + 104),
            sz_name: read_text_field(data, base + 108, 16),
            n_photo_tex_id: read_i32(data, base + 124),
            f_size_bits: read_u32(data, base + 128),
            n_ani: read_i32(data, base + 132),
            n_row: read_i32(data, base + 136),
            n_col: read_i32(data, base + 140),
            n_use_alpha_test: read_i32(data, base + 144),
            n_alpha_type: read_i32(data, base + 148),
            n_color_r: read_i32(data, base + 152),
            n_color_g: read_i32(data, base + 156),
            n_color_b: read_i32(data, base + 160),
            n_color_a: read_i32(data, base + 164),
            n_type: read_i32(data, base + 168),
        }
    }

    /// Whether the record is active (its raw flag is nonzero).
    pub fn b_exist(&self) -> (r: bool)
        ensures
            r == (self@.b_exist_raw != 0),
    {
        self.b_exist_raw != 0
    }

    /// Whether the record is enabled (its raw flag is nonzero).
    pub fn b_enable(&self) -> (r: bool)
        ensures
            r == (self@.b_enable_raw != 0),
    {
        self.b_enable_raw != 0
    }

    /// Raw active flag.
    pub fn b_exist_raw(&self) -> (r: u32)
        ensures
            r == self@.b_exist_raw,
    {
        self.b_exist_raw
    }

    /// Index within the shade data set.
    pub fn n_index(&self) -> (r: i32)
        ensures
            r == self@.n_index,
    {
        self.n_index
    }

    /// Texture resource name.
    pub fn sz_data_name(&self) -> (r: &String)
        ensures
            r@ == self@.sz_data_name,
    {
        &self.sz_data_name
    }

    /// Last-access tick (0 in files).
    pub fn dw_last_use_tick(&self) -> (r: u32)
        ensures
            r == self@.dw_last_use_tick,
    {
        self.dw_last_use_tick
    }

    /// Raw enabled flag.
    pub fn b_enable_raw(&self) -> (r: u32)
        ensures
            r == self@.b_enable_raw,
    {
        self.b_enable_raw
    }

    /// Runtime data pointer (0 in files).
    pub fn p_data(&self) -> (r: u32)
        ensures
            r == self@.p_data,
    {
        self.p_data
    }

    /// Offset into the pack file.
    pub fn dw_pack_offset(&self) -> (r: u32)
        ensures
            r == self@.dw_pack_offset,
    {
        self.dw_pack_offset
    }

    /// Size of the packed data file.
    pub fn dw_data_size(&self) -> (r: u32)
        ensures
            r == self@.dw_data_size,
    {
        self.dw_data_size
    }

    /// Shade id (1-based).
    pub fn n_id(&self) -> (r: i32)
        ensures
            r == self@.n_id,
    {
        self.n_id
    }

    /// Resource load count.
    pub fn dw_load_cnt(&self) -> (r: u32)
        ensures
            r == self@.dw_load_cnt,
    {
        self.dw_load_cnt
    }

    /// Display name of the shade.
    pub fn sz_name(&self) -> (r: &String)
        ensures
            r@ == self@.sz_name,
    {
        &self.sz_name
    }

    /// Photo texture id.
    pub fn n_photo_tex_id(&self) -> (r: i32)
        ensures
            r == self@.n_photo_tex_id,
    {
        self.n_photo_tex_id
    }

    /// Bit pattern of the `f32` shade radius in world units.
    pub fn f_size_bits(&self) -> (r: u32)
        ensures
            r == self@.f_size_bits,
    {
        self.f_size_bits
    }

    /// Animated flag (0: static).
    pub fn n_ani(&self) -> (r: i32)
        ensures
            r == self@.n_ani,
    {
        self.n_ani
    }

    /// Rows of the sprite sheet.
    pub fn n_row(&self) -> (r: i32)
        ensures
            r == self@.n_row,
    {
        self.n_row
    }

    /// Columns of the sprite sheet.
    pub fn n_col(&self) -> (r: i32)
        ensures
            r == self@.n_col,
    {
        self.n_col
    }

    /// Alpha test flag (0: off).
    pub fn n_use_alpha_test(&self) -> (r: i32)
        ensures
            r == self@.n_use_alpha_test,
    {
        self.n_use_alpha_test
    }

    /// Alpha blend mode (0 standard, 1 additive, 2 screen).
    pub fn n_alpha_type(&self) -> (r: i32)
        ensures
            r == self@.n_alpha_type,
    {
        self.n_alpha_type
    }

    /// Red component (0..=255).
    pub fn n_color_r(&self) -> (r: i32)
        ensures
            r == self@.n_color_r,
    {
        self.n_color_r
    }

    /// Green component (0..=255).
    pub fn n_color_g(&self) -> (r: i32)
        ensures
            r == self@.n_color_g,
    {
        self.n_color_g
    }

    /// Blue component (0..=255).
    pub fn n_color_b(&self) -> (r: i32)
        ensures
            r == self@.n_color_b,
    {
        self.n_color_b
    }

    /// Alpha component (0..=255).
    pub fn n_color_a(&self) -> (r: i32)
        ensures
            r == self@.n_color_a,
    {
        self.n_color_a
    }

    /// Shade type (0 character shadow, 1 effect).
    pub fn n_type(&self) -> (r: i32)
        ensures
            r == self@.n_type,
    {
        self.n_type
    }
}

/// A whole shade table.
#[derive(Debug, Clone)]
pub struct PkoShadeinfo {
    record_size: u32,
    entries: Vec<PkoShadeinfo_ShadeInfoEntry>,
}

impl PkoShadeinfo {
    /// Record size declared by the header.
    pub closed spec fn spec_record_size(&self) -> u32 {
        self.record_size
    }

    /// The records, in file order.
    pub closed spec fn spec_entries(&self) -> Seq<ShadeInfoEntryModel> {
        self.entries@.map_values(|e: PkoShadeinfo_ShadeInfoEntry| e@)
    }

    /// Reads a shade table: the header, then 172-byte records to the end of
    /// the data.  Fails when the data ends inside the header or a record.
    pub fn read(data: &[u8]) -> (r: Result<Self, ShadeinfoError>)
        ensures
            match r {
                Ok(t) => {
                    &&& shade_layout_ok(data@)
                    &&& t.spec_record_size() == le_u32(data@, 0)
                    &&& t.spec_entries() == spec_shade_entries(data@)
                },
                Err(e) => !shade_layout_ok(data@) && e == ShadeinfoError::EndOfStream,
            },
    {
        if data.len() < 4 || (data.len() - 4) % SHADE_RECORD_SIZE != 0 {
            return Err(ShadeinfoError::EndOfStream);
        }
        let record_size = read_u32(data, 0);
        let count = (data.len() - 4) / SHADE_RECORD_SIZE;
        let mut entries: Vec<PkoShadeinfo_ShadeInfoEntry> = Vec::with_capacity(count);
        let mut k: usize = 0;
        while k < count
            invariant
                shade_layout_ok(data@),
                count == shade_record_count(data@),
                k <= count,
                entries@.len() == k,
                forall|j: int| 0 <= j < k ==> #[trigger] entries@[j]@ == shade_entry_at(data@, 4 + 172 * j),
            decreases count - k,
        {
            assert(4 + 172 * k + 172 <= data.len()) by (nonlinear_arith)
                requires
                    k < count,
                    count == (data.len() - 4) / 172,
                    data.len() >= 4;
            let e = PkoShadeinfo_ShadeInfoEntry::read(data, 4 + SHADE_RECORD_SIZE * k);
            entries.push(e);
            k += 1;
        }
        let t = PkoShadeinfo { record_size, entries };
        assert(t.spec_entries() =~= spec_shade_entries(data@));
        Ok(t)
    }

    /// Record size declared by the header.
    pub fn record_size(&self) -> (r: u32)
        ensures
            r == self.spec_record_size(),
    {
        self.record_size
    }

    /// The records, in file order.
    pub fn entries(&self) -> (r: &Vec<PkoShadeinfo_ShadeInfoEntry>)
        ensures
            r@.map_values(|e: PkoShadeinfo_ShadeInfoEntry| e@) == self.spec_entries(),
    {
        &self.entries
    }

    /// Number of records (as `i32`, truncating).
    pub fn entry_count(&self) -> (r: i32)
        ensures
            r == self.spec_entries().len() as i32,
    {
        self.entries.len() as i32
    }

    /// Whether the header declares the 172-byte records of the 32-bit client.
    pub fn has_expected_record_size(&self) -> (r: bool)
        ensures
            r == (self.spec_record_size() == 172),
    {
        self.record_size == 172
    }
}

} // verus!

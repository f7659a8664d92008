//! Export rules for scene (building) models: blend defaults, asset lookup,
//! material naming, per-subset index planning, joint hierarchy and buffer
//! packing.

use vstd::prelude::*;
use crate::text::{lowercase, str_to_lowercase};
use vstd::string::StringSliceAdditionalSpecFns;

verus! {

// ---------------------------------------------------------------------------
// Blend defaults
// ---------------------------------------------------------------------------

/// `D3DBLEND_ZERO`.
pub const D3DBLEND_ZERO: u32 = 1;
/// `D3DBLEND_ONE`.
pub const D3DBLEND_ONE: u32 = 2;
/// `D3DBLEND_SRCCOLOR`.
pub const D3DBLEND_SRCCOLOR: u32 = 3;
/// `D3DBLEND_INVSRCCOLOR`.
pub const D3DBLEND_INVSRCCOLOR: u32 = 4;
/// `D3DBLEND_SRCALPHA`.
pub const D3DBLEND_SRCALPHA: u32 = 5;
/// `D3DBLEND_DESTALPHA`.
pub const D3DBLEND_DESTALPHA: u32 = 7;

/// Engine default source blend of a transparency type (none for type 0).
pub open spec fn spec_default_src_blend(transp_type: u32) -> Option<u32> {
    if transp_type == 0 { None }
    else if transp_type == 1 { Some(D3DBLEND_ONE) }
    else if transp_type == 2 { Some(D3DBLEND_SRCCOLOR) }
    else if transp_type == 3 { Some(D3DBLEND_SRCCOLOR) }
    else if transp_type == 4 { Some(D3DBLEND_SRCALPHA) }
    else if transp_type == 5 { Some(D3DBLEND_ZERO) }
    else { Some(D3DBLEND_ONE) }
}

/// Engine default destination blend of a transparency type (none for type 0).
pub open spec fn spec_default_dst_blend(transp_type: u32) -> Option<u32> {
    if transp_type == 0 { None }
    else if transp_type == 1 { Some(D3DBLEND_ONE) }
    else if transp_type == 2 { Some(D3DBLEND_ONE) }
    else if transp_type == 3 { Some(D3DBLEND_INVSRCCOLOR) }
    else if transp_type == 4 { Some(D3DBLEND_DESTALPHA) }
    else if transp_type == 5 { Some(D3DBLEND_INVSRCCOLOR) }
    else { Some(D3DBLEND_ONE) }
}

/// The D3D source blend the engine sets for a transparency type, or `None` for type 0.
pub fn default_src_blend_for_transp_type(transp_type: u32) -> (r: Option<u32>)
    ensures
        r == spec_default_src_blend(transp_type),
{
    match transp_type {
        0 => None,
        1 => Some(D3DBLEND_ONE),
        2 => Some(D3DBLEND_SRCCOLOR),
        3 => Some(D3DBLEND_SRCCOLOR),
        4 => Some(D3DBLEND_SRCALPHA),
        5 => Some(D3DBLEND_ZERO),
        _ => Some(D3DBLEND_ONE),
    }
}

/// The D3D destination blend the engine sets for a transparency type, or `None` for type 0.
pub fn default_dst_blend_for_transp_type(transp_type: u32) -> (r: Option<u32>)
    ensures
        r == spec_default_dst_blend(transp_type),
{
    match transp_type {
        0 => None,
        1 => Some(D3DBLEND_ONE),
        2 => Some(D3DBLEND_ONE),
        3 => Some(D3DBLEND_INVSRCCOLOR),
        4 => Some(D3DBLEND_DESTALPHA),
        5 => Some(D3DBLEND_INVSRCCOLOR),
        _ => Some(D3DBLEND_ONE),
    }
}

/// Types 6 to 8 behave exactly like type 1 (additive One/One).
pub proof fn types_6_to_8_blend_like_type_1(t: u32)
    requires
        6 <= t <= 8,
    ensures
        spec_default_src_blend(t) == spec_default_src_blend(1),
        spec_default_dst_blend(t) == spec_default_dst_blend(1),
{
}

// ---------------------------------------------------------------------------
// Asset lookup
// ---------------------------------------------------------------------------

/// Index of the first `true` among `exists[i..n]` (an absent flag counts as
/// `false`), or `n` when there is none.
pub open spec fn first_existing_index(exists: Seq<bool>, n: int, i: int) -> int
    decreases n - i,
{
    if i >= n {
        n
    } else if i < exists.len() && exists[i] {
        i
    } else {
        first_existing_index(exists, n, i + 1)
    }
}

/// The first candidate whose existence flag is set, if any.
pub open spec fn first_existing(candidates: Seq<Seq<char>>, exists: Seq<bool>) -> Option<Seq<char>> {
    let k = first_existing_index(exists, candidates.len() as int, 0);
    if k < candidates.len() {
        Some(candidates[k])
    } else {
        None
    }
}

proof fn lemma_first_existing_index(exists: Seq<bool>, n: int, i: int)
    requires
        0 <= i <= n,
    ensures
        i <= first_existing_index(exists, n, i) <= n,
        forall|k: int| i <= k < first_existing_index(exists, n, i) ==> !(k < exists.len() && exists[k]),
        first_existing_index(exists, n, i) < n ==> first_existing_index(exists, n, i) < exists.len() && exists[first_existing_index(exists, n, i)],
    decreases n - i,
{
    if i < n && !(i < exists.len() && exists[i]) {
        lemma_first_existing_index(exists, n, i + 1);
    }
}

/// Picks the first candidate whose existence flag is set.
fn pick_first_existing(candidates: Vec<String>, exists: &[bool]) -> (r: Option<String>)
    ensures
        r matches Some(s) ==> first_existing(candidates@.map_values(|c: String| c@), exists@) == Some(s@),
        r is None ==> first_existing(candidates@.map_values(|c: String| c@), exists@) is None,
{
    let ghost views = candidates@.map_values(|c: String| c@);
    let n = candidates.len();
    let mut i: usize = 0;
    while i < n
        invariant
            n == candidates@.len(),
            views == candidates@.map_values(|c: String| c@),
            i <= n,
            first_existing_index(exists@, n as int, i as int) == first_existing_index(exists@, n as int, 0),
        decreases n - i,
    {
        if i < exists.len() && exists[i] {
            proof {
                lemma_first_existing_index(exists@, n as int, 0);
            }
            return Some(candidates[i].clone());
        }
        i += 1;
    }
    None
}

/// Where a scene model file may live, relative to the project directory, in
/// the order they are tried: `model/scene/`, `model/`, then both with the
/// lowercased file name.
pub open spec fn spec_lmo_candidates(filename: Seq<char>) -> Seq<Seq<char>> {
    seq![
        "model/scene/"@ + filename,
        "model/"@ + filename,
        "model/scene/"@ + lowercase(filename),
        "model/"@ + lowercase(filename),
    ]
}

/// The relative paths at which a scene model file may live, in lookup order.
pub fn lmo_path_candidates(filename: &str) -> (r: Vec<String>)
    ensures
        r@.map_values(|c: String| c@) == spec_lmo_candidates(filename@),
{
    let lower = str_to_lowercase(filename);
    let mut r: Vec<String> = Vec::new();
    r.push(String::from_str("model/scene/").concat(filename));
    r.push(String::from_str("model/").concat(filename));
    r.push(String::from_str("model/scene/").concat(lower.as_str()));
    r.push(String::from_str("model/").concat(lower.as_str()));
    assert(r@.map_values(|c: String| c@) =~= spec_lmo_candidates(filename@));
    r
}

/// The relative path of a scene model file: the first of
/// [`lmo_path_candidates`] whose flag in `exists` is set (`exists[i]` tells
/// whether candidate `i` exists under the project directory).
pub fn find_lmo_path(filename: &str, exists: &[bool]) -> (r: Option<String>)
    ensures
        r matches Some(p) ==> first_existing(spec_lmo_candidates(filename@), exists@) == Some(p@),
        r is None ==> first_existing(spec_lmo_candidates(filename@), exists@) is None,
{
    let candidates = lmo_path_candidates(filename);
    pick_first_existing(candidates, exists)
}

/// Index of the last `'.'` in `s[..i]`, or -1.
pub open spec fn last_dot_before(s: Seq<char>, i: int) -> int
    decreases i,
{
    if i <= 0 {
        -1
    } else if s[i - 1] == '.' {
        i - 1
    } else {
        last_dot_before(s, i - 1)
    }
}

/// A file name without its extension: everything before the last `'.'`.
pub open spec fn file_stem(name: Seq<char>) -> Seq<char> {
    let d = last_dot_before(name, name.len() as int);
    if d >= 0 { name.subrange(0, d) } else { name }
}

proof fn lemma_last_dot_bounds(s: Seq<char>, i: int)
    requires
        0 <= i <= s.len(),
    ensures
        -1 <= last_dot_before(s, i) < i,
    decreases i,
{
    if i > 0 && s[i - 1] != '.' {
        lemma_last_dot_bounds(s, i - 1);
    }
}

/// The file name without its extension.
pub fn texture_stem(name: &str) -> (r: String)
    ensures
        r@ == file_stem(name@),
{
    let n = name.unicode_len();
    let mut i = n;
    while i > 0 && name.get_char(i - 1) != '.'
        invariant
            n == name@.len(),
            i <= n,
            last_dot_before(name@, i as int) == last_dot_before(name@, n as int),
        decreases i,
    {
        i -= 1;
    }
    proof {
        lemma_last_dot_bounds(name@, n as int);
    }
    if i > 0 {
        String::from_str(name.substring_char(0, i - 1))
    } else {
        String::from_str(name)
    }
}

/// Texture directories searched for scene model textures, in order.
pub open spec fn texture_dirs() -> Seq<Seq<char>> {
    seq!["texture/scene"@, "texture/model"@, "texture/item"@, "texture/character"@, "texture"@]
}

/// Texture file extensions tried, in order.
pub open spec fn texture_exts() -> Seq<Seq<char>> {
    seq!["bmp"@, "tga"@, "dds"@, "png"@]
}

/// Candidate `k` of the texture lookup: for each directory, for each
/// extension, first the stem as written and then the lowercased stem.
pub open spec fn texture_candidate(tex_name: Seq<char>, k: int) -> Seq<char> {
    let stem = file_stem(tex_name);
    let s = if k % 2 == 1 { lowercase(stem) } else { stem };
    texture_dirs()[k / 8] + "/"@ + s + "."@ + texture_exts()[(k % 8) / 2]
}

/// All 40 texture lookup candidates, relative to the project directory.
pub open spec fn spec_texture_candidates(tex_name: Seq<char>) -> Seq<Seq<char>> {
    Seq::new(40, |k: int| texture_candidate(tex_name, k))
}

/// The relative paths at which a texture may live, in lookup order.
pub fn texture_file_candidates(tex_name: &str) -> (r: Vec<String>)
    ensures
        r@.map_values(|c: String| c@) == spec_texture_candidates(tex_name@),
{
    let stem = texture_stem(tex_name);
    let lower = str_to_lowercase(stem.as_str());
    let dirs: [&str; 5] = ["texture/scene", "texture/model", "texture/item", "texture/character", "texture"];
    let exts: [&str; 4] = ["bmp", "tga", "dds", "png"];
    let mut r: Vec<String> = Vec::new();
    let mut d: usize = 0;
    while d < 5
        invariant
            d <= 5,
            stem@ == file_stem(tex_name@),
            lower@ == lowercase(file_stem(tex_name@)),
            dirs@.map_values(|x: &str| x@) == texture_dirs(),
            exts@.map_values(|x: &str| x@) == texture_exts(),
            r@.len() == 8 * d,
            forall|k: int| 0 <= k < 8 * d ==> #[trigger] r@[k]@ == texture_candidate(tex_name@, k),
        decreases 5 - d,
    {
        let mut e: usize = 0;
        while e < 4
            invariant
                d < 5,
                e <= 4,
                stem@ == file_stem(tex_name@),
                lower@ == lowercase(file_stem(tex_name@)),
                dirs@.map_values(|x: &str| x@) == texture_dirs(),
                exts@.map_values(|x: &str| x@) == texture_exts(),
                r@.len() == 8 * d + 2 * e,
                forall|k: int| 0 <= k < 8 * d + 2 * e ==> #[trigger] r@[k]@ == texture_candidate(tex_name@, k),
            decreases 4 - e,
        {
            assert(dirs@.map_values(|x: &str| x@)[d as int] == dirs[d as int]@);
            assert(exts@.map_values(|x: &str| x@)[e as int] == exts[e as int]@);
            let c1 = String::from_str(dirs[d]).concat("/").concat(stem.as_str()).concat(".").concat(exts[e]);
            let c2 = String::from_str(dirs[d]).concat("/").concat(lower.as_str()).concat(".").concat(exts[e]);
            let ghost k1 = 8 * d + 2 * e;
            assert(k1 / 8 == d && (k1 % 8) / 2 == e && k1 % 2 == 0) by (nonlinear_arith)
                requires k1 == 8 * d + 2 * e, e < 4, d < 5;
            assert((k1 + 1) / 8 == d && ((k1 + 1) % 8) / 2 == e && (k1 + 1) % 2 == 1) by (nonlinear_arith)
                requires k1 == 8 * d + 2 * e, e < 4, d < 5;
            r.push(c1);
            r.push(c2);
            e += 1;
        }
        d += 1;
    }
    assert(r@.map_values(|c: String| c@) =~= spec_texture_candidates(tex_name@));
    r
}

/// The relative path of a texture: the first of [`texture_file_candidates`]
/// whose flag in `exists` is set.
pub fn find_texture_file(tex_name: &str, exists: &[bool]) -> (r: Option<String>)
    ensures
        r matches Some(p) ==> first_existing(spec_texture_candidates(tex_name@), exists@) == Some(p@),
        r is None ==> first_existing(spec_texture_candidates(tex_name@), exists@) is None,
{
    let candidates = texture_file_candidates(tex_name);
    pick_first_existing(candidates, exists)
}

/// Shared-texture reference of a material texture: the file stem under
/// `../textures/scene/`, with the `.dds` extension.
pub open spec fn spec_external_texture_uri(tex_name: Seq<char>) -> Seq<char> {
    "../textures/scene/"@ + file_stem(tex_name) + ".dds"@
}

/// The URI, relative to the exported GLB, under which a building references
/// a shared scene texture.
pub fn external_texture_uri(tex_name: &str) -> (r: String)
    ensures
        r@ == spec_external_texture_uri(tex_name@),
{
    let stem = texture_stem(tex_name);
    String::from_str("../textures/scene/").concat(stem.as_str()).concat(".dds")
}

/// How material textures are exported.
#[derive(Debug, Clone, Copy, PartialEq, Eq, Structural)]
pub enum TextureMode {
    /// No textures (batch loading of map models).
    Skip,
    /// Textures are found, decoded and embedded as PNG data URIs.
    Embed,
    /// Textures are referenced by a URI into the shared texture directory.
    ExternalUri,
}

/// Where the texture of an exported material comes from.
#[derive(Debug, Clone)]
pub enum TextureSource {
    /// The material has no texture.
    Untextured,
    /// The named texture file is looked up and embedded.
    Embedded { tex_name: String },
    /// The texture is referenced by `uri`; image and texture are called `name`.
    External { uri: String, name: String },
}

/// What the texture of a material becomes: nothing when textures are
/// skipped or the material names none (or an empty name); else the named
/// file, embedded or referenced by [`spec_external_texture_uri`] under the
/// lowercased stem as name.
pub open spec fn texture_source_matches(mode: TextureMode, tex_filename: Option<Seq<char>>, r: TextureSource) -> bool {
    match tex_filename {
        Some(t) if mode != TextureMode::Skip && t.len() > 0 => match mode {
            TextureMode::Embed => r matches TextureSource::Embedded { tex_name } && tex_name@ == t,
            _ => r matches TextureSource::External { uri, name } && uri@ == spec_external_texture_uri(t)
                && name@ == lowercase(file_stem(t)),
        },
        _ => r is Untextured,
    }
}

/// The texture source of a material with texture file name `tex_filename`.
pub fn material_texture_source(mode: TextureMode, tex_filename: Option<&str>) -> (r: TextureSource)
    ensures
        texture_source_matches(mode, match tex_filename { Some(t) => Some(t@), None => None }, r),
{
    match tex_filename {
        Some(t) => {
            if mode == TextureMode::Skip || t.unicode_len() == 0 {
                TextureSource::Untextured
            } else if mode == TextureMode::Embed {
                TextureSource::Embedded { tex_name: String::from_str(t) }
            } else {
                let stem = texture_stem(t);
                let name = str_to_lowercase(stem.as_str());
                TextureSource::External { uri: external_texture_uri(t), name }
            }
        },
        None => TextureSource::Untextured,
    }
}

// ---------------------------------------------------------------------------
// Material naming and alpha mode
// ---------------------------------------------------------------------------

/// Transparency type used for export: types 0..=5 are kept; 6..=8 behave
/// like type 1 in the engine and unknown types are remapped to type 1.
pub open spec fn spec_effective_transp_type(transp_type: u32) -> u32 {
    if transp_type <= 5 { transp_type } else { 1 }
}

/// The effective transparency type of a material.
pub fn effective_transp_type(transp_type: u32) -> (r: u32)
    ensures
        r == spec_effective_transp_type(transp_type),
{
    if transp_type <= 5 { transp_type } else { 1 }
}

/// Alpha reference encoded in a material name: 0 without alpha test, the
/// engine default 129 when alpha test is on with reference 0, else the reference.
pub open spec fn spec_material_alpha_ref(alpha_test_enabled: bool, alpha_ref: u8) -> u32 {
    if alpha_test_enabled {
        if alpha_ref == 0 { 129 } else { alpha_ref as u32 }
    } else {
        0
    }
}

/// The alpha reference a material is exported with.
pub fn material_alpha_ref(alpha_test_enabled: bool, alpha_ref: u8) -> (r: u32)
    ensures
        r == spec_material_alpha_ref(alpha_test_enabled, alpha_ref),
{
    if alpha_test_enabled {
        if alpha_ref == 0 { 129 } else { alpha_ref as u32 }
    } else {
        0
    }
}

/// Alpha cutoff reference (numerator over 255) of a material, when it uses alpha test.
pub fn material_alpha_cutoff(alpha_test_enabled: bool, alpha_ref: u8) -> (r: Option<u8>)
    ensures
        alpha_test_enabled ==> r == Some((if alpha_ref == 0 { 129u8 } else { alpha_ref })),
        !alpha_test_enabled ==> r is None,
{
    if alpha_test_enabled {
        Some(if alpha_ref == 0 { 129u8 } else { alpha_ref })
    } else {
        None
    }
}

/// `D3DCULL_NONE`: the Direct3D cull mode that draws both faces.
pub const D3DCULL_NONE: u32 = 1;

/// Whether an exported material is double-sided: exactly when its render
/// state sets the cull mode to [`D3DCULL_NONE`] (the Direct3D default culls
/// back faces).
pub fn material_double_sided(cull_mode: Option<u32>) -> (r: bool)
    ensures
        r == (cull_mode == Some(D3DCULL_NONE)),
{
    match cull_mode {
        Some(c) => c == D3DCULL_NONE,
        None => false,
    }
}

/// glTF alpha mode of an exported material.
#[derive(Debug, Clone, Copy, PartialEq, Eq, Structural)]
pub enum MaterialAlphaMode {
    Opaque,
    Mask,
    Blend,
}

/// Alpha mode: effect types (1..=5 after remapping) are opaque unless alpha
/// test is on (then mask); plain materials use mask for alpha test, blend
/// for partial opacity, and opaque otherwise.
pub open spec fn spec_material_alpha_mode(transp_type: u32, alpha_test_enabled: bool, partial_opacity: bool) -> MaterialAlphaMode {
    if spec_effective_transp_type(transp_type) != 0 {
        if alpha_test_enabled { MaterialAlphaMode::Mask } else { MaterialAlphaMode::Opaque }
    } else if alpha_test_enabled {
        MaterialAlphaMode::Mask
    } else if partial_opacity {
        MaterialAlphaMode::Blend
    } else {
        MaterialAlphaMode::Opaque
    }
}

/// The glTF alpha mode of a material; `partial_opacity` tells whether its
/// opacity is below 0.99.
pub fn material_alpha_mode(transp_type: u32, alpha_test_enabled: bool, partial_opacity: bool) -> (r: MaterialAlphaMode)
    ensures
        r == spec_material_alpha_mode(transp_type, alpha_test_enabled, partial_opacity),
{
    if effective_transp_type(transp_type) != 0 {
        if alpha_test_enabled { MaterialAlphaMode::Mask } else { MaterialAlphaMode::Opaque }
    } else if alpha_test_enabled {
        MaterialAlphaMode::Mask
    } else if partial_opacity {
        MaterialAlphaMode::Blend
    } else {
        MaterialAlphaMode::Opaque
    }
}

/// Exported material name: effect materials, alpha-tested materials and
/// partially opaque materials carry the suffix `__PKO_T<type>_A<ref>_O<opacity>`
/// (effective type, alpha reference, opacity as a byte); other materials keep their name.
pub open spec fn spec_material_name(
    name: Seq<char>,
    transp_type: u32,
    alpha_test_enabled: bool,
    alpha_ref: u8,
    partial_opacity: bool,
    opacity_byte: u32,
) -> Seq<char> {
    let t = spec_effective_transp_type(transp_type);
    if t != 0 || alpha_test_enabled || partial_opacity {
        name + "__PKO_T"@ + crate::text::decimal(t as nat) + "_A"@
            + crate::text::decimal(spec_material_alpha_ref(alpha_test_enabled, alpha_ref) as nat)
            + "_O"@ + crate::text::decimal(opacity_byte as nat)
    } else {
        name
    }
}

/// The exported name of a material; `opacity_byte` is its opacity clamped to
/// 0..1, times 255, rounded, and `partial_opacity` tells whether it is below 0.99.
pub fn material_name(
    name: &str,
    transp_type: u32,
    alpha_test_enabled: bool,
    alpha_ref: u8,
    partial_opacity: bool,
    opacity_byte: u32,
) -> (r: String)
    ensures
        r@ == spec_material_name(name@, transp_type, alpha_test_enabled, alpha_ref, partial_opacity, opacity_byte),
{
    let t = effective_transp_type(transp_type);
    if t != 0 || alpha_test_enabled || partial_opacity {
        let mut s = String::from_str(name);
        s.append("__PKO_T");
        crate::text::push_decimal(&mut s, t as u64);
        s.append("_A");
        crate::text::push_decimal(&mut s, material_alpha_ref(alpha_test_enabled, alpha_ref) as u64);
        s.append("_O");
        crate::text::push_decimal(&mut s, opacity_byte as u64);
        s
    } else {
        String::from_str(name)
    }
}

// ---------------------------------------------------------------------------
// Primitive planning
// ---------------------------------------------------------------------------

/// A range of triangles of a geometry object that uses one material.
#[derive(Debug, Clone, Copy)]
pub struct LmoSubset {
    pub primitive_num: u32,
    pub start_index: u32,
    pub vertex_num: u32,
    pub min_index: u32,
}

/// One glTF primitive to emit: its (winding-reversed) indices and material.
#[derive(Debug, Clone)]
pub struct PlannedPrimitive {
    /// The subset this primitive comes from (`None` when the object has no subsets).
    pub subset: Option<usize>,
    pub indices: Vec<u32>,
    pub material: u32,
}

/// Mathematical value of a [`PlannedPrimitive`].
pub struct PlannedPrimitiveModel {
    pub subset: Option<usize>,
    pub indices: Seq<u32>,
    pub material: u32,
}

impl View for PlannedPrimitive {
    type V = PlannedPrimitiveModel;

    open spec fn view(&self) -> PlannedPrimitiveModel {
        PlannedPrimitiveModel { subset: self.subset, indices: self.indices@, material: self.material }
    }
}

/// First index of a subset.
pub open spec fn subset_start(s: LmoSubset) -> int {
    s.start_index as int
}

/// One past the last index of a subset, clipped to the index buffer.
pub open spec fn subset_end(len: int, s: LmoSubset) -> int {
    let e = s.start_index + 3 * s.primitive_num;
    if e < len { e } else { len }
}

/// Whether a subset selects at least one index of the buffer.
pub open spec fn subset_used(len: int, s: LmoSubset) -> bool {
    subset_start(s) < len && subset_start(s) < subset_end(len, s)
}

/// Material of subset `si`: its own material when the object has one for it,
/// else the object's first material.
pub open spec fn subset_material(si: int, material_count: int, material_base: u32) -> u32 {
    if si < material_count { (material_base + si) as u32 } else { material_base }
}

/// Primitives emitted for the first `n` subsets.
pub open spec fn planned_prefix(
    indices: Seq<u32>,
    subsets: Seq<LmoSubset>,
    material_count: int,
    material_base: u32,
    n: nat,
) -> Seq<PlannedPrimitiveModel>
    decreases n,
{
    if n == 0 {
        Seq::empty()
    } else {
        let prev = planned_prefix(indices, subsets, material_count, material_base, (n - 1) as nat);
        let s = subsets[n - 1];
        if subset_used(indices.len() as int, s) {
            prev.push(PlannedPrimitiveModel {
                subset: Some((n - 1) as usize),
                indices: crate::coord_transform::reversed_winding(
                    indices.subrange(subset_start(s), subset_end(indices.len() as int, s)),
                ),
                material: subset_material(n - 1, material_count, material_base),
            })
        } else {
            prev
        }
    }
}

/// The primitives of a geometry object: none without vertices or indices; one
/// with all indices when there are no subsets; else one per subset that
/// selects indices.  Every primitive's triangles have reversed winding.
pub open spec fn spec_plan_primitives(
    vertex_count: int,
    indices: Seq<u32>,
    subsets: Seq<LmoSubset>,
    material_count: int,
    material_base: u32,
) -> Seq<PlannedPrimitiveModel> {
    if vertex_count == 0 || indices.len() == 0 {
        Seq::empty()
    } else if subsets.len() == 0 {
        seq![PlannedPrimitiveModel {
            subset: None,
            indices: crate::coord_transform::reversed_winding(indices),
            material: material_base,
        }]
    } else {
        planned_prefix(indices, subsets, material_count, material_base, subsets.len())
    }
}

/// The plan can be carried out: every selected index range holds whole
/// triangles, subset bounds fit in `usize` and the material index of every
/// emitted primitive fits in `u32`.
pub open spec fn plan_primitives_ok(
    vertex_count: int,
    indices: Seq<u32>,
    subsets: Seq<LmoSubset>,
    material_count: int,
    material_base: u32,
) -> bool {
    vertex_count == 0 || indices.len() == 0 || {
        if subsets.len() == 0 {
            indices.len() % 3 == 0
        } else {
            &&& forall|si: int| 0 <= si < subsets.len() ==> subset_start(#[trigger] subsets[si]) + 3 * subsets[si].primitive_num <= usize::MAX
            &&& forall|si: int| 0 <= si < subsets.len() && subset_used(indices.len() as int, #[trigger] subsets[si])
                ==> (subset_end(indices.len() as int, subsets[si]) - subset_start(subsets[si])) % 3 == 0
                    && (si < material_count ==> material_base + si <= u32::MAX)
        }
    }
}

fn reversed_copy(indices: &[u32]) -> (r: Vec<u32>)
    requires
        indices@.len() % 3 == 0,
    ensures
        r@ == crate::coord_transform::reversed_winding(indices@),
{
    let mut v = vstd::slice::slice_to_vec(indices);
    let ct = crate::coord_transform::CoordTransform::new();
    ct.reverse_indices(v.as_mut_slice());
    v
}

/// Whether [`plan_primitives`] can plan these primitives (see [`plan_primitives_ok`]).
pub fn plan_primitives_within_limits(
    vertex_count: usize,
    indices: &Vec<u32>,
    subsets: &Vec<LmoSubset>,
    material_count: usize,
    material_base: u32,
) -> (r: bool)
    ensures
        r == plan_primitives_ok(vertex_count as int, indices@, subsets@, material_count as int, material_base),
{
    if vertex_count == 0 || indices.len() == 0 {
        return true;
    }
    if subsets.len() == 0 {
        return indices.len() % 3 == 0;
    }
    let len = indices.len();
    let mut si: usize = 0;
    while si < subsets.len()
        invariant
            vertex_count > 0,
            len > 0,
            subsets@.len() > 0,
            len == indices@.len(),
            si <= subsets@.len(),
            forall|k: int| 0 <= k < si ==> subset_start(#[trigger] subsets@[k]) + 3 * subsets@[k].primitive_num <= usize::MAX,
            forall|k: int| 0 <= k < si && subset_used(len as int, #[trigger] subsets@[k])
                ==> (subset_end(len as int, subsets@[k]) - subset_start(subsets@[k])) % 3 == 0
                    && (k < material_count ==> material_base + k <= u32::MAX),
        decreases subsets@.len() - si,
    {
        let subset = subsets[si];
        let wide_end: u64 = subset.start_index as u64 + 3 * subset.primitive_num as u64;
        if wide_end > usize::MAX as u64 {
            assert(subset_start(subsets@[si as int]) + 3 * subsets@[si as int].primitive_num > usize::MAX);
            return false;
        }
        let start = subset.start_index as usize;
        let end = if (wide_end as usize) < len { wide_end as usize } else { len };
        if start < len && start < end {
            assert(subset_used(len as int, subsets@[si as int]));
            if (end - start) % 3 != 0 {
                return false;
            }
            if si < material_count && si as u64 > (u32::MAX - material_base) as u64 {
                return false;
            }
        }
        si += 1;
    }
    true
}

/// Plans the glTF primitives of a geometry object (see [`spec_plan_primitives`]).
pub fn plan_primitives(
    vertex_count: usize,
    indices: &Vec<u32>,
    subsets: &Vec<LmoSubset>,
    material_count: usize,
    material_base: u32,
) -> (r: Vec<PlannedPrimitive>)
    requires
        plan_primitives_ok(vertex_count as int, indices@, subsets@, material_count as int, material_base),
    ensures
        r@.map_values(|p: PlannedPrimitive| p@) == spec_plan_primitives(
            vertex_count as int,
            indices@,
            subsets@,
            material_count as int,
            material_base,
        ),
{
    if vertex_count == 0 || indices.len() == 0 {
        let r: Vec<PlannedPrimitive> = Vec::new();
        assert(r@.map_values(|p: PlannedPrimitive| p@) =~= Seq::empty());
        return r;
    }
    if subsets.len() == 0 {
        let prim = PlannedPrimitive { subset: None, indices: reversed_copy(indices.as_slice()), material: material_base };
        let mut r: Vec<PlannedPrimitive> = Vec::new();
        r.push(prim);
        assert(r@.map_values(|p: PlannedPrimitive| p@) =~= spec_plan_primitives(
            vertex_count as int, indices@, subsets@, material_count as int, material_base));
        return r;
    }
    let len = indices.len();
    let mut r: Vec<PlannedPrimitive> = Vec::new();
    let mut si: usize = 0;
    assert(r@.map_values(|p: PlannedPrimitive| p@) =~= planned_prefix(
        indices@, subsets@, material_count as int, material_base, 0));
    while si < subsets.len()
        invariant
            len == indices@.len(),
            len > 0,
            vertex_count > 0,
            subsets@.len() > 0,
            si <= subsets@.len(),
            plan_primitives_ok(vertex_count as int, indices@, subsets@, material_count as int, material_base),
            r@.map_values(|p: PlannedPrimitive| p@) == planned_prefix(
                indices@, subsets@, material_count as int, material_base, si as nat),
        decreases subsets@.len() - si,
    {
        let subset = subsets[si];
        assert(subset_start(subsets@[si as int]) + 3 * subsets@[si as int].primitive_num <= usize::MAX);
        let start = subset.start_index as usize;
        let count = subset.primitive_num as usize * 3;
        let end = if start + count < len { start + count } else { len };
        let ghost old_r = r@;
        if !(start >= len || start >= end) {
            assert(subset_used(indices@.len() as int, subsets@[si as int]));
            let sub = reversed_copy(&indices.as_slice()[start..end]);
            let mat = if si < material_count { material_base + si as u32 } else { material_base };
            let prim = PlannedPrimitive { subset: Some(si), indices: sub, material: mat };
            r.push(prim);
            assert(r@.map_values(|p: PlannedPrimitive| p@) =~= old_r.map_values(|p: PlannedPrimitive| p@).push(prim@));
        }
        si += 1;
    }
    r
}

proof fn lemma_planned_prefix(
    indices: Seq<u32>,
    subsets: Seq<LmoSubset>,
    material_count: int,
    material_base: u32,
    n: nat,
)
    requires
        n <= subsets.len(),
        subsets.len() <= usize::MAX,
    ensures
        forall|k: int| 0 <= k < planned_prefix(indices, subsets, material_count, material_base, n).len() ==> {
            let p = #[trigger] planned_prefix(indices, subsets, material_count, material_base, n)[k];
            &&& p.subset is Some
            &&& 0 <= p.subset->0 < n
            &&& subset_used(indices.len() as int, subsets[p.subset->0 as int])
            &&& p.material == subset_material(p.subset->0 as int, material_count, material_base)
            &&& p.indices == crate::coord_transform::reversed_winding(indices.subrange(
                subset_start(subsets[p.subset->0 as int]),
                subset_end(indices.len() as int, subsets[p.subset->0 as int]),
            ))
        },
        forall|k1: int, k2: int| 0 <= k1 < k2 < planned_prefix(indices, subsets, material_count, material_base, n).len()
            ==> (#[trigger] planned_prefix(indices, subsets, material_count, material_base, n)[k1]).subset->0
                < (#[trigger] planned_prefix(indices, subsets, material_count, material_base, n)[k2]).subset->0,
        forall|si: int| 0 <= si < n && subset_used(indices.len() as int, #[trigger] subsets[si]) ==> exists|k: int|
            0 <= k < planned_prefix(indices, subsets, material_count, material_base, n).len()
            && (#[trigger] planned_prefix(indices, subsets, material_count, material_base, n)[k]).subset == Some(si as usize),
    decreases n,
{
    if n > 0 {
        let m = (n - 1) as nat;
        lemma_planned_prefix(indices, subsets, material_count, material_base, m);
        let prev = planned_prefix(indices, subsets, material_count, material_base, m);
        let cur = planned_prefix(indices, subsets, material_count, material_base, n);
        if subset_used(indices.len() as int, subsets[m as int]) {
            assert forall|k: int| 0 <= k < prev.len() implies cur[k] == prev[k] by {}
            assert(cur[prev.len() as int].subset == Some(m as usize));
            assert forall|si: int| 0 <= si < n && subset_used(indices.len() as int, #[trigger] subsets[si]) implies exists|k: int|
                0 <= k < cur.len() && (#[trigger] cur[k]).subset == Some(si as usize) by {
                if si < m {
                    let k = choose|k: int| 0 <= k < prev.len() && (#[trigger] prev[k]).subset == Some(si as usize);
                    assert(cur[k] == prev[k]);
                } else {
                    assert(cur[prev.len() as int].subset == Some(si as usize));
                }
            }
        }
    }
}

/// The primitives planned for a geometry object: none without vertices or
/// indices; without subsets, one primitive of all indices (winding
/// reversed) using the object's first material; else one primitive for each
/// subset whose range `start .. min(start + 3 * primitive_num, len)` holds
/// indices, in subset order, with the indices of that range (winding
/// reversed) and the subset's own material `material_base + si` when the
/// object has one for it, else `material_base`.
pub proof fn planned_primitives_follow_subsets(
    vertex_count: int,
    indices: Seq<u32>,
    subsets: Seq<LmoSubset>,
    material_count: int,
    material_base: u32,
)
    requires
        plan_primitives_ok(vertex_count, indices, subsets, material_count, material_base),
        subsets.len() <= usize::MAX,
    ensures
        ({
            let plan = spec_plan_primitives(vertex_count, indices, subsets, material_count, material_base);
            let len = indices.len() as int;
            &&& (vertex_count == 0 || len == 0) ==> plan.len() == 0
            &&& (vertex_count != 0 && len > 0 && subsets.len() == 0) ==> {
                &&& plan.len() == 1
                &&& plan[0].subset is None
                &&& plan[0].material == material_base
                &&& plan[0].indices == crate::coord_transform::reversed_winding(indices)
            }
            &&& (vertex_count != 0 && len > 0 && subsets.len() > 0) ==> {
                &&& forall|k: int| 0 <= k < plan.len() ==> {
                    let p = #[trigger] plan[k];
                    let si = p.subset->0 as int;
                    let start = subsets[si].start_index as int;
                    let end = if start + 3 * subsets[si].primitive_num < len {
                        start + 3 * subsets[si].primitive_num
                    } else {
                        len
                    };
                    &&& p.subset is Some
                    &&& 0 <= si < subsets.len()
                    &&& start < len && start < end
                    &&& p.indices == crate::coord_transform::reversed_winding(indices.subrange(start, end))
                    &&& si < material_count ==> p.material == material_base + si
                    &&& si >= material_count ==> p.material == material_base
                }
                &&& forall|k1: int, k2: int| 0 <= k1 < k2 < plan.len()
                    ==> (#[trigger] plan[k1]).subset->0 < (#[trigger] plan[k2]).subset->0
                &&& forall|si: int| 0 <= si < subsets.len() && {
                    let start = (#[trigger] subsets[si]).start_index as int;
                    start < len && 0 < subsets[si].primitive_num
                } ==> exists|k: int| 0 <= k < plan.len() && (#[trigger] plan[k]).subset == Some(si as usize)
            }
        }),
{
    let len = indices.len() as int;
    if vertex_count != 0 && len > 0 && subsets.len() > 0 {
        lemma_planned_prefix(indices, subsets, material_count, material_base, subsets.len());
        let plan = spec_plan_primitives(vertex_count, indices, subsets, material_count, material_base);
        assert forall|k: int| 0 <= k < plan.len() implies {
            let p = #[trigger] plan[k];
            let si = p.subset->0 as int;
            si < material_count ==> p.material == material_base + si
        } by {
            let si = plan[k].subset->0 as int;
            assert(subset_used(len, subsets[si]));
        }
        assert forall|si: int| 0 <= si < subsets.len() && {
            let start = (#[trigger] subsets[si]).start_index as int;
            start < len && 0 < subsets[si].primitive_num
        } implies exists|k: int| 0 <= k < plan.len() && (#[trigger] plan[k]).subset == Some(si as usize) by {
            assert(subset_used(len, subsets[si]));
        }
    }
}

/// Index buffer bytes: 16-bit little-endian when every index fits in 16 bits,
/// else 32-bit little-endian.
pub open spec fn all_fit_u16(indices: Seq<u32>) -> bool {
    forall|i: int| 0 <= i < indices.len() ==> #[trigger] indices[i] <= 0xFFFF
}

/// `v` as little-endian bytes of `width` bytes each.
pub open spec fn le_bytes(v: Seq<u32>, width: int) -> Seq<u8> {
    Seq::new((width * v.len()) as nat, |k: int| ((v[k / width] as int / pow256(k % width)) % 256) as u8)
}

/// 256 to the power `e` (for `e` in 0..=4).
pub open spec fn pow256(e: int) -> int {
    if e == 0 { 1 } else if e == 1 { 256 } else if e == 2 { 65536 } else if e == 3 { 16777216 } else { 4294967296 }
}

/// `values` as little-endian bytes, `width` (2 or 4) bytes each.
fn le_encode(values: &[u32], width: usize) -> (out: Vec<u8>)
    requires
        width == 2 || width == 4,
        4 * values@.len() <= usize::MAX,
    ensures
        out@ == le_bytes(values@, width as int),
{
    let n = values.len();
    let mut out: Vec<u8> = Vec::new();
    let mut i: usize = 0;
    while i < n
        invariant
            n == values@.len(),
            4 * n <= usize::MAX,
            width == 2 || width == 4,
            i <= n,
            out@.len() == width * i,
            forall|k: int| 0 <= k < width * i ==> #[trigger] out@[k] == ((values@[k / width as int] as int / pow256(k % width as int)) % 256) as u8,
        decreases n - i,
    {
        let v = values[i];
        let mut b: usize = 0;
        let mut rest = v;
        while b < width
            invariant
                n == values@.len(),
                4 * n <= usize::MAX,
                width == 2 || width == 4,
                i < n,
                b <= width,
                v == values@[i as int],
                rest as int == v as int / pow256(b as int),
                out@.len() == width * i + b,
                forall|k: int| 0 <= k < width * i + b ==> #[trigger] out@[k] == ((values@[k / width as int] as int / pow256(k % width as int)) % 256) as u8,
            decreases width - b,
        {
            let ghost k = width * i + b;
            assert(k / width as int == i && k % width as int == b) by (nonlinear_arith)
                requires k == width * i + b, b < width, width > 0;
            out.push((rest % 256) as u8);
            assert(v as int / pow256(b as int + 1) == (v as int / pow256(b as int)) / 256) by (nonlinear_arith)
                requires b < 4, pow256(b as int + 1) == pow256(b as int) * 256, pow256(b as int) > 0;
            rest = rest / 256;
            b += 1;
        }
        assert(width * (i + 1) == width * i + width) by (nonlinear_arith);
        i += 1;
    }
    assert(out@ =~= le_bytes(values@, width as int));
    out
}

/// `values` as little-endian 32-bit words.
pub fn u32_le_bytes(values: &[u32]) -> (out: Vec<u8>)
    requires
        4 * values@.len() <= usize::MAX,
    ensures
        out@ == le_bytes(values@, 4),
{
    le_encode(values, 4)
}

/// Encodes an index buffer; the flag tells whether 16-bit indices were used.
pub fn encode_indices(indices: &Vec<u32>) -> (r: (Vec<u8>, bool))
    requires
        4 * indices@.len() <= usize::MAX,
    ensures
        r.1 == all_fit_u16(indices@),
        r.0@ == le_bytes(indices@, if r.1 { 2 } else { 4 }),
{
    let n = indices.len();
    let mut fits = true;
    let mut i: usize = 0;
    while i < n
        invariant
            n == indices@.len(),
            i <= n,
            fits == (forall|k: int| 0 <= k < i ==> #[trigger] indices@[k] <= 0xFFFF),
        decreases n - i,
    {
        if indices[i] > 0xFFFF {
            fits = false;
        }
        i += 1;
    }
    let width: usize = if fits { 2 } else { 4 };
    (le_encode(indices.as_slice(), width), fits)
}

/// Every index of an encoded index buffer reads back as written: as a
/// little-endian `u16` at `2 * i` when all indices fit in 16 bits, and as a
/// little-endian `u32` at `4 * i` in the wide encoding.
pub proof fn encoded_indices_read_back(indices: Seq<u32>, i: int)
    requires
        0 <= i < indices.len(),
    ensures
        all_fit_u16(indices) ==> crate::bytes::le_u16(le_bytes(indices, 2), 2 * i) == indices[i],
        crate::bytes::le_u32(le_bytes(indices, 4), 4 * i) == indices[i],
{
    let x = indices[i];
    let b2 = le_bytes(indices, 2);
    let b4 = le_bytes(indices, 4);
    assert((2 * i) / 2 == i && (2 * i) % 2 == 0) by (nonlinear_arith) requires 0 <= i;
    assert((2 * i + 1) / 2 == i && (2 * i + 1) % 2 == 1) by (nonlinear_arith) requires 0 <= i;
    assert(2 * i + 1 < 2 * indices.len()) by (nonlinear_arith) requires 0 <= i < indices.len();
    assert(b2[2 * i] == ((x as int / 1) % 256) as u8);
    assert(b2[2 * i + 1] == ((x as int / 256) % 256) as u8);
    if all_fit_u16(indices) {
        assert(x <= 0xFFFF);
        assert((x % 256) + 256 * ((x / 256) % 256) == x) by (bit_vector)
            requires x <= 0xFFFF;
    }
    assert forall|k: int| 0 <= k < 4 implies (#[trigger] ((4 * i + k) / 4)) == i && (4 * i + k) % 4 == k by {
        assert((4 * i + k) / 4 == i && (4 * i + k) % 4 == k) by (nonlinear_arith) requires 0 <= i, 0 <= k < 4;
    }
    assert(4 * i + 3 < 4 * indices.len()) by (nonlinear_arith) requires 0 <= i < indices.len();
    assert(b4[4 * i] == ((x as int / 1) % 256) as u8);
    assert(b4[4 * i + 1] == ((x as int / 256) % 256) as u8);
    assert(b4[4 * i + 2] == ((x as int / 65536) % 256) as u8);
    assert(b4[4 * i + 3] == ((x as int / 16777216) % 256) as u8);
    assert((x % 256) + 256 * ((x / 256) % 256) + 65536 * ((x / 65536) % 256) + 16777216 * ((x / 16777216) % 256) == x)
        by (bit_vector);
}

// ---------------------------------------------------------------------------
// Joint hierarchy
// ---------------------------------------------------------------------------

/// Marker for a bone without parent.
pub const NO_PARENT: u32 = 0xFFFF_FFFF;

/// Joint nodes (numbered from `first`) among the first `n` bones whose parent is bone `p`.
pub open spec fn children_prefix(parents: Seq<u32>, p: int, first: int, n: int) -> Seq<u32>
    decreases n,
{
    if n <= 0 {
        Seq::empty()
    } else {
        let prev = children_prefix(parents, p, first, n - 1);
        if parents[n - 1] as int == p { prev.push((first + n - 1) as u32) } else { prev }
    }
}

/// The children lists of the joint nodes: for each of the `bone_num` bones,
/// the nodes (numbered from `first`) of the bones whose parent it is, in bone
/// order.  Parents outside `0..bone_num` (the root marker among them) are ignored.
pub fn bone_children(parents: &Vec<u32>, bone_num: u32, first: u32) -> (r: Vec<Vec<u32>>)
    requires
        first + parents@.len() <= u32::MAX,
    ensures
        r@.len() == bone_num,
        forall|p: int| 0 <= p < bone_num ==> #[trigger] r@[p]@ == children_prefix(parents@, p, first as int, parents@.len() as int),
{
    let mut r: Vec<Vec<u32>> = Vec::new();
    let mut p: u32 = 0;
    while p < bone_num
        invariant
            p <= bone_num,
            r@.len() == p,
            forall|q: int| 0 <= q < p ==> #[trigger] r@[q]@ == Seq::<u32>::empty(),
        decreases bone_num - p,
    {
        r.push(Vec::new());
        p += 1;
    }
    let n = parents.len();
    let mut bi: usize = 0;
    while bi < n
        invariant
            n == parents@.len(),
            first + n <= u32::MAX,
            bi <= n,
            r@.len() == bone_num,
            forall|q: int| 0 <= q < bone_num ==> #[trigger] r@[q]@ == children_prefix(parents@, q, first as int, bi as int),
        decreases n - bi,
    {
        let parent = parents[bi];
        if parent != NO_PARENT && parent < bone_num {
            let ghost old_r = r@;
            let node = first + bi as u32;
            let mut list = r[parent as usize].clone();
            assert(list@ == old_r[parent as int]@);
            list.push(node);
            r.set(parent as usize, list);
            assert forall|q: int| 0 <= q < bone_num implies #[trigger] r@[q]@ == children_prefix(parents@, q, first as int, bi + 1) by {
                if q != parent as int {
                    assert(r@[q] == old_r[q]);
                }
            }
        }
        bi += 1;
    }
    r
}

/// The joint nodes (numbered from `first`) of the root bones, in bone order.
pub fn root_joints(parents: &Vec<u32>, first: u32) -> (r: Vec<u32>)
    requires
        first + parents@.len() <= u32::MAX,
    ensures
        r@ == children_prefix(parents@, NO_PARENT as int, first as int, parents@.len() as int),
{
    let n = parents.len();
    let mut r: Vec<u32> = Vec::new();
    let mut bi: usize = 0;
    while bi < n
        invariant
            n == parents@.len(),
            first + n <= u32::MAX,
            bi <= n,
            r@ == children_prefix(parents@, NO_PARENT as int, first as int, bi as int),
        decreases n - bi,
    {
        if parents[bi] == NO_PARENT {
            r.push(first + bi as u32);
        }
        bi += 1;
    }
    r
}

// ---------------------------------------------------------------------------
// Data URIs and buffer packing
// ---------------------------------------------------------------------------

/// What the standard padded base64 engine decodes `input` to (`None` on invalid input).
pub uninterp spec fn base64_decoded(input: Seq<u8>) -> Option<Seq<u8>>;

/// What the standard padded base64 engine encodes `bytes` to.
pub uninterp spec fn base64_encoded(bytes: Seq<u8>) -> Seq<char>;

/// `BASE64_STANDARD.decode(input).ok()` of the `base64` crate: the decoded
/// bytes, or `None` when `input` is not valid padded base64.
#[verifier::external_body]
fn base64_decode(input: &[u8]) -> (r: Option<Vec<u8>>)
    ensures
        r matches Some(v) ==> base64_decoded(input@) == Some(v@),
        r is None ==> base64_decoded(input@) is None,
{
    base64::Engine::decode(&base64::prelude::BASE64_STANDARD, input).ok()
}

/// `BASE64_STANDARD.encode(bytes)` of the `base64` crate.  The contract names
/// the result and states what the crate guarantees of it: the text is ASCII
/// and decoding it gives the bytes back.
#[verifier::external_body]
fn base64_encode(bytes: &[u8]) -> (r: String)
    ensures
        r@ == base64_encoded(bytes@),
        vstd::utf8::is_ascii_chars(r@),
        base64_decoded(vstd::utf8::encode_utf8(r@)) == Some(bytes@),
{
    base64::Engine::encode(&base64::prelude::BASE64_STANDARD, bytes)
}

/// The ASCII bytes of `";base64,"`.
pub open spec fn base64_marker() -> Seq<u8> {
    seq![59u8, 98u8, 97u8, 115u8, 101u8, 54u8, 52u8, 44u8]
}

/// The ASCII bytes of `"data:"`.
pub open spec fn data_scheme() -> Seq<u8> {
    seq![100u8, 97u8, 116u8, 97u8, 58u8]
}

/// Whether `";base64,"` starts at byte `i`.
pub open spec fn marker_at(b: Seq<u8>, i: int) -> bool {
    i + 8 <= b.len() && b.subrange(i, i + 8) == base64_marker()
}

/// First position at or after `i` where `";base64,"` starts, or `b.len()`.
pub open spec fn marker_from(b: Seq<u8>, i: int) -> int
    decreases b.len() - i,
{
    if i + 8 > b.len() {
        b.len() as int
    } else if marker_at(b, i) {
        i
    } else {
        marker_from(b, i + 1)
    }
}

/// The parts of a base64 data URI, as byte ranges of the URI text: the media
/// type (between `"data:"` and the first `";base64,"`) and the payload after it.
pub open spec fn data_uri_split(b: Seq<u8>) -> Option<(int, int)> {
    if b.len() >= 5 && b.subrange(0, 5) == data_scheme() && marker_from(b, 5) + 8 <= b.len() {
        Some((marker_from(b, 5), marker_from(b, 5) + 8))
    } else {
        None
    }
}

/// The bytes a data URI carries: its base64 payload decoded.
pub open spec fn spec_decode_data_uri(b: Seq<u8>) -> Option<Seq<u8>> {
    match data_uri_split(b) {
        Some((m, p)) => base64_decoded(b.subrange(p, b.len() as int)),
        None => None,
    }
}

proof fn lemma_marker_from_bounds(b: Seq<u8>, i: int)
    requires
        0 <= i,
    ensures
        marker_from(b, i) >= i || marker_from(b, i) == b.len(),
        marker_from(b, i) + 8 <= b.len() ==> marker_at(b, marker_from(b, i)),
        marker_from(b, i) <= b.len(),
    decreases b.len() - i,
{
    if i + 8 <= b.len() && !marker_at(b, i) {
        lemma_marker_from_bounds(b, i + 1);
    }
}

fn find_marker(b: &[u8]) -> (r: Option<usize>)
    ensures
        r matches Some(m) ==> data_uri_split(b@) == Some((m as int, m + 8)) && m + 8 <= b@.len() && 5 <= m,
        r is None ==> data_uri_split(b@) is None,
{
    let len = b.len();
    if len < 5 || b[0] != 100 || b[1] != 97 || b[2] != 116 || b[3] != 97 || b[4] != 58 {
        assert(len >= 5 ==> b@.subrange(0, 5)[0] == b@[0] && b@.subrange(0, 5)[1] == b@[1]
            && b@.subrange(0, 5)[2] == b@[2] && b@.subrange(0, 5)[3] == b@[3] && b@.subrange(0, 5)[4] == b@[4]);
        return None;
    }
    assert(b@.subrange(0, 5) =~= data_scheme());
    let mut i: usize = 5;
    while len - i >= 8
        invariant
            len == b@.len(),
            5 <= i <= len,
            b@.subrange(0, 5) == data_scheme(),
            marker_from(b@, i as int) == marker_from(b@, 5),
        decreases len - i,
    {
        if b[i] == 59 && b[i + 1] == 98 && b[i + 2] == 97 && b[i + 3] == 115 && b[i + 4] == 101
            && b[i + 5] == 54 && b[i + 6] == 52 && b[i + 7] == 44 {
            assert(b@.subrange(i as int, i + 8) =~= base64_marker());
            assert(marker_from(b@, i as int) == i as int);
            return Some(i);
        }
        assert(!marker_at(b@, i as int)) by {
            if b@.subrange(i as int, i + 8) == base64_marker() {
                assert(b@.subrange(i as int, i + 8)[0] == b@[i as int]);
                assert(b@.subrange(i as int, i + 8)[1] == b@[i + 1]);
                assert(b@.subrange(i as int, i + 8)[2] == b@[i + 2]);
                assert(b@.subrange(i as int, i + 8)[3] == b@[i + 3]);
                assert(b@.subrange(i as int, i + 8)[4] == b@[i + 4]);
                assert(b@.subrange(i as int, i + 8)[5] == b@[i + 5]);
                assert(b@.subrange(i as int, i + 8)[6] == b@[i + 6]);
                assert(b@.subrange(i as int, i + 8)[7] == b@[i + 7]);
            }
        }
        i += 1;
    }
    None
}

/// Decodes a base64 data URI (`data:<type>;base64,<payload>`) to its bytes;
/// `None` when the text is not such a URI or the payload is not valid base64.
pub fn decode_data_uri(uri: &str) -> (r: Option<Vec<u8>>)
    ensures
        r matches Some(v) ==> spec_decode_data_uri(uri.spec_bytes()) == Some(v@),
        r is None ==> spec_decode_data_uri(uri.spec_bytes()) is None,
{
    let b = uri.as_bytes();
    let len = b.len();
    match find_marker(b) {
        Some(m) => {
            let payload = &b[m + 8..len];
            base64_decode(payload)
        },
        None => None,
    }
}

/// Decodes a base64 data URI to its media type and bytes.
pub fn decode_data_uri_with_mime(uri: &str) -> (r: Option<(String, Vec<u8>)>)
    ensures
        r matches Some((mime, v)) ==> {
            &&& data_uri_split(uri.spec_bytes()) matches Some((m, p))
            &&& mime@ == crate::text::lossy_text(uri.spec_bytes().subrange(5, m))
            &&& spec_decode_data_uri(uri.spec_bytes()) == Some(v@)
        },
        r is None ==> spec_decode_data_uri(uri.spec_bytes()) is None,
{
    let b = uri.as_bytes();
    let len = b.len();
    match find_marker(b) {
        Some(m) => {
            proof {
                lemma_marker_from_bounds(b@, 5);
            }
            let mime = crate::text::string_from_utf8_lossy(&b[5..m]);
            let payload = &b[m + 8..len];
            match base64_decode(payload) {
                Some(v) => Some((mime, v)),
                None => None,
            }
        },
        None => None,
    }
}

/// The data URI under which a binary buffer is embedded.
pub open spec fn spec_octet_stream_data_uri(bytes: Seq<u8>) -> Seq<char> {
    "data:application/octet-stream;base64,"@ + base64_encoded(bytes)
}

proof fn lemma_no_marker_before(b: Seq<u8>, a: int, c: int)
    requires
        0 <= a <= c,
        c + 8 <= b.len(),
        forall|i: int| a <= i < c ==> #[trigger] b[i] != 59u8,
    ensures
        marker_from(b, a) == marker_from(b, c),
    decreases c - a,
{
    if a < c {
        assert(b.subrange(a, a + 8)[0] == b[a]);
        lemma_no_marker_before(b, a + 1, c);
    }
}

/// Embeds a binary buffer as a base64 data URI.  Decoding the URI gives the
/// bytes back.
pub fn octet_stream_data_uri(bytes: &[u8]) -> (r: String)
    ensures
        r@ == spec_octet_stream_data_uri(bytes@),
        spec_decode_data_uri(vstd::utf8::encode_utf8(r@)) == Some(bytes@),
{
    let enc = base64_encode(bytes);
    let r = String::from_str("data:application/octet-stream;base64,").concat(enc.as_str());
    proof {
        reveal_strlit("data:application/octet-stream;base64,");
        let pre = "data:application/octet-stream;base64,"@;
        let e = enc@;
        assert(pre.len() == 37);
        assert(vstd::utf8::is_ascii_chars(pre));
        assert(vstd::utf8::is_ascii_chars(r@)) by {
            vstd::utf8::is_ascii_chars_concat(r@, pre, e);
        }
        vstd::utf8::is_ascii_chars_encode_utf8(r@);
        vstd::utf8::is_ascii_chars_encode_utf8(e);
        let b = vstd::utf8::encode_utf8(r@);
        assert(b.len() == 37 + e.len());
        assert forall|i: int| 0 <= i < 37 implies #[trigger] b[i] == pre[i] as u8 by {
            assert(r@[i] == pre[i]);
        }
        assert(b.subrange(0, 5) =~= data_scheme());
        assert forall|i: int| 5 <= i < 29 implies #[trigger] b[i] != 59u8 by {
            assert(b[i] == pre[i] as u8);
        }
        lemma_no_marker_before(b, 5, 29);
        assert(b.subrange(29, 37) =~= base64_marker());
        assert(marker_from(b, 29) == 29);
        let payload = b.subrange(37, b.len() as int);
        assert forall|i: int| 0 <= i < e.len() implies #[trigger] payload[i] == vstd::utf8::encode_utf8(e)[i] by {
            assert(r@[37 + i] == e[i]);
        }
        assert(payload =~= vstd::utf8::encode_utf8(e));
    }
    r
}

/// Embeds PNG bytes as a base64 data URI.
pub fn png_data_uri(png: &[u8]) -> (r: String)
    ensures
        r@ == "data:image/png;base64,"@ + base64_encoded(png@),
{
    let enc = base64_encode(png);
    String::from_str("data:image/png;base64,").concat(enc.as_str())
}

/// Number of zero bytes that pad a buffer of `n` bytes to a multiple of 4.
pub open spec fn pad4(n: int) -> int {
    (4 - n % 4) % 4
}

/// `bin` padded with zeros to a multiple of 4 bytes.
pub open spec fn aligned(bin: Seq<u8>) -> Seq<u8> {
    bin + Seq::new(pad4(bin.len() as int) as nat, |_i: int| 0u8)
}

/// Appends `data` to `bin` after padding `bin` to a multiple of 4 bytes;
/// returns the offset at which `data` starts.
pub fn append_aligned(bin: &mut Vec<u8>, data: &[u8]) -> (off: usize)
    requires
        old(bin)@.len() + 3 + data@.len() <= usize::MAX,
    ensures
        off == aligned(old(bin)@).len(),
        final(bin)@ == aligned(old(bin)@) + data@,
{
    let pad = (4 - bin.len() % 4) % 4;
    let mut k: usize = 0;
    let ghost start = bin@;
    while k < pad
        invariant
            pad == pad4(start.len() as int),
            k <= pad,
            bin@ == start + Seq::new(k as nat, |_i: int| 0u8),
        decreases pad - k,
    {
        bin.push(0u8);
        k += 1;
        assert(bin@ =~= start + Seq::new(k as nat, |_i: int| 0u8));
    }
    let off = bin.len();
    let ghost padded = bin@;
    let mut j: usize = 0;
    while j < data.len()
        invariant
            padded == aligned(start),
            off == padded.len(),
            j <= data@.len(),
            bin@ == padded + data@.subrange(0, j as int),
            off + data@.len() <= usize::MAX,
        decreases data@.len() - j,
    {
        bin.push(data[j]);
        j += 1;
        assert(bin@ =~= padded + data@.subrange(0, j as int));
    }
    assert(data@.subrange(0, data@.len() as int) =~= data@);
    off
}

/// Buffers laid out one after the other, each starting at a multiple of 4.
pub open spec fn merged_prefix(datas: Seq<Seq<u8>>, k: nat) -> Seq<u8>
    decreases k,
{
    if k == 0 {
        Seq::empty()
    } else {
        aligned(merged_prefix(datas, (k - 1) as nat)) + datas[k - 1]
    }
}

/// Offset at which buffer `k` starts in the merged buffer.
pub open spec fn merged_offset(datas: Seq<Seq<u8>>, k: nat) -> int {
    aligned(merged_prefix(datas, k)).len() as int
}

/// Packs several buffers into one, each starting at a multiple of 4 bytes;
/// returns the packed bytes and the offset of each buffer.
pub fn merge_buffers(datas: &Vec<Vec<u8>>) -> (r: (Vec<u8>, Vec<usize>))
    requires
        merged_prefix(datas@.map_values(|d: Vec<u8>| d@), datas@.len()).len() + 3 * datas@.len() <= usize::MAX,
    ensures
        r.0@ == merged_prefix(datas@.map_values(|d: Vec<u8>| d@), datas@.len()),
        r.1@.len() == datas@.len(),
        forall|k: int| 0 <= k < datas@.len() ==> #[trigger] r.1@[k] == merged_offset(datas@.map_values(|d: Vec<u8>| d@), k as nat),
{
    let ghost views = datas@.map_values(|d: Vec<u8>| d@);
    let n = datas.len();
    let mut bin: Vec<u8> = Vec::new();
    let mut offsets: Vec<usize> = Vec::new();
    let mut k: usize = 0;
    while k < n
        invariant
            n == datas@.len(),
            views == datas@.map_values(|d: Vec<u8>| d@),
            k <= n,
            bin@ == merged_prefix(views, k as nat),
            merged_prefix(views, n as nat).len() + 3 * n <= usize::MAX,
            offsets@.len() == k,
            forall|j: int| 0 <= j < k ==> #[trigger] offsets@[j] == merged_offset(views, j as nat),
        decreases n - k,
    {
        proof {
            lemma_merged_prefix_grows(views, k as nat, n as nat);
            assert(views[k as int] == datas@[k as int]@);
        }
        let off = append_aligned(&mut bin, datas[k].as_slice());
        offsets.push(off);
        k += 1;
    }
    (bin, offsets)
}

proof fn lemma_merged_prefix_grows(datas: Seq<Seq<u8>>, k: nat, n: nat)
    requires
        k <= n <= datas.len(),
    ensures
        merged_prefix(datas, k).len() <= merged_prefix(datas, n).len(),
        k < n ==> merged_prefix(datas, k).len() + datas[k as int].len() <= merged_prefix(datas, n).len(),
        merged_prefix(datas, n).subrange(0, merged_prefix(datas, k).len() as int) == merged_prefix(datas, k),
    decreases n - k,
{
    if k < n {
        lemma_merged_prefix_grows(datas, k, (n - 1) as nat);
        let p = merged_prefix(datas, (n - 1) as nat);
        let q = merged_prefix(datas, n);
        let lk = merged_prefix(datas, k).len() as int;
        assert(q.subrange(0, p.len() as int) =~= p);
        assert(q.subrange(0, lk) =~= p.subrange(0, lk));
        if k + 1 < n {
            lemma_merged_prefix_grows(datas, k + 1, (n - 1) as nat);
        }
    } else {
        assert(merged_prefix(datas, n).subrange(0, merged_prefix(datas, n).len() as int) =~= merged_prefix(datas, n));
    }
}

/// Packing keeps every buffer intact: buffer `k` can be read back at its
/// offset, and every offset is a multiple of 4.
pub proof fn merged_buffers_read_back(datas: Seq<Seq<u8>>, k: nat)
    requires
        k < datas.len(),
    ensures
        merged_offset(datas, k) % 4 == 0,
        merged_prefix(datas, datas.len()).subrange(
            merged_offset(datas, k),
            merged_offset(datas, k) + datas[k as int].len(),
        ) == datas[k as int],
{
    lemma_merged_prefix_grows(datas, k + 1, datas.len());
    let p = merged_prefix(datas, (k + 1) as nat);
    assert(p =~= aligned(merged_prefix(datas, k)) + datas[k as int]);
    let whole = merged_prefix(datas, datas.len());
    let off = merged_offset(datas, k);
    let m = merged_prefix(datas, k).len() as int;
    assert((m + pad4(m)) % 4 == 0);
    assert(whole.subrange(off, off + datas[k as int].len()) =~= p.subrange(off, off + datas[k as int].len()));
    assert(p.subrange(off, off + datas[k as int].len()) =~= datas[k as int]);
}

/// Offset of a buffer view in the packed buffer: the offset of its buffer
/// (0 for an unknown buffer) plus its own offset.
pub fn rebased_view_offset(buffer_offsets: &Vec<usize>, buffer: usize, local: usize) -> (r: usize)
    requires
        forall|k: int| 0 <= k < buffer_offsets@.len() ==> #[trigger] buffer_offsets@[k] + local <= usize::MAX,
    ensures
        r == (if buffer < buffer_offsets@.len() { buffer_offsets@[buffer as int] } else { 0 }) + local,
{
    let base = if buffer < buffer_offsets.len() { buffer_offsets[buffer] } else { 0 };
    base + local
}

} // verus!

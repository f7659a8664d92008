//! Character mesh encoding rules: the mesh header, subsets and vertex
//! declaration written for an imported mesh, and the mapping between the
//! joints of glTF skinning data and the mesh's bone index table.

use vstd::prelude::*;
use crate::bytes::{le_u16, le_u32, read_u16, read_u32};

verus! {

/// Number of render state slots in a mesh header.
pub const LW_MESH_RS_NUM: usize = 8;
/// Marker of an unused render state slot.
pub const LW_INVALID_INDEX: u32 = 0xFFFF_FFFF;
/// Vertex format flag: per-vertex diffuse color.
pub const D3DFVF_DIFFUSE: u32 = 0x040;
/// Vertex format of imported meshes before colors are considered.
pub const IMPORTED_MESH_FVF: u32 = 4376;

/// D3D primitive topology.
#[derive(Debug, Clone, Copy, PartialEq, Eq, Structural)]
pub enum D3DPrimitiveType {
    PointList,
    LineList,
    LineStrip,
    TriangleList,
    TriangleStrip,
    TriangleFan,
}

/// One render state slot of a mesh header.
#[derive(Debug, Clone, Copy, PartialEq, Eq, Structural)]
pub struct RenderStateAtom {
    pub state: u32,
    pub value0: u32,
    pub value1: u32,
}

impl RenderStateAtom {
    /// An unused slot.
    pub fn new() -> (r: Self)
        ensures
            r.state == LW_INVALID_INDEX,
            r.value0 == 0,
            r.value1 == 0,
    {
        RenderStateAtom { state: LW_INVALID_INDEX, value0: 0, value1: 0 }
    }
}

/// One element of a D3D9 vertex declaration.
#[derive(Debug, Clone, Copy, PartialEq, Eq, Structural)]
pub struct D3DVertexElement9 {
    pub stream: u16,
    pub offset: u16,
    pub _type: u8,
    pub method: u8,
    pub usage: u8,
    pub usage_index: u8,
}

/// A range of triangles of a mesh that uses one material.
#[derive(Debug, Clone, Copy, PartialEq, Eq, Structural)]
pub struct CharacterMeshSubsetInfo {
    pub primitive_num: u32,
    pub start_index: u32,
    pub vertex_num: u32,
    pub min_index: u32,
}

/// Header of a character mesh.
#[derive(Debug, Clone, Copy)]
pub struct CharacterInfoMeshHeader {
    /// Vertex format flags.
    pub fvf: u32,
    /// Primitive topology.
    pub pt_type: D3DPrimitiveType,
    pub vertex_num: u32,
    pub index_num: u32,
    pub subset_num: u32,
    pub bone_index_num: u32,
    pub bone_infl_factor: u32,
    pub vertex_element_num: u32,
    pub rs_set: [RenderStateAtom; 8],
}

/// Whether every render state slot is unused.
pub open spec fn all_slots_unused(rs: [RenderStateAtom; 8]) -> bool {
    forall|i: int| 0 <= i < 8 ==> (#[trigger] rs@[i]).state == LW_INVALID_INDEX && rs@[i].value0 == 0 && rs@[i].value1 == 0
}

impl CharacterInfoMeshHeader {
    /// An empty triangle-list header whose render state slots are all unused.
    pub fn default() -> (h: Self)
        ensures
            h.fvf == 0,
            h.pt_type == D3DPrimitiveType::TriangleList,
            h.vertex_num == 0,
            h.index_num == 0,
            h.subset_num == 0,
            h.bone_index_num == 0,
            h.bone_infl_factor == 0,
            h.vertex_element_num == 0,
            all_slots_unused(h.rs_set),
    {
        let a = RenderStateAtom::new();
        let rs_set = [a, a, a, a, a, a, a, a];
        assert(all_slots_unused(rs_set));
        CharacterInfoMeshHeader {
            fvf: 0,
            pt_type: D3DPrimitiveType::TriangleList,
            vertex_num: 0,
            index_num: 0,
            subset_num: 0,
            bone_index_num: 0,
            bone_infl_factor: 0,
            vertex_element_num: 0,
            rs_set,
        }
    }
}

// ---------------------------------------------------------------------------
// Layout of an imported mesh
// ---------------------------------------------------------------------------

/// A vertex declaration element of stream 0 with default method and usage index.
pub open spec fn decl(offset: int, ty: u8, usage: u8) -> D3DVertexElement9 {
    D3DVertexElement9 { stream: 0, offset: offset as u16, _type: ty, method: 0, usage, usage_index: 0 }
}

/// The declaration terminator.
pub open spec fn decl_end() -> D3DVertexElement9 {
    D3DVertexElement9 { stream: 0xFF, offset: 0, _type: 17, method: 0, usage: 0, usage_index: 0 }
}

/// Vertex declaration of an imported mesh: position (float3), then blend
/// weights (float4) and blend indices (ubyte4) when skinned, normal (float3),
/// diffuse color (D3DCOLOR) and texture coordinate (float2) when present, each
/// at the running byte offset, then the terminator.
pub open spec fn spec_vertex_elements(skinned: bool, normals: bool, colors: bool, texcoords: bool) -> Seq<D3DVertexElement9> {
    let s0 = seq![decl(0, 2, 0)];
    let o0 = 12int;
    let (s1, o1) = if skinned { (s0 + seq![decl(o0, 3, 1), decl(o0 + 16, 4, 2)], o0 + 20) } else { (s0, o0) };
    let (s2, o2) = if normals { (s1.push(decl(o1, 2, 3)), o1 + 12) } else { (s1, o1) };
    let (s3, o3) = if colors { (s2.push(decl(o2, 4, 10)), o2 + 4) } else { (s2, o2) };
    let s4 = if texcoords { s3.push(decl(o3, 1, 5)) } else { s3 };
    s4.push(decl_end())
}

/// The vertex declaration of an imported mesh (see [`spec_vertex_elements`]).
pub fn vertex_elements(skinned: bool, normals: bool, colors: bool, texcoords: bool) -> (r: Vec<D3DVertexElement9>)
    ensures
        r@ == spec_vertex_elements(skinned, normals, colors, texcoords),
{
    let mut v: Vec<D3DVertexElement9> = Vec::new();
    let mut offset: u16 = 0;
    v.push(D3DVertexElement9 { stream: 0, offset, _type: 2, method: 0, usage: 0, usage_index: 0 });
    offset += 12;
    if skinned {
        v.push(D3DVertexElement9 { stream: 0, offset, _type: 3, method: 0, usage: 1, usage_index: 0 });
        offset += 16;
        v.push(D3DVertexElement9 { stream: 0, offset, _type: 4, method: 0, usage: 2, usage_index: 0 });
        offset += 4;
    }
    if normals {
        v.push(D3DVertexElement9 { stream: 0, offset, _type: 2, method: 0, usage: 3, usage_index: 0 });
        offset += 12;
    }
    if colors {
        v.push(D3DVertexElement9 { stream: 0, offset, _type: 4, method: 0, usage: 10, usage_index: 0 });
        offset += 4;
    }
    if texcoords {
        v.push(D3DVertexElement9 { stream: 0, offset, _type: 1, method: 0, usage: 5, usage_index: 0 });
    }
    v.push(D3DVertexElement9 { stream: 0xFF, offset: 0, _type: 17, method: 0, usage: 0, usage_index: 0 });
    assert(v@ =~= spec_vertex_elements(skinned, normals, colors, texcoords));
    v
}

/// Header, single subset and vertex declaration written for an imported
/// mesh of `vertex_count` vertices, `index_count` indices and `bone_count`
/// bone table entries.
#[derive(Debug, Clone)]
pub struct ImportedMeshLayout {
    pub header: CharacterInfoMeshHeader,
    pub subset: CharacterMeshSubsetInfo,
    pub vertex_elements: Vec<D3DVertexElement9>,
}

/// Builds the layout of an imported mesh: a triangle list with format 4376
/// (plus the diffuse flag with colors), one subset covering all triangles,
/// bone influence factor 2 and the declaration of [`vertex_elements`].
pub fn imported_mesh_layout(
    vertex_count: usize,
    index_count: usize,
    bone_count: usize,
    skinned: bool,
    normals: bool,
    colors: bool,
    texcoords: bool,
) -> (r: ImportedMeshLayout)
    ensures
        r.header.fvf == (if colors { IMPORTED_MESH_FVF | D3DFVF_DIFFUSE } else { IMPORTED_MESH_FVF }),
        r.header.pt_type == D3DPrimitiveType::TriangleList,
        r.header.vertex_num == vertex_count as u32,
        r.header.index_num == index_count as u32,
        r.header.subset_num == 1,
        r.header.bone_index_num == bone_count as u32,
        r.header.bone_infl_factor == 2,
        r.header.vertex_element_num == r.vertex_elements@.len(),
        all_slots_unused(r.header.rs_set),
        r.subset == (CharacterMeshSubsetInfo {
            primitive_num: (index_count / 3) as u32,
            start_index: 0,
            vertex_num: vertex_count as u32,
            min_index: 0,
        }),
        r.vertex_elements@ == spec_vertex_elements(skinned, normals, colors, texcoords),
{
    let mut header = CharacterInfoMeshHeader::default();
    header.fvf = IMPORTED_MESH_FVF;
    if colors {
        header.fvf = header.fvf | D3DFVF_DIFFUSE;
    }
    header.bone_index_num = bone_count as u32;
    header.vertex_num = vertex_count as u32;
    header.index_num = index_count as u32;
    header.subset_num = 1;
    header.bone_infl_factor = 2;
    let elements = vertex_elements(skinned, normals, colors, texcoords);
    header.vertex_element_num = elements.len() as u32;
    let subset = CharacterMeshSubsetInfo {
        min_index: 0,
        start_index: 0,
        vertex_num: vertex_count as u32,
        primitive_num: (index_count / 3) as u32,
    };
    ImportedMeshLayout { header, subset, vertex_elements: elements }
}

// ---------------------------------------------------------------------------
// Reading glTF accessor data
// ---------------------------------------------------------------------------

/// Index `i` of an index accessor: a little-endian `u32` or `u16` at its slot.
pub open spec fn accessor_index(data: Seq<u8>, wide: bool, i: int) -> u32 {
    if wide { le_u32(data, 4 * i) as u32 } else { le_u16(data, 2 * i) as u32 }
}

/// Reads `count` indices of an index accessor whose data starts at `data[0]`:
/// 32-bit when `wide`, else 16-bit, little-endian.
pub fn read_indices(data: &[u8], count: usize, wide: bool) -> (r: Vec<u32>)
    requires
        count * (if wide { 4int } else { 2int }) <= data@.len(),
    ensures
        r@ == Seq::new(count as nat, |i: int| accessor_index(data@, wide, i)),
{
    let mut r: Vec<u32> = Vec::with_capacity(count);
    let mut i: usize = 0;
    while i < count
        invariant
            count * (if wide { 4int } else { 2int }) <= data.len(),
            i <= count,
            r@ == Seq::new(i as nat, |k: int| accessor_index(data@, wide, k)),
        decreases count - i,
    {
        if wide {
            assert(4 * i + 4 <= data.len()) by (nonlinear_arith)
                requires i < count, count * 4 <= data.len();
            r.push(read_u32(data, 4 * i));
        } else {
            assert(2 * i + 2 <= data.len()) by (nonlinear_arith)
                requires i < count, count * 2 <= data.len();
            r.push(read_u16(data, 2 * i) as u32);
        }
        i += 1;
        assert(r@ =~= Seq::new(i as nat, |k: int| accessor_index(data@, wide, k)));
    }
    r
}

/// Joint `k` of vertex `v` of a `JOINTS_0` accessor of unsigned 16-bit joints.
pub open spec fn accessor_joint(data: Seq<u8>, v: int, k: int) -> u16 {
    le_u16(data, 8 * v + 2 * k) as u16
}

/// Reads the four joint references of each of `count` vertices (16-bit, little-endian).
pub fn read_joints(data: &[u8], count: usize) -> (r: Vec<[u16; 4]>)
    requires
        8 * count <= data@.len(),
    ensures
        r@.len() == count,
        forall|v: int, k: int| 0 <= v < count && 0 <= k < 4 ==> #[trigger] r@[v]@[k] == accessor_joint(data@, v, k),
{
    let mut r: Vec<[u16; 4]> = Vec::with_capacity(count);
    let mut v: usize = 0;
    while v < count
        invariant
            8 * count <= data.len(),
            v <= count,
            r@.len() == v,
            forall|w: int, k: int| 0 <= w < v && 0 <= k < 4 ==> #[trigger] r@[w]@[k] == accessor_joint(data@, w, k),
        decreases count - v,
    {
        assert(8 * v + 8 <= data.len()) by (nonlinear_arith)
            requires v < count, 8 * count <= data.len();
        let base = 8 * v;
        let j: [u16; 4] = [
            read_u16(data, base),
            read_u16(data, base + 2),
            read_u16(data, base + 4),
            read_u16(data, base + 6),
        ];
        r.push(j);
        assert forall|w: int, k: int| 0 <= w < v + 1 && 0 <= k < 4 implies #[trigger] r@[w]@[k] == accessor_joint(data@, w, k) by {
            if w == v {
                assert(r@[w] == j);
            }
        }
        v += 1;
    }
    r
}

/// Position of primitive `index` when the primitives of all meshes are
/// numbered in order: `(mesh, primitive within the mesh)` for the first `n` meshes.
pub open spec fn locate_in(counts: Seq<usize>, index: int, n: int) -> Option<(usize, usize)>
    decreases n,
{
    if n <= 0 {
        None
    } else {
        match locate_in(counts, index, n - 1) {
            Some(p) => Some(p),
            None => {
                let before = primitives_before(counts, n - 1);
                if before <= index < before + counts[n - 1] {
                    Some(((n - 1) as usize, (index - before) as usize))
                } else {
                    None
                }
            },
        }
    }
}

/// Number of primitives in the first `n` meshes.
pub open spec fn primitives_before(counts: Seq<usize>, n: int) -> int
    decreases n,
{
    if n <= 0 { 0 } else { primitives_before(counts, n - 1) + counts[n - 1] }
}

proof fn lemma_locate_in(counts: Seq<usize>, index: int, n: int)
    requires
        0 <= n <= counts.len(),
        0 <= index,
    ensures
        primitives_before(counts, n) >= 0,
        locate_in(counts, index, n) is None <==> index >= primitives_before(counts, n),
    decreases n,
{
    if n > 0 {
        lemma_locate_in(counts, index, n - 1);
    }
}

proof fn lemma_locate_stable(counts: Seq<usize>, index: int, n: int, n2: int)
    requires
        n <= n2,
        locate_in(counts, index, n) is Some,
    ensures
        locate_in(counts, index, n2) == locate_in(counts, index, n),
    decreases n2 - n,
{
    if n < n2 {
        lemma_locate_stable(counts, index, n, n2 - 1);
    }
}

/// Finds primitive number `index` among the primitives of all meshes
/// (`counts[m]` primitives in mesh `m`): its mesh and its position there.
pub fn locate_primitive(counts: &Vec<usize>, index: usize) -> (r: Option<(usize, usize)>)
    ensures
        r == locate_in(counts@, index as int, counts@.len() as int),
{
    let mut before: usize = 0;
    let mut m: usize = 0;
    while m < counts.len()
        invariant
            m <= counts@.len(),
            before == primitives_before(counts@, m as int),
            before <= index,
            locate_in(counts@, index as int, m as int) is None,
        decreases counts@.len() - m,
    {
        proof {
            lemma_locate_in(counts@, index as int, m as int);
        }
        if index - before < counts[m] {
            proof {
                lemma_locate_stable(counts@, index as int, m + 1, counts@.len() as int);
            }
            return Some((m, index - before));
        }
        before = before + counts[m];
        m += 1;
    }
    None
}

// ---------------------------------------------------------------------------
// Joints and the bone index table
// ---------------------------------------------------------------------------

/// The joint references of all vertices, four per vertex, in order.
pub open spec fn joint_flat(joints: Seq<[u16; 4]>) -> Seq<u16> {
    Seq::new((4 * joints.len()) as nat, |i: int| joints[i / 4]@[i % 4])
}

/// Distinct values among the first `n` entries, in order of first appearance.
pub open spec fn first_appearance(flat: Seq<u16>, n: int) -> Seq<u32>
    decreases n,
{
    if n <= 0 {
        Seq::empty()
    } else {
        let prev = first_appearance(flat, n - 1);
        if prev.contains(flat[n - 1] as u32) { prev } else { prev.push(flat[n - 1] as u32) }
    }
}

/// The bone index table of an imported mesh: every joint referenced by the
/// skinning data, once, in order of first reference.
pub open spec fn spec_bone_table(joints: Seq<[u16; 4]>) -> Seq<u32> {
    first_appearance(joint_flat(joints), 4 * joints.len() as int)
}

/// Packed blend indices of one vertex: byte `k` is the position of its
/// `k`-th joint in the bone table (truncated to a byte).
pub open spec fn spec_packed_blend(table: Seq<u32>, j: [u16; 4]) -> u32 {
    ((table.index_of(j@[0] as u32) as u8) as int
        + 256 * ((table.index_of(j@[1] as u32) as u8) as int)
        + 65536 * ((table.index_of(j@[2] as u32) as u8) as int)
        + 16777216 * ((table.index_of(j@[3] as u32) as u8) as int)) as u32
}

/// Byte `k` of a packed blend index value.
pub open spec fn blend_byte(indexd: u32, k: int) -> int {
    (indexd as int / crate::scene_model::pow256(k)) % 256
}

proof fn lemma_first_appearance(flat: Seq<u16>, n: int)
    requires
        0 <= n <= flat.len(),
    ensures
        first_appearance(flat, n).no_duplicates(),
        forall|i: int| 0 <= i < n ==> first_appearance(flat, n).contains(#[trigger] flat[i] as u32),
        forall|x: u32| first_appearance(flat, n).contains(x) ==> exists|i: int| 0 <= i < n && flat[i] as u32 == x,
    decreases n,
{
    if n > 0 {
        lemma_first_appearance(flat, n - 1);
        let prev = first_appearance(flat, n - 1);
        if !prev.contains(flat[n - 1] as u32) {
            let cur = prev.push(flat[n - 1] as u32);
            assert forall|i: int| 0 <= i < n implies cur.contains(#[trigger] flat[i] as u32) by {
                if i < n - 1 {
                    let k = choose|k: int| 0 <= k < prev.len() && prev[k] == flat[i] as u32;
                    assert(cur[k] == flat[i] as u32);
                } else {
                    assert(cur[prev.len() as int] == flat[i] as u32);
                }
            }
            assert forall|x: u32| cur.contains(x) implies exists|i: int| 0 <= i < n && flat[i] as u32 == x by {
                let k = choose|k: int| 0 <= k < cur.len() && cur[k] == x;
                if k < prev.len() {
                    assert(prev.contains(x));
                }
            }
        }
    }
}

fn position_in(table: &Vec<u32>, x: u32) -> (r: Option<usize>)
    ensures
        r matches Some(p) ==> p < table@.len() && table@[p as int] == x && forall|q: int| 0 <= q < p ==> table@[q] != x,
        r is None ==> !table@.contains(x),
{
    let mut i: usize = 0;
    while i < table.len()
        invariant
            i <= table@.len(),
            forall|q: int| 0 <= q < i ==> table@[q] != x,
        decreases table@.len() - i,
    {
        if table[i] == x {
            return Some(i);
        }
        i += 1;
    }
    None
}

proof fn lemma_index_of_unique(s: Seq<u32>, x: u32, p: int)
    requires
        s.no_duplicates(),
        0 <= p < s.len(),
        s[p] == x,
    ensures
        s.index_of(x) == p,
{
    assert(s.contains(x));
    let i = s.index_of(x);
    assert(0 <= i < s.len() && s[i] == x);
}

proof fn lemma_packed_bytes(b0: int, b1: int, b2: int, b3: int)
    requires
        0 <= b0 < 256,
        0 <= b1 < 256,
        0 <= b2 < 256,
        0 <= b3 < 256,
    ensures
        ({
            let p = (b0 + 256 * b1 + 65536 * b2 + 16777216 * b3) as u32;
            &&& p as int == b0 + 256 * b1 + 65536 * b2 + 16777216 * b3
            &&& blend_byte(p, 0) == b0
            &&& blend_byte(p, 1) == b1
            &&& blend_byte(p, 2) == b2
            &&& blend_byte(p, 3) == b3
        }),
{
    let v = b0 + 256 * b1 + 65536 * b2 + 16777216 * b3;
    assert(v / 256 == b1 + 256 * b2 + 65536 * b3);
    assert(v / 65536 == b2 + 256 * b3);
    assert(v / 16777216 == b3);
}

/// Builds the bone index table of imported skinning data and packs, for every
/// vertex, the table positions of its four joints into one `u32` (one byte per joint).
pub fn remap_joints(joints: &Vec<[u16; 4]>) -> (r: (Vec<u32>, Vec<u32>))
    requires
        4 * joints@.len() <= usize::MAX,
    ensures
        r.0@ == spec_bone_table(joints@),
        r.1@.len() == joints@.len(),
        forall|v: int| 0 <= v < joints@.len() ==> #[trigger] r.1@[v] == spec_packed_blend(spec_bone_table(joints@), joints@[v]),
{
    let ghost flat = joint_flat(joints@);
    let n = joints.len();
    let mut table: Vec<u32> = Vec::new();
    let mut i: usize = 0;
    while i < n
        invariant
            n == joints@.len(),
            4 * n <= usize::MAX,
            flat == joint_flat(joints@),
            i <= n,
            table@ == first_appearance(flat, 4 * i as int),
        decreases n - i,
    {
        let j = joints[i];
        let mut k: usize = 0;
        while k < 4
            invariant
                n == joints@.len(),
                4 * n <= usize::MAX,
                flat == joint_flat(joints@),
                i < n,
                j == joints@[i as int],
                k <= 4,
                table@ == first_appearance(flat, 4 * i + k),
            decreases 4 - k,
        {
            let x = j[k] as u32;
            assert(flat[4 * i + k] == j@[k as int]) by {
                assert((4 * i + k) / 4 == i as int && (4 * i + k) % 4 == k as int);
            }
            if position_in(&table, x).is_none() {
                table.push(x);
            }
            k += 1;
        }
        i += 1;
    }
    proof {
        lemma_first_appearance(flat, 4 * n as int);
    }
    let mut packed: Vec<u32> = Vec::new();
    let mut v: usize = 0;
    while v < n
        invariant
            n == joints@.len(),
            flat == joint_flat(joints@),
            table@ == spec_bone_table(joints@),
            table@ == first_appearance(flat, 4 * n as int),
            forall|i: int| 0 <= i < 4 * n ==> table@.contains(#[trigger] flat[i] as u32),
            table@.no_duplicates(),
            v <= n,
            packed@.len() == v,
            forall|w: int| 0 <= w < v ==> #[trigger] packed@[w] == spec_packed_blend(table@, joints@[w]),
        decreases n - v,
    {
        let j = joints[v];
        let mut bytes: [u8; 4] = [0u8; 4];
        let mut k: usize = 0;
        while k < 4
            invariant
                n == joints@.len(),
                flat == joint_flat(joints@),
                forall|i: int| 0 <= i < 4 * n ==> table@.contains(#[trigger] flat[i] as u32),
                table@.no_duplicates(),
                v < n,
                j == joints@[v as int],
                k <= 4,
                forall|q: int| 0 <= q < k ==> #[trigger] bytes@[q] == table@.index_of(j@[q] as u32) as u8,
            decreases 4 - k,
        {
            let x = j[k] as u32;
            assert(flat[4 * v + k] == j@[k as int]) by {
                assert((4 * v + k) / 4 == v as int && (4 * v + k) % 4 == k as int);
            }
            assert(table@.contains(x));
            match position_in(&table, x) {
                Some(p) => {
                    proof {
                        lemma_index_of_unique(table@, x, p as int);
                    }
                    bytes[k] = p as u8;
                },
                None => {
                    bytes[k] = 0;
                },
            }
            k += 1;
        }
        let indexd = bytes[0] as u32 + (bytes[1] as u32) * 256 + (bytes[2] as u32) * 65536 + (bytes[3] as u32) * 16777216;
        packed.push(indexd);
        v += 1;
    }
    (table, packed)
}

/// Whether a single-precision weight (given by its bit pattern) equals zero (+0 or -0).
pub open spec fn weight_is_zero(bits: u32) -> bool {
    bits & 0x7FFF_FFFF == 0
}

/// Joint references exported for one vertex: byte `k` of its packed blend
/// indices selects an entry of the bone table; joints whose weight is zero
/// are exported as 0.
pub open spec fn spec_exported_joints(table: Seq<u32>, indexd: u32, weights: [u32; 4]) -> Seq<u16> {
    Seq::new(4, |k: int| if weight_is_zero(weights@[k]) { 0u16 } else { table[blend_byte(indexd, k)] as u16 })
}

/// Every blend byte of every vertex selects an entry of the bone table.
pub open spec fn blend_bytes_in_table(table: Seq<u32>, packed: Seq<u32>) -> bool {
    forall|v: int, k: int| 0 <= v < packed.len() && 0 <= k < 4 ==> #[trigger] blend_byte(packed[v], k) < table.len()
}

/// Whether every blend byte of every vertex selects an entry of the bone
/// table (see [`blend_bytes_in_table`]), as [`export_joints`] needs.
pub fn blend_indices_in_table(table: &Vec<u32>, packed: &Vec<u32>) -> (r: bool)
    ensures
        r == blend_bytes_in_table(table@, packed@),
{
    let n = packed.len();
    let mut v: usize = 0;
    while v < n
        invariant
            n == packed@.len(),
            v <= n,
            forall|w: int, k: int| 0 <= w < v && 0 <= k < 4 ==> #[trigger] blend_byte(packed@[w], k) < table@.len(),
        decreases n - v,
    {
        let indexd = packed[v];
        let mut rest = indexd;
        let mut k: usize = 0;
        while k < 4
            invariant
                v < n,
                n == packed@.len(),
                indexd == packed@[v as int],
                k <= 4,
                rest as int == indexd as int / crate::scene_model::pow256(k as int),
                forall|w: int, q: int| 0 <= w < v && 0 <= q < 4 ==> #[trigger] blend_byte(packed@[w], q) < table@.len(),
                forall|q: int| 0 <= q < k ==> #[trigger] blend_byte(indexd, q) < table@.len(),
            decreases 4 - k,
        {
            let byte = (rest % 256) as usize;
            assert(byte == blend_byte(indexd, k as int));
            if byte >= table.len() {
                assert(!blend_bytes_in_table(table@, packed@)) by {
                    assert(blend_byte(packed@[v as int], k as int) >= table@.len());
                }
                return false;
            }
            assert(indexd as int / crate::scene_model::pow256(k as int + 1) == (indexd as int / crate::scene_model::pow256(k as int)) / 256) by (nonlinear_arith)
                requires k < 4, crate::scene_model::pow256(k as int + 1) == crate::scene_model::pow256(k as int) * 256, crate::scene_model::pow256(k as int) > 0;
            rest = rest / 256;
            k += 1;
        }
        assert forall|w: int, q: int| 0 <= w < v + 1 && 0 <= q < 4 implies #[trigger] blend_byte(packed@[w], q) < table@.len() by {
            if w == v {
                assert(blend_byte(indexd, q) < table@.len());
            }
        }
        v += 1;
    }
    true
}

/// The joint references written to glTF for skinned vertices (see
/// [`spec_exported_joints`]); weights are single-precision bit patterns.
pub fn export_joints(table: &Vec<u32>, packed: &Vec<u32>, weights: &Vec<[u32; 4]>) -> (r: Vec<[u16; 4]>)
    requires
        weights@.len() == packed@.len(),
        blend_bytes_in_table(table@, packed@),
    ensures
        r@.len() == packed@.len(),
        forall|v: int| 0 <= v < packed@.len() ==> #[trigger] r@[v]@ == spec_exported_joints(table@, packed@[v], weights@[v]),
{
    let n = packed.len();
    let mut out: Vec<[u16; 4]> = Vec::new();
    let mut v: usize = 0;
    while v < n
        invariant
            n == packed@.len(),
            weights@.len() == n,
            blend_bytes_in_table(table@, packed@),
            v <= n,
            out@.len() == v,
            forall|w: int| 0 <= w < v ==> #[trigger] out@[w]@ == spec_exported_joints(table@, packed@[w], weights@[w]),
        decreases n - v,
    {
        let indexd = packed[v];
        let wts = weights[v];
        let mut j: [u16; 4] = [0u16; 4];
        let mut k: usize = 0;
        let mut rest = indexd;
        while k < 4
            invariant
                v < n,
                n == packed@.len(),
                blend_bytes_in_table(table@, packed@),
                indexd == packed@[v as int],
                wts == weights@[v as int],
                k <= 4,
                rest as int == indexd as int / crate::scene_model::pow256(k as int),
                forall|q: int| 0 <= q < k ==> #[trigger] j@[q] == spec_exported_joints(table@, indexd, wts)[q],
            decreases 4 - k,
        {
            let byte = (rest % 256) as usize;
            assert(blend_byte(indexd, k as int) < table@.len());
            let joint = if wts[k] & 0x7FFF_FFFF == 0 { 0u16 } else { table[byte] as u16 };
            j[k] = joint;
            assert(indexd as int / crate::scene_model::pow256(k as int + 1) == (indexd as int / crate::scene_model::pow256(k as int)) / 256) by (nonlinear_arith)
                requires k < 4, crate::scene_model::pow256(k as int + 1) == crate::scene_model::pow256(k as int) * 256, crate::scene_model::pow256(k as int) > 0;
            rest = rest / 256;
            k += 1;
        }
        out.push(j);
        proof {
            assert(out@[v as int]@ =~= spec_exported_joints(table@, indexd, wts));
        }
        v += 1;
    }
    out
}

/// Importing glTF skinning data and exporting it again gives back every
/// joint reference that carries weight, provided the mesh references at most
/// 256 distinct joints (so that table positions fit in a byte).
pub proof fn joint_remap_round_trip(joints: Seq<[u16; 4]>, weights: Seq<[u32; 4]>, v: int, k: int)
    requires
        spec_bone_table(joints).len() <= 256,
        weights.len() == joints.len(),
        0 <= v < joints.len(),
        0 <= k < 4,
        !weight_is_zero(weights[v]@[k]),
    ensures
        blend_byte(spec_packed_blend(spec_bone_table(joints), joints[v]), k) < spec_bone_table(joints).len(),
        spec_exported_joints(
            spec_bone_table(joints),
            spec_packed_blend(spec_bone_table(joints), joints[v]),
            weights[v],
        )[k] == joints[v]@[k],
{
    let flat = joint_flat(joints);
    let table = spec_bone_table(joints);
    lemma_first_appearance(flat, 4 * joints.len() as int);
    let j = joints[v];
    assert forall|q: int| 0 <= q < 4 implies #[trigger] table[table.index_of(j@[q] as u32)] == j@[q] as u32
        && 0 <= table.index_of(j@[q] as u32) < table.len() by {
        assert((4 * v + q) / 4 == v && (4 * v + q) % 4 == q);
        assert(flat[4 * v + q] == j@[q]);
        assert(table.contains(flat[4 * v + q] as u32));
    }
    let i0 = table.index_of(j@[0] as u32);
    let i1 = table.index_of(j@[1] as u32);
    let i2 = table.index_of(j@[2] as u32);
    let i3 = table.index_of(j@[3] as u32);
    assert(table[i0] == j@[0] as u32);
    assert(table[i1] == j@[1] as u32);
    assert(table[i2] == j@[2] as u32);
    assert(table[i3] == j@[3] as u32);
    lemma_packed_bytes(i0, i1, i2, i3);
}

// ---------------------------------------------------------------------------
// Merging the primitives of an imported document
// ---------------------------------------------------------------------------

/// The attribute data of one glTF primitive of an imported character mesh,
/// read in accessor order.  Floating-point components are carried as their
/// IEEE-754 bit patterns; colors are already packed.
#[derive(Debug, Clone)]
pub struct PrimitiveAttributes {
    pub positions: Vec<[u32; 3]>,
    pub normals: Vec<[u32; 3]>,
    pub colors: Vec<u32>,
    pub joints: Vec<[u16; 4]>,
    pub weights: Vec<[u32; 4]>,
    /// `None` when the primitive has no texture coordinates.
    pub texcoords: Option<Vec<[u32; 2]>>,
    pub indices: Vec<u32>,
}

/// The attribute data of a whole imported document.
#[derive(Debug, Clone)]
pub struct MergedAttributes {
    pub positions: Vec<[u32; 3]>,
    pub normals: Vec<[u32; 3]>,
    pub colors: Vec<u32>,
    pub joints: Vec<[u16; 4]>,
    pub weights: Vec<[u32; 4]>,
    pub texcoords: Vec<[u32; 2]>,
    pub indices: Vec<u32>,
}

/// Texture coordinates of the last of the first `n` primitives that has
/// them (each such primitive replaces the earlier ones); empty when none has.
pub open spec fn last_texcoords(prims: Seq<PrimitiveAttributes>, n: int) -> Seq<[u32; 2]>
    decreases n,
{
    if n <= 0 {
        Seq::empty()
    } else {
        match prims[n - 1].texcoords {
            Some(t) => t@,
            None => last_texcoords(prims, n - 1),
        }
    }
}

proof fn lemma_merge_step(a: Seq<PrimitiveAttributes>, b: Seq<PrimitiveAttributes>, p: PrimitiveAttributes)
    requires
        b == a.push(p),
    ensures
        b.map_values(|q: PrimitiveAttributes| q.positions@).flatten()
            == a.map_values(|q: PrimitiveAttributes| q.positions@).flatten() + p.positions@,
        b.map_values(|q: PrimitiveAttributes| q.normals@).flatten()
            == a.map_values(|q: PrimitiveAttributes| q.normals@).flatten() + p.normals@,
        b.map_values(|q: PrimitiveAttributes| q.colors@).flatten()
            == a.map_values(|q: PrimitiveAttributes| q.colors@).flatten() + p.colors@,
        b.map_values(|q: PrimitiveAttributes| q.joints@).flatten()
            == a.map_values(|q: PrimitiveAttributes| q.joints@).flatten() + p.joints@,
        b.map_values(|q: PrimitiveAttributes| q.weights@).flatten()
            == a.map_values(|q: PrimitiveAttributes| q.weights@).flatten() + p.weights@,
{
    assert(b.map_values(|q: PrimitiveAttributes| q.positions@) =~= a.map_values(|q: PrimitiveAttributes| q.positions@).push(p.positions@));
    a.map_values(|q: PrimitiveAttributes| q.positions@).lemma_flatten_push(p.positions@);
    assert(b.map_values(|q: PrimitiveAttributes| q.normals@) =~= a.map_values(|q: PrimitiveAttributes| q.normals@).push(p.normals@));
    a.map_values(|q: PrimitiveAttributes| q.normals@).lemma_flatten_push(p.normals@);
    assert(b.map_values(|q: PrimitiveAttributes| q.colors@) =~= a.map_values(|q: PrimitiveAttributes| q.colors@).push(p.colors@));
    a.map_values(|q: PrimitiveAttributes| q.colors@).lemma_flatten_push(p.colors@);
    assert(b.map_values(|q: PrimitiveAttributes| q.joints@) =~= a.map_values(|q: PrimitiveAttributes| q.joints@).push(p.joints@));
    a.map_values(|q: PrimitiveAttributes| q.joints@).lemma_flatten_push(p.joints@);
    assert(b.map_values(|q: PrimitiveAttributes| q.weights@) =~= a.map_values(|q: PrimitiveAttributes| q.weights@).push(p.weights@));
    a.map_values(|q: PrimitiveAttributes| q.weights@).lemma_flatten_push(p.weights@);
}

fn append_copies<T: Copy>(dst: &mut Vec<T>, src: &Vec<T>)
    ensures
        final(dst)@ == old(dst)@ + src@,
{
    let mut i: usize = 0;
    let ghost d0 = dst@;
    while i < src.len()
        invariant
            i <= src@.len(),
            dst@ == d0 + src@.subrange(0, i as int),
        decreases src@.len() - i,
    {
        dst.push(src[i]);
        i += 1;
        assert(dst@ =~= d0 + src@.subrange(0, i as int));
    }
    assert(src@.subrange(0, src@.len() as int) =~= src@);
}

/// Merges the primitives of an imported document in order: positions,
/// normals, colors, joints and weights of all primitives are concatenated;
/// texture coordinates are those of the last primitive that has them; the
/// indices are those of the last primitive.
pub fn merge_primitives(prims: &Vec<PrimitiveAttributes>) -> (r: MergedAttributes)
    ensures
        r.positions@ == prims@.map_values(|p: PrimitiveAttributes| p.positions@).flatten(),
        r.normals@ == prims@.map_values(|p: PrimitiveAttributes| p.normals@).flatten(),
        r.colors@ == prims@.map_values(|p: PrimitiveAttributes| p.colors@).flatten(),
        r.joints@ == prims@.map_values(|p: PrimitiveAttributes| p.joints@).flatten(),
        r.weights@ == prims@.map_values(|p: PrimitiveAttributes| p.weights@).flatten(),
        r.texcoords@ == last_texcoords(prims@, prims@.len() as int),
        r.indices@ == (if prims@.len() == 0 { Seq::<u32>::empty() } else { prims@.last().indices@ }),
{
    let mut positions: Vec<[u32; 3]> = Vec::new();
    let mut normals: Vec<[u32; 3]> = Vec::new();
    let mut colors: Vec<u32> = Vec::new();
    let mut joints: Vec<[u16; 4]> = Vec::new();
    let mut weights: Vec<[u32; 4]> = Vec::new();
    let mut texcoords: Vec<[u32; 2]> = Vec::new();
    let mut indices: Vec<u32> = Vec::new();
    let n = prims.len();
    let mut i: usize = 0;
    while i < n
        invariant
            n == prims@.len(),
            i <= n,
            positions@ == prims@.subrange(0, i as int).map_values(|p: PrimitiveAttributes| p.positions@).flatten(),
            normals@ == prims@.subrange(0, i as int).map_values(|p: PrimitiveAttributes| p.normals@).flatten(),
            colors@ == prims@.subrange(0, i as int).map_values(|p: PrimitiveAttributes| p.colors@).flatten(),
            joints@ == prims@.subrange(0, i as int).map_values(|p: PrimitiveAttributes| p.joints@).flatten(),
            weights@ == prims@.subrange(0, i as int).map_values(|p: PrimitiveAttributes| p.weights@).flatten(),
            texcoords@ == last_texcoords(prims@, i as int),
            indices@ == (if i == 0 { Seq::<u32>::empty() } else { prims@[i - 1].indices@ }),
        decreases n - i,
    {
        let p = &prims[i];
        let ghost a = prims@.subrange(0, i as int);
        let ghost b = prims@.subrange(0, i + 1);
        proof {
            assert(b =~= a.push(prims@[i as int]));
        }
        append_copies(&mut positions, &p.positions);
        append_copies(&mut normals, &p.normals);
        append_copies(&mut colors, &p.colors);
        append_copies(&mut joints, &p.joints);
        append_copies(&mut weights, &p.weights);
        proof {
            lemma_merge_step(a, b, prims@[i as int]);
        }
        match &p.texcoords {
            Some(t) => {
                let mut copy: Vec<[u32; 2]> = Vec::new();
                append_copies(&mut copy, t);
                texcoords = copy;
            },
            None => {},
        }
        let mut idx: Vec<u32> = Vec::new();
        append_copies(&mut idx, &p.indices);
        indices = idx;
        i += 1;
    }
    assert(prims@.subrange(0, n as int) =~= prims@);
    MergedAttributes { positions, normals, colors, joints, weights, texcoords, indices }
}

} // verus!

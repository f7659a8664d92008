//! Characters: their model parts, file names and metadata summary.

use vstd::prelude::*;
use crate::text::{decimal, zero_padded, decimal_string, zero_pad};

verus! {

/// A character record of the character table.
#[derive(Debug, Clone)]
pub struct Character {
    pub id: u32,
    pub name: String,
    pub icon_name: String,
    pub model_type: u8,
    pub ctrl_type: u8,
    pub model: u16,
    pub suit_id: u16,
    pub suit_num: u16,
    pub mesh_part_0: u16,
    pub mesh_part_1: u16,
    pub mesh_part_2: u16,
    pub mesh_part_3: u16,
    pub mesh_part_4: u16,
    pub mesh_part_5: u16,
    pub mesh_part_6: u16,
    pub mesh_part_7: u16,
    pub feff_id: String,
    pub eeff_id: u16,
    pub effect_action_id: String,
    pub shadow: u16,
    pub action_id: u16,
}

/// Summary of a character's model and animation.
#[derive(Debug, Clone)]
pub struct CharacterMetadata {
    pub character_id: u32,
    pub character_name: String,
    pub model_id: u16,
    pub animation_id: u16,
    pub bone_count: u32,
    pub frame_count: u32,
    pub dummy_count: u32,
    pub vertex_count: u32,
    pub triangle_count: u32,
    pub material_count: u32,
    /// Model file ids of the parts, zero-padded to ten digits (e.g. "0725000000").
    pub model_parts: Vec<String>,
    pub bounding_spheres: u32,
    pub bounding_boxes: u32,
}

/// What the metadata needs of one loaded model part.
#[derive(Debug, Clone, Copy)]
pub struct ModelPartSummary {
    /// Vertex and index counts of the mesh, when the part has one.
    pub mesh: Option<(u32, u32)>,
    /// Number of materials, when the part has a material list.
    pub material_count: Option<usize>,
    /// Bounding sphere and box counts, when the part has helper data.
    pub helpers: Option<(u32, u32)>,
}

/// What the metadata needs of the character's bone animation header.
#[derive(Debug, Clone, Copy)]
pub struct AnimationSummary {
    pub bone_num: u32,
    pub frame_num: u32,
    pub dummy_num: u32,
}

/// The eight mesh part slots of a character, in order.
pub open spec fn mesh_part_slots(c: Character) -> Seq<u16> {
    seq![c.mesh_part_0, c.mesh_part_1, c.mesh_part_2, c.mesh_part_3,
         c.mesh_part_4, c.mesh_part_5, c.mesh_part_6, c.mesh_part_7]
}

/// The nonzero entries among the first `n` slots.
pub open spec fn nonzero_prefix(slots: Seq<u16>, n: int) -> Seq<u16>
    decreases n,
{
    if n <= 0 {
        Seq::empty()
    } else {
        let prev = nonzero_prefix(slots, n - 1);
        if slots[n - 1] != 0 { prev.push(slots[n - 1]) } else { prev }
    }
}

proof fn lemma_nonzero_prefix_len(slots: Seq<u16>, n: int)
    requires
        n >= 0,
    ensures
        nonzero_prefix(slots, n).len() <= n,
    decreases n,
{
    if n > 0 {
        lemma_nonzero_prefix_len(slots, n - 1);
    }
}

/// The character's mesh parts: its nonzero part slots, in slot order.
pub open spec fn spec_parts(c: Character) -> Seq<u16> {
    nonzero_prefix(mesh_part_slots(c), 8)
}

/// Model file id of part `i`: model * 1000000 + suit * 10000 + i.
pub open spec fn part_model_id(c: Character, i: int) -> int {
    c.model * 1000000 + c.suit_id * 10000 + i
}

/// Ten-digit, zero-padded form of a model file id.
pub open spec fn model_id_text(id: int) -> Seq<char> {
    zero_padded(decimal(id as nat), 10)
}

/// The model file ids of all parts fit in `u32` (the largest is that of the
/// last part; a character without parts has none).
pub open spec fn part_ids_fit(c: Character) -> bool {
    spec_parts(c).len() == 0 || part_model_id(c, spec_parts(c).len() - 1) <= u32::MAX
}

/// Totals over the first `n` model parts: vertices, triangles (indices / 3),
/// materials, bounding spheres and bounding boxes.
pub open spec fn part_totals(models: Seq<ModelPartSummary>, n: int) -> (int, int, int, int, int)
    decreases n,
{
    if n <= 0 {
        (0, 0, 0, 0, 0)
    } else {
        let (v, t, m, s, b) = part_totals(models, n - 1);
        let p = models[n - 1];
        let (v, t) = match p.mesh { Some((vn, inum)) => (v + vn, t + inum / 3), None => (v, t) };
        let m = match p.material_count { Some(c) => m + (c as u32), None => m };
        let (s, b) = match p.helpers { Some((sn, bn)) => (s + sn, b + bn), None => (s, b) };
        (v, t, m, s, b)
    }
}

proof fn lemma_part_totals_prefix(s: Seq<ModelPartSummary>, t: Seq<ModelPartSummary>, n: int)
    requires
        0 <= n <= s.len(),
        n <= t.len(),
        forall|i: int| 0 <= i < n ==> s[i] == t[i],
    ensures
        part_totals(s, n) == part_totals(t, n),
    decreases n,
{
    if n > 0 {
        lemma_part_totals_prefix(s, t, n - 1);
    }
}

proof fn lemma_part_totals_concat(a: Seq<ModelPartSummary>, b: Seq<ModelPartSummary>, k: int)
    requires
        0 <= k <= b.len(),
    ensures
        ({
            let (va, ta, ma, sa, ba) = part_totals(a, a.len() as int);
            let (vb, tb, mb, sb, bb) = part_totals(b, k);
            part_totals(a + b, a.len() + k) == (va + vb, ta + tb, ma + mb, sa + sb, ba + bb)
        }),
    decreases k,
{
    if k == 0 {
        lemma_part_totals_prefix(a + b, a, a.len() as int);
    } else {
        lemma_part_totals_concat(a, b, k - 1);
        assert((a + b)[a.len() + k - 1] == b[k - 1]);
    }
}

/// The totals of a character's parts add up part by part: the totals over
/// two runs of parts are the sums of the totals over each run, and one part
/// contributes its vertex count, a third of its index count (rounded down),
/// its material count (as `u32`), and its bounding sphere and box counts
/// (nothing for what it lacks).
pub proof fn part_totals_add_up(a: Seq<ModelPartSummary>, b: Seq<ModelPartSummary>, p: ModelPartSummary)
    ensures
        ({
            let (va, ta, ma, sa, ba) = part_totals(a, a.len() as int);
            let (vb, tb, mb, sb, bb) = part_totals(b, b.len() as int);
            part_totals(a + b, (a.len() + b.len()) as int) == (va + vb, ta + tb, ma + mb, sa + sb, ba + bb)
        }),
        part_totals(seq![p], 1) == (
            match p.mesh { Some((vn, inum)) => vn as int, None => 0 },
            match p.mesh { Some((vn, inum)) => inum as int / 3, None => 0 },
            match p.material_count { Some(c) => (c as u32) as int, None => 0 },
            match p.helpers { Some((sn, bn)) => sn as int, None => 0 },
            match p.helpers { Some((sn, bn)) => bn as int, None => 0 },
        ),
{
    lemma_part_totals_concat(a, b, b.len() as int);
    assert(seq![p][0] == p);
    assert(part_totals(seq![p], 0) == (0int, 0int, 0int, 0int, 0int));
}

/// All running totals stay within `u32`.
pub open spec fn part_totals_fit(models: Seq<ModelPartSummary>) -> bool {
    forall|n: int| 0 <= n <= models.len() ==> {
        let (v, t, m, s, b) = #[trigger] part_totals(models, n);
        v <= u32::MAX && t <= u32::MAX && m <= u32::MAX && s <= u32::MAX && b <= u32::MAX
    }
}

impl Character {
    /// The nonzero mesh part numbers, in slot order, as decimal text.
    fn get_parts(&self) -> (r: Vec<String>)
        ensures
            r@.len() == spec_parts(*self).len(),
            forall|i: int| 0 <= i < r@.len() ==> #[trigger] r@[i]@ == decimal(spec_parts(*self)[i] as nat),
    {
        let slots: [u16; 8] = [
            self.mesh_part_0, self.mesh_part_1, self.mesh_part_2, self.mesh_part_3,
            self.mesh_part_4, self.mesh_part_5, self.mesh_part_6, self.mesh_part_7,
        ];
        assert(slots@ =~= mesh_part_slots(*self));
        let mut parts: Vec<String> = Vec::new();
        let mut k: usize = 0;
        while k < 8
            invariant
                k <= 8,
                slots@ == mesh_part_slots(*self),
                parts@.len() == nonzero_prefix(slots@, k as int).len(),
                forall|i: int| 0 <= i < parts@.len() ==> #[trigger] parts@[i]@ == decimal(nonzero_prefix(slots@, k as int)[i] as nat),
            decreases 8 - k,
        {
            if slots[k] != 0 {
                parts.push(decimal_string(slots[k] as u64));
            }
            k += 1;
        }
        parts
    }

    /// Number of mesh parts (nonzero part slots).
    pub fn part_count(&self) -> (r: usize)
        ensures
            r == spec_parts(*self).len(),
    {
        self.get_parts().len()
    }

    /// The model file ids of the parts: model * 1000000 + suit * 10000 + part index.
    pub fn part_model_ids(&self) -> (r: Vec<u32>)
        requires
            part_ids_fit(*self),
        ensures
            r@.len() == spec_parts(*self).len(),
            forall|i: int| 0 <= i < r@.len() ==> #[trigger] r@[i] == part_model_id(*self, i),
    {
        let n = self.part_count();
        let mut r: Vec<u32> = Vec::new();
        let mut i: usize = 0;
        while i < n
            invariant
                n == spec_parts(*self).len(),
                part_ids_fit(*self),
                i <= n,
                r@.len() == i,
                forall|k: int| 0 <= k < i ==> #[trigger] r@[k] == part_model_id(*self, k),
            decreases n - i,
        {
            let model_id_base = self.model as u32 * 1000000;
            let suit_id = self.suit_id as u32 * 10000;
            r.push(model_id_base + suit_id + i as u32);
            i += 1;
        }
        r
    }

    /// Whether [`Self::get_metadata`] can take these model summaries: one per
    /// mesh part, part file ids within `u32`, and totals within `u32`.
    pub fn metadata_inputs_fit(&self, models: &Vec<ModelPartSummary>) -> (r: bool)
        ensures
            r == (models@.len() == spec_parts(*self).len() && part_ids_fit(*self) && part_totals_fit(models@)),
    {
        let parts = self.part_count();
        proof {
            lemma_nonzero_prefix_len(mesh_part_slots(*self), 8);
        }
        if models.len() != parts {
            return false;
        }
        if parts > 0 {
            let last_id: u64 = self.model as u64 * 1000000 + self.suit_id as u64 * 10000 + (parts - 1) as u64;
            if last_id > u32::MAX as u64 {
                return false;
            }
        }
        let mut v: u64 = 0;
        let mut t: u64 = 0;
        let mut m: u64 = 0;
        let mut sp: u64 = 0;
        let mut bx: u64 = 0;
        let n = models.len();
        let mut i: usize = 0;
        while i < n
            invariant
                n == models@.len(),
                n <= 8,
                i <= n,
                part_totals(models@, i as int) == (v as int, t as int, m as int, sp as int, bx as int),
                forall|k: int| 0 <= k <= i ==> {
                    let (a, b, c, d, e) = #[trigger] part_totals(models@, k);
                    a <= u32::MAX && b <= u32::MAX && c <= u32::MAX && d <= u32::MAX && e <= u32::MAX
                },
            decreases n - i,
        {
            let model = models[i];
            match model.mesh {
                Some((vertex_num, index_num)) => {
                    v = v + vertex_num as u64;
                    t = t + (index_num / 3) as u64;
                },
                None => {},
            }
            match model.material_count {
                Some(c) => {
                    m = m + (c as u32) as u64;
                },
                None => {},
            }
            match model.helpers {
                Some((bsphere_num, bbox_num)) => {
                    sp = sp + bsphere_num as u64;
                    bx = bx + bbox_num as u64;
                },
                None => {},
            }
            i += 1;
            assert(part_totals(models@, i as int) == (v as int, t as int, m as int, sp as int, bx as int));
            if v > u32::MAX as u64 || t > u32::MAX as u64 || m > u32::MAX as u64 || sp > u32::MAX as u64 || bx > u32::MAX as u64 {
                return false;
            }
        }
        true
    }

    /// The character's metadata, from the summaries of its loaded model parts
    /// (one per mesh part, in order) and of its bone animation header.
    pub fn get_metadata(&self, models: &Vec<ModelPartSummary>, animation: &AnimationSummary) -> (r: CharacterMetadata)
        requires
            models@.len() == spec_parts(*self).len(),
            part_ids_fit(*self),
            part_totals_fit(models@),
        ensures
            r.character_id == self.id,
            r.character_name@ == self.name@,
            r.model_id == self.model,
            r.animation_id == self.model,
            r.bone_count == animation.bone_num,
            r.frame_count == animation.frame_num,
            r.dummy_count == animation.dummy_num,
            ({
                let (v, t, m, s, b) = part_totals(models@, models@.len() as int);
                &&& r.vertex_count == v
                &&& r.triangle_count == t
                &&& r.material_count == m
                &&& r.bounding_spheres == s
                &&& r.bounding_boxes == b
            }),
            r.model_parts@.len() == spec_parts(*self).len(),
            forall|i: int| 0 <= i < r.model_parts@.len() ==> #[trigger] r.model_parts@[i]@ == model_id_text(part_model_id(*self, i)),
    {
        let mut total_vertices = 0u32;
        let mut total_triangles = 0u32;
        let mut total_materials = 0u32;
        let mut total_bspheres = 0u32;
        let mut total_bboxes = 0u32;
        let n = models.len();
        let mut i: usize = 0;
        while i < n
            invariant
                n == models@.len(),
                part_totals_fit(models@),
                i <= n,
                part_totals(models@, i as int) == (total_vertices as int, total_triangles as int,
                    total_materials as int, total_bspheres as int, total_bboxes as int),
            decreases n - i,
        {
            let model = models[i];
            // Brings the totals up to part `i + 1` into view.
            let ghost next = part_totals(models@, i + 1);
            assert(next == part_totals(models@, i + 1));
            match model.mesh {
                Some((vertex_num, index_num)) => {
                    total_vertices += vertex_num;
                    total_triangles += index_num / 3;
                },
                None => {},
            }
            match model.material_count {
                Some(c) => {
                    total_materials += c as u32;
                },
                None => {},
            }
            match model.helpers {
                Some((bsphere_num, bbox_num)) => {
                    total_bspheres += bsphere_num;
                    total_bboxes += bbox_num;
                },
                None => {},
            }
            i += 1;
        }
        let ids = self.part_model_ids();
        let mut model_parts: Vec<String> = Vec::new();
        let mut k: usize = 0;
        while k < ids.len()
            invariant
                k <= ids@.len(),
                ids@.len() == spec_parts(*self).len(),
                forall|j: int| 0 <= j < ids@.len() ==> #[trigger] ids@[j] == part_model_id(*self, j),
                model_parts@.len() == k,
                forall|j: int| 0 <= j < k ==> #[trigger] model_parts@[j]@ == model_id_text(part_model_id(*self, j)),
            decreases ids@.len() - k,
        {
            let text = decimal_string(ids[k] as u64);
            model_parts.push(zero_pad(&text, 10));
            k += 1;
        }
        CharacterMetadata {
            character_id: self.id,
            character_name: self.name.clone(),
            model_id: self.model,
            animation_id: self.model,
            bone_count: animation.bone_num,
            frame_count: animation.frame_num,
            dummy_count: animation.dummy_num,
            vertex_count: total_vertices,
            triangle_count: total_triangles,
            material_count: total_materials,
            model_parts,
            bounding_spheres: total_bspheres,
            bounding_boxes: total_bboxes,
        }
    }
}

/// Model file name of a part: its ten-digit id with the `.lgo` extension.
pub fn lgo_file_name(model_id: u32) -> (r: String)
    ensures
        r@ == model_id_text(model_id as int) + ".lgo"@,
{
    let text = decimal_string(model_id as u64);
    zero_pad(&text, 10).concat(".lgo")
}

/// Animation file name of a model: its four-digit id with the `.lab` extension.
pub fn lab_file_name(model: u32) -> (r: String)
    ensures
        r@ == zero_padded(decimal(model as nat), 4) + ".lab"@,
{
    let text = decimal_string(model as u64);
    zero_pad(&text, 4).concat(".lab")
}

/// What a character's glTF export reads and names, relative to the client
/// directory.
#[derive(Debug, Clone)]
pub struct CharacterGltfLayout {
    /// The model file of each part, in part order: `model/character/<id>.lgo`.
    pub model_files: Vec<String>,
    /// The name of each part's mesh: its ten-digit model file id.
    pub mesh_names: Vec<String>,
    /// The skeleton and animation file: `animation/<model>.lab`.
    pub animation_file: String,
    /// Whether the animation is split by the action and pose tables.
    pub split_animations: bool,
}

/// `r` lists the part model files, mesh names and animation file of `c`'s
/// glTF export, and whether its animation is split.
pub open spec fn gltf_layout_matches(c: Character, split: bool, r: CharacterGltfLayout) -> bool {
    &&& r.model_files@.len() == spec_parts(c).len()
    &&& r.mesh_names@.len() == spec_parts(c).len()
    &&& forall|i: int| 0 <= i < spec_parts(c).len() ==> {
        &&& #[trigger] r.model_files@[i]@ == "model/character/"@ + model_id_text(part_model_id(c, i)) + ".lgo"@
        &&& r.mesh_names@[i]@ == model_id_text(part_model_id(c, i))
    }
    &&& r.animation_file@ == "animation/"@ + zero_padded(decimal(c.model as nat), 4) + ".lab"@
    &&& r.split_animations == split
}

impl Character {
    /// The glTF export of the character as the viewer asks for it: with
    /// animations split by the action and pose tables when both are present.
    pub fn get_gltf_json(&self, tables_present: bool) -> (r: CharacterGltfLayout)
        requires
            part_ids_fit(*self),
        ensures
            gltf_layout_matches(*self, tables_present, r),
    {
        self.gltf_layout(true, tables_present)
    }

    /// The files and mesh names of the character's glTF export.  The
    /// animation is split only when asked for and both the action table and
    /// the pose table are present.
    pub fn gltf_layout(&self, split_animations: bool, tables_present: bool) -> (r: CharacterGltfLayout)
        requires
            part_ids_fit(*self),
        ensures
            gltf_layout_matches(*self, split_animations && tables_present, r),
    {
        let ids = self.part_model_ids();
        let n = ids.len();
        let mut model_files: Vec<String> = Vec::new();
        let mut mesh_names: Vec<String> = Vec::new();
        let mut i: usize = 0;
        while i < n
            invariant
                n == ids@.len(),
                n == spec_parts(*self).len(),
                forall|k: int| 0 <= k < n ==> #[trigger] ids@[k] == part_model_id(*self, k),
                i <= n,
                model_files@.len() == i,
                mesh_names@.len() == i,
                forall|k: int| 0 <= k < i ==> {
                    &&& #[trigger] model_files@[k]@ == "model/character/"@ + model_id_text(part_model_id(*self, k)) + ".lgo"@
                    &&& mesh_names@[k]@ == model_id_text(part_model_id(*self, k))
                },
            decreases n - i,
        {
            let text = zero_pad(&decimal_string(ids[i] as u64), 10);
            let file = String::from_str("model/character/").concat(lgo_file_name(ids[i]).as_str());
            proof {
                assert(("model/character/"@ + model_id_text(ids@[i as int] as int)) + ".lgo"@
                    =~= "model/character/"@ + (model_id_text(ids@[i as int] as int) + ".lgo"@));
            }
            model_files.push(file);
            mesh_names.push(text);
            i += 1;
        }
        let animation_file = String::from_str("animation/").concat(lab_file_name(self.model as u32).as_str());
        proof {
            let d = zero_padded(decimal(self.model as nat), 4);
            assert(("animation/"@ + d) + ".lab"@ =~= "animation/"@ + (d + ".lab"@));
        }
        CharacterGltfLayout { model_files, mesh_names, animation_file, split_animations: split_animations && tables_present }
    }
}

/// Files written by a character import.
#[derive(Debug, Clone)]
pub struct ImportResult {
    pub animation_file: String,
    pub mesh_files: Vec<String>,
    pub mesh_count: usize,
}

/// Id of the model file written for mesh `i` of an imported model.
pub open spec fn import_mesh_id(model_id: int, i: int) -> int {
    model_id * 1000000 + i
}

/// The files an import of `mesh_count` meshes as model `model_id` writes:
/// one animation file and one model file per mesh.
pub fn import_file_names(model_id: u32, mesh_count: usize) -> (r: ImportResult)
    requires
        import_mesh_id(model_id as int, mesh_count as int) <= u32::MAX,
    ensures
        r.animation_file@ == zero_padded(decimal(model_id as nat), 4) + ".lab"@,
        r.mesh_count == mesh_count,
        r.mesh_files@.len() == mesh_count,
        forall|i: int| 0 <= i < mesh_count ==> #[trigger] r.mesh_files@[i]@ == model_id_text(import_mesh_id(model_id as int, i)) + ".lgo"@,
{
    let animation_file = lab_file_name(model_id);
    let mut mesh_files: Vec<String> = Vec::new();
    let mut i: usize = 0;
    while i < mesh_count
        invariant
            import_mesh_id(model_id as int, mesh_count as int) <= u32::MAX,
            i <= mesh_count,
            mesh_files@.len() == i,
            forall|k: int| 0 <= k < i ==> #[trigger] mesh_files@[k]@ == model_id_text(import_mesh_id(model_id as int, k)) + ".lgo"@,
        decreases mesh_count - i,
    {
        mesh_files.push(lgo_file_name(model_id * 1000000 + i as u32));
        i += 1;
    }
    ImportResult { animation_file, mesh_files, mesh_count }
}

/// The model file reported first by an import: that of mesh 0, or the name
/// mesh 0 would have when no mesh was written.
pub fn first_mesh_file(result: &ImportResult, model_id: u32) -> (r: String)
    requires
        import_mesh_id(model_id as int, 0) <= u32::MAX,
    ensures
        result.mesh_files@.len() > 0 ==> r@ == result.mesh_files@[0]@,
        result.mesh_files@.len() == 0 ==> r@ == model_id_text(import_mesh_id(model_id as int, 0)) + ".lgo"@,
{
    if result.mesh_files.len() > 0 {
        result.mesh_files[0].clone()
    } else {
        lgo_file_name(model_id * 1000000)
    }
}

/// Scene nodes of a character's glTF document of `node_count` nodes, whose
/// last `helper_count` nodes are helpers and the `mesh_count` before them
/// the skinned mesh nodes: the root bone (node 0), then the mesh nodes, then
/// the helper nodes.
pub open spec fn spec_scene_nodes(node_count: int, helper_count: int, mesh_count: int) -> Seq<u32> {
    let mesh_start = node_count - helper_count - mesh_count;
    let helper_start = node_count - helper_count;
    seq![0u32]
        + Seq::new(mesh_count as nat, |i: int| (mesh_start + i) as u32)
        + Seq::new(helper_count as nat, |i: int| (helper_start + i) as u32)
}

/// The scene node list of a character's glTF document.
pub fn scene_nodes(node_count: u32, helper_count: u32, mesh_count: u32) -> (r: Vec<u32>)
    requires
        helper_count + mesh_count <= node_count,
    ensures
        r@ == spec_scene_nodes(node_count as int, helper_count as int, mesh_count as int),
{
    let mut r: Vec<u32> = Vec::new();
    r.push(0);
    let mesh_start = node_count - helper_count - mesh_count;
    let mut i: u32 = 0;
    while i < mesh_count
        invariant
            helper_count + mesh_count <= node_count,
            mesh_start == node_count - helper_count - mesh_count,
            i <= mesh_count,
            r@ == seq![0u32] + Seq::new(i as nat, |k: int| (mesh_start + k) as u32),
        decreases mesh_count - i,
    {
        r.push(mesh_start + i);
        i += 1;
        assert(r@ =~= seq![0u32] + Seq::new(i as nat, |k: int| (mesh_start + k) as u32));
    }
    let helper_start = node_count - helper_count;
    let mut j: u32 = 0;
    while j < helper_count
        invariant
            helper_count + mesh_count <= node_count,
            mesh_start == node_count - helper_count - mesh_count,
            helper_start == node_count - helper_count,
            j <= helper_count,
            r@ == seq![0u32] + Seq::new(mesh_count as nat, |k: int| (mesh_start + k) as u32)
                + Seq::new(j as nat, |k: int| (helper_start + k) as u32),
        decreases helper_count - j,
    {
        r.push(helper_start + j);
        j += 1;
        assert(r@ =~= seq![0u32] + Seq::new(mesh_count as nat, |k: int| (mesh_start + k) as u32)
            + Seq::new(j as nat, |k: int| (helper_start + k) as u32));
    }
    r
}

} // verus!

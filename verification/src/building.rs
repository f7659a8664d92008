//! Layout of an exported building: the glTF materials, meshes, nodes, skins
//! and bone-animation samplers that the geometry objects of a scene model
//! become, and the indices at which they stand.
//!
//! Geometry objects are exported in order.  Each adds its materials (a
//! default one when it has none); one with primitives also adds a mesh, the
//! joint nodes of its bones, its own node, and a skin when it has bones.  The
//! root node, pushed last, holds the nodes of the geometry objects.

use vstd::prelude::*;
use crate::scene_model::{subset_material, NO_PARENT};
use crate::text::{decimal, push_decimal};

verus! {

/// The bone animation of a geometry object, as far as the layout needs it.
#[derive(Debug, Clone)]
pub struct BoneRig {
    /// Parent bone id of each bone ([`NO_PARENT`] for a root bone).
    pub parents: Vec<u32>,
    /// Bone count announced by the animation header.
    pub bone_num: u32,
    /// Number of keyframes.
    pub frame_num: u32,
    /// Number of per-bone keyframe tracks.
    pub keyframe_tracks: usize,
}

/// What the layout needs to know of a geometry object.
#[derive(Debug, Clone)]
pub struct GeomSummary {
    /// Number of materials of the object.
    pub material_count: usize,
    /// Number of glTF primitives its geometry gives (see `plan_primitives`).
    pub primitive_count: usize,
    /// Frame count of its node (matrix) animation, when it has one.
    pub anim_frames: Option<u32>,
    /// Its bone animation, when it has one.
    pub rig: Option<BoneRig>,
}

/// Where a skinned geometry object's skin, joints and bone samplers stand.
#[derive(Debug, Clone, Copy)]
pub struct SkinLayout {
    /// Index of the skin.
    pub skin: u32,
    /// Node index of the first joint; the joints are consecutive, in bone order.
    pub first_joint: u32,
    /// Number of joint nodes (one per bone).
    pub joints: u32,
    /// Index of the first bone-animation sampler of this object.
    pub sampler_offset: u32,
    /// Number of bones with a translation and a rotation channel.
    pub animated_bones: u32,
}

/// Where a geometry object's materials, mesh and node stand.
#[derive(Debug, Clone)]
pub struct GeomLayout {
    /// Index of the object's first material.
    pub material_base: u32,
    /// Names of the materials the object adds, in order.
    pub material_names: Vec<String>,
    /// Index of its mesh; `None` when it has no primitives and is skipped.
    pub mesh: Option<u32>,
    /// Index of its node; `None` when it is skipped.
    pub node: Option<u32>,
    /// Its skin, when it is placed and has bones.
    pub skin: Option<SkinLayout>,
}

/// One channel of the merged bone animation.
#[derive(Debug, Clone, Copy, PartialEq, Eq, Structural)]
pub struct BoneChannel {
    /// The sampler it reads.
    pub sampler: u32,
    /// The joint node it animates.
    pub node: u32,
    /// Whether it animates the rotation (else the translation).
    pub rotation: bool,
}

/// The layout of an exported building.
#[derive(Debug, Clone)]
pub struct BuildingLayout {
    /// One entry per geometry object, in order.
    pub geoms: Vec<GeomLayout>,
    /// Children of the root node: the nodes of the placed geometry objects.
    pub children: Vec<u32>,
    /// Nodes that get a translation and a rotation channel in the node
    /// animation; entry `j` reads samplers `2j` (translation) and `2j + 1` (rotation).
    pub animated_nodes: Vec<u32>,
    /// Channels of the merged bone animation, one sampler each.
    pub bone_channels: Vec<BoneChannel>,
    /// Index of the root node, pushed after every other node.
    pub root: u32,
}

// ---------------------------------------------------------------------------
// Per-object counts
// ---------------------------------------------------------------------------

/// Joint nodes of an object: one per bone when it has a bone animation.
pub open spec fn joint_count(g: GeomSummary) -> nat {
    match g.rig {
        Some(r) => r.parents@.len(),
        None => 0,
    }
}

/// An object with primitives is placed (gets a mesh and a node).
pub open spec fn placed(g: GeomSummary) -> bool {
    g.primitive_count > 0
}

/// An object is skinned when it has a bone animation with at least one bone.
pub open spec fn skinned(g: GeomSummary) -> bool {
    joint_count(g) > 0
}

/// Materials an object adds: its own, or one default material.
pub open spec fn material_slots(g: GeomSummary) -> nat {
    if g.material_count == 0 { 1 } else { g.material_count as nat }
}

/// Bones that get channels: with more than one frame, the keyframe tracks,
/// at most as many as the header's bone count.
pub open spec fn animated_bone_count(g: GeomSummary) -> nat {
    match g.rig {
        Some(r) => if r.parents@.len() > 0 && r.frame_num > 1 {
            if r.keyframe_tracks <= r.bone_num { r.keyframe_tracks as nat } else { r.bone_num as nat }
        } else {
            0
        },
        None => 0,
    }
}

/// An object whose node animation has frames gets node-animation channels.
pub open spec fn node_animated(g: GeomSummary) -> bool {
    g.anim_frames matches Some(f) && f > 0
}

// ---------------------------------------------------------------------------
// Counts over the first objects
// ---------------------------------------------------------------------------

/// Materials added by the first `n` objects.
pub open spec fn materials_before(gs: Seq<GeomSummary>, n: int) -> nat
    decreases n,
{
    if n <= 0 { 0 } else { materials_before(gs, n - 1) + material_slots(gs[n - 1]) }
}

/// Meshes added by the first `n` objects.
pub open spec fn meshes_before(gs: Seq<GeomSummary>, n: int) -> nat
    decreases n,
{
    if n <= 0 { 0 } else { meshes_before(gs, n - 1) + if placed(gs[n - 1]) { 1nat } else { 0nat } }
}

/// Nodes (joints and object nodes) added by the first `n` objects.
pub open spec fn nodes_before(gs: Seq<GeomSummary>, n: int) -> nat
    decreases n,
{
    if n <= 0 {
        0
    } else {
        nodes_before(gs, n - 1) + if placed(gs[n - 1]) { joint_count(gs[n - 1]) + 1 } else { 0nat }
    }
}

/// Skins added by the first `n` objects.
pub open spec fn skins_before(gs: Seq<GeomSummary>, n: int) -> nat
    decreases n,
{
    if n <= 0 {
        0
    } else {
        skins_before(gs, n - 1) + if placed(gs[n - 1]) && skinned(gs[n - 1]) { 1nat } else { 0nat }
    }
}

/// Bone-animation samplers added by the first `n` objects.
pub open spec fn bone_samplers_before(gs: Seq<GeomSummary>, n: int) -> nat
    decreases n,
{
    if n <= 0 {
        0
    } else {
        bone_samplers_before(gs, n - 1) + if placed(gs[n - 1]) { 2 * animated_bone_count(gs[n - 1]) } else { 0nat }
    }
}

/// Node index of object `g` when it is placed: after its joint nodes.
pub open spec fn geom_node(gs: Seq<GeomSummary>, g: int) -> nat {
    nodes_before(gs, g) + joint_count(gs[g])
}

/// Nodes of the placed objects among the first `n`, in order.
pub open spec fn placed_nodes(gs: Seq<GeomSummary>, n: int) -> Seq<u32>
    decreases n,
{
    if n <= 0 {
        Seq::empty()
    } else if placed(gs[n - 1]) {
        placed_nodes(gs, n - 1).push(geom_node(gs, n - 1) as u32)
    } else {
        placed_nodes(gs, n - 1)
    }
}

/// Nodes of the placed, node-animated objects among the first `n`, in order.
pub open spec fn animated_nodes(gs: Seq<GeomSummary>, n: int) -> Seq<u32>
    decreases n,
{
    if n <= 0 {
        Seq::empty()
    } else if placed(gs[n - 1]) && node_animated(gs[n - 1]) {
        animated_nodes(gs, n - 1).push(geom_node(gs, n - 1) as u32)
    } else {
        animated_nodes(gs, n - 1)
    }
}

/// Name of material `mi` of object `g`: `geom<g>_mat<mi>`, or
/// `geom<g>_default_mat` for the default material of an object without materials.
pub open spec fn material_name_at(g: nat, material_count: nat, mi: nat) -> Seq<char> {
    if material_count == 0 {
        "geom"@ + decimal(g) + "_default_mat"@
    } else {
        "geom"@ + decimal(g) + "_mat"@ + decimal(mi)
    }
}

/// The layout of object `g`.
pub open spec fn geom_layout_matches(gs: Seq<GeomSummary>, g: int, l: GeomLayout) -> bool {
    let s = gs[g];
    &&& l.material_base == materials_before(gs, g)
    &&& l.material_names@.len() == material_slots(s)
    &&& forall|mi: int| 0 <= mi < material_slots(s) ==> #[trigger] l.material_names@[mi]@
        == material_name_at(g as nat, s.material_count as nat, mi as nat)
    &&& placed(s) ==> l.mesh == Some(meshes_before(gs, g) as u32) && l.node == Some(geom_node(gs, g) as u32)
    &&& !placed(s) ==> l.mesh is None && l.node is None
    &&& (placed(s) && skinned(s)) ==> l.skin == Some(SkinLayout {
        skin: skins_before(gs, g) as u32,
        first_joint: nodes_before(gs, g) as u32,
        joints: joint_count(s) as u32,
        sampler_offset: bone_samplers_before(gs, g) as u32,
        animated_bones: animated_bone_count(s) as u32,
    })
    &&& !(placed(s) && skinned(s)) ==> l.skin is None
}

/// Channel `k` of the bone animation of object `g`: bone `k / 2`,
/// translation then rotation, reading the sampler at its own position.
pub open spec fn bone_channel_of(gs: Seq<GeomSummary>, g: int, k: int) -> BoneChannel {
    BoneChannel {
        sampler: (bone_samplers_before(gs, g) + k) as u32,
        node: (nodes_before(gs, g) + k / 2) as u32,
        rotation: k % 2 == 1,
    }
}

/// A bone rig the exporter can walk: every parent below the header's bone
/// count is a bone, and the animated keyframe tracks have bones.
pub open spec fn rig_fits(r: BoneRig) -> bool {
    &&& forall|b: int| 0 <= b < r.parents@.len() && #[trigger] r.parents@[b] != NO_PARENT && r.parents@[b] < r.bone_num
        ==> r.parents@[b] < r.parents@.len()
    &&& (r.parents@.len() > 0 && r.frame_num > 1) ==> (
        if r.keyframe_tracks <= r.bone_num { r.keyframe_tracks as int } else { r.bone_num as int }) <= r.parents@.len()
}

/// The layout's indices fit in `u32` and every rig can be walked.
pub open spec fn layout_fits(gs: Seq<GeomSummary>) -> bool {
    &&& materials_before(gs, gs.len() as int) <= u32::MAX
    &&& nodes_before(gs, gs.len() as int) < u32::MAX
    &&& bone_samplers_before(gs, gs.len() as int) <= u32::MAX
    &&& forall|g: int| 0 <= g < gs.len() ==> (#[trigger] gs[g].rig matches Some(r) ==> rig_fits(r))
    &&& gs.len() <= u32::MAX
}

proof fn lemma_before_monotone(gs: Seq<GeomSummary>, a: int, b: int)
    requires
        0 <= a <= b,
    ensures
        materials_before(gs, a) <= materials_before(gs, b),
        meshes_before(gs, a) <= meshes_before(gs, b),
        nodes_before(gs, a) <= nodes_before(gs, b),
        skins_before(gs, a) <= skins_before(gs, b),
        bone_samplers_before(gs, a) <= bone_samplers_before(gs, b),
    decreases b - a,
{
    if a < b {
        lemma_before_monotone(gs, a, b - 1);
    }
}

proof fn lemma_counts_bounded(gs: Seq<GeomSummary>, n: int)
    requires
        0 <= n,
    ensures
        skins_before(gs, n) <= meshes_before(gs, n) <= n,
    decreases n,
{
    if n > 0 {
        lemma_counts_bounded(gs, n - 1);
    }
}

/// Index layout of the objects' later entries: the mesh, skin, node and
/// joints of a placed object come before those of every later object and
/// before the totals (the root node, the mesh, skin and sampler counts), and
/// every material index its primitives use lies among its own materials.
pub proof fn building_layout_indices_ordered(gs: Seq<GeomSummary>, g: int, h: int, si: int)
    requires
        0 <= g < h <= gs.len(),
        placed(gs[g]),
        0 <= si,
        materials_before(gs, gs.len() as int) <= u32::MAX,
    ensures
        materials_before(gs, g) <= subset_material(si, gs[g].material_count as int, materials_before(gs, g) as u32)
            < materials_before(gs, g + 1) <= materials_before(gs, h),
        meshes_before(gs, g) < meshes_before(gs, h),
        nodes_before(gs, g) <= geom_node(gs, g) < nodes_before(gs, h),
        skinned(gs[g]) ==> skins_before(gs, g) < skins_before(gs, h),
        bone_samplers_before(gs, g) + 2 * animated_bone_count(gs[g]) <= bone_samplers_before(gs, h),
{
    lemma_before_monotone(gs, g + 1, h);
    lemma_before_monotone(gs, g + 1, gs.len() as int);
}

// ---------------------------------------------------------------------------
// Planning
// ---------------------------------------------------------------------------

fn material_names_of(g: u32, material_count: usize) -> (r: Vec<String>)
    ensures
        r@.len() == (if material_count == 0 { 1 } else { material_count as int }),
        forall|mi: int| 0 <= mi < r@.len() ==> #[trigger] r@[mi]@
            == material_name_at(g as nat, material_count as nat, mi as nat),
{
    let mut r: Vec<String> = Vec::new();
    if material_count == 0 {
        let mut s = String::from_str("geom");
        push_decimal(&mut s, g as u64);
        s.append("_default_mat");
        r.push(s);
        return r;
    }
    let mut mi: usize = 0;
    while mi < material_count
        invariant
            material_count > 0,
            mi <= material_count,
            r@.len() == mi,
            forall|k: int| 0 <= k < mi ==> #[trigger] r@[k]@ == material_name_at(g as nat, material_count as nat, k as nat),
        decreases material_count - mi,
    {
        let mut s = String::from_str("geom");
        push_decimal(&mut s, g as u64);
        s.append("_mat");
        push_decimal(&mut s, mi as u64);
        r.push(s);
        mi += 1;
    }
    r
}

/// Plans the export of a building's geometry objects (see
/// [`geom_layout_matches`]).  Fails, as the exporter does, when no object
/// has primitives.
pub fn plan_building(geoms: &Vec<GeomSummary>) -> (r: Result<BuildingLayout, String>)
    requires
        layout_fits(geoms@),
    ensures
        r is Err <==> meshes_before(geoms@, geoms@.len() as int) == 0,
        r matches Err(e) ==> e@ == "No renderable geometry in LMO file"@,
        r matches Ok(l) ==> {
            &&& l.geoms@.len() == geoms@.len()
            &&& forall|g: int| 0 <= g < geoms@.len() ==> #[trigger] geom_layout_matches(geoms@, g, l.geoms@[g])
            &&& l.children@ == placed_nodes(geoms@, geoms@.len() as int)
            &&& l.animated_nodes@ == animated_nodes(geoms@, geoms@.len() as int)
            &&& l.root == nodes_before(geoms@, geoms@.len() as int)
            &&& l.bone_channels@.len() == bone_samplers_before(geoms@, geoms@.len() as int)
            &&& forall|i: int| 0 <= i < l.bone_channels@.len() ==> #[trigger] l.bone_channels@[i].sampler == i
            &&& forall|g: int, k: int| 0 <= g < geoms@.len() && placed(geoms@[g]) && 0 <= k < 2 * animated_bone_count(geoms@[g])
                ==> l.bone_channels@[bone_samplers_before(geoms@, g) + k] == #[trigger] bone_channel_of(geoms@, g, k)
        },
{
    let ghost gs = geoms@;
    let n = geoms.len();
    let mut out: Vec<GeomLayout> = Vec::new();
    let mut children: Vec<u32> = Vec::new();
    let mut animated: Vec<u32> = Vec::new();
    let mut channels: Vec<BoneChannel> = Vec::new();
    let mut materials: u32 = 0;
    let mut meshes: u32 = 0;
    let mut nodes: u32 = 0;
    let mut skins: u32 = 0;
    let mut gi: usize = 0;
    while gi < n
        invariant
            gs == geoms@,
            n == gs.len(),
            layout_fits(gs),
            gi <= n,
            out@.len() == gi,
            forall|g: int| 0 <= g < gi ==> #[trigger] geom_layout_matches(gs, g, out@[g]),
            materials == materials_before(gs, gi as int),
            meshes == meshes_before(gs, gi as int),
            nodes == nodes_before(gs, gi as int),
            skins == skins_before(gs, gi as int),
            channels@.len() == bone_samplers_before(gs, gi as int),
            children@ == placed_nodes(gs, gi as int),
            children@.len() == meshes,
            animated@ == animated_nodes(gs, gi as int),
            forall|i: int| 0 <= i < channels@.len() ==> #[trigger] channels@[i].sampler == i,
            forall|g: int, k: int| 0 <= g < gi && placed(gs[g]) && 0 <= k < 2 * animated_bone_count(gs[g])
                ==> channels@[bone_samplers_before(gs, g) + k] == #[trigger] bone_channel_of(gs, g, k),
        decreases n - gi,
    {
        proof {
            lemma_before_monotone(gs, gi + 1, n as int);
            lemma_before_monotone(gs, gi as int, gi + 1);
            lemma_counts_bounded(gs, gi + 1);
        }
        let geom = &geoms[gi];
        let names = material_names_of(gi as u32, geom.material_count);
        let material_base = materials;
        let slots: u32 = if geom.material_count == 0 { 1 } else { geom.material_count as u32 };
        materials = materials + slots;
        if geom.primitive_count == 0 {
            out.push(GeomLayout { material_base, material_names: names, mesh: None, node: None, skin: None });
            gi += 1;
            continue;
        }
        let mesh = meshes;
        meshes = meshes + 1;
        let first_joint = nodes;
        let joints: u32 = match &geom.rig {
            Some(r) => r.parents.len() as u32,
            None => 0,
        };
        let node = first_joint + joints;
        nodes = node + 1;
        children.push(node);
        let anim = match geom.anim_frames {
            Some(f) => f > 0,
            None => false,
        };
        if anim {
            animated.push(node);
        }
        let ghost ch0 = channels@;
        proof {
            if geom.rig is Some {
                assert(rig_fits(gs[gi as int].rig->0));
            }
        }
        let skin = if joints > 0 {
            let tracks: u32 = match &geom.rig {
                Some(r) => if r.frame_num > 1 {
                    if r.keyframe_tracks <= r.bone_num as usize { r.keyframe_tracks as u32 } else { r.bone_num }
                } else {
                    0
                },
                None => 0,
            };
            let offset = channels.len() as u32;
            let mut k: u32 = 0;
            while k < 2 * tracks
                invariant
                    gs == geoms@,
                    gi < n,
                    n == gs.len(),
                    placed(gs[gi as int]),
                    tracks == animated_bone_count(gs[gi as int]),
                    offset == bone_samplers_before(gs, gi as int),
                    first_joint == nodes_before(gs, gi as int),
                    bone_samplers_before(gs, gi + 1) <= u32::MAX,
                    bone_samplers_before(gs, gi + 1) == offset + 2 * tracks,
                    k <= 2 * tracks,
                    channels@.len() == offset + k,
                    channels@.subrange(0, offset as int) == ch0,
                    forall|j: int| 0 <= j < k ==> #[trigger] channels@[offset + j] == bone_channel_of(gs, gi as int, j),
                    forall|i: int| 0 <= i < channels@.len() ==> #[trigger] channels@[i].sampler == i,
                    nodes_before(gs, gi + 1) < u32::MAX,
                    nodes_before(gs, gi + 1) == first_joint + joint_count(gs[gi as int]) + 1,
                    tracks <= joint_count(gs[gi as int]),
                decreases 2 * tracks - k,
            {
                let c = BoneChannel { sampler: offset + k, node: first_joint + k / 2, rotation: k % 2 == 1 };
                let ghost before = channels@;
                channels.push(c);
                assert(channels@.subrange(0, offset as int) =~= before.subrange(0, offset as int));
                k += 1;
            }
            Some(SkinLayout { skin: skins, first_joint, joints, sampler_offset: offset, animated_bones: tracks })
        } else {
            None
        };
        if joints > 0 {
            skins = skins + 1;
        }
        proof {
            assert forall|g: int, k: int| 0 <= g < gi + 1 && placed(gs[g]) && 0 <= k < 2 * animated_bone_count(gs[g])
                implies channels@[bone_samplers_before(gs, g) + k] == #[trigger] bone_channel_of(gs, g, k) by {
                if g < gi {
                    lemma_before_monotone(gs, g + 1, gi as int);
                    assert(channels@[bone_samplers_before(gs, g) + k] == ch0[bone_samplers_before(gs, g) + k]);
                }
            }
        }
        out.push(GeomLayout { material_base, material_names: names, mesh: Some(mesh), node: Some(node), skin });
        gi += 1;
    }
    if children.len() == 0 {
        return Err(String::from_str("No renderable geometry in LMO file"));
    }
    Ok(BuildingLayout { geoms: out, children, animated_nodes: animated, bone_channels: channels, root: nodes })
}

// ---------------------------------------------------------------------------
// Map models
// ---------------------------------------------------------------------------

/// Name of material `mi` of geometry object `g` of map model `obj_id`:
/// `obj<id>_<g>_mat<mi>`, or `obj<id>_<g>_mat` for the default material of
/// an object without materials.
pub open spec fn map_material_name_at(obj_id: nat, g: nat, material_count: nat, mi: nat) -> Seq<char> {
    let prefix = "obj"@ + decimal(obj_id) + "_"@ + decimal(g) + "_mat"@;
    if material_count == 0 { prefix } else { prefix + decimal(mi) }
}

/// Where the materials and the single mesh of a map model stand in the
/// shared document that collects all models of a map.
#[derive(Debug, Clone)]
pub struct MapModelLayout {
    /// Index of the first material of each geometry object.
    pub material_bases: Vec<u32>,
    /// Names of the materials each geometry object adds.
    pub material_names: Vec<Vec<String>>,
    /// Number of materials in the document after this model.
    pub materials_after: u32,
    /// Index of the model's mesh, which holds the primitives of all its
    /// geometry objects; `None` when none has primitives.
    pub mesh: Option<u32>,
    /// Name of that mesh: `building_<id>`.
    pub mesh_name: String,
}

/// Plans how a map model is added to the shared document that already
/// holds `first_material` materials and `first_mesh` meshes.
pub fn plan_map_model(obj_id: u32, geoms: &Vec<GeomSummary>, first_material: u32, first_mesh: u32) -> (r: MapModelLayout)
    requires
        first_material + materials_before(geoms@, geoms@.len() as int) <= u32::MAX,
        geoms@.len() <= u32::MAX,
    ensures
        r.material_bases@.len() == geoms@.len(),
        r.material_names@.len() == geoms@.len(),
        forall|g: int| 0 <= g < geoms@.len() ==> {
            &&& #[trigger] r.material_bases@[g] == first_material + materials_before(geoms@, g)
            &&& r.material_names@[g]@.len() == material_slots(geoms@[g])
            &&& forall|mi: int| 0 <= mi < material_slots(geoms@[g]) ==> #[trigger] r.material_names@[g]@[mi]@
                == map_material_name_at(obj_id as nat, g as nat, geoms@[g].material_count as nat, mi as nat)
        },
        r.materials_after == first_material + materials_before(geoms@, geoms@.len() as int),
        r.mesh == (if meshes_before(geoms@, geoms@.len() as int) > 0 { Some(first_mesh) } else { None::<u32> }),
        r.mesh_name@ == "building_"@ + decimal(obj_id as nat),
{
    let ghost gs = geoms@;
    let n = geoms.len();
    let mut bases: Vec<u32> = Vec::new();
    let mut names: Vec<Vec<String>> = Vec::new();
    let mut materials: u32 = first_material;
    let mut any_primitives = false;
    let mut gi: usize = 0;
    while gi < n
        invariant
            gs == geoms@,
            n == gs.len(),
            n <= u32::MAX,
            first_material + materials_before(gs, n as int) <= u32::MAX,
            gi <= n,
            bases@.len() == gi,
            names@.len() == gi,
            materials == first_material + materials_before(gs, gi as int),
            any_primitives == (meshes_before(gs, gi as int) > 0),
            forall|g: int| 0 <= g < gi ==> {
                &&& #[trigger] bases@[g] == first_material + materials_before(gs, g)
                &&& names@[g]@.len() == material_slots(gs[g])
                &&& forall|mi: int| 0 <= mi < material_slots(gs[g]) ==> #[trigger] names@[g]@[mi]@
                    == map_material_name_at(obj_id as nat, g as nat, gs[g].material_count as nat, mi as nat)
            },
        decreases n - gi,
    {
        proof {
            lemma_before_monotone(gs, gi + 1, n as int);
        }
        let geom = &geoms[gi];
        let count = geom.material_count;
        let mut list: Vec<String> = Vec::new();
        let mut prefix = String::from_str("obj");
        push_decimal(&mut prefix, obj_id as u64);
        prefix.append("_");
        push_decimal(&mut prefix, gi as u64);
        prefix.append("_mat");
        if count == 0 {
            list.push(prefix);
        } else {
            let mut mi: usize = 0;
            while mi < count
                invariant
                    count > 0,
                    mi <= count,
                    list@.len() == mi,
                    prefix@ == "obj"@ + decimal(obj_id as nat) + "_"@ + decimal(gi as nat) + "_mat"@,
                    forall|k: int| 0 <= k < mi ==> #[trigger] list@[k]@
                        == map_material_name_at(obj_id as nat, gi as nat, count as nat, k as nat),
                decreases count - mi,
            {
                let mut s = prefix.clone();
                push_decimal(&mut s, mi as u64);
                list.push(s);
                mi += 1;
            }
        }
        bases.push(materials);
        names.push(list);
        materials = materials + if count == 0 { 1u32 } else { count as u32 };
        if geom.primitive_count > 0 {
            any_primitives = true;
        }
        gi += 1;
    }
    let mut mesh_name = String::from_str("building_");
    push_decimal(&mut mesh_name, obj_id as u64);
    MapModelLayout {
        material_bases: bases,
        material_names: names,
        materials_after: materials,
        mesh: if any_primitives { Some(first_mesh) } else { None },
        mesh_name,
    }
}

} // verus!

//! The buffer, buffer view and accessor tables of a glTF document under
//! construction.  Every block of data goes into a buffer of its own,
//! embedded as a base64 data URI, with one view and one accessor over it.

use vstd::prelude::*;
use crate::scene_model::{
    all_fit_u16, encode_indices, le_bytes, octet_stream_data_uri, spec_octet_stream_data_uri, PlannedPrimitive,
    PlannedPrimitiveModel,
};
use crate::text::{decimal, push_decimal};

verus! {

/// glTF accessor element type.
#[derive(Debug, Clone, Copy, PartialEq, Eq, Structural)]
pub enum AccessorType {
    Scalar,
    Vec2,
    Vec3,
    Vec4,
    Mat4,
}

/// glTF accessor component type.
#[derive(Debug, Clone, Copy, PartialEq, Eq, Structural)]
pub enum ComponentType {
    U8,
    U16,
    U32,
    F32,
}

/// glTF buffer view target.
#[derive(Debug, Clone, Copy, PartialEq, Eq, Structural)]
pub enum BufferTarget {
    ArrayBuffer,
    ElementArrayBuffer,
}

/// A buffer embedded as a data URI.
#[derive(Debug, Clone)]
pub struct EmbeddedBuffer {
    pub name: String,
    pub uri: String,
    pub byte_length: usize,
}

/// A view over the whole of one buffer.
#[derive(Debug, Clone)]
pub struct BufferViewRecord {
    pub buffer: u32,
    pub byte_length: usize,
    pub target: BufferTarget,
    pub name: String,
}

/// An accessor over the whole of one view.  Bounds, when given, are the bit
/// patterns of `f32` values.
#[derive(Debug, Clone)]
pub struct AccessorRecord {
    pub buffer_view: u32,
    pub component_type: ComponentType,
    pub count: usize,
    pub accessor_type: AccessorType,
    pub name: String,
    pub min_bits: Option<Vec<u32>>,
    pub max_bits: Option<Vec<u32>>,
}

/// Mathematical value of an [`EmbeddedBuffer`].
pub struct EmbeddedBufferModel {
    pub name: Seq<char>,
    pub uri: Seq<char>,
    pub byte_length: usize,
}

/// Mathematical value of a [`BufferViewRecord`].
pub struct BufferViewModel {
    pub buffer: u32,
    pub byte_length: usize,
    pub target: BufferTarget,
    pub name: Seq<char>,
}

/// Mathematical value of an [`AccessorRecord`].
pub struct AccessorModel {
    pub buffer_view: u32,
    pub component_type: ComponentType,
    pub count: usize,
    pub accessor_type: AccessorType,
    pub name: Seq<char>,
    pub min_bits: Option<Seq<u32>>,
    pub max_bits: Option<Seq<u32>>,
}

/// The view of optional bounds.
pub open spec fn bounds_view(b: Option<Vec<u32>>) -> Option<Seq<u32>> {
    match b {
        Some(v) => Some(v@),
        None => None,
    }
}

impl View for EmbeddedBuffer {
    type V = EmbeddedBufferModel;

    open spec fn view(&self) -> EmbeddedBufferModel {
        EmbeddedBufferModel { name: self.name@, uri: self.uri@, byte_length: self.byte_length }
    }
}

impl View for BufferViewRecord {
    type V = BufferViewModel;

    open spec fn view(&self) -> BufferViewModel {
        BufferViewModel { buffer: self.buffer, byte_length: self.byte_length, target: self.target, name: self.name@ }
    }
}

impl View for AccessorRecord {
    type V = AccessorModel;

    open spec fn view(&self) -> AccessorModel {
        AccessorModel {
            buffer_view: self.buffer_view,
            component_type: self.component_type,
            count: self.count,
            accessor_type: self.accessor_type,
            name: self.name@,
            min_bits: bounds_view(self.min_bits),
            max_bits: bounds_view(self.max_bits),
        }
    }
}

/// The data tables of a glTF document under construction.
#[derive(Debug, Clone)]
pub struct GltfBuilder {
    pub buffers: Vec<EmbeddedBuffer>,
    pub buffer_views: Vec<BufferViewRecord>,
    pub accessors: Vec<AccessorRecord>,
}

/// Mathematical value of a [`GltfBuilder`].
pub struct GltfBuilderModel {
    pub buffers: Seq<EmbeddedBufferModel>,
    pub buffer_views: Seq<BufferViewModel>,
    pub accessors: Seq<AccessorModel>,
}

impl View for GltfBuilder {
    type V = GltfBuilderModel;

    open spec fn view(&self) -> GltfBuilderModel {
        GltfBuilderModel {
            buffers: self.buffers@.map_values(|b: EmbeddedBuffer| b@),
            buffer_views: self.buffer_views@.map_values(|v: BufferViewRecord| v@),
            accessors: self.accessors@.map_values(|a: AccessorRecord| a@),
        }
    }
}

/// The tables after `bytes` were added under `name`, read as `count`
/// elements of the given types through a view with the given target.
pub open spec fn with_embedded(
    b: GltfBuilderModel,
    bytes: Seq<u8>,
    name: Seq<char>,
    target: BufferTarget,
    component_type: ComponentType,
    count: usize,
    accessor_type: AccessorType,
    min_bits: Option<Seq<u32>>,
    max_bits: Option<Seq<u32>>,
) -> GltfBuilderModel {
    GltfBuilderModel {
        buffers: b.buffers.push(EmbeddedBufferModel {
            name: name + "_buffer"@,
            uri: spec_octet_stream_data_uri(bytes),
            byte_length: bytes.len() as usize,
        }),
        buffer_views: b.buffer_views.push(BufferViewModel {
            buffer: b.buffers.len() as u32,
            byte_length: bytes.len() as usize,
            target,
            name: name + "_view"@,
        }),
        accessors: b.accessors.push(AccessorModel {
            buffer_view: b.buffer_views.len() as u32,
            component_type,
            count,
            accessor_type,
            name: name + "_accessor"@,
            min_bits,
            max_bits,
        }),
    }
}

/// The tables are aligned: buffer `i`, view `i` and accessor `i` belong
/// together (view `i` covers all of buffer `i`, accessor `i` reads view `i`).
pub open spec fn tables_aligned(b: GltfBuilderModel) -> bool {
    &&& b.buffer_views.len() == b.buffers.len()
    &&& b.accessors.len() == b.buffers.len()
    &&& forall|i: int| 0 <= i < b.buffers.len() ==> {
        &&& (#[trigger] b.buffer_views[i]).buffer == i as u32
        &&& b.buffer_views[i].byte_length == b.buffers[i].byte_length
        &&& b.accessors[i].buffer_view == i as u32
    }
}

/// Adding data keeps the tables aligned, as long as their indices fit in `u32`.
pub proof fn adding_keeps_tables_aligned(
    b: GltfBuilderModel,
    bytes: Seq<u8>,
    name: Seq<char>,
    target: BufferTarget,
    component_type: ComponentType,
    count: usize,
    accessor_type: AccessorType,
    min_bits: Option<Seq<u32>>,
    max_bits: Option<Seq<u32>>,
)
    requires
        tables_aligned(b),
        b.buffers.len() < u32::MAX,
        bytes.len() <= usize::MAX,
    ensures
        tables_aligned(with_embedded(b, bytes, name, target, component_type, count, accessor_type, min_bits, max_bits)),
{
    let n = with_embedded(b, bytes, name, target, component_type, count, accessor_type, min_bits, max_bits);
    assert forall|i: int| 0 <= i < n.buffers.len() implies {
        &&& (#[trigger] n.buffer_views[i]).buffer == i as u32
        &&& n.buffer_views[i].byte_length == n.buffers[i].byte_length
        &&& n.accessors[i].buffer_view == i as u32
    } by {
        if i < b.buffers.len() {
            assert(n.buffer_views[i] == b.buffer_views[i]);
            assert(n.buffers[i] == b.buffers[i]);
            assert(n.accessors[i] == b.accessors[i]);
        }
    }
}

/// Name of the index accessor of a planned primitive: `<prefix>_idx`, or
/// `<prefix>_idx_s<subset>` for the primitive of a subset.
pub open spec fn index_accessor_name(prefix: Seq<char>, subset: Option<usize>) -> Seq<char> {
    match subset {
        Some(si) => prefix + "_idx_s"@ + decimal(si as nat),
        None => prefix + "_idx"@,
    }
}

/// The tables after the index accessors of the first `n` planned primitives
/// were added in order, each 16-bit when all its indices fit, else 32-bit.
pub open spec fn with_index_accessors(
    b: GltfBuilderModel,
    prims: Seq<PlannedPrimitiveModel>,
    prefix: Seq<char>,
    n: nat,
) -> GltfBuilderModel
    decreases n,
{
    if n == 0 {
        b
    } else {
        let prev = with_index_accessors(b, prims, prefix, (n - 1) as nat);
        let p = prims[n - 1];
        let short = all_fit_u16(p.indices);
        with_embedded(prev, le_bytes(p.indices, if short { 2 } else { 4 }), index_accessor_name(prefix, p.subset),
            BufferTarget::ElementArrayBuffer, if short { ComponentType::U16 } else { ComponentType::U32 },
            p.indices.len() as usize, AccessorType::Scalar, None, None)
    }
}

impl GltfBuilder {
    /// Adds the index accessors of a geometry object's planned primitives,
    /// in order; returns their accessor indices.
    pub fn add_primitive_index_accessors(&mut self, prims: &Vec<PlannedPrimitive>, prefix: &str) -> (r: Vec<u32>)
        requires
            forall|k: int| 0 <= k < prims@.len() ==> 4 * (#[trigger] prims@[k]).indices@.len() <= usize::MAX,
            old(self)@.accessors.len() + prims@.len() <= u32::MAX,
        ensures
            r@.len() == prims@.len(),
            forall|k: int| 0 <= k < prims@.len() ==> #[trigger] r@[k] == old(self)@.accessors.len() + k,
            final(self)@ == with_index_accessors(old(self)@, prims@.map_values(|p: PlannedPrimitive| p@),
                prefix@, prims@.len()),
    {
        let ghost start = self@;
        let ghost pm = prims@.map_values(|p: PlannedPrimitive| p@);
        let mut r: Vec<u32> = Vec::new();
        let mut k: usize = 0;
        while k < prims.len()
            invariant
                pm == prims@.map_values(|p: PlannedPrimitive| p@),
                start.accessors.len() + prims@.len() <= u32::MAX,
                forall|j: int| 0 <= j < prims@.len() ==> 4 * (#[trigger] prims@[j]).indices@.len() <= usize::MAX,
                k <= prims@.len(),
                r@.len() == k,
                forall|j: int| 0 <= j < k ==> #[trigger] r@[j] == start.accessors.len() + j,
                self@ == with_index_accessors(start, pm, prefix@, k as nat),
                self@.accessors.len() == start.accessors.len() + k,
            decreases prims@.len() - k,
        {
            let p = &prims[k];
            let mut name = String::from_str(prefix);
            match p.subset {
                Some(si) => {
                    name.append("_idx_s");
                    push_decimal(&mut name, si as u64);
                },
                None => {
                    name.append("_idx");
                },
            }
            assert(name@ == index_accessor_name(prefix@, pm[k as int].subset));
            let idx = self.add_index_accessor(&p.indices, name.as_str());
            r.push(idx);
            k += 1;
        }
        r
    }

    /// Empty tables.
    pub fn new() -> (b: Self)
        ensures
            tables_aligned(b@),
            b@.buffers.len() == 0,
            b@.buffer_views.len() == 0,
            b@.accessors.len() == 0,
    {
        let b = GltfBuilder { buffers: Vec::new(), buffer_views: Vec::new(), accessors: Vec::new() };
        assert(b@.buffers =~= Seq::empty());
        assert(b@.buffer_views =~= Seq::empty());
        assert(b@.accessors =~= Seq::empty());
        b
    }

    fn add_embedded(
        &mut self,
        bytes: &Vec<u8>,
        name: &str,
        target: BufferTarget,
        component_type: ComponentType,
        count: usize,
        accessor_type: AccessorType,
        min_bits: Option<Vec<u32>>,
        max_bits: Option<Vec<u32>>,
    ) -> (idx: u32)
        ensures
            idx == old(self)@.accessors.len() as u32,
            final(self)@ == with_embedded(old(self)@, bytes@, name@, target, component_type, count,
                accessor_type, bounds_view(min_bits), bounds_view(max_bits)),
    {
        let buf_idx = self.buffers.len();
        let bv_idx = self.buffer_views.len();
        let acc_idx = self.accessors.len();
        let ghost before = self@;
        let buffer = EmbeddedBuffer {
            name: String::from_str(name).concat("_buffer"),
            uri: octet_stream_data_uri(bytes.as_slice()),
            byte_length: bytes.len(),
        };
        let view = BufferViewRecord {
            buffer: buf_idx as u32,
            byte_length: bytes.len(),
            target,
            name: String::from_str(name).concat("_view"),
        };
        let accessor = AccessorRecord {
            buffer_view: bv_idx as u32,
            component_type,
            count,
            accessor_type,
            name: String::from_str(name).concat("_accessor"),
            min_bits,
            max_bits,
        };
        self.buffers.push(buffer);
        self.buffer_views.push(view);
        self.accessors.push(accessor);
        assert(self@.buffers =~= before.buffers.push(buffer@));
        assert(self@.buffer_views =~= before.buffer_views.push(view@));
        assert(self@.accessors =~= before.accessors.push(accessor@));
        acc_idx as u32
    }

    /// Adds single-precision data (given by bit patterns) read as elements of
    /// `components_per_element` values; returns the new accessor's index.
    pub fn add_accessor_f32(
        &mut self,
        data_bits: &[u32],
        name: &str,
        acc_type: AccessorType,
        components_per_element: usize,
        min_bits: Option<Vec<u32>>,
        max_bits: Option<Vec<u32>>,
    ) -> (idx: u32)
        requires
            components_per_element > 0,
            4 * data_bits@.len() <= usize::MAX,
        ensures
            idx == old(self)@.accessors.len() as u32,
            final(self)@ == with_embedded(old(self)@, le_bytes(data_bits@, 4), name@, BufferTarget::ArrayBuffer,
                ComponentType::F32, (data_bits@.len() as int / components_per_element as int) as usize, acc_type,
                bounds_view(min_bits), bounds_view(max_bits)),
    {
        let bytes = crate::scene_model::u32_le_bytes(data_bits);
        let count = data_bits.len() / components_per_element;
        self.add_embedded(&bytes, name, BufferTarget::ArrayBuffer, ComponentType::F32, count, acc_type, min_bits, max_bits)
    }

    /// Adds an index buffer: 16-bit when every index fits, else 32-bit;
    /// returns the new accessor's index.
    pub fn add_index_accessor(&mut self, indices: &Vec<u32>, name: &str) -> (idx: u32)
        requires
            4 * indices@.len() <= usize::MAX,
        ensures
            idx == old(self)@.accessors.len() as u32,
            ({
                let short = crate::scene_model::all_fit_u16(indices@);
                final(self)@ == with_embedded(old(self)@, le_bytes(indices@, if short { 2 } else { 4 }), name@,
                    BufferTarget::ElementArrayBuffer, if short { ComponentType::U16 } else { ComponentType::U32 },
                    indices@.len() as usize, AccessorType::Scalar, None, None)
            }),
    {
        let (bytes, short) = encode_indices(indices);
        let component_type = if short { ComponentType::U16 } else { ComponentType::U32 };
        self.add_embedded(&bytes, name, BufferTarget::ElementArrayBuffer, component_type, indices.len(),
            AccessorType::Scalar, None, None)
    }

    /// Adds byte data (such as joint indices) read as elements of
    /// `components_per_element` bytes; returns the new accessor's index.
    pub fn add_accessor_u8(
        &mut self,
        data: &[u8],
        name: &str,
        acc_type: AccessorType,
        components_per_element: usize,
    ) -> (idx: u32)
        requires
            components_per_element > 0,
        ensures
            idx == old(self)@.accessors.len() as u32,
            final(self)@ == with_embedded(old(self)@, data@, name@, BufferTarget::ArrayBuffer, ComponentType::U8,
                (data@.len() as int / components_per_element as int) as usize, acc_type, None, None),
    {
        let bytes = vstd::slice::slice_to_vec(data);
        let count = data.len() / components_per_element;
        self.add_embedded(&bytes, name, BufferTarget::ArrayBuffer, ComponentType::U8, count, acc_type, None, None)
    }
}

} // verus!

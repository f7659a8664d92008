//! Remapping from the game's left-handed Z-up frame to glTF's right-handed
//! Y-up frame: a Y/Z axis swap (determinant -1).
//!
//! The swizzles are generic over the component type, so they serve the
//! single-precision vectors of the exporters unchanged.

use vstd::prelude::*;

verus! {

/// The PKO → glTF coordinate transform.
pub struct CoordTransform;

/// Position of the index that takes the place of index `k` when the winding
/// of every triangle is reversed: the second and third corner swap.
pub open spec fn winding_partner(k: int) -> int {
    if k % 3 == 1 {
        k + 1
    } else if k % 3 == 2 {
        k - 1
    } else {
        k
    }
}

/// `indices` with the second and third corner of every triangle swapped.
pub open spec fn reversed_winding(indices: Seq<u32>) -> Seq<u32> {
    Seq::new(indices.len(), |k: int| indices[winding_partner(k)])
}

/// A three-component vector with its second and third components swapped.
pub open spec fn yz_swapped<T>(v: Seq<T>) -> Seq<T> {
    seq![v[0], v[2], v[1]]
}

/// Swapping the Y and Z axes twice gives back the vector: the remapping is
/// its own inverse.
pub proof fn yz_swap_involution<T>(v: Seq<T>)
    requires
        v.len() == 3,
    ensures
        yz_swapped(yz_swapped(v)) == v,
{
    assert(yz_swapped(yz_swapped(v)) =~= v);
}

impl CoordTransform {
    pub fn new() -> (ct: Self) {
        CoordTransform
    }

    /// Remaps a position or translation: `(x, y, z)` becomes `(x, z, y)`.
    pub fn position<T: Copy>(&self, v: [T; 3]) -> (r: [T; 3])
        ensures
            r@ == yz_swapped(v@),
    {
        let r = [v[0], v[2], v[1]];
        assert(r@ =~= seq![v@[0], v@[2], v@[1]]);
        r
    }

    /// Remaps a normal or tangent: the same swizzle as [`Self::position`].
    pub fn normal<T: Copy>(&self, v: [T; 3]) -> (r: [T; 3])
        ensures
            r@ == yz_swapped(v@),
    {
        self.position(v)
    }

    /// Remaps a position stored in glTF extras: the same swizzle as [`Self::position`].
    pub fn extras_position<T: Copy>(&self, v: [T; 3]) -> (r: [T; 3])
        ensures
            r@ == yz_swapped(v@),
    {
        let r = [v[0], v[2], v[1]];
        assert(r@ =~= seq![v@[0], v@[2], v@[1]]);
        r
    }

    /// Remaps a scale vector: axis swap without sign change.
    pub fn scale<T: Copy>(&self, v: [T; 3]) -> (r: [T; 3])
        ensures
            r@ == yz_swapped(v@),
    {
        let r = [v[0], v[2], v[1]];
        assert(r@ =~= seq![v@[0], v@[2], v@[1]]);
        r
    }

    /// Reverses the winding of every triangle (swaps its second and third
    /// index) to compensate for the reflection of the axis swap.
    pub fn reverse_indices(&self, indices: &mut [u32])
        requires
            old(indices)@.len() % 3 == 0,
        ensures
            final(indices)@ == reversed_winding(old(indices)@),
            final(indices)@.len() == old(indices)@.len(),
            forall|t: int|
                #![trigger final(indices)@[3 * t]]
                #![trigger final(indices)@[3 * t + 1]]
                #![trigger final(indices)@[3 * t + 2]]
                0 <= t < old(indices)@.len() / 3 ==> {
                &&& final(indices)@[3 * t] == old(indices)@[3 * t]
                &&& final(indices)@[3 * t + 1] == old(indices)@[3 * t + 2]
                &&& final(indices)@[3 * t + 2] == old(indices)@[3 * t + 1]
            },
    {
        let len = indices.len();
        let mut t: usize = 0;
        while t < len
            invariant
                len == indices@.len(),
                len == old(indices)@.len(),
                len % 3 == 0,
                t % 3 == 0,
                t <= len,
                forall|k: int| 0 <= k < t ==> #[trigger] indices@[k] == old(indices)@[winding_partner(k)],
                forall|k: int| t <= k < len ==> #[trigger] indices@[k] == old(indices)@[k],
            decreases len - t,
        {
            let a = indices[t + 1];
            let b = indices[t + 2];
            indices[t + 1] = b;
            indices[t + 2] = a;
            t += 3;
        }
        assert(indices@ =~= reversed_winding(old(indices)@));
        assert forall|t: int|
            #![trigger indices@[3 * t]]
            #![trigger indices@[3 * t + 1]]
            #![trigger indices@[3 * t + 2]]
            0 <= t < len / 3 implies {
            &&& indices@[3 * t] == old(indices)@[3 * t]
            &&& indices@[3 * t + 1] == old(indices)@[3 * t + 2]
            &&& indices@[3 * t + 2] == old(indices)@[3 * t + 1]
        } by {
            assert((3 * t + 1) % 3 == 1 && (3 * t + 2) % 3 == 2 && (3 * t) % 3 == 0);
        }
    }
}

/// Reversing the winding twice gives back the indices.
pub proof fn reversed_winding_involution(indices: Seq<u32>)
    requires
        indices.len() % 3 == 0,
    ensures
        reversed_winding(reversed_winding(indices)) == indices,
{
    assert(reversed_winding(reversed_winding(indices)) =~= indices);
}

/// Reversing the winding keeps the multiset of indices: every triangle keeps
/// its corners, only their order changes.
pub proof fn reversed_winding_keeps_triangles(indices: Seq<u32>, t: int)
    requires
        indices.len() % 3 == 0,
        0 <= t,
        3 * t + 3 <= indices.len(),
    ensures
        reversed_winding(indices)[3 * t] == indices[3 * t],
        reversed_winding(indices)[3 * t + 1] == indices[3 * t + 2],
        reversed_winding(indices)[3 * t + 2] == indices[3 * t + 1],
{
}

} // verus!

//! Voxels, material codes, and the uniform-row templates.

use vstd::prelude::*;

verus! {

/// Number of voxels along each axis of a chunk; a row holds this many voxels.
pub const VOXEL_ROW_SIZE: usize = 32;
/// Number of rows in a chunk, one per (y, z) pair.
pub const VOXEL_ROW_COUNT: usize = 32 * 32;
/// Number of voxels in a chunk.
pub const VOXEL_BOX_SIZE: usize = 32 * 32 * 32;

/// Material code for empty space; rendering treats it as a no-op.
pub const M_AIR: u8 = 0;
/// Material code for stone.
pub const M_STONE: u8 = 1;
/// Number of materials; every code below this bound has a uniform-row template.
pub const M_COUNT: u8 = 2;

/// A single voxel: a bare material code.
#[derive(Clone, Copy, PartialEq, Eq, Structural, Debug)]
pub struct Voxel {
    pub material: u8,
}

/// The uniform-row template for a material: `VOXEL_ROW_SIZE` voxels all
/// carrying that material.
pub open spec fn template_row(material: u8) -> Seq<Voxel> {
    Seq::new(VOXEL_ROW_SIZE as nat, |i: int| Voxel { material })
}

/// Materializes the uniform-row template for a material code.
pub fn uniform_row(material: u8) -> (r: Vec<Voxel>)
    ensures
        r@ == template_row(material),
{
    let mut r: Vec<Voxel> = Vec::new();
    while r.len() < VOXEL_ROW_SIZE
        invariant
            r@.len() <= VOXEL_ROW_SIZE,
            forall|i: int| 0 <= i < r@.len() ==> r@[i] == (Voxel { material }),
        decreases VOXEL_ROW_SIZE - r@.len(),
    {
        r.push(Voxel { material });
    }
    proof {
        assert(r@ =~= template_row(material));
    }
    r
}

} // verus!

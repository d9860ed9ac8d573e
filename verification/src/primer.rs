//! The uncompressed voxel field a chunk is built from.

use vstd::prelude::*;
use crate::voxel::{Voxel, M_AIR, M_STONE, VOXEL_BOX_SIZE, VOXEL_ROW_SIZE};

verus! {

/// A full, uncompressed voxel field: a cubic array of `VOXEL_ROW_SIZE`^3
/// voxels, addressed by (x, y, z) with each coordinate in [0, VOXEL_ROW_SIZE).
pub struct ChunkPrimer {
    pub data: Vec<Voxel>,
}

impl ChunkPrimer {
    /// The field holds exactly one voxel per cell of the cube.
    pub open spec fn wf(self) -> bool {
        self.data@.len() == VOXEL_BOX_SIZE
    }

    /// The voxel stored at coordinates (x, y, z).
    pub open spec fn voxel_at(self, x: int, y: int, z: int) -> Voxel {
        self.data@[z * 1024 + y * 32 + x]
    }

    /// The row at (y, z): the `VOXEL_ROW_SIZE` voxels with varying x.
    pub open spec fn row_seq(self, y: int, z: int) -> Seq<Voxel> {
        self.data@.subrange(z * 1024 + y * 32, z * 1024 + y * 32 + 32)
    }

    /// Wraps a flat voxel array as a field.
    pub fn from_data(data: Vec<Voxel>) -> (r: Self)
        requires
            data@.len() == VOXEL_BOX_SIZE,
        ensures
            r.wf(),
            r.data == data,
    {
        Self { data }
    }

    /// Flat index of the voxel at (x, y, z).
    pub fn get_index(x: usize, y: usize, z: usize) -> (idx: usize)
        requires
            x < VOXEL_ROW_SIZE,
            y < VOXEL_ROW_SIZE,
            z < VOXEL_ROW_SIZE,
        ensures
            idx == z * 1024 + y * 32 + x,
            idx < VOXEL_BOX_SIZE,
    {
        z * 1024 + y * 32 + x
    }

    /// Copies out the row at (y, z).
    pub fn get_row(&self, y: usize, z: usize) -> (r: Vec<Voxel>)
        requires
            self.wf(),
            y < VOXEL_ROW_SIZE,
            z < VOXEL_ROW_SIZE,
        ensures
            r@ == self.row_seq(y as int, z as int),
            r@.len() == VOXEL_ROW_SIZE,
    {
        let idx = Self::get_index(0, y, z);
        let mut r: Vec<Voxel> = Vec::new();
        let mut i: usize = 0;
        while i < VOXEL_ROW_SIZE
            invariant
                self.wf(),
                i <= VOXEL_ROW_SIZE,
                idx == z * 1024 + y * 32,
                idx + VOXEL_ROW_SIZE <= VOXEL_BOX_SIZE,
                r@.len() == i,
                forall|j: int| 0 <= j < i ==> r@[j] == self.data@[idx + j],
            decreases VOXEL_ROW_SIZE - i,
        {
            r.push(self.data[idx + i]);
            i += 1;
        }
        proof {
            assert(r@ =~= self.row_seq(y as int, z as int));
        }
        r
    }
}

/// The material the world generator places at flat index `i` of the field,
/// given a 32x32 height map indexed by [z * 32 + x]: stone strictly below the
/// column's height, air above it.
pub open spec fn generated_voxel(heights: Seq<usize>, i: int) -> Voxel {
    let x = (i % 1024) % 32;
    let y = (i % 1024) / 32;
    let z = i / 1024;
    if y < heights[z * 32 + x] {
        Voxel { material: M_STONE }
    } else {
        Voxel { material: M_AIR }
    }
}

} // verus!

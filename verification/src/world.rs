//! The world generator: fills a voxel field from a 32x32 height map and
//! compresses it into a chunk. The height map itself comes from a
//! replaceable noise source outside this crate; only plain column heights
//! enter here.

use vstd::prelude::*;
use vstd::arithmetic::div_mod::lemma_fundamental_div_mod_converse;
use crate::chunk::Chunk;
use crate::primer::{generated_voxel, ChunkPrimer};
use crate::voxel::{Voxel, M_AIR, M_STONE, VOXEL_BOX_SIZE, VOXEL_ROW_COUNT, VOXEL_ROW_SIZE};

verus! {

/// Fills voxel fields from a height map.
pub struct WorldGenerator;

impl WorldGenerator {
    /// Builds the voxel field for a 32x32 height map, one column per (x, z):
    /// every voxel strictly below the column's height is stone, the rest air.
    pub fn generate_chunk_primer(heights: &Vec<usize>) -> (r: ChunkPrimer)
        requires
            heights@.len() == VOXEL_ROW_COUNT,
            forall|i: int| 0 <= i < VOXEL_ROW_COUNT ==> heights@[i] <= VOXEL_ROW_SIZE,
        ensures
            r.wf(),
            forall|x: int, y: int, z: int|
                0 <= x < 32 && 0 <= y < 32 && 0 <= z < 32 ==>
                    r.voxel_at(x, y, z)
                        == (if y < heights@[z * 32 + x] {
                            Voxel { material: M_STONE }
                        } else {
                            Voxel { material: M_AIR }
                        }),
    {
        let mut data: Vec<Voxel> = Vec::new();
        let mut i: usize = 0;
        while i < VOXEL_BOX_SIZE
            invariant
                heights@.len() == VOXEL_ROW_COUNT,
                i <= VOXEL_BOX_SIZE,
                data@.len() == i,
                forall|j: int| 0 <= j < i ==> data@[j] == generated_voxel(heights@, j),
            decreases VOXEL_BOX_SIZE - i,
        {
            let x = (i % 1024) % 32;
            let y = (i % 1024) / 32;
            let z = i / 1024;
            if y < heights[z * 32 + x] {
                data.push(Voxel { material: M_STONE });
            } else {
                data.push(Voxel { material: M_AIR });
            }
            i += 1;
        }
        let r = ChunkPrimer::from_data(data);
        proof {
            assert forall|x: int, y: int, z: int|
                0 <= x < 32 && 0 <= y < 32 && 0 <= z < 32 implies
                r.voxel_at(x, y, z)
                    == (if y < heights@[z * 32 + x] {
                        Voxel { material: M_STONE }
                    } else {
                        Voxel { material: M_AIR }
                    }) by {
                let i = z * 1024 + y * 32 + x;
                lemma_fundamental_div_mod_converse(i, 1024, z, y * 32 + x);
                lemma_fundamental_div_mod_converse(y * 32 + x, 32, y, x);
                assert(r.voxel_at(x, y, z) == generated_voxel(heights@, i));
            }
        }
        r
    }

    /// Generates a full chunk: fills the field for the height map and
    /// compresses it. Every decoded row voxel is stone exactly where it lies
    /// strictly below its column's height.
    pub fn generate_chunk(heights: &Vec<usize>) -> (c: Chunk)
        requires
            heights@.len() == VOXEL_ROW_COUNT,
            forall|i: int| 0 <= i < VOXEL_ROW_COUNT ==> heights@[i] <= VOXEL_ROW_SIZE,
        ensures
            c.wf(),
            forall|x: int, y: int, z: int|
                0 <= x < 32 && 0 <= y < 32 && 0 <= z < 32 ==>
                    c.row_seq(y, z)[x]
                        == (if y < heights@[z * 32 + x] {
                            Voxel { material: M_STONE }
                        } else {
                            Voxel { material: M_AIR }
                        }),
    {
        let primer = WorldGenerator::generate_chunk_primer(heights);
        let ghost p = primer;
        let chunk = Chunk::from_chunk_primer(primer);
        proof {
            assert forall|x: int, y: int, z: int|
                0 <= x < 32 && 0 <= y < 32 && 0 <= z < 32 implies
                chunk.row_seq(y, z)[x]
                    == (if y < heights@[z * 32 + x] {
                        Voxel { material: M_STONE }
                    } else {
                        Voxel { material: M_AIR }
                    }) by {
                assert(chunk.row_seq(y, z) == p.row_seq(y, z));
                assert(p.row_seq(y, z)[x] == p.voxel_at(x, y, z));
            }
        }
        chunk
    }
}

} // verus!

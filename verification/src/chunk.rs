//! The chunk codec: compressing a voxel field into per-row descriptors plus
//! literal row storage, and reading rows back out.
//!
//! Each of the `VOXEL_ROW_COUNT` rows of a field is stored either "packed" —
//! a single material code, standing for that material's uniform-row template
//! — or "allocated": a tagged offset into `row_data`, where the row's
//! `VOXEL_ROW_SIZE` voxels lie verbatim.

use vstd::prelude::*;
use crate::error::DecodeError;
use crate::primer::ChunkPrimer;
use crate::voxel::{template_row, uniform_row, Voxel, M_COUNT, VOXEL_ROW_COUNT, VOXEL_ROW_SIZE};

verus! {

/// Tag bit marking a row descriptor as an allocated offset; descriptors below
/// it are packed material codes, so an offset has 15 usable bits. The largest
/// offset ever written is (VOXEL_ROW_COUNT - 1) * VOXEL_ROW_SIZE, which fits.
pub const ROW_TAG_ALLOCATED: u16 = 0x8000;

/// The compressed, persistable representation of a voxel field.
pub struct Chunk {
    /// One descriptor per (y, z) row, indexed by z * VOXEL_ROW_SIZE + y.
    pub rows: Vec<u16>,
    /// The literal contents of every non-packable row, in the order the rows
    /// were found during construction.
    pub row_data: Vec<Voxel>,
}

/// A row is packable when all its voxels carry one material and that material
/// has a uniform-row template.
pub open spec fn packable(row: Seq<Voxel>) -> bool {
    &&& forall|i: int| 0 <= i < row.len() ==> #[trigger] row[i] == row[0]
    &&& row[0].material < M_COUNT
}

/// A row descriptor is well formed against a row storage of length `dlen`:
/// an allocated descriptor's full row lies inside storage, and a packed
/// descriptor names a templated material.
pub open spec fn entry_wf(e: u16, dlen: int) -> bool {
    if e >= ROW_TAG_ALLOCATED {
        e - ROW_TAG_ALLOCATED + VOXEL_ROW_SIZE <= dlen
    } else {
        e < M_COUNT
    }
}

/// The row a well-formed descriptor decodes to.
pub open spec fn entry_row(e: u16, data: Seq<Voxel>) -> Seq<Voxel> {
    if e >= ROW_TAG_ALLOCATED {
        data.subrange(e - ROW_TAG_ALLOCATED, e - ROW_TAG_ALLOCATED + VOXEL_ROW_SIZE)
    } else {
        template_row(e as u8)
    }
}

/// Number of rows among the first `n` (in flat order) that are not packable
/// and therefore occupy row storage.
pub open spec fn count_unpackable(p: ChunkPrimer, n: int) -> int
    decreases n,
{
    if n <= 0 {
        0
    } else {
        count_unpackable(p, n - 1) + if packable(primer_row_at(p, n - 1)) {
            0int
        } else {
            1int
        }
    }
}

/// The source row with flat index r = z * VOXEL_ROW_SIZE + y.
pub open spec fn primer_row_at(p: ChunkPrimer, r: int) -> Seq<Voxel> {
    p.row_seq(r % 32, r / 32)
}

/// What the construction loop guarantees of a finished descriptor: packed
/// descriptors hold exactly the row's material, allocated ones point at a
/// verbatim copy of the row.
pub open spec fn entry_matches(p: ChunkPrimer, r: int, e: u16, data: Seq<Voxel>) -> bool {
    if packable(primer_row_at(p, r)) {
        e == primer_row_at(p, r)[0].material as u16
    } else {
        &&& e >= ROW_TAG_ALLOCATED
        &&& e - ROW_TAG_ALLOCATED + VOXEL_ROW_SIZE <= data.len()
        &&& data.subrange(e - ROW_TAG_ALLOCATED, e - ROW_TAG_ALLOCATED + VOXEL_ROW_SIZE)
            == primer_row_at(p, r)
    }
}

impl Chunk {
    /// Structural well-formedness: one descriptor per row, each one readable.
    pub open spec fn wf(self) -> bool {
        &&& self.rows@.len() == VOXEL_ROW_COUNT
        &&& forall|r: int|
            0 <= r < VOXEL_ROW_COUNT ==> entry_wf(self.rows@[r], self.row_data@.len() as int)
    }

    /// The row contents this chunk decodes to at (y, z).
    pub open spec fn row_seq(self, y: int, z: int) -> Seq<Voxel> {
        entry_row(self.rows@[z * 32 + y], self.row_data@)
    }

    /// Encodes a voxel field. Every packable row becomes a packed descriptor
    /// holding its material; every other row is appended verbatim to row
    /// storage behind a tagged offset. Rows are visited in flat order
    /// (z outer, y inner), so offsets strictly grow and never alias.
    pub fn from_chunk_primer(primer: ChunkPrimer) -> (c: Chunk)
        requires
            primer.wf(),
        ensures
            c.wf(),
            // every row decodes back to the source row
            forall|y: int, z: int|
                0 <= y < 32 && 0 <= z < 32 ==> c.row_seq(y, z) == primer.row_seq(y, z),
            // a row is packed exactly when it is packable
            forall|y: int, z: int|
                0 <= y < 32 && 0 <= z < 32 ==>
                    ((c.rows@[z * 32 + y] < ROW_TAG_ALLOCATED) <==> packable(
                        primer.row_seq(y, z),
                    )),
            // row storage holds exactly the non-packable rows, once each
            c.row_data@.len() == VOXEL_ROW_SIZE * count_unpackable(primer, VOXEL_ROW_COUNT as int),
    {
        let mut rows: Vec<u16> = Vec::new();
        let mut row_data: Vec<Voxel> = Vec::new();
        let mut r: usize = 0;
        while r < VOXEL_ROW_COUNT
            invariant
                primer.wf(),
                r <= VOXEL_ROW_COUNT,
                rows@.len() == r,
                row_data@.len() == VOXEL_ROW_SIZE * count_unpackable(primer, r as int),
                row_data@.len() <= VOXEL_ROW_SIZE * r,
                forall|j: int| 0 <= j < r ==> entry_matches(primer, j, rows@[j], row_data@),
            decreases VOXEL_ROW_COUNT - r,
        {
            let y = r % 32;
            let z = r / 32;
            let mut row = primer.get_row(y, z);
            proof {
                assert(z * 32 + y == r);
                assert(row@ == primer_row_at(primer, r as int));
            }
            if row_packable(&row) {
                let material = row[0].material;
                rows.push(material as u16);
            } else {
                let offset = row_data.len();
                proof {
                    assert(offset <= VOXEL_ROW_SIZE * (VOXEL_ROW_COUNT - 1)) by (nonlinear_arith)
                        requires
                            offset <= VOXEL_ROW_SIZE * r,
                            r <= VOXEL_ROW_COUNT - 1,
                            VOXEL_ROW_SIZE == 32,
                            VOXEL_ROW_COUNT == 1024,
                    ;
                }
                let ghost old_data = row_data@;
                row_data.append(&mut row);
                rows.push((offset + ROW_TAG_ALLOCATED as usize) as u16);
                proof {
                    let e = (offset + ROW_TAG_ALLOCATED as usize) as u16;
                    assert(e - ROW_TAG_ALLOCATED == offset);
                    assert(row_data@.subrange(offset as int, offset + VOXEL_ROW_SIZE)
                        =~= primer_row_at(primer, r as int));
                    // appending leaves every earlier allocated row in place
                    assert forall|j: int| 0 <= j < r implies entry_matches(
                        primer,
                        j,
                        rows@[j],
                        row_data@,
                    ) by {
                        assert(entry_matches(primer, j, rows@[j], old_data));
                        let ej = rows@[j];
                        if !packable(primer_row_at(primer, j)) {
                            assert(row_data@.subrange(
                                ej - ROW_TAG_ALLOCATED,
                                ej - ROW_TAG_ALLOCATED + VOXEL_ROW_SIZE,
                            ) =~= old_data.subrange(
                                ej - ROW_TAG_ALLOCATED,
                                ej - ROW_TAG_ALLOCATED + VOXEL_ROW_SIZE,
                            ));
                        }
                    }
                }
            }
            r += 1;
        }
        let c = Chunk { rows, row_data };
        proof {
            assert forall|y: int, z: int| 0 <= y < 32 && 0 <= z < 32 implies {
                &&& c.row_seq(y, z) == primer.row_seq(y, z)
                &&& ((c.rows@[z * 32 + y] < ROW_TAG_ALLOCATED) <==> packable(primer.row_seq(y, z)))
                &&& entry_wf(c.rows@[z * 32 + y], c.row_data@.len() as int)
            } by {
                let j = z * 32 + y;
                assert(j % 32 == y && j / 32 == z) by (nonlinear_arith)
                    requires
                        0 <= y < 32,
                        0 <= z < 32,
                        j == z * 32 + y,
                ;
                assert(entry_matches(primer, j, c.rows@[j], c.row_data@));
                assert(primer_row_at(primer, j) == primer.row_seq(y, z));
                if packable(primer.row_seq(y, z)) {
                    let m = primer.row_seq(y, z)[0].material;
                    assert(c.rows@[j] == m as u16);
                    assert(template_row(m) =~= primer.row_seq(y, z));
                }
            }
        }
        c
    }

    /// Reads the row at (y, z) back out of the chunk: a verbatim copy for an
    /// allocated row, the uniform-row template for a packed one. Reading
    /// never mutates the chunk, and a corrupt descriptor — an offset past the
    /// end of row storage, or an untemplated packed material — is reported,
    /// never read past.
    pub fn read_row(&self, y: usize, z: usize) -> (r: Result<Vec<Voxel>, DecodeError>)
        requires
            self.rows@.len() == VOXEL_ROW_COUNT,
            y < VOXEL_ROW_SIZE,
            z < VOXEL_ROW_SIZE,
        ensures
            match r {
                Ok(v) => {
                    &&& entry_wf(self.rows@[z * 32 + y], self.row_data@.len() as int)
                    &&& v@ == self.row_seq(y as int, z as int)
                    &&& v@.len() == VOXEL_ROW_SIZE
                },
                Err(e) => {
                    &&& !entry_wf(self.rows@[z * 32 + y], self.row_data@.len() as int)
                    &&& e == DecodeError::InvalidRowEntry
                },
            },
    {
        let e = self.rows[z * 32 + y];
        if e >= ROW_TAG_ALLOCATED {
            let offset = (e - ROW_TAG_ALLOCATED) as usize;
            if self.row_data.len() < VOXEL_ROW_SIZE || offset > self.row_data.len()
                - VOXEL_ROW_SIZE {
                return Err(DecodeError::InvalidRowEntry);
            }
            let mut v: Vec<Voxel> = Vec::new();
            let mut i: usize = 0;
            while i < VOXEL_ROW_SIZE
                invariant
                    i <= VOXEL_ROW_SIZE,
                    offset <= usize::MAX - VOXEL_ROW_SIZE,
                    offset + VOXEL_ROW_SIZE <= self.row_data@.len(),
                    v@.len() == i,
                    forall|k: int| 0 <= k < i ==> v@[k] == self.row_data@[offset + k],
                decreases VOXEL_ROW_SIZE - i,
            {
                v.push(self.row_data[offset + i]);
                i += 1;
            }
            proof {
                assert(v@ =~= self.row_seq(y as int, z as int));
            }
            Ok(v)
        } else {
            if e >= M_COUNT as u16 {
                return Err(DecodeError::InvalidRowEntry);
            }
            Ok(uniform_row(e as u8))
        }
    }
}

/// Round trip of the codec: `from_chunk_primer` guarantees of its result
/// that every row decodes to the source field's row, and `read_row`
/// guarantees of a successful read that it returns the decoded row — so
/// reading any row of an encoded chunk reproduces the field's exact
/// material sequence.
pub proof fn lemma_encode_decode_round_trip(
    primer: ChunkPrimer,
    c: Chunk,
    y: int,
    z: int,
    read: Seq<Voxel>,
)
    requires
        0 <= y < 32,
        0 <= z < 32,
        forall|y2: int, z2: int|
            0 <= y2 < 32 && 0 <= z2 < 32 ==> c.row_seq(y2, z2) == primer.row_seq(y2, z2),
        read == c.row_seq(y, z),
    ensures
        read == primer.row_seq(y, z),
{
}

/// Idempotent reads: `read_row` takes the chunk by shared reference, so a
/// read cannot mutate it, and its contract pins every successful result to
/// `row_seq` alone — so any two reads of the same row of the same chunk
/// return the same voxels.
pub proof fn lemma_read_row_idempotent(
    c: Chunk,
    y: int,
    z: int,
    first: Seq<Voxel>,
    second: Seq<Voxel>,
)
    requires
        first == c.row_seq(y, z),
        second == c.row_seq(y, z),
    ensures
        first == second,
{
}

/// Decides packability: every voxel equal to the first, whose material has a
/// uniform-row template.
fn row_packable(row: &Vec<Voxel>) -> (b: bool)
    requires
        row@.len() == VOXEL_ROW_SIZE,
    ensures
        b == packable(row@),
{
    let first = row[0];
    if first.material >= M_COUNT {
        return false;
    }
    let mut i: usize = 1;
    while i < VOXEL_ROW_SIZE
        invariant
            row@.len() == VOXEL_ROW_SIZE,
            1 <= i <= VOXEL_ROW_SIZE,
            first == row@[0],
            forall|k: int| 0 <= k < i ==> #[trigger] row@[k] == row@[0],
        decreases VOXEL_ROW_SIZE - i,
    {
        if row[i].material != first.material {
            return false;
        }
        i += 1;
    }
    true
}

} // verus!

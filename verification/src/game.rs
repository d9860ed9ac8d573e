//! The simulation state — one chunk plus the camera offsets — and its
//! snapshot encoding, the byte image written once when a recording begins
//! and read back when playback begins.

use vstd::prelude::*;
use crate::bytes::{
    le4, le4_val, le8, le8_val, lemma_le2_roundtrip, lemma_le4_roundtrip, lemma_le8_roundtrip,
    le2, push_u16_le, push_u32_le, push_u64_le, read_u16_le, read_u32_le, read_u64_le,
};
use crate::chunk::{entry_wf, Chunk};
use crate::error::DecodeError;
use crate::voxel::{Voxel, VOXEL_ROW_COUNT};

verus! {

/// The mutable simulation state: the chunk being played in and the camera
/// offsets. Serialized as one opaque unit by the replay subsystem.
pub struct Game {
    pub chunk: Chunk,
    pub x_offset: i32,
    pub y_offset: i32,
}

/// The mathematical view of a `Game`.
#[verifier::ext_equal]
pub struct GameModel {
    pub rows: Seq<u16>,
    pub row_data: Seq<Voxel>,
    pub x_offset: i32,
    pub y_offset: i32,
}

impl View for Game {
    type V = GameModel;

    open spec fn view(&self) -> GameModel {
        GameModel {
            rows: self.chunk.rows@,
            row_data: self.chunk.row_data@,
            x_offset: self.x_offset,
            y_offset: self.y_offset,
        }
    }
}

/// A well-formed game: its chunk has one descriptor per row and every
/// descriptor is readable against its row storage.
pub open spec fn game_wf(m: GameModel) -> bool {
    &&& m.rows.len() == VOXEL_ROW_COUNT
    &&& forall|r: int| 0 <= r < VOXEL_ROW_COUNT ==> entry_wf(m.rows[r], m.row_data.len() as int)
}

/// The byte encoding of the row descriptors: two little-endian bytes each.
pub open spec fn rows_bytes(rows: Seq<u16>) -> Seq<u8> {
    Seq::new(2 * rows.len(), |i: int| le2(rows[i / 2] as int)[i % 2])
}

/// The byte encoding of row storage: one material byte per voxel.
pub open spec fn voxels_bytes(vs: Seq<Voxel>) -> Seq<u8> {
    Seq::new(vs.len(), |i: int| vs[i].material)
}

/// The snapshot encoding of a game: the 1024 row descriptors, the row
/// storage behind a 64-bit length, then the two camera offsets, each biased
/// into [0, 2^32) and stored in four bytes.
pub open spec fn game_bytes(m: GameModel) -> Seq<u8> {
    rows_bytes(m.rows) + le8(m.row_data.len() as int) + voxels_bytes(m.row_data) + le4(
        m.x_offset + 0x8000_0000,
    ) + le4(m.y_offset + 0x8000_0000)
}

/// The row descriptors stored in a snapshot's first 2048 bytes.
pub open spec fn parsed_rows(s: Seq<u8>) -> Seq<u16> {
    Seq::new(VOXEL_ROW_COUNT as nat, |r: int| (s[2 * r] as int + 256 * (s[2 * r + 1] as int)) as u16)
}

/// Parses a snapshot back into a game model. The byte length must fit the
/// stored row-storage length exactly, and every row descriptor must be
/// readable; corrupt snapshots are rejected, never patched up.
pub open spec fn parse_game(s: Seq<u8>) -> Result<GameModel, DecodeError> {
    if s.len() < 2064 {
        Err(DecodeError::LengthMismatch)
    } else {
        let dlen = le8_val(s.subrange(2048, 2056));
        if dlen != s.len() - 2064 {
            Err(DecodeError::LengthMismatch)
        } else {
            let rows = parsed_rows(s);
            if !(forall|r: int| 0 <= r < VOXEL_ROW_COUNT ==> entry_wf(rows[r], dlen)) {
                Err(DecodeError::InvalidRowEntry)
            } else {
                Ok(
                    GameModel {
                        rows,
                        row_data: Seq::new(
                            (s.len() - 2064) as nat,
                            |i: int| Voxel { material: s[2056 + i] },
                        ),
                        x_offset: (le4_val(s.subrange(s.len() - 8, s.len() - 4))
                            - 0x8000_0000) as i32,
                        y_offset: (le4_val(s.subrange(s.len() - 4, s.len() as int))
                            - 0x8000_0000) as i32,
                    },
                )
            }
        }
    }
}

/// A snapshot's length is fixed by its row-storage length.
pub proof fn lemma_game_bytes_len(m: GameModel)
    requires
        m.rows.len() == VOXEL_ROW_COUNT,
    ensures
        game_bytes(m).len() == 2064 + m.row_data.len(),
{
}

/// Encodes a game into its snapshot bytes.
pub fn encode_game(game: &Game) -> (r: Vec<u8>)
    requires
        game.chunk.rows@.len() == VOXEL_ROW_COUNT,
    ensures
        r@ == game_bytes(game@),
{
    let ghost m = game@;
    let mut out: Vec<u8> = Vec::new();
    let mut r: usize = 0;
    while r < VOXEL_ROW_COUNT
        invariant
            game.chunk.rows@.len() == VOXEL_ROW_COUNT,
            m == game@,
            r <= VOXEL_ROW_COUNT,
            out@ == rows_bytes(m.rows.take(r as int)),
        decreases VOXEL_ROW_COUNT - r,
    {
        push_u16_le(&mut out, game.chunk.rows[r]);
        proof {
            assert(out@ =~= rows_bytes(m.rows.take(r + 1)));
        }
        r += 1;
    }
    proof {
        assert(m.rows.take(VOXEL_ROW_COUNT as int) =~= m.rows);
    }
    let dlen = game.chunk.row_data.len();
    push_u64_le(&mut out, dlen as u64);
    let mut i: usize = 0;
    while i < dlen
        invariant
            game.chunk.row_data@.len() == dlen,
            m == game@,
            i <= dlen,
            out@ == rows_bytes(m.rows) + le8(dlen as int) + voxels_bytes(m.row_data.take(i as int)),
        decreases dlen - i,
    {
        out.push(game.chunk.row_data[i].material);
        proof {
            assert(out@ =~= rows_bytes(m.rows) + le8(dlen as int) + voxels_bytes(
                m.row_data.take(i + 1),
            ));
        }
        i += 1;
    }
    proof {
        assert(m.row_data.take(dlen as int) =~= m.row_data);
    }
    let bx: u32 = ((game.x_offset as i64) + 0x8000_0000) as u32;
    let by: u32 = ((game.y_offset as i64) + 0x8000_0000) as u32;
    push_u32_le(&mut out, bx);
    push_u32_le(&mut out, by);
    proof {
        assert(out@ =~= game_bytes(m));
    }
    out
}

/// Decodes a snapshot, rejecting corrupt input rather than substituting
/// defaults. A decoded game is always well formed.
pub fn decode_game(bytes: &Vec<u8>) -> (r: Result<Game, DecodeError>)
    ensures
        match r {
            Ok(g) => parse_game(bytes@) == Ok::<GameModel, DecodeError>(g@) && game_wf(g@),
            Err(e) => parse_game(bytes@) == Err::<GameModel, DecodeError>(e),
        },
{
    let total = bytes.len();
    if total < 2064 {
        return Err(DecodeError::LengthMismatch);
    }
    let dlen64 = read_u64_le(bytes, 2048);
    if dlen64 != (total - 2064) as u64 {
        return Err(DecodeError::LengthMismatch);
    }
    let dlen = total - 2064;
    let mut rows: Vec<u16> = Vec::new();
    let mut r: usize = 0;
    while r < VOXEL_ROW_COUNT
        invariant
            bytes@.len() >= 2064,
            r <= VOXEL_ROW_COUNT,
            rows@.len() == r,
            forall|j: int| 0 <= j < r ==> rows@[j] == parsed_rows(bytes@)[j],
        decreases VOXEL_ROW_COUNT - r,
    {
        let v = read_u16_le(bytes, 2 * r);
        rows.push(v);
        r += 1;
    }
    proof {
        assert(rows@ =~= parsed_rows(bytes@));
    }
    // validate every row descriptor against the stored row-storage length
    let mut k: usize = 0;
    while k < VOXEL_ROW_COUNT
        invariant
            rows@ == parsed_rows(bytes@),
            rows@.len() == VOXEL_ROW_COUNT,
            k <= VOXEL_ROW_COUNT,
            dlen == bytes@.len() - 2064,
            le8_val(bytes@.subrange(2048, 2056)) == dlen as int,
            forall|j: int| 0 <= j < k ==> entry_wf(rows@[j], dlen as int),
        decreases VOXEL_ROW_COUNT - k,
    {
        let e = rows[k];
        let ok = if e >= 0x8000 {
            (e - 0x8000) as usize + 32 <= dlen
        } else {
            e < 2
        };
        if !ok {
            proof {
                let dl = bytes@.len() - 2064;
                assert(!entry_wf(parsed_rows(bytes@)[k as int], dl));
                assert(!(forall|j: int|
                    0 <= j < VOXEL_ROW_COUNT ==> entry_wf(parsed_rows(bytes@)[j], dl)));
            }
            return Err(DecodeError::InvalidRowEntry);
        }
        k += 1;
    }
    let mut row_data: Vec<Voxel> = Vec::new();
    let mut i: usize = 0;
    while i < dlen
        invariant
            bytes@.len() == 2064 + dlen,
            dlen <= usize::MAX - 2064,
            i <= dlen,
            row_data@.len() == i,
            forall|j: int| 0 <= j < i ==> row_data@[j] == (Voxel { material: bytes@[2056 + j] }),
        decreases dlen - i,
    {
        row_data.push(Voxel { material: bytes[2056 + i] });
        i += 1;
    }
    let ux = read_u32_le(bytes, total - 8);
    let uy = read_u32_le(bytes, total - 4);
    let x_offset = ((ux as i64) - 0x8000_0000) as i32;
    let y_offset = ((uy as i64) - 0x8000_0000) as i32;
    let g = Game { chunk: Chunk { rows, row_data }, x_offset, y_offset };
    proof {
        let parsed = parse_game(bytes@);
        assert(g@.row_data =~= parsed->Ok_0.row_data);
        assert(g@ == parsed->Ok_0);
    }
    Ok(g)
}

/// The row descriptors read back from a snapshot are the ones encoded.
proof fn lemma_game_rows_roundtrip(m: GameModel)
    requires
        m.rows.len() == VOXEL_ROW_COUNT,
    ensures
        parsed_rows(game_bytes(m)) == m.rows,
{
    let s = game_bytes(m);
    assert forall|r: int| 0 <= r < VOXEL_ROW_COUNT implies parsed_rows(s)[r] == m.rows[r] by {
        assert(s[2 * r] == rows_bytes(m.rows)[2 * r]);
        assert(s[2 * r + 1] == rows_bytes(m.rows)[2 * r + 1]);
        assert(s[2 * r] == le2(m.rows[r] as int)[0]);
        assert(s[2 * r + 1] == le2(m.rows[r] as int)[1]);
        lemma_le2_roundtrip(m.rows[r] as int);
    }
    assert(parsed_rows(s) =~= m.rows);
}

/// The row storage read back from a snapshot is the one encoded.
proof fn lemma_game_data_roundtrip(m: GameModel)
    requires
        m.rows.len() == VOXEL_ROW_COUNT,
    ensures
        Seq::new(
            (game_bytes(m).len() - 2064) as nat,
            |i: int| Voxel { material: game_bytes(m)[2056 + i] },
        ) == m.row_data,
{
    let s = game_bytes(m);
    lemma_game_bytes_len(m);
    let parsed_data = Seq::new((s.len() - 2064) as nat, |i: int| Voxel { material: s[2056 + i] });
    assert forall|i: int| 0 <= i < m.row_data.len() implies parsed_data[i] == m.row_data[i] by {
        assert(s[2056 + i] == voxels_bytes(m.row_data)[i]);
    }
    assert(parsed_data =~= m.row_data);
}

/// The length field and camera offsets read back are the ones encoded.
proof fn lemma_game_tail_roundtrip(m: GameModel)
    requires
        m.rows.len() == VOXEL_ROW_COUNT,
    ensures
        game_bytes(m).subrange(2048, 2056) == le8(m.row_data.len() as int),
        game_bytes(m).subrange(game_bytes(m).len() - 8, game_bytes(m).len() - 4) == le4(
            m.x_offset + 0x8000_0000,
        ),
        game_bytes(m).subrange(game_bytes(m).len() - 4, game_bytes(m).len() as int) == le4(
            m.y_offset + 0x8000_0000,
        ),
{
    let s = game_bytes(m);
    lemma_game_bytes_len(m);
    assert(s.subrange(2048, 2056) =~= le8(m.row_data.len() as int));
    assert(s.subrange(s.len() - 8, s.len() - 4) =~= le4(m.x_offset + 0x8000_0000));
    assert(s.subrange(s.len() - 4, s.len() as int) =~= le4(m.y_offset + 0x8000_0000));
}

/// Round trip: decoding an encoded snapshot gives back exactly the game
/// that was encoded, for any well-formed game.
pub proof fn lemma_game_roundtrip(m: GameModel)
    requires
        game_wf(m),
        m.row_data.len() <= usize::MAX,
    ensures
        parse_game(game_bytes(m)) == Ok::<GameModel, DecodeError>(m),
{
    let s = game_bytes(m);
    let dlen = m.row_data.len() as int;
    lemma_game_bytes_len(m);
    lemma_game_tail_roundtrip(m);
    lemma_le8_roundtrip(dlen);
    lemma_game_rows_roundtrip(m);
    lemma_game_data_roundtrip(m);
    lemma_le4_roundtrip(m.x_offset + 0x8000_0000);
    lemma_le4_roundtrip(m.y_offset + 0x8000_0000);
    assert(parse_game(s) == Ok::<GameModel, DecodeError>(m));
}

} // verus!

//! Tests for the voxel field and the chunk codec.

use colonize::chunk::{Chunk, ROW_TAG_ALLOCATED};
use colonize::error::DecodeError;
use colonize::primer::ChunkPrimer;
use colonize::voxel::{
    uniform_row, Voxel, M_AIR, M_STONE, VOXEL_BOX_SIZE, VOXEL_ROW_COUNT, VOXEL_ROW_SIZE,
};
use colonize::world::WorldGenerator;

fn air_field() -> Vec<Voxel> {
    vec![Voxel { material: M_AIR }; VOXEL_BOX_SIZE]
}

fn primer_from(data: Vec<Voxel>) -> ChunkPrimer {
    ChunkPrimer::from_data(data)
}

#[test]
fn get_index_flattens_coordinates() {
    assert_eq!(ChunkPrimer::get_index(0, 0, 0), 0);
    assert_eq!(ChunkPrimer::get_index(5, 2, 0), 69);
    assert_eq!(ChunkPrimer::get_index(31, 31, 31), VOXEL_BOX_SIZE - 1);
    assert_eq!(ChunkPrimer::get_index(0, 0, 1), 1024);
}

#[test]
fn uniform_row_is_all_one_material() {
    let row = uniform_row(M_STONE);
    assert_eq!(row.len(), VOXEL_ROW_SIZE);
    assert!(row.iter().all(|v| v.material == M_STONE));
}

#[test]
fn all_air_field_packs_every_row() {
    let chunk = Chunk::from_chunk_primer(primer_from(air_field()));
    assert_eq!(chunk.rows.len(), VOXEL_ROW_COUNT);
    assert!(chunk.rows.iter().all(|&e| e == M_AIR as u16));
    assert_eq!(chunk.row_data.len(), 0);
}

#[test]
fn scenario_single_stone_voxel() {
    // rows (y=0,z=0) and (y=1,z=0) all air; row (y=2,z=0) has x=5 stone
    let mut data = air_field();
    data[ChunkPrimer::get_index(5, 2, 0)] = Voxel { material: M_STONE };
    let chunk = Chunk::from_chunk_primer(primer_from(data));

    assert_eq!(chunk.rows[0], M_AIR as u16);
    assert_eq!(chunk.rows[1], M_AIR as u16);
    let descriptor = chunk.rows[2];
    assert!(descriptor >= ROW_TAG_ALLOCATED);
    assert_eq!(descriptor - ROW_TAG_ALLOCATED, 0);
    assert_eq!(chunk.row_data.len(), VOXEL_ROW_SIZE);

    let row = chunk.read_row(2, 0).unwrap();
    assert_eq!(row.len(), VOXEL_ROW_SIZE);
    for (x, v) in row.iter().enumerate() {
        if x == 5 {
            assert_eq!(v.material, M_STONE);
        } else {
            assert_eq!(v.material, M_AIR);
        }
    }
}

#[test]
fn round_trip_reproduces_every_row() {
    let mut data = air_field();
    for z in 0..VOXEL_ROW_SIZE {
        for y in 0..VOXEL_ROW_SIZE {
            for x in 0..VOXEL_ROW_SIZE {
                let material = ((x + y + z) % 2) as u8;
                data[ChunkPrimer::get_index(x, y, z)] = Voxel { material };
            }
        }
    }
    let primer = primer_from(data);
    let expected: Vec<Vec<Voxel>> = (0..VOXEL_ROW_COUNT)
        .map(|r| primer.get_row(r % 32, r / 32))
        .collect();
    let chunk = Chunk::from_chunk_primer(primer);
    for r in 0..VOXEL_ROW_COUNT {
        let row = chunk.read_row(r % 32, r / 32).unwrap();
        assert_eq!(row, expected[r]);
    }
}

#[test]
fn packed_exactly_for_uniform_rows() {
    let mut data = air_field();
    // row (y=3,z=4): uniform stone — must pack as stone
    for x in 0..VOXEL_ROW_SIZE {
        data[ChunkPrimer::get_index(x, 3, 4)] = Voxel { material: M_STONE };
    }
    // row (y=4,z=4): mixed — must be allocated
    data[ChunkPrimer::get_index(0, 4, 4)] = Voxel { material: M_STONE };
    let chunk = Chunk::from_chunk_primer(primer_from(data));
    assert_eq!(chunk.rows[4 * 32 + 3], M_STONE as u16);
    assert!(chunk.rows[4 * 32 + 4] >= ROW_TAG_ALLOCATED);
}

#[test]
fn storage_grows_by_one_row_per_non_uniform_row() {
    let mut data = air_field();
    // make three rows non-uniform
    data[ChunkPrimer::get_index(0, 0, 0)] = Voxel { material: M_STONE };
    data[ChunkPrimer::get_index(7, 9, 11)] = Voxel { material: M_STONE };
    data[ChunkPrimer::get_index(31, 31, 31)] = Voxel { material: M_STONE };
    let chunk = Chunk::from_chunk_primer(primer_from(data));
    let non_uniform = chunk
        .rows
        .iter()
        .filter(|&&e| e >= ROW_TAG_ALLOCATED)
        .count();
    assert_eq!(non_uniform, 3);
    assert_eq!(chunk.row_data.len(), VOXEL_ROW_SIZE * non_uniform);
}

#[test]
fn repeated_reads_are_identical_and_mutate_nothing() {
    let mut data = air_field();
    data[ChunkPrimer::get_index(5, 2, 0)] = Voxel { material: M_STONE };
    let chunk = Chunk::from_chunk_primer(primer_from(data));
    let rows_before = chunk.rows.clone();
    let row_data_before = chunk.row_data.clone();
    let first = chunk.read_row(2, 0).unwrap();
    let second = chunk.read_row(2, 0).unwrap();
    assert_eq!(first, second);
    let third = chunk.read_row(0, 7).unwrap();
    let fourth = chunk.read_row(0, 7).unwrap();
    assert_eq!(third, fourth);
    assert_eq!(chunk.rows, rows_before);
    assert_eq!(chunk.row_data, row_data_before);
}

#[test]
fn read_row_rejects_offset_past_storage() {
    let mut rows = vec![M_AIR as u16; VOXEL_ROW_COUNT];
    rows[0] = ROW_TAG_ALLOCATED + 1;
    let chunk = Chunk {
        rows,
        row_data: vec![Voxel { material: M_AIR }; VOXEL_ROW_SIZE],
    };
    assert_eq!(chunk.read_row(0, 0), Err(DecodeError::InvalidRowEntry));
}

#[test]
fn read_row_rejects_untemplated_packed_material() {
    let mut rows = vec![M_AIR as u16; VOXEL_ROW_COUNT];
    rows[0] = 7;
    let chunk = Chunk {
        rows,
        row_data: Vec::new(),
    };
    assert_eq!(chunk.read_row(0, 0), Err(DecodeError::InvalidRowEntry));
}

#[test]
fn generated_chunk_matches_height_map() {
    let mut heights = vec![0usize; VOXEL_ROW_COUNT];
    heights[0] = 3; // column (x=0, z=0)
    heights[5 * 32 + 2] = 32; // column (x=2, z=5): full stone
    let chunk = WorldGenerator::generate_chunk(&heights);
    for y in 0..VOXEL_ROW_SIZE {
        let row = chunk.read_row(y, 0).unwrap();
        let expected = if y < 3 { M_STONE } else { M_AIR };
        assert_eq!(row[0].material, expected);
        // column (x=1, z=0) has height 0: always air
        assert_eq!(row[1].material, M_AIR);
    }
    for y in 0..VOXEL_ROW_SIZE {
        let row = chunk.read_row(y, 5).unwrap();
        assert_eq!(row[2].material, M_STONE);
    }
}

#[test]
fn generated_primer_get_row_matches_voxels() {
    let heights = vec![1usize; VOXEL_ROW_COUNT];
    let primer = WorldGenerator::generate_chunk_primer(&heights);
    // y = 0 lies below every column height: all stone
    let bottom = primer.get_row(0, 12);
    assert!(bottom.iter().all(|v| v.material == M_STONE));
    // y = 1 lies at the height: air
    let above = primer.get_row(1, 12);
    assert!(above.iter().all(|v| v.material == M_AIR));
}

use engine::rendering::chunk::{Chunk, CHUNK_SIZE};
use engine::rendering::chunk_mesh::ChunkVertex;

#[test]
fn new_chunk_is_all_stone_and_dirty() {
    let c = Chunk::new((1, 2, 3));
    assert_eq!(c.pos, (1, 2, 3));
    assert!(c.dirty);
    assert!(c.mesh.is_none());
    for x in 0..CHUNK_SIZE as isize {
        for y in 0..CHUNK_SIZE as isize {
            for z in 0..CHUNK_SIZE as isize {
                assert_eq!(c.get_block(x, y, z), 1);
            }
        }
    }
}

#[test]
fn set_then_get_block() {
    let mut c = Chunk::flat((0, 0, 0));
    c.dirty = false;
    c.set_block(3, 4, 5, 9);
    assert_eq!(c.get_block(3, 4, 5), 9);
    assert!(c.dirty);
    assert_eq!(c.get_block(3, 4, 6), 0);
    assert_eq!(c.get_block(3, 0, 5), 1);
}

#[test]
fn set_block_out_of_range_changes_nothing() {
    let mut c = Chunk::cube((0, 0, 0));
    c.dirty = false;
    c.set_block(16, 0, 0, 7);
    c.set_block(0, 99, 0, 7);
    assert!(!c.dirty);
    assert_eq!(c.get_block(0, 0, 0), 0);
}

#[test]
fn get_block_outside_is_air() {
    let c = Chunk::new((0, 0, 0));
    assert_eq!(c.get_block(-1, 0, 0), 0);
    assert_eq!(c.get_block(0, 16, 0), 0);
    assert_eq!(c.get_block(0, 0, -5), 0);
    assert_eq!(c.get_block(15, 15, 15), 1);
}

#[test]
fn flat_chunk_has_stone_floor_only() {
    let c = Chunk::flat((0, 0, 0));
    assert_eq!(c.get_block(0, 0, 0), 1);
    assert_eq!(c.get_block(15, 0, 7), 1);
    assert_eq!(c.get_block(0, 1, 0), 0);
    assert_eq!(c.get_block(8, 15, 8), 0);
}

#[test]
fn cube_chunk_has_centered_cube() {
    let c = Chunk::cube((0, 0, 0));
    assert_eq!(c.get_block(6, 6, 6), 1);
    assert_eq!(c.get_block(9, 9, 9), 1);
    assert_eq!(c.get_block(10, 9, 9), 0);
    assert_eq!(c.get_block(5, 6, 6), 0);
    assert_eq!(c.get_block(0, 0, 0), 0);
}

#[test]
fn flat_chunk_mesh_counts() {
    let m = Chunk::flat((0, 0, 0)).build_chunk_mesh();
    assert_eq!(m.vertices.len(), 2304);
    assert_eq!(m.indices.len(), 3456);
    assert!(m.indices.iter().all(|&i| (i as usize) < m.vertices.len()));
}

#[test]
fn cube_chunk_mesh_counts() {
    let m = Chunk::cube((0, 0, 0)).build_chunk_mesh();
    assert_eq!(m.vertices.len(), 384);
    assert_eq!(m.indices.len(), 576);
}

#[test]
fn full_chunk_mesh_shows_only_outer_faces() {
    let m = Chunk::new((0, 0, 0)).build_chunk_mesh();
    assert_eq!(m.vertices.len(), 6144);
    assert_eq!(m.indices.len(), 9216);
}

#[test]
fn single_block_mesh_exact() {
    let mut c = Chunk::cube((1, -1, 2));
    for x in 6..10 {
        for y in 6..10 {
            for z in 6..10 {
                c.set_block(x, y, z, 0);
            }
        }
    }
    c.set_block(2, 3, 4, 3);
    let m = c.build_chunk_mesh();
    assert_eq!(m.vertices.len(), 24);
    assert_eq!(m.indices.len(), 36);
    let v = |x, y, z, face, corner| ChunkVertex { x, y, z, face, corner, block: 3 };
    assert_eq!(
        &m.vertices[..8],
        &[
            v(19, -13, 36, 0, 0),
            v(19, -12, 36, 0, 1),
            v(19, -12, 37, 0, 2),
            v(19, -13, 37, 0, 3),
            v(18, -13, 37, 1, 0),
            v(18, -12, 37, 1, 1),
            v(18, -12, 36, 1, 2),
            v(18, -13, 36, 1, 3),
        ]
    );
    assert_eq!(&m.indices[..12], &[0, 1, 2, 0, 2, 3, 4, 5, 6, 4, 6, 7]);
}

#[test]
fn empty_chunk_has_empty_mesh() {
    let mut c = Chunk::flat((0, 0, 0));
    for x in 0..CHUNK_SIZE {
        for z in 0..CHUNK_SIZE {
            c.set_block(x, 0, z, 0);
        }
    }
    let m = c.build_chunk_mesh();
    assert!(m.vertices.is_empty());
    assert!(m.indices.is_empty());
}

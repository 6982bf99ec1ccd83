use engine::rendering::chunk::Chunk;
use engine::rendering::medium::Medium;
use engine::rendering::terrain::Terrain;

fn sorted_positions(t: &Terrain) -> Vec<(i32, i32, i32)> {
    let mut v = t.chunk_positions();
    v.sort();
    v
}

#[test]
fn insert_and_get_chunks() {
    let mut t = Terrain::new(Medium::Ground);
    assert_eq!(t.default_medium(), Medium::Ground);
    t.insert_chunk_stream(Chunk::flat((1, 0, 2)), Medium::Water);
    assert_eq!(t.get_chunk_stream((1, 0, 2)).map(|e| e.1), Some(Medium::Water));
    assert!(t.get_chunk_stream((2, 0, 1)).is_none());
    t.insert_chunk_stream(Chunk::new((1, 0, 2)), Medium::Air);
    assert_eq!(t.chunk_positions(), vec![(1, 0, 2)]);
    let e = t.get_chunk_stream((1, 0, 2)).unwrap();
    assert_eq!(e.1, Medium::Air);
    assert_eq!(e.0.get_block(0, 5, 0), 1);
}

#[test]
fn get_chunk_stream_mut_edits_entry() {
    let mut t = Terrain::new(Medium::Air);
    t.insert_chunk_stream(Chunk::flat((0, 0, 0)), Medium::Ground);
    if let Some(entry) = t.get_chunk_stream_mut((0, 0, 0)) {
        entry.0.set_block(1, 1, 1, 5);
        entry.1 = Medium::Vacuum;
    }
    assert!(t.get_chunk_stream_mut((9, 9, 9)).is_none());
    let e = t.get_chunk_stream((0, 0, 0)).unwrap();
    assert_eq!(e.0.get_block(1, 1, 1), 5);
    assert_eq!(e.1, Medium::Vacuum);
}

#[test]
fn medium_at_cases() {
    let mut t = Terrain::new(Medium::Vacuum);
    t.insert_chunk_stream(Chunk::flat((0, 0, 0)), Medium::Water);
    // Solid floor block: the chunk's medium.
    assert_eq!(t.medium_at((0, 0, 0), (3, 0, 3)), Medium::Water);
    // Air above the floor.
    assert_eq!(t.medium_at((0, 0, 0), (3, 5, 3)), Medium::Air);
    // Cells are taken modulo the chunk size, negative ones included.
    assert_eq!(t.medium_at((0, 0, 0), (-13, 16, 19)), Medium::Water);
    assert_eq!(t.medium_at((0, 0, 0), (-13, 17, 19)), Medium::Air);
    // No chunk loaded there: the default medium.
    assert_eq!(t.medium_at((5, 0, 0), (3, 0, 3)), Medium::Vacuum);
}

#[test]
fn build_meshes_clears_dirty() {
    let mut t = Terrain::new(Medium::Ground);
    t.insert_chunk_stream(Chunk::flat((0, 0, 0)), Medium::Ground);
    t.insert_chunk_stream(Chunk::cube((1, 0, 0)), Medium::Ground);
    assert!(t.all_meshes().is_empty());
    t.stream_build_meshes();
    assert_eq!(t.all_meshes().len(), 2);
    assert!(!t.get_chunk_stream((0, 0, 0)).unwrap().0.dirty);
    assert_eq!(t.get_chunk_stream((1, 0, 0)).unwrap().0.mesh.as_ref().unwrap().vertices.len(), 384);
}

#[test]
fn first_stream_at_origin_is_not_due() {
    let mut t = Terrain::new(Medium::Ground);
    t.update_streaming((0, 0), 1);
    assert!(t.chunk_positions().is_empty());
}

#[test]
fn streaming_loads_square_with_sequential_media() {
    let mut t = Terrain::new(Medium::Ground);
    t.insert_chunk_stream(Chunk::new((0, 0, 0)), Medium::Water);
    t.insert_chunk_stream(Chunk::new((7, 0, 7)), Medium::Water);
    t.update_streaming((1, 0), 1);
    let mut expected = Vec::new();
    for x in 0..=2 {
        for z in -1..=1 {
            expected.push((x, 0, z));
        }
    }
    assert_eq!(sorted_positions(&t), expected);
    let medium = |p| t.get_chunk_stream(p).unwrap().1;
    assert_eq!(medium((0, 0, 0)), Medium::Water);
    assert_eq!(medium((0, 0, -1)), Medium::Ground);
    assert_eq!(medium((0, 0, 1)), Medium::Water);
    assert_eq!(medium((1, 0, -1)), Medium::Ground);
    assert_eq!(medium((1, 0, 0)), Medium::Water);
    assert_eq!(medium((1, 0, 1)), Medium::Water);
    assert_eq!(medium((2, 0, -1)), Medium::Ground);
    assert_eq!(medium((2, 0, 0)), Medium::Water);
    assert_eq!(medium((2, 0, 1)), Medium::Water);
    // The kept chunk keeps its blocks; new ones are flat; all have meshes.
    assert_eq!(t.get_chunk_stream((0, 0, 0)).unwrap().0.get_block(4, 9, 4), 1);
    assert_eq!(t.get_chunk_stream((2, 0, 1)).unwrap().0.get_block(4, 9, 4), 0);
    assert_eq!(t.all_meshes().len(), 9);
    for p in t.chunk_positions() {
        assert!(!t.get_chunk_stream(p).unwrap().0.dirty);
    }
}

#[test]
fn streaming_again_at_same_center_changes_nothing() {
    let mut t = Terrain::new(Medium::Ground);
    t.update_streaming((1, 0), 1);
    let before = sorted_positions(&t);
    t.get_chunk_stream_mut((1, 0, 0)).unwrap().0.set_block(0, 0, 0, 0);
    t.update_streaming((1, 0), 1);
    assert_eq!(sorted_positions(&t), before);
    assert!(t.get_chunk_stream((1, 0, 0)).unwrap().0.dirty);
}

#[test]
fn streaming_due_uses_coordinate_sums() {
    let mut t = Terrain::new(Medium::Ground);
    t.update_streaming((5, 5), 2);
    assert_eq!(t.chunk_positions().len(), 25);
    // From (5, 5) to (-5, -5) the sums are zero: no pass.
    t.update_streaming((-5, -5), 2);
    assert_eq!(sorted_positions(&t)[0], (3, 0, 3));
    // From (5, 5) to (6, 5) the sums reach the distance: the square moves.
    t.update_streaming((6, 5), 2);
    let p = sorted_positions(&t);
    assert_eq!(p.len(), 25);
    assert_eq!(p[0], (4, 0, 3));
    assert_eq!(p[24], (8, 0, 7));
}

#[test]
fn negative_distance_unloads_everything() {
    let mut t = Terrain::new(Medium::Ground);
    t.insert_chunk_stream(Chunk::flat((0, 0, 0)), Medium::Ground);
    t.update_streaming((3, 3), -1);
    assert!(t.chunk_positions().is_empty());
}

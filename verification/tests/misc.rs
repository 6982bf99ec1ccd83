use engine::ecs::{CacheKey, Entity, Renderable, World};
use engine::rendering::debug::{next_debug_mode, next_uniform_mode};
use engine::rendering::medium::Medium;
use engine::rendering::render2d::{sprite_index_buffer, sprite_index_count};
use engine::rendering::surface::{configured_extent, SurfaceSize};
use engine::rendering::terrain::Terrain;

#[test]
fn medium_kinds() {
    assert!(Medium::Ground.is_solid());
    assert!(!Medium::Air.is_solid());
    assert!(Medium::Air.is_fluid());
    assert!(Medium::Water.is_fluid());
    assert!(!Medium::Vacuum.is_fluid());
    assert!(!Medium::Vacuum.is_solid());
}

#[test]
fn debug_mode_cycles() {
    let mut m = 0;
    let mut seen = Vec::new();
    for _ in 0..7 {
        m = next_uniform_mode(m);
        seen.push(m);
    }
    assert_eq!(seen, vec![1, 2, 3, 4, 5, 6, 0]);
    assert_eq!(next_uniform_mode(42), 0);
    let mut d = 0;
    let mut seen = Vec::new();
    for _ in 0..8 {
        d = next_debug_mode(d);
        seen.push(d);
    }
    assert_eq!(seen, vec![1, 2, 3, 4, 5, 6, 7, 0]);
    assert_eq!(next_debug_mode(9), 0);
}

#[test]
fn sprite_indices() {
    assert_eq!(sprite_index_buffer(2), vec![0, 1, 2, 2, 3, 0, 4, 5, 6, 6, 7, 4]);
    let big = sprite_index_buffer(1000);
    assert_eq!(big.len(), 6000);
    assert_eq!(&big[5994..], &[3996, 3997, 3998, 3998, 3999, 3996]);
    let wrapped = sprite_index_buffer(16385);
    assert_eq!(&wrapped[6 * 16384..], &[0, 1, 2, 2, 3, 0]);
    assert_eq!(sprite_index_count(0), 0);
    assert_eq!(sprite_index_count(7), 6);
    assert_eq!(sprite_index_count(8), 12);
}

#[test]
fn surface_sizes() {
    let s = SurfaceSize(1280, 720);
    assert_eq!(s.width_u32(), 1280);
    assert_eq!(s.height_u32(), 720);
    assert_eq!(configured_extent(0, 5), (1, 5));
    assert_eq!(configured_extent(640, 0), (640, 1));
}

#[test]
fn world_spawns_sequential_entities() {
    let mut w: World<u8, u8, u8, u8, u8> = World::new(Terrain::new(Medium::Ground));
    assert_eq!(w.entity_count(), 0);
    let a = w.spawn();
    let b = w.spawn();
    assert_eq!((a, b), (Entity(0), Entity(1)));
    assert_eq!(w.entity_count(), 2);
    assert_eq!(w.scales().len(), 3);
    assert_eq!(w.positions().len(), 3);
}

#[test]
fn world_insert_then_read() {
    let mut w: World<u8, u8, u8, u8, u8> = World::new(Terrain::new(Medium::Ground));
    let e = w.insert_object(Renderable::new(CacheKey::new("m")), 1, 2, 3);
    assert_eq!(e, Entity(0));
    assert_eq!(w.position(e), Some(&1));
    assert_eq!(w.rotation(e), Some(&2));
    assert_eq!(w.scale(e), Some(&3));
    assert_eq!(w.renderable(e).unwrap().model_key.id(), "m");
    assert_eq!(w.velocity(e), None);
    assert_eq!(w.transform(e), None);
    w.insert_velocity(e, 9);
    assert_eq!(w.velocity(e), Some(&9));
    *w.rotation_mut(e).unwrap() = 20;
    assert_eq!(w.rotation(e), Some(&20));
    assert!(w.scale_mut(Entity(5)).is_none());
    w.set_transform(0, 77);
    assert_eq!(w.transform(e), Some(&77));
    assert!(!w.is_dirty());
    w.set_dirty(true);
    assert!(w.is_dirty());
}

#[test]
fn world_room_cuts_longer_columns() {
    let mut w: World<u8, u8, u8, u8, u8> = World::new(Terrain::new(Medium::Ground));
    w.insert_position(Entity(10), 1);
    assert_eq!(w.positions().len(), 11);
    assert_eq!(w.position(Entity(10)), Some(&1));
    w.insert_scale(Entity(2), 5);
    assert_eq!(w.positions().len(), 3);
    assert_eq!(w.position(Entity(10)), None);
    assert_eq!(w.scale(Entity(2)), Some(&5));
}

#[test]
fn world_update_transforms_composes_complete_entities() {
    let mut w: World<u8, u8, u8, u8, u32> = World::new(Terrain::new(Medium::Ground));
    let a = w.insert_object(Renderable::new(CacheKey::new("a")), 1, 2, 3);
    let b = w.spawn();
    w.insert_position(b, 4);
    w.insert_rotation(b, 5);
    w.set_transform(b.0, 99);
    w.update_transforms(|p: &u8, r: &u8, s: &u8| (*p as u32) * 100 + (*r as u32) * 10 + *s as u32);
    assert_eq!(w.transform(a), Some(&123));
    assert_eq!(w.transform(b), Some(&99));
    assert_eq!(w.transform(Entity(2)), None);
}

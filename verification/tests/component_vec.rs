use engine::ecs::{CacheKey, ComponentVec, Entity, Renderable};

#[test]
fn insert_then_get_returns_component() {
    let mut v: ComponentVec<u32> = ComponentVec::new();
    v.insert(Entity(7), 70);
    v.insert(Entity(3), 30);
    assert_eq!(v.get(Entity(7)), Some(&70));
    assert_eq!(v.get(Entity(3)), Some(&30));
    assert_eq!(v.get(Entity(5)), None);
}

#[test]
fn insert_existing_replaces_in_place() {
    let mut v: ComponentVec<&str> = ComponentVec::new();
    v.insert(Entity(1), "a");
    v.insert(Entity(2), "b");
    v.insert(Entity(1), "c");
    let items: Vec<(Entity, &&str)> = v.iter();
    assert_eq!(items, vec![(Entity(1), &"c"), (Entity(2), &"b")]);
}

#[test]
fn remove_returns_component_and_moves_last_into_gap() {
    let mut v: ComponentVec<u32> = ComponentVec::new();
    v.insert(Entity(10), 1);
    v.insert(Entity(20), 2);
    v.insert(Entity(30), 3);
    assert_eq!(v.remove(Entity(10)), Some(1));
    assert_eq!(v.get(Entity(10)), None);
    let items: Vec<(Entity, &u32)> = v.iter();
    assert_eq!(items, vec![(Entity(30), &3), (Entity(20), &2)]);
    assert_eq!(v.get(Entity(30)), Some(&3));
    assert_eq!(v.get(Entity(20)), Some(&2));
}

#[test]
fn remove_last_and_absent() {
    let mut v: ComponentVec<u32> = ComponentVec::new();
    assert_eq!(v.remove(Entity(0)), None);
    v.insert(Entity(4), 44);
    assert_eq!(v.remove(Entity(5)), None);
    assert_eq!(v.remove(Entity(4)), Some(44));
    assert_eq!(v.remove(Entity(4)), None);
    assert!(v.iter().is_empty());
}

#[test]
fn insert_then_remove_restores_storage() {
    let mut v: ComponentVec<u32> = ComponentVec::new();
    v.insert(Entity(1), 10);
    v.insert(Entity(2), 20);
    v.insert(Entity(3), 30);
    assert_eq!(v.remove(Entity(3)), Some(30));
    let items: Vec<(Entity, &u32)> = v.iter();
    assert_eq!(items, vec![(Entity(1), &10), (Entity(2), &20)]);
}

#[test]
fn get_mut_writes_only_that_component() {
    let mut v: ComponentVec<u32> = ComponentVec::new();
    v.insert(Entity(1), 10);
    v.insert(Entity(2), 20);
    if let Some(c) = v.get_mut(Entity(2)) {
        *c += 5;
    }
    assert!(v.get_mut(Entity(9)).is_none());
    assert_eq!(v.get(Entity(1)), Some(&10));
    assert_eq!(v.get(Entity(2)), Some(&25));
}

#[test]
fn iter_mut_edits_in_place() {
    let mut v: ComponentVec<u32> = ComponentVec::new();
    v.insert(Entity(5), 1);
    v.insert(Entity(6), 2);
    {
        let (entities, components) = v.iter_mut();
        assert_eq!(entities, &[Entity(5), Entity(6)]);
        for c in components.iter_mut() {
            *c *= 100;
        }
    }
    assert_eq!(v.get(Entity(5)), Some(&100));
    assert_eq!(v.get(Entity(6)), Some(&200));
}

#[test]
fn renderable_new_is_visible() {
    let r = Renderable::new(CacheKey::new("goblin.obj"));
    assert!(r.visible);
    assert_eq!(r.model_key.id(), "goblin.obj");
}

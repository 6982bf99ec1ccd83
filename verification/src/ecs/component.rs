use std::collections::HashMap;
use crate::assoc::{
    entries_distinct, entries_insert, entries_map, entries_remove, entry_index, lemma_entries_map_at,
    lemma_entries_map_push, lemma_entries_map_swap_remove, lemma_entries_map_update,
};
use vstd::prelude::*;

verus! {

/// A handle to an entity of the world: an index into the component columns.
#[derive(Debug, Clone, Copy, PartialEq, Eq, Hash, Structural)]
pub struct Entity(pub usize);

/// The name under which an asset is cached, such as a model's file name.
#[derive(Debug, Clone, PartialEq, Eq, Hash)]
pub struct CacheKey {
    id: String,
}

impl CacheKey {
    /// The key's name.
    pub closed spec fn spec_id(&self) -> Seq<char> {
        self.id@
    }

    pub fn new(id: &str) -> (r: CacheKey)
        ensures
            r.spec_id() == id@,
    {
        CacheKey { id: String::from_str(id) }
    }

    pub fn id(&self) -> (r: &str)
        ensures
            r@ == self.spec_id(),
    {
        self.id.as_str()
    }
}

/// What the renderer draws for an entity: a cached model, and whether it is shown.
#[derive(Debug, Clone)]
pub struct Renderable {
    pub model_key: CacheKey,
    pub visible: bool,
}

impl Renderable {
    /// A visible renderable of the model cached under `key`.
    pub fn new(key: CacheKey) -> (r: Self)
        ensures
            r.model_key == key,
            r.visible,
    {
        Self { model_key: key, visible: true }
    }
}

/// A sparse set of components of type `T`, one per entity at most.
///
/// Components are stored densely in insertion order; `map` sends an entity's id to the
/// position of its component, and `entities` holds, at each position, the entity that owns
/// the component there.
pub struct ComponentVec<T> {
    components: Vec<T>,
    entities: Vec<Entity>,
    map: HashMap<usize, usize>,
}

impl<T> ComponentVec<T> {
    /// The dense entries in storage order: each entity with its component.
    pub closed spec fn entries(self) -> Seq<(Entity, T)> {
        Seq::new(self.components@.len(), |i: int| (self.entities@[i], self.components@[i]))
    }

    /// The storage seen as a map from entity to component.
    pub open spec fn as_map(self) -> Map<Entity, T> {
        entries_map(self.entries())
    }

    /// The storage's internal consistency: the two dense columns have one length, no entity
    /// occurs twice, and the index map sends each stored entity to its position and nothing
    /// else.
    pub closed spec fn wf(self) -> bool {
        &&& self.components@.len() == self.entities@.len()
        &&& forall|i: int|
            #![trigger self.entities@[i]]
            0 <= i < self.entities@.len() ==> {
                &&& self.map@.contains_key(self.entities@[i].0)
                &&& self.map@[self.entities@[i].0] == i
            }
        &&& forall|k: usize|
            #[trigger] self.map@.contains_key(k) ==> {
                &&& self.map@[k] < self.entities@.len()
                &&& self.entities@[self.map@[k] as int].0 == k
            }
    }

    proof fn lemma_wf_entries(self)
        requires
            self.wf(),
        ensures
            entries_distinct(self.entries()),
            forall|e: Entity|
                #[trigger] self.map@.contains_key(e.0) ==> {
                    &&& self.map@[e.0] < self.entries().len()
                    &&& self.entries()[self.map@[e.0] as int].0 == e
                },
            forall|e: Entity|
                !self.map@.contains_key(e.0) ==> !(#[trigger] entries_map(
                    self.entries(),
                ).contains_key(e)),
    {
        let s = self.entries();
        assert forall|i: int, j: int|
            0 <= i < s.len() && 0 <= j < s.len() && i != j implies #[trigger] s[i].0 != #[trigger] s[j].0 by {
            assert(self.map@[self.entities@[i].0] == i);
            assert(self.map@[self.entities@[j].0] == j);
        }
        assert forall|e: Entity| !self.map@.contains_key(e.0) implies !(#[trigger] entries_map(
            s,
        ).contains_key(e)) by {
            if entries_map(s).contains_key(e) {
                let i = choose|i: int| 0 <= i < s.len() && s[i].0 == e;
                assert(self.map@.contains_key(self.entities@[i].0));
            }
        }
    }

    pub fn new() -> (r: Self)
        ensures
            r.wf(),
            r.entries() == Seq::<(Entity, T)>::empty(),
    {
        let r = Self { components: Vec::new(), entities: Vec::new(), map: HashMap::new() };
        assert(r.entries() =~= Seq::<(Entity, T)>::empty());
        r
    }

    /// Adds `component` for `entity`, replacing the one it had, if any, in place.
    pub fn insert(&mut self, entity: Entity, component: T)
        requires
            old(self).wf(),
        ensures
            final(self).wf(),
            final(self).entries() == entries_insert(old(self).entries(), entity, component),
            final(self).as_map() == old(self).as_map().insert(entity, component),
    {
        proof {
            self.lemma_wf_entries();
        }
        let ghost s = self.entries();
        match self.map.get(&entity.0) {
            Some(idx_ref) => {
                let idx = *idx_ref;
                proof {
                    lemma_entries_map_update(s, idx as int, component);
                    assert(s[idx as int].0 == entity);
                }
                self.components.set(idx, component);
                proof {
                    assert(self.entries() =~= s.update(idx as int, (entity, component)));
                    assert(entry_index(s, entity) == idx as int);
                }
            },
            None => {
                let idx = self.components.len();
                self.map.insert(entity.0, idx);
                self.entities.push(entity);
                self.components.push(component);
                proof {
                    lemma_entries_map_push(s, entity, component);
                    assert(self.entries() =~= s.push((entity, component)));
                    assert forall|i: int|
                        #![trigger self.entities@[i]]
                        0 <= i < self.entities@.len() implies {
                            &&& self.map@.contains_key(self.entities@[i].0)
                            &&& self.map@[self.entities@[i].0] == i
                        } by {
                        if i < idx {
                            assert(old(self).entities@[i] == self.entities@[i]);
                        }
                    }
                }
            },
        }
    }

    /// A mutable borrow of `entity`'s component, if it has one. Writing through it changes
    /// that component only.
    pub fn get_mut(&mut self, entity: Entity) -> (r: Option<&mut T>)
        requires
            old(self).wf(),
        ensures
            (r is Some) == old(self).as_map().contains_key(entity),
            r is None ==> *final(self) == *old(self),
            r matches Some(v) ==> *v == old(self).as_map()[entity],
            r matches Some(v) ==> final(self).wf(),
            r matches Some(v) ==> final(self).entries() == entries_insert(
                old(self).entries(),
                entity,
                *final(v),
            ),
    {
        proof {
            self.lemma_wf_entries();
        }
        let idx = match self.map.get(&entity.0) {
            Some(idx_ref) => *idx_ref,
            None => return None,
        };
        proof {
            let s = self.entries();
            lemma_entries_map_at(s, idx as int);
            assert(entry_index(s, entity) == idx as int);
            assert forall|c: T|
                #![trigger entries_insert(s, entity, c)]
                entries_insert(s, entity, c) == s.update(idx as int, (entity, c)) && entries_distinct(
                    entries_insert(s, entity, c),
                ) by {
                lemma_entries_map_update(s, idx as int, c);
            }
        }
        Some(&mut self.components[idx])
    }

    /// The component of `entity`, if it has one.
    pub fn get(&self, entity: Entity) -> (r: Option<&T>)
        requires
            self.wf(),
        ensures
            r == (if self.as_map().contains_key(entity) {
                Some(&self.as_map()[entity])
            } else {
                None
            }),
    {
        proof {
            self.lemma_wf_entries();
        }
        match self.map.get(&entity.0) {
            Some(idx_ref) => {
                let idx = *idx_ref;
                proof {
                    lemma_entries_map_at(self.entries(), idx as int);
                }
                Some(&self.components[idx])
            },
            None => None,
        }
    }

    /// Each entity with a borrow of its component, in storage order.
    pub fn iter(&self) -> (r: Vec<(Entity, &T)>)
        requires
            self.wf(),
        ensures
            r@.len() == self.entries().len(),
            forall|i: int|
                0 <= i < r@.len() ==> #[trigger] r@[i].0 == self.entries()[i].0 && *r@[i].1
                    == self.entries()[i].1,
    {
        let mut out: Vec<(Entity, &T)> = Vec::new();
        let n = self.components.len();
        let mut i: usize = 0;
        while i < n
            invariant
                self.wf(),
                n == self.components@.len(),
                i <= n,
                out@.len() == i,
                forall|j: int|
                    0 <= j < i ==> #[trigger] out@[j].0 == self.entries()[j].0 && *out@[j].1
                        == self.entries()[j].1,
            decreases n - i,
        {
            out.push((self.entities[i], &self.components[i]));
            i += 1;
        }
        out
    }

    /// The stored entities, in storage order, beside a mutable borrow of their components.
    /// A slice keeps its length, so the components can be changed in place but neither
    /// added nor removed; the entities and the index map stay as they were.
    pub fn iter_mut(&mut self) -> (r: (&[Entity], &mut [T]))
        requires
            old(self).wf(),
        ensures
            r.0@.len() == old(self).entries().len(),
            r.1@.len() == old(self).entries().len(),
            forall|i: int|
                0 <= i < r.0@.len() ==> #[trigger] r.0@[i] == old(self).entries()[i].0 && r.1@[i]
                    == old(self).entries()[i].1,
            final(r.1)@.len() == r.1@.len() ==> {
                &&& final(self).wf()
                &&& final(self).entries().len() == old(self).entries().len()
                &&& forall|i: int|
                    0 <= i < old(self).entries().len() ==> #[trigger] final(self).entries()[i] == (
                    old(self).entries()[i].0,
                    final(r.1)@[i],
                )
            },
    {
        (self.entities.as_slice(), self.components.as_mut_slice())
    }

    /// Takes `entity`'s component out, if it has one. The last component moves into the freed
    /// position.
    pub fn remove(&mut self, entity: Entity) -> (r: Option<T>)
        requires
            old(self).wf(),
        ensures
            final(self).wf(),
            r == (if old(self).as_map().contains_key(entity) {
                Some(old(self).as_map()[entity])
            } else {
                None
            }),
            final(self).entries() == entries_remove(old(self).entries(), entity),
            final(self).as_map() == old(self).as_map().remove(entity),
    {
        proof {
            self.lemma_wf_entries();
        }
        let ghost s = self.entries();
        let idx = match self.map.remove(&entity.0) {
            Some(idx) => idx,
            None => {
                proof {
                    assert(self.entries() == s);
                    assert(old(self).as_map().remove(entity) =~= old(self).as_map());
                }
                return None;
            },
        };
        proof {
            lemma_entries_map_at(s, idx as int);
            lemma_entries_map_swap_remove(s, idx as int);
            assert(entry_index(s, entity) == idx as int);
        }
        let last_idx = self.components.len() - 1;
        let _removed_entity = self.entities.swap_remove(idx);
        let removed_component = self.components.swap_remove(idx);
        if idx != last_idx {
            let moved_entity = self.entities[idx];
            self.map.insert(moved_entity.0, idx);
        }
        proof {
            assert(self.entries() =~= s.update(idx as int, s.last()).drop_last());
            let ents = self.entities@;
            let olde = old(self).entities@;
            assert forall|i: int|
                #![trigger ents[i]]
                0 <= i < ents.len() implies {
                    &&& self.map@.contains_key(ents[i].0)
                    &&& self.map@[ents[i].0] == i
                } by {
                if i != idx {
                    assert(ents[i] == olde[i]);
                    assert(olde[i].0 != entity.0);
                } else {
                    assert(ents[i] == olde[last_idx as int]);
                }
            }
            assert forall|k: usize| #[trigger] self.map@.contains_key(k) implies {
                &&& self.map@[k] < ents.len()
                &&& ents[self.map@[k] as int].0 == k
            } by {
                if k != ents[idx as int].0 || idx == last_idx {
                    assert(old(self).map@.contains_key(k));
                    let j = old(self).map@[k];
                    assert(olde[j as int].0 == k);
                    assert(k != entity.0);
                    assert(j != idx);
                    if j == last_idx {
                        assert(olde[last_idx as int].0 == k);
                        assert(ents[idx as int] == olde[last_idx as int]);
                        assert(false);
                    }
                }
            }
        }
        Some(removed_component)
    }
}

/// Storing a component for an entity and reading it back gives that component; storing changes
/// no other entity's component; taking the entity's component out afterwards leaves the
/// storage's map as it would be had the entity's component been taken out instead, and as it
/// was before if the entity had none. This holds whether the component is stored by `insert`
/// or written through `get_mut`.
pub proof fn law_insert_then_get_and_remove<T>(v: ComponentVec<T>, e: Entity, c: T)
    requires
        v.wf(),
    ensures
        ({
            let s1 = entries_insert(v.entries(), e, c);
            &&& entries_distinct(s1)
            &&& entries_map(s1) == v.as_map().insert(e, c)
            &&& entries_map(s1).contains_key(e) && entries_map(s1)[e] == c
            &&& forall|o: Entity|
                o != e ==> (#[trigger] entries_map(s1).contains_key(o) == v.as_map().contains_key(o)
                    && (v.as_map().contains_key(o) ==> entries_map(s1)[o] == v.as_map()[o]))
            &&& entries_map(entries_remove(s1, e)) == v.as_map().remove(e)
            &&& !v.as_map().contains_key(e) ==> entries_map(entries_remove(s1, e)) == v.as_map()
        }),
{
    v.lemma_wf_entries();
    let s = v.entries();
    let s1 = entries_insert(s, e, c);
    if entries_map(s).contains_key(e) {
        let i = entry_index(s, e);
        lemma_entries_map_update(s, i, c);
        assert(s1[i].0 == e);
    } else {
        lemma_entries_map_push(s, e, c);
        assert(s1[s.len() as int].0 == e);
    }
    lemma_entries_map_at(s1, entry_index(s1, e));
    let j = entry_index(s1, e);
    lemma_entries_map_swap_remove(s1, j);
    assert(v.as_map().insert(e, c).remove(e) =~= v.as_map().remove(e));
    if !v.as_map().contains_key(e) {
        assert(v.as_map().remove(e) =~= v.as_map());
    }
}

/// Iterating a storage visits each stored entity exactly once: the entries hold no entity twice,
/// and the entities they hold are those of the map.
pub proof fn law_entries_cover_map_once<T>(v: ComponentVec<T>)
    requires
        v.wf(),
    ensures
        entries_distinct(v.entries()),
        forall|e: Entity|
            #[trigger] v.as_map().contains_key(e) <==> exists|i: int|
                0 <= i < v.entries().len() && v.entries()[i].0 == e,
{
    v.lemma_wf_entries();
}

} // verus!

use super::component::{Entity, Renderable};
use crate::rendering::terrain::Terrain;
use vstd::prelude::*;

verus! {

/// `col` made exactly `n` long: cut short, or lengthened with empty slots.
pub open spec fn resized<T>(col: Seq<Option<T>>, n: nat) -> Seq<Option<T>> {
    if n <= col.len() {
        col.take(n as int)
    } else {
        col + Seq::new((n - col.len()) as nat, |i: int| None::<T>)
    }
}

/// `col` with slot `i` holding `v`.
pub open spec fn slot_set<T>(col: Seq<Option<T>>, i: int, v: T) -> Seq<Option<T>> {
    col.update(i, Some(v))
}

/// What slot `i` of `col` holds: nothing where the slot is empty or past the end.
pub open spec fn slot_get<T>(col: Seq<Option<T>>, i: int) -> Option<T> {
    if 0 <= i < col.len() {
        col[i]
    } else {
        None
    }
}

/// Makes `col` exactly `n` long, keeping its first slots.
fn resize_column<T>(col: &mut Vec<Option<T>>, n: usize)
    ensures
        final(col)@ == resized(old(col)@, n as nat),
{
    if n <= col.len() {
        col.truncate(n);
    } else {
        let ghost start = col@;
        while col.len() < n
            invariant
                start.len() <= col@.len() <= n,
                col@ == start + Seq::new((col@.len() - start.len()) as nat, |i: int| None::<T>),
            decreases n - col@.len(),
        {
            col.push(None);
            proof {
                assert(col@ =~= start + Seq::new(
                    (col@.len() - start.len()) as nat,
                    |i: int| None::<T>,
                ));
            }
        }
    }
}

/// The entities of a scene and their components, one column per component type, indexed by
/// entity; the positions and velocities form the physics columns.
///
/// `P`, `V`, `R` and `S` are the position, velocity, rotation and scale types, `X` the
/// transform type.
#[derive(Debug)]
pub struct World<P, V, R, S, X> {
    positions: Vec<Option<P>>,
    velocities: Vec<Option<V>>,
    renderables: Vec<Option<Renderable>>,
    rotations: Vec<Option<R>>,
    scales: Vec<Option<S>>,
    transforms: Vec<Option<X>>,
    terrain: Terrain,
    entity_count: usize,
    dirty: bool,
}

impl<P, V, R, S, X> World<P, V, R, S, X> {
    pub closed spec fn spec_positions(&self) -> Seq<Option<P>> {
        self.positions@
    }

    pub closed spec fn spec_velocities(&self) -> Seq<Option<V>> {
        self.velocities@
    }

    pub closed spec fn spec_renderables(&self) -> Seq<Option<Renderable>> {
        self.renderables@
    }

    pub closed spec fn spec_rotations(&self) -> Seq<Option<R>> {
        self.rotations@
    }

    pub closed spec fn spec_scales(&self) -> Seq<Option<S>> {
        self.scales@
    }

    pub closed spec fn spec_transforms(&self) -> Seq<Option<X>> {
        self.transforms@
    }

    pub closed spec fn spec_terrain(&self) -> Terrain {
        self.terrain
    }

    pub closed spec fn spec_entity_count(&self) -> usize {
        self.entity_count
    }

    pub closed spec fn spec_dirty(&self) -> bool {
        self.dirty
    }

    /// Whether the world, apart from the columns, is as `other`.
    pub open spec fn same_but_columns(&self, other: &Self) -> bool {
        &&& self.spec_terrain() == other.spec_terrain()
        &&& self.spec_entity_count() == other.spec_entity_count()
        &&& self.spec_dirty() == other.spec_dirty()
    }

    /// Whether some column is shorter than `n`.
    pub open spec fn short_of(&self, n: nat) -> bool {
        ||| self.spec_positions().len() < n
        ||| self.spec_velocities().len() < n
        ||| self.spec_rotations().len() < n
        ||| self.spec_renderables().len() < n
        ||| self.spec_scales().len() < n
        ||| self.spec_transforms().len() < n
    }

    /// Column `col` of this world after making room for entity index `idx`: if any column is
    /// too short to hold it, all are made exactly long enough (which cuts longer ones).
    pub open spec fn room<T>(&self, col: Seq<Option<T>>, idx: nat) -> Seq<Option<T>> {
        if self.short_of(idx + 1) {
            resized(col, idx + 1)
        } else {
            col
        }
    }

    /// Physics column `col` of this world after making room for entity index `idx` in the
    /// physics columns alone: if the positions or velocities are too short, both are made
    /// exactly long enough.
    pub open spec fn physics_room<T>(&self, col: Seq<Option<T>>, idx: nat) -> Seq<Option<T>> {
        if self.spec_positions().len() < idx + 1 || self.spec_velocities().len() < idx + 1 {
            resized(col, idx + 1)
        } else {
            col
        }
    }

    /// `after`'s columns are `self`'s after making room for entity index `idx`.
    pub open spec fn columns_made_room(&self, idx: nat, after: &Self) -> bool {
        &&& after.spec_positions() == self.room(self.spec_positions(), idx)
        &&& after.spec_velocities() == self.room(self.spec_velocities(), idx)
        &&& after.spec_renderables() == self.room(self.spec_renderables(), idx)
        &&& after.spec_rotations() == self.room(self.spec_rotations(), idx)
        &&& after.spec_scales() == self.room(self.spec_scales(), idx)
        &&& after.spec_transforms() == self.room(self.spec_transforms(), idx)
    }

    /// A world with no entities over `terrain`.
    pub fn new(terrain: Terrain) -> (r: Self)
        ensures
            r.spec_entity_count() == 0,
            !r.spec_dirty(),
            r.spec_terrain() == terrain,
            r.spec_positions().len() == 0 && r.spec_velocities().len() == 0
                && r.spec_renderables().len() == 0 && r.spec_rotations().len() == 0
                && r.spec_scales().len() == 0 && r.spec_transforms().len() == 0,
    {
        Self {
            positions: Vec::new(),
            velocities: Vec::new(),
            renderables: Vec::new(),
            rotations: Vec::new(),
            scales: Vec::new(),
            transforms: Vec::new(),
            terrain,
            entity_count: 0,
            dirty: false,
        }
    }

    pub fn entity_count(&self) -> (r: usize)
        ensures
            r == self.spec_entity_count(),
    {
        self.entity_count
    }

    fn resize(&mut self, size: usize)
        ensures
            final(self).same_but_columns(old(self)),
            final(self).spec_positions() == resized(old(self).spec_positions(), size as nat),
            final(self).spec_velocities() == resized(old(self).spec_velocities(), size as nat),
            final(self).spec_renderables() == resized(old(self).spec_renderables(), size as nat),
            final(self).spec_rotations() == resized(old(self).spec_rotations(), size as nat),
            final(self).spec_scales() == resized(old(self).spec_scales(), size as nat),
            final(self).spec_transforms() == resized(old(self).spec_transforms(), size as nat),
    {
        resize_column(&mut self.positions, size);
        resize_column(&mut self.velocities, size);
        resize_column(&mut self.renderables, size);
        resize_column(&mut self.rotations, size);
        resize_column(&mut self.scales, size);
        resize_column(&mut self.transforms, size);
    }

    fn ensure_capacity(&mut self, idx: usize)
        requires
            idx < usize::MAX,
        ensures
            final(self).same_but_columns(old(self)),
            old(self).columns_made_room(idx as nat, final(self)),
    {
        let needed = idx + 1;
        if self.positions.len() < needed || self.velocities.len() < needed || self.rotations.len()
            < needed || self.renderables.len() < needed || self.scales.len() < needed
            || self.transforms.len() < needed {
            self.resize(needed);
        }
    }

    /// Makes room in the physics columns for entity index `idx`: if either is too short, both
    /// are made exactly long enough.
    fn ensure_physics_capacity(&mut self, idx: usize)
        requires
            idx < usize::MAX,
        ensures
            final(self).same_but_columns(old(self)),
            final(self).spec_positions() == old(self).physics_room(
                old(self).spec_positions(),
                idx as nat,
            ),
            final(self).spec_velocities() == old(self).physics_room(
                old(self).spec_velocities(),
                idx as nat,
            ),
            final(self).spec_renderables() == old(self).spec_renderables(),
            final(self).spec_rotations() == old(self).spec_rotations(),
            final(self).spec_scales() == old(self).spec_scales(),
            final(self).spec_transforms() == old(self).spec_transforms(),
    {
        let needed = idx + 1;
        if self.positions.len() < needed || self.velocities.len() < needed {
            resize_column(&mut self.positions, needed);
            resize_column(&mut self.velocities, needed);
        }
    }

    /// Gives `entity` a position, making room in the physics columns first.
    pub fn insert_position(&mut self, entity: Entity, pos: P)
        requires
            entity.0 < usize::MAX,
        ensures
            final(self).same_but_columns(old(self)),
            final(self).spec_positions() == slot_set(
                old(self).physics_room(old(self).spec_positions(), entity.0 as nat),
                entity.0 as int,
                pos,
            ),
            final(self).spec_velocities() == old(self).physics_room(
                old(self).spec_velocities(),
                entity.0 as nat,
            ),
            final(self).spec_renderables() == old(self).spec_renderables(),
            final(self).spec_rotations() == old(self).spec_rotations(),
            final(self).spec_scales() == old(self).spec_scales(),
            final(self).spec_transforms() == old(self).spec_transforms(),
    {
        self.ensure_physics_capacity(entity.0);
        self.positions.set(entity.0, Some(pos));
    }

    /// Gives `entity` a velocity, making room in the physics columns first.
    pub fn insert_velocity(&mut self, entity: Entity, vel: V)
        requires
            entity.0 < usize::MAX,
        ensures
            final(self).same_but_columns(old(self)),
            final(self).spec_velocities() == slot_set(
                old(self).physics_room(old(self).spec_velocities(), entity.0 as nat),
                entity.0 as int,
                vel,
            ),
            final(self).spec_positions() == old(self).physics_room(
                old(self).spec_positions(),
                entity.0 as nat,
            ),
            final(self).spec_renderables() == old(self).spec_renderables(),
            final(self).spec_rotations() == old(self).spec_rotations(),
            final(self).spec_scales() == old(self).spec_scales(),
            final(self).spec_transforms() == old(self).spec_transforms(),
    {
        self.ensure_physics_capacity(entity.0);
        self.velocities.set(entity.0, Some(vel));
    }

    /// Gives `entity` a scale, making room in all columns first.
    pub fn insert_scale(&mut self, entity: Entity, scale: S)
        requires
            entity.0 < usize::MAX,
        ensures
            final(self).same_but_columns(old(self)),
            final(self).spec_scales() == slot_set(
                old(self).room(old(self).spec_scales(), entity.0 as nat),
                entity.0 as int,
                scale,
            ),
            final(self).spec_positions() == old(self).room(old(self).spec_positions(), entity.0 as nat),
            final(self).spec_velocities() == old(self).room(old(self).spec_velocities(), entity.0 as nat),
            final(self).spec_renderables() == old(self).room(old(self).spec_renderables(), entity.0 as nat),
            final(self).spec_rotations() == old(self).room(old(self).spec_rotations(), entity.0 as nat),
            final(self).spec_transforms() == old(self).room(old(self).spec_transforms(), entity.0 as nat),
    {
        self.ensure_capacity(entity.0);
        self.scales.set(entity.0, Some(scale));
    }

    /// Gives `entity` a rotation, making room in all columns first.
    pub fn insert_rotation(&mut self, entity: Entity, rot: R)
        requires
            entity.0 < usize::MAX,
        ensures
            final(self).same_but_columns(old(self)),
            final(self).spec_rotations() == slot_set(
                old(self).room(old(self).spec_rotations(), entity.0 as nat),
                entity.0 as int,
                rot,
            ),
            final(self).spec_positions() == old(self).room(old(self).spec_positions(), entity.0 as nat),
            final(self).spec_velocities() == old(self).room(old(self).spec_velocities(), entity.0 as nat),
            final(self).spec_renderables() == old(self).room(old(self).spec_renderables(), entity.0 as nat),
            final(self).spec_scales() == old(self).room(old(self).spec_scales(), entity.0 as nat),
            final(self).spec_transforms() == old(self).room(old(self).spec_transforms(), entity.0 as nat),
    {
        self.ensure_capacity(entity.0);
        self.rotations.set(entity.0, Some(rot));
    }

    /// Gives `entity` a renderable, making room in all columns first.
    pub fn insert_renderable(&mut self, entity: Entity, renderable: Renderable)
        requires
            entity.0 < usize::MAX,
        ensures
            final(self).same_but_columns(old(self)),
            final(self).spec_renderables() == slot_set(
                old(self).room(old(self).spec_renderables(), entity.0 as nat),
                entity.0 as int,
                renderable,
            ),
            final(self).spec_positions() == old(self).room(old(self).spec_positions(), entity.0 as nat),
            final(self).spec_velocities() == old(self).room(old(self).spec_velocities(), entity.0 as nat),
            final(self).spec_rotations() == old(self).room(old(self).spec_rotations(), entity.0 as nat),
            final(self).spec_scales() == old(self).room(old(self).spec_scales(), entity.0 as nat),
            final(self).spec_transforms() == old(self).room(old(self).spec_transforms(), entity.0 as nat),
    {
        self.ensure_capacity(entity.0);
        self.renderables.set(entity.0, Some(renderable));
    }

    /// `entity`'s position, if it has one.
    pub fn position(&self, entity: Entity) -> (r: Option<&P>)
        ensures
            r == (match slot_get(self.spec_positions(), entity.0 as int) {
                Some(v) => Some(&v),
                None => None,
            }),
    {
        if entity.0 < self.positions.len() {
            self.positions[entity.0].as_ref()
        } else {
            None
        }
    }

    /// The position column, indexed by entity.
    pub fn positions(&self) -> (r: &[Option<P>])
        ensures
            r@ == self.spec_positions(),
    {
        self.positions.as_slice()
    }

    /// `entity`'s velocity, if it has one.
    pub fn velocity(&self, entity: Entity) -> (r: Option<&V>)
        ensures
            r == (match slot_get(self.spec_velocities(), entity.0 as int) {
                Some(v) => Some(&v),
                None => None,
            }),
    {
        if entity.0 < self.velocities.len() {
            self.velocities[entity.0].as_ref()
        } else {
            None
        }
    }

    /// The velocity column, indexed by entity.
    pub fn velocities(&self) -> (r: &[Option<V>])
        ensures
            r@ == self.spec_velocities(),
    {
        self.velocities.as_slice()
    }

    /// `entity`'s rotation, if it has one.
    pub fn rotation(&self, entity: Entity) -> (r: Option<&R>)
        ensures
            r == (match slot_get(self.spec_rotations(), entity.0 as int) {
                Some(v) => Some(&v),
                None => None,
            }),
    {
        if entity.0 < self.rotations.len() {
            self.rotations[entity.0].as_ref()
        } else {
            None
        }
    }

    /// The rotation column, indexed by entity.
    pub fn rotations(&self) -> (r: &[Option<R>])
        ensures
            r@ == self.spec_rotations(),
    {
        self.rotations.as_slice()
    }

    /// `entity`'s scale, if it has one.
    pub fn scale(&self, entity: Entity) -> (r: Option<&S>)
        ensures
            r == (match slot_get(self.spec_scales(), entity.0 as int) {
                Some(v) => Some(&v),
                None => None,
            }),
    {
        if entity.0 < self.scales.len() {
            self.scales[entity.0].as_ref()
        } else {
            None
        }
    }

    /// The scale column, indexed by entity.
    pub fn scales(&self) -> (r: &[Option<S>])
        ensures
            r@ == self.spec_scales(),
    {
        self.scales.as_slice()
    }

    /// `entity`'s renderable, if it has one.
    pub fn renderable(&self, entity: Entity) -> (r: Option<&Renderable>)
        ensures
            r == (match slot_get(self.spec_renderables(), entity.0 as int) {
                Some(v) => Some(&v),
                None => None,
            }),
    {
        if entity.0 < self.renderables.len() {
            self.renderables[entity.0].as_ref()
        } else {
            None
        }
    }

    /// The renderable column, indexed by entity.
    pub fn renderables(&self) -> (r: &[Option<Renderable>])
        ensures
            r@ == self.spec_renderables(),
    {
        self.renderables.as_slice()
    }

    /// `entity`'s transform, if it has one.
    pub fn transform(&self, entity: Entity) -> (r: Option<&X>)
        ensures
            r == (match slot_get(self.spec_transforms(), entity.0 as int) {
                Some(v) => Some(&v),
                None => None,
            }),
    {
        if entity.0 < self.transforms.len() {
            self.transforms[entity.0].as_ref()
        } else {
            None
        }
    }

    /// The transform column, indexed by entity.
    pub fn transforms(&self) -> (r: &[Option<X>])
        ensures
            r@ == self.spec_transforms(),
    {
        self.transforms.as_slice()
    }

    /// A mutable borrow of `entity`'s rotation, if it has one; what is written through it
    /// becomes the entity's rotation.
    pub fn rotation_mut(&mut self, entity: Entity) -> (r: Option<&mut R>)
        ensures
            (r is Some) == (slot_get(old(self).spec_rotations(), entity.0 as int) is Some),
            r is None ==> final(self).spec_rotations() == old(self).spec_rotations(),
            r matches Some(v) ==> Some(*v) == slot_get(old(self).spec_rotations(), entity.0 as int),
            r matches Some(v) ==> final(self).spec_rotations() == slot_set(
                old(self).spec_rotations(),
                entity.0 as int,
                *final(v),
            ),
            final(self).same_but_columns(old(self)),
            final(self).spec_positions() == old(self).spec_positions(),
            final(self).spec_velocities() == old(self).spec_velocities(),
            final(self).spec_renderables() == old(self).spec_renderables(),
            final(self).spec_transforms() == old(self).spec_transforms(),
            final(self).spec_scales() == old(self).spec_scales(),
    {
        if entity.0 < self.rotations.len() {
            self.rotations[entity.0].as_mut()
        } else {
            None
        }
    }

    /// A mutable borrow of `entity`'s scale, if it has one; what is written through it
    /// becomes the entity's scale.
    pub fn scale_mut(&mut self, entity: Entity) -> (r: Option<&mut S>)
        ensures
            (r is Some) == (slot_get(old(self).spec_scales(), entity.0 as int) is Some),
            r is None ==> final(self).spec_scales() == old(self).spec_scales(),
            r matches Some(v) ==> Some(*v) == slot_get(old(self).spec_scales(), entity.0 as int),
            r matches Some(v) ==> final(self).spec_scales() == slot_set(
                old(self).spec_scales(),
                entity.0 as int,
                *final(v),
            ),
            final(self).same_but_columns(old(self)),
            final(self).spec_positions() == old(self).spec_positions(),
            final(self).spec_velocities() == old(self).spec_velocities(),
            final(self).spec_renderables() == old(self).spec_renderables(),
            final(self).spec_transforms() == old(self).spec_transforms(),
            final(self).spec_rotations() == old(self).spec_rotations(),
    {
        if entity.0 < self.scales.len() {
            self.scales[entity.0].as_mut()
        } else {
            None
        }
    }

    /// Puts `transform` in slot `index` of the transform column.
    pub fn set_transform(&mut self, index: usize, transform: X)
        requires
            index < old(self).spec_transforms().len(),
        ensures
            final(self).spec_transforms() == slot_set(old(self).spec_transforms(), index as int, transform),
            final(self).same_but_columns(old(self)),
            final(self).spec_positions() == old(self).spec_positions(),
            final(self).spec_velocities() == old(self).spec_velocities(),
            final(self).spec_renderables() == old(self).spec_renderables(),
            final(self).spec_rotations() == old(self).spec_rotations(),
            final(self).spec_scales() == old(self).spec_scales(),
    {
        self.transforms.set(index, Some(transform));
    }

    /// Recomputes, with `compose`, the transform of every entity index below the transform
    /// column's length that has a position, a rotation and a scale; the other transforms stay.
    pub fn update_transforms<F: Fn(&P, &R, &S) -> X>(&mut self, compose: F)
        requires
            old(self).spec_positions().len() >= old(self).spec_transforms().len(),
            old(self).spec_rotations().len() >= old(self).spec_transforms().len(),
            old(self).spec_scales().len() >= old(self).spec_transforms().len(),
            forall|p: &P, r: &R, s: &S| #[trigger] compose.requires((p, r, s)),
        ensures
            final(self).same_but_columns(old(self)),
            final(self).spec_positions() == old(self).spec_positions(),
            final(self).spec_velocities() == old(self).spec_velocities(),
            final(self).spec_renderables() == old(self).spec_renderables(),
            final(self).spec_rotations() == old(self).spec_rotations(),
            final(self).spec_scales() == old(self).spec_scales(),
            final(self).spec_transforms().len() == old(self).spec_transforms().len(),
            forall|i: int|
                0 <= i < old(self).spec_transforms().len() ==> {
                    let p = old(self).spec_positions()[i];
                    let r = old(self).spec_rotations()[i];
                    let s = old(self).spec_scales()[i];
                    let t = #[trigger] final(self).spec_transforms()[i];
                    if p is Some && r is Some && s is Some {
                        t matches Some(x) && compose.ensures((&p->0, &r->0, &s->0), x)
                    } else {
                        t == old(self).spec_transforms()[i]
                    }
                },
    {
        let n = self.transforms.len();
        let mut i: usize = 0;
        while i < n
            invariant
                0 <= i <= n,
                n == old(self).spec_transforms().len(),
                self.transforms@.len() == n,
                self.positions@ == old(self).spec_positions(),
                self.velocities@ == old(self).spec_velocities(),
                self.renderables@ == old(self).spec_renderables(),
                self.rotations@ == old(self).spec_rotations(),
                self.scales@ == old(self).spec_scales(),
                self.terrain == old(self).spec_terrain(),
                self.entity_count == old(self).spec_entity_count(),
                self.dirty == old(self).spec_dirty(),
                self.positions@.len() >= n,
                self.rotations@.len() >= n,
                self.scales@.len() >= n,
                forall|p: &P, r: &R, s: &S| #[trigger] compose.requires((p, r, s)),
                forall|k: int|
                    i <= k < n ==> #[trigger] self.transforms@[k] == old(self).spec_transforms()[k],
                forall|k: int|
                    0 <= k < i ==> {
                        let p = old(self).spec_positions()[k];
                        let r = old(self).spec_rotations()[k];
                        let s = old(self).spec_scales()[k];
                        let t = #[trigger] self.transforms@[k];
                        if p is Some && r is Some && s is Some {
                            t matches Some(x) && compose.ensures((&p->0, &r->0, &s->0), x)
                        } else {
                            t == old(self).spec_transforms()[k]
                        }
                    },
            decreases n - i,
        {
            let made = match (&self.positions[i], &self.rotations[i], &self.scales[i]) {
                (Some(p), Some(r), Some(s)) => Some(compose(p, r, s)),
                _ => None,
            };
            if let Some(x) = made {
                self.transforms.set(i, Some(x));
            }
            i += 1;
        }
    }

    pub fn terrain(&self) -> (r: &Terrain)
        ensures
            *r == self.spec_terrain(),
    {
        &self.terrain
    }

    /// A mutable borrow of the terrain; nothing else of the world changes through it.
    pub fn terrain_mut(&mut self) -> (r: &mut Terrain)
        ensures
            *r == old(self).spec_terrain(),
            final(self).spec_terrain() == *final(r),
            final(self).spec_entity_count() == old(self).spec_entity_count(),
            final(self).spec_dirty() == old(self).spec_dirty(),
            final(self).spec_positions() == old(self).spec_positions(),
            final(self).spec_velocities() == old(self).spec_velocities(),
            final(self).spec_renderables() == old(self).spec_renderables(),
            final(self).spec_rotations() == old(self).spec_rotations(),
            final(self).spec_scales() == old(self).spec_scales(),
            final(self).spec_transforms() == old(self).spec_transforms(),
    {
        &mut self.terrain
    }

    /// Whether the world changed since it was last uploaded.
    pub fn is_dirty(&self) -> (r: bool)
        ensures
            r == self.spec_dirty(),
    {
        self.dirty
    }

    /// Marks the world as changed (`true`) or uploaded (`false`).
    pub fn set_dirty(&mut self, dirty: bool)
        ensures
            final(self).spec_dirty() == dirty,
            final(self).spec_terrain() == old(self).spec_terrain(),
            final(self).spec_entity_count() == old(self).spec_entity_count(),
            final(self).spec_positions() == old(self).spec_positions(),
            final(self).spec_velocities() == old(self).spec_velocities(),
            final(self).spec_renderables() == old(self).spec_renderables(),
            final(self).spec_rotations() == old(self).spec_rotations(),
            final(self).spec_scales() == old(self).spec_scales(),
            final(self).spec_transforms() == old(self).spec_transforms(),
    {
        self.dirty = dirty;
    }

    /// Spawns an entity and gives it `position`, `rotation`, `scale` and `renderable`.
    pub fn insert_object(&mut self, renderable: Renderable, position: P, rotation: R, scale: S) -> (e: Entity)
        requires
            old(self).spec_entity_count() < usize::MAX - 1,
        ensures
            e.0 == old(self).spec_entity_count(),
            final(self).spec_entity_count() == old(self).spec_entity_count() + 1,
            final(self).spec_terrain() == old(self).spec_terrain(),
            final(self).spec_dirty() == old(self).spec_dirty(),
            ({
                let n = (e.0 + 1) as nat;
                &&& final(self).spec_positions() == slot_set(
                    old(self).room(old(self).spec_positions(), n),
                    e.0 as int,
                    position,
                )
                &&& final(self).spec_rotations() == slot_set(
                    old(self).room(old(self).spec_rotations(), n),
                    e.0 as int,
                    rotation,
                )
                &&& final(self).spec_scales() == slot_set(
                    old(self).room(old(self).spec_scales(), n),
                    e.0 as int,
                    scale,
                )
                &&& final(self).spec_renderables() == slot_set(
                    old(self).room(old(self).spec_renderables(), n),
                    e.0 as int,
                    renderable,
                )
                &&& final(self).spec_velocities() == old(self).room(old(self).spec_velocities(), n)
                &&& final(self).spec_transforms() == old(self).room(old(self).spec_transforms(), n)
            }),
    {
        let entity = self.spawn();
        self.insert_position(entity, position);
        self.insert_rotation(entity, rotation);
        self.insert_scale(entity, scale);
        self.insert_renderable(entity, renderable);
        entity
    }

    /// A new entity: the next index. The columns are then made room for the index after it.
    pub fn spawn(&mut self) -> (e: Entity)
        requires
            old(self).spec_entity_count() < usize::MAX - 1,
        ensures
            e.0 == old(self).spec_entity_count(),
            final(self).spec_entity_count() == old(self).spec_entity_count() + 1,
            final(self).spec_terrain() == old(self).spec_terrain(),
            final(self).spec_dirty() == old(self).spec_dirty(),
            old(self).columns_made_room((old(self).spec_entity_count() + 1) as nat, final(self)),
    {
        let id = self.entity_count;
        self.entity_count += 1;
        self.ensure_capacity(self.entity_count);
        Entity(id)
    }
}

/// Reading an entity's slot right after writing it gives the written value, both when the write
/// makes room in all columns (a scale, a rotation, a renderable) and when it makes room in the
/// physics columns alone (a position, a velocity). The slots of lower entities keep their values;
/// those of higher entities do too unless the write had to make room, which cuts every column to
/// the written entity's length.
pub proof fn law_insert_then_read<P, V, R, S, X>(w: World<P, V, R, S, X>, e: Entity, s: S, p: P, j: int)
    requires
        j != e.0,
    ensures
        slot_get(slot_set(w.room(w.spec_scales(), e.0 as nat), e.0 as int, s), e.0 as int) == Some(s),
        slot_get(slot_set(w.physics_room(w.spec_positions(), e.0 as nat), e.0 as int, p), e.0 as int)
            == Some(p),
        j < e.0 ==> slot_get(slot_set(w.room(w.spec_scales(), e.0 as nat), e.0 as int, s), j)
            == slot_get(w.spec_scales(), j),
        !w.short_of((e.0 + 1) as nat) ==> slot_get(
            slot_set(w.room(w.spec_scales(), e.0 as nat), e.0 as int, s),
            j,
        ) == slot_get(w.spec_scales(), j),
{
}

} // verus!

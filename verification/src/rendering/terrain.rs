use super::chunk::{block_written, flat_block, in_chunk, Block, Chunk, CHUNK_SIZE};
use super::chunk_mesh::ChunkMesh;
use super::medium::Medium;
use crate::assoc::{
    entries_distinct, entries_insert, entries_map, entry_index, lemma_entries_map_at,
    lemma_entries_map_pointwise, lemma_entries_map_push, lemma_entries_map_swap_remove,
    lemma_entries_map_update,
};
use vstd::prelude::*;

verus! {

/// The position of a chunk on the world's chunk grid.
pub type ChunkPos = (i32, i32, i32);

/// The streamed terrain: the chunks around the camera, each with the medium that fills its
/// solid blocks, and the medium of the world where no chunk is loaded.
#[derive(Debug)]
pub struct Terrain {
    chunk_stream: Vec<(ChunkPos, (Chunk, Medium))>,
    default_medium: Medium,
    last_stream_center: Option<(i32, i32)>,
}

/// The medium at block `cell` of the world, looked up in the chunk at `chunk_pos`: air where
/// that chunk's block (at the cell's position within a chunk) is air, the chunk's medium where
/// it is solid, and `default` where no chunk is loaded at `chunk_pos`.
pub open spec fn medium_lookup(
    stream: Map<ChunkPos, (Chunk, Medium)>,
    default: Medium,
    chunk_pos: ChunkPos,
    cell: (int, int, int),
) -> Medium {
    if stream.contains_key(chunk_pos) {
        let local = (cell.0 % CHUNK_SIZE as int, cell.1 % CHUNK_SIZE as int, cell.2 % CHUNK_SIZE as int);
        if stream[chunk_pos].0.block_or_air(local.0, local.1, local.2) == 0 {
            Medium::Air
        } else {
            stream[chunk_pos].1
        }
    } else {
        default
    }
}

/// `after` is `before` with its mesh rebuilt if it was dirty, and `before` unchanged if not.
pub open spec fn meshed(before: Chunk, after: Chunk) -> bool {
    if before.dirty {
        &&& after.blocks == before.blocks
        &&& after.pos == before.pos
        &&& !after.dirty
        &&& after.mesh matches Some(m) && before.mesh_matches(m)
    } else {
        after == before
    }
}

/// `c` is a freshly made flat chunk at grid position `p`: stone floor, air above, no mesh yet.
pub open spec fn is_flat_chunk_at(c: Chunk, p: ChunkPos) -> bool {
    &&& c.pos == p
    &&& c.dirty
    &&& c.mesh is None
    &&& c.filled_by(|x: int, y: int, z: int| flat_block(x, y, z))
}

/// Whether grid position `p` lies in the square of chunks that a streaming pass around
/// `center` (an `(x, z)` pair) keeps: the ground layer, within `distance` on both axes.
pub open spec fn in_stream_square(center: (i32, i32), distance: int, p: ChunkPos) -> bool {
    &&& p.1 == 0
    &&& center.0 - distance <= p.0 <= center.0 + distance
    &&& center.1 - distance <= p.2 <= center.1 + distance
}

/// The number of chunks along a side of the streaming square.
pub open spec fn square_side(distance: int) -> nat {
    if distance >= 0 {
        (2 * distance + 1) as nat
    } else {
        0
    }
}

/// The grid position of the chunk that holds world block `(x, 0, z)`.
pub open spec fn chunk_of(x: int, z: int) -> ChunkPos {
    ((x / CHUNK_SIZE as int) as i32, 0, (z / CHUNK_SIZE as int) as i32)
}

/// The medium a chunk created at `p` during a streaming pass gets: the medium at world block
/// `(p.0, 0, p.2)`. Where the chunk holding that block was itself created earlier in the pass
/// (its floor is solid) that chunk's medium; otherwise what was loaded before the pass says.
pub open spec fn new_chunk_medium(
    before: Map<ChunkPos, (Chunk, Medium)>,
    made: Map<ChunkPos, Medium>,
    default: Medium,
    p: ChunkPos,
) -> Medium {
    let q = chunk_of(p.0 as int, p.2 as int);
    if made.contains_key(q) {
        made[q]
    } else {
        medium_lookup(before, default, q, (p.0 as int, 0, p.2 as int))
    }
}

/// One step of a streaming pass at position `p`: a chunk is made there unless one is loaded.
pub open spec fn stream_step(
    before: Map<ChunkPos, (Chunk, Medium)>,
    made: Map<ChunkPos, Medium>,
    default: Medium,
    p: ChunkPos,
) -> Map<ChunkPos, Medium> {
    if before.contains_key(p) || made.contains_key(p) {
        made
    } else {
        made.insert(p, new_chunk_medium(before, made, default, p))
    }
}

/// The media of the chunks a streaming pass has made after the first `nx` rows (by `x`) of
/// its square and the first `nz` positions (by `z`) of the next row.
pub open spec fn streamed_media(
    before: Map<ChunkPos, (Chunk, Medium)>,
    default: Medium,
    center: (i32, i32),
    distance: int,
    nx: nat,
    nz: nat,
) -> Map<ChunkPos, Medium>
    decreases nx, nz,
{
    if nz > 0 {
        let p = ((center.0 - distance + nx) as i32, 0i32, (center.1 - distance + nz - 1) as i32);
        stream_step(
            before,
            streamed_media(before, default, center, distance, nx, (nz - 1) as nat),
            default,
            p,
        )
    } else if nx > 0 {
        streamed_media(before, default, center, distance, (nx - 1) as nat, square_side(distance))
    } else {
        Map::empty()
    }
}

/// `after` is what a streaming pass around `center` within `distance` leaves of `before`:
/// exactly the square's chunks, those loaded before kept as they were and the others made
/// flat, with the media the pass gave them.
pub open spec fn chunks_streamed(
    before: Map<ChunkPos, (Chunk, Medium)>,
    default: Medium,
    center: (i32, i32),
    distance: int,
    after: Map<ChunkPos, (Chunk, Medium)>,
) -> bool {
    let made = streamed_media(before, default, center, distance, square_side(distance), 0);
    &&& forall|p: ChunkPos| #[trigger] after.contains_key(p) == in_stream_square(center, distance, p)
    &&& forall|p: ChunkPos|
        in_stream_square(center, distance, p) && before.contains_key(p) ==> #[trigger] after[p]
            == before[p]
    &&& forall|p: ChunkPos|
        in_stream_square(center, distance, p) && !before.contains_key(p) ==> {
            &&& made.contains_key(p)
            &&& is_flat_chunk_at(#[trigger] after[p].0, p)
            &&& after[p].1 == made[p]
        }
}

/// `after` is `before` with every dirty chunk's mesh rebuilt.
pub open spec fn meshes_built(
    before: Map<ChunkPos, (Chunk, Medium)>,
    after: Map<ChunkPos, (Chunk, Medium)>,
) -> bool {
    &&& after.dom() == before.dom()
    &&& forall|p: ChunkPos|
        #[trigger] before.contains_key(p) ==> {
            &&& after[p].1 == before[p].1
            &&& meshed(before[p].0, after[p].0)
        }
}

/// Whether a camera move to `center` triggers a streaming pass: the center changed since the
/// last pass (or there was none) and, the absent last center counting as `center`, a sum of
/// the last and new coordinates reaches `view_distance` in size.
pub open spec fn streaming_due(last: Option<(i32, i32)>, center: (i32, i32), view_distance: int) -> bool {
    let o = match last {
        Some(o) => o,
        None => center,
    };
    &&& last != Some(center)
    &&& (abs(o.0 + center.0) >= view_distance || abs(o.1 + center.1) >= view_distance)
}

/// The absolute value of `x`.
pub open spec fn abs(x: int) -> int {
    if x < 0 {
        -x
    } else {
        x
    }
}

/// The meshes of the chunks in `s` that have one, in order.
pub open spec fn entries_meshes(s: Seq<(ChunkPos, (Chunk, Medium))>) -> Seq<ChunkMesh>
    decreases s.len(),
{
    if s.len() == 0 {
        Seq::empty()
    } else {
        let prev = entries_meshes(s.drop_last());
        match s.last().1.0.mesh {
            Some(m) => prev.push(m),
            None => prev,
        }
    }
}

impl Terrain {
    /// The loaded chunks in storage order, each under its grid position.
    pub closed spec fn entries(self) -> Seq<(ChunkPos, (Chunk, Medium))> {
        self.chunk_stream@
    }

    /// The loaded chunks by grid position, each with its medium.
    pub open spec fn stream(self) -> Map<ChunkPos, (Chunk, Medium)> {
        entries_map(self.entries())
    }

    /// No grid position is loaded twice.
    pub closed spec fn wf(self) -> bool {
        entries_distinct(self.chunk_stream@)
    }

    /// The medium where no chunk is loaded.
    pub closed spec fn spec_default_medium(self) -> Medium {
        self.default_medium
    }

    /// The streaming center of the last streaming pass, if there was one.
    pub closed spec fn last_center(self) -> Option<(i32, i32)> {
        self.last_stream_center
    }

    pub fn new(default_medium: Medium) -> (r: Self)
        ensures
            r.wf(),
            r.stream() == Map::<ChunkPos, (Chunk, Medium)>::empty(),
            r.spec_default_medium() == default_medium,
            r.last_center() is None,
    {
        let r = Self { chunk_stream: Vec::new(), default_medium, last_stream_center: None };
        assert(r.stream() =~= Map::<ChunkPos, (Chunk, Medium)>::empty());
        r
    }

    /// The storage position of the chunk at `pos`, if one is loaded there.
    fn find(&self, pos: ChunkPos) -> (r: Option<usize>)
        requires
            self.wf(),
        ensures
            (r is Some) == self.stream().contains_key(pos),
            r matches Some(i) ==> i < self.entries().len() && self.entries()[i as int].0 == pos
                && i == entry_index(self.entries(), pos),
    {
        let n = self.chunk_stream.len();
        let mut i: usize = 0;
        while i < n
            invariant
                self.wf(),
                n == self.chunk_stream@.len(),
                i <= n,
                forall|j: int| 0 <= j < i ==> #[trigger] self.chunk_stream@[j].0 != pos,
            decreases n - i,
        {
            let k = self.chunk_stream[i].0;
            if k.0 == pos.0 && k.1 == pos.1 && k.2 == pos.2 {
                proof {
                    lemma_entries_map_at(self.entries(), i as int);
                    let j = entry_index(self.entries(), pos);
                    assert(0 <= j < self.entries().len() && self.entries()[j].0 == pos);
                }
                return Some(i);
            }
            i += 1;
        }
        None
    }

    /// Loads `chunk` at its grid position with `medium`, replacing what was loaded there.
    pub fn insert_chunk_stream(&mut self, chunk: Chunk, medium: Medium)
        requires
            old(self).wf(),
        ensures
            final(self).wf(),
            final(self).stream() == old(self).stream().insert(chunk.pos, (chunk, medium)),
            final(self).spec_default_medium() == old(self).spec_default_medium(),
            final(self).last_center() == old(self).last_center(),
    {
        let pos = chunk.pos;
        let ghost s = self.entries();
        match self.find(pos) {
            Some(i) => {
                proof {
                    lemma_entries_map_update(s, i as int, (chunk, medium));
                }
                self.chunk_stream.set(i, (pos, (chunk, medium)));
                proof {
                    assert(self.entries() =~= s.update(i as int, (pos, (chunk, medium))));
                }
            },
            None => {
                proof {
                    lemma_entries_map_push(s, pos, (chunk, medium));
                }
                self.chunk_stream.push((pos, (chunk, medium)));
            },
        }
    }

    /// The chunk loaded at `pos` with its medium, if any.
    pub fn get_chunk_stream(&self, pos: ChunkPos) -> (r: Option<&(Chunk, Medium)>)
        requires
            self.wf(),
        ensures
            r == (if self.stream().contains_key(pos) {
                Some(&self.stream()[pos])
            } else {
                None
            }),
    {
        match self.find(pos) {
            Some(i) => {
                proof {
                    lemma_entries_map_at(self.entries(), i as int);
                }
                Some(&self.chunk_stream[i].1)
            },
            None => None,
        }
    }

    /// A mutable borrow of the chunk loaded at `pos` with its medium, if any. What is written
    /// through it stays filed under `pos`.
    pub fn get_chunk_stream_mut(&mut self, pos: ChunkPos) -> (r: Option<&mut (Chunk, Medium)>)
        requires
            old(self).wf(),
        ensures
            (r is Some) == old(self).stream().contains_key(pos),
            r is None ==> *final(self) == *old(self),
            r matches Some(v) ==> *v == old(self).stream()[pos],
            r matches Some(v) ==> final(self).wf(),
            r matches Some(v) ==> final(self).entries() == entries_insert(
                old(self).entries(),
                pos,
                *final(v),
            ),
            final(self).spec_default_medium() == old(self).spec_default_medium(),
            final(self).last_center() == old(self).last_center(),
    {
        let i = match self.find(pos) {
            Some(i) => i,
            None => return None,
        };
        proof {
            let s = self.entries();
            lemma_entries_map_at(s, i as int);
            assert forall|c: (Chunk, Medium)|
                #![trigger entries_insert(s, pos, c)]
                entries_insert(s, pos, c) == s.update(i as int, (pos, c)) && entries_distinct(
                    entries_insert(s, pos, c),
                ) by {
                lemma_entries_map_update(s, i as int, c);
            }
        }
        Some(&mut self.chunk_stream[i].1)
    }

    /// Rebuilds the mesh of every dirty chunk and marks it clean.
    pub fn stream_build_meshes(&mut self)
        requires
            old(self).wf(),
        ensures
            final(self).wf(),
            meshes_built(old(self).stream(), final(self).stream()),
            final(self).spec_default_medium() == old(self).spec_default_medium(),
            final(self).last_center() == old(self).last_center(),
    {
        let n = self.chunk_stream.len();
        let mut i: usize = 0;
        while i < n
            invariant
                n == self.chunk_stream@.len(),
                n == old(self).chunk_stream@.len(),
                i <= n,
                self.default_medium == old(self).default_medium,
                self.last_stream_center == old(self).last_stream_center,
                forall|j: int|
                    0 <= j < n ==> {
                        &&& #[trigger] self.chunk_stream@[j].0 == old(self).chunk_stream@[j].0
                        &&& self.chunk_stream@[j].1.1 == old(self).chunk_stream@[j].1.1
                    },
                forall|j: int|
                    0 <= j < i ==> meshed(
                        old(self).chunk_stream@[j].1.0,
                        #[trigger] self.chunk_stream@[j].1.0,
                    ),
                forall|j: int| i <= j < n ==> #[trigger] self.chunk_stream@[j] == old(self).chunk_stream@[j],
            decreases n - i,
        {
            if self.chunk_stream[i].1.0.dirty {
                let mesh = self.chunk_stream[i].1.0.build_chunk_mesh();
                self.chunk_stream[i].1.0.mesh = Some(mesh);
                self.chunk_stream[i].1.0.dirty = false;
            }
            i += 1;
        }
        proof {
            lemma_entries_map_pointwise(old(self).entries(), self.entries());
        }
    }

    /// Streams the square of chunks around `center` within `distance`: makes a flat chunk at
    /// each position of the square where none is loaded, unloads every chunk outside it, and
    /// records `center` as the last streaming center.
    fn stream_build_chunks(&mut self, center: (i32, i32), distance: i32)
        requires
            old(self).wf(),
            distance > i32::MIN,
            distance >= 0 ==> {
                &&& -0x100_0000 <= center.0 - distance
                &&& center.0 + distance <= 0x100_0000
                &&& -0x100_0000 <= center.1 - distance
                &&& center.1 + distance <= 0x100_0000
            },
        ensures
            final(self).wf(),
            chunks_streamed(
                old(self).stream(),
                old(self).spec_default_medium(),
                center,
                distance as int,
                final(self).stream(),
            ),
            final(self).spec_default_medium() == old(self).spec_default_medium(),
            final(self).last_center() == Some(center),
    {
        let ghost before = self.stream();
        let ghost default = self.default_medium;
        let ghost d = distance as int;
        let ghost side = square_side(d);
        let mut dx: i32 = -distance;
        while dx <= distance
            invariant
                self.wf(),
                self.default_medium == default,
                d == distance,
                side == square_side(d),
                distance >= 0 ==> {
                    &&& -0x100_0000 <= center.0 - distance
                    &&& center.0 + distance <= 0x100_0000
                    &&& -0x100_0000 <= center.1 - distance
                    &&& center.1 + distance <= 0x100_0000
                },
                -distance <= dx,
                distance >= 0 ==> dx <= distance + 1,
                distance < 0 ==> dx == -distance,
                ({
                    let made = streamed_media(before, default, center, d, (dx + d) as nat, 0);
                    &&& forall|p: ChunkPos|
                        #[trigger] self.stream().contains_key(p) == (before.contains_key(p)
                            || made.contains_key(p))
                    &&& forall|p: ChunkPos|
                        #[trigger] before.contains_key(p) ==> self.stream()[p] == before[p]
                    &&& forall|p: ChunkPos|
                        #[trigger] made.contains_key(p) ==> {
                            &&& !before.contains_key(p)
                            &&& in_stream_square(center, d, p)
                            &&& is_flat_chunk_at(self.stream()[p].0, p)
                            &&& self.stream()[p].1 == made[p]
                        }
                    &&& forall|p: ChunkPos|
                        in_stream_square(center, d, p) && p.0 < center.0 - d + (dx + d)
                            ==> #[trigger] before.contains_key(p) || made.contains_key(p)
                }),
            decreases distance + 1 - dx,
        {
            let ghost nx = (dx + d) as nat;
            let mut dz: i32 = -distance;
            while dz <= distance
                invariant
                    self.wf(),
                    self.default_medium == default,
                    d == distance,
                    side == square_side(d),
                    nx == dx + d,
                    distance >= 0,
                    -0x100_0000 <= center.0 - distance,
                    center.0 + distance <= 0x100_0000,
                    -0x100_0000 <= center.1 - distance,
                    center.1 + distance <= 0x100_0000,
                    -distance <= dx <= distance,
                    -distance <= dz <= distance + 1,
                    ({
                        let made = streamed_media(before, default, center, d, nx, (dz + d) as nat);
                        &&& forall|p: ChunkPos|
                            #[trigger] self.stream().contains_key(p) == (before.contains_key(p)
                                || made.contains_key(p))
                        &&& forall|p: ChunkPos|
                            #[trigger] before.contains_key(p) ==> self.stream()[p] == before[p]
                        &&& forall|p: ChunkPos|
                            #[trigger] made.contains_key(p) ==> {
                                &&& !before.contains_key(p)
                                &&& in_stream_square(center, d, p)
                                &&& is_flat_chunk_at(self.stream()[p].0, p)
                                &&& self.stream()[p].1 == made[p]
                            }
                        &&& forall|p: ChunkPos|
                            in_stream_square(center, d, p) && (p.0 < center.0 + dx || (p.0
                                == center.0 + dx && p.2 < center.1 + dz))
                                ==> #[trigger] before.contains_key(p) || made.contains_key(p)
                    }),
                decreases distance + 1 - dz,
            {
                let ghost made = streamed_media(before, default, center, d, nx, (dz + d) as nat);
                let p: ChunkPos = (center.0 + dx, 0, center.1 + dz);
                proof {
                    assert(streamed_media(before, default, center, d, nx, (dz + d + 1) as nat)
                        == stream_step(before, made, default, p));
                }
                if self.find(p).is_none() {
                    let q: ChunkPos = (
                        p.0.checked_div_euclid(CHUNK_SIZE as i32).unwrap(),
                        0,
                        p.2.checked_div_euclid(CHUNK_SIZE as i32).unwrap(),
                    );
                    let medium = self.medium_at(q, (p.0 as isize, 0, p.2 as isize));
                    proof {
                        assert(q == chunk_of(p.0 as int, p.2 as int));
                        if made.contains_key(q) {
                            let c = self.stream()[q].0;
                            let lx = p.0 as int % CHUNK_SIZE as int;
                            let lz = p.2 as int % CHUNK_SIZE as int;
                            assert(in_chunk(lx, 0, lz));
                            assert(c.block(lx, 0, lz) == flat_block(lx, 0, lz));
                        }
                        assert(medium == new_chunk_medium(before, made, default, p));
                    }
                    let chunk = Chunk::flat(p);
                    self.insert_chunk_stream(chunk, medium);
                }
                dz += 1;
            }
            proof {
                assert(streamed_media(before, default, center, d, nx + 1, 0) == streamed_media(
                    before,
                    default,
                    center,
                    d,
                    nx,
                    side,
                ));
            }
            dx += 1;
        }
        proof {
            assert((dx + d) as nat == side);
        }
        let ghost made = streamed_media(before, default, center, d, side, 0);
        let ghost mid = self.stream();
        proof {
            assert forall|p: ChunkPos| in_stream_square(center, d, p) implies #[trigger] mid.contains_key(p) by {
                assert(p.0 < center.0 - d + (dx + d));
                assert(before.contains_key(p) || made.contains_key(p));
            }
        }
        let mut i: usize = 0;
        while i < self.chunk_stream.len()
            invariant
                self.wf(),
                self.default_medium == default,
                d == distance,
                i <= self.chunk_stream@.len(),
                forall|j: int|
                    0 <= j < i ==> in_stream_square(center, d, #[trigger] self.chunk_stream@[j].0),
                forall|p: ChunkPos|
                    #[trigger] self.stream().contains_key(p) ==> mid.contains_key(p)
                        && self.stream()[p] == mid[p],
                forall|p: ChunkPos|
                    mid.contains_key(p) && in_stream_square(center, d, p)
                        ==> #[trigger] self.stream().contains_key(p),
            decreases self.chunk_stream@.len() - i,
        {
            let k = self.chunk_stream[i].0;
            let keep = k.1 == 0 && center.0 as i64 - distance as i64 <= k.0 as i64 && k.0 as i64
                <= center.0 as i64 + distance as i64 && center.1 as i64 - distance as i64
                <= k.2 as i64 && k.2 as i64 <= center.1 as i64 + distance as i64;
            if keep {
                i += 1;
            } else {
                let ghost s = self.entries();
                let ghost st = self.stream();
                proof {
                    lemma_entries_map_swap_remove(s, i as int);
                }
                let _dropped = self.chunk_stream.swap_remove(i);
                proof {
                    assert(self.entries() == s.update(i as int, s.last()).drop_last());
                    assert(self.stream() == entries_map(s).remove(k));
                    assert(!in_stream_square(center, d, k));
                    assert forall|p: ChunkPos| #[trigger]
                        self.stream().contains_key(p) implies mid.contains_key(p) && self.stream()[p]
                        == mid[p] by {
                        assert(st.contains_key(p));
                        assert(self.stream()[p] == st[p]);
                    }
                    assert forall|p: ChunkPos|
                        mid.contains_key(p) && in_stream_square(center, d, p) implies #[trigger] self.stream().contains_key(
                        p,
                    ) by {
                        assert(st.contains_key(p));
                        assert(p != k);
                    }
                    assert forall|j: int| 0 <= j < i implies in_stream_square(
                        center,
                        d,
                        #[trigger] self.chunk_stream@[j].0,
                    ) by {
                        assert(self.chunk_stream@[j] == s[j]);
                    }
                }
            }
        }
        proof {
            assert forall|p: ChunkPos| #[trigger]
                self.stream().contains_key(p) implies in_stream_square(center, d, p) by {
                let j = choose|j: int| 0 <= j < self.entries().len() && #[trigger] self.entries()[j].0 == p;
                assert(in_stream_square(center, d, self.chunk_stream@[j].0));
            }
            let after = self.stream();
            assert forall|p: ChunkPos|
                in_stream_square(center, d, p) && before.contains_key(p) implies #[trigger] after[p]
                == before[p] by {
                assert(mid.contains_key(p));
                assert(after.contains_key(p));
            }
            assert forall|p: ChunkPos|
                in_stream_square(center, d, p) && !before.contains_key(p) implies {
                &&& made.contains_key(p)
                &&& is_flat_chunk_at(#[trigger] after[p].0, p)
                &&& after[p].1 == made[p]
            } by {
                assert(mid.contains_key(p));
                assert(after.contains_key(p));
            }
        }
        self.last_stream_center = Some(center);
    }

    /// Streams the terrain around the camera's grid cell `center` (its `x`, `z`): when
    /// `streaming_due`, loads and unloads chunks as `stream_build_chunks` does and then builds
    /// the dirty meshes; otherwise leaves the terrain as it is.
    pub fn update_streaming(&mut self, center: (i32, i32), view_distance: i32)
        requires
            old(self).wf(),
            view_distance > i32::MIN,
            view_distance >= 0 ==> {
                &&& -0x100_0000 <= center.0 - view_distance
                &&& center.0 + view_distance <= 0x100_0000
                &&& -0x100_0000 <= center.1 - view_distance
                &&& center.1 + view_distance <= 0x100_0000
            },
            ({
                let o = match old(self).last_center() {
                    Some(o) => o,
                    None => center,
                };
                &&& i32::MIN < o.0 + center.0 <= i32::MAX
                &&& i32::MIN < o.1 + center.1 <= i32::MAX
            }),
        ensures
            final(self).wf(),
            final(self).spec_default_medium() == old(self).spec_default_medium(),
            !streaming_due(old(self).last_center(), center, view_distance as int) ==> *final(self)
                == *old(self),
            streaming_due(old(self).last_center(), center, view_distance as int) ==> {
                &&& final(self).last_center() == Some(center)
                &&& exists|mid: Map<ChunkPos, (Chunk, Medium)>|
                    chunks_streamed(
                        old(self).stream(),
                        old(self).spec_default_medium(),
                        center,
                        view_distance as int,
                        mid,
                    ) && meshes_built(mid, final(self).stream())
            },
    {
        if let Some(last) = self.last_stream_center {
            if last.0 == center.0 && last.1 == center.1 {
                return;
            }
        }
        let old_center = match self.last_stream_center {
            Some(o) => o,
            None => center,
        };
        let sx = old_center.0 + center.0;
        let sz = old_center.1 + center.1;
        let ax = if sx < 0 {
            -sx
        } else {
            sx
        };
        let az = if sz < 0 {
            -sz
        } else {
            sz
        };
        if ax >= view_distance || az >= view_distance {
            self.stream_build_chunks(center, view_distance);
            let ghost mid = self.stream();
            self.stream_build_meshes();
            proof {
                assert(meshes_built(mid, self.stream()));
            }
        }
    }

    /// The meshes of the loaded chunks that have one, in storage order.
    pub fn all_meshes(&self) -> (r: Vec<&ChunkMesh>)
        ensures
            r@.len() == entries_meshes(self.entries()).len(),
            forall|i: int| 0 <= i < r@.len() ==> *#[trigger] r@[i] == entries_meshes(self.entries())[i],
    {
        let mut out: Vec<&ChunkMesh> = Vec::new();
        let n = self.chunk_stream.len();
        let mut i: usize = 0;
        while i < n
            invariant
                n == self.chunk_stream@.len(),
                i <= n,
                out@.len() == entries_meshes(self.entries().take(i as int)).len(),
                forall|j: int|
                    0 <= j < out@.len() ==> *#[trigger] out@[j] == entries_meshes(
                        self.entries().take(i as int),
                    )[j],
            decreases n - i,
        {
            proof {
                assert(self.entries().take(i as int + 1).drop_last() =~= self.entries().take(
                    i as int,
                ));
            }
            match &self.chunk_stream[i].1.0.mesh {
                Some(m) => {
                    out.push(m);
                },
                None => {},
            }
            i += 1;
        }
        proof {
            assert(self.entries().take(n as int) =~= self.entries());
        }
        out
    }

    /// The grid positions of the loaded chunks, in storage order.
    pub fn chunk_positions(&self) -> (r: Vec<ChunkPos>)
        ensures
            r@.len() == self.entries().len(),
            forall|i: int| 0 <= i < r@.len() ==> #[trigger] r@[i] == self.entries()[i].0,
    {
        let mut out: Vec<ChunkPos> = Vec::new();
        let n = self.chunk_stream.len();
        let mut i: usize = 0;
        while i < n
            invariant
                n == self.chunk_stream@.len(),
                i <= n,
                out@.len() == i,
                forall|j: int| 0 <= j < i ==> #[trigger] out@[j] == self.entries()[j].0,
            decreases n - i,
        {
            out.push(self.chunk_stream[i].0);
            i += 1;
        }
        out
    }

    /// The medium where no chunk is loaded.
    pub fn default_medium(&self) -> (r: Medium)
        ensures
            r == self.spec_default_medium(),
    {
        self.default_medium
    }

    /// The medium at world block `cell`, found in the chunk at `chunk_pos` (the grid cell
    /// that holds it).
    pub fn medium_at(&self, chunk_pos: ChunkPos, cell: (isize, isize, isize)) -> (r: Medium)
        requires
            self.wf(),
        ensures
            r == medium_lookup(
                self.stream(),
                self.spec_default_medium(),
                chunk_pos,
                (cell.0 as int, cell.1 as int, cell.2 as int),
            ),
    {
        match self.get_chunk_stream(chunk_pos) {
            Some(entry) => {
                let lx = cell.0.checked_rem_euclid(CHUNK_SIZE as isize).unwrap();
                let ly = cell.1.checked_rem_euclid(CHUNK_SIZE as isize).unwrap();
                let lz = cell.2.checked_rem_euclid(CHUNK_SIZE as isize).unwrap();
                if entry.0.get_block(lx, ly, lz) == 0 {
                    Medium::Air
                } else {
                    entry.1
                }
            },
            None => self.default_medium,
        }
    }
}

/// The medium at a block reads that very block: once block `(x, y, z)` of a chunk is written
/// with `block` and the chunk is loaded at `p` with medium `m`, the medium at any world cell of
/// that chunk position whose coordinates equal `(x, y, z)` modulo the chunk size is air when
/// `block` is 0 and `m` otherwise.
pub proof fn law_medium_reads_written_block(
    stream: Map<ChunkPos, (Chunk, Medium)>,
    default: Medium,
    p: ChunkPos,
    before: Chunk,
    after: Chunk,
    m: Medium,
    x: int,
    y: int,
    z: int,
    block: Block,
    i: int,
    j: int,
    k: int,
)
    requires
        in_chunk(x, y, z),
        block_written(before, after, x, y, z, block),
    ensures
        medium_lookup(
            stream.insert(p, (after, m)),
            default,
            p,
            (x + CHUNK_SIZE as int * i, y + CHUNK_SIZE as int * j, z + CHUNK_SIZE as int * k),
        ) == if block == 0 {
            Medium::Air
        } else {
            m
        },
{
    let n = CHUNK_SIZE as int;
    assert((x + n * i) % n == x) by (nonlinear_arith)
        requires
            0 <= x < n,
            n == 16,
    ;
    assert((y + n * j) % n == y) by (nonlinear_arith)
        requires
            0 <= y < n,
            n == 16,
    ;
    assert((z + n * k) % n == z) by (nonlinear_arith)
        requires
            0 <= z < n,
            n == 16,
    ;
    assert(after.block(x, y, z) == block);
}

/// Where no chunk is loaded, the medium is the terrain's default.
pub proof fn law_medium_unloaded_is_default(
    stream: Map<ChunkPos, (Chunk, Medium)>,
    default: Medium,
    p: ChunkPos,
    cell: (int, int, int),
)
    requires
        !stream.contains_key(p),
    ensures
        medium_lookup(stream, default, p, cell) == default,
{
}

/// A camera that stays in the grid cell of the last streaming pass triggers no new pass.
pub proof fn law_streaming_settles(center: (i32, i32), view_distance: int)
    ensures
        !streaming_due(Some(center), center, view_distance),
{
}

/// The two horizontal axes count alike: swapping the `x` and `z` coordinates of the last and
/// the new center leaves unchanged whether a streaming pass is due.
pub proof fn law_streaming_due_symmetric(last: Option<(i32, i32)>, center: (i32, i32), view_distance: int)
    ensures
        streaming_due(last, center, view_distance) == streaming_due(
            match last {
                Some(o) => Some((o.1, o.0)),
                None => None,
            },
            (center.1, center.0),
            view_distance,
        ),
{
}

/// A camera that moved calls for a streaming pass as soon as either coordinate alone does:
/// with no pass yet, when twice its `x` or twice its `z` reaches the view distance in size;
/// after a pass at `o`, when `o`'s and the new `x` (or `z`) sum to that much in size.
pub proof fn law_streaming_due_on_either_axis(center: (i32, i32), o: (i32, i32), view_distance: int)
    ensures
        (2 * center.0 >= view_distance || -2 * center.0 >= view_distance) ==> streaming_due(
            None,
            center,
            view_distance,
        ),
        (2 * center.1 >= view_distance || -2 * center.1 >= view_distance) ==> streaming_due(
            None,
            center,
            view_distance,
        ),
        o != center && (o.0 + center.0 >= view_distance || -(o.0 + center.0) >= view_distance)
            ==> streaming_due(Some(o), center, view_distance),
        o != center && (o.1 + center.1 >= view_distance || -(o.1 + center.1) >= view_distance)
            ==> streaming_due(Some(o), center, view_distance),
{
}

/// After a due streaming pass and the mesh building that follows it, exactly the chunks of the
/// square around the center are loaded, none of them dirty; those loaded before the pass keep
/// their media, and the new ones are flat with the media the pass gave them.
pub proof fn law_streamed_terrain(
    before: Map<ChunkPos, (Chunk, Medium)>,
    default: Medium,
    center: (i32, i32),
    distance: int,
    mid: Map<ChunkPos, (Chunk, Medium)>,
    after: Map<ChunkPos, (Chunk, Medium)>,
)
    requires
        chunks_streamed(before, default, center, distance, mid),
        meshes_built(mid, after),
    ensures
        forall|p: ChunkPos| #[trigger] after.contains_key(p) <==> in_stream_square(center, distance, p),
        forall|p: ChunkPos| #[trigger] after.contains_key(p) ==> !after[p].0.dirty,
        forall|p: ChunkPos|
            #[trigger] after.contains_key(p) && before.contains_key(p) ==> after[p].1 == before[p].1
                && after[p].0.blocks == before[p].0.blocks,
        forall|p: ChunkPos|
            #[trigger] after.contains_key(p) && !before.contains_key(p) ==> after[p].0.pos == p
                && after[p].0.filled_by(|x: int, y: int, z: int| flat_block(x, y, z)) && after[p].1
                == streamed_media(before, default, center, distance, square_side(distance), 0)[p],
{
    assert forall|p: ChunkPos| #[trigger] after.contains_key(p) <==> in_stream_square(center, distance, p) by {
        assert(after.dom().contains(p) == mid.dom().contains(p));
        assert(mid.contains_key(p) == in_stream_square(center, distance, p));
    }
    assert forall|p: ChunkPos| #[trigger] after.contains_key(p) implies !after[p].0.dirty by {
        assert(mid.contains_key(p));
    }
    assert forall|p: ChunkPos| #[trigger] after.contains_key(p) && before.contains_key(p) implies after[p].1
        == before[p].1 && after[p].0.blocks == before[p].0.blocks by {
        assert(mid.contains_key(p));
        assert(mid[p] == before[p]);
    }
    assert forall|p: ChunkPos| #[trigger] after.contains_key(p) && !before.contains_key(p) implies after[p].0.pos
        == p && after[p].0.filled_by(|x: int, y: int, z: int| flat_block(x, y, z)) && after[p].1
        == streamed_media(before, default, center, distance, square_side(distance), 0)[p] by {
        assert(mid.contains_key(p));
        assert(is_flat_chunk_at(mid[p].0, p));
        assert(after[p].0.blocks == mid[p].0.blocks);
        assert forall|x: int, y: int, z: int| in_chunk(x, y, z) implies #[trigger] after[p].0.block(x, y, z)
            == flat_block(x, y, z) by {
            assert(after[p].0.block(x, y, z) == mid[p].0.block(x, y, z));
        }
    }
}

} // verus!

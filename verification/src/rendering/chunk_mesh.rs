use super::chunk::{in_chunk, Block, Chunk, CHUNK_SIZE};
use vstd::prelude::*;

verus! {

/// A face of a block cell, by the index the mesh uses: +X, −X, +Y, −Y, +Z, −Z.
pub type Face = usize;

/// A visible face of a block: the cell's coordinates and the face index.
pub type FaceQuad = (int, int, int, int);

/// A vertex of a chunk mesh: one corner of a visible block face, with its position (`x`, `y`, `z`) in
/// world block units, the face and corner it belongs to, and the block it bounds.
#[derive(Debug, Clone, Copy, PartialEq, Eq, Structural)]
pub struct ChunkVertex {
    pub x: i64,
    pub y: i64,
    pub z: i64,
    pub face: u8,
    pub corner: u8,
    pub block: Block,
}

/// The geometry of a chunk: four vertices per visible face and two triangles over them.
#[derive(Debug)]
pub struct ChunkMesh {
    pub vertices: Vec<ChunkVertex>,
    pub indices: Vec<u32>,
}

/// The outward direction of face `f`.
pub open spec fn face_direction(f: int) -> (int, int, int) {
    if f == 0 {
        (1, 0, 0)
    } else if f == 1 {
        (-1, 0, 0)
    } else if f == 2 {
        (0, 1, 0)
    } else if f == 3 {
        (0, -1, 0)
    } else if f == 4 {
        (0, 0, 1)
    } else if f == 5 {
        (0, 0, -1)
    } else {
        (0, 0, 0)
    }
}

/// The offset from a cell's origin of corner `i` of face `f`, in the winding the mesh uses.
pub open spec fn face_corner(f: int, i: int) -> (int, int, int) {
    let t: Seq<Seq<(int, int, int)>> = seq![
        seq![(1, 0, 0), (1, 1, 0), (1, 1, 1), (1, 0, 1)],
        seq![(0, 0, 1), (0, 1, 1), (0, 1, 0), (0, 0, 0)],
        seq![(0, 1, 1), (1, 1, 1), (1, 1, 0), (0, 1, 0)],
        seq![(0, 0, 0), (1, 0, 0), (1, 0, 1), (0, 0, 1)],
        seq![(0, 0, 1), (1, 0, 1), (1, 1, 1), (0, 1, 1)],
        seq![(0, 1, 0), (1, 1, 0), (1, 0, 0), (0, 0, 0)],
    ];
    t[f][i]
}

/// Each face looks along one axis, towards the cell whose shared side it is: the direction of
/// face `f` is a unit step along a single axis, the four corners of the face lie on the side of
/// the cell facing that way (offset 1 on that axis for a positive step, 0 for a negative one),
/// and no two faces look the same way. So a face is tested against the very cell it borders:
/// a +Y face is drawn exactly when the cell above is air.
pub proof fn law_face_direction_matches_corners()
    ensures
        forall|f: int, i: int|
            0 <= f < 6 && 0 <= i < 4 ==> {
                let d = #[trigger] face_direction(f);
                let c = #[trigger] face_corner(f, i);
                &&& (d.0 == 1 || d.0 == -1) && d.1 == 0 && d.2 == 0 && c.0 == (if d.0 == 1 {
                    1int
                } else {
                    0
                }) || (d.1 == 1 || d.1 == -1) && d.0 == 0 && d.2 == 0 && c.1 == (if d.1 == 1 {
                    1int
                } else {
                    0
                }) || (d.2 == 1 || d.2 == -1) && d.0 == 0 && d.1 == 0 && c.2 == (if d.2 == 1 {
                    1int
                } else {
                    0
                })
            },
        forall|f: int, g: int|
            0 <= f < 6 && 0 <= g < 6 && f != g ==> #[trigger] face_direction(f)
                != #[trigger] face_direction(g),
{
    assert forall|f: int, i: int| 0 <= f < 6 && 0 <= i < 4 implies {
        let d = #[trigger] face_direction(f);
        let c = #[trigger] face_corner(f, i);
        &&& (d.0 == 1 || d.0 == -1) && d.1 == 0 && d.2 == 0 && c.0 == (if d.0 == 1 {
            1int
        } else {
            0
        }) || (d.1 == 1 || d.1 == -1) && d.0 == 0 && d.2 == 0 && c.1 == (if d.1 == 1 {
            1int
        } else {
            0
        }) || (d.2 == 1 || d.2 == -1) && d.0 == 0 && d.1 == 0 && c.2 == (if d.2 == 1 {
            1int
        } else {
            0
        })
    } by {
        assert(0 <= i < 4);
        if f == 0 {
        } else if f == 1 {
        } else if f == 2 {
        } else if f == 3 {
        } else if f == 4 {
        } else {
        }
    }
}

/// Faces 0 to 5 of a cell are its +X, −X, +Y, −Y, +Z and −Z faces: each is drawn exactly when
/// the cell holds a block and the cell next to it on that side is air.
pub proof fn law_face_visible_neighbours(c: Chunk, x: int, y: int, z: int)
    ensures
        c.face_visible(x, y, z, 0) == (c.block(x, y, z) != 0 && c.block_or_air(x + 1, y, z) == 0),
        c.face_visible(x, y, z, 1) == (c.block(x, y, z) != 0 && c.block_or_air(x - 1, y, z) == 0),
        c.face_visible(x, y, z, 2) == (c.block(x, y, z) != 0 && c.block_or_air(x, y + 1, z) == 0),
        c.face_visible(x, y, z, 3) == (c.block(x, y, z) != 0 && c.block_or_air(x, y - 1, z) == 0),
        c.face_visible(x, y, z, 4) == (c.block(x, y, z) != 0 && c.block_or_air(x, y, z + 1) == 0),
        c.face_visible(x, y, z, 5) == (c.block(x, y, z) != 0 && c.block_or_air(x, y, z - 1) == 0),
{
}

fn exec_face_direction(f: Face) -> (r: (isize, isize, isize))
    requires
        f < 6,
    ensures
        (r.0 as int, r.1 as int, r.2 as int) == face_direction(f as int),
{
    match f {
        0 => (1, 0, 0),
        1 => (-1, 0, 0),
        2 => (0, 1, 0),
        3 => (0, -1, 0),
        4 => (0, 0, 1),
        _ => (0, 0, -1),
    }
}

fn exec_face_corner(f: Face, i: usize) -> (r: (i64, i64, i64))
    requires
        f < 6,
        i < 4,
    ensures
        (r.0 as int, r.1 as int, r.2 as int) == face_corner(f as int, i as int),
{
    let t: [[(i64, i64, i64); 4]; 6] = [
        [(1, 0, 0), (1, 1, 0), (1, 1, 1), (1, 0, 1)],
        [(0, 0, 1), (0, 1, 1), (0, 1, 0), (0, 0, 0)],
        [(0, 1, 1), (1, 1, 1), (1, 1, 0), (0, 1, 0)],
        [(0, 0, 0), (1, 0, 0), (1, 0, 1), (0, 0, 1)],
        [(0, 0, 1), (1, 0, 1), (1, 1, 1), (0, 1, 1)],
        [(0, 1, 0), (1, 1, 0), (1, 0, 0), (0, 0, 0)],
    ];
    t[f][i]
}

impl Chunk {
    /// Whether face `f` of cell `(x, y, z)` is drawn: the cell holds a block and the cell on
    /// the other side of the face is air (cells outside the chunk count as air).
    pub open spec fn face_visible(self, x: int, y: int, z: int, f: int) -> bool {
        let d = face_direction(f);
        self.block(x, y, z) != 0 && self.block_or_air(x + d.0, y + d.1, z + d.2) == 0
    }

    /// The visible faces among the first `n` faces of cell `(x, y, z)`, in face order.
    pub open spec fn cell_faces(self, x: int, y: int, z: int, n: nat) -> Seq<FaceQuad>
        decreases n,
    {
        if n == 0 {
            Seq::empty()
        } else {
            let prev = self.cell_faces(x, y, z, (n - 1) as nat);
            if self.face_visible(x, y, z, n - 1) {
                prev.push((x, y, z, n - 1))
            } else {
                prev
            }
        }
    }

    /// The visible faces of the first `n` cells of column `(x, y)`, in `z` order.
    pub open spec fn column_faces(self, x: int, y: int, n: nat) -> Seq<FaceQuad>
        decreases n,
    {
        if n == 0 {
            Seq::empty()
        } else {
            self.column_faces(x, y, (n - 1) as nat) + self.cell_faces(x, y, n - 1, 6)
        }
    }

    /// The visible faces of the first `n` columns of slab `x`, in `y` order.
    pub open spec fn slab_faces(self, x: int, n: nat) -> Seq<FaceQuad>
        decreases n,
    {
        if n == 0 {
            Seq::empty()
        } else {
            self.slab_faces(x, (n - 1) as nat) + self.column_faces(x, n - 1, CHUNK_SIZE as nat)
        }
    }

    /// The visible faces of the first `n` slabs, in `x` order.
    pub open spec fn slabs_faces(self, n: nat) -> Seq<FaceQuad>
        decreases n,
    {
        if n == 0 {
            Seq::empty()
        } else {
            self.slabs_faces((n - 1) as nat) + self.slab_faces(n - 1, CHUNK_SIZE as nat)
        }
    }

    /// Every visible face of the chunk, cells in `x`, then `y`, then `z` order and faces in
    /// face order within a cell.
    pub open spec fn visible_faces(self) -> Seq<FaceQuad> {
        self.slabs_faces(CHUNK_SIZE as nat)
    }

    /// The mesh vertex at corner `i` of visible face `q`.
    pub open spec fn face_vertex(self, q: FaceQuad, i: int) -> ChunkVertex {
        let c = face_corner(q.3, i);
        ChunkVertex {
            x: (self.pos.0 * CHUNK_SIZE + q.0 + c.0) as i64,
            y: (self.pos.1 * CHUNK_SIZE + q.1 + c.1) as i64,
            z: (self.pos.2 * CHUNK_SIZE + q.2 + c.2) as i64,
            face: q.3 as u8,
            corner: i as u8,
            block: self.block(q.0, q.1, q.2),
        }
    }

    /// The vertices of the faces `qs`: four per face, corners in order.
    pub open spec fn faces_vertices(self, qs: Seq<FaceQuad>) -> Seq<ChunkVertex>
        decreases qs.len(),
    {
        if qs.len() == 0 {
            Seq::empty()
        } else {
            let q = qs.last();
            self.faces_vertices(qs.drop_last()) + seq![
                self.face_vertex(q, 0),
                self.face_vertex(q, 1),
                self.face_vertex(q, 2),
                self.face_vertex(q, 3),
            ]
        }
    }
}

/// The triangle indices of `n` quads: quad `k` is the triangles (4k, 4k+1, 4k+2) and
/// (4k, 4k+2, 4k+3).
pub open spec fn quad_indices(n: nat) -> Seq<u32>
    decreases n,
{
    if n == 0 {
        Seq::empty()
    } else {
        let b = 4 * (n - 1);
        quad_indices((n - 1) as nat) + seq![
            b as u32,
            (b + 1) as u32,
            (b + 2) as u32,
            b as u32,
            (b + 2) as u32,
            (b + 3) as u32,
        ]
    }
}

proof fn lemma_faces_vertices_len(c: Chunk, qs: Seq<FaceQuad>)
    ensures
        c.faces_vertices(qs).len() == 4 * qs.len(),
    decreases qs.len(),
{
    if qs.len() > 0 {
        lemma_faces_vertices_len(c, qs.drop_last());
    }
}

proof fn lemma_cell_faces_len(c: Chunk, x: int, y: int, z: int, n: nat)
    ensures
        c.cell_faces(x, y, z, n).len() <= n,
    decreases n,
{
    if n > 0 {
        lemma_cell_faces_len(c, x, y, z, (n - 1) as nat);
    }
}

impl Chunk {
    /// Whether `mesh` is this chunk's mesh: the corners of its visible faces, in order, and
    /// two triangles per face.
    pub open spec fn mesh_matches(self, mesh: ChunkMesh) -> bool {
        &&& mesh.vertices@ == self.faces_vertices(self.visible_faces())
        &&& mesh.indices@ == quad_indices(self.visible_faces().len())
    }

    /// Builds the chunk's mesh: for each visible face, its four corners and two triangles.
    pub fn build_chunk_mesh(&self) -> (r: ChunkMesh)
        ensures
            self.mesh_matches(r),
    {
        let mut vertices: Vec<ChunkVertex> = Vec::new();
        let mut indices: Vec<u32> = Vec::new();
        let ghost mut faces: Seq<FaceQuad> = Seq::empty();
        let mut x: usize = 0;
        while x < CHUNK_SIZE
            invariant
                x <= CHUNK_SIZE,
                faces == self.slabs_faces(x as nat),
                faces.len() <= 1536 * x,
                vertices@ == self.faces_vertices(faces),
                indices@ == quad_indices(faces.len()),
            decreases CHUNK_SIZE - x,
        {
            let ghost before_slab = faces;
            let mut y: usize = 0;
            while y < CHUNK_SIZE
                invariant
                    x < CHUNK_SIZE,
                    y <= CHUNK_SIZE,
                    before_slab == self.slabs_faces(x as nat),
                    faces == before_slab + self.slab_faces(x as int, y as nat),
                    faces.len() <= 1536 * x + 96 * y,
                    vertices@ == self.faces_vertices(faces),
                    indices@ == quad_indices(faces.len()),
                decreases CHUNK_SIZE - y,
            {
                let ghost before_column = faces;
                let mut z: usize = 0;
                while z < CHUNK_SIZE
                    invariant
                        x < CHUNK_SIZE,
                        y < CHUNK_SIZE,
                        z <= CHUNK_SIZE,
                        before_slab == self.slabs_faces(x as nat),
                        before_column == before_slab + self.slab_faces(x as int, y as nat),
                        faces == before_column + self.column_faces(x as int, y as int, z as nat),
                        faces.len() <= 1536 * x + 96 * y + 6 * z,
                        vertices@ == self.faces_vertices(faces),
                        indices@ == quad_indices(faces.len()),
                    decreases CHUNK_SIZE - z,
                {
                    let ghost before_cell = faces;
                    let block = self.blocks[x][y][z];
                    let mut f: usize = 0;
                    while f < 6
                        invariant
                            x < CHUNK_SIZE,
                            y < CHUNK_SIZE,
                            z < CHUNK_SIZE,
                            f <= 6,
                            block == self.block(x as int, y as int, z as int),
                            before_cell == before_column + self.column_faces(
                                x as int,
                                y as int,
                                z as nat,
                            ),
                            before_cell.len() <= 1536 * x + 96 * y + 6 * z,
                            faces == before_cell + self.cell_faces(
                                x as int,
                                y as int,
                                z as int,
                                f as nat,
                            ),
                            faces.len() <= 1536 * x + 96 * y + 6 * z + f,
                            vertices@ == self.faces_vertices(faces),
                            indices@ == quad_indices(faces.len()),
                        decreases 6 - f,
                    {
                        proof {
                            lemma_cell_faces_len(*self, x as int, y as int, z as int, f as nat);
                        }
                        let ghost prev = faces;
                        if block != 0 {
                            let d = exec_face_direction(f);
                            let neighbor = self.get_block(
                                x as isize + d.0,
                                y as isize + d.1,
                                z as isize + d.2,
                            );
                            if neighbor == 0 {
                                proof {
                                    lemma_faces_vertices_len(*self, prev);
                                }
                                let base = vertices.len() as u32;
                                let mut i: usize = 0;
                                while i < 4
                                    invariant
                                        x < CHUNK_SIZE,
                                        y < CHUNK_SIZE,
                                        z < CHUNK_SIZE,
                                        f < 6,
                                        i <= 4,
                                        block == self.block(x as int, y as int, z as int),
                                        vertices@.len() == self.faces_vertices(prev).len() + i,
                                        forall|j: int|
                                            0 <= j < self.faces_vertices(prev).len() ==> #[trigger] vertices@[j]
                                                == self.faces_vertices(prev)[j],
                                        forall|j: int|
                                            0 <= j < i ==> #[trigger] vertices@[self.faces_vertices(prev).len() + j]
                                                == self.face_vertex((x as int, y as int, z as int, f as int), j),
                                    decreases 4 - i,
                                {
                                    let c = exec_face_corner(f, i);
                                    let v = ChunkVertex {
                                        x: self.pos.0 as i64 * 16 + x as i64 + c.0,
                                        y: self.pos.1 as i64 * 16 + y as i64 + c.1,
                                        z: self.pos.2 as i64 * 16 + z as i64 + c.2,
                                        face: f as u8,
                                        corner: i as u8,
                                        block,
                                    };
                                    vertices.push(v);
                                    i += 1;
                                }
                                indices.push(base);
                                indices.push(base + 1);
                                indices.push(base + 2);
                                indices.push(base);
                                indices.push(base + 2);
                                indices.push(base + 3);
                                proof {
                                    let q = (x as int, y as int, z as int, f as int);
                                    faces = faces.push(q);
                                    assert(faces.drop_last() =~= prev);
                                    assert(faces.last() == q);
                                    let tail = seq![
                                        self.face_vertex(q, 0),
                                        self.face_vertex(q, 1),
                                        self.face_vertex(q, 2),
                                        self.face_vertex(q, 3),
                                    ];
                                    assert(self.faces_vertices(faces) == self.faces_vertices(prev)
                                        + tail);
                                    let n = self.faces_vertices(prev).len() as int;
                                    assert(vertices@[n + 0] == tail[0]);
                                    assert(vertices@[n + 1] == tail[1]);
                                    assert(vertices@[n + 2] == tail[2]);
                                    assert(vertices@[n + 3] == tail[3]);
                                    assert(vertices@ =~= self.faces_vertices(prev) + tail);
                                    assert(indices@ =~= quad_indices(faces.len()));
                                }
                            }
                        }
                        proof {
                            assert(faces =~= before_cell + self.cell_faces(
                                x as int,
                                y as int,
                                z as int,
                                (f + 1) as nat,
                            ));
                        }
                        f += 1;
                    }
                    proof {
                        assert(faces =~= before_column + self.column_faces(
                            x as int,
                            y as int,
                            (z + 1) as nat,
                        ));
                    }
                    z += 1;
                }
                proof {
                    assert(faces =~= before_slab + self.slab_faces(x as int, (y + 1) as nat));
                }
                y += 1;
            }
            proof {
                assert(faces =~= self.slabs_faces((x + 1) as nat));
            }
            x += 1;
        }
        ChunkMesh { vertices, indices }
    }
}

proof fn lemma_concat_contains<A>(a: Seq<A>, b: Seq<A>, q: A)
    ensures
        (a + b).contains(q) <==> a.contains(q) || b.contains(q),
{
    if (a + b).contains(q) {
        let i = choose|i: int| 0 <= i < (a + b).len() && (a + b)[i] == q;
        if i < a.len() {
            assert(a[i] == q);
        } else {
            assert(b[i - a.len()] == q);
        }
    }
    if a.contains(q) {
        let i = choose|i: int| 0 <= i < a.len() && a[i] == q;
        assert((a + b)[i] == q);
    }
    if b.contains(q) {
        let i = choose|i: int| 0 <= i < b.len() && b[i] == q;
        assert((a + b)[a.len() + i] == q);
    }
}

proof fn lemma_push_contains<A>(a: Seq<A>, x: A, q: A)
    ensures
        a.push(x).contains(q) <==> a.contains(q) || q == x,
{
    lemma_concat_contains(a, seq![x], q);
    assert(a.push(x) =~= a + seq![x]);
    if q == x {
        assert(seq![x][0] == q);
    }
    if seq![x].contains(q) {
        let i = choose|i: int| 0 <= i < 1 && seq![x][i] == q;
    }
}

proof fn lemma_cell_faces_contains(c: Chunk, x: int, y: int, z: int, n: nat, q: FaceQuad)
    ensures
        c.cell_faces(x, y, z, n).contains(q) <==> (q.0 == x && q.1 == y && q.2 == z && 0 <= q.3
            < n && c.face_visible(x, y, z, q.3)),
    decreases n,
{
    if n > 0 {
        lemma_cell_faces_contains(c, x, y, z, (n - 1) as nat, q);
        let prev = c.cell_faces(x, y, z, (n - 1) as nat);
        if c.face_visible(x, y, z, n - 1) {
            lemma_push_contains(prev, (x, y, z, n - 1), q);
        }
    }
}

proof fn lemma_column_faces_contains(c: Chunk, x: int, y: int, n: nat, q: FaceQuad)
    ensures
        c.column_faces(x, y, n).contains(q) <==> (q.0 == x && q.1 == y && 0 <= q.2 < n && 0 <= q.3
            < 6 && c.face_visible(x, y, q.2, q.3)),
    decreases n,
{
    if n > 0 {
        lemma_column_faces_contains(c, x, y, (n - 1) as nat, q);
        lemma_concat_contains(
            c.column_faces(x, y, (n - 1) as nat),
            c.cell_faces(x, y, n - 1, 6),
            q,
        );
        lemma_cell_faces_contains(c, x, y, n - 1, 6, q);
    }
}

proof fn lemma_slab_faces_contains(c: Chunk, x: int, n: nat, q: FaceQuad)
    ensures
        c.slab_faces(x, n).contains(q) <==> (q.0 == x && 0 <= q.1 < n && 0 <= q.2 < CHUNK_SIZE && 0
            <= q.3 < 6 && c.face_visible(x, q.1, q.2, q.3)),
    decreases n,
{
    if n > 0 {
        lemma_slab_faces_contains(c, x, (n - 1) as nat, q);
        lemma_concat_contains(
            c.slab_faces(x, (n - 1) as nat),
            c.column_faces(x, n - 1, CHUNK_SIZE as nat),
            q,
        );
        lemma_column_faces_contains(c, x, n - 1, CHUNK_SIZE as nat, q);
    }
}

proof fn lemma_slabs_faces_contains(c: Chunk, n: nat, q: FaceQuad)
    ensures
        c.slabs_faces(n).contains(q) <==> (0 <= q.0 < n && 0 <= q.1 < CHUNK_SIZE && 0 <= q.2
            < CHUNK_SIZE && 0 <= q.3 < 6 && c.face_visible(q.0, q.1, q.2, q.3)),
    decreases n,
{
    if n > 0 {
        lemma_slabs_faces_contains(c, (n - 1) as nat, q);
        lemma_concat_contains(
            c.slabs_faces((n - 1) as nat),
            c.slab_faces(n - 1, CHUNK_SIZE as nat),
            q,
        );
        lemma_slab_faces_contains(c, n - 1, CHUNK_SIZE as nat, q);
    }
}

proof fn lemma_faces_len(c: Chunk)
    ensures
        c.visible_faces().len() <= 6 * CHUNK_SIZE * CHUNK_SIZE * CHUNK_SIZE,
{
    assert forall|x: int, y: int, n: nat| #[trigger] c.column_faces(x, y, n).len() <= 6 * n by {
        lemma_column_len(c, x, y, n);
    }
    assert forall|x: int, n: nat| #[trigger] c.slab_faces(x, n).len() <= 96 * n by {
        lemma_slab_len(c, x, n);
    }
    lemma_slabs_len(c, CHUNK_SIZE as nat);
}

proof fn lemma_column_len(c: Chunk, x: int, y: int, n: nat)
    ensures
        c.column_faces(x, y, n).len() <= 6 * n,
    decreases n,
{
    if n > 0 {
        lemma_column_len(c, x, y, (n - 1) as nat);
        lemma_cell_faces_len(c, x, y, n - 1, 6);
    }
}

proof fn lemma_slab_len(c: Chunk, x: int, n: nat)
    ensures
        c.slab_faces(x, n).len() <= 96 * n,
    decreases n,
{
    if n > 0 {
        lemma_slab_len(c, x, (n - 1) as nat);
        lemma_column_len(c, x, n - 1, CHUNK_SIZE as nat);
    }
}

proof fn lemma_slabs_len(c: Chunk, n: nat)
    ensures
        c.slabs_faces(n).len() <= 1536 * n,
    decreases n,
{
    if n > 0 {
        lemma_slabs_len(c, (n - 1) as nat);
        lemma_slab_len(c, n - 1, CHUNK_SIZE as nat);
    }
}

proof fn lemma_quad_indices(n: nat)
    requires
        4 * n <= u32::MAX,
    ensures
        quad_indices(n).len() == 6 * n,
        forall|i: int| 0 <= i < 6 * n ==> #[trigger] quad_indices(n)[i] < 4 * n,
    decreases n,
{
    if n > 0 {
        lemma_quad_indices((n - 1) as nat);
        let prev = quad_indices((n - 1) as nat);
        assert forall|i: int| 0 <= i < 6 * n implies #[trigger] quad_indices(n)[i] < 4 * n by {
            if i < 6 * (n - 1) {
                assert(quad_indices(n)[i] == prev[i]);
            }
        }
    }
}

/// A chunk's mesh holds exactly its visible faces (a face of a cell is visible when the cell
/// holds a block and the neighbouring cell across the face, counting cells outside the chunk
/// as air, does not), each once per position in the listing; the mesh has four vertices and
/// six indices per face, and every index names one of its vertices.
pub proof fn law_mesh_faces_and_indices(c: Chunk)
    ensures
        forall|q: FaceQuad|
            #[trigger] c.visible_faces().contains(q) <==> (in_chunk(q.0, q.1, q.2) && 0 <= q.3 < 6
                && c.face_visible(q.0, q.1, q.2, q.3)),
        c.faces_vertices(c.visible_faces()).len() == 4 * c.visible_faces().len(),
        quad_indices(c.visible_faces().len()).len() == 6 * c.visible_faces().len(),
        forall|i: int|
            0 <= i < quad_indices(c.visible_faces().len()).len() ==> #[trigger] quad_indices(
                c.visible_faces().len(),
            )[i] < c.faces_vertices(c.visible_faces()).len(),
{
    assert forall|q: FaceQuad|
        #[trigger] c.visible_faces().contains(q) <==> (in_chunk(q.0, q.1, q.2) && 0 <= q.3 < 6
            && c.face_visible(q.0, q.1, q.2, q.3)) by {
        lemma_slabs_faces_contains(c, CHUNK_SIZE as nat, q);
    }
    lemma_faces_vertices_len(c, c.visible_faces());
    lemma_faces_len(c);
    lemma_quad_indices(c.visible_faces().len());
}

} // verus!

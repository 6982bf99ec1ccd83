use super::chunk_mesh::ChunkMesh;
use vstd::prelude::*;

verus! {

/// A block kind; 0 is air.
pub type Block = u8;

/// The number of blocks along each side of a chunk.
pub const CHUNK_SIZE: usize = 16;

/// A cube of `CHUNK_SIZE`³ blocks at a chunk position of the world grid.
#[derive(Debug)]
pub struct Chunk {
    pub blocks: [[[Block; CHUNK_SIZE]; CHUNK_SIZE]; CHUNK_SIZE],
    pub mesh: Option<ChunkMesh>,
    pub pos: (i32, i32, i32),
    pub dirty: bool,
}

/// Whether `(x, y, z)` is a cell of a chunk.
pub open spec fn in_chunk(x: int, y: int, z: int) -> bool {
    0 <= x < CHUNK_SIZE && 0 <= y < CHUNK_SIZE && 0 <= z < CHUNK_SIZE
}

/// The block of a flat chunk: stone on the bottom layer, air above.
pub open spec fn flat_block(x: int, y: int, z: int) -> Block {
    if y == 0 {
        1
    } else {
        0
    }
}

/// The block of a cube chunk: stone where each coordinate is in `6..10`, air elsewhere.
pub open spec fn cube_block(x: int, y: int, z: int) -> Block {
    if 6 <= x < 10 && 6 <= y < 10 && 6 <= z < 10 {
        1
    } else {
        0
    }
}

/// `after` is `before` with `block` written at `(x, y, z)` when that is a cell of the chunk
/// (which also marks it dirty), and `before` unchanged when it is not.
pub open spec fn block_written(before: Chunk, after: Chunk, x: int, y: int, z: int, block: Block) -> bool {
    if in_chunk(x, y, z) {
        &&& after.pos == before.pos
        &&& after.mesh == before.mesh
        &&& after.dirty
        &&& forall|a: int, b: int, c: int|
            in_chunk(a, b, c) ==> #[trigger] after.block(a, b, c) == if a == x && b == y && c == z {
                block
            } else {
                before.block(a, b, c)
            }
    } else {
        after == before
    }
}

/// Reading a cell after writing it gives the written block back when the cell is in the chunk
/// (and air otherwise, the write changing nothing); every other cell reads as before.
pub proof fn law_set_then_get(before: Chunk, after: Chunk, x: int, y: int, z: int, block: Block)
    requires
        block_written(before, after, x, y, z, block),
    ensures
        after.block_or_air(x, y, z) == if in_chunk(x, y, z) {
            block
        } else {
            0
        },
        forall|a: int, b: int, c: int|
            !(a == x && b == y && c == z) ==> #[trigger] after.block_or_air(a, b, c)
                == before.block_or_air(a, b, c),
{
}

impl Chunk {
    /// The block stored at a cell of the chunk.
    pub open spec fn block(self, x: int, y: int, z: int) -> Block {
        self.blocks@[x]@[y]@[z]
    }

    /// The block at `(x, y, z)`, or air outside the chunk.
    pub open spec fn block_or_air(self, x: int, y: int, z: int) -> Block {
        if in_chunk(x, y, z) {
            self.block(x, y, z)
        } else {
            0
        }
    }

    /// Whether every cell holds `f` of its coordinates.
    pub open spec fn filled_by(self, f: spec_fn(int, int, int) -> Block) -> bool {
        forall|x: int, y: int, z: int| in_chunk(x, y, z) ==> #[trigger] self.block(x, y, z) == f(x, y, z)
    }

    pub fn new(pos: (i32, i32, i32)) -> (r: Self)
        ensures
            r.pos == pos,
            r.dirty,
            r.mesh is None,
            r.filled_by(|x: int, y: int, z: int| 1u8),
    {
        Self { blocks: [[[1; CHUNK_SIZE]; CHUNK_SIZE]; CHUNK_SIZE], mesh: None, pos, dirty: true }
    }

    /// A chunk with a floor of stone one block thick and air above it.
    pub fn flat(pos: (i32, i32, i32)) -> (r: Chunk)
        ensures
            r.pos == pos,
            r.dirty,
            r.mesh is None,
            r.filled_by(|x: int, y: int, z: int| flat_block(x, y, z)),
    {
        let mut chunk = Chunk::new(pos);
        let mut x: usize = 0;
        while x < CHUNK_SIZE
            invariant
                x <= CHUNK_SIZE,
                chunk.pos == pos,
                chunk.dirty,
                chunk.mesh is None,
                forall|a: int, b: int, c: int|
                    in_chunk(a, b, c) ==> #[trigger] chunk.block(a, b, c) == if a < x {
                        flat_block(a, b, c)
                    } else {
                        1
                    },
            decreases CHUNK_SIZE - x,
        {
            let mut z: usize = 0;
            while z < CHUNK_SIZE
                invariant
                    x < CHUNK_SIZE,
                    z <= CHUNK_SIZE,
                    chunk.pos == pos,
                    chunk.dirty,
                    chunk.mesh is None,
                    forall|a: int, b: int, c: int|
                        in_chunk(a, b, c) ==> #[trigger] chunk.block(a, b, c) == if a < x || (a
                            == x && c < z) {
                            flat_block(a, b, c)
                        } else {
                            1
                        },
                decreases CHUNK_SIZE - z,
            {
                chunk.set_block(x, 0, z, 1);
                let mut y: usize = 1;
                while y < CHUNK_SIZE
                    invariant
                        x < CHUNK_SIZE,
                        z < CHUNK_SIZE,
                        1 <= y <= CHUNK_SIZE,
                        chunk.pos == pos,
                        chunk.dirty,
                        chunk.mesh is None,
                        forall|a: int, b: int, c: int|
                            in_chunk(a, b, c) ==> #[trigger] chunk.block(a, b, c) == if a < x || (
                            a == x && c < z) || (a == x && c == z && b < y) {
                                flat_block(a, b, c)
                            } else {
                                1
                            },
                    decreases CHUNK_SIZE - y,
                {
                    chunk.set_block(x, y, z, 0);
                    y += 1;
                }
                z += 1;
            }
            x += 1;
        }
        chunk
    }

    /// An empty chunk but for a solid 4×4×4 cube of stone in its middle.
    pub fn cube(pos: (i32, i32, i32)) -> (r: Chunk)
        ensures
            r.pos == pos,
            r.dirty,
            r.mesh is None,
            r.filled_by(|x: int, y: int, z: int| cube_block(x, y, z)),
    {
        let mut chunk = Chunk::new(pos);
        let mut x: usize = 0;
        while x < CHUNK_SIZE
            invariant
                x <= CHUNK_SIZE,
                chunk.pos == pos,
                chunk.dirty,
                chunk.mesh is None,
                forall|a: int, b: int, c: int|
                    in_chunk(a, b, c) ==> #[trigger] chunk.block(a, b, c) == if a < x {
                        0u8
                    } else {
                        1u8
                    },
            decreases CHUNK_SIZE - x,
        {
            let mut y: usize = 0;
            while y < CHUNK_SIZE
                invariant
                    x < CHUNK_SIZE,
                    y <= CHUNK_SIZE,
                    chunk.pos == pos,
                    chunk.dirty,
                    chunk.mesh is None,
                    forall|a: int, b: int, c: int|
                        in_chunk(a, b, c) ==> #[trigger] chunk.block(a, b, c) == if a < x || (a
                            == x && b < y) {
                            0u8
                        } else {
                            1u8
                        },
                decreases CHUNK_SIZE - y,
            {
                let mut z: usize = 0;
                while z < CHUNK_SIZE
                    invariant
                        x < CHUNK_SIZE,
                        y < CHUNK_SIZE,
                        z <= CHUNK_SIZE,
                        chunk.pos == pos,
                        chunk.dirty,
                        chunk.mesh is None,
                        forall|a: int, b: int, c: int|
                            in_chunk(a, b, c) ==> #[trigger] chunk.block(a, b, c) == if a < x || (
                            a == x && b < y) || (a == x && b == y && c < z) {
                                0u8
                            } else {
                                1u8
                            },
                    decreases CHUNK_SIZE - z,
                {
                    chunk.set_block(x, y, z, 0);
                    z += 1;
                }
                y += 1;
            }
            x += 1;
        }
        let mut x: usize = 6;
        while x < 10
            invariant
                6 <= x <= 10,
                chunk.pos == pos,
                chunk.dirty,
                chunk.mesh is None,
                forall|a: int, b: int, c: int|
                    in_chunk(a, b, c) ==> #[trigger] chunk.block(a, b, c) == if a < x {
                        cube_block(a, b, c)
                    } else {
                        0
                    },
            decreases 10 - x,
        {
            let mut y: usize = 6;
            while y < 10
                invariant
                    6 <= x < 10,
                    6 <= y <= 10,
                    chunk.pos == pos,
                    chunk.dirty,
                    chunk.mesh is None,
                    forall|a: int, b: int, c: int|
                        in_chunk(a, b, c) ==> #[trigger] chunk.block(a, b, c) == if a < x || (a
                            == x && b < y) {
                            cube_block(a, b, c)
                        } else {
                            0
                        },
                decreases 10 - y,
            {
                let mut z: usize = 6;
                while z < 10
                    invariant
                        6 <= x < 10,
                        6 <= y < 10,
                        6 <= z <= 10,
                        chunk.pos == pos,
                        chunk.dirty,
                        chunk.mesh is None,
                        forall|a: int, b: int, c: int|
                            in_chunk(a, b, c) ==> #[trigger] chunk.block(a, b, c) == if a < x || (
                            a == x && b < y) || (a == x && b == y && c < z) {
                                cube_block(a, b, c)
                            } else {
                                0
                            },
                    decreases 10 - z,
                {
                    chunk.set_block(x, y, z, 1);
                    z += 1;
                }
                y += 1;
            }
            x += 1;
        }
        chunk
    }

    pub fn set_block(&mut self, x: usize, y: usize, z: usize, block: Block)
        ensures
            block_written(*old(self), *final(self), x as int, y as int, z as int, block),
    {
        if x < CHUNK_SIZE && y < CHUNK_SIZE && z < CHUNK_SIZE {
            self.blocks[x][y][z] = block;
            self.dirty = true;
        }
    }

    pub fn get_block(&self, x: isize, y: isize, z: isize) -> (r: Block)
        ensures
            r == self.block_or_air(x as int, y as int, z as int),
    {
        if x >= 0 && x < CHUNK_SIZE as isize && y >= 0 && y < CHUNK_SIZE as isize && z >= 0 && z
            < CHUNK_SIZE as isize {
            self.blocks[x as usize][y as usize][z as usize]
        } else {
            0
        }
    }
}

} // verus!

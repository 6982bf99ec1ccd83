pub mod chunk;
pub mod chunk_mesh;
pub mod debug;
pub mod medium;
pub mod render2d;
pub mod render_target;
pub mod surface;
pub mod terrain;

pub use chunk::{Block, Chunk, CHUNK_SIZE};
pub use chunk_mesh::{ChunkMesh, ChunkVertex};
pub use medium::Medium;
pub use render_target::RenderTargetManager;
pub use surface::SurfaceSize;
pub use terrain::{ChunkPos, Terrain};

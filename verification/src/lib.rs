pub mod assoc;
pub mod camera;
pub mod ecs;
pub mod gfx;
pub mod gpu;
pub mod rendering;

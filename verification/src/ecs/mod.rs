pub mod component;
pub mod world;

pub use component::{CacheKey, ComponentVec, Entity, Renderable};
pub use world::World;

pub mod backend;

pub use backend::{available_backend, Backend};

pub mod framebuffer;
pub mod sampler;

pub use framebuffer::{FrameBuffer, RenderTargetKind};
pub use sampler::{sampler_settings_for, AddressMode, FilterMode, SamplerPreset, SamplerSettings};

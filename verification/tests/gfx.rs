use engine::gpu::{available_backend, Backend};
use engine::gfx::framebuffer::{str_eq, FrameBuffer, RenderTargetKind};
use engine::gfx::sampler::{sampler_settings_for, AddressMode, FilterMode, SamplerPreset};
use engine::rendering::render_target::RenderTargetManager;

#[test]
fn preset_key_strings() {
    assert_eq!(SamplerPreset::NearestClamp.as_string(), "sampler:nearest_clamp");
    assert_eq!(SamplerPreset::LinearClamp.as_string(), "sampler:linear_clamp");
    assert_eq!(SamplerPreset::LinearMipmapRepeat.as_string(), "sampler:linear_mipmap_repeat");
    assert_eq!(SamplerPreset::LinearRepeat.as_string(), "sampler:linear_repeat");
    assert_eq!(SamplerPreset::Anisotropic(16).as_string(), "sampler:aniso16");
    assert_eq!(SamplerPreset::Anisotropic(0).as_string(), "sampler:aniso0");
    assert_eq!(SamplerPreset::Anisotropic(65535).as_string(), "sampler:aniso65535");
    assert_eq!(SamplerPreset::ShadowDepth.as_string(), "sampler:shadow_depth");
    assert_eq!(
        SamplerPreset::LinearClampBorderBlack.as_string(),
        "sampler:linear_clamp_border_black"
    );
}

#[test]
fn preset_keys_are_distinct() {
    let presets = [
        SamplerPreset::NearestClamp,
        SamplerPreset::LinearClamp,
        SamplerPreset::LinearMipmapRepeat,
        SamplerPreset::LinearRepeat,
        SamplerPreset::Anisotropic(1),
        SamplerPreset::Anisotropic(10),
        SamplerPreset::ShadowDepth,
        SamplerPreset::LinearClampBorderBlack,
    ];
    for (i, a) in presets.iter().enumerate() {
        for (j, b) in presets.iter().enumerate() {
            assert_eq!(i == j, a.as_string() == b.as_string());
        }
    }
}

#[test]
fn preset_settings() {
    let s = sampler_settings_for(SamplerPreset::Anisotropic(0));
    assert_eq!(s.anisotropy_clamp, 1);
    assert_eq!(s.address_mode, AddressMode::Repeat);
    assert!(s.mipmapped);
    assert_eq!(sampler_settings_for(SamplerPreset::Anisotropic(8)).anisotropy_clamp, 8);
    let n = sampler_settings_for(SamplerPreset::NearestClamp);
    assert_eq!(n.mag_filter, FilterMode::Nearest);
    assert_eq!(n.mipmap_filter, FilterMode::Nearest);
    assert_eq!(n.address_mode, AddressMode::ClampToEdge);
    assert!(sampler_settings_for(SamplerPreset::ShadowDepth).compare_less_equal);
    let b = sampler_settings_for(SamplerPreset::LinearClampBorderBlack);
    assert!(b.border_opaque_black);
    assert_eq!(b.address_mode, AddressMode::ClampToBorder);
    assert!(!sampler_settings_for(SamplerPreset::LinearRepeat).mipmapped);
}

#[test]
fn framebuffer_size_changes() {
    let mut fb = FrameBuffer::from_parts("color", Some("depth"), (800, 600));
    assert_eq!(fb.size(), (800, 600));
    assert_eq!(*fb.color(), "color");
    assert_eq!(*fb.depth(), Some("depth"));
    assert!(!fb.set_size((800, 600)));
    assert!(fb.set_size((1024, 600)));
    assert_eq!(fb.size(), (1024, 600));
    assert_eq!(fb.take_depth(), Some("depth"));
    assert_eq!(*fb.depth(), None);
    fb.set_color("color2");
    fb.set_depth(Some("depth2"));
    assert_eq!(*fb.color(), "color2");
    assert_eq!(*fb.depth(), Some("depth2"));
}

#[test]
fn render_targets_by_kind() {
    let mut m: RenderTargetManager<u32> = RenderTargetManager::new();
    assert!(m.get(&RenderTargetKind::Scene).is_none());
    m.insert(1, RenderTargetKind::Scene);
    m.insert(2, RenderTargetKind::Custom("bloom-pass"));
    m.insert(3, RenderTargetKind::Hdr);
    m.insert(4, RenderTargetKind::Scene);
    assert_eq!(m.get(&RenderTargetKind::Scene), Some(&4));
    assert_eq!(m.get(&RenderTargetKind::Hdr), Some(&3));
    let name = String::from("bloom-pass");
    let leaked: &'static str = Box::leak(name.into_boxed_str());
    assert_eq!(m.get(&RenderTargetKind::Custom(leaked)), Some(&2));
    assert!(m.get(&RenderTargetKind::Custom("other")).is_none());
    assert!(m.get(&RenderTargetKind::Bloom).is_none());
    *m.get_mut(&RenderTargetKind::Hdr).unwrap() = 30;
    assert_eq!(m.get(&RenderTargetKind::Hdr), Some(&30));
    assert!(m.get_mut(&RenderTargetKind::Shadow).is_none());
    assert_eq!(m.kinds().len(), 3);
}

#[test]
fn kind_and_string_equality() {
    assert!(RenderTargetKind::Custom("a").same_kind(&RenderTargetKind::Custom("a")));
    assert!(!RenderTargetKind::Custom("a").same_kind(&RenderTargetKind::Custom("ab")));
    assert!(!RenderTargetKind::Scene.same_kind(&RenderTargetKind::Hdr));
    assert!(str_eq("héllo", "héllo"));
    assert!(!str_eq("héllo", "hello"));
    assert!(str_eq("", ""));
}

#[test]
fn available_backend_prefers_vulkan_then_gl() {
    assert_eq!(available_backend(true, true), Backend::Vulkan);
    assert_eq!(available_backend(true, false), Backend::Vulkan);
    assert_eq!(available_backend(false, true), Backend::Gl);
    assert_eq!(available_backend(false, false), Backend::All);
}

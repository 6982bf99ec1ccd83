use vstd::prelude::*;
use vstd::string::*;

verus! {

/// A set of well-named sampler configurations.
#[derive(Debug, Clone, Copy, PartialEq, Eq, Hash, Structural)]
pub enum SamplerPreset {
    /// Point sampling, no mips, clamp to edge.
    NearestClamp,
    /// Linear sampling, no mips, clamp to edge.
    LinearClamp,
    /// Linear sampling, mipmapped, repeat.
    LinearMipmapRepeat,
    /// Linear sampling, no mips, repeat.
    LinearRepeat,
    /// Hardware anisotropic filtering with the given clamp; `1` is about no anisotropy.
    Anisotropic(u16),
    /// Depth compare sampler for shadow mapping.
    ShadowDepth,
    /// Border (opaque black) for cube/sky sampling beyond edges.
    LinearClampBorderBlack,
}

/// How texture coordinates outside `[0, 1]` are resolved (on every axis).
#[derive(Debug, Clone, Copy, PartialEq, Eq, Structural)]
pub enum AddressMode {
    ClampToEdge,
    Repeat,
    ClampToBorder,
}

/// How texels are filtered.
#[derive(Debug, Clone, Copy, PartialEq, Eq, Structural)]
pub enum FilterMode {
    Nearest,
    Linear,
}

/// The sampler configuration a preset stands for.
#[derive(Debug, Clone, Copy, PartialEq, Eq, Structural)]
pub struct SamplerSettings {
    /// The address mode of all three axes.
    pub address_mode: AddressMode,
    pub mag_filter: FilterMode,
    pub min_filter: FilterMode,
    pub mipmap_filter: FilterMode,
    /// Whether the whole mip chain is sampled (a level-of-detail range up to 1000) rather than
    /// the base level alone.
    pub mipmapped: bool,
    /// The anisotropy clamp; 1 is no anisotropy.
    pub anisotropy_clamp: u16,
    /// Whether the sampler compares depths with less-or-equal.
    pub compare_less_equal: bool,
    /// Whether samples past the border read opaque black.
    pub border_opaque_black: bool,
}

/// The settings of preset `p`.
pub open spec fn preset_settings(p: SamplerPreset) -> SamplerSettings {
    let base = SamplerSettings {
        address_mode: AddressMode::ClampToEdge,
        mag_filter: FilterMode::Linear,
        min_filter: FilterMode::Linear,
        mipmap_filter: FilterMode::Nearest,
        mipmapped: false,
        anisotropy_clamp: 1,
        compare_less_equal: false,
        border_opaque_black: false,
    };
    match p {
        SamplerPreset::NearestClamp => SamplerSettings {
            mag_filter: FilterMode::Nearest,
            min_filter: FilterMode::Nearest,
            ..base
        },
        SamplerPreset::LinearClamp => base,
        SamplerPreset::LinearMipmapRepeat => SamplerSettings {
            address_mode: AddressMode::Repeat,
            mipmap_filter: FilterMode::Linear,
            mipmapped: true,
            ..base
        },
        SamplerPreset::LinearRepeat => SamplerSettings { address_mode: AddressMode::Repeat, ..base },
        SamplerPreset::Anisotropic(a) => SamplerSettings {
            address_mode: AddressMode::Repeat,
            mipmap_filter: FilterMode::Linear,
            mipmapped: true,
            anisotropy_clamp: if a >= 1 { a } else { 1 },
            ..base
        },
        SamplerPreset::ShadowDepth => SamplerSettings { compare_less_equal: true, ..base },
        SamplerPreset::LinearClampBorderBlack => SamplerSettings {
            address_mode: AddressMode::ClampToBorder,
            border_opaque_black: true,
            ..base
        },
    }
}

/// The sampler configuration for `preset`.
pub fn sampler_settings_for(preset: SamplerPreset) -> (r: SamplerSettings)
    ensures
        r == preset_settings(preset),
{
    let base = SamplerSettings {
        address_mode: AddressMode::ClampToEdge,
        mag_filter: FilterMode::Linear,
        min_filter: FilterMode::Linear,
        mipmap_filter: FilterMode::Nearest,
        mipmapped: false,
        anisotropy_clamp: 1,
        compare_less_equal: false,
        border_opaque_black: false,
    };
    match preset {
        SamplerPreset::NearestClamp => SamplerSettings {
            mag_filter: FilterMode::Nearest,
            min_filter: FilterMode::Nearest,
            ..base
        },
        SamplerPreset::LinearClamp => base,
        SamplerPreset::LinearMipmapRepeat => SamplerSettings {
            address_mode: AddressMode::Repeat,
            mipmap_filter: FilterMode::Linear,
            mipmapped: true,
            ..base
        },
        SamplerPreset::LinearRepeat => SamplerSettings { address_mode: AddressMode::Repeat, ..base },
        SamplerPreset::Anisotropic(aniso) => SamplerSettings {
            address_mode: AddressMode::Repeat,
            mipmap_filter: FilterMode::Linear,
            mipmapped: true,
            anisotropy_clamp: if aniso >= 1 { aniso } else { 1 },
            ..base
        },
        SamplerPreset::ShadowDepth => SamplerSettings { compare_less_equal: true, ..base },
        SamplerPreset::LinearClampBorderBlack => SamplerSettings {
            address_mode: AddressMode::ClampToBorder,
            border_opaque_black: true,
            ..base
        },
    }
}

/// The decimal digit character of `d` (for `d < 10`).
pub open spec fn digit_char(d: nat) -> char {
    ('0' as u32 + d) as char
}

/// The decimal representation of `n`, most significant digit first, without leading zeros.
pub open spec fn decimal(n: nat) -> Seq<char>
    decreases n,
{
    if n < 10 {
        seq![digit_char(n)]
    } else {
        decimal(n / 10) + seq![digit_char(n % 10)]
    }
}

fn digit_str(d: u16) -> (r: &'static str)
    requires
        d < 10,
    ensures
        r@ == seq![digit_char(d as nat)],
{
    proof {
        reveal_strlit("0");
        reveal_strlit("1");
        reveal_strlit("2");
        reveal_strlit("3");
        reveal_strlit("4");
        reveal_strlit("5");
        reveal_strlit("6");
        reveal_strlit("7");
        reveal_strlit("8");
        reveal_strlit("9");
    }
    match d {
        0 => "0",
        1 => "1",
        2 => "2",
        3 => "3",
        4 => "4",
        5 => "5",
        6 => "6",
        7 => "7",
        8 => "8",
        _ => "9",
    }
}

/// Appends the decimal representation of `n` to `s`.
fn push_decimal(s: &mut String, n: u16)
    ensures
        final(s)@ == old(s)@ + decimal(n as nat),
    decreases n,
{
    if n >= 10 {
        push_decimal(s, n / 10);
    }
    s.append(digit_str(n % 10));
    proof {
        if n >= 10 {
            assert(final(s)@ =~= old(s)@ + decimal(n as nat));
        } else {
            assert(final(s)@ =~= old(s)@ + decimal(n as nat));
        }
    }
}

impl SamplerPreset {
    /// The preset's cache key text.
    pub open spec fn key_text(self) -> Seq<char> {
        match self {
            SamplerPreset::NearestClamp => "sampler:nearest_clamp"@,
            SamplerPreset::LinearClamp => "sampler:linear_clamp"@,
            SamplerPreset::LinearMipmapRepeat => "sampler:linear_mipmap_repeat"@,
            SamplerPreset::LinearRepeat => "sampler:linear_repeat"@,
            SamplerPreset::Anisotropic(n) => "sampler:aniso"@ + decimal(n as nat),
            SamplerPreset::ShadowDepth => "sampler:shadow_depth"@,
            SamplerPreset::LinearClampBorderBlack => "sampler:linear_clamp_border_black"@,
        }
    }

    /// A stable key string for caching, such as `sampler:aniso16`.
    pub fn as_string(&self) -> (r: String)
        ensures
            r@ == self.key_text(),
    {
        match *self {
            SamplerPreset::NearestClamp => String::from_str("sampler:nearest_clamp"),
            SamplerPreset::LinearClamp => String::from_str("sampler:linear_clamp"),
            SamplerPreset::LinearMipmapRepeat => String::from_str("sampler:linear_mipmap_repeat"),
            SamplerPreset::LinearRepeat => String::from_str("sampler:linear_repeat"),
            SamplerPreset::Anisotropic(n) => {
                let mut s = String::from_str("sampler:aniso");
                push_decimal(&mut s, n);
                s
            },
            SamplerPreset::ShadowDepth => String::from_str("sampler:shadow_depth"),
            SamplerPreset::LinearClampBorderBlack => String::from_str(
                "sampler:linear_clamp_border_black",
            ),
        }
    }
}

proof fn lemma_decimal_len(n: nat)
    ensures
        decimal(n).len() >= 1,
        n >= 10 ==> decimal(n).len() >= 2,
        n < 10 ==> decimal(n).len() == 1,
        n < 100 ==> decimal(n).len() <= 2,
        n < 1000 ==> decimal(n).len() <= 3,
        n < 10000 ==> decimal(n).len() <= 4,
        n < 100000 ==> decimal(n).len() <= 5,
    decreases n,
{
    if n >= 10 {
        lemma_decimal_len(n / 10);
    }
}

proof fn lemma_digit_char_injective(a: nat, b: nat)
    requires
        a < 10,
        b < 10,
        digit_char(a) == digit_char(b),
    ensures
        a == b,
{
    assert(digit_char(a) as u32 == 48 + a);
    assert(digit_char(b) as u32 == 48 + b);
}

proof fn lemma_decimal_injective(n: nat, m: nat)
    requires
        decimal(n) == decimal(m),
    ensures
        n == m,
    decreases n,
{
    lemma_decimal_len(n);
    lemma_decimal_len(m);
    if n < 10 && m < 10 {
        assert(decimal(n) == seq![digit_char(n)]);
        assert(decimal(m) == seq![digit_char(m)]);
        assert(decimal(n)[0] == digit_char(n));
        assert(decimal(m)[0] == digit_char(m));
        lemma_digit_char_injective(n, m);
    } else if n >= 10 && m >= 10 {
        let a = decimal(n);
        let b = decimal(m);
        assert(a.last() == b.last());
        lemma_digit_char_injective(n % 10, m % 10);
        assert(a.drop_last() =~= decimal(n / 10));
        assert(b.drop_last() =~= decimal(m / 10));
        lemma_decimal_injective(n / 10, m / 10);
    } else {
        assert(decimal(n).len() != decimal(m).len());
    }
}

/// Each preset's settings are what its name and documentation say: the repeat presets
/// (linear-mipmap-repeat, linear-repeat, anisotropic) repeat, the clamp presets (nearest-clamp,
/// linear-clamp, shadow-depth) clamp to the edge and the border preset clamps to an opaque black
/// border; exactly the mipmap and anisotropic presets are mipmapped, and they filter between
/// mips linearly; only nearest-clamp samples point-wise; only shadow-depth compares depths; and
/// the anisotropy clamp is at least 1, the anisotropic preset's own clamp when that is.
pub proof fn law_preset_settings_match_names(p: SamplerPreset)
    ensures
        ({
            let s = preset_settings(p);
            &&& (p is LinearMipmapRepeat || p is LinearRepeat || p is Anisotropic) ==> s.address_mode
                == AddressMode::Repeat
            &&& (p is NearestClamp || p is LinearClamp || p is ShadowDepth) ==> s.address_mode
                == AddressMode::ClampToEdge
            &&& p is LinearClampBorderBlack ==> s.address_mode == AddressMode::ClampToBorder
                && s.border_opaque_black
            &&& s.mipmapped == (p is LinearMipmapRepeat || p is Anisotropic)
            &&& s.mipmapped ==> s.mipmap_filter == FilterMode::Linear
            &&& (s.mag_filter == FilterMode::Nearest) == (p is NearestClamp)
            &&& (s.min_filter == FilterMode::Nearest) == (p is NearestClamp)
            &&& s.compare_less_equal == (p is ShadowDepth)
            &&& s.border_opaque_black == (p is LinearClampBorderBlack)
            &&& s.anisotropy_clamp >= 1
            &&& p matches SamplerPreset::Anisotropic(a) ==> (a >= 1 ==> s.anisotropy_clamp == a)
            &&& (!(p is Anisotropic) ==> s.anisotropy_clamp == 1)
        }),
{
}

/// Different presets have different cache keys, so no two presets share a cached sampler.
pub proof fn law_preset_keys_distinct(a: SamplerPreset, b: SamplerPreset)
    requires
        a != b,
    ensures
        a.key_text() != b.key_text(),
{
    reveal_strlit("sampler:nearest_clamp");
    reveal_strlit("sampler:linear_clamp");
    reveal_strlit("sampler:linear_mipmap_repeat");
    reveal_strlit("sampler:linear_repeat");
    reveal_strlit("sampler:aniso");
    reveal_strlit("sampler:shadow_depth");
    reveal_strlit("sampler:linear_clamp_border_black");
    let aniso = "sampler:aniso"@;
    assert(aniso.len() == 13);
    if let SamplerPreset::Anisotropic(n) = a {
        lemma_decimal_len(n as nat);
        assert(a.key_text().len() <= 18);
    } else {
        assert(a.key_text().len() >= 20);
    }
    if let SamplerPreset::Anisotropic(m) = b {
        lemma_decimal_len(m as nat);
        assert(b.key_text().len() <= 18);
    } else {
        assert(b.key_text().len() >= 20);
    }
    if a.key_text() == b.key_text() {
        match (a, b) {
            (SamplerPreset::Anisotropic(n), SamplerPreset::Anisotropic(m)) => {
                assert(decimal(n as nat) =~= a.key_text().subrange(13, a.key_text().len() as int));
                assert(decimal(m as nat) =~= b.key_text().subrange(13, b.key_text().len() as int));
                lemma_decimal_injective(n as nat, m as nat);
            },
            _ => {
                assert(a.key_text().len() == b.key_text().len());
                assert(a.key_text()[8] == b.key_text()[8]);
            },
        }
    }
}

} // verus!

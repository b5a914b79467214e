use vstd::prelude::*;

verus! {

/// Magnification filter of a model's texture sampler.
#[derive(Clone, Copy, PartialEq, Eq, Structural, Debug)]
pub enum MagFilter {
    Nearest,
    Linear,
}

/// Minification filter of a model's texture sampler.
#[derive(Clone, Copy, PartialEq, Eq, Structural, Debug)]
pub enum MinFilter {
    Nearest,
    Linear,
    NearestMipmapNearest,
    LinearMipmapNearest,
    NearestMipmapLinear,
    LinearMipmapLinear,
}

/// Texture coordinate wrapping of a model's texture sampler.
#[derive(Clone, Copy, PartialEq, Eq, Structural, Debug)]
pub enum WrappingMode {
    ClampToEdge,
    MirroredRepeat,
    Repeat,
}

/// A model's texture sampler, as the model file describes it.
#[derive(Clone, Copy, PartialEq, Eq, Structural, Debug)]
pub struct Sampler {
    pub mag_filter: Option<MagFilter>,
    pub min_filter: Option<MinFilter>,
    pub wrap_s: WrappingMode,
    pub wrap_t: WrappingMode,
}

/// Texel filter of the device's sampler.
#[derive(Clone, Copy, PartialEq, Eq, Structural, Debug)]
pub enum Filter {
    Nearest,
    Linear,
}

/// Mipmap selection of the device's sampler.
#[derive(Clone, Copy, PartialEq, Eq, Structural, Debug)]
pub enum SamplerMipmapMode {
    Nearest,
    Linear,
}

/// Addressing outside the texture of the device's sampler.
#[derive(Clone, Copy, PartialEq, Eq, Structural, Debug)]
pub enum SamplerAddressMode {
    Repeat,
    MirroredRepeat,
    ClampToEdge,
}

/// The settings of the device's sampler for a model's texture; the rest of
/// the sampler keeps the device defaults.
#[derive(Clone, Copy, PartialEq, Eq, Structural, Debug)]
pub struct SamplerSettings {
    pub mag_filter: Filter,
    pub min_filter: Filter,
    pub mipmap_mode: SamplerMipmapMode,
    pub address_mode_u: SamplerAddressMode,
    pub address_mode_v: SamplerAddressMode,
}

/// The filter used where a model gives none.
pub open spec fn default_filter() -> Filter {
    Filter::Linear
}

/// The device filter for a magnification filter.
pub open spec fn mag_filter_spec(f: Option<MagFilter>) -> Filter {
    match f {
        None => default_filter(),
        Some(MagFilter::Nearest) => Filter::Nearest,
        Some(MagFilter::Linear) => Filter::Linear,
    }
}

/// The device filter and mipmap mode for a minification filter.
pub open spec fn min_filter_spec(f: Option<MinFilter>) -> (Filter, SamplerMipmapMode) {
    match f {
        None => (default_filter(), SamplerMipmapMode::Linear),
        Some(MinFilter::Nearest) => (Filter::Nearest, SamplerMipmapMode::Nearest),
        Some(MinFilter::Linear) => (Filter::Linear, SamplerMipmapMode::Nearest),
        Some(MinFilter::NearestMipmapNearest) => (Filter::Nearest, SamplerMipmapMode::Nearest),
        Some(MinFilter::LinearMipmapNearest) => (Filter::Linear, SamplerMipmapMode::Nearest),
        Some(MinFilter::NearestMipmapLinear) => (Filter::Nearest, SamplerMipmapMode::Linear),
        Some(MinFilter::LinearMipmapLinear) => (Filter::Linear, SamplerMipmapMode::Linear),
    }
}

/// The device addressing for a wrapping mode.
pub open spec fn address_mode_spec(mode: WrappingMode) -> SamplerAddressMode {
    match mode {
        WrappingMode::ClampToEdge => SamplerAddressMode::ClampToEdge,
        WrappingMode::MirroredRepeat => SamplerAddressMode::MirroredRepeat,
        WrappingMode::Repeat => SamplerAddressMode::Repeat,
    }
}

/// The filter used where a model gives none.
pub fn default_texture_filter() -> (r: Filter)
    ensures
        r == default_filter(),
{
    Filter::Linear
}

/// The device addressing for a wrapping mode.
pub fn convert_wrapping_mode(mode: &WrappingMode) -> (r: SamplerAddressMode)
    ensures
        r == address_mode_spec(*mode),
{
    match mode {
        WrappingMode::ClampToEdge => SamplerAddressMode::ClampToEdge,
        WrappingMode::MirroredRepeat => SamplerAddressMode::MirroredRepeat,
        WrappingMode::Repeat => SamplerAddressMode::Repeat,
    }
}

/// The device sampler settings for a model's texture sampler.
pub open spec fn convert_sampler_spec(sampler: Sampler) -> SamplerSettings {
    SamplerSettings {
        mag_filter: mag_filter_spec(sampler.mag_filter),
        min_filter: min_filter_spec(sampler.min_filter).0,
        mipmap_mode: min_filter_spec(sampler.min_filter).1,
        address_mode_u: address_mode_spec(sampler.wrap_s),
        address_mode_v: address_mode_spec(sampler.wrap_t),
    }
}

/// The device sampler settings for a model's texture sampler.
pub fn convert_sampler(sampler: Sampler) -> (r: SamplerSettings)
    ensures
        r.mag_filter == mag_filter_spec(sampler.mag_filter),
        (r.min_filter, r.mipmap_mode) == min_filter_spec(sampler.min_filter),
        r.address_mode_u == address_mode_spec(sampler.wrap_s),
        r.address_mode_v == address_mode_spec(sampler.wrap_t),
        r == convert_sampler_spec(sampler),
{
    let mag_filter = match sampler.mag_filter {
        None => default_texture_filter(),
        Some(MagFilter::Nearest) => Filter::Nearest,
        Some(MagFilter::Linear) => Filter::Linear,
    };
    let (min_filter, mipmap_mode) = match sampler.min_filter {
        None => (default_texture_filter(), SamplerMipmapMode::Linear),
        Some(MinFilter::Nearest) => (Filter::Nearest, SamplerMipmapMode::Nearest),
        Some(MinFilter::Linear) => (Filter::Linear, SamplerMipmapMode::Nearest),
        Some(MinFilter::NearestMipmapNearest) => (Filter::Nearest, SamplerMipmapMode::Nearest),
        Some(MinFilter::LinearMipmapNearest) => (Filter::Linear, SamplerMipmapMode::Nearest),
        Some(MinFilter::NearestMipmapLinear) => (Filter::Nearest, SamplerMipmapMode::Linear),
        Some(MinFilter::LinearMipmapLinear) => (Filter::Linear, SamplerMipmapMode::Linear),
    };
    let address_mode_u = convert_wrapping_mode(&sampler.wrap_s);
    let address_mode_v = convert_wrapping_mode(&sampler.wrap_t);
    SamplerSettings { mag_filter, min_filter, mipmap_mode, address_mode_u, address_mode_v }
}

/// A filter that the model gives is kept: the magnification filter is
/// nearest exactly when the model asks for nearest; the minification's
/// texel filter is nearest exactly when the model's filter starts with
/// nearest, and mipmap levels are blended exactly when its name ends in
/// "mipmap linear". Only an absent filter takes the default (linear, with
/// blended levels). Each wrapping mode keeps its own addressing.
pub proof fn lemma_sampler_keeps_given_filters(s: Sampler)
    ensures
        s.mag_filter matches Some(f) ==> (convert_sampler_spec(s).mag_filter == Filter::Nearest
            <==> f == MagFilter::Nearest),
        s.mag_filter is None ==> convert_sampler_spec(s).mag_filter == Filter::Linear,
        s.min_filter matches Some(f) ==> (convert_sampler_spec(s).min_filter == Filter::Nearest
            <==> (f == MinFilter::Nearest || f == MinFilter::NearestMipmapNearest || f
            == MinFilter::NearestMipmapLinear)),
        s.min_filter matches Some(f) ==> (convert_sampler_spec(s).mipmap_mode
            == SamplerMipmapMode::Linear <==> (f == MinFilter::NearestMipmapLinear || f
            == MinFilter::LinearMipmapLinear)),
        s.min_filter is None ==> convert_sampler_spec(s).min_filter == Filter::Linear
            && convert_sampler_spec(s).mipmap_mode == SamplerMipmapMode::Linear,
        s.wrap_s != s.wrap_t ==> convert_sampler_spec(s).address_mode_u
            != convert_sampler_spec(s).address_mode_v,
        (s.wrap_s == WrappingMode::Repeat) == (convert_sampler_spec(s).address_mode_u
            == SamplerAddressMode::Repeat),
        (s.wrap_s == WrappingMode::ClampToEdge) == (convert_sampler_spec(s).address_mode_u
            == SamplerAddressMode::ClampToEdge),
{
}

} // verus!

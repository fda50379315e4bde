//! The renderer's vocabulary: shader and camera kinds, quality settings,
//! render layers and texture slots.  The rendering itself lives outside the
//! library.

use vstd::prelude::*;

verus! {

/// The texture slots of a material, each an optional asset path.
#[derive(Debug, Clone)]
pub struct MaterialTextures {
    pub albedo: Option<String>,
    pub normal: Option<String>,
    pub metallic: Option<String>,
    pub roughness: Option<String>,
    pub emission: Option<String>,
    pub ambient_occlusion: Option<String>,
    pub height: Option<String>,
}

/// The shading models a material can ask for.
#[derive(Debug, Clone)]
pub enum ShaderType {
    Standard,
    Unlit,
    Toon,
    Water,
    Glass,
    Hologram,
    Fire,
    Custom(String),
}

/// The post-processing passes.
#[derive(Debug, Clone, Copy, PartialEq, Eq, Structural)]
pub enum PostProcessingType {
    Bloom,
    ToneMapping,
    ColorGrading,
    FXAA,
    SSAO,
    MotionBlur,
    DepthOfField,
    Vignette,
    ChromaticAberration,
    FilmGrain,
    Sharpen,
    Blur,
}

/// The camera rigs.
#[derive(Debug, Clone, Copy, PartialEq, Eq, Structural)]
pub enum CameraType {
    FirstPerson,
    ThirdPerson,
    Orbital,
    Fixed,
    Cinematic,
}

/// The draw-order layers, back to front.
#[derive(Debug, Clone, Copy, PartialEq, Eq, Structural)]
pub enum RenderLayer {
    Background,
    Opaque,
    Transparent,
    UI,
    Debug,
}

/// Shadow quality presets.
#[derive(Debug, Clone, Copy, PartialEq, Eq, Structural)]
pub enum ShadowQuality {
    Off,
    Low,
    Medium,
    High,
    Ultra,
}

/// Texture quality presets.
#[derive(Debug, Clone, Copy, PartialEq, Eq, Structural)]
pub enum TextureQuality {
    Low,
    Medium,
    High,
    Ultra,
}

/// Anti-aliasing modes; `Off` disables it.
#[derive(Debug, Clone, Copy, PartialEq, Eq, Structural)]
pub enum AntiAliasing {
    Off,
    FXAA,
    MSAA2x,
    MSAA4x,
    MSAA8x,
    TAA,
}

} // verus!

//! Host-side rasterizer frontend of the console GPU.
use vstd::prelude::*;

pub mod load_buffer;
pub mod model;
pub mod renderer;
pub mod vertex;

verus! {

/// Width of the VRAM in 16-bit pixels
pub const VRAM_WIDTH_PIXELS: u16 = 1024;

/// Height of the VRAM in lines
pub const VRAM_HEIGHT: u16 = 512;

/// Depth of the pixels of a texture
#[derive(Clone, Copy, Debug, PartialEq, Eq, Structural)]
pub enum TextureDepth {
    /// 4 bits per pixel, paletted
    T4Bpp,
    /// 8 bits per pixel, paletted
    T8Bpp,
    /// 16 bits per pixel, direct color
    T16Bpp,
}

/// How a primitive's texture combines with its color
#[derive(Clone, Copy, Debug, PartialEq, Eq, Structural)]
pub enum BlendMode {
    /// No texture
    Untextured,
    /// Raw texture
    Raw,
    /// Texture modulated by the vertex color
    Blended,
}

/// Color depth of the displayed framebuffer
#[derive(Clone, Copy, Debug, PartialEq, Eq, Structural)]
pub enum DisplayDepth {
    D15Bits,
    D24Bits,
}

/// How a semi-transparent primitive blends with what is under it
#[derive(Clone, Copy, Debug, PartialEq, Eq, Structural)]
pub enum SemiTransparencyMode {
    /// Half source plus half destination
    Average,
    /// Source plus destination
    Add,
    /// Destination minus source
    SubtractSource,
    /// Destination plus a quarter of the source
    AddQuarterSource,
}

/// Operation that combines the weighted source and destination colors
#[derive(Clone, Copy, Debug, PartialEq, Eq, Structural)]
pub enum BlendEquation {
    /// source + destination
    Add,
    /// destination - source
    ReverseSubtract,
}

/// Weight applied to a color before the blend equation
#[derive(Clone, Copy, Debug, PartialEq, Eq, Structural)]
pub enum BlendFactor {
    One,
    /// The constant color, one half on each channel
    ConstantColor,
    /// The constant alpha, one quarter
    ConstantAlpha,
}

/// How the backend blends a semi-transparent primitive; the constant
/// color is one half on each channel and the constant alpha a quarter
#[derive(Clone, Copy, Debug, PartialEq, Eq, Structural)]
pub struct BlendFunction {
    pub equation: BlendEquation,
    pub source: BlendFactor,
    pub destination: BlendFactor,
}

/// The blend function of each semi-transparency mode
pub open spec fn blend_function_spec(mode: SemiTransparencyMode) -> BlendFunction {
    match mode {
        SemiTransparencyMode::Average => BlendFunction {
            equation: BlendEquation::Add,
            source: BlendFactor::ConstantColor,
            destination: BlendFactor::ConstantColor,
        },
        SemiTransparencyMode::Add => BlendFunction {
            equation: BlendEquation::Add,
            source: BlendFactor::One,
            destination: BlendFactor::One,
        },
        SemiTransparencyMode::SubtractSource => BlendFunction {
            equation: BlendEquation::ReverseSubtract,
            source: BlendFactor::One,
            destination: BlendFactor::One,
        },
        SemiTransparencyMode::AddQuarterSource => BlendFunction {
            equation: BlendEquation::Add,
            source: BlendFactor::ConstantAlpha,
            destination: BlendFactor::One,
        },
    }
}

/// Blend function for `mode`: half source plus half destination,
/// source plus destination, destination minus source, or destination
/// plus a quarter of the source
pub fn blend_function(mode: SemiTransparencyMode) -> (r: BlendFunction)
    ensures
        r == blend_function_spec(mode),
{
    match mode {
        SemiTransparencyMode::Average => BlendFunction {
            equation: BlendEquation::Add,
            source: BlendFactor::ConstantColor,
            destination: BlendFactor::ConstantColor,
        },
        SemiTransparencyMode::Add => BlendFunction {
            equation: BlendEquation::Add,
            source: BlendFactor::One,
            destination: BlendFactor::One,
        },
        SemiTransparencyMode::SubtractSource => BlendFunction {
            equation: BlendEquation::ReverseSubtract,
            source: BlendFactor::One,
            destination: BlendFactor::One,
        },
        SemiTransparencyMode::AddQuarterSource => BlendFunction {
            equation: BlendEquation::Add,
            source: BlendFactor::ConstantAlpha,
            destination: BlendFactor::One,
        },
    }
}

} // verus!

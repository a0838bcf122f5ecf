//! Vertices and the work that the rasterizer hands to the graphics
//! backend.
use vstd::prelude::*;

use super::{BlendMode, DisplayDepth, SemiTransparencyMode, TextureDepth};

verus! {

/// Kind of primitive drawn from a run of vertices
#[derive(Clone, Copy, Debug, PartialEq, Eq, Structural)]
pub enum PrimitiveType {
    /// Three vertices per triangle
    TrianglesList,
    /// Two vertices per line
    LinesList,
}

/// Vertex definition used by the draw commands
#[derive(Clone, Copy, Debug)]
pub struct CommandVertex {
    /// Position in PlayStation VRAM coordinates
    pub position: [i16; 2],
    /// Drawing order, later primitives must appear above the earlier
    /// ones.
    pub order: u32,
    /// RGB color, 8bits per component
    pub color: [u8; 3],
    /// Texture page (base offset in VRAM used for texture lookup)
    pub texture_page: [u16; 2],
    /// Texture coordinates within the page
    pub texture_coord: [u16; 2],
    /// Color Look-Up Table (palette) coordinates in VRAM
    pub clut: [u16; 2],
    /// Blending mode: 0: no texture, 1: raw-texture, 2: texture-blended
    pub texture_blend_mode: u8,
    /// Right shift from 16bits: 0 for 16bpp textures, 1 for 8bpp, 2
    /// for 4bpp
    pub depth_shift: u8,
    /// 1 if dithering is enabled for this primitive, otherwise 0
    pub dither: u8,
    /// 1 if the primitive is semi-transparent, otherwise 0
    pub semi_transparent: u8,
}

/// Code of a blend mode in the vertex attributes
pub open spec fn blend_mode_code(m: BlendMode) -> u8 {
    match m {
        BlendMode::Untextured => 0,
        BlendMode::Raw => 1,
        BlendMode::Blended => 2,
    }
}

/// Right shift that turns a 16-bit texel address into one of `d`
pub open spec fn depth_shift_of(d: TextureDepth) -> u8 {
    match d {
        TextureDepth::T4Bpp => 2,
        TextureDepth::T8Bpp => 1,
        TextureDepth::T16Bpp => 0,
    }
}

impl CommandVertex {
    pub fn new(
        position: [i16; 2],
        color: [u8; 3],
        blend_mode: BlendMode,
        texture_page: [u16; 2],
        texture_coord: [u16; 2],
        clut: [u16; 2],
        texture_depth: TextureDepth,
        dither: bool,
        semi_transparent: bool,
    ) -> (r: CommandVertex)
        ensures
            r.position == position,
            r.order == 0,
            r.color == color,
            r.texture_page == texture_page,
            r.texture_coord == texture_coord,
            r.clut == clut,
            r.texture_blend_mode == blend_mode_code(blend_mode),
            r.depth_shift == depth_shift_of(texture_depth),
            r.dither == (if dither {
                1u8
            } else {
                0u8
            }),
            r.semi_transparent == (if semi_transparent {
                1u8
            } else {
                0u8
            }),
    {
        let blend_mode = match blend_mode {
            BlendMode::Untextured => 0,
            BlendMode::Raw => 1,
            BlendMode::Blended => 2,
        };
        let depth_shift = match texture_depth {
            TextureDepth::T4Bpp => 2,
            TextureDepth::T8Bpp => 1,
            TextureDepth::T16Bpp => 0,
        };
        CommandVertex {
            position: position,
            order: 0,
            color: color,
            texture_page: texture_page,
            texture_coord: texture_coord,
            texture_blend_mode: blend_mode,
            clut: clut,
            depth_shift: depth_shift,
            dither: if dither {
                1
            } else {
                0
            },
            semi_transparent: if semi_transparent {
                1
            } else {
                0
            },
        }
    }
}

/// A run of opaque vertices drawn as one kind of primitive
#[derive(Clone, Copy, Debug, PartialEq, Eq, Structural)]
pub struct OpaqueCommand {
    pub primitive_type: PrimitiveType,
    /// Number of vertices
    pub len: u32,
}

/// A run of semi-transparent vertices drawn as one kind of primitive
/// with one blend mode
#[derive(Clone, Copy, Debug, PartialEq, Eq, Structural)]
pub struct SemiTransparentCommand {
    pub primitive_type: PrimitiveType,
    pub mode: SemiTransparencyMode,
    /// Number of vertices
    pub len: u32,
}

/// One draw call of the opaque pass: `len` vertices from `start`
#[derive(Clone, Copy, Debug, PartialEq, Eq, Structural)]
pub struct DrawRange {
    pub primitive_type: PrimitiveType,
    pub start: u32,
    pub len: u32,
}

/// One draw call of the semi-transparent pass: `len` vertices from
/// `start`, blended with `mode`
#[derive(Clone, Copy, Debug, PartialEq, Eq, Structural)]
pub struct BlendedRange {
    pub primitive_type: PrimitiveType,
    pub mode: SemiTransparencyMode,
    pub start: u32,
    pub len: u32,
}

/// Scissor box in host framebuffer coordinates, from the bottom left
#[derive(Clone, Copy, Debug, PartialEq, Eq, Structural)]
pub struct Scissor {
    pub left: u32,
    pub bottom: u32,
    pub width: u32,
    pub height: u32,
}

/// Everything buffered since the previous flush, ready to be drawn:
/// the opaque pass, then the semi-transparent pass
#[derive(Debug)]
pub struct Batch {
    pub opaque_vertices: Vec<CommandVertex>,
    /// Opaque draw calls, most recent run first
    pub opaque_draws: Vec<DrawRange>,
    pub semi_transparent_vertices: Vec<CommandVertex>,
    /// Semi-transparent draw calls, in submission order
    pub semi_transparent_draws: Vec<BlendedRange>,
    /// Number of primitives in the batch: the depth range of `order`
    pub max_order: u32,
    pub offset: (i16, i16),
    pub scissor: Scissor,
}

/// Contents of a batch, on sequences
pub struct BatchView {
    pub opaque_vertices: Seq<CommandVertex>,
    pub opaque_draws: Seq<DrawRange>,
    pub semi_transparent_vertices: Seq<CommandVertex>,
    pub semi_transparent_draws: Seq<BlendedRange>,
    pub max_order: u32,
    pub offset: (i16, i16),
    pub scissor: Scissor,
}

impl View for Batch {
    type V = BatchView;

    open spec fn view(&self) -> BatchView {
        BatchView {
            opaque_vertices: self.opaque_vertices@,
            opaque_draws: self.opaque_draws@,
            semi_transparent_vertices: self.semi_transparent_vertices@,
            semi_transparent_draws: self.semi_transparent_draws@,
            max_order: self.max_order,
            offset: self.offset,
            scissor: self.scissor,
        }
    }
}

/// Where an image lands in VRAM, corners exclusive at the end
#[derive(Clone, Copy, Debug, PartialEq, Eq, Structural)]
pub struct ImageArea {
    pub x_start: u16,
    pub x_end: u16,
    pub y_start: u16,
    pub y_end: u16,
    pub width: u16,
    pub height: u16,
}

/// Region of VRAM shown on screen and how to read its pixels
#[derive(Clone, Copy, Debug, PartialEq, Eq, Structural)]
pub struct DisplayArea {
    pub x_start: u16,
    pub x_end: u16,
    /// Bottom of the region on the host, which counts lines upward
    pub y_start: u16,
    pub y_end: u16,
    pub depth: DisplayDepth,
}

/// Work for the graphics backend, in the order it must be done
#[derive(Debug)]
pub enum GpuCommand {
    /// Draw a batch of primitives into the VRAM render target
    Draw(Batch),
    /// Fill a rectangle, given as a four-vertex strip, ignoring depth,
    /// offset and scissor
    FillRect([CommandVertex; 4]),
    /// Upload an image into VRAM
    LoadImage(ImageArea, Vec<u16>),
    /// Show a region of VRAM on the screen
    Display(DisplayArea),
}

/// A backend command, on sequences
pub enum GpuCommandView {
    Draw(BatchView),
    FillRect([CommandVertex; 4]),
    LoadImage(ImageArea, Seq<u16>),
    Display(DisplayArea),
}

impl View for GpuCommand {
    type V = GpuCommandView;

    open spec fn view(&self) -> GpuCommandView {
        match self {
            GpuCommand::Draw(b) => GpuCommandView::Draw(b@),
            GpuCommand::FillRect(v) => GpuCommandView::FillRect(*v),
            GpuCommand::LoadImage(a, p) => GpuCommandView::LoadImage(*a, p@),
            GpuCommand::Display(d) => GpuCommandView::Display(*d),
        }
    }
}

} // verus!

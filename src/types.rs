use vstd::prelude::*;

verus! {

/// A flat color with 8-bit channels.
#[derive(Copy, Clone, Debug, PartialEq, Eq, Structural)]
pub struct Color {
    pub r: u8,
    pub g: u8,
    pub b: u8,
    pub a: u8,
}

impl Color {
    pub fn rgba(r: u8, g: u8, b: u8, a: u8) -> (c: Color)
        ensures
            c == (Color { r, g, b, a }),
    {
        Color { r, g, b, a }
    }
}

/// Policy for resolving the interior of self-overlapping polygons.
#[derive(Copy, Clone, Debug, PartialEq, Eq, Structural)]
pub enum FillRule {
    NonZero,
    EvenOdd,
}

impl Default for FillRule {
    fn default() -> (r: FillRule)
        ensures
            r == FillRule::NonZero,
    {
        FillRule::NonZero
    }
}


/// One blend factor of a composite operation.
#[derive(Copy, Clone, Debug, PartialEq, Eq, Structural)]
pub enum BlendFactor {
    Zero,
    One,
    SrcColor,
    OneMinusSrcColor,
    DstColor,
    OneMinusDstColor,
    SrcAlpha,
    OneMinusSrcAlpha,
    DstAlpha,
    OneMinusDstAlpha,
    SrcAlphaSaturate,
}

/// Source and destination blend factors, for the color and the alpha channels.
#[derive(Copy, Clone, Debug, PartialEq, Eq, Structural)]
pub struct CompositeOperationState {
    pub src_rgb: BlendFactor,
    pub src_alpha: BlendFactor,
    pub dst_rgb: BlendFactor,
    pub dst_alpha: BlendFactor,
}

impl CompositeOperationState {
    /// The state that blends a premultiplied source over the destination.
    pub open spec fn source_over() -> CompositeOperationState {
        CompositeOperationState {
            src_rgb: BlendFactor::One,
            src_alpha: BlendFactor::One,
            dst_rgb: BlendFactor::OneMinusSrcAlpha,
            dst_alpha: BlendFactor::OneMinusSrcAlpha,
        }
    }

    /// The same pair of factors for the color and the alpha channels.
    pub fn new(src: BlendFactor, dst: BlendFactor) -> (r: CompositeOperationState)
        ensures
            r == (CompositeOperationState { src_rgb: src, src_alpha: src, dst_rgb: dst, dst_alpha: dst }),
    {
        CompositeOperationState { src_rgb: src, src_alpha: src, dst_rgb: dst, dst_alpha: dst }
    }
}

impl Default for CompositeOperationState {
    fn default() -> (r: CompositeOperationState)
        ensures
            r == CompositeOperationState::source_over(),
    {
        CompositeOperationState::new(BlendFactor::One, BlendFactor::OneMinusSrcAlpha)
    }
}

/// Handle of a texture owned by a renderer.
#[derive(Copy, Clone, Debug, PartialEq, Eq, Structural)]
pub struct ImageId {
    pub index: usize,
}

/// Bit set of texture options, fixed for the lifetime of a texture.
#[derive(Copy, Clone, Debug, PartialEq, Eq, Structural)]
pub struct ImageFlags {
    pub bits: u32,
}

impl ImageFlags {
    pub const GENERATE_MIPMAPS: u32 = 1;
    pub const REPEAT_X: u32 = 2;
    pub const REPEAT_Y: u32 = 4;
    pub const FLIP_Y: u32 = 8;
    pub const PREMULTIPLIED: u32 = 16;
    pub const NEAREST: u32 = 32;

    pub fn empty() -> (r: ImageFlags)
        ensures
            r.bits == 0,
    {
        ImageFlags { bits: 0 }
    }

    pub fn from_bits(bits: u32) -> (r: ImageFlags)
        ensures
            r.bits == bits,
    {
        ImageFlags { bits }
    }

    pub fn contains(&self, other: ImageFlags) -> (r: bool)
        ensures
            r == (self.bits & other.bits == other.bits),
    {
        self.bits & other.bits == other.bits
    }
}

/// Pixel layout of a texture.
#[derive(Copy, Clone, Debug, PartialEq, Eq, Structural)]
pub enum TextureType {
    Rgb,
    Rgba,
    Alpha,
}

impl TextureType {
    pub open spec fn spec_bytes_per_pixel(self) -> usize {
        match self {
            TextureType::Rgb => 3,
            TextureType::Rgba => 4,
            TextureType::Alpha => 1,
        }
    }

    /// Number of bytes that one pixel of this layout takes.
    #[verifier::when_used_as_spec(spec_bytes_per_pixel)]
    pub fn bytes_per_pixel(self) -> (r: usize)
        ensures
            r == self.spec_bytes_per_pixel(),
    {
        match self {
            TextureType::Rgb => 3,
            TextureType::Rgba => 4,
            TextureType::Alpha => 1,
        }
    }
}

/// Shader variant that a backend selects for one pass.
#[derive(Copy, Clone, Debug, PartialEq, Eq, Structural)]
pub enum ShaderType {
    FillGradient,
    FillImage,
    Stencil,
}

impl Default for ShaderType {
    fn default() -> (r: ShaderType)
        ensures
            r == ShaderType::FillGradient,
    {
        ShaderType::FillGradient
    }
}

impl ShaderType {
    pub open spec fn spec_selector(self) -> u32 {
        match self {
            ShaderType::FillGradient => 0,
            ShaderType::FillImage => 1,
            ShaderType::Stencil => 2,
        }
    }

    /// The number by which a shader tells the variants apart.
    #[verifier::when_used_as_spec(spec_selector)]
    pub fn selector(self) -> (r: u32)
        ensures
            r == self.spec_selector(),
    {
        match self {
            ShaderType::FillGradient => 0,
            ShaderType::FillImage => 1,
            ShaderType::Stencil => 2,
        }
    }
}

/// Parameter block of one shader pass: the variant and the solid paint.
#[derive(Copy, Clone, Debug, PartialEq, Eq, Structural)]
pub struct Params {
    pub shader_type: ShaderType,
    pub paint: Color,
}

impl Params {
    pub fn new(shader_type: ShaderType, paint: Color) -> (r: Params)
        ensures
            r == (Params { shader_type, paint }),
    {
        Params { shader_type, paint }
    }
}

/// A vertex of the shared buffer: position in render-target pixels and
/// texture coordinates in texels.
#[derive(Copy, Clone, Debug, PartialEq, Eq, Structural)]
pub struct Vertex {
    pub x: i32,
    pub y: i32,
    pub u: i32,
    pub v: i32,
}

impl Vertex {
    pub fn new(x: i32, y: i32, u: i32, v: i32) -> (r: Vertex)
        ensures
            r == (Vertex { x, y, u, v }),
    {
        Vertex { x, y, u, v }
    }

    pub fn set(&mut self, x: i32, y: i32, u: i32, v: i32)
        ensures
            *final(self) == (Vertex { x, y, u, v }),
    {
        *self = Vertex { x, y, u, v };
    }
}

} // verus!

//! Backend contract of a 2D vector-graphics renderer: the command and vertex
//! model of a frame, the texture lifecycle, and a renderer that executes
//! command batches on an in-memory surface with an 8-bit stencil buffer.

pub mod command;
pub mod images;
pub mod raster;
pub mod renderer;
pub mod types;

pub use command::{Command, CommandType, Drawable};
pub use images::{Image, ImageError, ImageStore, Texture, TextureView, MAX_TEXTURE_SIZE};
pub use raster::blend_colors;
pub use renderer::SoftwareRenderer;
pub use types::{
    BlendFactor, Color, CompositeOperationState, FillRule, ImageFlags, ImageId, Params,
    ShaderType, TextureType, Vertex,
};

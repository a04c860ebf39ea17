//! A resource-safety layer over a stateful graphics device API.
//!
//! The library tracks the logical state of GPU-resident objects: fixed-capacity
//! byte buffers, typed vertex buffers layered over them, vertex arrays that tie
//! a buffer's memory layout to a shader's input attributes, and the handles,
//! shaders, textures and framebuffers around them.  Every operation that
//! changes a buffer's contents is specified and verified down to the byte:
//! capacity accounting, the swap-remove relocation, and the attribute-tiling
//! check are all proved correct.  The unverified layer that issues the actual
//! device calls mirrors each operation onto the device using the offsets and
//! ranges this library computes.

mod framebuffer;
mod gl_context;
mod shader;
mod texture;
mod vertex_array;
mod vertex_buffer;

pub use gl_context::DeviceErrorClass;
pub use gl_context::GLContext;
pub use gl_context::GLContextExistence;
pub use gl_context::classify_device_error;
pub use vertex_buffer::BufferError;
pub use vertex_buffer::BufferHandle;
pub use vertex_buffer::DeviceCopy;
pub use vertex_buffer::GLBuffer;
pub use vertex_buffer::GLByteBuffer;
pub use vertex_buffer::HandleError;
pub use vertex_buffer::elem_views;
pub use vertex_buffer::lemma_flatten_len_uniform;
pub use vertex_buffer::lemma_flatten_subrange_uniform;
pub use vertex_buffer::lemma_push_read_back;
pub use vertex_buffer::lemma_swap_removed_single;
pub use vertex_buffer::spliced;
pub use vertex_buffer::swap_removed;
pub use vertex_array::ArrayError;
pub use vertex_array::ArrayHandle;
pub use vertex_array::AttribBinding;
pub use vertex_array::DrawCommand;
pub use vertex_array::DrawMode;
pub use vertex_array::GLArray;
pub use vertex_array::GLType;
pub use vertex_array::VertexAttribData;
pub use vertex_array::all_found;
pub use vertex_array::attrib_span;
pub use vertex_array::attrib_width;
pub use vertex_array::lemma_attrib_span_nonneg;
pub use vertex_array::lemma_attrib_span_take_le;
pub use vertex_array::lemma_attrib_span_take_succ;
pub use shader::ProgramHandle;
pub use shader::Shader;
pub use shader::ShaderError;
pub use shader::ShaderHandle;
pub use shader::uniform_lookup;
pub use texture::BufferTexture;
pub use texture::Texture2D;
pub use texture::TextureHandle;
pub use texture::TextureUnit;
pub use texture::GL_TEXTURE0;
pub use framebuffer::Framebuffer;

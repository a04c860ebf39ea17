//! GPU textures: plain 2D textures, buffer textures, and texture units.
//!
//! These follow the same ownership pattern as the buffer types — one owner
//! per device object, deletion exactly once at end of life — with no further
//! state of their own.  The device calls that create, bind and fill them
//! live in the unverified device layer.

use vstd::prelude::*;

use crate::gl_context::GLContextExistence;
use crate::vertex_buffer::{GLBuffer, HandleError};

verus! {

/// The device id of the first texture unit; the following units are
/// numbered consecutively after it.
pub const GL_TEXTURE0: u32 = 0x84C0;

/// A texture unit, named by its index as shaders see it.
#[derive(Clone, Copy, PartialEq, Eq, Structural, Debug)]
pub struct TextureUnit {
    /// The unit index a shader names, starting at zero.
    pub glsl_id: u32,
}

impl TextureUnit {
    /// The device id of this unit: the first unit's id plus the index.
    pub fn gl_id(&self) -> (r: u32)
        requires
            GL_TEXTURE0 + self.glsl_id <= u32::MAX,
        ensures
            r == GL_TEXTURE0 + self.glsl_id,
    {
        GL_TEXTURE0 + self.glsl_id
    }
}

impl Default for TextureUnit {
    /// The first texture unit.
    fn default() -> (r: TextureUnit)
        ensures
            r.glsl_id == 0,
    {
        TextureUnit { glsl_id: 0 }
    }
}

/// Owns one device texture object.  Exactly one owner ever deletes a given
/// device id, when this handle's owner reaches its end of life.
#[derive(Debug)]
pub struct TextureHandle {
    /// The device id of the texture object.
    pub gl_id: u32,
}

impl TextureHandle {
    /// Wraps the id a device "generate textures" call produced.  The id zero
    /// signals allocation failure and is rejected.
    pub fn new(_gl: &GLContextExistence, gl_id: u32) -> (r: Result<TextureHandle, HandleError>)
        ensures
            r matches Ok(h) ==> h.gl_id == gl_id && gl_id != 0,
            r is Err <==> gl_id == 0,
    {
        if gl_id == 0 {
            Err(HandleError::ZeroId)
        } else {
            Ok(TextureHandle { gl_id })
        }
    }
}

/// A GPU-allocated 2D texture.
pub struct Texture2D {
    /// Owns the device texture object.
    pub handle: TextureHandle,
}

impl Texture2D {
    /// Wraps a freshly generated texture handle.
    pub fn new(_gl: &GLContextExistence, handle: TextureHandle) -> (r: Texture2D)
        ensures
            r.handle == handle,
    {
        Texture2D { handle }
    }
}

/// A buffer texture: a texture object that reads its texels straight from a
/// typed buffer.  The device layer must bind the texture and attach the
/// buffer's storage to it under the caller's chosen format.
pub struct BufferTexture {
    /// Owns the device texture object.
    pub handle: TextureHandle,
    /// The typed buffer the texture reads from.
    pub buffer: GLBuffer,
}

impl BufferTexture {
    /// Wraps a freshly generated texture handle around the buffer that backs
    /// it.
    pub fn new(_gl: &GLContextExistence, handle: TextureHandle, buffer: GLBuffer) -> (r:
        BufferTexture)
        requires
            buffer.wf(),
        ensures
            r.handle == handle,
            r.buffer == buffer,
            r.buffer.wf(),
    {
        BufferTexture { handle, buffer }
    }
}

} // verus!

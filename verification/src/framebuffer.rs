//! Off-screen render targets.
//!
//! A framebuffer owns one device framebuffer object; binding it and
//! attaching textures to it are device calls, issued by the unverified
//! device layer against the id held here.  The id zero is not rejected: it
//! names the device's default framebuffer.

use vstd::prelude::*;

use crate::gl_context::GLContext;

verus! {

/// Owns one device framebuffer object.
#[derive(Debug)]
pub struct Framebuffer {
    /// The device id of the framebuffer object.
    pub gl_id: u32,
}

impl Framebuffer {
    /// Wraps the id a device "generate framebuffers" call produced.
    pub fn new(_gl: &GLContext, gl_id: u32) -> (r: Framebuffer)
        ensures
            r.gl_id == gl_id,
    {
        Framebuffer { gl_id }
    }
}

} // verus!

//! Context capability tokens and device-error classification.
//!
//! A rendering context and every resource created against it may only be
//! touched from the thread that holds the context's tokens.  All resource
//! constructors borrow a `GLContextExistence`, and all mutating operations
//! borrow a `GLContext` mutably, so the tokens' single-instance discipline
//! statically rules out concurrent access from a second owner.

use vstd::prelude::*;

verus! {

/// Proof that a rendering context exists.  Resource constructors borrow this
/// token so that no resource outlives the context it was created against.
///
/// Only create one of these per thread, via [`GLContext::new`].
pub struct GLContextExistence;

/// A handle to the rendering context itself.  Operations that mutate device
/// state borrow this token mutably.
pub struct GLContext;

/// The device error codes this library distinguishes after polling the
/// driver's error flag: `0` reports no error and `0x0505` reports that the
/// device is out of memory.
pub const GL_NO_ERROR: u32 = 0;

/// The device's out-of-memory error code.
pub const GL_OUT_OF_MEMORY: u32 = 0x0505;

/// How a polled device error code must be treated: out-of-memory is fatal,
/// any other nonzero code is reported and rendering continues.
#[derive(Clone, Copy, PartialEq, Eq, Structural, Debug)]
pub enum DeviceErrorClass {
    /// The device reported no error.
    NoError,
    /// The device is out of memory; the failed allocation is unrecoverable.
    OutOfMemory,
    /// Any other device error; surfaced as a warning.
    Other,
}

impl GLContext {
    /// Creates the pair of context tokens.
    ///
    /// Caller obligation: call this at most once per thread, after a real
    /// rendering context has been made current on that thread.
    pub fn new() -> (GLContextExistence, GLContext) {
        (GLContextExistence, GLContext)
    }
}

/// Classifies an error code polled from the device after a multi-step setup
/// sequence, deciding whether it is fatal.
pub fn classify_device_error(code: u32) -> (r: DeviceErrorClass)
    ensures
        r == DeviceErrorClass::NoError <==> code == GL_NO_ERROR,
        r == DeviceErrorClass::OutOfMemory <==> code == GL_OUT_OF_MEMORY,
        r == DeviceErrorClass::Other <==> (code != GL_NO_ERROR && code != GL_OUT_OF_MEMORY),
{
    if code == GL_NO_ERROR {
        DeviceErrorClass::NoError
    } else if code == GL_OUT_OF_MEMORY {
        DeviceErrorClass::OutOfMemory
    } else {
        DeviceErrorClass::Other
    }
}

} // verus!

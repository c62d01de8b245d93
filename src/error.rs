//! Errors of the library, and the decisions that turn the device's status codes into them.

use vstd::prelude::*;

verus! {

/// An error of the graphics core.
#[derive(Clone, Debug, PartialEq, Eq)]
pub enum CoreError {
    /// Setting up the graphics context failed; carries the device's message.
    ContextCreation(String),
    /// The device reported an error flag; carries its name.
    ContextError(String),
    /// A render target is incomplete; carries the reason.
    RenderTargetCreation(String),
    /// A shader program or an image effect did not compile or link; carries the device's log.
    ProgramCreation(String),
}

/// An error of the renderer.
#[derive(Clone, Debug, PartialEq, Eq)]
pub enum RendererError {
    /// A buffer of the given name must have the given length but has the other.
    InvalidBufferLength(String, usize, usize),
    /// The material of the first name, required by the geometry of the second, is missing.
    MissingMaterial(String, String),
}

/// OpenGL error flags, as the device's error query returns them.
pub const NO_ERROR: u32 = 0x0;
pub const INVALID_ENUM: u32 = 0x0500;
pub const INVALID_VALUE: u32 = 0x0501;
pub const INVALID_OPERATION: u32 = 0x0502;
pub const STACK_OVERFLOW: u32 = 0x0503;
pub const STACK_UNDERFLOW: u32 = 0x0504;
pub const OUT_OF_MEMORY: u32 = 0x0505;
pub const INVALID_FRAMEBUFFER_OPERATION: u32 = 0x0506;

/// OpenGL framebuffer status codes, as the device's completeness query returns them.
pub const FRAMEBUFFER_COMPLETE: u32 = 0x8CD5;
pub const FRAMEBUFFER_INCOMPLETE_ATTACHMENT: u32 = 0x8CD6;
pub const FRAMEBUFFER_INCOMPLETE_MISSING_ATTACHMENT: u32 = 0x8CD7;
pub const FRAMEBUFFER_INCOMPLETE_DRAW_BUFFER: u32 = 0x8CDB;
pub const FRAMEBUFFER_INCOMPLETE_READ_BUFFER: u32 = 0x8CDC;
pub const FRAMEBUFFER_UNSUPPORTED: u32 = 0x8CDD;
pub const FRAMEBUFFER_INCOMPLETE_MULTISAMPLE: u32 = 0x8D56;
pub const FRAMEBUFFER_INCOMPLETE_LAYER_TARGETS: u32 = 0x8DA8;
pub const FRAMEBUFFER_UNDEFINED: u32 = 0x8219;

/// The name of a device error flag other than `NO_ERROR`.
pub open spec fn context_error_reason(code: u32) -> Seq<char> {
    if code == INVALID_ENUM {
        "Invalid enum"@
    } else if code == INVALID_VALUE {
        "Invalid value"@
    } else if code == INVALID_OPERATION {
        "Invalid operation"@
    } else if code == INVALID_FRAMEBUFFER_OPERATION {
        "Invalid framebuffer operation"@
    } else if code == OUT_OF_MEMORY {
        "Out of memory"@
    } else if code == STACK_OVERFLOW {
        "Stack overflow"@
    } else if code == STACK_UNDERFLOW {
        "Stack underflow"@
    } else {
        "Unknown"@
    }
}

/// Turns the device's error flag into a result: `Ok` exactly when no flag is set, else a
/// `ContextError` that names the flag.
pub fn error_check(code: u32) -> (r: Result<(), CoreError>)
    ensures
        code == NO_ERROR ==> r == Ok::<(), CoreError>(()),
        code != NO_ERROR ==> (r matches Err(CoreError::ContextError(m)) && m@
            == context_error_reason(code)),
{
    if code == NO_ERROR {
        return Ok(());
    }
    let reason = if code == INVALID_ENUM {
        "Invalid enum"
    } else if code == INVALID_VALUE {
        "Invalid value"
    } else if code == INVALID_OPERATION {
        "Invalid operation"
    } else if code == INVALID_FRAMEBUFFER_OPERATION {
        "Invalid framebuffer operation"
    } else if code == OUT_OF_MEMORY {
        "Out of memory"
    } else if code == STACK_OVERFLOW {
        "Stack overflow"
    } else if code == STACK_UNDERFLOW {
        "Stack underflow"
    } else {
        "Unknown"
    };
    Err(CoreError::ContextError(reason.to_owned()))
}

/// The reason why a framebuffer of the given status other than complete cannot be used.
pub open spec fn framebuffer_incomplete_reason(status: u32) -> Seq<char> {
    if status == FRAMEBUFFER_INCOMPLETE_ATTACHMENT {
        "FRAMEBUFFER_INCOMPLETE_ATTACHMENT"@
    } else if status == FRAMEBUFFER_INCOMPLETE_DRAW_BUFFER {
        "FRAMEBUFFER_INCOMPLETE_DRAW_BUFFER"@
    } else if status == FRAMEBUFFER_INCOMPLETE_MISSING_ATTACHMENT {
        "FRAMEBUFFER_INCOMPLETE_MISSING_ATTACHMENT"@
    } else if status == FRAMEBUFFER_UNSUPPORTED {
        "FRAMEBUFFER_UNSUPPORTED"@
    } else if status == FRAMEBUFFER_UNDEFINED {
        "FRAMEBUFFER_UNDEFINED"@
    } else if status == FRAMEBUFFER_INCOMPLETE_READ_BUFFER {
        "FRAMEBUFFER_INCOMPLETE_READ_BUFFER"@
    } else if status == FRAMEBUFFER_INCOMPLETE_MULTISAMPLE {
        "FRAMEBUFFER_INCOMPLETE_MULTISAMPLE"@
    } else if status == FRAMEBUFFER_INCOMPLETE_LAYER_TARGETS {
        "FRAMEBUFFER_INCOMPLETE_LAYER_TARGETS"@
    } else {
        "Unknown framebuffer error"@
    }
}

/// Turns the framebuffer status into a result: `Ok` exactly when the framebuffer is
/// complete, else a `RenderTargetCreation` error that names the reason.
pub fn framebuffer_check(status: u32) -> (r: Result<(), CoreError>)
    ensures
        status == FRAMEBUFFER_COMPLETE ==> r == Ok::<(), CoreError>(()),
        status != FRAMEBUFFER_COMPLETE ==> (r matches Err(CoreError::RenderTargetCreation(m))
            && m@ == framebuffer_incomplete_reason(status)),
{
    if status == FRAMEBUFFER_COMPLETE {
        return Ok(());
    }
    let reason = if status == FRAMEBUFFER_INCOMPLETE_ATTACHMENT {
        "FRAMEBUFFER_INCOMPLETE_ATTACHMENT"
    } else if status == FRAMEBUFFER_INCOMPLETE_DRAW_BUFFER {
        "FRAMEBUFFER_INCOMPLETE_DRAW_BUFFER"
    } else if status == FRAMEBUFFER_INCOMPLETE_MISSING_ATTACHMENT {
        "FRAMEBUFFER_INCOMPLETE_MISSING_ATTACHMENT"
    } else if status == FRAMEBUFFER_UNSUPPORTED {
        "FRAMEBUFFER_UNSUPPORTED"
    } else if status == FRAMEBUFFER_UNDEFINED {
        "FRAMEBUFFER_UNDEFINED"
    } else if status == FRAMEBUFFER_INCOMPLETE_READ_BUFFER {
        "FRAMEBUFFER_INCOMPLETE_READ_BUFFER"
    } else if status == FRAMEBUFFER_INCOMPLETE_MULTISAMPLE {
        "FRAMEBUFFER_INCOMPLETE_MULTISAMPLE"
    } else if status == FRAMEBUFFER_INCOMPLETE_LAYER_TARGETS {
        "FRAMEBUFFER_INCOMPLETE_LAYER_TARGETS"
    } else {
        "Unknown framebuffer error"
    };
    Err(CoreError::RenderTargetCreation(reason.to_owned()))
}

} // verus!

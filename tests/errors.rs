use three_d::error::{
    FRAMEBUFFER_COMPLETE, FRAMEBUFFER_INCOMPLETE_ATTACHMENT, FRAMEBUFFER_INCOMPLETE_DRAW_BUFFER,
    FRAMEBUFFER_INCOMPLETE_LAYER_TARGETS, FRAMEBUFFER_INCOMPLETE_MISSING_ATTACHMENT,
    FRAMEBUFFER_INCOMPLETE_MULTISAMPLE, FRAMEBUFFER_INCOMPLETE_READ_BUFFER, FRAMEBUFFER_UNDEFINED,
    FRAMEBUFFER_UNSUPPORTED, INVALID_ENUM, INVALID_FRAMEBUFFER_OPERATION, INVALID_OPERATION,
    INVALID_VALUE, NO_ERROR, OUT_OF_MEMORY, STACK_OVERFLOW, STACK_UNDERFLOW,
};
use three_d::{error_check, framebuffer_check, CoreError};

#[test]
fn codes_match_the_gl_bindings() {
    assert_eq!(NO_ERROR, glow::NO_ERROR);
    assert_eq!(INVALID_ENUM, glow::INVALID_ENUM);
    assert_eq!(INVALID_VALUE, glow::INVALID_VALUE);
    assert_eq!(INVALID_OPERATION, glow::INVALID_OPERATION);
    assert_eq!(INVALID_FRAMEBUFFER_OPERATION, glow::INVALID_FRAMEBUFFER_OPERATION);
    assert_eq!(OUT_OF_MEMORY, glow::OUT_OF_MEMORY);
    assert_eq!(STACK_OVERFLOW, glow::STACK_OVERFLOW);
    assert_eq!(STACK_UNDERFLOW, glow::STACK_UNDERFLOW);
    assert_eq!(FRAMEBUFFER_COMPLETE, glow::FRAMEBUFFER_COMPLETE);
    assert_eq!(FRAMEBUFFER_INCOMPLETE_ATTACHMENT, glow::FRAMEBUFFER_INCOMPLETE_ATTACHMENT);
    assert_eq!(FRAMEBUFFER_INCOMPLETE_DRAW_BUFFER, glow::FRAMEBUFFER_INCOMPLETE_DRAW_BUFFER);
    assert_eq!(FRAMEBUFFER_INCOMPLETE_MISSING_ATTACHMENT, glow::FRAMEBUFFER_INCOMPLETE_MISSING_ATTACHMENT);
    assert_eq!(FRAMEBUFFER_UNSUPPORTED, glow::FRAMEBUFFER_UNSUPPORTED);
    assert_eq!(FRAMEBUFFER_UNDEFINED, glow::FRAMEBUFFER_UNDEFINED);
    assert_eq!(FRAMEBUFFER_INCOMPLETE_READ_BUFFER, glow::FRAMEBUFFER_INCOMPLETE_READ_BUFFER);
    assert_eq!(FRAMEBUFFER_INCOMPLETE_MULTISAMPLE, glow::FRAMEBUFFER_INCOMPLETE_MULTISAMPLE);
    assert_eq!(FRAMEBUFFER_INCOMPLETE_LAYER_TARGETS, glow::FRAMEBUFFER_INCOMPLETE_LAYER_TARGETS);
}

fn context_error(s: &str) -> Result<(), CoreError> {
    Err(CoreError::ContextError(s.to_string()))
}

#[test]
fn error_flags_are_named() {
    assert_eq!(error_check(NO_ERROR), Ok(()));
    assert_eq!(error_check(INVALID_ENUM), context_error("Invalid enum"));
    assert_eq!(error_check(INVALID_VALUE), context_error("Invalid value"));
    assert_eq!(error_check(INVALID_OPERATION), context_error("Invalid operation"));
    assert_eq!(error_check(INVALID_FRAMEBUFFER_OPERATION), context_error("Invalid framebuffer operation"));
    assert_eq!(error_check(OUT_OF_MEMORY), context_error("Out of memory"));
    assert_eq!(error_check(STACK_OVERFLOW), context_error("Stack overflow"));
    assert_eq!(error_check(STACK_UNDERFLOW), context_error("Stack underflow"));
    assert_eq!(error_check(0x1234), context_error("Unknown"));
}

fn incomplete(s: &str) -> Result<(), CoreError> {
    Err(CoreError::RenderTargetCreation(s.to_string()))
}

#[test]
fn framebuffer_reasons_are_named() {
    assert_eq!(framebuffer_check(FRAMEBUFFER_COMPLETE), Ok(()));
    assert_eq!(framebuffer_check(FRAMEBUFFER_INCOMPLETE_ATTACHMENT), incomplete("FRAMEBUFFER_INCOMPLETE_ATTACHMENT"));
    assert_eq!(framebuffer_check(FRAMEBUFFER_INCOMPLETE_DRAW_BUFFER), incomplete("FRAMEBUFFER_INCOMPLETE_DRAW_BUFFER"));
    assert_eq!(framebuffer_check(FRAMEBUFFER_INCOMPLETE_MISSING_ATTACHMENT), incomplete("FRAMEBUFFER_INCOMPLETE_MISSING_ATTACHMENT"));
    assert_eq!(framebuffer_check(FRAMEBUFFER_UNSUPPORTED), incomplete("FRAMEBUFFER_UNSUPPORTED"));
    assert_eq!(framebuffer_check(FRAMEBUFFER_UNDEFINED), incomplete("FRAMEBUFFER_UNDEFINED"));
    assert_eq!(framebuffer_check(FRAMEBUFFER_INCOMPLETE_READ_BUFFER), incomplete("FRAMEBUFFER_INCOMPLETE_READ_BUFFER"));
    assert_eq!(framebuffer_check(FRAMEBUFFER_INCOMPLETE_MULTISAMPLE), incomplete("FRAMEBUFFER_INCOMPLETE_MULTISAMPLE"));
    assert_eq!(framebuffer_check(FRAMEBUFFER_INCOMPLETE_LAYER_TARGETS), incomplete("FRAMEBUFFER_INCOMPLETE_LAYER_TARGETS"));
    assert_eq!(framebuffer_check(0), incomplete("Unknown framebuffer error"));
}

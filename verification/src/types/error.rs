use vstd::prelude::*;

use crate::machine::bytecode::{BytecodeError, ParseErrorView};

verus! {

/// The errors of the virtual machine.
#[derive(Debug, PartialEq)]
pub enum StrontiumError {
    /// A division by zero has occured.
    DivisionByZero,
    /// An invalid memory or register address has been accessed.
    OutOfBounds,
    BytecodeError(BytecodeError),
    /// The machine encountered an invalid operation code.
    IllegalOpcode(u8),
    /// The bytecode sequence has ended unexpectedly.
    UnexpectedEof,
    /// The type of a register does not match the provided value.
    TypeMismatch,
    InvalidUtf8String,
    EmptyCallStack,
    /// The user has not called `strontium.init()`.
    Uninitialized,
    /// A register with the given name was not found.
    RegisterNotFound(String),
    /// A local variable with the given name was not found in the current stack frame.
    LocalVariableNotFound(String),
    /// No matching method was found in the dispatch table.
    MethodNotFound(String),
    /// Execution was cancelled by the embedding runtime.
    Interrupted,
}

impl From<BytecodeError> for StrontiumError {
    fn from(e: BytecodeError) -> (r: Self) {
        StrontiumError::BytecodeError(e)
    }
}

impl vstd::std_specs::convert::FromSpecImpl<BytecodeError> for StrontiumError {
    open spec fn obeys_from_spec() -> bool {
        true
    }

    open spec fn from_spec(v: BytecodeError) -> StrontiumError {
        StrontiumError::BytecodeError(v)
    }
}

/// A machine error, with its texts as character sequences.
pub enum ErrorView {
    DivisionByZero,
    OutOfBounds,
    BytecodeError(ParseErrorView),
    IllegalOpcode(u8),
    UnexpectedEof,
    TypeMismatch,
    InvalidUtf8String,
    EmptyCallStack,
    Uninitialized,
    RegisterNotFound(Seq<char>),
    LocalVariableNotFound(Seq<char>),
    MethodNotFound(Seq<char>),
    Interrupted,
}

impl View for StrontiumError {
    type V = ErrorView;

    open spec fn view(&self) -> ErrorView {
        match self {
            StrontiumError::DivisionByZero => ErrorView::DivisionByZero,
            StrontiumError::OutOfBounds => ErrorView::OutOfBounds,
            StrontiumError::BytecodeError(e) => ErrorView::BytecodeError(e@),
            StrontiumError::IllegalOpcode(o) => ErrorView::IllegalOpcode(*o),
            StrontiumError::UnexpectedEof => ErrorView::UnexpectedEof,
            StrontiumError::TypeMismatch => ErrorView::TypeMismatch,
            StrontiumError::InvalidUtf8String => ErrorView::InvalidUtf8String,
            StrontiumError::EmptyCallStack => ErrorView::EmptyCallStack,
            StrontiumError::Uninitialized => ErrorView::Uninitialized,
            StrontiumError::RegisterNotFound(s) => ErrorView::RegisterNotFound(s@),
            StrontiumError::LocalVariableNotFound(s) => ErrorView::LocalVariableNotFound(s@),
            StrontiumError::MethodNotFound(s) => ErrorView::MethodNotFound(s@),
            StrontiumError::Interrupted => ErrorView::Interrupted,
        }
    }
}

} // verus!

//! Types shared across the virtual machine.
pub mod error;
pub mod program;

pub use self::error::StrontiumError;

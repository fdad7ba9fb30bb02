//! Error types for Modbus mapper operations.
//!
//! The error surface only covers conditions that the library's own code paths
//! produce: a register block of the wrong length, and an operation on a
//! register type that does not support it.

use vstd::prelude::*;

use crate::RegisterType;

verus! {

/// Errors that can occur during Modbus mapping operations.
#[derive(Debug)]
pub enum ModbusMapperError {
    /// The number of registers given to `from_registers` does not match the
    /// number the record expects.
    RegisterCountMismatch {
        /// Number of registers the record expects.
        expected: usize,
        /// Number of registers actually provided.
        actual: usize,
    },
    /// An operation was requested for a register type that does not support it:
    /// writing an `input` block, or reading or writing a `coil`/`discrete` block.
    UnsupportedRegisterType {
        /// The register type the operation was attempted on.
        register_type: RegisterType,
        /// The operation that is not supported (`"read"` or `"write"`).
        operation: &'static str,
    },
}

/// Result type for Modbus mapper operations.
pub type Result<T> = core::result::Result<T, ModbusMapperError>;

} // verus!

//! Type-safe mapping of plain values to and from 16-bit Modbus registers.
//!
//! A record is described by a [`layout::Layout`]: the fields it maps, the
//! register each field starts at, its word order and how it is packed. The
//! [`codec`] module turns field values into the register block of that layout
//! and back, and the [`attrs`] module validates a record's mapping options and
//! builds its layout.

pub mod attrs;
pub mod client;
pub mod codec;
pub mod endian;
pub mod error;
pub mod function_code;
pub mod layout;
pub mod text;

use vstd::prelude::*;

pub use endian::Endianness;
pub use function_code::FunctionCode;
pub use error::{ModbusMapperError, Result};

verus! {

/// Register type for Modbus operations.
#[derive(Debug, Clone, Copy, PartialEq, Eq, Structural)]
pub enum RegisterType {
    /// Holding registers (read/write, 16-bit).
    Holding,
    /// Input registers (read-only, 16-bit).
    Input,
    /// Coils (read/write, 1-bit).
    Coil,
    /// Discrete inputs (read-only, 1-bit).
    Discrete,
}

/// Whether a register type accepts writes: holding registers and coils do.
pub open spec fn writable(register_type: RegisterType) -> bool {
    register_type is Holding || register_type is Coil
}

/// The lower-case name of a register type.
pub open spec fn register_type_name(register_type: RegisterType) -> Seq<char> {
    match register_type {
        RegisterType::Holding => "holding"@,
        RegisterType::Input => "input"@,
        RegisterType::Coil => "coil"@,
        RegisterType::Discrete => "discrete"@,
    }
}

impl RegisterType {
    /// Returns true if this register type is writable.
    pub fn is_writable(self) -> (b: bool)
        ensures
            b == writable(self),
    {
        match self {
            RegisterType::Holding | RegisterType::Coil => true,
            RegisterType::Input | RegisterType::Discrete => false,
        }
    }

    /// Returns true if this register type is read-only.
    pub fn is_readonly(self) -> (b: bool)
        ensures
            b == !writable(self),
    {
        !self.is_writable()
    }

    /// Returns the name of the register type as a string.
    pub fn as_str(self) -> (name: &'static str)
        ensures
            name@ == register_type_name(self),
    {
        match self {
            RegisterType::Holding => "holding",
            RegisterType::Input => "input",
            RegisterType::Coil => "coil",
            RegisterType::Discrete => "discrete",
        }
    }
}

/// Types that can be serialized to Modbus registers.
///
/// A mapped record implements it with its [`layout::Layout`]: `to_registers`
/// is the layout's `to_registers` on the record's field values, and
/// `register_count` is the layout's register count.
pub trait ToRegisters {
    /// Convert the value to a vector of 16-bit registers.
    fn to_registers(&self) -> Vec<u16>;

    /// Get the number of registers required to store this type.
    fn register_count() -> u16;
}

/// Types that can be deserialized from Modbus registers.
///
/// A mapped record implements it with its [`layout::Layout`]'s `from_registers`.
pub trait FromRegisters: Sized {
    /// Create a value from a slice of 16-bit registers.
    ///
    /// Returns an error if the register count doesn't match.
    fn from_registers(registers: &[u16]) -> Result<Self>;
}

/// Metadata about a Modbus-mapped struct, answered by its [`layout::Layout`].
pub trait ModbusMetadata {
    /// Get the base address for this struct.
    fn base_address() -> u16;

    /// Get the register type for this struct.
    fn register_type() -> RegisterType;

    /// Get the register address for a specific field by name, `None` if the
    /// field doesn't exist or is skipped.
    fn field_address(field_name: &str) -> Option<u16>;

    /// Get the register count for a specific field by name, `None` if the
    /// field doesn't exist or is skipped.
    fn field_register_count(field_name: &str) -> Option<u16>;
}

} // verus!

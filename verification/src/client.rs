//! The decisions of the client: which request reads or writes a record's
//! register block, and when a register type refuses the operation.
//!
//! The whole block is read or written in one request at the record's base
//! address: holding registers are read with `Read Holding Registers` (0x03) and
//! written with `Write Multiple Registers` (0x10); input registers are read
//! with `Read Input Registers` (0x04) and cannot be written.

use vstd::prelude::*;

use crate::error::ModbusMapperError;
use crate::function_code::FunctionCode;
use crate::layout::Layout;
use crate::RegisterType;

verus! {

/// One request for a block of registers.
#[derive(Debug, Clone, Copy, PartialEq, Eq, Structural)]
pub struct BlockRequest {
    /// The function code of the request.
    pub function: FunctionCode,
    /// The block's first register on the wire.
    pub address: u16,
    /// Number of registers in the block.
    pub count: u16,
}

/// Whether `res` refuses `operation` on `register_type`.
pub open spec fn refuses(
    res: Result<BlockRequest, ModbusMapperError>,
    register_type: RegisterType,
    operation: Seq<char>,
) -> bool {
    res matches Err(ModbusMapperError::UnsupportedRegisterType { register_type: t, operation: op })
        && t == register_type && op@ == operation
}

/// The request that reads `count` registers of the given type at `address`.
///
/// Holding and input registers are read; coils and discrete inputs are refused.
pub fn read_request(register_type: RegisterType, address: u16, count: u16) -> (res: Result<
    BlockRequest,
    ModbusMapperError,
>)
    ensures
        register_type is Holding ==> res == Ok::<BlockRequest, ModbusMapperError>(
            BlockRequest { function: FunctionCode::ReadHoldingRegisters, address, count },
        ),
        register_type is Input ==> res == Ok::<BlockRequest, ModbusMapperError>(
            BlockRequest { function: FunctionCode::ReadInputRegisters, address, count },
        ),
        (register_type is Coil || register_type is Discrete) ==> refuses(
            res,
            register_type,
            "read"@,
        ),
{
    match register_type {
        RegisterType::Holding => Ok(
            BlockRequest { function: FunctionCode::ReadHoldingRegisters, address, count },
        ),
        RegisterType::Input => Ok(
            BlockRequest { function: FunctionCode::ReadInputRegisters, address, count },
        ),
        _ => Err(ModbusMapperError::UnsupportedRegisterType { register_type, operation: "read" }),
    }
}

/// The request that writes `count` registers of the given type at `address`.
///
/// Holding registers are written; read-only types, and coils (bit-addressed),
/// are refused.
pub fn write_request(register_type: RegisterType, address: u16, count: u16) -> (res: Result<
    BlockRequest,
    ModbusMapperError,
>)
    ensures
        register_type is Holding ==> res == Ok::<BlockRequest, ModbusMapperError>(
            BlockRequest { function: FunctionCode::WriteMultipleRegisters, address, count },
        ),
        !(register_type is Holding) ==> refuses(res, register_type, "write"@),
{
    if !register_type.is_writable() {
        return Err(ModbusMapperError::UnsupportedRegisterType { register_type, operation: "write" });
    }
    match register_type {
        RegisterType::Holding => Ok(
            BlockRequest { function: FunctionCode::WriteMultipleRegisters, address, count },
        ),
        _ => Err(ModbusMapperError::UnsupportedRegisterType { register_type, operation: "write" }),
    }
}

impl Layout {
    /// The request that reads this record's whole block at its base address.
    pub fn read_request(&self) -> (res: Result<BlockRequest, ModbusMapperError>)
        ensures
            self.register_type is Holding ==> res == Ok::<BlockRequest, ModbusMapperError>(
                BlockRequest {
                    function: FunctionCode::ReadHoldingRegisters,
                    address: self.base_address,
                    count: self.register_count,
                },
            ),
            self.register_type is Input ==> res == Ok::<BlockRequest, ModbusMapperError>(
                BlockRequest {
                    function: FunctionCode::ReadInputRegisters,
                    address: self.base_address,
                    count: self.register_count,
                },
            ),
            (self.register_type is Coil || self.register_type is Discrete) ==> refuses(
                res,
                self.register_type,
                "read"@,
            ),
    {
        read_request(self.register_type, self.base_address, self.register_count)
    }

    /// The request that writes this record's whole block at its base address.
    pub fn write_request(&self) -> (res: Result<BlockRequest, ModbusMapperError>)
        ensures
            self.register_type is Holding ==> res == Ok::<BlockRequest, ModbusMapperError>(
                BlockRequest {
                    function: FunctionCode::WriteMultipleRegisters,
                    address: self.base_address,
                    count: self.register_count,
                },
            ),
            !(self.register_type is Holding) ==> refuses(res, self.register_type, "write"@),
    {
        write_request(self.register_type, self.base_address, self.register_count)
    }
}

} // verus!

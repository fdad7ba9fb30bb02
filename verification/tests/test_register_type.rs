//! Register types, function codes, and the requests that read and write a block.

use modbus_mapper::attrs::{derive_layout, ModbusFieldOpts, ModbusMapperOpts};
use modbus_mapper::client::{read_request, write_request, BlockRequest};
use modbus_mapper::function_code::FunctionCode;
use modbus_mapper::{ModbusMapperError, RegisterType};

#[test]
fn test_register_type() {
    assert!(RegisterType::Holding.is_writable());
    assert!(RegisterType::Coil.is_writable());
    assert!(RegisterType::Input.is_readonly());
    assert!(RegisterType::Discrete.is_readonly());

    assert_eq!(RegisterType::Holding.as_str(), "holding");
    assert_eq!(RegisterType::Input.as_str(), "input");
}

#[test]
fn register_type_names_and_access() {
    assert_eq!(RegisterType::Coil.as_str(), "coil");
    assert_eq!(RegisterType::Discrete.as_str(), "discrete");
    for t in [RegisterType::Holding, RegisterType::Input, RegisterType::Coil, RegisterType::Discrete] {
        assert_eq!(t.is_readonly(), !t.is_writable());
    }
    assert!(!RegisterType::Holding.is_readonly());
    assert!(!RegisterType::Input.is_writable());
}

#[test]
fn function_code_helpers() {
    let fc = FunctionCode::ReadHoldingRegisters;
    assert!(fc.is_read());
    assert!(!fc.is_write());
    assert!(!fc.is_bit_access());
    assert!(fc.is_register_access());
    assert_eq!(fc.name(), "Read Holding Registers");
    assert_eq!(fc.as_u8(), 0x03);
}

#[test]
fn function_code_bytes() {
    let codes = [
        (FunctionCode::ReadCoils, 0x01),
        (FunctionCode::ReadDiscreteInputs, 0x02),
        (FunctionCode::ReadHoldingRegisters, 0x03),
        (FunctionCode::ReadInputRegisters, 0x04),
        (FunctionCode::WriteSingleCoil, 0x05),
        (FunctionCode::WriteSingleRegister, 0x06),
        (FunctionCode::ReadExceptionStatus, 0x07),
        (FunctionCode::Diagnostics, 0x08),
        (FunctionCode::GetCommEventCounter, 0x0B),
        (FunctionCode::GetCommEventLog, 0x0C),
        (FunctionCode::WriteMultipleCoils, 0x0F),
        (FunctionCode::WriteMultipleRegisters, 0x10),
        (FunctionCode::ReportServerId, 0x11),
        (FunctionCode::ReadFileRecord, 0x14),
        (FunctionCode::WriteFileRecord, 0x15),
        (FunctionCode::MaskWriteRegister, 0x16),
        (FunctionCode::ReadWriteMultipleRegisters, 0x17),
        (FunctionCode::ReadFifoQueue, 0x18),
        (FunctionCode::EncapsulatedInterfaceTransport, 0x2B),
    ];
    for (fc, byte) in codes {
        assert_eq!(fc.as_u8(), byte);
    }
}

#[test]
fn function_code_groups() {
    assert!(FunctionCode::ReadCoils.is_bit_access());
    assert!(FunctionCode::WriteMultipleCoils.is_bit_access());
    assert!(!FunctionCode::WriteMultipleCoils.is_register_access());
    assert!(FunctionCode::WriteMultipleRegisters.is_write());
    assert!(!FunctionCode::WriteMultipleRegisters.is_read());
    assert!(FunctionCode::ReadWriteMultipleRegisters.is_read());
    assert!(FunctionCode::ReadWriteMultipleRegisters.is_write());
    assert!(!FunctionCode::Diagnostics.is_read());
    assert!(!FunctionCode::Diagnostics.is_write());
    assert_eq!(FunctionCode::ReportServerId.name(), "Report Server ID");
    assert_eq!(FunctionCode::EncapsulatedInterfaceTransport.as_u8(), 0x2B);
}

#[test]
fn holding_block_is_read_and_written_at_base_address() {
    assert_eq!(
        read_request(RegisterType::Holding, 10, 2).unwrap(),
        BlockRequest { function: FunctionCode::ReadHoldingRegisters, address: 10, count: 2 }
    );
    assert_eq!(
        write_request(RegisterType::Holding, 10, 2).unwrap(),
        BlockRequest { function: FunctionCode::WriteMultipleRegisters, address: 10, count: 2 }
    );
}

#[test]
fn input_block_is_read_only() {
    assert_eq!(
        read_request(RegisterType::Input, 0, 2).unwrap(),
        BlockRequest { function: FunctionCode::ReadInputRegisters, address: 0, count: 2 }
    );
    let err = write_request(RegisterType::Input, 0, 2).unwrap_err();
    assert!(matches!(
        err,
        ModbusMapperError::UnsupportedRegisterType {
            register_type: RegisterType::Input,
            operation: "write",
        }
    ));
}

#[test]
fn bit_addressed_blocks_are_refused() {
    for t in [RegisterType::Coil, RegisterType::Discrete] {
        assert!(matches!(
            read_request(t, 0, 1),
            Err(ModbusMapperError::UnsupportedRegisterType { operation: "read", .. })
        ));
        assert!(matches!(
            write_request(t, 0, 1),
            Err(ModbusMapperError::UnsupportedRegisterType { operation: "write", .. })
        ));
    }
}

#[test]
fn layout_requests_use_base_address_and_count() {
    let opts = ModbusMapperOpts::new("OffsetBlock")
        .with_base_address(10)
        .with_field(ModbusFieldOpts::new("x", "u16").at(0))
        .with_field(ModbusFieldOpts::new("y", "u16").at(1));
    let layout = derive_layout(&opts).unwrap();
    assert_eq!(
        layout.write_request().unwrap(),
        BlockRequest { function: FunctionCode::WriteMultipleRegisters, address: 10, count: 2 }
    );
    assert_eq!(
        layout.read_request().unwrap(),
        BlockRequest { function: FunctionCode::ReadHoldingRegisters, address: 10, count: 2 }
    );
}

//! Mapping of records whose fields are packed into bits and bytes of shared registers.

#![allow(dead_code)]

use modbus_mapper::attrs::{derive_layout, ModbusFieldOpts, ModbusMapperOpts};
use modbus_mapper::layout::{FieldValue, Layout};
use modbus_mapper::{FromRegisters, ModbusMetadata, RegisterType, Result, ToRegisters};

fn mapped(opts: ModbusMapperOpts) -> Layout {
    derive_layout(&opts).expect("valid mapping")
}

fn next_value(values: &mut std::vec::IntoIter<FieldValue>) -> FieldValue {
    values.next().expect("one value per field")
}

fn as_bool(v: FieldValue) -> bool {
    match v {
        FieldValue::Bool(x) => x,
        other => panic!("expected a bool, got {:?}", other),
    }
}

fn as_u8(v: FieldValue) -> u8 {
    match v {
        FieldValue::U8(x) => x,
        other => panic!("expected a u8, got {:?}", other),
    }
}

fn as_i8(v: FieldValue) -> i8 {
    match v {
        FieldValue::I8(x) => x,
        other => panic!("expected an i8, got {:?}", other),
    }
}

fn as_u16(v: FieldValue) -> u16 {
    match v {
        FieldValue::U16(x) => x,
        other => panic!("expected a u16, got {:?}", other),
    }
}

fn as_i16(v: FieldValue) -> i16 {
    match v {
        FieldValue::I16(x) => x,
        other => panic!("expected an i16, got {:?}", other),
    }
}

fn as_u32(v: FieldValue) -> u32 {
    match v {
        FieldValue::U32(x) => x,
        other => panic!("expected a u32, got {:?}", other),
    }
}

fn as_i32(v: FieldValue) -> i32 {
    match v {
        FieldValue::I32(x) => x,
        other => panic!("expected an i32, got {:?}", other),
    }
}

fn as_u64(v: FieldValue) -> u64 {
    match v {
        FieldValue::U64(x) => x,
        other => panic!("expected a u64, got {:?}", other),
    }
}

fn as_i64(v: FieldValue) -> i64 {
    match v {
        FieldValue::I64(x) => x,
        other => panic!("expected an i64, got {:?}", other),
    }
}

fn as_f32(v: FieldValue) -> f32 {
    match v {
        FieldValue::F32(bits) => f32::from_bits(bits),
        other => panic!("expected an f32, got {:?}", other),
    }
}

fn as_f64(v: FieldValue) -> f64 {
    match v {
        FieldValue::F64(bits) => f64::from_bits(bits),
        other => panic!("expected an f64, got {:?}", other),
    }
}

#[derive(Debug, PartialEq)]
struct BitPackedFlags {
    flag0: bool,
    flag1: bool,
    flag2: bool,
    flag7: bool,
    flag15: bool,
}

impl BitPackedFlags {
    fn layout() -> Layout {
        let opts = ModbusMapperOpts::new("BitPackedFlags")
            .with_base_address(0)
            .with_register_type("holding")
            .with_field(ModbusFieldOpts::new("flag0", "bool").at(0).with_bit(0))
            .with_field(ModbusFieldOpts::new("flag1", "bool").at(0).with_bit(1))
            .with_field(ModbusFieldOpts::new("flag2", "bool").at(0).with_bit(2))
            .with_field(ModbusFieldOpts::new("flag7", "bool").at(0).with_bit(7))
            .with_field(ModbusFieldOpts::new("flag15", "bool").at(0).with_bit(15));
        mapped(opts)
    }

    fn values(&self) -> Vec<FieldValue> {
        vec![
            FieldValue::Bool(self.flag0),
            FieldValue::Bool(self.flag1),
            FieldValue::Bool(self.flag2),
            FieldValue::Bool(self.flag7),
            FieldValue::Bool(self.flag15),
        ]
    }
}

impl ToRegisters for BitPackedFlags {
    fn to_registers(&self) -> Vec<u16> {
        Self::layout().to_registers(&self.values())
    }

    fn register_count() -> u16 {
        Self::layout().register_count
    }
}

impl FromRegisters for BitPackedFlags {
    fn from_registers(registers: &[u16]) -> Result<Self> {
        let mut values = Self::layout().from_registers(registers)?.into_iter();
        Ok(BitPackedFlags {
            flag0: as_bool(next_value(&mut values)),
            flag1: as_bool(next_value(&mut values)),
            flag2: as_bool(next_value(&mut values)),
            flag7: as_bool(next_value(&mut values)),
            flag15: as_bool(next_value(&mut values)),
        })
    }
}

impl ModbusMetadata for BitPackedFlags {
    fn base_address() -> u16 {
        Self::layout().base_address
    }

    fn register_type() -> RegisterType {
        Self::layout().register_type
    }

    fn field_address(field_name: &str) -> Option<u16> {
        Self::layout().field_address(field_name)
    }

    fn field_register_count(field_name: &str) -> Option<u16> {
        Self::layout().field_register_count(field_name)
    }
}

#[derive(Debug, PartialEq)]
struct BytePackedData {
    high_byte: u8,
    low_byte: u8,
    signed_high: i8,
    signed_low: i8,
}

impl BytePackedData {
    fn layout() -> Layout {
        let opts = ModbusMapperOpts::new("BytePackedData")
            .with_base_address(0)
            .with_register_type("holding")
            .with_field(ModbusFieldOpts::new("high_byte", "u8").at(0).with_offset("high"))
            .with_field(ModbusFieldOpts::new("low_byte", "u8").at(0).with_offset("low"))
            .with_field(ModbusFieldOpts::new("signed_high", "i8").at(1).with_offset("high"))
            .with_field(ModbusFieldOpts::new("signed_low", "i8").at(1).with_offset("low"));
        mapped(opts)
    }

    fn values(&self) -> Vec<FieldValue> {
        vec![
            FieldValue::U8(self.high_byte),
            FieldValue::U8(self.low_byte),
            FieldValue::I8(self.signed_high),
            FieldValue::I8(self.signed_low),
        ]
    }
}

impl ToRegisters for BytePackedData {
    fn to_registers(&self) -> Vec<u16> {
        Self::layout().to_registers(&self.values())
    }

    fn register_count() -> u16 {
        Self::layout().register_count
    }
}

impl FromRegisters for BytePackedData {
    fn from_registers(registers: &[u16]) -> Result<Self> {
        let mut values = Self::layout().from_registers(registers)?.into_iter();
        Ok(BytePackedData {
            high_byte: as_u8(next_value(&mut values)),
            low_byte: as_u8(next_value(&mut values)),
            signed_high: as_i8(next_value(&mut values)),
            signed_low: as_i8(next_value(&mut values)),
        })
    }
}

impl ModbusMetadata for BytePackedData {
    fn base_address() -> u16 {
        Self::layout().base_address
    }

    fn register_type() -> RegisterType {
        Self::layout().register_type
    }

    fn field_address(field_name: &str) -> Option<u16> {
        Self::layout().field_address(field_name)
    }

    fn field_register_count(field_name: &str) -> Option<u16> {
        Self::layout().field_register_count(field_name)
    }
}

#[derive(Debug, PartialEq)]
struct MixedPacking {
    temperature: f32,
    pump_running: bool,
    valve_open: bool,
    alarm_active: bool,
    error_code: u8,
    status_code: u8,
    counter: u32,
}

impl MixedPacking {
    fn layout() -> Layout {
        let opts = ModbusMapperOpts::new("MixedPacking")
            .with_base_address(100)
            .with_register_type("holding")
            .with_field(ModbusFieldOpts::new("temperature", "f32").at(0))
            .with_field(ModbusFieldOpts::new("pump_running", "bool").at(2).with_bit(0))
            .with_field(ModbusFieldOpts::new("valve_open", "bool").at(2).with_bit(1))
            .with_field(ModbusFieldOpts::new("alarm_active", "bool").at(2).with_bit(2))
            .with_field(ModbusFieldOpts::new("error_code", "u8").at(3).with_offset("high"))
            .with_field(ModbusFieldOpts::new("status_code", "u8").at(3).with_offset("low"))
            .with_field(ModbusFieldOpts::new("counter", "u32").at(4));
        mapped(opts)
    }

    fn values(&self) -> Vec<FieldValue> {
        vec![
            FieldValue::F32(self.temperature.to_bits()),
            FieldValue::Bool(self.pump_running),
            FieldValue::Bool(self.valve_open),
            FieldValue::Bool(self.alarm_active),
            FieldValue::U8(self.error_code),
            FieldValue::U8(self.status_code),
            FieldValue::U32(self.counter),
        ]
    }
}

impl ToRegisters for MixedPacking {
    fn to_registers(&self) -> Vec<u16> {
        Self::layout().to_registers(&self.values())
    }

    fn register_count() -> u16 {
        Self::layout().register_count
    }
}

impl FromRegisters for MixedPacking {
    fn from_registers(registers: &[u16]) -> Result<Self> {
        let mut values = Self::layout().from_registers(registers)?.into_iter();
        Ok(MixedPacking {
            temperature: as_f32(next_value(&mut values)),
            pump_running: as_bool(next_value(&mut values)),
            valve_open: as_bool(next_value(&mut values)),
            alarm_active: as_bool(next_value(&mut values)),
            error_code: as_u8(next_value(&mut values)),
            status_code: as_u8(next_value(&mut values)),
            counter: as_u32(next_value(&mut values)),
        })
    }
}

impl ModbusMetadata for MixedPacking {
    fn base_address() -> u16 {
        Self::layout().base_address
    }

    fn register_type() -> RegisterType {
        Self::layout().register_type
    }

    fn field_address(field_name: &str) -> Option<u16> {
        Self::layout().field_address(field_name)
    }

    fn field_register_count(field_name: &str) -> Option<u16> {
        Self::layout().field_register_count(field_name)
    }
}

#[derive(Debug, PartialEq)]
struct FullBitPacking {
    bit0: bool,
    bit1: bool,
    bit2: bool,
    bit3: bool,
    bit4: bool,
    bit5: bool,
    bit6: bool,
    bit7: bool,
    bit8: bool,
    bit9: bool,
    bit10: bool,
    bit11: bool,
    bit12: bool,
    bit13: bool,
    bit14: bool,
    bit15: bool,
}

impl FullBitPacking {
    fn layout() -> Layout {
        let opts = ModbusMapperOpts::new("FullBitPacking")
            .with_base_address(0)
            .with_register_type("holding")
            .with_field(ModbusFieldOpts::new("bit0", "bool").at(0).with_bit(0))
            .with_field(ModbusFieldOpts::new("bit1", "bool").at(0).with_bit(1))
            .with_field(ModbusFieldOpts::new("bit2", "bool").at(0).with_bit(2))
            .with_field(ModbusFieldOpts::new("bit3", "bool").at(0).with_bit(3))
            .with_field(ModbusFieldOpts::new("bit4", "bool").at(0).with_bit(4))
            .with_field(ModbusFieldOpts::new("bit5", "bool").at(0).with_bit(5))
            .with_field(ModbusFieldOpts::new("bit6", "bool").at(0).with_bit(6))
            .with_field(ModbusFieldOpts::new("bit7", "bool").at(0).with_bit(7))
            .with_field(ModbusFieldOpts::new("bit8", "bool").at(0).with_bit(8))
            .with_field(ModbusFieldOpts::new("bit9", "bool").at(0).with_bit(9))
            .with_field(ModbusFieldOpts::new("bit10", "bool").at(0).with_bit(10))
            .with_field(ModbusFieldOpts::new("bit11", "bool").at(0).with_bit(11))
            .with_field(ModbusFieldOpts::new("bit12", "bool").at(0).with_bit(12))
            .with_field(ModbusFieldOpts::new("bit13", "bool").at(0).with_bit(13))
            .with_field(ModbusFieldOpts::new("bit14", "bool").at(0).with_bit(14))
            .with_field(ModbusFieldOpts::new("bit15", "bool").at(0).with_bit(15));
        mapped(opts)
    }

    fn values(&self) -> Vec<FieldValue> {
        vec![
            FieldValue::Bool(self.bit0),
            FieldValue::Bool(self.bit1),
            FieldValue::Bool(self.bit2),
            FieldValue::Bool(self.bit3),
            FieldValue::Bool(self.bit4),
            FieldValue::Bool(self.bit5),
            FieldValue::Bool(self.bit6),
            FieldValue::Bool(self.bit7),
            FieldValue::Bool(self.bit8),
            FieldValue::Bool(self.bit9),
            FieldValue::Bool(self.bit10),
            FieldValue::Bool(self.bit11),
            FieldValue::Bool(self.bit12),
            FieldValue::Bool(self.bit13),
            FieldValue::Bool(self.bit14),
            FieldValue::Bool(self.bit15),
        ]
    }
}

impl ToRegisters for FullBitPacking {
    fn to_registers(&self) -> Vec<u16> {
        Self::layout().to_registers(&self.values())
    }

    fn register_count() -> u16 {
        Self::layout().register_count
    }
}

impl FromRegisters for FullBitPacking {
    fn from_registers(registers: &[u16]) -> Result<Self> {
        let mut values = Self::layout().from_registers(registers)?.into_iter();
        Ok(FullBitPacking {
            bit0: as_bool(next_value(&mut values)),
            bit1: as_bool(next_value(&mut values)),
            bit2: as_bool(next_value(&mut values)),
            bit3: as_bool(next_value(&mut values)),
            bit4: as_bool(next_value(&mut values)),
            bit5: as_bool(next_value(&mut values)),
            bit6: as_bool(next_value(&mut values)),
            bit7: as_bool(next_value(&mut values)),
            bit8: as_bool(next_value(&mut values)),
            bit9: as_bool(next_value(&mut values)),
            bit10: as_bool(next_value(&mut values)),
            bit11: as_bool(next_value(&mut values)),
            bit12: as_bool(next_value(&mut values)),
            bit13: as_bool(next_value(&mut values)),
            bit14: as_bool(next_value(&mut values)),
            bit15: as_bool(next_value(&mut values)),
        })
    }
}

impl ModbusMetadata for FullBitPacking {
    fn base_address() -> u16 {
        Self::layout().base_address
    }

    fn register_type() -> RegisterType {
        Self::layout().register_type
    }

    fn field_address(field_name: &str) -> Option<u16> {
        Self::layout().field_address(field_name)
    }

    fn field_register_count(field_name: &str) -> Option<u16> {
        Self::layout().field_register_count(field_name)
    }
}

#[derive(Debug, PartialEq)]
struct SingleBit {
    flag: bool,
}

impl SingleBit {
    fn layout() -> Layout {
        let opts = ModbusMapperOpts::new("SingleBit")
            .with_base_address(0)
            .with_register_type("holding")
            .with_field(ModbusFieldOpts::new("flag", "bool").at(0).with_bit(5));
        mapped(opts)
    }

    fn values(&self) -> Vec<FieldValue> {
        vec![
            FieldValue::Bool(self.flag),
        ]
    }
}

impl ToRegisters for SingleBit {
    fn to_registers(&self) -> Vec<u16> {
        Self::layout().to_registers(&self.values())
    }

    fn register_count() -> u16 {
        Self::layout().register_count
    }
}

impl FromRegisters for SingleBit {
    fn from_registers(registers: &[u16]) -> Result<Self> {
        let mut values = Self::layout().from_registers(registers)?.into_iter();
        Ok(SingleBit {
            flag: as_bool(next_value(&mut values)),
        })
    }
}

impl ModbusMetadata for SingleBit {
    fn base_address() -> u16 {
        Self::layout().base_address
    }

    fn register_type() -> RegisterType {
        Self::layout().register_type
    }

    fn field_address(field_name: &str) -> Option<u16> {
        Self::layout().field_address(field_name)
    }

    fn field_register_count(field_name: &str) -> Option<u16> {
        Self::layout().field_register_count(field_name)
    }
}

#[derive(Debug, PartialEq)]
struct SingleByteHigh {
    value: u8,
}

impl SingleByteHigh {
    fn layout() -> Layout {
        let opts = ModbusMapperOpts::new("SingleByteHigh")
            .with_base_address(0)
            .with_register_type("holding")
            .with_field(ModbusFieldOpts::new("value", "u8").at(0).with_offset("high"));
        mapped(opts)
    }

    fn values(&self) -> Vec<FieldValue> {
        vec![
            FieldValue::U8(self.value),
        ]
    }
}

impl ToRegisters for SingleByteHigh {
    fn to_registers(&self) -> Vec<u16> {
        Self::layout().to_registers(&self.values())
    }

    fn register_count() -> u16 {
        Self::layout().register_count
    }
}

impl FromRegisters for SingleByteHigh {
    fn from_registers(registers: &[u16]) -> Result<Self> {
        let mut values = Self::layout().from_registers(registers)?.into_iter();
        Ok(SingleByteHigh {
            value: as_u8(next_value(&mut values)),
        })
    }
}

impl ModbusMetadata for SingleByteHigh {
    fn base_address() -> u16 {
        Self::layout().base_address
    }

    fn register_type() -> RegisterType {
        Self::layout().register_type
    }

    fn field_address(field_name: &str) -> Option<u16> {
        Self::layout().field_address(field_name)
    }

    fn field_register_count(field_name: &str) -> Option<u16> {
        Self::layout().field_register_count(field_name)
    }
}

#[derive(Debug, PartialEq)]
struct SingleByteLow {
    value: u8,
}

impl SingleByteLow {
    fn layout() -> Layout {
        let opts = ModbusMapperOpts::new("SingleByteLow")
            .with_base_address(0)
            .with_register_type("holding")
            .with_field(ModbusFieldOpts::new("value", "u8").at(0).with_offset("low"));
        mapped(opts)
    }

    fn values(&self) -> Vec<FieldValue> {
        vec![
            FieldValue::U8(self.value),
        ]
    }
}

impl ToRegisters for SingleByteLow {
    fn to_registers(&self) -> Vec<u16> {
        Self::layout().to_registers(&self.values())
    }

    fn register_count() -> u16 {
        Self::layout().register_count
    }
}

impl FromRegisters for SingleByteLow {
    fn from_registers(registers: &[u16]) -> Result<Self> {
        let mut values = Self::layout().from_registers(registers)?.into_iter();
        Ok(SingleByteLow {
            value: as_u8(next_value(&mut values)),
        })
    }
}

impl ModbusMetadata for SingleByteLow {
    fn base_address() -> u16 {
        Self::layout().base_address
    }

    fn register_type() -> RegisterType {
        Self::layout().register_type
    }

    fn field_address(field_name: &str) -> Option<u16> {
        Self::layout().field_address(field_name)
    }

    fn field_register_count(field_name: &str) -> Option<u16> {
        Self::layout().field_register_count(field_name)
    }
}

#[test]
fn test_bit_packing_all_false() {
    let flags = BitPackedFlags {
        flag0: false,
        flag1: false,
        flag2: false,
        flag7: false,
        flag15: false,
    };

    let registers = flags.to_registers();
    assert_eq!(registers.len(), 1);
    assert_eq!(registers[0], 0x0000);
}

#[test]
fn test_bit_packing_all_true() {
    let flags = BitPackedFlags {
        flag0: true,
        flag1: true,
        flag2: true,
        flag7: true,
        flag15: true,
    };

    let registers = flags.to_registers();
    assert_eq!(registers.len(), 1);
    // Bits: 0, 1, 2, 7, 15 set
    // Binary: 1000 0000 1000 0111 = 0x8087
    assert_eq!(registers[0], 0x8087);
}

#[test]
fn test_bit_packing_mixed() {
    let flags = BitPackedFlags {
        flag0: true,
        flag1: false,
        flag2: true,
        flag7: false,
        flag15: true,
    };

    let registers = flags.to_registers();
    assert_eq!(registers.len(), 1);
    // Bits: 0, 2, 15 set
    // Binary: 1000 0000 0000 0101 = 0x8005
    assert_eq!(registers[0], 0x8005);
}

#[test]
fn test_bit_packing_roundtrip() {
    let sent = BitPackedFlags {
        flag0: true,
        flag1: false,
        flag2: true,
        flag7: true,
        flag15: false,
    };

    let registers = sent.to_registers();
    let decoded = BitPackedFlags::from_registers(&registers).expect("Failed to decode");

    assert_eq!(decoded.flag0, sent.flag0);
    assert_eq!(decoded.flag1, sent.flag1);
    assert_eq!(decoded.flag2, sent.flag2);
    assert_eq!(decoded.flag7, sent.flag7);
    assert_eq!(decoded.flag15, sent.flag15);
}

#[test]
fn test_bit_packing_metadata() {
    assert_eq!(BitPackedFlags::register_count(), 1);
    assert_eq!(BitPackedFlags::field_address("flag0"), Some(0));
    assert_eq!(BitPackedFlags::field_address("flag15"), Some(0));
    assert_eq!(BitPackedFlags::field_register_count("flag0"), Some(1));
}

#[test]
fn test_byte_packing_unsigned() {
    let data = BytePackedData {
        high_byte: 0xAB,
        low_byte: 0xCD,
        signed_high: 0,
        signed_low: 0,
    };

    let registers = data.to_registers();
    assert_eq!(registers.len(), 2);
    assert_eq!(registers[0], 0xABCD);
}

#[test]
fn test_byte_packing_signed() {
    let data = BytePackedData {
        high_byte: 0,
        low_byte: 0,
        signed_high: -1, // 0xFF
        signed_low: 127, // 0x7F
    };

    let registers = data.to_registers();
    assert_eq!(registers.len(), 2);
    assert_eq!(registers[1], 0xFF7F);
}

#[test]
fn test_byte_packing_roundtrip() {
    let sent = BytePackedData {
        high_byte: 0x12,
        low_byte: 0x34,
        signed_high: -100,
        signed_low: 50,
    };

    let registers = sent.to_registers();
    let decoded = BytePackedData::from_registers(&registers).expect("Failed to decode");

    assert_eq!(decoded.high_byte, sent.high_byte);
    assert_eq!(decoded.low_byte, sent.low_byte);
    assert_eq!(decoded.signed_high, sent.signed_high);
    assert_eq!(decoded.signed_low, sent.signed_low);
}

#[test]
fn test_byte_packing_metadata() {
    assert_eq!(BytePackedData::register_count(), 2);
    assert_eq!(BytePackedData::field_address("high_byte"), Some(0));
    assert_eq!(BytePackedData::field_address("low_byte"), Some(0));
    assert_eq!(BytePackedData::field_address("signed_high"), Some(1));
    assert_eq!(BytePackedData::field_address("signed_low"), Some(1));
}

#[test]
fn test_mixed_packing_to_registers() {
    let data = MixedPacking {
        temperature: 25.5,
        pump_running: true,
        valve_open: false,
        alarm_active: true,
        error_code: 0xE0,
        status_code: 0x0F,
        counter: 12345,
    };

    let registers = data.to_registers();
    assert_eq!(registers.len(), 6); // f32(2) + bits(1) + bytes(1) + u32(2)

    // Check bit-packed register (register 2)
    assert_eq!(registers[2] & 0x0007, 0x0005); // bits 0,2 set (pump_running, alarm_active)

    // Check byte-packed register (register 3)
    assert_eq!(registers[3], 0xE00F);
}

#[test]
fn test_mixed_packing_roundtrip() {
    let sent = MixedPacking {
        temperature: 25.5,
        pump_running: true,
        valve_open: false,
        alarm_active: true,
        error_code: 0xE0,
        status_code: 0x0F,
        counter: 12345,
    };

    let registers = sent.to_registers();
    let decoded = MixedPacking::from_registers(&registers).expect("Failed to decode");

    assert_eq!(decoded.temperature, sent.temperature);
    assert_eq!(decoded.pump_running, sent.pump_running);
    assert_eq!(decoded.valve_open, sent.valve_open);
    assert_eq!(decoded.alarm_active, sent.alarm_active);
    assert_eq!(decoded.error_code, sent.error_code);
    assert_eq!(decoded.status_code, sent.status_code);
    assert_eq!(decoded.counter, sent.counter);
}

#[test]
fn test_mixed_packing_metadata() {
    assert_eq!(MixedPacking::base_address(), 100);
    assert_eq!(MixedPacking::register_count(), 6);
    assert_eq!(MixedPacking::field_address("temperature"), Some(0));
    assert_eq!(MixedPacking::field_address("pump_running"), Some(2));
    assert_eq!(MixedPacking::field_address("valve_open"), Some(2));
    assert_eq!(MixedPacking::field_address("alarm_active"), Some(2));
    assert_eq!(MixedPacking::field_address("error_code"), Some(3));
    assert_eq!(MixedPacking::field_address("status_code"), Some(3));
    assert_eq!(MixedPacking::field_address("counter"), Some(4));
}

#[test]
fn test_full_16bit_packing() {
    // Test pattern: alternating bits
    let data = FullBitPacking {
        bit0: true,
        bit1: false,
        bit2: true,
        bit3: false,
        bit4: true,
        bit5: false,
        bit6: true,
        bit7: false,
        bit8: true,
        bit9: false,
        bit10: true,
        bit11: false,
        bit12: true,
        bit13: false,
        bit14: true,
        bit15: false,
    };

    let registers = data.to_registers();
    assert_eq!(registers.len(), 1);
    // Pattern: 0101 0101 0101 0101 = 0x5555
    assert_eq!(registers[0], 0x5555);

    let decoded = FullBitPacking::from_registers(&registers).expect("Failed to decode");
    assert_eq!(decoded.bit0, true);
    assert_eq!(decoded.bit1, false);
    assert_eq!(decoded.bit15, false);
}

#[test]
fn test_single_bit_field() {
    let data = SingleBit { flag: true };
    let registers = data.to_registers();
    assert_eq!(registers.len(), 1);
    assert_eq!(registers[0], 0x0020); // Bit 5 set

    let decoded = SingleBit::from_registers(&registers).expect("Failed to decode");
    assert_eq!(decoded.flag, true);
}

#[test]
fn test_single_byte_high() {
    let data = SingleByteHigh { value: 0xAB };
    let registers = data.to_registers();
    assert_eq!(registers.len(), 1);
    assert_eq!(registers[0], 0xAB00);

    let decoded = SingleByteHigh::from_registers(&registers).expect("Failed to decode");
    assert_eq!(decoded.value, 0xAB);
}

#[test]
fn test_single_byte_low() {
    let data = SingleByteLow { value: 0xCD };
    let registers = data.to_registers();
    assert_eq!(registers.len(), 1);
    assert_eq!(registers[0], 0x00CD);

    let decoded = SingleByteLow::from_registers(&registers).expect("Failed to decode");
    assert_eq!(decoded.value, 0xCD);
}

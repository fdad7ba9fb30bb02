//! The standard Modbus function codes.

use vstd::prelude::*;

verus! {

/// A standard Modbus function code.
#[derive(Debug, Clone, Copy, PartialEq, Eq, Structural)]
pub enum FunctionCode {
    /// 0x01
    ReadCoils,
    /// 0x02
    ReadDiscreteInputs,
    /// 0x03
    ReadHoldingRegisters,
    /// 0x04
    ReadInputRegisters,
    /// 0x05
    WriteSingleCoil,
    /// 0x06
    WriteSingleRegister,
    /// 0x07
    ReadExceptionStatus,
    /// 0x08
    Diagnostics,
    /// 0x0B
    GetCommEventCounter,
    /// 0x0C
    GetCommEventLog,
    /// 0x0F
    WriteMultipleCoils,
    /// 0x10
    WriteMultipleRegisters,
    /// 0x11
    ReportServerId,
    /// 0x14
    ReadFileRecord,
    /// 0x15
    WriteFileRecord,
    /// 0x16
    MaskWriteRegister,
    /// 0x17
    ReadWriteMultipleRegisters,
    /// 0x18
    ReadFifoQueue,
    /// 0x2B
    EncapsulatedInterfaceTransport,
}

/// The code's byte on the wire.
pub open spec fn code_byte(fc: FunctionCode) -> u8 {
    match fc {
        FunctionCode::ReadCoils => 0x01,
        FunctionCode::ReadDiscreteInputs => 0x02,
        FunctionCode::ReadHoldingRegisters => 0x03,
        FunctionCode::ReadInputRegisters => 0x04,
        FunctionCode::WriteSingleCoil => 0x05,
        FunctionCode::WriteSingleRegister => 0x06,
        FunctionCode::ReadExceptionStatus => 0x07,
        FunctionCode::Diagnostics => 0x08,
        FunctionCode::GetCommEventCounter => 0x0B,
        FunctionCode::GetCommEventLog => 0x0C,
        FunctionCode::WriteMultipleCoils => 0x0F,
        FunctionCode::WriteMultipleRegisters => 0x10,
        FunctionCode::ReportServerId => 0x11,
        FunctionCode::ReadFileRecord => 0x14,
        FunctionCode::WriteFileRecord => 0x15,
        FunctionCode::MaskWriteRegister => 0x16,
        FunctionCode::ReadWriteMultipleRegisters => 0x17,
        FunctionCode::ReadFifoQueue => 0x18,
        FunctionCode::EncapsulatedInterfaceTransport => 0x2B,
    }
}

/// The code's name as the Modbus specification writes it.
pub open spec fn code_name(fc: FunctionCode) -> Seq<char> {
    match fc {
        FunctionCode::ReadCoils => "Read Coils"@,
        FunctionCode::ReadDiscreteInputs => "Read Discrete Inputs"@,
        FunctionCode::ReadHoldingRegisters => "Read Holding Registers"@,
        FunctionCode::ReadInputRegisters => "Read Input Registers"@,
        FunctionCode::WriteSingleCoil => "Write Single Coil"@,
        FunctionCode::WriteSingleRegister => "Write Single Register"@,
        FunctionCode::ReadExceptionStatus => "Read Exception Status"@,
        FunctionCode::Diagnostics => "Diagnostics"@,
        FunctionCode::GetCommEventCounter => "Get Comm Event Counter"@,
        FunctionCode::GetCommEventLog => "Get Comm Event Log"@,
        FunctionCode::WriteMultipleCoils => "Write Multiple Coils"@,
        FunctionCode::WriteMultipleRegisters => "Write Multiple Registers"@,
        FunctionCode::ReportServerId => "Report Server ID"@,
        FunctionCode::ReadFileRecord => "Read File Record"@,
        FunctionCode::WriteFileRecord => "Write File Record"@,
        FunctionCode::MaskWriteRegister => "Mask Write Register"@,
        FunctionCode::ReadWriteMultipleRegisters => "Read/Write Multiple Registers"@,
        FunctionCode::ReadFifoQueue => "Read FIFO Queue"@,
        FunctionCode::EncapsulatedInterfaceTransport => "Encapsulated Interface Transport"@,
    }
}

/// Whether the code reads data from the server.
pub open spec fn reads(fc: FunctionCode) -> bool {
    match fc {
        FunctionCode::ReadCoils | FunctionCode::ReadDiscreteInputs
        | FunctionCode::ReadHoldingRegisters | FunctionCode::ReadInputRegisters
        | FunctionCode::ReadExceptionStatus | FunctionCode::ReadFileRecord
        | FunctionCode::ReadWriteMultipleRegisters | FunctionCode::ReadFifoQueue => true,
        _ => false,
    }
}

/// Whether the code writes data to the server.
pub open spec fn writes(fc: FunctionCode) -> bool {
    match fc {
        FunctionCode::WriteSingleCoil | FunctionCode::WriteSingleRegister
        | FunctionCode::WriteMultipleCoils | FunctionCode::WriteMultipleRegisters
        | FunctionCode::WriteFileRecord | FunctionCode::MaskWriteRegister
        | FunctionCode::ReadWriteMultipleRegisters => true,
        _ => false,
    }
}

/// Whether the code accesses single bits: coils or discrete inputs.
pub open spec fn bit_access(fc: FunctionCode) -> bool {
    match fc {
        FunctionCode::ReadCoils | FunctionCode::ReadDiscreteInputs | FunctionCode::WriteSingleCoil
        | FunctionCode::WriteMultipleCoils => true,
        _ => false,
    }
}

/// Whether the code accesses 16-bit registers: holding or input registers.
pub open spec fn register_access(fc: FunctionCode) -> bool {
    match fc {
        FunctionCode::ReadHoldingRegisters | FunctionCode::ReadInputRegisters
        | FunctionCode::WriteSingleRegister | FunctionCode::WriteMultipleRegisters
        | FunctionCode::ReadWriteMultipleRegisters => true,
        _ => false,
    }
}

impl FunctionCode {
    /// The code's byte on the wire.
    pub fn as_u8(self) -> (b: u8)
        ensures
            b == code_byte(self),
    {
        match self {
            FunctionCode::ReadCoils => 0x01,
            FunctionCode::ReadDiscreteInputs => 0x02,
            FunctionCode::ReadHoldingRegisters => 0x03,
            FunctionCode::ReadInputRegisters => 0x04,
            FunctionCode::WriteSingleCoil => 0x05,
            FunctionCode::WriteSingleRegister => 0x06,
            FunctionCode::ReadExceptionStatus => 0x07,
            FunctionCode::Diagnostics => 0x08,
            FunctionCode::GetCommEventCounter => 0x0B,
            FunctionCode::GetCommEventLog => 0x0C,
            FunctionCode::WriteMultipleCoils => 0x0F,
            FunctionCode::WriteMultipleRegisters => 0x10,
            FunctionCode::ReportServerId => 0x11,
            FunctionCode::ReadFileRecord => 0x14,
            FunctionCode::WriteFileRecord => 0x15,
            FunctionCode::MaskWriteRegister => 0x16,
            FunctionCode::ReadWriteMultipleRegisters => 0x17,
            FunctionCode::ReadFifoQueue => 0x18,
            FunctionCode::EncapsulatedInterfaceTransport => 0x2B,
        }
    }

    /// The code's name, such as `"Read Holding Registers"`.
    pub fn name(self) -> (s: &'static str)
        ensures
            s@ == code_name(self),
    {
        match self {
            FunctionCode::ReadCoils => "Read Coils",
            FunctionCode::ReadDiscreteInputs => "Read Discrete Inputs",
            FunctionCode::ReadHoldingRegisters => "Read Holding Registers",
            FunctionCode::ReadInputRegisters => "Read Input Registers",
            FunctionCode::WriteSingleCoil => "Write Single Coil",
            FunctionCode::WriteSingleRegister => "Write Single Register",
            FunctionCode::ReadExceptionStatus => "Read Exception Status",
            FunctionCode::Diagnostics => "Diagnostics",
            FunctionCode::GetCommEventCounter => "Get Comm Event Counter",
            FunctionCode::GetCommEventLog => "Get Comm Event Log",
            FunctionCode::WriteMultipleCoils => "Write Multiple Coils",
            FunctionCode::WriteMultipleRegisters => "Write Multiple Registers",
            FunctionCode::ReportServerId => "Report Server ID",
            FunctionCode::ReadFileRecord => "Read File Record",
            FunctionCode::WriteFileRecord => "Write File Record",
            FunctionCode::MaskWriteRegister => "Mask Write Register",
            FunctionCode::ReadWriteMultipleRegisters => "Read/Write Multiple Registers",
            FunctionCode::ReadFifoQueue => "Read FIFO Queue",
            FunctionCode::EncapsulatedInterfaceTransport => "Encapsulated Interface Transport",
        }
    }

    /// Whether the code reads data from the server.
    pub fn is_read(self) -> (b: bool)
        ensures
            b == reads(self),
    {
        match self {
            FunctionCode::ReadCoils | FunctionCode::ReadDiscreteInputs
            | FunctionCode::ReadHoldingRegisters | FunctionCode::ReadInputRegisters
            | FunctionCode::ReadExceptionStatus | FunctionCode::ReadFileRecord
            | FunctionCode::ReadWriteMultipleRegisters | FunctionCode::ReadFifoQueue => true,
            _ => false,
        }
    }

    /// Whether the code writes data to the server.
    pub fn is_write(self) -> (b: bool)
        ensures
            b == writes(self),
    {
        match self {
            FunctionCode::WriteSingleCoil | FunctionCode::WriteSingleRegister
            | FunctionCode::WriteMultipleCoils | FunctionCode::WriteMultipleRegisters
            | FunctionCode::WriteFileRecord | FunctionCode::MaskWriteRegister
            | FunctionCode::ReadWriteMultipleRegisters => true,
            _ => false,
        }
    }

    /// Whether the code accesses single bits: coils or discrete inputs.
    pub fn is_bit_access(self) -> (b: bool)
        ensures
            b == bit_access(self),
    {
        match self {
            FunctionCode::ReadCoils | FunctionCode::ReadDiscreteInputs
            | FunctionCode::WriteSingleCoil | FunctionCode::WriteMultipleCoils => true,
            _ => false,
        }
    }

    /// Whether the code accesses 16-bit registers: holding or input registers.
    pub fn is_register_access(self) -> (b: bool)
        ensures
            b == register_access(self),
    {
        match self {
            FunctionCode::ReadHoldingRegisters | FunctionCode::ReadInputRegisters
            | FunctionCode::WriteSingleRegister | FunctionCode::WriteMultipleRegisters
            | FunctionCode::ReadWriteMultipleRegisters => true,
            _ => false,
        }
    }
}



/// Whether `text` ends with `word`.
pub open spec fn ends_with(text: Seq<char>, word: Seq<char>) -> bool {
    text.len() >= word.len() && text.skip(text.len() - word.len()) == word
}

proof fn lemma_ends_differently(text: Seq<char>, word: Seq<char>)
    requires
        word.len() >= 2,
        text.len() < word.len() || text[text.len() - 1] != word[word.len() - 1] || text[text.len()
            - 2] != word[word.len() - 2],
    ensures
        !ends_with(text, word),
{
    if text.len() >= word.len() {
        let t = text.skip(text.len() - word.len());
        assert(t[word.len() - 1] == text[text.len() - 1]);
        assert(t[word.len() - 2] == text[text.len() - 2]);
    }
}

/// The classification of a code agrees with its name: it reads exactly when
/// its name starts with "Read", and accesses bits exactly when its name ends
/// with "Coil", "Coils" or "Discrete Inputs". A code never accesses both bits
/// and registers, and two codes have the same byte only if they are the same.
pub proof fn lemma_code_name_agrees(fc: FunctionCode, other: FunctionCode)
    ensures
        reads(fc) <==> code_name(fc).len() >= 4 && code_name(fc).take(4) == "Read"@,
        bit_access(fc) <==> ends_with(code_name(fc), "Coil"@) || ends_with(code_name(fc), "Coils"@)
            || ends_with(code_name(fc), "Discrete Inputs"@),
        !(bit_access(fc) && register_access(fc)),
        code_byte(fc) == code_byte(other) <==> fc == other,
{
    reveal_strlit("Read Coils");
    reveal_strlit("Read Discrete Inputs");
    reveal_strlit("Read Holding Registers");
    reveal_strlit("Read Input Registers");
    reveal_strlit("Write Single Coil");
    reveal_strlit("Write Single Register");
    reveal_strlit("Read Exception Status");
    reveal_strlit("Diagnostics");
    reveal_strlit("Get Comm Event Counter");
    reveal_strlit("Get Comm Event Log");
    reveal_strlit("Write Multiple Coils");
    reveal_strlit("Write Multiple Registers");
    reveal_strlit("Report Server ID");
    reveal_strlit("Read File Record");
    reveal_strlit("Write File Record");
    reveal_strlit("Mask Write Register");
    reveal_strlit("Read/Write Multiple Registers");
    reveal_strlit("Read FIFO Queue");
    reveal_strlit("Encapsulated Interface Transport");
    reveal_strlit("Read");
    reveal_strlit("Coil");
    reveal_strlit("Coils");
    reveal_strlit("Discrete Inputs");
    let n = code_name(fc);
    let read = "Read"@;
    if reads(fc) {
        assert(n.take(4) =~= read);
    } else {
        assert(n.take(4)[0] != read[0] || n.take(4)[2] != read[2]);
    }
    if bit_access(fc) {
        match fc {
            FunctionCode::ReadCoils => {
                assert(n.skip(n.len() - 5) =~= "Coils"@);
            },
            FunctionCode::ReadDiscreteInputs => {
                assert(n.skip(n.len() - 15) =~= "Discrete Inputs"@);
            },
            FunctionCode::WriteSingleCoil => {
                assert(n.skip(n.len() - 4) =~= "Coil"@);
            },
            _ => {
                assert(n.skip(n.len() - 5) =~= "Coils"@);
            },
        }
    } else {
        lemma_ends_differently(n, "Coil"@);
        lemma_ends_differently(n, "Coils"@);
        lemma_ends_differently(n, "Discrete Inputs"@);
    }
}

} // verus!

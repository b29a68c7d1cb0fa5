use vstd::prelude::*;

verus! {

/// A single bit of a device.
#[derive(Clone, Copy, Debug, PartialEq, Eq, Structural)]
pub enum Coil {
    On,
    Off,
}

impl Coil {
    pub open spec fn is_on(self) -> bool {
        self is On
    }

    pub open spec fn spec_code(self) -> u16 {
        if self is On { 0xff00u16 } else { 0x0000u16 }
    }

    /// The coil as a bool.
    pub open spec fn from_bool(b: bool) -> Coil {
        if b { Coil::On } else { Coil::Off }
    }

    /// The 16-bit value that writes this coil.
    pub fn code(&self) -> (r: u16)
        ensures
            r == self.spec_code(),
    {
        match self {
            Coil::On => 0xff00u16,
            Coil::Off => 0x0000u16,
        }
    }
}

/// One request of the protocol, with its operands.
#[derive(Clone, Copy, Debug)]
pub enum Function<'a> {
    ReadCoils(u16, u16),
    ReadDiscreteInputs(u16, u16),
    ReadHoldingRegisters(u16, u16),
    ReadInputRegisters(u16, u16),
    WriteSingleCoil(u16, u16),
    WriteSingleRegister(u16, u16),
    WriteMultipleCoils(u16, u16, &'a [u8]),
    WriteMultipleRegisters(u16, u16, &'a [u8]),
}

impl<'a> Function<'a> {
    /// The one-byte function code on the wire.
    pub open spec fn spec_code(self) -> u8 {
        match self {
            Function::ReadCoils(..) => 0x01u8,
            Function::ReadDiscreteInputs(..) => 0x02u8,
            Function::ReadHoldingRegisters(..) => 0x03u8,
            Function::ReadInputRegisters(..) => 0x04u8,
            Function::WriteSingleCoil(..) => 0x05u8,
            Function::WriteSingleRegister(..) => 0x06u8,
            Function::WriteMultipleCoils(..) => 0x0fu8,
            Function::WriteMultipleRegisters(..) => 0x10u8,
        }
    }

    pub fn code(&self) -> (r: u8)
        ensures
            r == self.spec_code(),
    {
        match self {
            Function::ReadCoils(..) => 0x01u8,
            Function::ReadDiscreteInputs(..) => 0x02u8,
            Function::ReadHoldingRegisters(..) => 0x03u8,
            Function::ReadInputRegisters(..) => 0x04u8,
            Function::WriteSingleCoil(..) => 0x05u8,
            Function::WriteSingleRegister(..) => 0x06u8,
            Function::WriteMultipleCoils(..) => 0x0fu8,
            Function::WriteMultipleRegisters(..) => 0x10u8,
        }
    }
}

} // verus!

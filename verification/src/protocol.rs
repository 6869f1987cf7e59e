//! Encoding of the control-transfer requests the client issues.
//!
//! Every interaction with the firmware is a USB control transfer. A
//! request is fully described by its setup packet: direction, request
//! type class, recipient, request code, and the three parameter fields
//! wValue, wIndex and wLength. The builders here compute those fields;
//! the transfer itself is performed outside the library.

use vstd::prelude::*;

verus! {

/// Direction of a control transfer: device-to-host (In) or host-to-device (Out).
#[derive(Clone, Copy, PartialEq, Eq, Structural, Debug)]
pub enum Direction {
    In,
    Out,
}

/// Request type class of the setup packet.
#[derive(Clone, Copy, PartialEq, Eq, Structural, Debug)]
pub enum ControlClass {
    Standard,
    Vendor,
}

/// Recipient field of the setup packet.
#[derive(Clone, Copy, PartialEq, Eq, Structural, Debug)]
pub enum Recipient {
    Device,
    Interface,
}

/// One control-transfer setup packet, without any data payload.
#[derive(Clone, Copy, PartialEq, Eq, Structural, Debug)]
pub struct ControlRequest {
    pub direction: Direction,
    pub class: ControlClass,
    pub recipient: Recipient,
    pub request: u8,
    pub value: u16,
    pub index: u16,
    pub length: u16,
}

/// Vendor request code that arms the firmware's debug message channel;
/// with a non-empty payload it also carries a console command line.
pub const REQ_SET_DBG_MSG: u8 = 0x22;

/// Vendor request code that polls one frame of debug log text.
pub const REQ_GET_DBG_MSG: u8 = 0x10;

/// Vendor request code that writes a register (issued as an IN transfer).
pub const REQ_GET_WR_REG: u8 = 0x11;

/// Vendor request code that reads a register.
pub const REQ_GET_RD_REG: u8 = 0x12;

/// Number of bytes one log-poll request asks for.
pub const LOG_FRAME_LEN: u16 = 8;

/// Number of bytes a register read returns.
pub const REG_READ_LEN: u16 = 8;

/// The wValue field of a register write: the low eight bits of the
/// register address in the high byte, the value to store in the low byte.
/// The upper bits of `addr` do not reach the wire.
pub open spec fn reg_write_value(addr: u16, value: u8) -> u16 {
    ((addr & 0xff) << 8) | (value as u16)
}

/// Arms the firmware's log channel: an OUT vendor request to the
/// interface with an empty payload.
pub fn init_log_request() -> (r: ControlRequest)
    ensures
        r == (ControlRequest {
            direction: Direction::Out,
            class: ControlClass::Vendor,
            recipient: Recipient::Interface,
            request: REQ_SET_DBG_MSG,
            value: 0u16,
            index: 0u16,
            length: 0u16,
        }),
{
    ControlRequest {
        direction: Direction::Out,
        class: ControlClass::Vendor,
        recipient: Recipient::Interface,
        request: REQ_SET_DBG_MSG,
        value: 0,
        index: 0,
        length: 0,
    }
}

/// The setup packet that carries one operator command line of
/// `payload_len` bytes to the firmware's interpreter: the same request
/// code as the log-channel setup, but with a non-empty payload.
pub open spec fn console_command_request_spec(payload_len: u16) -> ControlRequest {
    ControlRequest {
        direction: Direction::Out,
        class: ControlClass::Vendor,
        recipient: Recipient::Interface,
        request: REQ_SET_DBG_MSG,
        value: 0u16,
        index: 0u16,
        length: payload_len,
    }
}

/// Sends one operator command line to the firmware's interpreter.
/// `payload_len` is the length of the command bytes.
pub fn console_command_request(payload_len: u16) -> (r: ControlRequest)
    ensures
        r == console_command_request_spec(payload_len),
{
    ControlRequest {
        direction: Direction::Out,
        class: ControlClass::Vendor,
        recipient: Recipient::Interface,
        request: REQ_SET_DBG_MSG,
        value: 0,
        index: 0,
        length: payload_len,
    }
}

/// Polls one fixed-size frame of log text from the device.
pub fn poll_log_request() -> (r: ControlRequest)
    ensures
        r == (ControlRequest {
            direction: Direction::In,
            class: ControlClass::Vendor,
            recipient: Recipient::Device,
            request: REQ_GET_DBG_MSG,
            value: 0u16,
            index: 0u16,
            length: LOG_FRAME_LEN,
        }),
{
    ControlRequest {
        direction: Direction::In,
        class: ControlClass::Vendor,
        recipient: Recipient::Device,
        request: REQ_GET_DBG_MSG,
        value: 0,
        index: 0,
        length: LOG_FRAME_LEN,
    }
}

/// Reads a register: the register address travels in wValue, the offset
/// in wIndex, and the firmware answers with a fixed eight-byte block.
pub fn read_register_request(addr: u16, offset: u16) -> (r: ControlRequest)
    ensures
        r == (ControlRequest {
            direction: Direction::In,
            class: ControlClass::Vendor,
            recipient: Recipient::Device,
            request: REQ_GET_RD_REG,
            value: addr,
            index: offset,
            length: REG_READ_LEN,
        }),
{
    ControlRequest {
        direction: Direction::In,
        class: ControlClass::Vendor,
        recipient: Recipient::Device,
        request: REQ_GET_RD_REG,
        value: addr,
        index: offset,
        length: REG_READ_LEN,
    }
}

/// Writes a register. The firmware's write path is, as a quirk that must
/// be kept bit-for-bit, a zero-length IN transfer whose whole payload
/// rides in the setup packet: wValue holds `((addr & 0xff) << 8) | value`
/// and wIndex holds the offset.
pub fn write_register_request(addr: u16, offset: u16, value: u8) -> (r: ControlRequest)
    ensures
        r == (ControlRequest {
            direction: Direction::In,
            class: ControlClass::Vendor,
            recipient: Recipient::Device,
            request: REQ_GET_WR_REG,
            value: reg_write_value(addr, value),
            index: offset,
            length: 0u16,
        }),
{
    ControlRequest {
        direction: Direction::In,
        class: ControlClass::Vendor,
        recipient: Recipient::Device,
        request: REQ_GET_WR_REG,
        value: ((addr & 0xff) << 8) | (value as u16),
        index: offset,
        length: 0,
    }
}

/// The packed wValue of a register write depends only on the low eight
/// bits of the address: two addresses that agree there pack identically,
/// whatever their upper bits.
pub proof fn lemma_reg_write_value_ignores_upper_addr_bits(a1: u16, a2: u16, value: u8)
    requires
        a1 & 0xff == a2 & 0xff,
    ensures
        reg_write_value(a1, value) == reg_write_value(a2, value),
{
}

/// The packed wValue of a register write decodes back to its parts: the
/// high byte is the masked address, the low byte is the value.
pub proof fn lemma_reg_write_value_unpacks(addr: u16, value: u8)
    ensures
        reg_write_value(addr, value) >> 8 == addr & 0xff,
        reg_write_value(addr, value) & 0xff == value as u16,
{
    assert((((addr & 0xff) << 8) | (value as u16)) >> 8 == addr & 0xff) by (bit_vector);
    assert((((addr & 0xff) << 8) | (value as u16)) & 0xff == value as u16) by (bit_vector);
}

} // verus!

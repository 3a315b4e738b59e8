//! Korg Z1 MIDI protocol: a verified codec for the Z1's system-exclusive
//! messages. Pure byte handling, no I/O.

pub mod packing;
pub mod sysex;
pub mod wire;

pub use packing::{pack_7in8, unpack_7in8};
pub use sysex::{
    device_inquiry_request, parse_device_inquiry_reply, Bank, Channel, DecodeError, DeviceInfo,
    DumpScope, Group, Message, ParamId, ProgramNo, Value,
};
pub use wire::{split14, u14};

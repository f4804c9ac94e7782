//! The PS/2 controller: what its status byte says, how a command byte is
//! acknowledged, and where incoming data goes.
//!
//! The caller does the port I/O; these functions take the bytes it read
//! and say what to do next.

use vstd::prelude::*;

verus! {

pub const PS2_STATUS_PORT: u16 = 0x64;
pub const PS2_DATA_PORT: u16 = 0x60;

// Status register bits
pub const DATA_READY: u8 = 0x01;
pub const INPUT_BUFFER_FULL: u8 = 0x02;
pub const SYSTEM_FLAG: u8 = 0x04;
pub const COMMAND_DATA: u8 = 0x08;
pub const KEYBOARD_LOCKED: u8 = 0x10;
pub const KEYBOARD_TIMEOUT_MOUSE_DATA: u8 = 0x20;
pub const RECEIVE_TIMEOUT: u8 = 0x40;
pub const PARITY_ERROR: u8 = 0x80;

/// The byte a device answers a command with.
pub const ACK: u8 = 0xFA;
pub const RESEND: u8 = 0xFE;

/// The controller; its ports are read and written by the caller.
#[derive(Debug, Clone, Copy)]
pub struct Ps2;

impl Ps2 {
    /// Whether a byte can be read from the data port.
    pub fn has_data(&self, status: u8) -> (r: bool)
        ensures
            r == (status & 0x01 != 0),
    {
        status & DATA_READY != 0
    }

    /// Whether the controller still holds a byte written to it.
    pub fn input_buffer_full(&self, status: u8) -> (r: bool)
        ensures
            r == (status & 0x02 != 0),
    {
        status & INPUT_BUFFER_FULL != 0
    }
}

/// The answer to a command byte.
#[derive(Debug, Clone, Copy, PartialEq, Eq, Structural)]
pub enum Reply {
    Ack,
    Resend,
    /// Any other byte, which the device should not send then.
    Unexpected(u8),
}

pub fn classify_reply(data: u8) -> (r: Reply)
    ensures
        r == if data == 0xFA {
            Reply::Ack
        } else if data == 0xFE {
            Reply::Resend
        } else {
            Reply::Unexpected(data)
        },
{
    if data == ACK {
        Reply::Ack
    } else if data == RESEND {
        Reply::Resend
    } else {
        Reply::Unexpected(data)
    }
}

/// What to do after waiting for the answer to a command byte.
#[derive(Debug, Clone, Copy, PartialEq, Eq, Structural)]
pub enum CommandStep {
    /// The byte was acknowledged.
    Done,
    /// Write the byte again.
    Retry,
    /// The device asked for it too often.
    GiveUp,
}

/// Writing a command byte, which may be sent up to three times when the
/// device asks for it again.
pub struct CommandWriter {
    pub attempts: u8,
}

impl CommandWriter {
    pub fn new() -> (r: Self)
        ensures
            r.attempts == 3,
    {
        CommandWriter { attempts: 3 }
    }

    /// The next step, from the answer waited for: `None` when none came in
    /// time. Each request to resend uses up an attempt; waiting in vain
    /// does not.
    pub fn on_reply(&mut self, reply: Option<Reply>) -> (r: CommandStep)
        requires
            old(self).attempts > 0,
            !(reply matches Some(Reply::Unexpected(_))),
        ensures
            reply == Some(Reply::Ack) ==> r == CommandStep::Done && final(self).attempts == old(self).attempts,
            reply is None ==> r == CommandStep::Retry && final(self).attempts == old(self).attempts,
            reply == Some(Reply::Resend) ==> final(self).attempts == old(self).attempts - 1 && r == if old(
                self,
            ).attempts == 1 {
                CommandStep::GiveUp
            } else {
                CommandStep::Retry
            },
            r == CommandStep::Retry ==> final(self).attempts > 0,
    {
        match reply {
            Some(Reply::Resend) => {
                self.attempts = self.attempts - 1;
                if self.attempts == 0 {
                    CommandStep::GiveUp
                } else {
                    CommandStep::Retry
                }
            },
            Some(Reply::Ack) => CommandStep::Done,
            _ => CommandStep::Retry,
        }
    }
}

/// Where the byte behind a status goes.
#[derive(Debug, Clone, Copy, PartialEq, Eq, Structural)]
pub enum DataRoute {
    /// Nothing to read.
    NoData,
    /// Read the byte and drop it: it arrived with a parity error.
    Discard,
    Mouse,
    Keyboard,
}

/// Where the next byte goes, from the status byte.
pub fn route_data(status: u8) -> (r: DataRoute)
    ensures
        r == if status & 0x01 == 0 {
            DataRoute::NoData
        } else if status & 0x80 != 0 {
            DataRoute::Discard
        } else if status & 0x20 != 0 {
            DataRoute::Mouse
        } else {
            DataRoute::Keyboard
        },
{
    if status & DATA_READY == 0 {
        return DataRoute::NoData;
    }
    if status & PARITY_ERROR != 0 {
        return DataRoute::Discard;
    }
    if status & KEYBOARD_TIMEOUT_MOUSE_DATA != 0 {
        DataRoute::Mouse
    } else {
        DataRoute::Keyboard
    }
}

} // verus!

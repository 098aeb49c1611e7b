//! What the codes of the raw-input platform mean: the numbers of window
//! messages, the codes in their parameters, and what the platform's
//! queries return.

use vstd::prelude::*;

verus! {

/// The message that asks a window to close.
pub const WM_CLOSE: u32 = 0x0010;

/// The message that announces raw input.
pub const WM_INPUT: u32 = 0x00ff;

/// The message that announces the arrival or removal of a device.
pub const WM_INPUT_DEVICE_CHANGE: u32 = 0x00fe;

pub const GIDC_ARRIVAL: u32 = 1;

pub const GIDC_REMOVAL: u32 = 2;

/// Input that came while the receiver was in the foreground.
pub const RIM_INPUT: u32 = 0;

/// Input that came while the receiver was not in the foreground.
pub const RIM_INPUTSINK: u32 = 1;

/// What a window message means to the driver.
#[derive(Debug, Clone, Copy, PartialEq, Eq)]
pub enum Message {
    Close,
    Input { is_sink: bool },
    Arrival,
    Removal,
    /// Nothing the driver acts on.
    Other,
}

pub open spec fn message_kind(message: u32, code: u32) -> Message {
    if message == WM_CLOSE {
        Message::Close
    } else if message == WM_INPUT {
        if code == RIM_INPUT {
            Message::Input { is_sink: false }
        } else if code == RIM_INPUTSINK {
            Message::Input { is_sink: true }
        } else {
            Message::Other
        }
    } else if message == WM_INPUT_DEVICE_CHANGE {
        if code == GIDC_ARRIVAL {
            Message::Arrival
        } else if code == GIDC_REMOVAL {
            Message::Removal
        } else {
            Message::Other
        }
    } else {
        Message::Other
    }
}

/// Reads a window message by its number and the code in its first
/// parameter.
pub fn classify_message(message: u32, code: u32) -> (m: Message)
    ensures
        m == message_kind(message, code),
{
    if message == WM_CLOSE {
        Message::Close
    } else if message == WM_INPUT {
        if code == RIM_INPUT {
            Message::Input { is_sink: false }
        } else if code == RIM_INPUTSINK {
            Message::Input { is_sink: true }
        } else {
            Message::Other
        }
    } else if message == WM_INPUT_DEVICE_CHANGE {
        if code == GIDC_ARRIVAL {
            Message::Arrival
        } else if code == GIDC_REMOVAL {
            Message::Removal
        } else {
            Message::Other
        }
    } else {
        Message::Other
    }
}

/// How waiting for a message ended.
#[derive(Debug, Clone, Copy, PartialEq, Eq)]
pub enum Wait {
    /// The queue was told to quit.
    Quit,
    Failed,
    /// A message is there.
    Message,
}

/// Reads what waiting for a message returned: 0 when the queue quits, -1
/// when waiting failed, anything else with a message.
pub fn wait_outcome(returned: i32) -> (w: Wait)
    ensures
        w == (if returned == 0 {
            Wait::Quit
        } else if returned == -1 {
            Wait::Failed
        } else {
            Wait::Message
        }),
{
    if returned == 0 {
        Wait::Quit
    } else if returned == -1 {
        Wait::Failed
    } else {
        Wait::Message
    }
}

/// What a query for device information returns when the buffer is too
/// small.
pub const QUERY_FAILED: u32 = 0xffff_ffff;

/// Why a query for device information gave nothing.
#[derive(Debug, Clone, Copy, PartialEq, Eq)]
pub enum QueryError {
    /// The buffer was too small.
    Insufficient,
    /// The platform returned this, which it should not.
    Unexpected(u32),
}

/// Reads what a query for device information returned, given the room
/// the buffer had: the failure code says the buffer was too small, a
/// number up to the room is the part of the buffer that was filled, and
/// a larger number should not come.
pub fn info_outcome(returned: u32, room: u32) -> (r: Result<usize, QueryError>)
    ensures
        r == (if returned == QUERY_FAILED {
            Err::<usize, QueryError>(QueryError::Insufficient)
        } else if returned <= room {
            Ok(returned as usize)
        } else {
            Err(QueryError::Unexpected(returned))
        }),
{
    if returned == QUERY_FAILED {
        Err(QueryError::Insufficient)
    } else if returned <= room {
        Ok(returned as usize)
    } else {
        Err(QueryError::Unexpected(returned))
    }
}

/// Reads what a query for the size of device information returned: zero
/// says that `size` holds the size, anything else should not come.
pub fn size_outcome(returned: u32, size: u32) -> (r: Result<usize, QueryError>)
    ensures
        r == (if returned == 0 {
            Ok::<usize, QueryError>(size as usize)
        } else {
            Err(QueryError::Unexpected(returned))
        }),
{
    if returned == 0 {
        Ok(size as usize)
    } else {
        Err(QueryError::Unexpected(returned))
    }
}

} // verus!

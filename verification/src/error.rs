//! The errors that the frame and bus operations report.
use vstd::prelude::*;
use crate::text::{all_digits, digits_value, lemma_digits_value, push_radix, radix_text};

verus! {

/// Why a frame or bus operation was refused.
#[derive(Debug, Clone, Copy, PartialEq, Eq, Structural)]
pub enum JcanError {
    /// `open` on a bus that is already open.
    BusAlreadyOpen,
    /// The socket could not be opened on the interface.
    BusOpenFailed,
    /// `close` on a bus that is not open.
    CloseNotOpen,
    /// `receive` on a bus that is not open.
    ReceiveNotOpen,
    /// `send` on a bus that is not open.
    SendNotOpen,
    /// An id filter was set while the bus is open.
    FilterWhileOpen,
    /// `receive_from_thread_buffer` on a bus that is not open.
    BufferNotOpen,
    /// Frame data of the given length, more than 8 bytes.
    DataTooLong(usize),
    /// A callback that takes no positional argument.
    CallbackArity,
}

/// The message text of an error.
pub open spec fn error_text(e: JcanError) -> Seq<char> {
    match e {
        JcanError::BusAlreadyOpen => "Bus already open"@,
        JcanError::BusOpenFailed => "Error opening bus"@,
        JcanError::CloseNotOpen => "Cannot close, bus has not been opened"@,
        JcanError::ReceiveNotOpen => "Cannot receive, bus has not been opened"@,
        JcanError::SendNotOpen => "Cannot send, bus has not been opened"@,
        JcanError::FilterWhileOpen => "Set frame ID filter before opening bus"@,
        JcanError::BufferNotOpen => "Bus not open"@,
        JcanError::CallbackArity => "Callback provided must take atleast one positional argument"@,
        JcanError::DataTooLong(len) => "Data length "@ + radix_text(len as nat, 10, true) + " > 8 bytes"@,
    }
}

/// The message of a too-long data error holds the data length in decimal, reading back as
/// that length: `Data length <n> > 8 bytes`.
pub proof fn lemma_data_too_long_text(len: usize)
    ensures
        exists|t: Seq<char>|
            error_text(JcanError::DataTooLong(len)) == "Data length "@ + t + " > 8 bytes"@ && all_digits(t, 10, true)
                && #[trigger] digits_value(t, 10) == len,
{
    lemma_digits_value(len as nat, 10, true);
    assert(digits_value(radix_text(len as nat, 10, true), 10) == len);
}

impl JcanError {
    /// The message of this error, as the bus and frame operations word it.
    pub fn message(&self) -> (text: String)
        ensures
            text@ == error_text(*self),
    {
        match self {
            JcanError::BusAlreadyOpen => String::from_str("Bus already open"),
            JcanError::BusOpenFailed => String::from_str("Error opening bus"),
            JcanError::CloseNotOpen => String::from_str("Cannot close, bus has not been opened"),
            JcanError::ReceiveNotOpen => String::from_str("Cannot receive, bus has not been opened"),
            JcanError::SendNotOpen => String::from_str("Cannot send, bus has not been opened"),
            JcanError::FilterWhileOpen => String::from_str("Set frame ID filter before opening bus"),
            JcanError::BufferNotOpen => String::from_str("Bus not open"),
            JcanError::CallbackArity => String::from_str(
                "Callback provided must take atleast one positional argument",
            ),
            JcanError::DataTooLong(len) => {
                let mut text = String::from_str("Data length ");
                push_radix(&mut text, *len as u64, 10, true);
                text.append(" > 8 bytes");
                text
            },
        }
    }
}

} // verus!

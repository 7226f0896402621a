//! The commands that the example bus program takes from received frames.
use vstd::prelude::*;
use crate::frame::JFrame;

verus! {

/// What the example program does on a received frame.
#[derive(Debug, Clone, Copy, PartialEq, Eq, Structural)]
pub enum ExampleCommand {
    /// Stop receiving.
    Quit,
    /// Close the bus, wait, and open it again.
    Restart,
    /// Go on.
    Ignore,
}

/// The command of a frame: frame `0x123` with the single byte `0x42` quits, with the single
/// byte `0x11` restarts; every other frame is ignored.
pub open spec fn command_of(id: u32, data: Seq<u8>) -> ExampleCommand {
    if id == 0x123 && data.len() == 1 {
        if data[0] == 0x42 {
            ExampleCommand::Quit
        } else if data[0] == 0x11 {
            ExampleCommand::Restart
        } else {
            ExampleCommand::Ignore
        }
    } else {
        ExampleCommand::Ignore
    }
}

/// Exactly frame `0x123` with the single byte `0x42` quits, exactly frame `0x123` with the
/// single byte `0x11` restarts, and every other frame is ignored.
pub proof fn lemma_command_of(id: u32, data: Seq<u8>)
    ensures
        command_of(id, data) == ExampleCommand::Quit <==> (id == 0x123 && data.len() == 1 && data[0] == 0x42),
        command_of(id, data) == ExampleCommand::Restart <==> (id == 0x123 && data.len() == 1 && data[0] == 0x11),
        command_of(id, data) == ExampleCommand::Ignore <==> !(id == 0x123 && data.len() == 1 && (data[0] == 0x42
            || data[0] == 0x11)),
{
}

/// The command that a received frame gives, as `command_of` states it.
pub fn example_command(frame: &JFrame) -> (command: ExampleCommand)
    ensures
        command == command_of(frame@.0, frame@.1),
{
    let data = frame.get_data();
    if frame.get_id() == 0x123 && data.len() == 1 {
        if data[0] == 0x42 {
            ExampleCommand::Quit
        } else if data[0] == 0x11 {
            ExampleCommand::Restart
        } else {
            ExampleCommand::Ignore
        }
    } else {
        ExampleCommand::Ignore
    }
}

} // verus!

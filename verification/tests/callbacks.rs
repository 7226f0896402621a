use jcan::callbacks::{spin_outcome, CallbackTable};
use jcan::command::{example_command, ExampleCommand};
use jcan::error::JcanError;
use jcan::frame::new_jframe;

#[test]
fn spin_hands_registered_frames_in_order() {
    let mut table: CallbackTable<&'static str> = CallbackTable::new();
    assert!(table.add_callback(0x1A5, "five", 1).is_ok());
    assert!(table.add_callback(0x1AD, "d", 1).is_ok());
    let frames = vec![
        new_jframe(0x1A5, vec![1]).unwrap(),
        new_jframe(0x100, vec![2]).unwrap(),
        new_jframe(0x1AD, vec![3]).unwrap(),
        new_jframe(0x1A5, vec![4]).unwrap(),
    ];
    assert_eq!(table.spin(&frames), vec![0, 2, 3]);
    assert_eq!(table.callback_for(0x1A5), Some(&"five"));
    assert_eq!(table.callback_for(0x1AD), Some(&"d"));
    assert_eq!(table.callback_for(0x100), None);
}

#[test]
fn later_callback_replaces_earlier() {
    let mut table: CallbackTable<u8> = CallbackTable::new();
    assert!(table.add_callback(7, 1, 2).is_ok());
    assert!(table.add_callback(7, 2, 1).is_ok());
    assert_eq!(table.callback_for(7), Some(&2));
}

#[test]
fn callback_without_argument_is_refused() {
    let mut table: CallbackTable<u8> = CallbackTable::new();
    let r = table.add_callback(7, 1, 0);
    assert_eq!(r, Err(JcanError::CallbackArity));
    assert_eq!(
        JcanError::CallbackArity.message(),
        "Callback provided must take atleast one positional argument"
    );
    assert_eq!(table.callback_for(7), None);
    assert!(table.spin(&vec![new_jframe(7, vec![]).unwrap()]).is_empty());
}

#[test]
fn spin_outcome_reports_first_failure() {
    assert_eq!(spin_outcome(&vec![]), Ok(()));
    assert_eq!(spin_outcome(&vec![Ok(()), Ok(())]), Ok(()));
    assert_eq!(
        spin_outcome(&vec![Ok(()), Err("bad frame".to_string()), Err("later".to_string())]),
        Err("Error calling callback: bad frame".to_string())
    );
}

#[test]
fn example_commands() {
    assert_eq!(example_command(&new_jframe(0x123, vec![0x42]).unwrap()), ExampleCommand::Quit);
    assert_eq!(example_command(&new_jframe(0x123, vec![0x11]).unwrap()), ExampleCommand::Restart);
    assert_eq!(example_command(&new_jframe(0x123, vec![0x12]).unwrap()), ExampleCommand::Ignore);
    assert_eq!(example_command(&new_jframe(0x123, vec![0x42, 0]).unwrap()), ExampleCommand::Ignore);
    assert_eq!(example_command(&new_jframe(0x124, vec![0x42]).unwrap()), ExampleCommand::Ignore);
}

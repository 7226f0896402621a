use jcan::error::JcanError;
use jcan::frame::{new_jframe, JFrame};

#[test]
fn builds_frame_with_four_bytes() {
    let frame = new_jframe(0x123, vec![0xA, 0xB, 0xC, 0xD]).expect("Failed to build Frame");
    assert_eq!(frame.get_id(), 0x123);
    assert_eq!(frame.get_data(), vec![0xA, 0xB, 0xC, 0xD]);
}

#[test]
fn builds_frame_with_eight_and_no_bytes() {
    let full = JFrame::build(0x7FF, vec![1, 2, 3, 4, 5, 6, 7, 8]).unwrap();
    assert_eq!(full.get_data().len(), 8);
    let empty = JFrame::build(0, Vec::new()).unwrap();
    assert_eq!(empty.get_id(), 0);
    assert!(empty.get_data().is_empty());
}

#[test]
fn refuses_nine_bytes() {
    let r = new_jframe(0x123, vec![0; 9]);
    match r {
        Err(e) => {
            assert_eq!(e, JcanError::DataTooLong(9));
            assert_eq!(e.message(), "Data length 9 > 8 bytes");
        }
        Ok(_) => panic!("a frame of nine bytes was built"),
    }
}

#[test]
fn set_data_too_long_keeps_frame() {
    let mut frame = JFrame::build(0x10, vec![1, 2]).unwrap();
    let r = frame.set_data(vec![0; 12]);
    assert_eq!(r, Err(JcanError::DataTooLong(12)));
    assert_eq!(frame.get_id(), 0x10);
    assert_eq!(frame.get_data(), vec![1, 2]);
}

#[test]
fn set_then_get() {
    let mut frame = JFrame::build(1, vec![]).unwrap();
    assert!(frame.set_id(0x1FFF_FFFF).is_ok());
    assert!(frame.set_data(vec![9, 8, 7]).is_ok());
    assert_eq!(frame.get_id(), 0x1FFF_FFFF);
    assert_eq!(frame.get_data(), vec![9, 8, 7]);
}

#[test]
fn prints_in_cansend_form() {
    let frame = new_jframe(0x123, vec![0xAA, 0xBB, 0xCC, 0xDD]).unwrap();
    assert_eq!(frame.to_string(), "123#AABBCCDD");
    let frame = new_jframe(0x123, vec![0xA, 0xA]).unwrap();
    assert_eq!(frame.to_string(), "123#0A0A");
}

#[test]
fn prints_standard_and_extended_ids() {
    let short = new_jframe(0x5, vec![]).unwrap();
    assert_eq!(short.to_string(), "005#");
    let top = new_jframe(0x7FF, vec![1]).unwrap();
    assert_eq!(top.to_string(), "7FF#01");
    let low_extended = new_jframe(0x800, vec![]).unwrap();
    assert_eq!(low_extended.to_string(), "00000800#");
    let long = new_jframe(0x1FFF_FFFF, vec![0xFF, 0x00, 0x1B]).unwrap();
    assert_eq!(long.to_string(), "1FFFFFFF#FF001B");
    let widest = new_jframe(0xFFFF_FFFF, vec![0; 8]).unwrap();
    assert_eq!(widest.to_string(), "FFFFFFFF#0000000000000000");
}

#[test]
fn different_frames_print_differently() {
    let frames = vec![
        new_jframe(0x12, vec![0x3]).unwrap(),
        new_jframe(0x1, vec![0x23]).unwrap(),
        new_jframe(0x123, vec![]).unwrap(),
        new_jframe(0x800, vec![]).unwrap(),
        new_jframe(0x800, vec![0]).unwrap(),
    ];
    for (i, a) in frames.iter().enumerate() {
        for (j, b) in frames.iter().enumerate() {
            assert_eq!(a.to_string() == b.to_string(), i == j);
        }
    }
}

#[test]
fn clone_keeps_id_and_data() {
    let frame = new_jframe(0x210, vec![0xCC, 0xDD]).unwrap();
    let copy = frame.clone();
    assert!(copy == frame);
    assert_eq!(copy.get_id(), 0x210);
    assert_eq!(copy.get_data(), vec![0xCC, 0xDD]);
}

#[test]
fn error_messages() {
    assert_eq!(JcanError::BusAlreadyOpen.message(), "Bus already open");
    assert_eq!(JcanError::BusOpenFailed.message(), "Error opening bus");
    assert_eq!(JcanError::CloseNotOpen.message(), "Cannot close, bus has not been opened");
    assert_eq!(JcanError::ReceiveNotOpen.message(), "Cannot receive, bus has not been opened");
    assert_eq!(JcanError::SendNotOpen.message(), "Cannot send, bus has not been opened");
    assert_eq!(JcanError::FilterWhileOpen.message(), "Set frame ID filter before opening bus");
    assert_eq!(JcanError::BufferNotOpen.message(), "Bus not open");
    assert_eq!(JcanError::DataTooLong(123).message(), "Data length 123 > 8 bytes");
}

#[test]
fn frames_equal_by_id_and_data() {
    let a = new_jframe(0x123, vec![1, 2]).unwrap();
    assert!(a == new_jframe(0x123, vec![1, 2]).unwrap());
    assert!(a != new_jframe(0x124, vec![1, 2]).unwrap());
    assert!(a != new_jframe(0x123, vec![1, 3]).unwrap());
    assert!(a != new_jframe(0x123, vec![1]).unwrap());
    assert!(a == a.clone());
}

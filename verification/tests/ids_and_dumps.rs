use jcan::dump::frame_to_string;
use jcan::frame::new_jframe;
use jcan::id::{can_id_of, get_raw_id, CanId};
use jcan::jorza_bus::{new_jorzaframe, JorzaFrame};
use jcan::jorza_socket::{JorzaError, JorzaFrame as SocketFrame};

#[test]
fn standard_up_to_0x7ff() {
    assert_eq!(can_id_of(0), CanId::Standard(0));
    assert_eq!(can_id_of(0x7FF), CanId::Standard(0x7FF));
    assert_eq!(can_id_of(0x800), CanId::Extended(0x800));
    assert_eq!(can_id_of(0x1FFF_FFFF), CanId::Extended(0x1FFF_FFFF));
}

#[test]
fn raw_id_round_trip() {
    for raw in [0u32, 0x123, 0x7FF, 0x800, 0x12345, 0x1FFF_FFFF] {
        assert_eq!(get_raw_id(&can_id_of(raw)), raw);
    }
    assert_eq!(get_raw_id(&CanId::Extended(5)), 5);
}

#[test]
fn frame_round_trip_through_wire_id() {
    let frame = new_jframe(0x18DA_F110, vec![1, 2, 3]).unwrap();
    let wire = can_id_of(frame.get_id());
    let back = new_jframe(get_raw_id(&wire), frame.get_data()).unwrap();
    assert_eq!(back.get_id(), frame.get_id());
    assert_eq!(back.get_data(), frame.get_data());
}

#[test]
fn dump_line() {
    assert_eq!(frame_to_string(&CanId::Standard(0x123), 2, &[0x0a, 0xbb]), "00000123  [2]  0a bb");
    assert_eq!(frame_to_string(&CanId::Extended(0x1FFF_FFFF), 0, &[]), "1FFFFFFF  [0] ");
    assert_eq!(frame_to_string(&CanId::Standard(0x1f1), 4, &[1, 2, 3, 4]), "000001F1  [4]  01 02 03 04");
}

#[test]
fn jorza_frame_description() {
    let frame = new_jorzaframe(0x123, vec![0xA, 0x1B]).unwrap();
    assert_eq!(frame.id, 0x123);
    assert_eq!(frame.data, vec![0xA, 0x1B]);
    assert_eq!(frame.to_string(), "ID: 0x123 Data: A 1B ");
    let empty = JorzaFrame { id: 0, data: vec![] };
    assert_eq!(empty.to_string(), "ID: 0x0 Data: ");
}

#[test]
fn jorza_frame_takes_any_length() {
    let frame = new_jorzaframe(0xFFFF_FFFF, vec![0; 20]).unwrap();
    assert_eq!(frame.data.len(), 20);
    assert_eq!(frame.id, 0xFFFF_FFFF);
}

#[test]
fn socket_frame_and_error_text() {
    let frame = SocketFrame { id: 291, data: vec![1, 2], dlc: 2 };
    assert_eq!(frame.to_string(), "JorzaFrame { id: 291, data: [1, 2], dlc: 2 }");
    let empty = SocketFrame { id: 0, data: vec![], dlc: 0 };
    assert_eq!(empty.to_string(), "JorzaFrame { id: 0, data: [], dlc: 0 }");
    let one = SocketFrame { id: 4000000000, data: vec![255], dlc: 1 };
    assert_eq!(one.to_string(), "JorzaFrame { id: 4000000000, data: [255], dlc: 1 }");
    let err = JorzaError { message: "No such device".to_string() };
    assert_eq!(err.to_string(), "JorzaError { message: No such device }");
}


#[test]
fn ids_between_11_and_16_bits_are_extended() {
    assert_eq!(can_id_of(0x800), CanId::Extended(0x800));
    assert_eq!(can_id_of(0xFFFF), CanId::Extended(0xFFFF));
    assert_eq!(can_id_of(0x10000), CanId::Extended(0x10000));
}

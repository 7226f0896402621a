use jcan::buffer::ReceiveBuffer;
use jcan::bus::{new_jbus, recv_error_step, send_error_step, JBus, WorkerStep};
use jcan::error::JcanError;
use jcan::filter::{filters_for_ids, IdFilter};
use jcan::frame::{new_jframe, JFrame};
use jcan::id::{can_id_of, get_raw_id};

fn passes(setting: &Option<Vec<IdFilter>>, can_id: u32) -> bool {
    match setting {
        None => true,
        Some(filters) => filters.iter().any(|f| can_id & f.mask == f.id & f.mask),
    }
}

/// Opens `bus` as the worker does when its socket opens; the filter setting it installs.
fn open_bus(bus: &mut JBus) -> Result<Option<Vec<IdFilter>>, JcanError> {
    let setting = bus.open()?;
    assert_eq!(bus.open_wait_step(false, false), None);
    bus.open_wait_step(true, false).unwrap()?;
    Ok(setting)
}

/// A frame as the interface hands it back after it went out under its identifier.
fn through_wire(frame: &JFrame) -> JFrame {
    let wire = can_id_of(frame.get_id());
    new_jframe(get_raw_id(&wire), frame.get_data()).unwrap()
}

#[test]
fn test_bus_open_close() {
    let mut bus = new_jbus().unwrap();
    assert!(open_bus(&mut bus).is_ok());
    assert!(bus.close().is_ok());
}

#[test]
fn test_send() {
    let mut bus = new_jbus().unwrap();
    assert!(open_bus(&mut bus).is_ok());
    let frame = new_jframe(0x123, (&[0xA, 0xB, 0xC, 0xD]).to_vec()).expect("Failed to build Frame");
    let _ = bus.send();
    let _ = bus.after_send(true);
    assert_eq!(frame.to_string(), "123#0A0B0C0D");
    assert!(bus.close().is_ok());
}

#[test]
fn test_send_receive() {
    let mut bus = new_jbus().unwrap();
    assert!(open_bus(&mut bus).is_ok());
    let frame = new_jframe(0x123, (&[0xA, 0xA]).to_vec()).expect("Failed to build Frame");
    let mut buffer = ReceiveBuffer::new(256);
    assert!(buffer.offer(through_wire(&frame)));
    assert!(bus.receive().is_ok());
    let rx = buffer.take().expect("Failed to receive Frame");
    println!("{}", rx.to_string());
    assert!(rx == frame);
    assert!(bus.close().is_ok());
}

#[test]
fn test_id_filter() {
    let mut bus = new_jbus().unwrap();
    bus.set_id_filter((&[0x210]).to_vec()).expect("Failed to set Frame ID filter");
    let installed = open_bus(&mut bus).expect("Failed to open Bus");
    let frame1 = new_jframe(0x123, (&[0xAA, 0xBB]).to_vec()).expect("Failed to build Frame");
    let frame2 = new_jframe(0x210, (&[0xCC, 0xDD]).to_vec()).expect("Failed to build Frame");
    let mut buffer = ReceiveBuffer::new(256);
    for frame in [&frame1, &frame2] {
        if passes(&installed, frame.get_id()) {
            buffer.offer(through_wire(frame));
        }
    }
    let rx = buffer.take().expect("Failed to receive Frame");
    println!("{}", rx.to_string());
    assert!(rx == frame2);
    assert!(bus.close().is_ok());
}

#[test]
fn test_receive_buffer() {
    let n = 30u16;
    let mut bus = new_jbus().unwrap();
    open_bus(&mut bus).expect("Failed to open Bus");
    let mut buffer = ReceiveBuffer::new(256);
    let frame1 = new_jframe(0x123, (&[0xAA, 0xBB]).to_vec()).expect("Failed to build Frame");
    for _ in 0..n {
        buffer.offer(through_wire(&frame1));
    }
    bus.receive_from_thread_buffer().expect("Failed to receive from thread buffer");
    let rxs = buffer.drain();
    println!("Received {} frames", rxs.len());
    assert!(rxs.len() == n as usize);
    assert!(bus.close().is_ok());
}

#[test]
fn test_receive_buffer_alternate() {
    let n = 30u16;
    let mut bus = new_jbus().unwrap();
    open_bus(&mut bus).expect("Failed to open Bus");
    let mut buffer = ReceiveBuffer::new(256);
    let frame1 = new_jframe(0x123, (&[0xAA, 0xBB]).to_vec()).expect("Failed to build Frame");
    for _ in 0..n {
        buffer.offer(through_wire(&frame1));
    }
    println!("Sent {} frames", n);
    let mut rxs: Vec<JFrame> = Vec::new();
    for _ in 0..n {
        match buffer.take() {
            Some(r) => rxs.push(r),
            None => break,
        }
    }
    println!("Received {} frames", rxs.len());
    assert!(rxs.len() == n as usize);
    assert!(bus.close().is_ok());
}

#[test]
fn test_receive_buffer_overflow() {
    let n = 100u16;
    let b = 50u16;
    let mut bus = new_jbus().unwrap();
    open_bus(&mut bus).expect("Failed to open Bus");
    let mut buffer = ReceiveBuffer::new(b.into());
    let frame1 = new_jframe(0x123, (&[0xAA, 0xBB]).to_vec()).expect("Failed to build Frame");
    for _ in 0..n {
        buffer.offer(through_wire(&frame1));
    }
    println!("Sent {} frames", n);
    let mut rxs: Vec<JFrame> = Vec::new();
    for _ in 0..n {
        match buffer.take() {
            Some(r) => rxs.push(r),
            None => break,
        }
    }
    println!("Received {} frames", rxs.len());
    assert!(rxs.len() == b as usize);
    assert!(bus.close().is_ok());
}

#[test]
fn buffer_keeps_earliest_in_order() {
    let mut buffer = ReceiveBuffer::new(2);
    assert!(buffer.offer(1u8));
    assert!(buffer.offer(2u8));
    assert!(!buffer.offer(3u8));
    assert_eq!(buffer.len(), 2);
    assert_eq!(buffer.take(), Some(1));
    assert!(buffer.offer(4u8));
    assert_eq!(buffer.drain(), vec![2, 4]);
    assert_eq!(buffer.take(), None);
    let mut none = ReceiveBuffer::new(0);
    assert!(!none.offer(1u8));
    assert_eq!(none.len(), 0);
}

#[test]
fn refusals_follow_open_state() {
    let mut bus = new_jbus().unwrap();
    assert!(!bus.is_open());
    assert_eq!(bus.close(), Err(JcanError::CloseNotOpen));
    assert_eq!(bus.receive(), Err(JcanError::ReceiveNotOpen));
    assert_eq!(bus.send(), Err(JcanError::SendNotOpen));
    assert_eq!(bus.receive_from_thread_buffer(), Err(JcanError::BufferNotOpen));
    open_bus(&mut bus).unwrap();
    assert!(bus.is_open());
    assert!(matches!(bus.open(), Err(JcanError::BusAlreadyOpen)));
    assert_eq!(bus.receive(), Ok(()));
    assert_eq!(bus.send(), Ok(()));
    assert_eq!(bus.receive_from_thread_buffer(), Ok(()));
    assert_eq!(bus.set_id_filter(vec![1, 2]), Err(JcanError::FilterWhileOpen));
    assert_eq!(bus.set_id_filter_mask(1, 2), Err(JcanError::FilterWhileOpen));
    assert!(bus.filters().is_none());
    assert_eq!(bus.close(), Ok(()));
    assert!(!bus.is_open());
    assert_eq!(bus.close(), Err(JcanError::CloseNotOpen));
}

#[test]
fn failed_open_leaves_bus_closed_and_reopenable() {
    let mut bus = new_jbus().unwrap();
    assert!(bus.open().is_ok());
    assert_eq!(bus.open_wait_step(false, true), Some(Err(JcanError::BusOpenFailed)));
    assert!(!bus.is_open());
    assert!(bus.open().is_ok());
    assert_eq!(bus.open_wait_step(true, true), Some(Ok(())));
    assert!(bus.is_open());
}

#[test]
fn filters_set_before_opening() {
    let mut bus = new_jbus().unwrap();
    assert!(bus.set_id_filter(vec![0x100, 0x200]).is_ok());
    assert_eq!(
        bus.filters().clone(),
        Some(vec![IdFilter { id: 0x100, mask: 0x7FF }, IdFilter { id: 0x200, mask: 0x7FF }])
    );
    assert!(bus.set_id_filter_mask(0x1A0, 0xFF0).is_ok());
    let installed = open_bus(&mut bus).unwrap();
    assert_eq!(installed, Some(vec![IdFilter { id: 0x1A0, mask: 0xFF0 }]));
    assert!(passes(&installed, 0x1A5));
    assert!(passes(&installed, 0x1AD));
    assert!(!passes(&installed, 0x1B0));
}

#[test]
fn empty_id_list_receives_nothing() {
    assert!(filters_for_ids(&vec![]).is_empty());
    let mut bus = new_jbus().unwrap();
    bus.set_id_filter(vec![]).unwrap();
    let installed = bus.open().unwrap();
    assert_eq!(installed, Some(vec![]));
    for id in [0u32, 0x123, 0x7FF, 0x800, 0x1FFF_FFFF] {
        assert!(!passes(&installed, id));
    }
}

#[test]
fn new_bus_receives_everything() {
    let bus = new_jbus().unwrap();
    let installed = bus.open().unwrap();
    assert_eq!(installed, None);
    for id in [0u32, 0x123, 0x7FF, 0x800, 0x1FFF_FFFF] {
        assert!(passes(&installed, id));
    }
}

#[test]
fn send_outcome_closes_bus_when_worker_gone() {
    let mut bus = new_jbus().unwrap();
    open_bus(&mut bus).unwrap();
    assert_eq!(bus.after_send(true), Ok(()));
    assert!(bus.is_open());
    assert_eq!(bus.after_send(false), Ok(()));
    assert!(!bus.is_open());
    assert_eq!(bus.after_send(false), Err(JcanError::CloseNotOpen));
    assert_eq!(bus.after_send(true), Ok(()));
}

#[test]
fn worker_error_steps() {
    assert_eq!(recv_error_step(true, Some(11)), WorkerStep::Continue);
    assert_eq!(recv_error_step(true, Some(19)), WorkerStep::Continue);
    assert_eq!(recv_error_step(false, Some(19)), WorkerStep::Stop);
    assert_eq!(recv_error_step(false, Some(6)), WorkerStep::Stop);
    assert_eq!(recv_error_step(false, Some(100)), WorkerStep::Stop);
    assert_eq!(recv_error_step(false, Some(105)), WorkerStep::Continue);
    assert_eq!(recv_error_step(false, None), WorkerStep::Continue);
    assert_eq!(send_error_step(Some(6)), WorkerStep::Stop);
    assert_eq!(send_error_step(Some(19)), WorkerStep::Stop);
    assert_eq!(send_error_step(Some(100)), WorkerStep::Stop);
    assert_eq!(send_error_step(Some(105)), WorkerStep::Continue);
    assert_eq!(send_error_step(None), WorkerStep::Continue);
}

#[test]
fn mask_filter_accepts_only_0x1a_ids() {
    let mut bus = new_jbus().unwrap();
    bus.set_id_filter_mask(0x1A0, 0xFF0).unwrap();
    let installed = bus.open().unwrap();
    for id in 0u32..=0x7FF {
        assert_eq!(passes(&installed, id), (0x1A0..=0x1AF).contains(&id), "id {:#X}", id);
    }
}

#[test]
fn id_list_accepts_exactly_the_list() {
    let mut bus = new_jbus().unwrap();
    let allowed = vec![0x1A0, 0x1A1, 0x1A2, 0x1A3];
    bus.set_id_filter(allowed.clone()).unwrap();
    let installed = bus.open().unwrap();
    for id in 0u32..=0x7FF {
        assert_eq!(passes(&installed, id), allowed.contains(&id), "id {:#X}", id);
    }
}

use stick::{is_joystick_name, parse_notice, Change, Next, NoticeStep, Port, Read, SlotError, CONTROLLER_MAX};

fn record(ev_type: i16, ev_code: i16, ev_value: i32) -> Vec<u8> {
    let mut b = vec![0u8; 16];
    b.extend_from_slice(&ev_type.to_le_bytes());
    b.extend_from_slice(&ev_code.to_le_bytes());
    b.extend_from_slice(&ev_value.to_le_bytes());
    b
}

fn notice(mask: u32, name: &str) -> Vec<u8> {
    let mut b = Vec::new();
    b.extend_from_slice(&1i32.to_le_bytes());
    b.extend_from_slice(&mask.to_le_bytes());
    b.extend_from_slice(&0u32.to_le_bytes());
    b.extend_from_slice(&32u32.to_le_bytes());
    b.extend_from_slice(name.as_bytes());
    b.resize(16 + 32, 0);
    b
}

#[test]
fn new_port_is_empty() {
    let port = Port::new();
    assert_eq!(port.count(), 0);
    for i in 0..CONTROLLER_MAX as u8 {
        assert!(port.get(i).is_none());
    }
    assert!(port.get(200).is_none());
    assert_eq!(port.name(0), "Unknown");
}

#[test]
fn removal_clears_presence_and_count() {
    let mut port = Port::new();
    assert_eq!(port.connect(b"pad-event-joystick", 10, 0, -100, 100), Some(0));
    assert_eq!(port.connect(b"pad-event-joystick", 11, 0, -100, 100), Some(1));
    assert_eq!(port.count(), 2);
    assert!(port.get(1).is_some());
    assert_eq!(port.disconnect(11), Some(1));
    assert_eq!(port.count(), 1);
    assert!(port.get(1).is_none());
    assert_eq!(port.disconnect(11), None);
    assert_eq!(port.count(), 1);
}

#[test]
fn vacated_slot_is_reused_first() {
    let mut port = Port::new();
    for h in 0..3u32 {
        assert_eq!(port.connect(b"pad-event-joystick", h, 0, -100, 100), Some(h as usize));
    }
    assert!(port.remove(1));
    assert!(!port.remove(1));
    assert!(!port.remove(CONTROLLER_MAX));
    assert_eq!(port.first_vacant(), Some(1));
    assert_eq!(port.connect(b"pad-event-joystick", 9, 0, -100, 100), Some(1));
    assert_eq!(port.slot_of_handle(9), Some(1));
    assert_eq!(port.get(1).unwrap().handle(), 9);
    assert_eq!(port.count(), 3);
}

#[test]
fn full_port_refuses_more() {
    let mut port = Port::new();
    for h in 0..CONTROLLER_MAX as u32 {
        assert!(port.connect(b"pad-event-joystick", h, 0, -100, 100).is_some());
    }
    assert_eq!(port.count() as usize, CONTROLLER_MAX);
    assert_eq!(port.connect(b"pad-event-joystick", 100, 0, -100, 100), None);
    assert_eq!(port.first_vacant(), None);
}

#[test]
fn swap_twice_restores_slots() {
    let mut port = Port::new();
    assert_eq!(port.add_stick(0, 1, 0, -100, 100), Ok(()));
    assert_eq!(port.add_stick(3, 2, 0x0E6F_0501, -50, 50), Ok(()));
    assert!(port.input(0, &record(3, 0, 100)));
    assert_eq!(port.swap(0, 3), Ok(()));
    assert_eq!(port.get(3).unwrap().joy(), Some((127, 0)));
    assert_eq!(port.get(0).unwrap().hardware_id(), 0x0E6F_0501);
    assert_eq!(port.swap(0, 3), Ok(()));
    assert_eq!(port.get(0).unwrap().joy(), Some((127, 0)));
    assert_eq!(port.get(0).unwrap().handle(), 1);
    assert_eq!(port.get(3).unwrap().handle(), 2);
    assert_eq!(port.count(), 2);
}

#[test]
fn swap_out_of_range_fails() {
    let mut port = Port::new();
    assert_eq!(port.add_stick(0, 1, 0, -100, 100), Ok(()));
    assert_eq!(port.swap(0, 64), Err(SlotError::OutOfRange));
    assert_eq!(port.swap(64, 0), Err(SlotError::OutOfRange));
    assert!(port.get(0).is_some());
}

#[test]
fn input_on_vacant_slot_is_refused() {
    let mut port = Port::new();
    assert!(!port.input(0, &record(3, 0, 100)));
    assert!(!port.input(CONTROLLER_MAX, &record(3, 0, 100)));
}

#[test]
fn joystick_names() {
    assert!(is_joystick_name(b"usb-Logitech_Gamepad-event-joystick"));
    assert!(is_joystick_name(b"-event-joystick"));
    assert!(!is_joystick_name(b"usb-Logitech_Gamepad-joystick"));
    assert!(!is_joystick_name(b"event-joystick"));
    assert!(!is_joystick_name(b""));
}

#[test]
fn notices() {
    let n = parse_notice(&notice(0x100, "usb-pad-event-joystick")).unwrap();
    assert_eq!(n.change, Change::Added);
    assert_eq!(n.name, b"usb-pad-event-joystick".to_vec());
    let n = parse_notice(&notice(0x200, "usb-pad-event-joystick")).unwrap();
    assert_eq!(n.change, Change::Removed);
    assert!(parse_notice(&notice(0x100, "usb-pad-joystick")).is_none());
    assert!(parse_notice(&notice(0x400, "usb-pad-event-joystick")).is_none());
    assert!(parse_notice(&[0u8; 10]).is_none());
}

#[test]
fn add_stick_out_of_range_fails() {
    let mut port = Port::new();
    assert_eq!(port.add_stick(CONTROLLER_MAX, 1, 0, -100, 100), Err(SlotError::OutOfRange));
    assert_eq!(port.count(), 0);
}

#[test]
fn removal_notice_unplugs_its_slot() {
    let mut port = Port::new();
    assert_eq!(port.connect(b"a-event-joystick", 10, 0, -100, 100), Some(0));
    assert_eq!(port.connect(b"b-event-joystick", 11, 0, -100, 100), Some(1));
    assert_eq!(port.slot_of_name(b"b-event-joystick"), Some(1));
    match port.on_notice(&notice(0x200, "b-event-joystick")) {
        NoticeStep::Closed { handle, slot } => assert_eq!((handle, slot), (11, 1)),
        other => panic!("unexpected {:?}", other),
    }
    assert!(port.get(1).is_none());
    assert!(port.get(0).is_some());
    assert_eq!(port.count(), 1);
    assert!(matches!(port.on_notice(&notice(0x200, "b-event-joystick")), NoticeStep::Ignore));
    assert_eq!(port.count(), 1);
}

#[test]
fn creation_notice_asks_to_open() {
    let mut port = Port::new();
    match port.on_notice(&notice(0x100, "c-event-joystick")) {
        NoticeStep::Open(name) => assert_eq!(name, b"c-event-joystick".to_vec()),
        other => panic!("unexpected {:?}", other),
    }
    assert!(matches!(port.on_notice(&notice(0x100, "c-mouse")), NoticeStep::Ignore));
    assert_eq!(port.count(), 0);
}

#[test]
fn drain_steps() {
    let mut port = Port::new();
    assert_eq!(port.connect(b"a-event-joystick", 10, 0, -100, 100), Some(0));
    assert_eq!(port.drain_step(0, &Read::Record(record(3, 0, 100)), false), Next::ReadAgain);
    assert_eq!(port.drain_step(0, &Read::Record(record(0, 0, 0)), true), Next::Skipped);
    assert_eq!(port.drain_step(0, &Read::Record(Vec::new()), true), Next::Report(0));
    assert_eq!(port.drain_step(0, &Read::Record(Vec::new()), false), Next::NextHandle);
    assert_eq!(port.get(0).unwrap().joy(), Some((127, 0)));
    assert_eq!(port.drain_step(0, &Read::Failed, true), Next::NextHandle);
    assert!(port.get(0).is_none());
    assert_eq!(port.count(), 0);
}

#[test]
fn swap_moves_node_names() {
    let mut port = Port::new();
    assert_eq!(port.connect(b"a-event-joystick", 10, 0, -100, 100), Some(0));
    assert_eq!(port.connect(b"b-event-joystick", 11, 0, -100, 100), Some(1));
    assert_eq!(port.swap(0, 1), Ok(()));
    assert_eq!(port.slot_of_name(b"a-event-joystick"), Some(1));
    assert_eq!(port.slot_of_name(b"b-event-joystick"), Some(0));
}

use stick::{
    deadzone, joystick_poll_event, transform, transform2, Btn, Device, Event, Port, EVENT_SIZE,
};

fn record(ev_type: i16, ev_code: i16, ev_value: i32) -> Vec<u8> {
    let mut b = vec![0u8; 16];
    b.extend_from_slice(&ev_type.to_le_bytes());
    b.extend_from_slice(&ev_code.to_le_bytes());
    b.extend_from_slice(&ev_value.to_le_bytes());
    b
}

fn port_with(hardware_id: u32, min: i32, max: i32) -> Port {
    let mut port = Port::new();
    assert_eq!(port.add_stick(0, 7, hardware_id, min, max), Ok(()));
    port
}

fn stick_value(level: i32) -> f32 {
    level as f32 / 127.0
}

#[test]
fn deadzone_values() {
    assert_eq!(deadzone(-100, 100, 100), (75, 75));
    assert_eq!(deadzone(-100, 100, -100), (-75, 75));
    assert_eq!(deadzone(-100, 100, 0), (0, 75));
}

#[test]
fn transform_values() {
    assert_eq!(transform(-100, 100, 100), 127);
    assert_eq!(transform(-100, 100, -100), -127);
    assert_eq!(transform(-100, 100, 0), 0);
    assert_eq!(transform(-128, 127, 127), 127);
    assert_eq!(transform(-128, 127, 0), 0);
    assert_eq!(transform(-128, 127, -128), -127);
    assert_eq!(transform(-100, 100, 50), 42);
    assert_eq!(transform(-100, 100, -50), -42);
}

#[test]
fn midpoint_reads_zero() {
    assert_eq!(transform(-100, 100, 0), 0);
    assert_eq!(transform(0, 255, 127), 0);
    assert_eq!(transform(10, 20, 15), 0);
}

#[test]
fn extremes_read_full_scale_on_skewed_range() {
    assert_eq!(transform(-50, 300, -50), -127);
    assert_eq!(transform(-50, 300, 300), 127);
    assert_eq!(transform(-50, 300, 1000), 127);
    assert_eq!(transform(-50, 300, -1000), -127);
    assert_eq!(transform(i32::MIN, i32::MAX, i32::MAX), 127);
    assert_eq!(transform(i32::MIN, i32::MAX, i32::MIN), -127);
}

#[test]
fn dead_band_reads_zero() {
    // half range 100, dead band 25 each side of the centre
    for raw in -25..=25 {
        assert_eq!(transform(-100, 100, raw), 0);
    }
    assert_eq!(deadzone(-100, 100, 26).0, 1);
    assert_eq!(deadzone(-100, 100, -26).0, -1);
}

#[test]
fn stick_is_monotonic() {
    let mut last = transform(-1000, 1000, -1200);
    for raw in -1200..=1200 {
        let now = transform(-1000, 1000, raw);
        assert!(now >= last);
        assert!((-127..=127).contains(&now));
        last = now;
    }
}

#[test]
fn trigger_range_and_threshold() {
    assert_eq!(transform2(0, 127, 0), 0);
    assert_eq!(transform2(0, 127, 127), 255);
    assert_eq!(transform2(0, 127, -5), 0);
    assert_eq!(transform2(0, 127, 500), 255);
    assert_eq!(transform2(0, 127, 126), 252);
    assert_eq!(transform2(0, 127, 125), 250);
    assert_eq!(transform2(-128, 127, 124), 252);
    assert_eq!(transform2(-128, 127, 125), 253);
    assert_eq!(transform2(32, 95, 32), 0);
    assert_eq!(transform2(32, 95, 95), 255);
    let mut last = 0;
    for raw in -10..=140 {
        let now = transform2(0, 127, raw);
        assert!(now >= last && now <= 255);
        last = now;
    }
}

#[test]
fn trigger_button_toggles_past_threshold() {
    let mut port = port_with(0, -100, 100);
    assert!(port.input(0, &record(3, 2, 127)));
    let d = port.get(0).unwrap();
    assert_eq!(d.lrt(), Some((255, 0)));
    assert!(255.0f32 / 255.0 > 0.99);
    assert_eq!(d.btn(Btn::L), Some(true));
    assert!(port.input(0, &record(3, 2, 126)));
    let d = port.get(0).unwrap();
    assert_eq!(d.lrt(), Some((252, 0)));
    assert!(252.0f32 / 255.0 <= 0.99);
    assert_eq!(d.btn(Btn::L), Some(false));
    assert!(port.input(0, &record(3, 5, 127)));
    let d = port.get(0).unwrap();
    assert_eq!(d.lrt(), Some((252, 255)));
    assert_eq!(d.btn(Btn::R), Some(true));
}

#[test]
fn primary_x_at_max_is_one() {
    let mut port = port_with(0, -100, 100);
    assert!(port.input(0, &record(3, 0, 100)));
    let (x, y) = port.get(0).unwrap().joy().unwrap();
    assert_eq!(stick_value(x), 1.0);
    assert_eq!(stick_value(y), 0.0);
}

#[test]
fn primary_x_at_centre_is_zero() {
    let mut port = port_with(0, -100, 100);
    assert!(port.input(0, &record(3, 0, 60)));
    assert!(port.input(0, &record(3, 0, 0)));
    let (x, _) = port.get(0).unwrap().joy().unwrap();
    assert_eq!(stick_value(x), 0.0);
}

#[test]
fn button_a_press_and_release() {
    let mut port = port_with(0, -100, 100);
    assert!(port.input(0, &record(1, 0x121, 1)));
    assert_eq!(port.get(0).unwrap().btn(Btn::A), Some(true));
    assert_eq!(port.get(0).unwrap().btn(Btn::B), Some(false));
    assert!(port.input(0, &record(1, 0x121, 0)));
    assert_eq!(port.get(0).unwrap().btn(Btn::A), Some(false));
}

#[test]
fn same_record_twice_is_same_as_once() {
    let records = [
        record(1, 0x122, 1),
        record(3, 1, -80),
        record(3, 16, -1),
        record(3, 17, 1),
        record(3, 5, 127),
        record(3, 3, 44),
    ];
    for r in records.iter() {
        let mut once = Device::plugged(1, 0, -100, 100);
        let mut twice = Device::plugged(1, 0, -100, 100);
        assert!(joystick_poll_event(r, &mut once));
        assert!(joystick_poll_event(r, &mut twice));
        assert!(joystick_poll_event(r, &mut twice));
        assert_eq!(format!("{:?}", once), format!("{:?}", twice));
    }
}

#[test]
fn dpad_directions_exclude_each_other() {
    let mut d = Device::plugged(1, 0, -100, 100);
    assert!(joystick_poll_event(&record(3, 16, -1), &mut d));
    assert_eq!(d.btn(Btn::Left), Some(true));
    assert_eq!(d.btn(Btn::Right), Some(false));
    assert!(joystick_poll_event(&record(3, 16, 1), &mut d));
    assert_eq!(d.btn(Btn::Left), Some(false));
    assert_eq!(d.btn(Btn::Right), Some(true));
    assert!(joystick_poll_event(&record(3, 16, 0), &mut d));
    assert_eq!(d.btn(Btn::Right), Some(false));
    assert!(joystick_poll_event(&record(3, 17, -1), &mut d));
    assert_eq!(d.btn(Btn::Up), Some(true));
    assert_eq!(d.btn(Btn::Down), Some(false));
}

#[test]
fn short_record_changes_nothing() {
    let mut d = Device::plugged(1, 0, -100, 100);
    let mut r = record(3, 0, 100);
    r.pop();
    assert!(!joystick_poll_event(&r, &mut d));
    assert_eq!(d.joy(), Some((0, 0)));
    assert_eq!(Event::from_bytes(&r), None);
    assert_eq!(EVENT_SIZE, 24);
}

#[test]
fn event_bytes_decode() {
    let r = record(3, -2, -123456);
    assert_eq!(
        Event::from_bytes(&r),
        Some(Event { ev_type: 3, ev_code: -2, ev_value: -123456 })
    );
}

#[test]
fn unknown_and_ignored_records() {
    let mut d = Device::plugged(1, 0, -100, 100);
    assert!(!d.apply_event(Event { ev_type: 1, ev_code: 0x120 + 10, ev_value: 1 }));
    assert!(!d.apply_event(Event { ev_type: 3, ev_code: 40, ev_value: 100 }));
    assert!(!d.apply_event(Event { ev_type: 0, ev_code: 0, ev_value: 0 }));
    assert!(d.apply_event(Event { ev_type: 1, ev_code: 0x120 + 29, ev_value: 1 }));
    assert_eq!(d.btn(Btn::D), Some(true));
    assert_eq!(d.joy(), Some((0, 0)));
}

#[test]
fn uncalibrated_stick_is_left_alone() {
    let mut d = Device::plugged(1, 0, 5, 5);
    assert!(!d.apply_event(Event { ev_type: 3, ev_code: 0, ev_value: 100 }));
    assert_eq!(d.joy(), Some((0, 0)));
}

#[test]
fn whole_unrecognised_record_returns_false() {
    let mut d = Device::plugged(1, 0, -100, 100);
    assert!(joystick_poll_event(&record(3, 0, 100), &mut d));
    let before = format!("{:?}", d);
    assert!(!joystick_poll_event(&record(0, 0, 0), &mut d));
    assert!(!joystick_poll_event(&record(4, 4, 1), &mut d));
    assert!(!joystick_poll_event(&record(1, 0x120 + 18, 1), &mut d));
    assert!(!joystick_poll_event(&record(3, 40, -100), &mut d));
    assert_eq!(format!("{:?}", d), before);

    let mut port = port_with(0, -100, 100);
    assert!(port.input(0, &record(1, 0x121, 1)));
    assert!(!port.input(0, &record(0, 0, 0)));
    assert!(!port.input(0, &record(3, 40, 100)));
    assert_eq!(port.get(0).unwrap().btn(Btn::A), Some(true));
    assert_eq!(port.get(0).unwrap().joy(), Some((0, 0)));
}

#[test]
fn autorepeat_keeps_button_held() {
    let mut d = Device::plugged(1, 0, -100, 100);
    assert!(joystick_poll_event(&record(1, 0x121, 1), &mut d));
    assert!(joystick_poll_event(&record(1, 0x121, 2), &mut d));
    assert_eq!(d.btn(Btn::A), Some(true));
    assert!(joystick_poll_event(&record(1, 0x121, 0), &mut d));
    assert_eq!(d.btn(Btn::A), Some(false));
}

//! Device state and the event decoder.
use vstd::prelude::*;
use crate::event::{button_spec, map_button, Event, BTN_BASE, EV_ABS, EV_KEY};
use crate::quirk::{btn_bit, quirk_for, quirk_spec, Btn, Quirk};
use crate::transform::{stick_calibrated, stick_level, transform, transform2, trigger_level};

verus! {

/// Allow up to 64 physical joysticks.
pub const CONTROLLER_MAX: usize = 64;

/// Axis code of the main stick's X axis.
pub const ABS_X: i16 = 0;
/// Axis code of the main stick's Y axis.
pub const ABS_Y: i16 = 1;
/// Axis code of the horizontal direction pad.
pub const ABS_HAT_X: i16 = 16;
/// Axis code of the vertical direction pad.
pub const ABS_HAT_Y: i16 = 17;
/// Axis code that some hardware sends as a duplicate; it is ignored.
pub const ABS_DUPLICATE: i16 = 40;

/// What a device slot holds, as plain values.
#[derive(Copy, Clone, Debug, PartialEq, Eq, Structural)]
pub struct DeviceView {
    pub handle: u32,
    pub hardware_id: u32,
    pub abs_min: i32,
    pub abs_max: i32,
    pub joyx: i32,
    pub joyy: i32,
    pub camx: i32,
    pub camy: i32,
    pub trgl: i32,
    pub trgr: i32,
    pub btns: u32,
    pub plug: bool,
}

impl DeviceView {
    /// Stick levels lie in `-127..=127`, trigger levels in `0..=255`.
    pub open spec fn wf(self) -> bool {
        &&& -127 <= self.joyx <= 127
        &&& -127 <= self.joyy <= 127
        &&& -127 <= self.camx <= 127
        &&& -127 <= self.camy <= 127
        &&& 0 <= self.trgl <= 255
        &&& 0 <= self.trgr <= 255
    }
}

/// The state of a joystick, gamepad or controller device.
#[derive(Copy, Clone, Debug)]
pub struct Device {
    native_handle: u32,
    hardware_id: u32,
    abs_min: i32,
    abs_max: i32,
    joyx: i32,
    joyy: i32,
    camx: i32,
    camy: i32,
    trgl: i32,
    trgr: i32,
    btns: u32,
    plug: bool,
}

impl View for Device {
    type V = DeviceView;

    closed spec fn view(&self) -> DeviceView {
        DeviceView {
            handle: self.native_handle,
            hardware_id: self.hardware_id,
            abs_min: self.abs_min,
            abs_max: self.abs_max,
            joyx: self.joyx,
            joyy: self.joyy,
            camx: self.camx,
            camy: self.camy,
            trgl: self.trgl,
            trgr: self.trgr,
            btns: self.btns,
            plug: self.plug,
        }
    }
}

/// A slot that never held a device: all state zero, nothing plugged in.
pub open spec fn vacant_device() -> DeviceView {
    DeviceView { plug: false, ..fresh_device(0, 0, 0, 0) }
}

/// A device as discovery leaves it: calibration set, live state zero.
pub open spec fn fresh_device(handle: u32, hardware_id: u32, abs_min: i32, abs_max: i32) -> DeviceView {
    DeviceView {
        handle,
        hardware_id,
        abs_min,
        abs_max,
        joyx: 0,
        joyy: 0,
        camx: 0,
        camy: 0,
        trgl: 0,
        trgr: 0,
        btns: 0,
        plug: true,
    }
}

/// The button mask with bit `n` set (`on`) or cleared.
pub open spec fn with_bit(btns: u32, n: u32, on: bool) -> u32 {
    if on {
        btns | (1u32 << n)
    } else {
        btns & !(1u32 << n)
    }
}

/// Whether bit `n` of a button mask is set.
pub open spec fn bit_of(btns: u32, n: u32) -> bool {
    (btns >> n) & 1u32 == 1u32
}

/// A trigger level past 0.99 of its full travel counts as a button press.
pub open spec fn trigger_pulled(level: int) -> bool {
    level * 100 > 255 * 99
}

/// The stick range of a calibration after the quirk's trim.
pub open spec fn stick_bounds(min: int, max: int, trim: bool) -> (int, int) {
    if trim {
        let pad = (max - min) / 4;
        (min + pad, max - pad)
    } else {
        (min, max)
    }
}

/// The stick level of a raw value on a device.
pub open spec fn device_stick(d: DeviceView, raw: int) -> int {
    let q = quirk_spec(d.hardware_id);
    let (lo, hi) = stick_bounds(d.abs_min as int, d.abs_max as int, q.trim);
    stick_level(lo, hi, raw)
}

/// The trigger level of a raw value on a device.
pub open spec fn device_trigger(d: DeviceView, raw: int) -> int {
    let q = quirk_spec(d.hardware_id);
    trigger_level(q.trigger_min as int, q.trigger_max as int, raw)
}

/// Whether the device's calibration leaves a usable stick range.
pub open spec fn device_calibrated(d: DeviceView) -> bool {
    stick_calibrated(d.abs_min as int, d.abs_max as int)
}

/// A direction pad axis: a negative value holds `neg` and releases `pos`, a
/// positive one the reverse, zero releases both.
pub open spec fn dpad(btns: u32, neg: Btn, pos: Btn, value: i32) -> u32 {
    with_bit(with_bit(btns, btn_bit(neg) as u32, value < 0), btn_bit(pos) as u32, value > 0)
}

/// Whether a decoded record is one that the decoder acts on.
pub open spec fn recognized(d: DeviceView, e: Event) -> bool {
    let q = quirk_spec(d.hardware_id);
    if e.ev_type == EV_KEY {
        button_spec(e.ev_code as int - BTN_BASE as int, q).is_some()
    } else if e.ev_type == EV_ABS {
        if e.ev_code == ABS_X || e.ev_code == ABS_Y {
            device_calibrated(d)
        } else if e.ev_code == ABS_HAT_X || e.ev_code == ABS_HAT_Y {
            true
        } else if e.ev_code == ABS_DUPLICATE {
            false
        } else if e.ev_code == q.cam_x || e.ev_code == q.cam_y {
            device_calibrated(d)
        } else {
            e.ev_code == q.lrt_l || e.ev_code == q.lrt_r
        }
    } else {
        false
    }
}

/// The device state after one decoded record.
pub open spec fn apply_spec(d: DeviceView, e: Event) -> DeviceView {
    let q = quirk_spec(d.hardware_id);
    let v = e.ev_value;
    if !recognized(d, e) {
        d
    } else if e.ev_type == EV_KEY {
        let b = button_spec(e.ev_code as int - BTN_BASE as int, q).unwrap();
        DeviceView { btns: with_bit(d.btns, btn_bit(b) as u32, v != 0), ..d }
    } else if e.ev_code == ABS_X {
        DeviceView { joyx: device_stick(d, v as int) as i32, ..d }
    } else if e.ev_code == ABS_Y {
        DeviceView { joyy: device_stick(d, v as int) as i32, ..d }
    } else if e.ev_code == ABS_HAT_X {
        DeviceView { btns: dpad(d.btns, Btn::Left, Btn::Right, v), ..d }
    } else if e.ev_code == ABS_HAT_Y {
        DeviceView { btns: dpad(d.btns, Btn::Up, Btn::Down, v), ..d }
    } else if e.ev_code == q.cam_x {
        DeviceView { camx: device_stick(d, v as int) as i32, ..d }
    } else if e.ev_code == q.cam_y {
        DeviceView { camy: device_stick(d, v as int) as i32, ..d }
    } else if e.ev_code == q.lrt_l {
        let t = device_trigger(d, v as int);
        DeviceView {
            trgl: t as i32,
            btns: with_bit(d.btns, btn_bit(Btn::L) as u32, trigger_pulled(t)),
            ..d
        }
    } else {
        let t = device_trigger(d, v as int);
        DeviceView {
            trgr: t as i32,
            btns: with_bit(d.btns, btn_bit(Btn::R) as u32, trigger_pulled(t)),
            ..d
        }
    }
}

proof fn lemma_trim_keeps_calibration(min: int, max: int)
    requires
        stick_calibrated(min, max),
    ensures
        stick_calibrated(stick_bounds(min, max, true).0, stick_bounds(min, max, true).1),
{
}

proof fn lemma_with_bit_idempotent(btns: u32, n: u32, on: bool)
    requires
        n < 32,
    ensures
        with_bit(with_bit(btns, n, on), n, on) == with_bit(btns, n, on),
{
    if on {
        assert((btns | (1u32 << n)) | (1u32 << n) == btns | (1u32 << n)) by (bit_vector);
    } else {
        assert((btns & !(1u32 << n)) & !(1u32 << n) == btns & !(1u32 << n)) by (bit_vector);
    }
}

proof fn lemma_with_bit_commutes(btns: u32, n: u32, x: bool, m: u32, y: bool)
    requires
        n < 32,
        m < 32,
        n != m,
    ensures
        with_bit(with_bit(btns, n, x), m, y) == with_bit(with_bit(btns, m, y), n, x),
{
    let p = 1u32 << n;
    let q = 1u32 << m;
    assert(p & q == 0) by (bit_vector)
        requires
            n < 32,
            m < 32,
            n != m,
            p == 1u32 << n,
            q == 1u32 << m,
    ;
    if x {
        if y {
            assert((btns | p) | q == (btns | q) | p) by (bit_vector);
        } else {
            assert((btns | p) & !q == (btns & !q) | p) by (bit_vector)
                requires
                    p & q == 0,
            ;
        }
    } else {
        if y {
            assert((btns & !p) | q == (btns | q) & !p) by (bit_vector)
                requires
                    p & q == 0,
            ;
        } else {
            assert((btns & !p) & !q == (btns & !q) & !p) by (bit_vector);
        }
    }
}

proof fn lemma_dpad_idempotent(btns: u32, neg: Btn, pos: Btn, value: i32)
    requires
        btn_bit(neg) != btn_bit(pos),
    ensures
        dpad(dpad(btns, neg, pos, value), neg, pos, value) == dpad(btns, neg, pos, value),
{
    let n = btn_bit(neg) as u32;
    let m = btn_bit(pos) as u32;
    let x = value < 0;
    let y = value > 0;
    let once = with_bit(with_bit(btns, n, x), m, y);
    lemma_with_bit_commutes(once, n, x, m, y);
    lemma_with_bit_idempotent(with_bit(btns, n, x), m, y);
    lemma_with_bit_commutes(btns, n, x, m, y);
    lemma_with_bit_idempotent(with_bit(btns, m, y), n, x);
}

/// Applying the same record twice leaves the same state as applying it once.
pub proof fn lemma_apply_idempotent(d: DeviceView, e: Event)
    ensures
        apply_spec(apply_spec(d, e), e) == apply_spec(d, e),
{
    let q = quirk_spec(d.hardware_id);
    let once = apply_spec(d, e);
    assert(recognized(once, e) == recognized(d, e));
    if recognized(d, e) {
        if e.ev_type == EV_KEY {
            let b = button_spec(e.ev_code as int - BTN_BASE as int, q).unwrap();
            lemma_with_bit_idempotent(d.btns, btn_bit(b) as u32, e.ev_value != 0);
        } else if e.ev_code == ABS_HAT_X {
            lemma_dpad_idempotent(d.btns, Btn::Left, Btn::Right, e.ev_value);
        } else if e.ev_code == ABS_HAT_Y {
            lemma_dpad_idempotent(d.btns, Btn::Up, Btn::Down, e.ev_value);
        } else if e.ev_code == ABS_X || e.ev_code == ABS_Y || e.ev_code == q.cam_x || e.ev_code
            == q.cam_y {
        } else {
            let t = device_trigger(d, e.ev_value as int);
            if e.ev_code == q.lrt_l {
                lemma_with_bit_idempotent(d.btns, btn_bit(Btn::L) as u32, trigger_pulled(t));
            } else {
                lemma_with_bit_idempotent(d.btns, btn_bit(Btn::R) as u32, trigger_pulled(t));
            }
        }
    }
}

proof fn lemma_bit_of_with_bit(btns: u32, n: u32, on: bool)
    requires
        n < 32,
    ensures
        bit_of(with_bit(btns, n, on), n) == on,
{
    if on {
        assert(((btns | (1u32 << n)) >> n) & 1u32 == 1u32) by (bit_vector)
            requires
                n < 32,
        ;
    } else {
        assert(((btns & !(1u32 << n)) >> n) & 1u32 == 0u32) by (bit_vector)
            requires
                n < 32,
        ;
    }
}

/// A trigger record sets the trigger's level, and holds its button exactly
/// when that level is past 0.99 of full travel (253 of 255 and up).
pub proof fn lemma_trigger_button(d: DeviceView, e: Event)
    requires
        e.ev_type == EV_ABS,
        e.ev_code == quirk_spec(d.hardware_id).lrt_l || e.ev_code == quirk_spec(d.hardware_id).lrt_r,
    ensures
        e.ev_code == quirk_spec(d.hardware_id).lrt_l ==> {
            &&& apply_spec(d, e).trgl == device_trigger(d, e.ev_value as int)
            &&& bit_of(apply_spec(d, e).btns, btn_bit(Btn::L) as u32) == (apply_spec(d, e).trgl >= 253)
        },
        e.ev_code == quirk_spec(d.hardware_id).lrt_r ==> {
            &&& apply_spec(d, e).trgr == device_trigger(d, e.ev_value as int)
            &&& bit_of(apply_spec(d, e).btns, btn_bit(Btn::R) as u32) == (apply_spec(d, e).trgr >= 253)
        },
{
    let t = device_trigger(d, e.ev_value as int);
    crate::transform::lemma_trigger_monotonic(
        quirk_spec(d.hardware_id).trigger_min as int,
        quirk_spec(d.hardware_id).trigger_max as int,
        e.ev_value as int,
        e.ev_value as int,
    );
    assert(trigger_pulled(t) == (t >= 253));
    if e.ev_code == quirk_spec(d.hardware_id).lrt_l {
        lemma_bit_of_with_bit(d.btns, btn_bit(Btn::L) as u32, trigger_pulled(t));
    } else {
        lemma_bit_of_with_bit(d.btns, btn_bit(Btn::R) as u32, trigger_pulled(t));
    }
}

/// Sets or clears one bit of a button mask.
fn edit(btns: u32, b: Btn, is: bool) -> (r: u32)
    ensures
        r == with_bit(btns, btn_bit(b) as u32, is),
{
    let n: u32 = b.bit() as u32;
    if is {
        btns | (1u32 << n)
    } else {
        btns & !(1u32 << n)
    }
}

/// The direction pad mask after a value on one of its axes.
fn edit_dpad(btns: u32, neg: Btn, pos: Btn, value: i32) -> (r: u32)
    ensures
        r == dpad(btns, neg, pos, value),
{
    let with_neg = edit(btns, neg, value < 0);
    edit(with_neg, pos, value > 0)
}

impl Device {
    /// A vacant slot: nothing plugged in, all state zero.
    pub fn vacant() -> (r: Device)
        ensures
            r@ == vacant_device(),
    {
        Device {
            native_handle: 0,
            hardware_id: 0,
            abs_min: 0,
            abs_max: 0,
            joyx: 0,
            joyy: 0,
            camx: 0,
            camy: 0,
            trgl: 0,
            trgr: 0,
            btns: 0,
            plug: false,
        }
    }

    /// A freshly discovered device: calibration set, live state zero.
    pub fn plugged(handle: u32, hardware_id: u32, abs_min: i32, abs_max: i32) -> (r: Device)
        ensures
            r@ == fresh_device(handle, hardware_id, abs_min, abs_max),
    {
        Device {
            native_handle: handle,
            hardware_id,
            abs_min,
            abs_max,
            joyx: 0,
            joyy: 0,
            camx: 0,
            camy: 0,
            trgl: 0,
            trgr: 0,
            btns: 0,
            plug: true,
        }
    }

    /// The stick level of a raw value under this device's calibration.
    fn stick(&self, q: &Quirk, raw: i32) -> (r: i32)
        requires
            device_calibrated(self@),
            *q == quirk_spec(self@.hardware_id),
        ensures
            r == device_stick(self@, raw as int),
            -127 <= r <= 127,
    {
        if q.trim {
            proof {
                lemma_trim_keeps_calibration(self.abs_min as int, self.abs_max as int);
            }
            let pad: i32 = ((self.abs_max as i64 - self.abs_min as i64) / 4) as i32;
            transform(self.abs_min + pad, self.abs_max - pad, raw)
        } else {
            transform(self.abs_min, self.abs_max, raw)
        }
    }

    /// Main stick levels (X, Y), each in `-127..=127`.
    pub fn joy(&self) -> (r: Option<(i32, i32)>)
        ensures
            r == Some((self@.joyx, self@.joyy)),
    {
        Some((self.joyx, self.joyy))
    }

    /// Camera stick levels (X, Y), or `None` on hardware without a camera
    /// stick.
    pub fn cam(&self) -> (r: Option<(i32, i32)>)
        ensures
            r == (if quirk_spec(self@.hardware_id).has_cam {
                Some((self@.camx, self@.camy))
            } else {
                None
            }),
    {
        if quirk_for(self.hardware_id).has_cam {
            Some((self.camx, self.camy))
        } else {
            None
        }
    }

    /// Left and right trigger levels, each in `0..=255`.
    pub fn lrt(&self) -> (r: Option<(i32, i32)>)
        ensures
            r == Some((self@.trgl, self@.trgr)),
    {
        Some((self.trgl, self.trgr))
    }

    /// `Some(true)` if the button is held, `Some(false)` if not.
    pub fn btn(&self, b: Btn) -> (r: Option<bool>)
        ensures
            r == Some(bit_of(self@.btns, btn_bit(b) as u32)),
    {
        let n: u32 = b.bit() as u32;
        Some((self.btns >> n) & 1u32 == 1u32)
    }

    /// Whether a device is plugged in at this slot.
    pub fn plug_state(&self) -> (r: bool)
        ensures
            r == self@.plug,
    {
        self.plug
    }

    /// This device's state with its presence flag cleared.
    pub fn unplugged(&self) -> (r: Device)
        ensures
            r@ == (DeviceView { plug: false, ..self@ }),
    {
        Device { plug: false, ..*self }
    }

    /// The handle of the byte stream that this device's records come from.
    pub fn handle(&self) -> (r: u32)
        ensures
            r == self@.handle,
    {
        self.native_handle
    }

    /// The hardware identifier used for quirk lookup.
    pub fn hardware_id(&self) -> (r: u32)
        ensures
            r == self@.hardware_id,
    {
        self.hardware_id
    }

    /// Applies one decoded record to this device's state. Returns whether the
    /// record was one that the decoder acts on; any other leaves the state as
    /// it was.
    pub fn apply_event(&mut self, e: Event) -> (r: bool)
        requires
            old(self)@.wf(),
        ensures
            r == recognized(old(self)@, e),
            final(self)@ == apply_spec(old(self)@, e),
            final(self)@.wf(),
    {
        let q = quirk_for(self.hardware_id);
        let calibrated = self.abs_max as i64 - self.abs_min as i64 >= 2;
        let v = e.ev_value;
        if e.ev_type == EV_KEY {
            match map_button(e.ev_code, &q) {
                Some(b) => {
                    self.btns = edit(self.btns, b, v != 0);
                    true
                },
                None => false,
            }
        } else if e.ev_type == EV_ABS {
            let code = e.ev_code;
            if code == ABS_X || code == ABS_Y {
                if !calibrated {
                    return false;
                }
                let level = self.stick(&q, v);
                if code == ABS_X {
                    self.joyx = level;
                } else {
                    self.joyy = level;
                }
                true
            } else if code == ABS_HAT_X {
                self.btns = edit_dpad(self.btns, Btn::Left, Btn::Right, v);
                true
            } else if code == ABS_HAT_Y {
                self.btns = edit_dpad(self.btns, Btn::Up, Btn::Down, v);
                true
            } else if code == ABS_DUPLICATE {
                false
            } else if code == q.cam_x || code == q.cam_y {
                if !calibrated {
                    return false;
                }
                let level = self.stick(&q, v);
                if code == q.cam_x {
                    self.camx = level;
                } else {
                    self.camy = level;
                }
                true
            } else if code == q.lrt_l || code == q.lrt_r {
                let t = transform2(q.trigger_min, q.trigger_max, v);
                let pulled = t * 100 > 255 * 99;
                if code == q.lrt_l {
                    self.trgl = t;
                    self.btns = edit(self.btns, Btn::L, pulled);
                } else {
                    self.trgr = t;
                    self.btns = edit(self.btns, Btn::R, pulled);
                }
                true
            } else {
                false
            }
        } else {
            false
        }
    }
}

/// Decodes one raw record and applies it to a device. Returns whether the
/// bytes were one whole record that the decoder acts on. A record of the
/// wrong length, or one that is not recognised, returns `false` and leaves
/// the device unchanged.
pub fn joystick_poll_event(bytes: &[u8], device: &mut Device) -> (r: bool)
    requires
        old(device)@.wf(),
    ensures
        r == (bytes@.len() == crate::event::EVENT_SIZE && recognized(
            old(device)@,
            crate::event::event_of(bytes@),
        )),
        bytes@.len() == crate::event::EVENT_SIZE ==> final(device)@ == apply_spec(
            old(device)@,
            crate::event::event_of(bytes@),
        ),
        !r ==> final(device)@ == old(device)@,
        final(device)@.wf(),
{
    match Event::from_bytes(bytes) {
        Some(e) => device.apply_event(e),
        None => false,
    }
}

} // verus!

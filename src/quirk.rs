//! The logical button vocabulary and the per-hardware quirk table.
use vstd::prelude::*;

verus! {

/// A button on a controller.
#[derive(Copy, Clone, Debug, PartialEq, Eq, Structural)]
pub enum Btn {
    /// D-PAD LEFT / LEFT ARROW KEY / SCROLL UP "Previous Item"
    Left,
    /// D-PAD RIGHT / RIGHT ARROW KEY / SCROLL DOWN "Next Item"
    Right,
    /// D-PAD UP / UP ARROW KEY / R KEY "Reload/Tinker"
    Up,
    /// D-PAD DOWN / DOWN ARROW KEY / X KEY "Put Away"
    Down,
    /// ONE OF: Y OR X BUTTON / LEFT CLICK "Action/Attack/Execute/Use Item"
    X,
    /// A BUTTON / ENTER KEY / RIGHT CLICK "Talk/Inspect/Ok/Accept"
    A,
    /// ONE OF: Y OR X BUTTON / SPACE KEY "Jump/Upward"
    Y,
    /// B BUTTON / SHIFT KEY "Speed Things Up/Cancel"
    B,
    /// L THROTTLE BTN / CTRL KEY "Crouch/Sneak"
    L,
    /// R THROTTLE BTN / ALT KEY "Slingshot/Bow & Arrow"
    R,
    /// L BTN / W BTN / BACKSPACE KEY "Throw/Send/Wave"
    W,
    /// R BTN / Z BTN / Z KEY "Alternative Action/Kick"
    Z,
    /// BACK / SELECT / QUIT / ESCAPE KEY / EXIT "Menu / Quit / Finish"
    F,
    /// START / E KEY / MENU / FIND "Inventory/Pockets/Find"
    E,
    /// JOY1 PUSH / C KEY "Toggle Crouch/Sneak"
    D,
    /// JOY2 PUSH / F KEY "Camera/Binoculars"
    C,
}

/// The bit index of a button in a device's button mask.
pub open spec fn btn_bit(b: Btn) -> u8 {
    match b {
        Btn::Left => 0,
        Btn::Right => 1,
        Btn::Up => 2,
        Btn::Down => 3,
        Btn::X => 4,
        Btn::A => 5,
        Btn::Y => 6,
        Btn::B => 7,
        Btn::L => 8,
        Btn::R => 9,
        Btn::W => 10,
        Btn::Z => 11,
        Btn::F => 12,
        Btn::E => 13,
        Btn::D => 14,
        Btn::C => 15,
    }
}

impl Btn {
    /// The bit index of this button in a device's button mask.
    pub fn bit(self) -> (r: u8)
        ensures
            r == btn_bit(self),
            r < 16,
    {
        match self {
            Btn::Left => 0,
            Btn::Right => 1,
            Btn::Up => 2,
            Btn::Down => 3,
            Btn::X => 4,
            Btn::A => 5,
            Btn::Y => 6,
            Btn::B => 7,
            Btn::L => 8,
            Btn::R => 9,
            Btn::W => 10,
            Btn::Z => 11,
            Btn::F => 12,
            Btn::E => 13,
            Btn::D => 14,
            Btn::C => 15,
        }
    }
}

impl From<Btn> for u8 {
    fn from(b: Btn) -> (r: u8) {
        b.bit()
    }
}

impl vstd::std_specs::convert::FromSpecImpl<Btn> for u8 {
    open spec fn obeys_from_spec() -> bool {
        true
    }

    open spec fn from_spec(b: Btn) -> u8 {
        btn_bit(b)
    }
}

/// The hardware identifier of a device: its vendor number in the high 16
/// bits and its product number in the low 16 bits.
pub fn hardware_id_of(vendor: u16, product: u16) -> (r: u32)
    ensures
        r == vendor as int * 65536 + product as int,
{
    vendor as u32 * 65536 + product as u32
}

/// Hardware identifier of a pad that reports A and B the other way round.
pub const XBOX_PAD: u32 = 0x0E6F_0501;
/// Hardware identifier of a pad that reports X and Y the other way round.
pub const PS3_PAD: u32 = 0x054C_0268;
/// Hardware identifier of a GameCube adapter: short stick travel and its own
/// axis layout.
pub const GAMECUBE_PAD: u32 = 0x0079_1844;
/// Hardware identifier of a flight controller, which has no camera stick.
pub const FLIGHT_STICK: u32 = 0x07B5_0316;

/// Corrections for one kind of hardware, applied by the event decoder.
#[derive(Copy, Clone, Debug, PartialEq, Eq, Structural)]
pub struct Quirk {
    /// Logical buttons that the hardware's A, B, X and Y codes stand for.
    pub a: Btn,
    pub b: Btn,
    pub x: Btn,
    pub y: Btn,
    /// Whether the usable stick range is the calibrated range narrowed by a
    /// quarter of its width on each end.
    pub trim: bool,
    /// Raw range of the trigger axes.
    pub trigger_min: i32,
    pub trigger_max: i32,
    /// Axis codes of the camera stick and of the two triggers.
    pub cam_x: i16,
    pub cam_y: i16,
    pub lrt_l: i16,
    pub lrt_r: i16,
    /// Whether the device has a camera stick.
    pub has_cam: bool,
}

/// The quirk entry of a hardware identifier.
pub open spec fn quirk_spec(id: u32) -> Quirk {
    Quirk {
        a: if id == XBOX_PAD { Btn::B } else { Btn::A },
        b: if id == XBOX_PAD { Btn::A } else { Btn::B },
        x: if id == PS3_PAD { Btn::Y } else { Btn::X },
        y: if id == PS3_PAD { Btn::X } else { Btn::Y },
        trim: id == GAMECUBE_PAD,
        trigger_min: if id == GAMECUBE_PAD { 32 } else { 0 },
        trigger_max: if id == GAMECUBE_PAD { 95 } else { 127 },
        cam_x: if id == GAMECUBE_PAD { 5 } else { 3 },
        cam_y: if id == GAMECUBE_PAD { 2 } else { 4 },
        lrt_l: if id == GAMECUBE_PAD { 3 } else { 2 },
        lrt_r: if id == GAMECUBE_PAD { 4 } else { 5 },
        has_cam: id != FLIGHT_STICK,
    }
}

/// Looks up the corrections for a hardware identifier.
pub fn quirk_for(id: u32) -> (q: Quirk)
    ensures
        q == quirk_spec(id),
        q.trigger_min < q.trigger_max,
{
    let gc = id == GAMECUBE_PAD;
    Quirk {
        a: if id == XBOX_PAD { Btn::B } else { Btn::A },
        b: if id == XBOX_PAD { Btn::A } else { Btn::B },
        x: if id == PS3_PAD { Btn::Y } else { Btn::X },
        y: if id == PS3_PAD { Btn::X } else { Btn::Y },
        trim: gc,
        trigger_min: if gc { 32 } else { 0 },
        trigger_max: if gc { 95 } else { 127 },
        cam_x: if gc { 5 } else { 3 },
        cam_y: if gc { 2 } else { 4 },
        lrt_l: if gc { 3 } else { 2 },
        lrt_r: if gc { 4 } else { 5 },
        has_cam: id != FLIGHT_STICK,
    }
}

} // verus!

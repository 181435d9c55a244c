//! Raw input event records and the table from button codes to logical
//! buttons.
use vstd::prelude::*;
use crate::quirk::{Btn, Quirk};

verus! {

/// Size in bytes of one raw event record: a 16-byte timestamp, a 2-byte
/// class, a 2-byte code and a 4-byte signed value, all little-endian.
pub const EVENT_SIZE: usize = 24;

/// Event class of a button press or release.
pub const EV_KEY: i16 = 0x01;
/// Event class of an absolute axis move.
pub const EV_ABS: i16 = 0x03;
/// First button code; button codes are read relative to it.
pub const BTN_BASE: i32 = 0x120;

/// One decoded raw event record; the timestamp is dropped.
#[derive(Copy, Clone, Debug, PartialEq, Eq, Structural)]
pub struct Event {
    pub ev_type: i16,
    pub ev_code: i16,
    pub ev_value: i32,
}

pub open spec fn le_u16(b: Seq<u8>, i: int) -> int {
    b[i] as int + 256 * b[i + 1] as int
}

pub open spec fn le_u32(b: Seq<u8>, i: int) -> int {
    le_u16(b, i) + 65536 * le_u16(b, i + 2)
}

/// The record that a well-sized byte string holds.
pub open spec fn event_of(b: Seq<u8>) -> Event {
    Event {
        ev_type: le_u16(b, 16) as i16,
        ev_code: le_u16(b, 18) as i16,
        ev_value: le_u32(b, 20) as i32,
    }
}

fn read_u16(b: &[u8], i: usize) -> (r: u16)
    requires
        i + 2 <= b@.len(),
        i <= EVENT_SIZE,
    ensures
        r as int == le_u16(b@, i as int),
{
    b[i] as u16 + (b[i + 1] as u16) * 256
}

fn read_u32(b: &[u8], i: usize) -> (r: u32)
    requires
        i + 4 <= b@.len(),
        i + 2 <= EVENT_SIZE,
    ensures
        r as int == le_u32(b@, i as int),
{
    let lo = read_u16(b, i);
    let hi = read_u16(b, i + 2);
    lo as u32 + (hi as u32) * 65536
}

impl Event {
    /// Decodes one raw record. A byte string of any other length than
    /// `EVENT_SIZE` (a short or partial read) holds no record.
    pub fn from_bytes(b: &[u8]) -> (r: Option<Event>)
        ensures
            b@.len() == EVENT_SIZE ==> r == Some(event_of(b@)),
            b@.len() != EVENT_SIZE ==> r.is_none(),
    {
        if b.len() != EVENT_SIZE {
            return None;
        }
        let t = read_u16(b, 16);
        let c = read_u16(b, 18);
        let v = read_u32(b, 20);
        Some(Event { ev_type: t as i16, ev_code: c as i16, ev_value: v as i32 })
    }
}

/// The logical button that a button code (relative to `BTN_BASE`) stands for
/// under a quirk entry, if the code is known.
pub open spec fn button_spec(code: int, q: Quirk) -> Option<Btn> {
    if code == 0 || code == 19 {
        Some(q.x)
    } else if code == 1 || code == 17 {
        Some(q.a)
    } else if code == 2 || code == 16 {
        Some(q.b)
    } else if code == 3 || code == 20 {
        Some(q.y)
    } else if code == 4 || code == 24 {
        Some(Btn::L)
    } else if code == 5 || code == 25 {
        Some(Btn::R)
    } else if code == 6 || code == 22 {
        Some(Btn::W)
    } else if code == 7 || code == 23 {
        Some(Btn::Z)
    } else if code == 8 || code == 26 {
        Some(Btn::F)
    } else if code == 9 || code == 27 {
        Some(Btn::E)
    } else if code == 12 || code == 256 {
        Some(Btn::Up)
    } else if code == 13 || code == 259 {
        Some(Btn::Right)
    } else if code == 14 || code == 257 {
        Some(Btn::Down)
    } else if code == 15 || code == 258 {
        Some(Btn::Left)
    } else if code == 29 {
        Some(Btn::D)
    } else if code == 30 {
        Some(Btn::C)
    } else {
        None
    }
}

/// Maps a raw button event code to its logical button; codes 6 and 8 are
/// provisional guesses for some layouts.
pub fn map_button(ev_code: i16, q: &Quirk) -> (r: Option<Btn>)
    ensures
        r == button_spec(ev_code as int - BTN_BASE as int, *q),
{
    let code: i32 = ev_code as i32 - BTN_BASE;
    match code {
        0 | 19 => Some(q.x),
        1 | 17 => Some(q.a),
        2 | 16 => Some(q.b),
        3 | 20 => Some(q.y),
        4 | 24 => Some(Btn::L),
        5 | 25 => Some(Btn::R),
        6 | 22 => Some(Btn::W),
        7 | 23 => Some(Btn::Z),
        8 | 26 => Some(Btn::F),
        9 | 27 => Some(Btn::E),
        12 | 256 => Some(Btn::Up),
        13 | 259 => Some(Btn::Right),
        14 | 257 => Some(Btn::Down),
        15 | 258 => Some(Btn::Left),
        29 => Some(Btn::D),
        30 => Some(Btn::C),
        _ => None,
    }
}

} // verus!

//! Directory notification records from the hot-plug watch, and the filter on
//! device node names.
use vstd::prelude::*;
use crate::event::le_u32;

verus! {

/// Notification mask bit: an entry was created in the watched directory.
pub const IN_CREATE: u32 = 0x100;
/// Notification mask bit: an entry was deleted from the watched directory.
pub const IN_DELETE: u32 = 0x200;
/// Size of a notification record's fixed header: watch descriptor, mask,
/// cookie and name length, four bytes each.
pub const NOTICE_HEADER: usize = 16;

/// The name suffix of event-joystick device nodes: the bytes of
/// `-event-joystick`.
pub open spec fn joystick_suffix() -> Seq<u8> {
    seq![
        45u8, 101, 118, 101, 110, 116, 45, 106, 111, 121, 115, 116, 105, 99, 107,
    ]
}

pub open spec fn ends_with(s: Seq<u8>, suffix: Seq<u8>) -> bool {
    s.len() >= suffix.len() && s.subrange(s.len() - suffix.len(), s.len() as int) == suffix
}

/// Whether a device node name is that of an event joystick.
pub fn is_joystick_name(name: &[u8]) -> (r: bool)
    ensures
        r == ends_with(name@, joystick_suffix()),
{
    let suffix: Vec<u8> = vec![
        45u8, 101, 118, 101, 110, 116, 45, 106, 111, 121, 115, 116, 105, 99, 107,
    ];
    assert(suffix@ =~= joystick_suffix());
    let n = name.len();
    let k = suffix.len();
    if n < k {
        return false;
    }
    let start = n - k;
    let mut i: usize = 0;
    while i < k
        invariant
            k == suffix@.len(),
            suffix@ == joystick_suffix(),
            start + k == n,
            n == name@.len(),
            i <= k,
            forall|j: int| 0 <= j < i ==> name@[start + j] == suffix@[j],
        decreases k - i,
    {
        if name[start + i] != suffix[i] {
            assert(name@.subrange(start as int, n as int)[i as int] != suffix@[i as int]);
            return false;
        }
        i = i + 1;
    }
    assert(name@.subrange(start as int, n as int) =~= suffix@);
    true
}

/// What a notification reports about a device node.
#[derive(Copy, Clone, Debug, PartialEq, Eq, Structural)]
pub enum Change {
    Added,
    Removed,
}

/// A notification about an event-joystick node.
#[derive(Debug)]
pub struct Notice {
    pub change: Change,
    pub name: Vec<u8>,
}

/// Length of a null-terminated name: up to the first zero byte, or the whole
/// field when it holds none.
pub open spec fn c_name_len(f: Seq<u8>) -> int {
    if exists|k: int| 0 <= k < f.len() && f[k] == 0 {
        choose|k: int| 0 <= k < f.len() && f[k] == 0 && forall|j: int| 0 <= j < k ==> f[j] != 0
    } else {
        f.len() as int
    }
}

/// The name that a notification record carries.
pub open spec fn notice_name(b: Seq<u8>) -> Seq<u8> {
    let f = b.subrange(NOTICE_HEADER as int, b.len() as int);
    f.subrange(0, c_name_len(f))
}

/// The mask of a notification record.
pub open spec fn notice_mask(b: Seq<u8>) -> int {
    le_u32(b, 4)
}

/// What a notification record reports: a creation or a deletion of an
/// event-joystick node, or nothing for any other entry or event.
pub open spec fn notice_spec(b: Seq<u8>) -> Option<(Change, Seq<u8>)> {
    if b.len() < NOTICE_HEADER || !ends_with(notice_name(b), joystick_suffix()) {
        None
    } else if notice_mask(b) == IN_CREATE {
        Some((Change::Added, notice_name(b)))
    } else if notice_mask(b) == IN_DELETE {
        Some((Change::Removed, notice_name(b)))
    } else {
        None
    }
}

/// The null-terminated name at the start of a field.
fn c_name(b: &[u8], start: usize) -> (r: Vec<u8>)
    requires
        start <= b@.len(),
    ensures
        r@ == b@.subrange(start as int, b@.len() as int).subrange(
            0,
            c_name_len(b@.subrange(start as int, b@.len() as int)),
        ),
{
    let ghost f = b@.subrange(start as int, b@.len() as int);
    let mut name: Vec<u8> = Vec::new();
    let mut i: usize = start;
    while i < b.len() && b[i] != 0
        invariant
            start <= i <= b@.len(),
            f == b@.subrange(start as int, b@.len() as int),
            name@ == f.subrange(0, i - start),
            forall|j: int| 0 <= j < i - start ==> f[j] != 0,
        decreases b@.len() - i,
    {
        name.push(b[i]);
        i = i + 1;
        assert(name@ =~= f.subrange(0, i - start));
    }
    proof {
        let k = (i - start) as int;
        if i < b@.len() {
            assert(f[k] == 0);
            let c = choose|c: int|
                0 <= c < f.len() && f[c] == 0 && forall|j: int| 0 <= j < c ==> f[j] != 0;
            assert(c == k) by {
                if c < k {
                    assert(f[c] != 0);
                } else if c > k {
                    assert(f[k] != 0);
                }
            }
        } else {
            assert(k == f.len());
        }
    }
    name
}

fn read_u32_at(b: &[u8], i: usize) -> (r: u32)
    requires
        i + 4 <= b@.len(),
    ensures
        r as int == le_u32(b@, i as int),
{
    let b0 = b[i] as u32;
    let b1 = b[i + 1] as u32;
    let b2 = b[i + 2] as u32;
    let b3 = b[i + 3] as u32;
    b0 + b1 * 256 + (b2 + b3 * 256) * 65536
}

/// Reads one notification record. Records about other entries or events
/// than the creation or deletion of an event-joystick node, and records too
/// short to hold a header, report nothing.
pub fn parse_notice(b: &[u8]) -> (r: Option<Notice>)
    ensures
        match notice_spec(b@) {
            Some((change, name)) => r.is_some() && r.unwrap().change == change && r.unwrap().name@
                == name,
            None => r.is_none(),
        },
{
    if b.len() < NOTICE_HEADER {
        return None;
    }
    let name = c_name(b, NOTICE_HEADER);
    if !is_joystick_name(name.as_slice()) {
        return None;
    }
    let mask = read_u32_at(b, 4);
    if mask == IN_CREATE {
        Some(Notice { change: Change::Added, name })
    } else if mask == IN_DELETE {
        Some(Notice { change: Change::Removed, name })
    } else {
        None
    }
}

} // verus!

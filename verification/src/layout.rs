//! The byte layout of compressed keys.
//!
//! A compressed verifying key is four curve points, 32 + 64 + 64 + 64 bytes,
//! and then a counted list of 32-byte points: one for the constant wire and
//! one for each public input. A compressed proving key is a verifying key,
//! two 32-byte points, and five counted lists: of 32-byte points for the
//! wires, again of 32-byte points for the wires, of 64-byte points for the
//! wires, of 32-byte points for the quotient, and of 32-byte points for the
//! private wires. A counted list is its length as a little-endian word and
//! then its items.
use crate::bytes::{le_value, read_u64_le};
use vstd::prelude::*;

verus! {

/// The bytes of a compressed point of the first group.
pub const POINT_G1: usize = 32;

/// The bytes of a compressed point of the second group.
pub const POINT_G2: usize = 64;

/// Where the counted list of a verifying key starts.
pub const KEY_HEAD: usize = 224;

/// A counted list found in a byte string.
pub struct Counted {
    /// The number of items.
    pub count: nat,
    /// Where the list ends.
    pub end: nat,
}

/// The counted list of items of `item` bytes that starts at `at`, if
/// `bytes` holds one there.
pub open spec fn counted_at(bytes: Seq<u8>, at: nat, item: nat) -> Option<Counted> {
    if at + 8 <= bytes.len() {
        let count = le_value(bytes.subrange(at as int, (at + 8) as int));
        if at + 8 + count * item <= bytes.len() {
            Some(Counted { count, end: at + 8 + count * item })
        } else {
            None
        }
    } else {
        None
    }
}

/// The number of points that a compressed verifying key holds for the
/// public wires, if `bytes` has the layout of one.
pub open spec fn key_slots(bytes: Seq<u8>) -> Option<nat> {
    match counted_at(bytes, 224, 32) {
        Some(list) => if list.end == bytes.len() {
            Some(list.count)
        } else {
            None
        },
        None => None,
    }
}

/// The lengths of the lists of a proving key.
pub struct KeyShape {
    /// Points for the public wires, the constant wire among them.
    pub slots: nat,
    /// Points of the first list for the wires.
    pub a: nat,
    /// Points of the second list for the wires.
    pub b1: nat,
    /// Points of the third list for the wires.
    pub b2: nat,
    /// Points for the quotient.
    pub h: nat,
    /// Points for the private wires.
    pub l: nat,
}

/// The lengths of the lists of a compressed proving key, if `bytes` has
/// the layout of one.
pub open spec fn key_shape(bytes: Seq<u8>) -> Option<KeyShape> {
    match counted_at(bytes, 224, 32) {
        None => None,
        Some(slots) => match counted_at(bytes, slots.end + 64, 32) {
            None => None,
            Some(a) => match counted_at(bytes, a.end, 32) {
                None => None,
                Some(b1) => match counted_at(bytes, b1.end, 64) {
                    None => None,
                    Some(b2) => match counted_at(bytes, b2.end, 32) {
                        None => None,
                        Some(h) => match counted_at(bytes, h.end, 32) {
                            None => None,
                            Some(l) => if l.end == bytes.len() {
                                Some(
                                    KeyShape {
                                        slots: slots.count,
                                        a: a.count,
                                        b1: b1.count,
                                        b2: b2.count,
                                        h: h.count,
                                        l: l.count,
                                    },
                                )
                            } else {
                                None
                            },
                        },
                    },
                },
            },
        },
    }
}

/// The lengths of the lists of a proving key, as machine numbers.
#[derive(Debug, Clone, Copy, PartialEq, Eq)]
pub struct Shape {
    pub slots: usize,
    pub a: usize,
    pub b1: usize,
    pub b2: usize,
    pub h: usize,
    pub l: usize,
}

impl View for Shape {
    type V = KeyShape;

    open spec fn view(&self) -> KeyShape {
        KeyShape {
            slots: self.slots as nat,
            a: self.a as nat,
            b1: self.b1 as nat,
            b2: self.b2 as nat,
            h: self.h as nat,
            l: self.l as nat,
        }
    }
}

/// Reads the counted list that starts at `at`: its length and its end.
fn read_counted(bytes: &[u8], at: usize, item: usize) -> (found: Option<(usize, usize)>)
    requires
        item == 32 || item == 64,
    ensures
        match found {
            Some((count, end)) => counted_at(bytes@, at as nat, item as nat) == Some(
                Counted { count: count as nat, end: end as nat },
            ),
            None => counted_at(bytes@, at as nat, item as nat) is None,
        },
{
    let len = bytes.len();
    if len < 8 || at > len - 8 {
        return None;
    }
    let count = read_u64_le(bytes, at);
    let room = len - 8 - at;
    if item == 32 {
        if count > (room / 32) as u64 {
            return None;
        }
        let count = count as usize;
        Some((count, at + 8 + count * 32))
    } else {
        if count > (room / 64) as u64 {
            return None;
        }
        let count = count as usize;
        Some((count, at + 8 + count * 64))
    }
}

/// The number of points that a compressed verifying key holds for the
/// public wires.
pub fn read_key_slots(bytes: &[u8]) -> (slots: Option<usize>)
    ensures
        match slots {
            Some(n) => key_slots(bytes@) == Some(n as nat),
            None => key_slots(bytes@) is None,
        },
{
    match read_counted(bytes, KEY_HEAD, POINT_G1) {
        Some((count, end)) => if end == bytes.len() {
            Some(count)
        } else {
            None
        },
        None => None,
    }
}

/// The lengths of the lists of a compressed proving key.
pub fn read_key_shape(bytes: &[u8]) -> (shape: Option<Shape>)
    ensures
        match shape {
            Some(s) => key_shape(bytes@) == Some(s@),
            None => key_shape(bytes@) is None,
        },
{
    let (slots, end) = match read_counted(bytes, KEY_HEAD, POINT_G1) {
        Some(found) => found,
        None => {
            return None;
        },
    };
    let len = bytes.len();
    if end > usize::MAX - 64 {
        assert(counted_at(bytes@, (end + 64) as nat, 32) is None);
        return None;
    }
    let (a, end) = match read_counted(bytes, end + 64, POINT_G1) {
        Some(found) => found,
        None => {
            return None;
        },
    };
    let (b1, end) = match read_counted(bytes, end, POINT_G1) {
        Some(found) => found,
        None => {
            return None;
        },
    };
    let (b2, end) = match read_counted(bytes, end, POINT_G2) {
        Some(found) => found,
        None => {
            return None;
        },
    };
    let (h, end) = match read_counted(bytes, end, POINT_G1) {
        Some(found) => found,
        None => {
            return None;
        },
    };
    let (l, end) = match read_counted(bytes, end, POINT_G1) {
        Some(found) => found,
        None => {
            return None;
        },
    };
    if end == len {
        Some(Shape { slots, a, b1, b2, h, l })
    } else {
        None
    }
}

} // verus!

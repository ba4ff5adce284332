//! Naming directions relative to the receiver. The floating-point geometry
//! (distance, bearing) happens before these: they take the rounded counts.

use vstd::prelude::*;
use crate::text::{decimal, push_decimal};

verus! {

/// The compass point of a bearing given in whole eighths of a turn
/// (0 = north, counting clockwise, taken modulo 8).
pub open spec fn compass_name(octant: u32) -> Seq<char> {
    let o = octant % 8;
    if o == 0 {
        "N"@
    } else if o == 1 {
        "NE"@
    } else if o == 2 {
        "E"@
    } else if o == 3 {
        "SE"@
    } else if o == 4 {
        "S"@
    } else if o == 5 {
        "SW"@
    } else if o == 6 {
        "W"@
    } else {
        "NW"@
    }
}

/// The compass direction for a bearing rounded to whole eighths of a turn.
pub fn compass_point(octant: u32) -> (s: &'static str)
    ensures
        s@ == compass_name(octant),
{
    match octant % 8 {
        0 => "N",
        1 => "NE",
        2 => "E",
        3 => "SE",
        4 => "S",
        5 => "SW",
        6 => "W",
        _ => "NW",
    }
}

/// The clock position (`1:00` to `12:00`) of a relative bearing given in
/// whole twelfths of a turn (taken modulo 12; 0 is `12:00`, straight ahead).
pub open spec fn clock_text(hour: u32) -> Seq<char> {
    let h = hour % 12;
    decimal(if h == 0 { 12 } else { h as nat }) + ":00"@
}

/// The clock position for a relative bearing rounded to whole twelfths of a turn.
pub fn clock_label(hour: u32) -> (s: String)
    ensures
        s@ == clock_text(hour),
{
    let h: u32 = hour % 12;
    let mut s = String::new();
    push_decimal(&mut s, if h == 0 { 12 } else { h as u64 });
    s.append(":00");
    s
}

} // verus!

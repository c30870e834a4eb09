//! The knob's backlight reply, matched rather than merely awaited.
//!
//! After an LED write the device first answers the init packet
//! (`03 FB ...`, whose byte 2 is zero), so taking byte 2 of whatever comes
//! next reads a successful write as "off". Only a `03 FA <mode>` reply
//! carries the mode.

use vstd::prelude::*;
use crate::firmware::LED_REPLY_TAG;

verus! {

/// The LED mode a report carries, or `None` when it is not a reply to the
/// vendor query at all.
pub open spec fn led_mode_in(report: Seq<u8>) -> Option<u8> {
    if report.len() >= 3 && report[1] == LED_REPLY_TAG {
        Some(report[2])
    } else {
        None
    }
}

pub fn led_mode_of(report: &Vec<u8>) -> (r: Option<u8>)
    ensures
        r == led_mode_in(report@),
{
    if report.len() >= 3 && report[1] == LED_REPLY_TAG {
        Some(report[2])
    } else {
        None
    }
}

/// What one report read while waiting for the LED reply means.
#[derive(Debug, Clone, Copy, PartialEq, Eq, Structural)]
pub enum LedReply {
    /// The reply, with the layer's mode.
    Mode(u8),
    /// A report too short to be anything; the read fails.
    Short(usize),
    /// Some other report (the init echo); keep reading.
    Other,
}

pub open spec fn led_reply_of(report: Seq<u8>) -> LedReply {
    if report.len() < 3 {
        LedReply::Short(report.len() as usize)
    } else {
        match led_mode_in(report) {
            Some(m) => LedReply::Mode(m),
            None => LedReply::Other,
        }
    }
}

/// Classify one report read while waiting for the LED reply.
pub fn led_reply(report: &Vec<u8>) -> (r: LedReply)
    ensures
        r == led_reply_of(report@),
{
    if report.len() < 3 {
        return LedReply::Short(report.len());
    }
    match led_mode_of(report) {
        Some(m) => LedReply::Mode(m),
        None => LedReply::Other,
    }
}

/// The mode found in a queue of reports: the first reply, skipping the
/// reports before it, failing at the first short one.
pub open spec fn first_reply(reports: Seq<Seq<u8>>) -> LedReply
    decreases reports.len(),
{
    if reports.len() == 0 {
        LedReply::Other
    } else {
        match led_reply_of(reports[0]) {
            LedReply::Other => first_reply(reports.drop_first()),
            r => r,
        }
    }
}

/// Drain a queue of reports for the LED reply.
pub fn find_led_reply(reports: &Vec<Vec<u8>>) -> (r: LedReply)
    ensures
        r == first_reply(reports@.map_values(|v: Vec<u8>| v@)),
{
    let ghost rs = reports@.map_values(|v: Vec<u8>| v@);
    assert(rs.skip(0) =~= rs);
    let mut i: usize = 0;
    while i < reports.len()
        invariant
            i <= reports.len(),
            rs == reports@.map_values(|v: Vec<u8>| v@),
            first_reply(rs) == first_reply(rs.skip(i as int)),
        decreases reports.len() - i,
    {
        assert(rs.skip(i as int)[0] == reports@[i as int]@);
        assert(rs.skip(i as int).drop_first() =~= rs.skip(i + 1));
        match led_reply(&reports[i]) {
            LedReply::Other => {},
            r => return r,
        }
        i = i + 1;
    }
    assert(rs.skip(i as int) =~= Seq::<Seq<u8>>::empty());
    LedReply::Other
}

} // verus!

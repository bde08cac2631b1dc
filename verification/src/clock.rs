use vstd::prelude::*;
use vstd::string::StringExecFns;
use crate::text::{decimal, push_decimal, push_signed_decimal, signed_decimal};

verus! {

/// A reading of the wall clock in local time, down to the second.
#[derive(Debug, Clone, Copy)]
pub struct ClockReading {
    pub year: i32,
    pub month: u32,
    pub day: u32,
    pub hour: u32,
    pub minute: u32,
    pub second: u32,
}

impl ClockReading {
    /// The ranges that a calendar date and a time of day keep to.
    pub open spec fn in_range(self) -> bool {
        &&& 1 <= self.month <= 12
        &&& 1 <= self.day <= 31
        &&& self.hour <= 23
        &&& self.minute <= 59
        &&& self.second <= 59
    }
}

/// `chrono::Local::now`, read through `Datelike` and `Timelike`: the
/// current local date and time. Two readings may differ, so the result has
/// no name; what is claimed are the ranges that `chrono` documents for
/// `month`, `day`, `hour`, `minute` and `second`. `chrono` panics where the
/// system clock stands before 1970.
#[verifier::external_body]
pub(crate) fn local_now() -> (now: ClockReading)
    ensures
        now.in_range(),
{
    let now = chrono::Local::now();
    ClockReading {
        year: chrono::Datelike::year(&now),
        month: chrono::Datelike::month(&now),
        day: chrono::Datelike::day(&now),
        hour: chrono::Timelike::hour(&now),
        minute: chrono::Timelike::minute(&now),
        second: chrono::Timelike::second(&now),
    }
}

/// The name of a session that starts at `at`: `chatlog_` and then the
/// year, month, day, hour, minute and second, each in decimal as it is,
/// without padding.
pub open spec fn session_name(at: ClockReading) -> Seq<char> {
    "chatlog_"@ + signed_decimal(at.year as int) + decimal(at.month as nat) + decimal(
        at.day as nat,
    ) + decimal(at.hour as nat) + decimal(at.minute as nat) + decimal(at.second as nat)
}

/// Computes [`session_name`].
pub fn session_name_at(at: &ClockReading) -> (name: String)
    ensures
        name@ == session_name(*at),
{
    let mut name = String::from_str("chatlog_");
    push_signed_decimal(&mut name, at.year as i64);
    push_decimal(&mut name, at.month as u64);
    push_decimal(&mut name, at.day as u64);
    push_decimal(&mut name, at.hour as u64);
    push_decimal(&mut name, at.minute as u64);
    push_decimal(&mut name, at.second as u64);
    name
}

} // verus!

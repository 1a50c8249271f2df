use vstd::prelude::*;

use crate::schedule::{resolve_spec, TimeTable};
use crate::time::Time;
use chrono::{Datelike, Local, Timelike};

verus! {

impl Time {
    /// The local wall-clock time of day. Relies on chrono's Local::now and
    /// Timelike::hour / Timelike::minute, documented to return an hour from
    /// 0 to 23 and a minute from 0 to 59.
    #[verifier::external_body]
    pub fn now() -> (t: Time)
        ensures
            t.wf(),
    {
        let now = Local::now().time();
        Time { hrs: now.hour(), min: now.minute() }
    }
}

/// The local weekday. Relies on chrono's Datelike::weekday and
/// Weekday::num_days_from_monday, documented to return 0 for Monday through
/// 6 for Sunday.
#[verifier::external_body]
fn get_day() -> (d: usize)
    ensures
        d < 7,
{
    Local::now().weekday().num_days_from_monday() as usize
}

impl TimeTable {
    /// The code of the course in session right now: the local wall-clock
    /// time and weekday, resolved against the model. Whatever moment the
    /// clock reports, the answer is the resolution rule applied to it.
    pub fn get_course(&self) -> (r: Option<String>)
        requires
            self.wf(),
        ensures
            exists|now: Time, day: int|
                now.wf() && 0 <= day < 7 && r.deep_view() == resolve_spec(*self, now, day),
    {
        let now = Time::now();
        let day = get_day();
        let r = self.resolve(now, day);
        proof {
            assert(now.wf());
            assert(0 <= (day as int) && (day as int) < 7);
            assert(r.deep_view() == resolve_spec(*self, now, day as int));
        }
        r
    }
}

} // verus!

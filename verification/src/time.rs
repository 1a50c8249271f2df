use vstd::prelude::*;

use crate::text::{find_char, find_spec, lemma_find_spec, parse_num, trim, trim_spec};
use vstd::std_specs::cmp::PartialOrdSpec;

verus! {

/// A wall-clock time of day: hours and minutes, ordered lexicographically.
#[derive(Clone, Copy, Debug, PartialEq, Eq, Structural)]
pub struct Time {
    pub hrs: u32,
    pub min: u32,
}

impl Time {
    /// Well-formed: a real time of day.
    pub open spec fn wf(self) -> bool {
        self.hrs < 24 && self.min < 60
    }

    /// `self` is at or before `other` in the (hours, minutes) order.
    pub open spec fn le_spec(self, other: Time) -> bool {
        self.hrs < other.hrs || (self.hrs == other.hrs && self.min <= other.min)
    }

    /// Construct a time of day; fails on out-of-range components.
    pub fn new(hrs: u32, min: u32) -> (r: Option<Time>)
        ensures
            r matches Some(t) ==> t == (Time { hrs, min }) && t.wf(),
            r is None <==> (hrs >= 24 || min >= 60),
    {
        if hrs < 24 && min < 60 {
            Some(Time { hrs, min })
        } else {
            None
        }
    }

    /// The comparison under which slots are tested against "now".
    pub fn le(&self, other: &Time) -> (r: bool)
        ensures
            r == self.le_spec(*other),
    {
        self.hrs < other.hrs || (self.hrs == other.hrs && self.min <= other.min)
    }

    /// `self` lies inside the inclusive range `slot`.
    pub fn in_between(&self, slot: (Time, Time)) -> (r: bool)
        ensures
            r == in_between_spec(*self, slot),
    {
        slot.0.le(self) && self.le(&slot.1)
    }

    /// Parse `"H:MM"`: trim, break at the first `:`, trim and read both
    /// halves as decimal numbers, and range-check them.
    pub fn parse(s: &str) -> (r: Option<Time>)
        ensures
            r == parse_time_spec(s@),
            r matches Some(t) ==> t.wf(),
    {
        let t = trim(s);
        let n = t.unicode_len();
        match find_char(t, ':') {
            None => None,
            Some(i) => {
                proof {
                    lemma_find_spec(t@, ':');
                }
                let hs = trim(t.substring_char(0, i));
                let ms = trim(t.substring_char(i + 1, n));
                match (parse_num_upto(hs, 23), parse_num_upto(ms, 59)) {
                    (Some(h), Some(m)) => Some(Time { hrs: h, min: m }),
                    _ => None,
                }
            },
        }
    }
}

impl PartialOrd for Time {
    /// The (hours, minutes) order, written out as the comparison of the
    /// hour fields with the minute fields as tie-break.
    fn partial_cmp(&self, rhs: &Self) -> (r: Option<core::cmp::Ordering>) {
        if self.hrs < rhs.hrs {
            Some(core::cmp::Ordering::Less)
        } else if self.hrs == rhs.hrs {
            if self.min < rhs.min {
                Some(core::cmp::Ordering::Less)
            } else if self.min == rhs.min {
                Some(core::cmp::Ordering::Equal)
            } else {
                Some(core::cmp::Ordering::Greater)
            }
        } else {
            Some(core::cmp::Ordering::Greater)
        }
    }
}

impl vstd::std_specs::cmp::PartialOrdSpecImpl for Time {
    open spec fn obeys_partial_cmp_spec() -> bool {
        true
    }

    open spec fn partial_cmp_spec(&self, other: &Self) -> Option<core::cmp::Ordering> {
        if self.hrs < other.hrs {
            Some(core::cmp::Ordering::Less)
        } else if self.hrs == other.hrs {
            if self.min < other.min {
                Some(core::cmp::Ordering::Less)
            } else if self.min == other.min {
                Some(core::cmp::Ordering::Equal)
            } else {
                Some(core::cmp::Ordering::Greater)
            }
        } else {
            Some(core::cmp::Ordering::Greater)
        }
    }
}

/// The hand-written ordering and the slot comparison agree: `a` is at or
/// before `b` exactly when the comparison does not say "greater".
pub proof fn lemma_order_agrees(a: Time, b: Time)
    ensures
        a.le_spec(b) <==> (a.partial_cmp_spec(&b) matches Some(
            core::cmp::Ordering::Less
            | core::cmp::Ordering::Equal,
        )),
{
}

/// `t` lies in the inclusive range `slot`.
pub open spec fn in_between_spec(t: Time, slot: (Time, Time)) -> bool {
    slot.0.le_spec(t) && t.le_spec(slot.1)
}

/// What parsing `"H:MM"` yields: both halves must be in-range numbers.
pub open spec fn parse_time_spec(s: Seq<char>) -> Option<Time> {
    let t = trim_spec(s);
    match find_spec(t, ':') {
        None => None,
        Some(i) => {
            let h = parse_num(trim_spec(t.subrange(0, i)));
            let m = parse_num(trim_spec(t.subrange(i + 1, t.len() as int)));
            match (h, m) {
                (Some(h), Some(m)) => if h < 24 && m < 60 {
                    Some(Time { hrs: h as u32, min: m as u32 })
                } else {
                    None
                },
                _ => None,
            }
        },
    }
}

/// What parsing `"H:MM-H:MM"` yields: break at the first `-`, parse both
/// halves as times of day.
pub open spec fn parse_range_spec(s: Seq<char>) -> Option<(Time, Time)> {
    match find_spec(s, '-') {
        None => None,
        Some(i) => {
            match (parse_time_spec(s.subrange(0, i)), parse_time_spec(
                s.subrange(i + 1, s.len() as int),
            )) {
                (Some(a), Some(b)) => Some((a, b)),
                _ => None,
            }
        },
    }
}

/// Parse an inclusive time range `"H:MM-H:MM"`.
pub fn parse_range(s: &str) -> (r: Option<(Time, Time)>)
    ensures
        r == parse_range_spec(s@),
        r matches Some(p) ==> p.0.wf() && p.1.wf(),
{
    let n = s.unicode_len();
    match find_char(s, '-') {
        None => None,
        Some(i) => {
            proof {
                lemma_find_spec(s@, '-');
            }
            let a = Time::parse(s.substring_char(0, i));
            let b = Time::parse(s.substring_char(i + 1, n));
            match (a, b) {
                (Some(a), Some(b)) => Some((a, b)),
                _ => None,
            }
        },
    }
}

/// Read a decimal number of at most `max`, as the bounded complement of
/// `parse_num`: the digits' value when it does not exceed `max`.
pub fn parse_num_upto(s: &str, max: u32) -> (r: Option<u32>)
    ensures
        match r {
            Some(v) => parse_num(s@) == Some(v as nat) && v <= max,
            None => parse_num(s@) is None || (parse_num(s@) matches Some(n) && n > max),
        },
{
    let n = s.unicode_len();
    if n == 0 {
        return None;
    }
    let mut acc: u32 = 0;
    let mut i: usize = 0;
    while i < n
        invariant
            i <= n,
            n == s@.len(),
            acc <= max,
            crate::text::all_digits(s@.take(i as int)),
            acc as nat == crate::text::digits_val(s@.take(i as int)),
        decreases n - i,
    {
        let c = s.get_char(i);
        let u = c as u32;
        if u < 48 || u > 57 {
            return None;
        }
        let d = u - 48;
        let wide: u64 = (acc as u64) * 10 + (d as u64);
        proof {
            assert(s@.take(i + 1).drop_last() =~= s@.take(i as int));
            crate::text::lemma_digits_val_take_le(s@, i + 1);
        }
        if wide > max as u64 {
            return None;
        }
        acc = wide as u32;
        i = i + 1;
    }
    proof {
        assert(s@.take(n as int) =~= s@);
    }
    Some(acc)
}

} // verus!

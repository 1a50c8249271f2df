use vstd::prelude::*;

use crate::schedule::{
    active_label, day_spec, eq_nocase, first_slot, lemma_first_course, lemma_first_except,
    lemma_first_slot, resolve_spec, CourseExcept, TimeTable,
};
use crate::text::{all_digits, digits_val, find_spec, is_digit, is_space, lemma_find_spec,
    lemma_trim_id, parse_num, trim_spec};
use crate::time::{in_between_spec, parse_time_spec, Time};

verus! {

/// Parsing is idempotent over rendering: any faithful rendering of a valid
/// time of day — its hour written in decimal digits, a colon, its minute
/// written in decimal digits — parses back to exactly that time.
pub proof fn lemma_parse_faithful_rendering(t: Time, hs: Seq<char>, ms: Seq<char>)
    requires
        t.wf(),
        hs.len() > 0,
        all_digits(hs),
        digits_val(hs) == t.hrs,
        ms.len() > 0,
        all_digits(ms),
        digits_val(ms) == t.min,
    ensures
        parse_time_spec(hs + seq![':'] + ms) == Some(t),
{
    let s = hs + seq![':'] + ms;
    let i = hs.len() as int;
    assert forall|k: int| 0 <= k < s.len() implies !is_space(s[k]) && (k != i ==> s[k]
        != ':') by {
        if k < i {
            assert(s[k] == hs[k]);
            assert(is_digit(hs[k]));
        } else if k == i {
            assert(s[k] == ':');
        } else {
            assert(s[k] == ms[k - i - 1]);
            assert(is_digit(ms[k - i - 1]));
        }
    }
    lemma_trim_id(s);
    lemma_find_spec(s, ':');
    assert(s[i] == ':');
    assert(find_spec(s, ':') == Some(i));
    assert(s.subrange(0, i) =~= hs);
    assert(s.subrange(i + 1, s.len() as int) =~= ms);
    lemma_trim_id(hs);
    lemma_trim_id(ms);
    assert(parse_num(hs) == Some(t.hrs as nat));
    assert(parse_num(ms) == Some(t.min as nat));
}

/// An inclusive range contains both of its endpoints, and no point strictly
/// before the start or strictly after the end.
pub proof fn lemma_range_endpoints(a: Time, b: Time, p: Time)
    requires
        a.le_spec(b),
    ensures
        in_between_spec(a, (a, b)),
        in_between_spec(b, (a, b)),
        !a.le_spec(p) ==> !in_between_spec(p, (a, b)),
        !p.le_spec(b) ==> !in_between_spec(p, (a, b)),
{
}

/// On a day outside Monday to Friday, resolution yields nothing, whatever
/// the model and the time.
pub proof fn lemma_weekend_resolves_to_none(t: TimeTable, now: Time, day: int)
    requires
        day >= 5,
    ensures
        resolve_spec(t, now, day) is None,
{
}

/// When no slot contains `now`, resolution yields nothing: the exceptions
/// are never reached.
pub proof fn lemma_out_of_slot_resolves_to_none(t: TimeTable, now: Time, day: int)
    requires
        forall|i: int|
            0 <= i < t.time_slots@.len() ==> !in_between_spec(now, t.time_slots@[i]),
    ensures
        resolve_spec(t, now, day) is None,
{
    lemma_first_slot(t.time_slots@, now);
}

/// Declaration order breaks ties among regular courses: when the course at
/// position `i` claims the active label and no earlier course does, its code
/// is the answer — whatever later courses or exceptions would match.
pub proof fn lemma_course_precedence(t: TimeTable, now: Time, day: int, s: int, i: int)
    requires
        0 <= day < 5,
        first_slot(t.time_slots@, now) == Some(s),
        0 <= i < t.courses@.len(),
        t.courses@[i].matches(active_label(t, day, s)),
        forall|j: int| 0 <= j < i ==> !t.courses@[j].matches(active_label(t, day, s)),
    ensures
        resolve_spec(t, now, day) == Some(t.courses@[i].coursecode@),
{
    lemma_first_course(t.courses@, active_label(t, day, s));
}

/// Exceptions come after regular courses: when no course claims the active
/// label, the first exception covering (`now`, `day`) gives the answer.
pub proof fn lemma_exception_precedence(t: TimeTable, now: Time, day: int, s: int, i: int)
    requires
        0 <= day < 5,
        first_slot(t.time_slots@, now) == Some(s),
        forall|j: int|
            0 <= j < t.courses@.len() ==> !t.courses@[j].matches(active_label(t, day, s)),
        0 <= i < t.excepts@.len(),
        t.excepts@[i].matches(now, day),
        forall|j: int| 0 <= j < i ==> !t.excepts@[j].matches(now, day),
    ensures
        resolve_spec(t, now, day) == Some(t.excepts@[i].coursecode@),
{
    lemma_first_course(t.courses@, active_label(t, day, s));
    lemma_first_except(t.excepts@, now, day);
}

/// An exception built from an unrecognized weekday token carries the
/// sentinel day, and so never covers a Monday-to-Friday query, at any time.
pub proof fn lemma_unrecognized_day_never_matches(
    e: CourseExcept,
    tok: Seq<char>,
    now: Time,
    day: int,
)
    requires
        e.day as int == day_spec(tok),
        !eq_nocase(tok, "mon"@),
        !eq_nocase(tok, "tue"@),
        !eq_nocase(tok, "wed"@),
        !eq_nocase(tok, "thu"@),
        !eq_nocase(tok, "fri"@),
        0 <= day < 5,
    ensures
        !e.matches(now, day),
{
}

} // verus!

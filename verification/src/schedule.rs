use vstd::prelude::*;

use crate::text::{split_char, split_spec, str_eq, trim, trim_spec, views_of};
use crate::time::{in_between_spec, parse_range, parse_range_spec, Time};

verus! {

/// The four sections of the configuration document.
#[derive(Clone, Copy, Debug, PartialEq, Eq, Structural)]
pub enum Section {
    TimeSlots,
    DaySlots,
    Courses,
    Exceptions,
}

/// A fatal fault found while loading the configuration document.
#[derive(Clone, Copy, Debug, PartialEq, Eq, Structural)]
pub enum ParseError {
    /// The document is not valid JSON at all.
    InvalidJson,
    /// A required section is absent or has the wrong JSON shape.
    MissingSection(Section),
    /// A time string fails the `"H:MM"` / `"H:MM-H:MM"` grammar.
    InvalidTimeFormat,
    /// An exception entry is not shaped as a `[day, range]` array.
    InvalidExceptionFormat,
    /// The day grid does not provide a label for every (weekday, slot) cell.
    InvalidGridShape,
}

/// A regular course: a code and the set of slot labels it occupies.
#[derive(Debug)]
pub struct Course {
    pub coursecode: String,
    pub slots: Vec<String>,
}

impl Course {
    /// The course claims the slot carrying `label` (compared verbatim).
    pub open spec fn matches(self, label: Seq<char>) -> bool {
        exists|i: int| 0 <= i < self.slots@.len() && self.slots@[i]@ == label
    }

    /// Build from a code and a comma-separated label list. The labels are
    /// kept verbatim: embedded whitespace is significant.
    pub fn new(code: String, slots: String) -> (r: Course)
        ensures
            r.coursecode@ == code@,
            views_of(r.slots@) == split_spec(slots@, ','),
    {
        let slots = split_char(slots.as_str(), ',');
        Course { coursecode: code, slots }
    }

    /// The label list contains `slot` exactly.
    pub fn in_slot(&self, slot: &str) -> (r: bool)
        ensures
            r == self.matches(slot@),
    {
        let n = self.slots.len();
        let mut i: usize = 0;
        while i < n
            invariant
                i <= n,
                n == self.slots@.len(),
                forall|j: int| 0 <= j < i ==> self.slots@[j]@ != slot@,
            decreases n - i,
        {
            if str_eq(self.slots[i].as_str(), slot) {
                return true;
            }
            i = i + 1;
        }
        false
    }
}

/// Uppercase ASCII folded to lowercase, as a code point; other characters
/// are left as they are.
pub open spec fn lower_u(c: char) -> u32 {
    if 65 <= c as u32 && c as u32 <= 90 {
        (c as u32 + 32) as u32
    } else {
        c as u32
    }
}

/// ASCII-case-insensitive equality of character sequences.
pub open spec fn eq_nocase(a: Seq<char>, b: Seq<char>) -> bool {
    a.len() == b.len() && forall|i: int| 0 <= i < a.len() ==> lower_u(a[i]) == lower_u(b[i])
}

/// The day index of a weekday token: 0 to 4 for "mon" to "fri" in any ASCII
/// case, and the sentinel 6 for anything else. Since only days 0 to 4 are
/// ever queried, an unrecognized token disables its exception.
pub open spec fn day_spec(s: Seq<char>) -> int {
    if eq_nocase(s, "mon"@) {
        0
    } else if eq_nocase(s, "tue"@) {
        1
    } else if eq_nocase(s, "wed"@) {
        2
    } else if eq_nocase(s, "thu"@) {
        3
    } else if eq_nocase(s, "fri"@) {
        4
    } else {
        6
    }
}

fn lower_u_ex(c: char) -> (r: u32)
    ensures
        r == lower_u(c),
{
    let u = c as u32;
    if 65 <= u && u <= 90 {
        u + 32
    } else {
        u
    }
}

fn eq_nocase_ex(a: &str, b: &str) -> (r: bool)
    ensures
        r == eq_nocase(a@, b@),
{
    let n = a.unicode_len();
    if n != b.unicode_len() {
        return false;
    }
    let mut i: usize = 0;
    while i < n
        invariant
            i <= n,
            n == a@.len(),
            n == b@.len(),
            forall|j: int| 0 <= j < i ==> lower_u(a@[j]) == lower_u(b@[j]),
        decreases n - i,
    {
        if lower_u_ex(a.get_char(i)) != lower_u_ex(b.get_char(i)) {
            return false;
        }
        i = i + 1;
    }
    true
}

/// Map a weekday token to its day index, or to the sentinel 6.
pub fn day_from_abbrev(s: &str) -> (d: usize)
    ensures
        d as int == day_spec(s@),
{
    if eq_nocase_ex(s, "mon") {
        0
    } else if eq_nocase_ex(s, "tue") {
        1
    } else if eq_nocase_ex(s, "wed") {
        2
    } else if eq_nocase_ex(s, "thu") {
        3
    } else if eq_nocase_ex(s, "fri") {
        4
    } else {
        6
    }
}

/// A one-off occurrence of a course outside the regular grid.
#[derive(Debug)]
pub struct CourseExcept {
    pub coursecode: String,
    pub day: usize,
    pub slot: (Time, Time),
}

impl CourseExcept {
    /// The exception covers `time` on `day`.
    pub open spec fn matches(self, time: Time, day: int) -> bool {
        self.day == day && in_between_spec(time, self.slot)
    }

    /// Build from a code, a weekday token and a time-range string. An
    /// unrecognized weekday token is mapped to the sentinel day, which never
    /// matches a query; a malformed range is fatal.
    pub fn new(code: String, day_tok: &str, range: &str) -> (r: Result<CourseExcept, ParseError>)
        ensures
            match parse_range_spec(range@) {
                Some(sl) => r matches Ok(e) && e.coursecode@ == code@ && e.day as int == day_spec(
                    day_tok@,
                ) && e.slot == sl,
                None => r == Err::<CourseExcept, ParseError>(ParseError::InvalidTimeFormat),
            },
    {
        match parse_range(range) {
            Some(slot) => Ok(
                CourseExcept { coursecode: code, day: day_from_abbrev(day_tok), slot },
            ),
            None => Err(ParseError::InvalidTimeFormat),
        }
    }

    /// The exception covers `time` on `day`.
    pub fn in_between(&self, time: Time, day: usize) -> (r: bool)
        ensures
            r == self.matches(time, day as int),
    {
        self.day == day && time.in_between(self.slot)
    }
}

/// Position of the first slot whose range contains `now`.
pub open spec fn first_slot(slots: Seq<(Time, Time)>, now: Time) -> Option<int>
    decreases slots.len(),
{
    if slots.len() == 0 {
        None
    } else if in_between_spec(now, slots[0]) {
        Some(0int)
    } else {
        match first_slot(slots.drop_first(), now) {
            None => None,
            Some(i) => Some(i + 1),
        }
    }
}

/// What `first_slot` returns: the first containing slot, or nothing.
pub proof fn lemma_first_slot(slots: Seq<(Time, Time)>, now: Time)
    ensures
        match first_slot(slots, now) {
            Some(i) => 0 <= i < slots.len() && in_between_spec(now, slots[i]) && forall|j: int|
                0 <= j < i ==> !in_between_spec(now, slots[j]),
            None => forall|j: int| 0 <= j < slots.len() ==> !in_between_spec(now, slots[j]),
        },
    decreases slots.len(),
{
    if slots.len() > 0 && !in_between_spec(now, slots[0]) {
        let rest = slots.drop_first();
        lemma_first_slot(rest, now);
        match first_slot(rest, now) {
            Some(i) => {
                assert forall|j: int| 0 <= j < i + 1 implies !in_between_spec(now, slots[j]) by {
                    if j > 0 {
                        assert(!in_between_spec(now, rest[j - 1]));
                    }
                }
            },
            None => {
                assert forall|j: int| 0 <= j < slots.len() implies !in_between_spec(
                    now,
                    slots[j],
                ) by {
                    if j > 0 {
                        assert(!in_between_spec(now, rest[j - 1]));
                    }
                }
            },
        }
    }
}

/// Position of the first course claiming `label`.
pub open spec fn first_course(courses: Seq<Course>, label: Seq<char>) -> Option<int>
    decreases courses.len(),
{
    if courses.len() == 0 {
        None
    } else if courses[0].matches(label) {
        Some(0int)
    } else {
        match first_course(courses.drop_first(), label) {
            None => None,
            Some(i) => Some(i + 1),
        }
    }
}

/// What `first_course` returns: the first claiming course, or nothing.
pub proof fn lemma_first_course(courses: Seq<Course>, label: Seq<char>)
    ensures
        match first_course(courses, label) {
            Some(i) => 0 <= i < courses.len() && courses[i].matches(label) && forall|j: int|
                0 <= j < i ==> !courses[j].matches(label),
            None => forall|j: int| 0 <= j < courses.len() ==> !courses[j].matches(label),
        },
    decreases courses.len(),
{
    if courses.len() > 0 && !courses[0].matches(label) {
        let rest = courses.drop_first();
        lemma_first_course(rest, label);
        match first_course(rest, label) {
            Some(i) => {
                assert forall|j: int| 0 <= j < i + 1 implies !courses[j].matches(label) by {
                    if j > 0 {
                        assert(!rest[j - 1].matches(label));
                    }
                }
            },
            None => {
                assert forall|j: int| 0 <= j < courses.len() implies !courses[j].matches(label) by {
                    if j > 0 {
                        assert(!rest[j - 1].matches(label));
                    }
                }
            },
        }
    }
}

/// Position of the first exception covering (`now`, `day`).
pub open spec fn first_except(excepts: Seq<CourseExcept>, now: Time, day: int) -> Option<int>
    decreases excepts.len(),
{
    if excepts.len() == 0 {
        None
    } else if excepts[0].matches(now, day) {
        Some(0int)
    } else {
        match first_except(excepts.drop_first(), now, day) {
            None => None,
            Some(i) => Some(i + 1),
        }
    }
}

/// What `first_except` returns: the first covering exception, or nothing.
pub proof fn lemma_first_except(excepts: Seq<CourseExcept>, now: Time, day: int)
    ensures
        match first_except(excepts, now, day) {
            Some(i) => 0 <= i < excepts.len() && excepts[i].matches(now, day) && forall|j: int|
                0 <= j < i ==> !excepts[j].matches(now, day),
            None => forall|j: int| 0 <= j < excepts.len() ==> !excepts[j].matches(now, day),
        },
    decreases excepts.len(),
{
    if excepts.len() > 0 && !excepts[0].matches(now, day) {
        let rest = excepts.drop_first();
        lemma_first_except(rest, now, day);
        match first_except(rest, now, day) {
            Some(i) => {
                assert forall|j: int| 0 <= j < i + 1 implies !excepts[j].matches(now, day) by {
                    if j > 0 {
                        assert(!rest[j - 1].matches(now, day));
                    }
                }
            },
            None => {
                assert forall|j: int| 0 <= j < excepts.len() implies !excepts[j].matches(
                    now,
                    day,
                ) by {
                    if j > 0 {
                        assert(!rest[j - 1].matches(now, day));
                    }
                }
            },
        }
    }
}

/// The weekly schedule: ordered time slots, the day-by-slot label grid,
/// the regular courses and the one-off exceptions, all in definition order.
#[derive(Debug)]
pub struct TimeTable {
    pub time_slots: Vec<(Time, Time)>,
    pub day_schedule: Vec<Vec<String>>,
    pub courses: Vec<Course>,
    pub excepts: Vec<CourseExcept>,
}

/// The label at the grid cell (`day`, `slot`), trimmed.
pub open spec fn active_label(t: TimeTable, day: int, slot: int) -> Seq<char> {
    trim_spec(t.day_schedule@[day]@[slot]@)
}

/// The resolution rule, first match wins at every step: find the first slot
/// containing `now` (none, or a weekend day, resolves to nothing); take the
/// trimmed label of its grid cell; the first course claiming that label wins;
/// otherwise the first exception covering (`now`, `day`) wins.
pub open spec fn resolve_spec(t: TimeTable, now: Time, day: int) -> Option<Seq<char>> {
    if day >= 5 {
        None
    } else {
        match first_slot(t.time_slots@, now) {
            None => None,
            Some(s) => {
                let label = active_label(t, day, s);
                match first_course(t.courses@, label) {
                    Some(c) => Some(t.courses@[c].coursecode@),
                    None => match first_except(t.excepts@, now, day) {
                        Some(e) => Some(t.excepts@[e].coursecode@),
                        None => None,
                    },
                }
            },
        }
    }
}

/// The character views of a sequence of (code, labels) string pairs.
pub open spec fn pair_views(v: Seq<(String, String)>) -> Seq<(Seq<char>, Seq<char>)> {
    Seq::new(v.len(), |i: int| (v[i].0@, v[i].1@))
}

/// The character views of a sequence of (code, day, range) string triples.
pub open spec fn triple_views(v: Seq<(String, String, String)>) -> Seq<
    (Seq<char>, Seq<char>, Seq<char>),
> {
    Seq::new(v.len(), |i: int| (v[i].0@, v[i].1@, v[i].2@))
}

/// Every slot string parses as a time range.
pub open spec fn slots_ok(rows: Seq<Seq<char>>) -> bool {
    forall|i: int| 0 <= i < rows.len() ==> parse_range_spec(rows[i]) is Some
}

/// The first five day rows each provide a label for every slot.
pub open spec fn grid_ok(days: Seq<Seq<char>>, nslots: nat) -> bool {
    days.len() >= 5 && forall|d: int| 0 <= d < 5 ==> split_spec(days[d], ',').len() >= nslots
}

/// Every exception's range string parses as a time range.
pub open spec fn excepts_ok(entries: Seq<(Seq<char>, Seq<char>, Seq<char>)>) -> bool {
    forall|i: int| 0 <= i < entries.len() ==> parse_range_spec(entries[i].2) is Some
}

/// The sections build a valid model.
pub open spec fn sections_ok(
    slots: Seq<Seq<char>>,
    days: Seq<Seq<char>>,
    excepts: Seq<(Seq<char>, Seq<char>, Seq<char>)>,
) -> bool {
    slots_ok(slots) && grid_ok(days, slots.len()) && excepts_ok(excepts)
}

/// The error reported for sections that do not build, in processing order:
/// slot ranges first, then the grid shape, then the exception ranges.
pub open spec fn sections_err(
    slots: Seq<Seq<char>>,
    days: Seq<Seq<char>>,
) -> ParseError {
    if slots_ok(slots) && !grid_ok(days, slots.len()) {
        ParseError::InvalidGridShape
    } else {
        ParseError::InvalidTimeFormat
    }
}

/// The model `t` is exactly what the four sections describe: each slot
/// string parsed, each day row split into its labels, each course's labels
/// split verbatim, each exception's day token folded and range parsed —
/// everything in the sections' order.
pub open spec fn builds(
    t: TimeTable,
    slots: Seq<Seq<char>>,
    days: Seq<Seq<char>>,
    courses: Seq<(Seq<char>, Seq<char>)>,
    excepts: Seq<(Seq<char>, Seq<char>, Seq<char>)>,
) -> bool {
    &&& t.wf()
    &&& t.time_slots@.len() == slots.len()
    &&& forall|i: int| 0 <= i < slots.len() ==> Some(t.time_slots@[i]) == parse_range_spec(slots[i])
    &&& t.day_schedule@.len() == days.len()
    &&& forall|d: int| 0 <= d < days.len() ==> views_of(t.day_schedule@[d]@) == split_spec(days[d], ',')
    &&& t.courses@.len() == courses.len()
    &&& forall|i: int|
        0 <= i < courses.len() ==> t.courses@[i].coursecode@ == courses[i].0 && views_of(
            t.courses@[i].slots@,
        ) == split_spec(courses[i].1, ',')
    &&& t.excepts@.len() == excepts.len()
    &&& forall|i: int|
        0 <= i < excepts.len() ==> t.excepts@[i].coursecode@ == excepts[i].0
            && t.excepts@[i].day as int == day_spec(excepts[i].1) && Some(t.excepts@[i].slot)
            == parse_range_spec(excepts[i].2)
}

impl TimeTable {
    /// Well-formed: the grid has a label for every (weekday, slot) cell, so
    /// resolution is total.
    pub open spec fn wf(self) -> bool {
        self.day_schedule@.len() >= 5 && forall|d: int|
            0 <= d < 5 ==> self.day_schedule@[d]@.len() >= self.time_slots@.len()
    }

    /// Resolve a point in time against the model: the code of the course in
    /// session at `now` on `day`, if any.
    pub fn resolve(&self, now: Time, day: usize) -> (r: Option<String>)
        requires
            self.wf(),
        ensures
            r.deep_view() == resolve_spec(*self, now, day as int),
    {
        let nslots = self.time_slots.len();
        let mut slot_id: Option<usize> = None;
        let mut i: usize = 0;
        while i < nslots
            invariant
                i <= nslots,
                nslots == self.time_slots@.len(),
                match slot_id {
                    Some(s) => s < i && in_between_spec(now, self.time_slots@[s as int])
                        && forall|j: int|
                        0 <= j < s ==> !in_between_spec(now, self.time_slots@[j]),
                    None => forall|j: int|
                        0 <= j < i ==> !in_between_spec(now, self.time_slots@[j]),
                },
            decreases nslots - i,
        {
            if slot_id.is_none() && now.in_between(self.time_slots[i]) {
                slot_id = Some(i);
            }
            i = i + 1;
        }
        proof {
            lemma_first_slot(self.time_slots@, now);
        }
        let slot_id = match slot_id {
            Some(s) => s,
            None => {
                return None;
            },
        };
        if day >= 5 {
            return None;
        }
        proof {
            assert(first_slot(self.time_slots@, now) == Some(slot_id as int));
        }
        let label = trim(self.day_schedule[day][slot_id].as_str());
        let ncourses = self.courses.len();
        let mut i: usize = 0;
        while i < ncourses
            invariant
                i <= ncourses,
                ncourses == self.courses@.len(),
                day < 5,
                first_slot(self.time_slots@, now) == Some(slot_id as int),
                label@ == active_label(*self, day as int, slot_id as int),
                forall|j: int| 0 <= j < i ==> !self.courses@[j].matches(label@),
            decreases ncourses - i,
        {
            if self.courses[i].in_slot(label) {
                proof {
                    lemma_first_course(self.courses@, label@);
                    assert(first_course(self.courses@, label@) == Some(i as int));
                }
                return Some(self.courses[i].coursecode.clone());
            }
            i = i + 1;
        }
        proof {
            lemma_first_course(self.courses@, label@);
            assert(first_course(self.courses@, label@) is None);
        }
        let nexc = self.excepts.len();
        let mut i: usize = 0;
        while i < nexc
            invariant
                i <= nexc,
                nexc == self.excepts@.len(),
                first_slot(self.time_slots@, now) is Some,
                day < 5,
                first_course(self.courses@, active_label(*self, day as int, slot_id as int))
                    is None,
                first_slot(self.time_slots@, now) == Some(slot_id as int),
                forall|j: int| 0 <= j < i ==> !self.excepts@[j].matches(now, day as int),
            decreases nexc - i,
        {
            if self.excepts[i].in_between(now, day) {
                proof {
                    lemma_first_except(self.excepts@, now, day as int);
                    assert(first_except(self.excepts@, now, day as int) == Some(i as int));
                }
                return Some(self.excepts[i].coursecode.clone());
            }
            i = i + 1;
        }
        proof {
            lemma_first_except(self.excepts@, now, day as int);
        }
        None
    }

    /// Build the model from the four sections, already extracted as plain
    /// strings: slot range strings, one comma-separated label row per
    /// weekday, (code, labels) course pairs and (code, day, range) exception
    /// triples, each in definition order. Fails on the first malformed time
    /// range, and on a grid that leaves a (weekday, slot) cell without a
    /// label; an unrecognized weekday token is not a fault.
    pub fn from_sections(
        time_slots: Vec<String>,
        day_slots: Vec<String>,
        courses: Vec<(String, String)>,
        excepts: Vec<(String, String, String)>,
    ) -> (r: Result<TimeTable, ParseError>)
        ensures
            r is Ok <==> sections_ok(
                views_of(time_slots@),
                views_of(day_slots@),
                triple_views(excepts@),
            ),
            r matches Err(e) ==> e == sections_err(views_of(time_slots@), views_of(day_slots@)),
            r matches Ok(t) ==> builds(
                t,
                views_of(time_slots@),
                views_of(day_slots@),
                pair_views(courses@),
                triple_views(excepts@),
            ),
    {
        let nslots = time_slots.len();
        let mut slots: Vec<(Time, Time)> = Vec::new();
        let mut i: usize = 0;
        while i < nslots
            invariant
                i <= nslots,
                nslots == time_slots@.len(),
                slots@.len() == i,
                forall|j: int|
                    0 <= j < i ==> Some(slots@[j]) == parse_range_spec(time_slots@[j]@),
            decreases nslots - i,
        {
            match parse_range(time_slots[i].as_str()) {
                Some(p) => slots.push(p),
                None => {
                    proof {
                        assert(views_of(time_slots@)[i as int] == time_slots@[i as int]@);
                        assert(!slots_ok(views_of(time_slots@)));
                    }
                    return Err(ParseError::InvalidTimeFormat);
                },
            }
            i = i + 1;
        }
        proof {
            assert forall|j: int| 0 <= j < views_of(time_slots@).len() implies parse_range_spec(
                views_of(time_slots@)[j],
            ) is Some by {
                assert(Some(slots@[j]) == parse_range_spec(time_slots@[j]@));
            }
            assert(slots_ok(views_of(time_slots@)));
        }
        let ndays = day_slots.len();
        let mut grid: Vec<Vec<String>> = Vec::new();
        let mut i: usize = 0;
        while i < ndays
            invariant
                i <= ndays,
                ndays == day_slots@.len(),
                grid@.len() == i,
                forall|d: int|
                    0 <= d < i ==> views_of(grid@[d]@) == split_spec(day_slots@[d]@, ','),
            decreases ndays - i,
        {
            grid.push(split_char(day_slots[i].as_str(), ','));
            i = i + 1;
        }
        if grid.len() < 5 {
            proof {
                assert(!grid_ok(views_of(day_slots@), views_of(time_slots@).len()));
            }
            return Err(ParseError::InvalidGridShape);
        }
        let mut d: usize = 0;
        while d < 5
            invariant
                d <= 5,
                grid@.len() >= 5,
                grid@.len() == day_slots@.len(),
                slots@.len() == time_slots@.len(),
                slots_ok(views_of(time_slots@)),
                forall|e: int|
                    0 <= e < grid@.len() ==> views_of(grid@[e]@) == split_spec(
                        day_slots@[e]@,
                        ',',
                    ),
                forall|e: int| 0 <= e < d ==> grid@[e]@.len() >= slots@.len(),
            decreases 5 - d,
        {
            if grid[d].len() < slots.len() {
                proof {
                    assert(views_of(grid@[d as int]@).len() == grid@[d as int]@.len());
                    assert(split_spec(views_of(day_slots@)[d as int], ',').len()
                        < views_of(time_slots@).len());
                    assert(!grid_ok(views_of(day_slots@), views_of(time_slots@).len()));
                }
                return Err(ParseError::InvalidGridShape);
            }
            d = d + 1;
        }
        proof {
            assert forall|dd: int| 0 <= dd < 5 implies split_spec(
                views_of(day_slots@)[dd],
                ',',
            ).len() >= views_of(time_slots@).len() by {
                assert(views_of(grid@[dd]@) == split_spec(day_slots@[dd]@, ','));
                assert(views_of(grid@[dd]@).len() == grid@[dd]@.len());
            }
            assert(grid_ok(views_of(day_slots@), views_of(time_slots@).len()));
        }
        let ncourses = courses.len();
        let mut cs: Vec<Course> = Vec::new();
        let mut i: usize = 0;
        while i < ncourses
            invariant
                i <= ncourses,
                ncourses == courses@.len(),
                cs@.len() == i,
                forall|j: int|
                    0 <= j < i ==> cs@[j].coursecode@ == courses@[j].0@ && views_of(
                        cs@[j].slots@,
                    ) == split_spec(courses@[j].1@, ','),
            decreases ncourses - i,
        {
            let code = courses[i].0.clone();
            let labels = courses[i].1.clone();
            cs.push(Course::new(code, labels));
            i = i + 1;
        }
        let nexc = excepts.len();
        let mut es: Vec<CourseExcept> = Vec::new();
        let mut i: usize = 0;
        while i < nexc
            invariant
                i <= nexc,
                nexc == excepts@.len(),
                es@.len() == i,
                slots_ok(views_of(time_slots@)),
                grid_ok(views_of(day_slots@), views_of(time_slots@).len()),
                forall|j: int|
                    0 <= j < i ==> es@[j].coursecode@ == excepts@[j].0@ && es@[j].day as int
                        == day_spec(excepts@[j].1@) && Some(es@[j].slot) == parse_range_spec(
                        excepts@[j].2@,
                    ),
            decreases nexc - i,
        {
            let code = excepts[i].0.clone();
            match CourseExcept::new(code, excepts[i].1.as_str(), excepts[i].2.as_str()) {
                Ok(e) => es.push(e),
                Err(e) => {
                    proof {
                        assert(triple_views(excepts@)[i as int].2 == excepts@[i as int].2@);
                        assert(!excepts_ok(triple_views(excepts@)));
                    }
                    return Err(e);
                },
            }
            i = i + 1;
        }
        proof {
            assert forall|j: int| 0 <= j < triple_views(excepts@).len() implies parse_range_spec(
                triple_views(excepts@)[j].2,
            ) is Some by {
                assert(Some(es@[j].slot) == parse_range_spec(excepts@[j].2@));
            }
            assert(excepts_ok(triple_views(excepts@)));
        }
        Ok(TimeTable { time_slots: slots, day_schedule: grid, courses: cs, excepts: es })
    }
}

} // verus!

use vstd::prelude::*;

use crate::schedule::{builds, sections_err, sections_ok, ParseError, Section, TimeTable};
use crate::text::views_of;

verus! {

#[verifier::external_type_specification]
#[verifier::external_body]
pub struct ExJsonValue(json::JsonValue);

// Names for what the json crate's calls return. Each result is a function
// of the arguments alone, too involved to write out, so the trusted items
// below state their results through these names and nothing else.

/// The value tree that JSON text parses to; nothing when the text is not
/// valid JSON.
pub uninterp spec fn json_doc(text: Seq<char>) -> Option<json::JsonValue>;

/// The member of a value under a key: JSON null when the key is absent or
/// the value is not an object.
pub uninterp spec fn member_of(v: json::JsonValue, key: Seq<char>) -> json::JsonValue;

/// The elements of a value when it is an array; nothing otherwise.
pub uninterp spec fn array_elems(v: json::JsonValue) -> Option<Seq<json::JsonValue>>;

/// The (key, value) entries of a value when it is an object, in the
/// document's definition order; nothing otherwise.
pub uninterp spec fn entries_of(v: json::JsonValue) -> Option<Seq<(Seq<char>, json::JsonValue)>>;

/// The text of a value: the raw characters of a string value, "null" for
/// null, the serialized JSON of anything else.
pub uninterp spec fn text_of(v: json::JsonValue) -> Seq<char>;

/// Relies on json::parse: the value tree of the text, a function of the
/// text alone; it fails exactly on invalid JSON.
#[verifier::external_body]
fn parse_json(s: &str) -> (r: Option<json::JsonValue>)
    ensures
        r == json_doc(s@),
{
    match json::parse(s) {
        Ok(v) => Some(v),
        Err(_) => None,
    }
}

/// Relies on JsonValue's `Index<&str>`: the member of an object under
/// `key`, or JSON null when the key is absent or `v` is not an object; a
/// function of the value and the key alone.
#[verifier::external_body]
fn json_member<'a>(v: &'a json::JsonValue, key: &str) -> (r: &'a json::JsonValue)
    ensures
        *r == member_of(*v, key@),
{
    &v[key]
}

/// Relies on the JsonValue::Array variant: the elements when `v` is an
/// array, nothing otherwise.
#[verifier::external_body]
fn json_as_array(v: &json::JsonValue) -> (r: Option<&Vec<json::JsonValue>>)
    ensures
        match r {
            Some(a) => array_elems(*v) == Some(a@),
            None => array_elems(*v) is None,
        },
{
    match v {
        json::JsonValue::Array(a) => Some(a),
        _ => None,
    }
}

/// The views of owned (key, value) entry pairs.
pub open spec fn entry_views(es: Seq<(String, json::JsonValue)>) -> Seq<
    (Seq<char>, json::JsonValue),
> {
    Seq::new(es.len(), |i: int| (es[i].0@, es[i].1))
}

/// Relies on json::object::Object::iter: the (key, value) entries when `v`
/// is an object, nothing otherwise. The iterator walks the object's store
/// in insertion order, so the entries keep the document's definition order.
#[verifier::external_body]
fn json_entries(v: &json::JsonValue) -> (r: Option<Vec<(String, json::JsonValue)>>)
    ensures
        match r {
            Some(es) => entries_of(*v) == Some(entry_views(es@)),
            None => entries_of(*v) is None,
        },
{
    match v {
        json::JsonValue::Object(o) => Some(
            o.iter().map(|(k, x)| (k.to_string(), x.clone())).collect(),
        ),
        _ => None,
    }
}

/// Relies on JsonValue's Display: the text of the value, a function of the
/// value alone.
#[verifier::external_body]
fn json_text(v: &json::JsonValue) -> (r: String)
    ensures
        r@ == text_of(*v),
{
    v.to_string()
}

/// The texts of a sequence of JSON values.
pub open spec fn texts_of(elems: Seq<json::JsonValue>) -> Seq<Seq<char>> {
    Seq::new(elems.len(), |i: int| text_of(elems[i]))
}

/// The slot strings of the document: the "time_slots" array under
/// "TimeTable", each element as text.
pub open spec fn doc_slot_texts(root: json::JsonValue) -> Option<Seq<Seq<char>>> {
    match array_elems(member_of(member_of(root, "TimeTable"@), "time_slots"@)) {
        None => None,
        Some(elems) => Some(texts_of(elems)),
    }
}

/// The day rows of the document: the "day_slots" array under "TimeTable",
/// each element as text.
pub open spec fn doc_day_texts(root: json::JsonValue) -> Option<Seq<Seq<char>>> {
    match array_elems(member_of(member_of(root, "TimeTable"@), "day_slots"@)) {
        None => None,
        Some(elems) => Some(texts_of(elems)),
    }
}

/// The (code, labels) pairs of an object's entries, values as text.
pub open spec fn course_pairs_of(m: Seq<(Seq<char>, json::JsonValue)>) -> Seq<
    (Seq<char>, Seq<char>),
> {
    Seq::new(m.len(), |i: int| (m[i].0, text_of(m[i].1)))
}

/// The text of `arr[i]`, or the text of JSON null when `i` is out of
/// range, as indexing a JSON array out of range yields null.
pub open spec fn elem_text(arr: Seq<json::JsonValue>, i: int) -> Seq<char> {
    if 0 <= i < arr.len() {
        text_of(arr[i])
    } else {
        "null"@
    }
}

/// Every exception entry's value has array shape.
pub open spec fn excepts_shape_ok(m: Seq<(Seq<char>, json::JsonValue)>) -> bool {
    forall|i: int| 0 <= i < m.len() ==> array_elems(m[i].1) is Some
}

/// The (code, day, range) triples of an object's entries, each value read
/// as a [day, range] array.
pub open spec fn except_triples_of(m: Seq<(Seq<char>, json::JsonValue)>) -> Seq<
    (Seq<char>, Seq<char>, Seq<char>),
> {
    Seq::new(
        m.len(),
        |i: int|
            (
                m[i].0,
                elem_text(array_elems(m[i].1)->0, 0),
                elem_text(array_elems(m[i].1)->0, 1),
            ),
    )
}

/// What extracting the four sections from the document text yields: the
/// first fault in extraction order — invalid JSON, then each absent or
/// mis-shaped section named, then a non-array exception entry — or the
/// sections as plain strings.
pub open spec fn doc_outcome(text: Seq<char>) -> Result<
    (
        Seq<Seq<char>>,
        Seq<Seq<char>>,
        Seq<(Seq<char>, Seq<char>)>,
        Seq<(Seq<char>, Seq<char>, Seq<char>)>,
    ),
    ParseError,
> {
    match json_doc(text) {
        None => Err(ParseError::InvalidJson),
        Some(root) => match doc_slot_texts(root) {
            None => Err(ParseError::MissingSection(Section::TimeSlots)),
            Some(slots) => match doc_day_texts(root) {
                None => Err(ParseError::MissingSection(Section::DaySlots)),
                Some(days) => match entries_of(member_of(root, "Courses"@)) {
                    None => Err(ParseError::MissingSection(Section::Courses)),
                    Some(cm) => match entries_of(member_of(root, "Exceptions"@)) {
                        None => Err(ParseError::MissingSection(Section::Exceptions)),
                        Some(em) => if excepts_shape_ok(em) {
                            Ok((slots, days, course_pairs_of(cm), except_triples_of(em)))
                        } else {
                            Err(ParseError::InvalidExceptionFormat)
                        },
                    },
                },
            },
        },
    }
}

/// The text of `arr[i]`, or the text of JSON null when `i` is out of
/// range.
fn element_text(arr: &Vec<json::JsonValue>, i: usize) -> (r: String)
    ensures
        r@ == elem_text(arr@, i as int),
{
    if i < arr.len() {
        json_text(&arr[i])
    } else {
        "null".to_owned()
    }
}

impl TimeTable {
    /// Load the model from the configuration document's JSON text: find the
    /// four sections, read their entries out as plain strings, and hand them
    /// to the verified builder. The result is fixed as a function of the
    /// text: the extraction faults of `doc_outcome` (invalid JSON, each
    /// absent or mis-shaped section by name, a non-array exception entry)
    /// come first, then the builder's exact contract over the extracted
    /// sections.
    pub fn from_json(text: &str) -> (r: Result<TimeTable, ParseError>)
        ensures
            r is Ok <==> (doc_outcome(text@) matches Ok(s) && sections_ok(s.0, s.1, s.3)),
            r matches Err(e) ==> e == (match doc_outcome(text@) {
                Ok(s) => sections_err(s.0, s.1),
                Err(e0) => e0,
            }),
            r matches Ok(t) ==> (doc_outcome(text@) matches Ok(s) && builds(
                t,
                s.0,
                s.1,
                s.2,
                s.3,
            )),
    {
        let root = match parse_json(text) {
            Some(v) => v,
            None => {
                return Err(ParseError::InvalidJson);
            },
        };
        let timetable = json_member(&root, "TimeTable");
        let slots_json = match json_as_array(json_member(timetable, "time_slots")) {
            Some(a) => a,
            None => {
                return Err(ParseError::MissingSection(Section::TimeSlots));
            },
        };
        let mut slot_strs: Vec<String> = Vec::new();
        let mut i: usize = 0;
        while i < slots_json.len()
            invariant
                i <= slots_json@.len(),
                slot_strs@.len() == i,
                forall|j: int| 0 <= j < i ==> slot_strs@[j]@ == text_of(slots_json@[j]),
            decreases slots_json@.len() - i,
        {
            slot_strs.push(json_text(&slots_json[i]));
            i = i + 1;
        }
        proof {
            assert(views_of(slot_strs@) =~= texts_of(slots_json@));
        }
        let days_json = match json_as_array(json_member(timetable, "day_slots")) {
            Some(a) => a,
            None => {
                return Err(ParseError::MissingSection(Section::DaySlots));
            },
        };
        let mut day_strs: Vec<String> = Vec::new();
        let mut i: usize = 0;
        while i < days_json.len()
            invariant
                i <= days_json@.len(),
                day_strs@.len() == i,
                forall|j: int| 0 <= j < i ==> day_strs@[j]@ == text_of(days_json@[j]),
            decreases days_json@.len() - i,
        {
            day_strs.push(json_text(&days_json[i]));
            i = i + 1;
        }
        proof {
            assert(views_of(day_strs@) =~= texts_of(days_json@));
        }
        let course_entries = match json_entries(json_member(&root, "Courses")) {
            Some(v) => v,
            None => {
                return Err(ParseError::MissingSection(Section::Courses));
            },
        };
        let mut course_pairs: Vec<(String, String)> = Vec::new();
        let mut i: usize = 0;
        while i < course_entries.len()
            invariant
                i <= course_entries@.len(),
                course_pairs@.len() == i,
                forall|j: int|
                    0 <= j < i ==> course_pairs@[j].0@ == course_entries@[j].0@
                        && course_pairs@[j].1@ == text_of(course_entries@[j].1),
            decreases course_entries@.len() - i,
        {
            let code = course_entries[i].0.clone();
            course_pairs.push((code, json_text(&course_entries[i].1)));
            i = i + 1;
        }
        proof {
            assert(crate::schedule::pair_views(course_pairs@) =~= course_pairs_of(
                entry_views(course_entries@),
            ));
        }
        let except_entries = match json_entries(json_member(&root, "Exceptions")) {
            Some(v) => v,
            None => {
                return Err(ParseError::MissingSection(Section::Exceptions));
            },
        };
        let mut except_triples: Vec<(String, String, String)> = Vec::new();
        let mut i: usize = 0;
        while i < except_entries.len()
            invariant
                i <= except_entries@.len(),
                except_triples@.len() == i,
                json_doc(text@) == Some(root),
                doc_slot_texts(root) is Some,
                doc_day_texts(root) is Some,
                entries_of(member_of(root, "Courses"@)) is Some,
                entries_of(member_of(root, "Exceptions"@)) == Some(
                    entry_views(except_entries@),
                ),
                forall|j: int|
                    0 <= j < i ==> array_elems(except_entries@[j].1) is Some
                        && except_triples@[j].0@ == except_entries@[j].0@
                        && except_triples@[j].1@ == elem_text(
                        array_elems(except_entries@[j].1)->0,
                        0,
                    ) && except_triples@[j].2@ == elem_text(
                        array_elems(except_entries@[j].1)->0,
                        1,
                    ),
            decreases except_entries@.len() - i,
        {
            let arr = match json_as_array(&except_entries[i].1) {
                Some(a) => a,
                None => {
                    proof {
                        assert(entry_views(except_entries@)[i as int].1
                            == except_entries@[i as int].1);
                        assert(!excepts_shape_ok(entry_views(except_entries@)));
                    }
                    return Err(ParseError::InvalidExceptionFormat);
                },
            };
            let code = except_entries[i].0.clone();
            let day_tok = element_text(arr, 0);
            let range = element_text(arr, 1);
            except_triples.push((code, day_tok, range));
            i = i + 1;
        }
        proof {
            let em = entry_views(except_entries@);
            assert forall|j: int| 0 <= j < em.len() implies array_elems(em[j].1) is Some by {
                assert(array_elems(except_entries@[j].1) is Some);
            }
            assert(excepts_shape_ok(em));
            assert(crate::schedule::triple_views(except_triples@) =~= except_triples_of(em));
        }
        TimeTable::from_sections(slot_strs, day_strs, course_pairs, except_triples)
    }
}

} // verus!

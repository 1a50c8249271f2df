//! Determines which course is "currently in session" from a declarative
//! weekly timetable: a verified schedule model with its time grammar and
//! resolution rules, a JSON loader for the configuration document, and a
//! wall-clock front end.

pub mod clock;
pub mod jsonio;
pub mod laws;
pub mod schedule;
pub mod text;
pub mod time;

pub use schedule::{Course, CourseExcept, ParseError, Section, TimeTable};
pub use time::Time;

//! Rewrites the events of a course calendar.
//!
//! A registrar exports each course meeting as a calendar event whose fields
//! follow fixed conventions. This library puts three of them into a form that
//! reads well in a calendar:
//!
//! - the summary `250 Data Structures` becomes `Data Structures 250`;
//! - the location `Engineering and Science Ctr,room 101` becomes `ENS 101`;
//! - the description `REG,[LEC],taught by Doe, John` becomes
//!   `Class Type: LEC | Professor(s): John Doe`.
//!
//! A field that does not follow its convention is left as it is, and a
//! [`event::Warning`] says so. Everything else in an event is left as it is.
//!
//! [`text`] defines the operations on character sequences that the conventions
//! are stated with. [`building`], [`summary`], [`location`] and [`description`]
//! each hold one convention. [`event`] rewrites one event and [`calendar`] a
//! whole calendar; both work on the types of the `icalendar` crate, whose
//! behaviour [`ical`] states. [`calendar::convert`] goes from a text to the
//! rewritten calendar; writing that calendar out as text is left to the caller.

pub mod building;
pub mod calendar;
pub mod description;
pub mod event;
pub mod ical;
pub mod location;
pub mod summary;
pub mod text;

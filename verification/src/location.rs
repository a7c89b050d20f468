//! The location of a course event: its building and its room.
//!
//! A location arrives as `<building>,room <room>` and leaves as
//! `<building code> <room>`.

use crate::building::{building_code, building_label, translate_building};
use crate::text::{remove_all, split_once, split_pair, to_chars, to_string, trim, trimmed, without};
use vstd::prelude::*;
use vstd::string::StringExecFns;

verus! {

/// What a location says, as sequences of characters.
pub struct LocationModel {
    /// The full name of the building.
    pub building: Seq<char>,
    /// The code of the building, if it has one.
    pub code: Option<Seq<char>>,
    /// The room, without the word `room`.
    pub room: Seq<char>,
}

/// What a location says.
#[derive(Debug, PartialEq, Eq)]
pub struct ParsedLocation {
    /// The full name of the building.
    pub building: String,
    /// The code of the building, if it has one.
    pub code: Option<String>,
    /// The room, without the word `room`.
    pub room: String,
}

impl View for ParsedLocation {
    type V = LocationModel;

    open spec fn view(&self) -> LocationModel {
        LocationModel {
            building: self.building@,
            code: self.code.deep_view(),
            room: self.room@,
        }
    }
}

impl DeepView for ParsedLocation {
    type V = LocationModel;

    open spec fn deep_view(&self) -> LocationModel {
        self@
    }
}

/// What the location `s` says. The building is what stands before the first
/// comma of `s`. The room is what stands after it, with every `room` taken out
/// and then trimmed. A location without a comma says nothing.
pub open spec fn parsed(s: Seq<char>) -> Option<LocationModel> {
    match split_pair(s, ","@) {
        Some((building, room)) => Some(
            LocationModel {
                building,
                code: building_code(building),
                room: trimmed(without(room, "room"@)),
            },
        ),
        None => None,
    }
}

/// The text that stands for `l` in a rewritten event: the code of the
/// building, or its full name where it has no code, then a space and the room.
pub open spec fn formatted(l: LocationModel) -> Seq<char> {
    match l.code {
        Some(code) => code + " "@ + l.room,
        None => l.building + " "@ + l.room,
    }
}

/// The rewritten form of the location `s`, if `s` holds a comma.
pub open spec fn translated(s: Seq<char>) -> Option<Seq<char>> {
    match parsed(s) {
        Some(l) => Some(formatted(l)),
        None => None,
    }
}

impl ParsedLocation {
    /// The text that stands for this location in a rewritten event.
    pub fn format(&self) -> (r: String)
        ensures
            r@ == formatted(self@),
    {
        let mut r = match &self.code {
            Some(code) => String::from_str(code.as_str()),
            None => String::from_str(self.building.as_str()),
        };
        r.append(" ");
        r.append(self.room.as_str());
        r
    }
}

/// Reads the location `location`, or returns nothing where it holds no comma.
pub fn parse_location(location: &str) -> (r: Option<ParsedLocation>)
    ensures
        r.deep_view() == parsed(location@),
{
    let chars = to_chars(location);
    let comma = to_chars(",");
    match split_once(chars.as_slice(), comma.as_slice()) {
        Some((building, room)) => {
            let building = to_string(building.as_slice());
            let code = match translate_building(building.as_str()) {
                Some(code) => Some(String::from_str(code)),
                None => None,
            };
            let word = to_chars("room");
            let room = remove_all(room.as_slice(), word.as_slice());
            let room = trim(room.as_slice());
            Some(ParsedLocation { building, code, room: to_string(room.as_slice()) })
        },
        None => None,
    }
}

/// Rewrites the location `location` as building code, space, room, or returns
/// nothing where it holds no comma. A building without a code keeps its name.
pub fn translate_location(location: &str) -> (r: Option<String>)
    ensures
        r.deep_view() == translated(location@),
{
    match parse_location(location) {
        Some(l) => Some(l.format()),
        None => None,
    }
}

/// The rewritten location is the label that stands for the building (its
/// code, or its own name where it has none), a space, and the room without the
/// word `room`.
pub proof fn lemma_translated(s: Seq<char>)
    ensures
        translated(s) == match split_pair(s, ","@) {
            Some((building, room)) => Some(
                building_label(building) + " "@ + trimmed(without(room, "room"@)),
            ),
            None => None,
        },
{
}

} // verus!

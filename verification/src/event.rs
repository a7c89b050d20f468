//! One event of a calendar: its summary, location and description are each
//! rewritten where they can be read, and left as they are where they cannot.

use crate::building::{miss_message, miss_text};
use crate::description::{translate_description, DescriptionError};
use crate::ical::{
    add_property, clone_event, event_properties, event_rest, get_description, get_summary,
    no_parameters, property_value, set_description, set_summary, value_of, Properties,
};
use crate::location::parse_location;
use crate::summary::translate_summary;
use icalendar::Event;
use vstd::prelude::*;
use vstd::string::StringExecFns;

verus! {

/// Something in an event that could not be rewritten as intended.
#[derive(Debug, PartialEq, Eq)]
pub enum Warning {
    /// The summary holds no space: it is left as it is.
    Summary,
    /// The location holds no comma: it is left as it is.
    Location,
    /// The building of the location, named here, has no code.
    UnknownBuilding(String),
    /// The name of a building without a code stands in the rewritten location.
    /// It follows each `UnknownBuilding`.
    BuildingKept,
    /// The description cannot be read, for the reason given: it is left as it
    /// is.
    Description(DescriptionError),
}

/// A warning, with the building's name as a sequence of characters.
pub enum WarningModel {
    /// The summary holds no space.
    Summary,
    /// The location holds no comma.
    Location,
    /// The building of the location, named here, has no code.
    UnknownBuilding(Seq<char>),
    /// The name of a building without a code stands in the rewritten location.
    BuildingKept,
    /// The description cannot be read, for the reason given.
    Description(DescriptionError),
}

impl View for Warning {
    type V = WarningModel;

    open spec fn view(&self) -> WarningModel {
        match self {
            Warning::Summary => WarningModel::Summary,
            Warning::Location => WarningModel::Location,
            Warning::UnknownBuilding(name) => WarningModel::UnknownBuilding(name@),
            Warning::BuildingKept => WarningModel::BuildingKept,
            Warning::Description(e) => WarningModel::Description(*e),
        }
    }
}

impl DeepView for Warning {
    type V = WarningModel;

    open spec fn deep_view(&self) -> WarningModel {
        self@
    }
}

/// The line that tells a reader of `w`.
pub open spec fn message_text(w: WarningModel) -> Seq<char> {
    match w {
        WarningModel::Summary => "Failed to parse summary data - reusing original."@,
        WarningModel::Location => "Failed to parse location data - reusing original."@,
        WarningModel::UnknownBuilding(name) => miss_text(name),
        WarningModel::BuildingKept => "Failed to translate building name - reusing original."@,
        WarningModel::Description(_) => "Failed to parse description - reusing original."@,
    }
}

impl Warning {
    /// The line that tells a reader of this warning.
    pub fn message(&self) -> (r: String)
        ensures
            r@ == message_text(self@),
    {
        match self {
            Warning::Summary => String::from_str(
                "Failed to parse summary data - reusing original.",
            ),
            Warning::Location => String::from_str(
                "Failed to parse location data - reusing original.",
            ),
            Warning::UnknownBuilding(name) => miss_message(name.as_str()),
            Warning::BuildingKept => String::from_str(
                "Failed to translate building name - reusing original.",
            ),
            Warning::Description(_) => String::from_str(
                "Failed to parse description - reusing original.",
            ),
        }
    }
}

/// The summary that replaces the one in `p`, if `p` has a summary that can be
/// reordered.
pub open spec fn new_summary(p: Properties) -> Option<Seq<char>> {
    match value_of(p, "SUMMARY"@) {
        Some(text) => crate::summary::reordered(text),
        None => None,
    }
}

/// The location that replaces the one in `p`, if `p` has a location that can be
/// read.
pub open spec fn new_location(p: Properties) -> Option<Seq<char>> {
    match value_of(p, "LOCATION"@) {
        Some(text) => crate::location::translated(text),
        None => None,
    }
}

/// The description that replaces the one in `p`, if `p` has a description that
/// can be read.
pub open spec fn new_description(p: Properties) -> Option<Seq<char>> {
    match value_of(p, "DESCRIPTION"@) {
        Some(text) => match crate::description::translated(text) {
            Ok(new_text) => Some(new_text),
            Err(_) => None,
        },
        None => None,
    }
}

/// `p` with a property `name` of the value `value` and without parameters in
/// the place of the one that `p` has, or `p` itself where there is no value.
pub open spec fn replaced(p: Properties, name: Seq<char>, value: Option<Seq<char>>) -> Properties {
    match value {
        Some(text) => p.insert(name, (text, no_parameters())),
        None => p,
    }
}

/// The properties of the rewritten event, given the properties `p` of the
/// event: summary, location and description are each replaced where `p` has a
/// readable one, and everything else is as in `p`.
pub open spec fn rewritten(p: Properties) -> Properties {
    replaced(
        replaced(replaced(p, "SUMMARY"@, new_summary(p)), "LOCATION"@, new_location(p)),
        "DESCRIPTION"@,
        new_description(p),
    )
}

/// The warning that the summary in `p` gives rise to, if any.
pub open spec fn summary_warnings(p: Properties) -> Seq<WarningModel> {
    match value_of(p, "SUMMARY"@) {
        Some(text) => if crate::summary::reordered(text) is None {
            seq![WarningModel::Summary]
        } else {
            Seq::empty()
        },
        None => Seq::empty(),
    }
}

/// The warnings that the location in `p` gives rise to, if any: one where it
/// cannot be read, two where its building has no code.
pub open spec fn location_warnings(p: Properties) -> Seq<WarningModel> {
    match value_of(p, "LOCATION"@) {
        Some(text) => match crate::location::parsed(text) {
            Some(l) => if l.code is None {
                seq![WarningModel::UnknownBuilding(l.building), WarningModel::BuildingKept]
            } else {
                Seq::empty()
            },
            None => seq![WarningModel::Location],
        },
        None => Seq::empty(),
    }
}

/// The warning that the description in `p` gives rise to, if any.
pub open spec fn description_warnings(p: Properties) -> Seq<WarningModel> {
    match value_of(p, "DESCRIPTION"@) {
        Some(text) => match crate::description::translated(text) {
            Ok(_) => Seq::empty(),
            Err(e) => seq![WarningModel::Description(e)],
        },
        None => Seq::empty(),
    }
}

/// The warnings that an event with the properties `p` gives rise to: those of
/// its summary, then of its location, then of its description.
pub open spec fn warnings_of(p: Properties) -> Seq<WarningModel> {
    summary_warnings(p) + location_warnings(p) + description_warnings(p)
}

/// Rewrites one event. Returns a copy of `event` in which the summary, the
/// location and the description are each replaced by their rewritten form
/// where they are present and can be read, and the warnings for those that are
/// present and cannot. A property that is replaced loses its parameters;
/// everything else in the event is as it was.
pub fn transform_event(event: &Event) -> (r: (Event, Vec<Warning>))
    ensures
        event_properties(r.0) == rewritten(event_properties(*event)),
        event_rest(r.0) == event_rest(*event),
        r.1.deep_view() == warnings_of(event_properties(*event)),
{
    let mut new_event = clone_event(event);
    let mut warnings: Vec<Warning> = Vec::new();

    match get_summary(event) {
        Some(text) => match translate_summary(text) {
            Some(new_text) => {
                set_summary(&mut new_event, new_text.as_str());
            },
            None => {
                warnings.push(Warning::Summary);
            },
        },
        None => {},
    }

    match property_value(event, "LOCATION") {
        Some(text) => match parse_location(text) {
            Some(l) => {
                let new_text = l.format();
                add_property(&mut new_event, "LOCATION", new_text.as_str());
                if l.code.is_none() {
                    warnings.push(Warning::UnknownBuilding(l.building));
                    warnings.push(Warning::BuildingKept);
                }
            },
            None => {
                warnings.push(Warning::Location);
            },
        },
        None => {},
    }

    match get_description(event) {
        Some(text) => match translate_description(text) {
            Ok(new_text) => {
                set_description(&mut new_event, new_text.as_str());
            },
            Err(e) => {
                warnings.push(Warning::Description(e));
            },
        },
        None => {},
    }
    (new_event, warnings)
}

/// The three names that are rewritten differ from each other.
proof fn lemma_names_differ()
    ensures
        "SUMMARY"@ != "LOCATION"@,
        "SUMMARY"@ != "DESCRIPTION"@,
        "LOCATION"@ != "DESCRIPTION"@,
{
    reveal_strlit("SUMMARY");
    reveal_strlit("LOCATION");
    reveal_strlit("DESCRIPTION");
    assert("LOCATION"@.len() == 8);
    assert("DESCRIPTION"@.len() == 11);
}

/// Rewriting adds no property and removes none.
pub proof fn lemma_same_names(p: Properties)
    ensures
        rewritten(p).dom() == p.dom(),
{
}

/// Rewriting leaves every property but summary, location and description as
/// it is, with its value and its parameters.
pub proof fn lemma_others_kept(p: Properties, name: Seq<char>)
    requires
        name != "SUMMARY"@,
        name != "LOCATION"@,
        name != "DESCRIPTION"@,
    ensures
        rewritten(p).contains_key(name) == p.contains_key(name),
        p.contains_key(name) ==> rewritten(p)[name] == p[name],
{
}

/// Of summary, location and description each is either replaced by its
/// rewritten form, without parameters, or, where it has none, left as it is.
pub proof fn lemma_replaced_or_kept(p: Properties)
    ensures
        match new_summary(p) {
            Some(text) => rewritten(p)["SUMMARY"@] == (text, no_parameters()),
            None => p.contains_key("SUMMARY"@) ==> rewritten(p)["SUMMARY"@] == p["SUMMARY"@],
        },
        match new_location(p) {
            Some(text) => rewritten(p)["LOCATION"@] == (text, no_parameters()),
            None => p.contains_key("LOCATION"@) ==> rewritten(p)["LOCATION"@] == p["LOCATION"@],
        },
        match new_description(p) {
            Some(text) => rewritten(p)["DESCRIPTION"@] == (text, no_parameters()),
            None => p.contains_key("DESCRIPTION"@) ==> rewritten(p)["DESCRIPTION"@]
                == p["DESCRIPTION"@],
        },
{
    lemma_names_differ();
}

/// A description with fewer than two commas stays as it is, and a warning
/// says so.
pub proof fn lemma_unreadable_description(p: Properties, text: Seq<char>)
    requires
        value_of(p, "DESCRIPTION"@) == Some(text),
        !crate::description::has_two_commas(text),
    ensures
        rewritten(p)["DESCRIPTION"@] == p["DESCRIPTION"@],
        description_warnings(p) == seq![WarningModel::Description(DescriptionError::MissingComma)],
{
    lemma_names_differ();
    crate::description::lemma_missing_comma(text);
}

} // verus!

//! The calendar types of the `icalendar` crate, as far as the rewriting reads
//! and writes them.
//!
//! Nothing in this file is proved. Each item states what the `icalendar` crate
//! does, and the rest of the library is proved on that footing.

use icalendar::{Calendar, CalendarComponent, Component, Event};
use vstd::prelude::*;

verus! {

/// A calendar: `icalendar::Calendar`.
#[verifier::external_type_specification]
#[verifier::external_body]
pub struct ExCalendar(icalendar::Calendar);

/// A component of a calendar, of any kind: `icalendar::CalendarComponent`.
/// A `Calendar` gives access to its components as a slice of them.
#[verifier::external_type_specification]
#[verifier::external_body]
pub struct ExCalendarComponent(icalendar::CalendarComponent);

/// An event of a calendar: `icalendar::Event`.
#[verifier::external_type_specification]
#[verifier::external_body]
pub struct ExEvent(icalendar::Event);

/// The parameters of a property: name to value.
pub type Parameters = Map<Seq<char>, Seq<char>>;

/// Properties of an event: name to value and parameters.
pub type Properties = Map<Seq<char>, (Seq<char>, Parameters)>;

/// What is told of an event: the properties that it holds once each, and the
/// rest of it as lines.
pub type EventModel = (Properties, Seq<Seq<char>>);

/// The properties that `event` holds once each, by name: what its map
/// `properties` holds. Each property is given by its value and by its
/// parameters, name to value.
pub uninterp spec fn event_properties(event: Event) -> Map<
    Seq<char>,
    (Seq<char>, Map<Seq<char>, Seq<char>>),
>;

/// What `event` holds besides `event_properties`, as lines and in order. First
/// comes each property that the event may hold several times (its map
/// `multi_properties`, by name and then in the order held), as the line that
/// `Property::to_line` writes for it. Then comes each component nested in the
/// event (its list `components`): a line `BEGIN:` with its kind, the lines of
/// all that it holds, and a line `END:` with its kind.
pub uninterp spec fn event_rest(event: Event) -> Seq<Seq<char>>;

/// The components of `calendar` in order, as its field `components` holds
/// them: for an event its `event_properties` and its `event_rest`, for a
/// component of another kind nothing.
pub uninterp spec fn calendar_components(calendar: Calendar) -> Seq<
    Option<(Map<Seq<char>, (Seq<char>, Map<Seq<char>, Seq<char>>)>, Seq<Seq<char>>)>,
>;

/// The components of the calendar that `text` is read as, or nothing where
/// `text` is not read as a calendar.
pub uninterp spec fn parsed_components(text: Seq<char>) -> Option<
    Seq<Option<(Map<Seq<char>, (Seq<char>, Map<Seq<char>, Seq<char>>)>, Seq<Seq<char>>)>>,
>;

/// The value that `properties` gives for `name`, if it gives one.
pub open spec fn value_of(properties: Properties, name: Seq<char>) -> Option<Seq<char>> {
    if properties.contains_key(name) {
        Some(properties[name].0)
    } else {
        None
    }
}

/// No parameters at all.
pub open spec fn no_parameters() -> Parameters {
    Map::empty()
}

/// What is told of `event`: its `event_properties` and its `event_rest`.
pub open spec fn event_model(event: Event) -> EventModel {
    (event_properties(event), event_rest(event))
}

/// `str::parse` into a `Calendar`, which is `Calendar::from_str`: unfolds the
/// lines of `text` and reads them as a calendar. What comes back depends on
/// `text` alone; `parsed_components` names it.
#[verifier::external_body]
pub(crate) fn parse_calendar(text: &str) -> (r: Result<Calendar, String>)
    ensures
        match r {
            Ok(calendar) => parsed_components(text@) == Some(calendar_components(calendar)),
            Err(_) => parsed_components(text@) is None,
        },
{
    text.parse::<Calendar>()
}

/// The length of the field `components` of a `Calendar`.
#[verifier::external_body]
pub(crate) fn component_count(calendar: &Calendar) -> (n: usize)
    ensures
        n == calendar_components(*calendar).len(),
{
    calendar.components.len()
}

/// The component at place `i` of the field `components`, if it is the variant
/// `CalendarComponent::Event`.
#[verifier::external_body]
pub(crate) fn event_at(calendar: &Calendar, i: usize) -> (r: Option<&Event>)
    requires
        i < calendar_components(*calendar).len(),
    ensures
        match r {
            Some(event) => calendar_components(*calendar)[i as int] == Some(event_model(*event)),
            None => calendar_components(*calendar)[i as int] is None,
        },
{
    match &calendar.components[i] {
        CalendarComponent::Event(event) => Some(event),
        _ => None,
    }
}

/// `Calendar::new`: a calendar without components.
#[verifier::external_body]
pub(crate) fn new_calendar() -> (calendar: Calendar)
    ensures
        calendar_components(calendar).len() == 0,
{
    Calendar::new()
}

/// `Calendar::push` with an `Event`: appends the event as the last component.
#[verifier::external_body]
pub(crate) fn push_event(calendar: &mut Calendar, event: Event)
    ensures
        calendar_components(*final(calendar)) == calendar_components(*old(calendar)).push(
            Some(event_model(event)),
        ),
{
    calendar.push(event);
}

/// `Event::clone`, which `derive` wrote: an event that holds the same as
/// `event`.
#[verifier::external_body]
pub(crate) fn clone_event(event: &Event) -> (copy: Event)
    ensures
        event_properties(copy) == event_properties(*event),
        event_rest(copy) == event_rest(*event),
{
    event.clone()
}

/// `Component::get_summary`: the value of the property `SUMMARY`, if the event
/// has that property.
#[verifier::external_body]
pub(crate) fn get_summary(event: &Event) -> (r: Option<&str>)
    ensures
        r.deep_view() == value_of(event_properties(*event), "SUMMARY"@),
{
    event.get_summary()
}

/// `Component::property_value`: the value of the property `name`, if the event
/// has that property.
#[verifier::external_body]
pub(crate) fn property_value<'a>(event: &'a Event, name: &str) -> (r: Option<&'a str>)
    ensures
        r.deep_view() == value_of(event_properties(*event), name@),
{
    event.property_value(name)
}

/// `Component::get_description`: the value of the property `DESCRIPTION`, if
/// the event has that property.
#[verifier::external_body]
pub(crate) fn get_description(event: &Event) -> (r: Option<&str>)
    ensures
        r.deep_view() == value_of(event_properties(*event), "DESCRIPTION"@),
{
    event.get_description()
}

/// `Component::summary`: puts a property `SUMMARY` with the value `text` and
/// no parameters in the place of the one that the event had, if it had one, and
/// leaves everything else as it is.
#[verifier::external_body]
pub(crate) fn set_summary(event: &mut Event, text: &str)
    ensures
        event_properties(*final(event)) == event_properties(*old(event)).insert(
            "SUMMARY"@,
            (text@, no_parameters()),
        ),
        event_rest(*final(event)) == event_rest(*old(event)),
{
    event.summary(text);
}

/// `Component::add_property`: puts a property `name` with the value `text` and
/// no parameters in the place of the one that the event had, if it had one, and
/// leaves everything else as it is.
#[verifier::external_body]
pub(crate) fn add_property(event: &mut Event, name: &str, text: &str)
    ensures
        event_properties(*final(event)) == event_properties(*old(event)).insert(
            name@,
            (text@, no_parameters()),
        ),
        event_rest(*final(event)) == event_rest(*old(event)),
{
    event.add_property(name, text);
}

/// `Component::description`: puts a property `DESCRIPTION` with the value
/// `text` and no parameters in the place of the one that the event had, if it
/// had one, and leaves everything else as it is.
#[verifier::external_body]
pub(crate) fn set_description(event: &mut Event, text: &str)
    ensures
        event_properties(*final(event)) == event_properties(*old(event)).insert(
            "DESCRIPTION"@,
            (text@, no_parameters()),
        ),
        event_rest(*final(event)) == event_rest(*old(event)),
{
    event.description(text);
}

} // verus!

//! A whole calendar: its events are rewritten one by one, in order, into a new
//! calendar.

use crate::event::{rewritten, transform_event, warnings_of, Warning, WarningModel};
use crate::ical::{
    calendar_components, component_count, event_at, new_calendar, parse_calendar,
    parsed_components, push_event, EventModel,
};
use icalendar::Calendar;
use vstd::prelude::*;

verus! {

/// The rewritten form of the event `e`: its properties rewritten, the rest of
/// it as it was.
pub open spec fn rewritten_event(e: EventModel) -> EventModel {
    (rewritten(e.0), e.1)
}

/// The components of the rewritten calendar, given the components `c` of the
/// calendar: the events of `c` in their order, each rewritten. Components of
/// another kind are not carried over.
pub open spec fn rewritten_components(c: Seq<Option<EventModel>>) -> Seq<Option<EventModel>> {
    c.filter(|x: Option<EventModel>| x is Some).map_values(
        |x: Option<EventModel>| Some(rewritten_event(x.unwrap())),
    )
}

/// The warnings that a calendar with the components `c` gives rise to: those
/// of its first event, then those of its second, and so on.
pub open spec fn calendar_warnings(c: Seq<Option<EventModel>>) -> Seq<WarningModel>
    decreases c.len(),
{
    if c.len() == 0 {
        Seq::empty()
    } else {
        calendar_warnings(c.drop_last()) + match c.last() {
            Some(e) => warnings_of(e.0),
            None => Seq::empty(),
        }
    }
}

/// Rewrites the events of `calendar` into a new calendar. Returns that
/// calendar, which holds the rewritten events in the order of `calendar` and no
/// other component, and the warnings of all events in that order.
pub fn transform_calendar(calendar: &Calendar) -> (r: (Calendar, Vec<Warning>))
    ensures
        calendar_components(r.0) == rewritten_components(calendar_components(*calendar)),
        r.1.deep_view() == calendar_warnings(calendar_components(*calendar)),
{
    let ghost c = calendar_components(*calendar);
    let ghost is_event = |x: Option<EventModel>| x is Some;
    let ghost rewrite = |x: Option<EventModel>| Some(rewritten_event(x.unwrap()));
    let mut output = new_calendar();
    let mut warnings: Vec<Warning> = Vec::new();
    let count = component_count(calendar);
    let mut i: usize = 0;
    while i < count
        invariant
            i <= count,
            count == c.len(),
            c == calendar_components(*calendar),
            is_event == |x: Option<EventModel>| x is Some,
            rewrite == |x: Option<EventModel>| Some(rewritten_event(x.unwrap())),
            calendar_components(output) == c.take(i as int).filter(is_event).map_values(rewrite),
            warnings.deep_view() == calendar_warnings(c.take(i as int)),
        decreases count - i,
    {
        proof {
            let before = c.take(i as int);
            assert(c.take(i + 1).drop_last() == before);
            assert(c.take(i + 1) == before.push(c[i as int]));
            before.lemma_filter_push(c[i as int], is_event);
        }
        match event_at(calendar, i) {
            Some(event) => {
                let (new_event, mut event_warnings) = transform_event(event);
                push_event(&mut output, new_event);
                warnings.append(&mut event_warnings);
            },
            None => {},
        }
        i += 1;
    }
    assert(c.take(count as int) == c);
    (output, warnings)
}

/// A rewritten calendar.
#[derive(Debug)]
pub struct Conversion {
    /// The calendar, with its events rewritten.
    pub calendar: Calendar,
    /// What could not be rewritten as intended, in the order of the events.
    pub warnings: Vec<Warning>,
}

/// Why a text could not be converted.
#[derive(Clone, Copy, Debug, PartialEq, Eq, Structural)]
pub enum ConvertError {
    /// The text is not read as a calendar.
    NotACalendar,
}

/// Reads `text` as a calendar and rewrites its events. Fails exactly when
/// `text` is not read as a calendar. The calendar that comes back holds the
/// events of the one read, in their order, each rewritten.
pub fn convert(text: &str) -> (r: Result<Conversion, ConvertError>)
    ensures
        match parsed_components(text@) {
            Some(c) => {
                &&& r matches Ok(conversion)
                &&& calendar_components(conversion.calendar) == rewritten_components(c)
                &&& conversion.warnings.deep_view() == calendar_warnings(c)
            },
            None => r matches Err(ConvertError::NotACalendar),
        },
{
    match parse_calendar(text) {
        Ok(calendar) => {
            let (output, warnings) = transform_calendar(&calendar);
            Ok(Conversion { calendar: output, warnings })
        },
        Err(_) => Err(ConvertError::NotACalendar),
    }
}

/// Every event of the rewritten calendar stands for exactly one event of the
/// calendar, in the same order: the rewritten calendar holds as many
/// components as the calendar holds events, and each is the rewritten form of
/// the event at its place among them.
pub proof fn lemma_one_to_one(c: Seq<Option<EventModel>>)
    ensures
        ({
            let events = c.filter(|x: Option<EventModel>| x is Some);
            &&& rewritten_components(c).len() == events.len()
            &&& events.len() <= c.len()
            &&& forall|i: int|
                0 <= i < events.len() ==> events[i] is Some && #[trigger] rewritten_components(c)[i]
                    == Some(rewritten_event(events[i].unwrap()))
        }),
{
}

} // verus!

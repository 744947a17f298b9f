//! The Mac's calendar store as the Calendar page sees it: whether events
//! may be read, and the events of a span. The system store itself is read
//! by the app; a platform without one reports that it has none.
use crate::calendar::CalendarEvent;
use vstd::prelude::*;

verus! {

#[derive(Clone, Copy, Debug, PartialEq, Eq, Structural)]
pub enum Access {
    /// The system has not asked yet. Only the macOS store reports it.
    NotAsked,
    /// Refused, restricted, or write-only: AgentInc cannot read events.
    Denied,
    Granted,
}

/// What the system's authorization status code means for reading events:
/// 0 is not determined, 3 is full access, anything else cannot read.
pub fn access_from_status(status: i32) -> (r: Access)
    ensures
        r == (if status == 0 {
            Access::NotAsked
        } else if status == 3 {
            Access::Granted
        } else {
            Access::Denied
        }),
{
    if status == 0 {
        Access::NotAsked
    } else if status == 3 {
        Access::Granted
    } else {
        Access::Denied
    }
}

/// Access after the system prompt: granted when the person said yes,
/// otherwise whatever the store now reports.
pub fn access_after_request(answer: Option<bool>, reported: Access) -> (r: Access)
    ensures
        r == (if answer == Some(true) {
            Access::Granted
        } else {
            reported
        }),
{
    match answer {
        Some(true) => Access::Granted,
        _ => reported,
    }
}

/// Where imported events come from. Tests substitute a fixed source.
pub trait CalendarSource {
    fn access(&self) -> Access;

    /// Ask once through the system prompt.
    fn request(&self) -> Access;

    /// Every event overlapping `[start, end)` in Unix seconds.
    fn events(&self, start: i64, end: i64) -> Result<Vec<CalendarEvent>, String>;
}

/// No calendar store on this platform.
pub struct Unavailable;

impl CalendarSource for Unavailable {
    fn access(&self) -> (r: Access)
        ensures
            r == Access::Denied,
    {
        Access::Denied
    }

    fn request(&self) -> (r: Access)
        ensures
            r == Access::Denied,
    {
        Access::Denied
    }

    fn events(&self, start: i64, end: i64) -> (r: Result<Vec<CalendarEvent>, String>)
        ensures
            r matches Err(m) && m@ == "This Mac has no calendar store."@,
    {
        Err(String::from_str("This Mac has no calendar store."))
    }
}

} // verus!

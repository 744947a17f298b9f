//! The calendar state the Dashboard and the Calendar page share: the
//! events of a loaded window, the Mac calendar import, and when either is
//! asked for again. The app performs what a step asks for (a read of the
//! daemon, a read of the Mac's calendars, the system prompt) and hands back
//! what came of it.
use crate::calendar::{
    ago, derefs, soonest, spec_ago, spec_cover, spec_default_window, upcoming, CalendarEvent, DAY,
};
use crate::calendar_store::Access;
use crate::text::{push_str, string_of};
use vstd::prelude::*;

verus! {

/// How far back the Mac's calendars are mirrored.
pub const IMPORT_BEHIND: i64 = 31 * DAY;

/// How far ahead the Mac's calendars are mirrored.
pub const IMPORT_AHEAD: i64 = 365 * DAY;

/// How often, in seconds, an authorized Mac calendar is mirrored again.
pub const SYNC_EVERY: u64 = 15 * 60;

/// The last import of the Mac's calendars, as the daemon reports it.
pub struct ImportView {
    /// "queued", "running", "succeeded" or "failed".
    pub state: String,
    pub created_at: i64,
    pub finished_at: Option<i64>,
}

/// An import is under way.
pub open spec fn import_busy(last: Option<ImportView>) -> bool {
    last matches Some(i) && (i.state@ == "queued"@ || i.state@ == "running"@)
}

/// The Mac's calendars are due to be mirrored again: never mirrored, or
/// `SYNC_EVERY` seconds ago or more.
pub open spec fn spec_sync_due(elapsed: Option<u64>) -> bool {
    match elapsed {
        None => true,
        Some(s) => s >= SYNC_EVERY,
    }
}

/// What the app should start after a step.
#[derive(Clone, Copy, Debug, PartialEq, Eq)]
pub struct CalendarWork {
    /// Read the daemon's events over this window.
    pub refresh: Option<(i64, i64)>,
    /// Read the Mac's calendars over this window and import them.
    pub sync: Option<(i64, i64)>,
}

/// The calendar state and what is under way.
pub struct CalendarModel {
    pub events: Vec<CalendarEvent>,
    pub last_import: Option<ImportView>,
    pub access: Access,
    pub error: Option<String>,
    /// A read of the daemon has finished at least once.
    pub loaded: bool,
    /// The Unix range `events` covers.
    pub window: (i64, i64),
    pub refreshing: bool,
    /// The window moved while a read was under way: read it again when
    /// that read ends.
    pub stale: bool,
    pub syncing: bool,
}

/// The window of the Mac's calendars mirrored from local midnight today.
pub open spec fn import_window(today_start: int) -> (int, int) {
    (today_start - IMPORT_BEHIND, today_start + IMPORT_AHEAD)
}

/// Whether a step asks to mirror the window around local midnight today.
pub open spec fn mirrors(w: Option<(i64, i64)>, today_start: int) -> bool {
    w matches Some((a, b)) && (a as int, b as int) == import_window(today_start)
}

/// The message when an import failed.
pub open spec fn sync_failed(e: Seq<char>) -> Seq<char> {
    "Calendar sync failed: "@ + e
}

/// Whether an optional text is there and reads `t`.
pub open spec fn has_text(o: Option<String>, t: Seq<char>) -> bool {
    o matches Some(m) && m@ == t
}

/// Whether an import state reads "queued" or "running".
fn busy_state(state: &str) -> (r: bool)
    ensures
        r == (state@ == "queued"@ || state@ == "running"@),
{
    crate::calendar::import_running(state)
}

impl CalendarModel {
    /// A model with nothing loaded, the store's access, and the default
    /// window from local midnight today.
    pub fn new(access: Access, today_start: i64) -> (r: CalendarModel)
        requires
            -9_000_000_000_000 <= today_start <= 9_000_000_000_000,
        ensures
            r.events@.len() == 0,
            r.last_import is None,
            r.access == access,
            r.error is None,
            !r.loaded && !r.refreshing && !r.syncing && !r.stale,
            (r.window.0 as int, r.window.1 as int) == spec_default_window(today_start as int),
    {
        CalendarModel {
            events: Vec::new(),
            last_import: None,
            access,
            error: None,
            loaded: false,
            window: crate::calendar::default_window(today_start),
            refreshing: false,
            stale: false,
            syncing: false,
        }
    }

    /// The events are being read again, or the Mac's calendars imported.
    pub fn is_syncing(&self) -> (r: bool)
        ensures
            r == (self.syncing || import_busy(self.last_import)),
    {
        if self.syncing {
            return true;
        }
        match &self.last_import {
            Some(i) => busy_state(i.state.as_str()),
            None => false,
        }
    }

    /// Start a read of the daemon over the window, unless one is under way.
    pub fn refresh(&mut self) -> (r: Option<(i64, i64)>)
        ensures
            r == (if old(self).refreshing {
                None
            } else {
                Some(old(self).window)
            }),
            final(self).refreshing,
            final(self).stale == old(self).stale,
            final(self).last_import == old(self).last_import,
            final(self).window == old(self).window,
            final(self).syncing == old(self).syncing,
            final(self).access == old(self).access,
            final(self).loaded == old(self).loaded,
            final(self).error == old(self).error,
            final(self).events@ == old(self).events@,
    {
        if self.refreshing {
            return None;
        }
        self.refreshing = true;
        Some(self.window)
    }

    /// Make sure the events cover `[from, to)`: widen the window and read
    /// it when they do not. The read starts now, or, while another is under
    /// way, as soon as that one ends.
    pub fn cover(&mut self, from: i64, to: i64) -> (r: Option<(i64, i64)>)
        requires
            i64::MIN + 31 * DAY <= from <= i64::MAX - 368 * DAY,
            to <= i64::MAX - 120 * DAY,
        ensures
            final(self).window.0 <= from && to <= final(self).window.1,
            match spec_cover(old(self).window, from as int, to as int) {
                None => final(self).window == old(self).window && r is None && final(self).refreshing
                    == old(self).refreshing && final(self).stale == old(self).stale,
                Some((a, b)) => {
                    &&& final(self).window.0 == a && final(self).window.1 == b
                    &&& final(self).refreshing
                    &&& r == (if old(self).refreshing {
                        None
                    } else {
                        Some(final(self).window)
                    })
                    &&& final(self).stale == (old(self).stale || old(self).refreshing)
                },
            },
            final(self).syncing == old(self).syncing,
            final(self).events@ == old(self).events@,
    {
        match crate::calendar::cover(self.window, from, to) {
            None => None,
            Some(w) => {
                self.window = w;
                if self.refreshing {
                    self.stale = true;
                }
                self.refresh()
            },
        }
    }

    /// The daemon answered a read: the events and the last import, or why
    /// it could not. When the window moved during the read, the window is
    /// read again and returned.
    pub fn refreshed(&mut self, result: Result<(Vec<CalendarEvent>, Option<ImportView>), String>) -> (r: Option<(i64, i64)>)
        ensures
            r == (if old(self).stale {
                Some(old(self).window)
            } else {
                None
            }),
            final(self).refreshing == old(self).stale,
            !final(self).stale,
            final(self).loaded,
            match result {
                Ok((events, last)) => final(self).events@ == events@ && final(self).last_import
                    == last && final(self).error is None,
                Err(e) => final(self).events@ == old(self).events@ && final(self).last_import
                    == old(self).last_import && has_text(final(self).error, e@),
            },
            final(self).window == old(self).window,
            final(self).syncing == old(self).syncing,
            final(self).access == old(self).access,
    {
        self.refreshing = false;
        self.loaded = true;
        match result {
            Ok((events, last)) => {
                self.events = events;
                self.last_import = last;
                self.error = None;
            },
            Err(e) => {
                self.error = Some(e);
            },
        }
        if self.stale {
            self.stale = false;
            self.refresh()
        } else {
            None
        }
    }

    /// Start mirroring the Mac's calendars, given the access the store now
    /// reports: unless an import is under way or access is not granted.
    pub fn sync(&mut self, access: Access, today_start: i64) -> (r: Option<(i64, i64)>)
        requires
            -9_000_000_000_000 <= today_start <= 9_000_000_000_000,
        ensures
            old(self).syncing ==> r is None && final(self).access == old(self).access
                && final(self).syncing,
            !old(self).syncing ==> final(self).access == access,
            !old(self).syncing && access != Access::Granted ==> r is None && !final(self).syncing,
            !old(self).syncing && access == Access::Granted ==> final(self).syncing && mirrors(r, today_start as int),
            final(self).refreshing == old(self).refreshing,
            final(self).window == old(self).window,
            final(self).error == old(self).error,
            final(self).events@ == old(self).events@,
    {
        if self.syncing {
            return None;
        }
        self.access = access;
        if access != Access::Granted {
            return None;
        }
        self.syncing = true;
        Some((today_start - IMPORT_BEHIND, today_start + IMPORT_AHEAD))
    }

    /// The import finished, well or not; the events are read again.
    pub fn synced(&mut self, result: Result<(), String>) -> (r: Option<(i64, i64)>)
        ensures
            !final(self).syncing,
            match result {
                Ok(()) => final(self).error == old(self).error,
                Err(e) => has_text(final(self).error, sync_failed(e@)),
            },
            final(self).refreshing,
            r == (if old(self).refreshing {
                None
            } else {
                Some(old(self).window)
            }),
            final(self).window == old(self).window,
            final(self).access == old(self).access,
    {
        self.syncing = false;
        if let Err(e) = result {
            let mut v: Vec<char> = Vec::new();
            push_str(&mut v, "Calendar sync failed: ");
            push_str(&mut v, e.as_str());
            self.error = Some(string_of(&v));
        }
        self.refresh()
    }

    /// The person answered the system prompt: mirror the calendars once
    /// access is granted.
    pub fn access_answered(&mut self, access: Access, today_start: i64) -> (r: Option<(i64, i64)>)
        requires
            -9_000_000_000_000 <= today_start <= 9_000_000_000_000,
        ensures
            access != Access::Granted ==> r is None && final(self).access == access && final(self).syncing == old(self).syncing,
            access == Access::Granted && !old(self).syncing ==> final(self).syncing && mirrors(r, today_start as int),
            access == Access::Granted && old(self).syncing ==> r is None,
            final(self).refreshing == old(self).refreshing,
            final(self).window == old(self).window,
    {
        self.access = access;
        if access == Access::Granted {
            self.sync(access, today_start)
        } else {
            None
        }
    }

    /// The periodic check: read again while an import runs, and mirror
    /// the Mac's calendars when access is granted and a mirror is due.
    /// `elapsed` is the seconds since the last mirror started, if any;
    /// `access` is what the store now reports.
    pub fn tick(&mut self, elapsed: Option<u64>, access: Access, today_start: i64) -> (r: CalendarWork)
        requires
            -9_000_000_000_000 <= today_start <= 9_000_000_000_000,
        ensures
            import_busy(old(self).last_import) && !old(self).refreshing ==> r.refresh == Some(old(self).window),
            !import_busy(old(self).last_import) || old(self).refreshing ==> r.refresh is None,
            !(old(self).access == Access::Granted && spec_sync_due(elapsed)) ==> r.sync is None
                && final(self).syncing == old(self).syncing,
            old(self).access == Access::Granted && spec_sync_due(elapsed) && !old(self).syncing
                && access == Access::Granted ==> mirrors(r.sync, today_start as int),
            old(self).access == Access::Granted && spec_sync_due(elapsed) && !old(self).syncing
                ==> final(self).access == access,
            old(self).access == Access::Granted && spec_sync_due(elapsed) && (old(self).syncing
                || access != Access::Granted) ==> r.sync is None,
            final(self).window == old(self).window,
    {
        let busy = match &self.last_import {
            Some(i) => busy_state(i.state.as_str()),
            None => false,
        };
        let refresh = if busy {
            self.refresh()
        } else {
            None
        };
        let due = match elapsed {
            None => true,
            Some(s) => s >= SYNC_EVERY,
        };
        let sync = if self.access == Access::Granted && due {
            self.sync(access, today_start)
        } else {
            None
        };
        CalendarWork { refresh, sync }
    }

    /// The next events that have not ended at `now`, soonest first.
    pub fn upcoming(&self, now: i64, limit: usize) -> (r: Vec<&CalendarEvent>)
        ensures
            soonest(self.events@, now, limit as int, derefs(r@)),
    {
        upcoming(&self.events, now, limit)
    }
}

// ----- How the Calendar page describes the import -------------------------------

/// The line under the Calendar page's title.
pub open spec fn spec_status(access: Access, last: Option<ImportView>, now: int) -> Seq<char> {
    match (access, last) {
        (Access::Granted, Some(i)) => if i.state@ == "failed"@ {
            "Your Mac's calendars could not be imported."@
        } else {
            "Your events and your Mac's calendars · synced "@ + spec_ago(
                match i.finished_at {
                    Some(t) => t as int,
                    None => i.created_at as int,
                },
                now,
            )
        },
        (Access::Granted, None) => "Your events and your Mac's calendars."@,
        _ => "Your AgentInc events."@,
    }
}

/// The moment the last import is described from.
pub open spec fn import_moment(i: ImportView) -> i64 {
    match i.finished_at {
        Some(t) => t,
        None => i.created_at,
    }
}

/// The line under the Calendar page's title: whose events it shows and
/// when the Mac's calendars were last imported.
pub fn status(access: Access, last: &Option<ImportView>, now: i64) -> (r: String)
    requires
        last matches Some(i) ==> i64::MIN <= now - import_moment(*i) <= i64::MAX,
    ensures
        r@ == spec_status(access, *last, now as int),
{
    let mut v: Vec<char> = Vec::new();
    match (access, last) {
        (Access::Granted, Some(i)) => {
            if crate::text::vec_eq(
                &crate::text::chars_of(i.state.as_str()),
                &crate::text::chars_of("failed"),
            ) {
                push_str(&mut v, "Your Mac's calendars could not be imported.");
            } else {
                let at = match i.finished_at {
                    Some(t) => t,
                    None => i.created_at,
                };
                push_str(&mut v, "Your events and your Mac's calendars · synced ");
                let a = ago(at, now);
                push_str(&mut v, a.as_str());
            }
        },
        (Access::Granted, None) => push_str(&mut v, "Your events and your Mac's calendars."),
        _ => push_str(&mut v, "Your AgentInc events."),
    }
    string_of(&v)
}

/// The sync control: a Sync button while access is granted (busy while an
/// import runs), an Allow button before the system has asked, nothing when
/// access is refused.
pub fn sync_control(access: Access, syncing: bool) -> (r: Option<(&'static str, bool)>)
    ensures
        r == (match access {
            Access::Granted => Some(
                (
                    if syncing {
                        "Syncing…"
                    } else {
                        "Sync now"
                    },
                    !syncing,
                ),
            ),
            Access::NotAsked => Some(("Show Mac calendars", true)),
            Access::Denied => None,
        }),
{
    match access {
        Access::Granted => Some(
            (
                if syncing {
                    "Syncing…"
                } else {
                    "Sync now"
                },
                !syncing,
            ),
        ),
        Access::NotAsked => Some(("Show Mac calendars", true)),
        Access::Denied => None,
    }
}

} // verus!

//! What the Dashboard decides before it draws: the greeting for the hour,
//! which light tiles it shows, and which open Tickets it lists first.
use crate::calendar::{day_label, is_stable_order, spec_day_label, spec_until, stable_order, until};
use crate::dates::Date;
use crate::home::{has_switch, find_switch, HomeSwitch, SwitchKey, Tone};
use crate::text::{is_white, trim_start, chars_of, push_str, push_range, string_of};
use vstd::prelude::*;

verus! {

/// The greeting for an hour of the day.
pub open spec fn spec_greeting(hour: u32) -> Seq<char> {
    if 5 <= hour <= 11 {
        "Good morning"@
    } else if 12 <= hour <= 17 {
        "Good afternoon"@
    } else if 18 <= hour <= 23 {
        "Good evening"@
    } else {
        "Hello"@
    }
}

/// "Good morning" until noon, "Good afternoon" until six, "Good evening"
/// until midnight, and a plain hello in the small hours.
pub fn greeting(hour: u32) -> (r: &'static str)
    ensures
        r@ == spec_greeting(hour),
{
    if 5 <= hour && hour <= 11 {
        "Good morning"
    } else if 12 <= hour && hour <= 17 {
        "Good afternoon"
    } else if 18 <= hour && hour <= 23 {
        "Good evening"
    } else {
        "Hello"
    }
}

/// The order the Dashboard lays its light tiles out in.
pub open spec fn tile_order() -> Seq<SwitchKey> {
    seq![
        SwitchKey::All,
        SwitchKey::Lamps,
        SwitchKey::LivingRoomLamps,
        SwitchKey::BedroomLamps,
        SwitchKey::KitchenCeiling,
        SwitchKey::UnderCabinet,
    ]
}

/// The tiles the Dashboard shows: those of `order` the home has, in order.
pub open spec fn shown_tiles(switches: Seq<HomeSwitch>, order: Seq<SwitchKey>) -> Seq<SwitchKey>
    decreases order.len(),
{
    if order.len() == 0 {
        Seq::empty()
    } else {
        let rest = shown_tiles(switches, order.drop_last());
        if has_switch(switches, order.last()) {
            rest.push(order.last())
        } else {
            rest
        }
    }
}

/// Whether the home has a switch with this key.
fn has_key(switches: &Vec<HomeSwitch>, key: SwitchKey) -> (r: bool)
    ensures
        r == has_switch(switches@, key),
{
    let mut i: usize = 0;
    while i < switches.len()
        invariant
            i <= switches.len(),
            find_switch(switches@, key, 0) == find_switch(switches@, key, i as int),
        decreases switches.len() - i,
    {
        if switches[i].key == key {
            return true;
        }
        i += 1;
    }
    false
}

/// The light tiles the Dashboard shows, in its order, skipping switches
/// the home does not have.
pub fn light_tiles(switches: &Vec<HomeSwitch>) -> (r: Vec<SwitchKey>)
    ensures
        r@ == shown_tiles(switches@, tile_order()),
{
    let order = [
        SwitchKey::All,
        SwitchKey::Lamps,
        SwitchKey::LivingRoomLamps,
        SwitchKey::BedroomLamps,
        SwitchKey::KitchenCeiling,
        SwitchKey::UnderCabinet,
    ];
    proof {
        assert(order@ =~= tile_order());
    }
    let mut r: Vec<SwitchKey> = Vec::new();
    let mut i: usize = 0;
    while i < 6
        invariant
            i <= 6,
            order@ == tile_order(),
            r@ == shown_tiles(switches@, order@.take(i as int)),
        decreases 6 - i,
    {
        proof {
            assert(order@.take(i + 1).drop_last() =~= order@.take(i as int));
        }
        if has_key(switches, order[i]) {
            r.push(order[i]);
        }
        i += 1;
    }
    proof {
        assert(order@.take(6) =~= order@);
    }
    r
}

/// The short name a Dashboard tile carries; the icon already says which room.
pub fn short_label(key: SwitchKey) -> (r: &'static str)
    ensures
        r@ == match key {
            SwitchKey::All => "All lights"@,
            SwitchKey::Lamps => "All lamps"@,
            SwitchKey::LivingRoomLamps => "Living room"@,
            SwitchKey::BedroomLamps => "Bedroom"@,
            SwitchKey::KitchenCeiling => "Ceiling"@,
            SwitchKey::UnderCabinet => "Under cabinet"@,
        },
{
    match key {
        SwitchKey::All => "All lights",
        SwitchKey::Lamps => "All lamps",
        SwitchKey::LivingRoomLamps => "Living room",
        SwitchKey::BedroomLamps => "Bedroom",
        SwitchKey::KitchenCeiling => "Ceiling",
        SwitchKey::UnderCabinet => "Under cabinet",
    }
}

// ----- The page title -------------------------------------------------------

/// The word a text starts with: its characters up to the first whitespace.
pub open spec fn leading_word(t: Seq<char>) -> Seq<char>
    decreases t.len(),
{
    if t.len() == 0 || is_white(t[0]) {
        Seq::empty()
    } else {
        seq![t[0]] + leading_word(t.drop_first())
    }
}

/// The first whitespace-separated word of a name, or nothing.
pub open spec fn first_word(name: Seq<char>) -> Seq<char> {
    leading_word(trim_start(name))
}

/// The Dashboard's title: the greeting, and the person's first name after
/// a comma when there is one.
pub open spec fn spec_title(hour: u32, name: Seq<char>) -> Seq<char> {
    if first_word(name).len() == 0 {
        spec_greeting(hour)
    } else {
        spec_greeting(hour) + ", "@ + first_word(name)
    }
}

proof fn lemma_leading_word(t: Seq<char>, k: int)
    requires
        0 <= k <= t.len(),
        forall|m: int| 0 <= m < k ==> !is_white(#[trigger] t[m]),
        k == t.len() || is_white(t[k]),
    ensures
        leading_word(t) == t.take(k),
    decreases k,
{
    if k > 0 {
        lemma_leading_word(t.drop_first(), k - 1);
        assert(t.take(k) =~= seq![t[0]] + t.drop_first().take(k - 1));
    }
}

/// The first whitespace-separated word of a name.
pub fn first_name(name: &str) -> (r: String)
    ensures
        r@ == first_word(name@),
{
    let s = chars_of(name);
    let (start, _) = crate::text::trim_bounds(&s);
    let end = match crate::text::find_white(&s, start) {
        Some(k) => k,
        None => s.len(),
    };
    let mut v: Vec<char> = Vec::new();
    push_range(&mut v, &s, start, end);
    proof {
        let t = s@.subrange(start as int, s.len() as int);
        assert forall|m: int| 0 <= m < end - start implies !is_white(#[trigger] t[m]) by {
            assert(t[m] == s@[m + start]);
        }
        if end < s.len() {
            assert(t[end - start] == s@[end as int]);
        }
        lemma_leading_word(t, end - start);
        assert(t.take(end - start) =~= s@.subrange(start as int, end as int));
    }
    string_of(&v)
}

/// The Dashboard's title for this hour and this person.
pub fn title(hour: u32, name: &str) -> (r: String)
    ensures
        r@ == spec_title(hour, name@),
{
    let first = first_name(name);
    let mut v: Vec<char> = Vec::new();
    push_str(&mut v, greeting(hour));
    if first.as_str().unicode_len() > 0 {
        push_str(&mut v, ", ");
        push_str(&mut v, first.as_str());
    }
    string_of(&v)
}

// ----- Open work --------------------------------------------------------------

/// Where a Ticket stands.
#[derive(Clone, Copy, Debug, PartialEq, Eq, Structural)]
pub enum TicketStatus {
    Backlog,
    ToDo,
    InProgress,
    Done,
}

/// A status as the work list labels it.
pub fn status_label(status: TicketStatus) -> (r: (&'static str, Tone))
    ensures
        r.0@ == match status {
            TicketStatus::InProgress => "In progress"@,
            TicketStatus::ToDo => "To do"@,
            TicketStatus::Backlog => "Backlog"@,
            TicketStatus::Done => "Done"@,
        },
        r.1 == match status {
            TicketStatus::InProgress => Tone::Info,
            TicketStatus::Done => Tone::Success,
            _ => Tone::Neutral,
        },
{
    match status {
        TicketStatus::InProgress => ("In progress", Tone::Info),
        TicketStatus::ToDo => ("To do", Tone::Neutral),
        TicketStatus::Backlog => ("Backlog", Tone::Neutral),
        TicketStatus::Done => ("Done", Tone::Success),
    }
}

/// What the work list reads of a Ticket.
#[derive(Clone, Copy, Debug, PartialEq, Eq, Structural)]
pub struct TicketRow {
    pub id: i64,
    pub status: TicketStatus,
}

/// How many open Tickets the work list shows.
pub const WORK: usize = 5;

/// The Tickets that are not done, in order.
pub open spec fn spec_open(tickets: Seq<TicketRow>) -> Seq<TicketRow> {
    tickets.filter(|t: TicketRow| t.status != TicketStatus::Done)
}

/// The Tickets that are not done, in order.
pub fn open_tickets(tickets: &Vec<TicketRow>) -> (r: Vec<TicketRow>)
    ensures
        r@ == spec_open(tickets@),
{
    let mut r: Vec<TicketRow> = Vec::new();
    let mut i: usize = 0;
    while i < tickets.len()
        invariant
            i <= tickets.len(),
            r@ == spec_open(tickets@.take(i as int)),
        decreases tickets.len() - i,
    {
        proof {
            assert(tickets@.take(i + 1).drop_last() =~= tickets@.take(i as int));
            reveal(Seq::filter);
        }
        if tickets[i].status != TicketStatus::Done {
            r.push(tickets[i]);
        }
        i += 1;
    }
    proof {
        assert(tickets@.take(tickets.len() as int) =~= tickets@);
    }
    r
}

/// How many agent runs are under way: queued or running.
pub open spec fn spec_running(states: Seq<String>) -> nat {
    states.filter(|s: String| s@ == "queued"@ || s@ == "running"@).len()
}

/// How many agent runs are under way: queued or running.
pub fn running_runs(states: &Vec<String>) -> (r: usize)
    ensures
        r == spec_running(states@),
{
    let mut n: usize = 0;
    let mut i: usize = 0;
    while i < states.len()
        invariant
            i <= states.len(),
            n == spec_running(states@.take(i as int)),
            n <= i,
        decreases states.len() - i,
    {
        proof {
            assert(states@.take(i + 1).drop_last() =~= states@.take(i as int));
            reveal(Seq::filter);
        }
        if crate::calendar::import_running(states[i].as_str()) {
            n += 1;
        }
        i += 1;
    }
    proof {
        assert(states@.take(states.len() as int) =~= states@);
    }
    n
}

/// A Ticket's place in the work list: in progress first, then to do, then
/// the rest; newer (larger ID) first within each.
pub open spec fn work_key(t: TicketRow) -> (i64, i64) {
    (
        if t.status == TicketStatus::InProgress {
            0
        } else if t.status == TicketStatus::ToDo {
            1
        } else {
            2
        },
        (-t.id) as i64,
    )
}

/// The sort keys of a list of Tickets.
pub open spec fn work_keys(tickets: Seq<TicketRow>) -> Seq<(i64, i64)> {
    tickets.map_values(|t: TicketRow| work_key(t))
}

/// The positions of the Tickets the work list shows: sorted stably by
/// status and newest first, at most `WORK` of them.
pub fn work_list(open: &Vec<TicketRow>) -> (r: Vec<usize>)
    requires
        forall|k: int| 0 <= k < open.len() ==> #[trigger] open@[k].id > i64::MIN,
    ensures
        exists|order: Seq<usize>|
            #![trigger is_stable_order(work_keys(open@), order)]
            is_stable_order(work_keys(open@), order) && r@ == order.take(
                if order.len() < WORK {
                    order.len() as int
                } else {
                    WORK as int
                },
            ),
{
    let mut keys: Vec<(i64, i64)> = Vec::new();
    let mut i: usize = 0;
    while i < open.len()
        invariant
            i <= open.len(),
            forall|k: int| 0 <= k < open.len() ==> #[trigger] open@[k].id > i64::MIN,
            keys@ == work_keys(open@.take(i as int)),
        decreases open.len() - i,
    {
        let t = open[i];
        let rank: i64 = if t.status == TicketStatus::InProgress {
            0
        } else if t.status == TicketStatus::ToDo {
            1
        } else {
            2
        };
        keys.push((rank, -t.id));
        proof {
            assert(work_keys(open@.take(i + 1)) =~= work_keys(open@.take(i as int)).push(work_key(t)));
        }
        i += 1;
    }
    proof {
        assert(open@.take(open.len() as int) =~= open@);
    }
    let order = stable_order(&keys);
    let n = if order.len() < WORK {
        order.len()
    } else {
        WORK
    };
    let mut r: Vec<usize> = Vec::new();
    let mut j: usize = 0;
    while j < n
        invariant
            j <= n <= order.len(),
            r@ == order@.take(j as int),
        decreases n - j,
    {
        r.push(order[j]);
        proof {
            assert(order@.take(j + 1) =~= order@.take(j as int).push(order@[j as int]));
        }
        j += 1;
    }
    r
}

// ----- The glance band ---------------------------------------------------------

/// How many open Tickets are in progress.
pub open spec fn in_progress_count(open: Seq<TicketRow>) -> nat {
    open.filter(|t: TicketRow| t.status == TicketStatus::InProgress).len()
}

/// The line under the open-work count: "All clear", or how many Tickets
/// are in progress and how many runs are under way.
pub open spec fn spec_work_line(open: Seq<TicketRow>, running: nat) -> Seq<char> {
    if open.len() == 0 {
        "All clear"@
    } else {
        crate::text::decimal(in_progress_count(open)) + " in progress · "@ + crate::text::decimal(
            running,
        ) + " running"@
    }
}

/// The line under the open-work count.
pub fn work_line(open: &Vec<TicketRow>, running: usize) -> (r: String)
    ensures
        r@ == spec_work_line(open@, running as nat),
{
    let mut v: Vec<char> = Vec::new();
    if open.len() == 0 {
        push_str(&mut v, "All clear");
        return string_of(&v);
    }
    let mut n: usize = 0;
    let mut i: usize = 0;
    while i < open.len()
        invariant
            i <= open.len(),
            n == in_progress_count(open@.take(i as int)),
            n <= i,
        decreases open.len() - i,
    {
        proof {
            assert(open@.take(i + 1).drop_last() =~= open@.take(i as int));
            reveal(Seq::filter);
        }
        if open[i].status == TicketStatus::InProgress {
            n += 1;
        }
        i += 1;
    }
    proof {
        assert(open@.take(open.len() as int) =~= open@);
    }
    crate::text::push_decimal(&mut v, n as u64);
    push_str(&mut v, " in progress · ");
    crate::text::push_decimal(&mut v, running as u64);
    push_str(&mut v, " running");
    string_of(&v)
}

/// The line under the next event's time: its title, then "now" once it
/// has started, how long until it starts when that is today, or its day.
/// `day` is the local day it starts on, `today` the local day now.
pub open spec fn spec_next_line(title: Seq<char>, starts_at: i64, now: i64, day: Date, today: Date) -> Seq<char> {
    title + " · "@ + if starts_at <= now {
        "now"@
    } else if day == today {
        spec_until(starts_at as int, now as int)
    } else {
        spec_day_label(day, today)
    }
}

/// The line under the next event's time.
pub fn next_line(title: &str, starts_at: i64, now: i64, day: Date, today: Date) -> (r: String)
    requires
        i64::MIN <= starts_at - now <= i64::MAX,
        day.valid(),
        today.valid(),
    ensures
        r@ == spec_next_line(title@, starts_at, now, day, today),
{
    let mut v: Vec<char> = Vec::new();
    push_str(&mut v, title);
    push_str(&mut v, " · ");
    if starts_at <= now {
        push_str(&mut v, "now");
    } else if day.year == today.year && day.month == today.month && day.day == today.day {
        let u = until(starts_at, now);
        push_str(&mut v, u.as_str());
    } else {
        let l = day_label(day, today);
        push_str(&mut v, l.as_str());
    }
    string_of(&v)
}

/// The line under the inside temperature when there is no thermostat
/// reading: what the home still needs.
pub fn inside_waiting(home_read: bool, connected: bool) -> (r: &'static str)
    ensures
        r@ == (if home_read && !connected {
            "Connect your control center"@
        } else {
            "Waiting for the thermostat"@
        }),
{
    if home_read && !connected {
        "Connect your control center"
    } else {
        "Waiting for the thermostat"
    }
}

// ----- Upcoming ------------------------------------------------------------------

/// How many upcoming events the Dashboard lists.
pub const UPCOMING: usize = 4;

/// Whether `a` is an earlier day than `b`.
pub open spec fn earlier(a: Date, b: Date) -> bool {
    a.year < b.year || (a.year == b.year && (a.month < b.month || (a.month == b.month && a.day < b.day)))
}

/// The day an upcoming event is listed under: its own, or today for one
/// that began earlier.
pub open spec fn listed_day(d: Date, today: Date) -> Date {
    if earlier(d, today) {
        today
    } else {
        d
    }
}

/// Where the list starts a new day, and which: the first event, and each
/// one listed under another day than the one before.
pub open spec fn spec_headings(days: Seq<Date>, today: Date) -> Seq<(int, Date)>
    decreases days.len(),
{
    if days.len() == 0 {
        Seq::empty()
    } else {
        let rest = spec_headings(days.drop_last(), today);
        let k = days.len() - 1;
        if k == 0 || listed_day(days[k], today) != listed_day(days[k - 1], today) {
            rest.push((k, listed_day(days[k], today)))
        } else {
            rest
        }
    }
}

fn listed(d: Date, today: Date) -> (r: Date)
    ensures
        r == listed_day(d, today),
{
    let before = d.year < today.year || (d.year == today.year && (d.month < today.month || (d.month
        == today.month && d.day < today.day)));
    if before {
        today
    } else {
        d
    }
}

/// The day headings of the upcoming list, given the local day each event
/// starts on: the position of the first event under each, and its day.
pub fn headings(days: &Vec<Date>, today: Date) -> (r: Vec<(usize, Date)>)
    ensures
        r@.len() == spec_headings(days@, today).len(),
        forall|k: int|
            0 <= k < r@.len() ==> (#[trigger] r@[k]).0 as int == spec_headings(days@, today)[k].0
                && r@[k].1 == spec_headings(days@, today)[k].1,
{
    let mut r: Vec<(usize, Date)> = Vec::new();
    let mut i: usize = 0;
    while i < days.len()
        invariant
            i <= days.len(),
            r@.len() == spec_headings(days@.take(i as int), today).len(),
            forall|k: int|
                0 <= k < r@.len() ==> (#[trigger] r@[k]).0 as int == spec_headings(
                    days@.take(i as int),
                    today,
                )[k].0 && r@[k].1 == spec_headings(days@.take(i as int), today)[k].1,
        decreases days.len() - i,
    {
        proof {
            assert(days@.take(i + 1).drop_last() =~= days@.take(i as int));
        }
        let here = listed(days[i], today);
        let starts = if i == 0 {
            true
        } else {
            let prev = listed(days[i - 1], today);
            !(here.year == prev.year && here.month == prev.month && here.day == prev.day)
        };
        if starts {
            r.push((i, here));
        }
        i += 1;
    }
    proof {
        assert(days@.take(days.len() as int) =~= days@);
    }
    r
}

/// The note under the list when more events are coming than it shows.
pub fn more_line(total: usize) -> (r: Option<String>)
    ensures
        match r {
            Some(line) => total > UPCOMING && line@ == crate::text::decimal((total - UPCOMING) as nat)
                + " more on the Calendar"@,
            None => total <= UPCOMING,
        },
{
    if total <= UPCOMING {
        return None;
    }
    let mut v: Vec<char> = Vec::new();
    crate::text::push_decimal(&mut v, (total - UPCOMING) as u64);
    push_str(&mut v, " more on the Calendar");
    Some(string_of(&v))
}

} // verus!

//! Single-route navigation, the page catalogue and the recovery of routes
//! from older session files.
use crate::text::{chars_of, contains, contains_seq, trim, trimmed, vec_eq};
use vstd::prelude::*;

verus! {

#[derive(Clone, Copy, Debug, Eq, PartialEq, Hash, Structural)]
pub enum Route {
    Today,
    Tickets,
    Agents,
    Automations,
    Home,
    Calendar,
    Library,
    Apps,
    Assistant,
    Settings,
}

#[derive(Clone, Copy, Debug, Eq, PartialEq, Structural)]
pub enum Availability {
    Ready,
    Planned,
}

#[derive(Clone, Copy, Debug, Eq, PartialEq)]
pub struct PageSpec {
    pub route: Route,
    pub title: &'static str,
    pub icon: &'static str,
    pub in_sidebar: bool,
    pub availability: Availability,
}

pub open spec fn page(
    route: Route,
    title: &'static str,
    icon: &'static str,
    in_sidebar: bool,
    availability: Availability,
) -> PageSpec {
    PageSpec { route, title, icon, in_sidebar, availability }
}

/// Every page, in sidebar order, with Settings last and outside the sidebar.
#[verifier::opaque]
pub open spec fn spec_pages() -> Seq<PageSpec> {
    seq![
        page(Route::Today, "Today", "sun", true, Availability::Ready),
        page(Route::Tickets, "Tickets", "tasks", true, Availability::Ready),
        page(Route::Calendar, "Calendar", "calendar", true, Availability::Planned),
        page(Route::Assistant, "Assistant", "spark", true, Availability::Ready),
        page(Route::Agents, "Agents", "agents", true, Availability::Ready),
        page(Route::Automations, "Automations", "refresh", true, Availability::Ready),
        page(Route::Home, "Home", "home", true, Availability::Planned),
        page(Route::Library, "Library", "photos", true, Availability::Planned),
        page(Route::Apps, "My apps", "grid", true, Availability::Planned),
        page(Route::Settings, "Settings", "settings", false, Availability::Ready),
    ]
}

/// Every page, in sidebar order, with Settings last and outside the sidebar.
pub fn pages() -> (v: Vec<PageSpec>)
    ensures
        v@ == spec_pages(),
{
    let mut v: Vec<PageSpec> = Vec::new();
    v.push(PageSpec { route: Route::Today, title: "Today", icon: "sun", in_sidebar: true, availability: Availability::Ready });
    v.push(PageSpec { route: Route::Tickets, title: "Tickets", icon: "tasks", in_sidebar: true, availability: Availability::Ready });
    v.push(PageSpec { route: Route::Calendar, title: "Calendar", icon: "calendar", in_sidebar: true, availability: Availability::Planned });
    v.push(PageSpec { route: Route::Assistant, title: "Assistant", icon: "spark", in_sidebar: true, availability: Availability::Ready });
    v.push(PageSpec { route: Route::Agents, title: "Agents", icon: "agents", in_sidebar: true, availability: Availability::Ready });
    v.push(PageSpec { route: Route::Automations, title: "Automations", icon: "refresh", in_sidebar: true, availability: Availability::Ready });
    v.push(PageSpec { route: Route::Home, title: "Home", icon: "home", in_sidebar: true, availability: Availability::Planned });
    v.push(PageSpec { route: Route::Library, title: "Library", icon: "photos", in_sidebar: true, availability: Availability::Planned });
    v.push(PageSpec { route: Route::Apps, title: "My apps", icon: "grid", in_sidebar: true, availability: Availability::Planned });
    v.push(PageSpec { route: Route::Settings, title: "Settings", icon: "settings", in_sidebar: false, availability: Availability::Ready });
    assert(v@ =~= spec_pages()) by {
        reveal(spec_pages);
    }
    v
}

/// The routes of the sidebar pages among `ps`, in order.
pub open spec fn sidebar_of(ps: Seq<PageSpec>) -> Seq<Route>
    decreases ps.len(),
{
    if ps.len() == 0 {
        Seq::empty()
    } else if ps.last().in_sidebar {
        sidebar_of(ps.drop_last()).push(ps.last().route)
    } else {
        sidebar_of(ps.drop_last())
    }
}

/// The routes the sidebar shows, top to bottom.
pub open spec fn sidebar_routes() -> Seq<Route> {
    sidebar_of(spec_pages())
}

/// The catalogue entry of a route.
pub open spec fn page_index(route: Route) -> int {
    match route {
        Route::Today => 0,
        Route::Tickets => 1,
        Route::Calendar => 2,
        Route::Assistant => 3,
        Route::Agents => 4,
        Route::Automations => 5,
        Route::Home => 6,
        Route::Library => 7,
        Route::Apps => 8,
        Route::Settings => 9,
    }
}

/// The pages whose title, folded to lower case, holds `query`.
pub open spec fn routes_matching(ps: Seq<PageSpec>, query: Seq<char>) -> Seq<Route>
    decreases ps.len(),
{
    if ps.len() == 0 {
        Seq::empty()
    } else if contains_seq(unicode_lowercase(ps.last().title@), query) {
        routes_matching(ps.drop_last(), query).push(ps.last().route)
    } else {
        routes_matching(ps.drop_last(), query)
    }
}

/// `text` holds `query` starting at some position.
pub open spec fn holds_at(text: Seq<char>, query: Seq<char>, at: int) -> bool {
    0 <= at && at + query.len() <= text.len() && text.subrange(at, at + query.len()) == query
}

/// Every route `routes_matching` lists is the route of one of the pages.
proof fn lemma_matching_from_pages(ps: Seq<PageSpec>, query: Seq<char>, x: Route)
    requires
        routes_matching(ps, query).contains(x),
    ensures
        exists|i: int| 0 <= i < ps.len() && #[trigger] ps[i].route == x,
    decreases ps.len(),
{
    let rest = ps.drop_last();
    let found = routes_matching(rest, query);
    if found.contains(x) {
        lemma_matching_from_pages(rest, query, x);
        let i = choose|i: int| 0 <= i < rest.len() && #[trigger] rest[i].route == x;
        assert(ps[i].route == x);
    } else {
        assert(ps[ps.len() - 1].route == x);
    }
}

/// The page search is a search for the query anywhere in each title: among
/// pages with distinct routes, a page is listed exactly when its title,
/// folded to lower case, holds the query at some position (the start or
/// any other).
pub proof fn law_matching_finds_the_query_anywhere(ps: Seq<PageSpec>, query: Seq<char>, k: int)
    requires
        0 <= k < ps.len(),
        forall|i: int, j: int| 0 <= i < j < ps.len() ==> ps[i].route != ps[j].route,
    ensures
        routes_matching(ps, query).contains(ps[k].route) <==> exists|at: int|
            #[trigger] holds_at(unicode_lowercase(ps[k].title@), query, at),
    decreases ps.len(),
{
    let rest = ps.drop_last();
    let t = unicode_lowercase(ps[k].title@);
    let found = routes_matching(rest, query);
    assert((exists|at: int| #[trigger] holds_at(t, query, at)) <==> contains_seq(t, query)) by {
        if exists|at: int| #[trigger] holds_at(t, query, at) {
            let at = choose|at: int| #[trigger] holds_at(t, query, at);
            assert(t.subrange(at, at + query.len()) == query);
        }
        if contains_seq(t, query) {
            let at = choose|at: int|
                0 <= at <= t.len() - query.len() && #[trigger] t.subrange(at, at + query.len()) == query;
            assert(holds_at(t, query, at));
        }
    }
    if k == ps.len() - 1 {
        if !contains_seq(t, query) && found.contains(ps[k].route) {
            lemma_matching_from_pages(rest, query, ps[k].route);
            let i = choose|i: int| 0 <= i < rest.len() && #[trigger] rest[i].route == ps[k].route;
            assert(ps[i].route == ps[k].route);
        }
        if contains_seq(t, query) {
            assert(routes_matching(ps, query) == found.push(ps[k].route));
            assert(routes_matching(ps, query)[found.len() as int] == ps[k].route);
        }
    } else {
        assert(rest[k] == ps[k]);
        law_matching_finds_the_query_anywhere(rest, query, k);
        let last = ps[ps.len() - 1].route;
        assert(last != ps[k].route);
        if contains_seq(unicode_lowercase(ps.last().title@), query) {
            assert(routes_matching(ps, query) == found.push(last));
            if found.contains(ps[k].route) {
                let j = choose|j: int| 0 <= j < found.len() && found[j] == ps[k].route;
                assert(routes_matching(ps, query)[j] == ps[k].route);
            }
            if routes_matching(ps, query).contains(ps[k].route) {
                let j = choose|j: int|
                    0 <= j < routes_matching(ps, query).len() && routes_matching(ps, query)[j]
                        == ps[k].route;
                assert(j < found.len());
                assert(found[j] == ps[k].route);
            }
        }
    }
}

/// The pages the palette searches have distinct routes, so the search
/// above holds for them.
pub proof fn law_page_search(query: Seq<char>, k: int)
    requires
        0 <= k < spec_pages().len(),
    ensures
        routes_matching(spec_pages(), query).contains(spec_pages()[k].route) <==> exists|at: int|
            #[trigger] holds_at(unicode_lowercase(spec_pages()[k].title@), query, at),
{
    reveal(spec_pages);
    law_matching_finds_the_query_anywhere(spec_pages(), query, k);
}

/// What `str::to_lowercase` gives for a text: full Unicode lower-casing.
pub uninterp spec fn unicode_lowercase(s: Seq<char>) -> Seq<char>;

/// `str::to_lowercase`: the Unicode lower-case form of `s`.
#[verifier::external_body]
pub(crate) fn lowercase(s: &str) -> (r: String)
    ensures
        r@ == unicode_lowercase(s@),
{
    s.to_lowercase()
}

/// The name a session file stores a route under.
pub open spec fn route_key(route: Route) -> Seq<char> {
    match route {
        Route::Today => "today"@,
        Route::Tickets => "tickets"@,
        Route::Agents => "agents"@,
        Route::Automations => "automations"@,
        Route::Home => "home"@,
        Route::Calendar => "calendar"@,
        Route::Library => "library"@,
        Route::Apps => "apps"@,
        Route::Assistant => "evee"@,
        Route::Settings => "settings"@,
    }
}

/// The route a stored name means: its own name, or "tasks" and "assistant",
/// which older versions wrote.
pub open spec fn route_named(key: Seq<char>) -> Option<Route> {
    if key == "today"@ {
        Some(Route::Today)
    } else if key == "tickets"@ || key == "tasks"@ {
        Some(Route::Tickets)
    } else if key == "agents"@ {
        Some(Route::Agents)
    } else if key == "automations"@ {
        Some(Route::Automations)
    } else if key == "home"@ {
        Some(Route::Home)
    } else if key == "calendar"@ {
        Some(Route::Calendar)
    } else if key == "library"@ {
        Some(Route::Library)
    } else if key == "apps"@ {
        Some(Route::Apps)
    } else if key == "evee"@ || key == "assistant"@ {
        Some(Route::Assistant)
    } else if key == "settings"@ {
        Some(Route::Settings)
    } else {
        None
    }
}

pub open spec fn spec_empty(route: Route) -> (Seq<char>, Seq<char>) {
    match route {
        Route::Today => ("Your day starts here"@, "Choose a destination from the sidebar."@),
        Route::Automations => ("No Automations yet"@, "Create a recurring Ticket rule."@),
        Route::Tickets => ("No Tickets yet"@, "Add a Ticket to get started."@),
        Route::Agents => ("No agents connected"@, "Agent runs and reviews will appear here."@),
        Route::Home => ("Home is not connected"@, "Home controls are not connected yet."@),
        Route::Calendar => (
            "No calendars connected"@,
            "Calendar accounts are not connected yet."@,
        ),
        Route::Library => ("No photos yet"@, "Photos and library search are coming later."@),
        Route::Apps => ("No apps yet"@, "Personal apps will appear here."@),
        Route::Assistant => ("No conversations yet"@, "Start a conversation with Evee."@),
        Route::Settings => ("Settings"@, "Manage your account and preferences."@),
    }
}

/// The features a page that is not built yet promises, as title and line.
pub open spec fn spec_planned(route: Route) -> Seq<(Seq<char>, Seq<char>)> {
    match route {
        Route::Tickets => seq![("Capture & organize"@, "Tickets, assignees and their work log."@), ("Priorities & due dates"@, "Keep upcoming work in view."@), ("Reviews"@, "Review work completed with your agents."@)],
        Route::Agents => seq![("Your agents"@, "Connected agents and their capabilities."@), ("Runs"@, "Follow active work and inspect its results."@), ("Approvals"@, "A place for decisions that need you."@)],
        Route::Home => seq![("Rooms & devices"@, "Your connected home, organized by room."@), ("Scenes"@, "Bring familiar device settings together."@), ("Activity"@, "Recent changes from your home."@)],
        Route::Calendar => seq![("Agenda"@, "Upcoming events from connected calendars."@), ("Accounts"@, "Choose which calendars appear here."@), ("Planning"@, "Make room for focused work and everyday life."@)],
        Route::Library => seq![("Collections"@, "Organize the things you want to keep."@), ("Photos"@, "Browse connected photo libraries."@), ("Search"@, "Find items across your library."@)],
        Route::Apps => seq![("Your apps"@, "Open the tools you use most."@), ("Personal tools"@, "A place for small apps made for you."@), ("Connections"@, "Manage the services those tools use."@)],
        Route::Assistant => seq![("Conversations"@, "Return to conversations with your assistant."@), ("Context"@, "Choose what Evee can help you with."@), ("Actions"@, "Review proposed actions before they run."@)],
        _ => Seq::empty(),
    }
}

impl Route {
    /// The route behind ⌘1 … ⌘9: the sidebar entries top to bottom.
    pub fn from_shortcut(number: u8) -> (r: Option<Route>)
        ensures
            r == (if 1 <= number <= 9 && number - 1 < sidebar_routes().len() {
                Some(sidebar_routes()[number - 1])
            } else {
                None::<Route>
            }),
    {
        if !(1 <= number && number <= 9) {
            return None;
        }
        let all = pages();
        let wanted: usize = (number - 1) as usize;
        let mut seen: usize = 0;
        let mut i: usize = 0;
        while i < all.len()
            invariant
                all@ == spec_pages(),
                i <= all.len(),
                seen == sidebar_of(all@.take(i as int)).len(),
                seen <= wanted,
                wanted < 9,
                wanted == number - 1,
            decreases all.len() - i,
        {
            proof {
                assert(all@.take(i + 1).drop_last() == all@.take(i as int));
            }
            if all[i].in_sidebar {
                if seen == wanted {
                    proof {
                        lemma_sidebar_found(all@, i as int);
                        assert(sidebar_of(all@)[seen as int] == all@[i as int].route);
                        assert(sidebar_routes() == sidebar_of(all@));
                        assert(wanted as int == number - 1);
                    }
                    return Some(all[i].route);
                }
                seen += 1;
            }
            i += 1;
        }
        proof {
            assert(all@.take(all.len() as int) == all@);
        }
        None
    }

    /// The name a session file stores this route under.
    pub fn key(self) -> (r: &'static str)
        ensures
            r@ == route_key(self),
    {
        match self {
            Route::Today => "today",
            Route::Tickets => "tickets",
            Route::Agents => "agents",
            Route::Automations => "automations",
            Route::Home => "home",
            Route::Calendar => "calendar",
            Route::Library => "library",
            Route::Apps => "apps",
            Route::Assistant => "evee",
            Route::Settings => "settings",
        }
    }

    /// The route a session file names, by its name or an older one.
    pub fn from_key(key: &str) -> (r: Option<Route>)
        ensures
            r == route_named(key@),
    {
        let k = chars_of(key);
        if vec_eq(&k, &chars_of("today")) {
            Some(Route::Today)
        } else if vec_eq(&k, &chars_of("tickets")) || vec_eq(&k, &chars_of("tasks")) {
            Some(Route::Tickets)
        } else if vec_eq(&k, &chars_of("agents")) {
            Some(Route::Agents)
        } else if vec_eq(&k, &chars_of("automations")) {
            Some(Route::Automations)
        } else if vec_eq(&k, &chars_of("home")) {
            Some(Route::Home)
        } else if vec_eq(&k, &chars_of("calendar")) {
            Some(Route::Calendar)
        } else if vec_eq(&k, &chars_of("library")) {
            Some(Route::Library)
        } else if vec_eq(&k, &chars_of("apps")) {
            Some(Route::Apps)
        } else if vec_eq(&k, &chars_of("evee")) || vec_eq(&k, &chars_of("assistant")) {
            Some(Route::Assistant)
        } else if vec_eq(&k, &chars_of("settings")) {
            Some(Route::Settings)
        } else {
            None
        }
    }

    /// The catalogue entry of this route.
    pub fn spec(self) -> (p: PageSpec)
        ensures
            p == spec_pages()[page_index(self)],
            p.route == self,
    {
        proof {
            reveal(spec_pages);
        }
        let all = pages();
        let p = all[match self {
            Route::Today => 0,
            Route::Tickets => 1,
            Route::Calendar => 2,
            Route::Assistant => 3,
            Route::Agents => 4,
            Route::Automations => 5,
            Route::Home => 6,
            Route::Library => 7,
            Route::Apps => 8,
            Route::Settings => 9,
        }];
        p
    }

    pub fn label(self) -> (r: &'static str)
        ensures
            r == spec_pages()[page_index(self)].title,
    {
        self.spec().title
    }

    pub fn icon(self) -> (r: &'static str)
        ensures
            r == spec_pages()[page_index(self)].icon,
    {
        self.spec().icon
    }

    /// The pages whose title holds the query, ignoring case and the spaces around it.
    pub fn matching(query: &str) -> (r: Vec<Route>)
        ensures
            exists|q: Seq<char>|
                #![trigger unicode_lowercase(q)]
                q == trim(query@) && r@ == routes_matching(spec_pages(), unicode_lowercase(q)),
    {
        let q = string_of_chars(&trimmed(&chars_of(query)));
        let needle = chars_of(lowercase(q.as_str()).as_str());
        let all = pages();
        let mut out: Vec<Route> = Vec::new();
        let mut i: usize = 0;
        while i < all.len()
            invariant
                all@ == spec_pages(),
                i <= all.len(),
                out@ == routes_matching(all@.take(i as int), needle@),
            decreases all.len() - i,
        {
            let title = chars_of(lowercase(all[i].title).as_str());
            if contains(&title, &needle) {
                out.push(all[i].route);
            }
            proof {
                assert(all@.take(i + 1).drop_last() == all@.take(i as int));
            }
            i += 1;
        }
        proof {
            assert(all@.take(all.len() as int) == all@);
        }
        out
    }

    /// What a page says while it has nothing to show: a title and a line.
    pub fn empty(self) -> (r: (&'static str, &'static str))
        ensures
            (r.0@, r.1@) == spec_empty(self),
    {
        match self {
            Route::Today => ("Your day starts here", "Choose a destination from the sidebar."),
            Route::Automations => ("No Automations yet", "Create a recurring Ticket rule."),
            Route::Tickets => ("No Tickets yet", "Add a Ticket to get started."),
            Route::Agents => ("No agents connected", "Agent runs and reviews will appear here."),
            Route::Home => ("Home is not connected", "Home controls are not connected yet."),
            Route::Calendar => (
                "No calendars connected",
                "Calendar accounts are not connected yet.",
            ),
            Route::Library => ("No photos yet", "Photos and library search are coming later."),
            Route::Apps => ("No apps yet", "Personal apps will appear here."),
            Route::Assistant => ("No conversations yet", "Start a conversation with Evee."),
            Route::Settings => ("Settings", "Manage your account and preferences."),
        }
    }

    /// The features a page that is not built yet promises, as title and line.
    pub fn planned(self) -> (r: Vec<(&'static str, &'static str)>)
        ensures
            r.len() == spec_planned(self).len(),
            forall|i: int| 0 <= i < r.len() ==> (#[trigger] r@[i].0@, r@[i].1@) == spec_planned(self)[i],
            r.len() == (if self == Route::Today || self == Route::Automations || self == Route::Settings {
                0int
            } else {
                3
            }),
            forall|i: int| 0 <= i < r.len() ==> (#[trigger] r@[i]).0@.len() > 0 && r@[i].1@.len() > 0,
    {
        proof {
            reveal_strlit("Capture & organize");
            reveal_strlit("Tickets, assignees and their work log.");
            reveal_strlit("Priorities & due dates");
            reveal_strlit("Keep upcoming work in view.");
            reveal_strlit("Reviews");
            reveal_strlit("Review work completed with your agents.");
            reveal_strlit("Your agents");
            reveal_strlit("Connected agents and their capabilities.");
            reveal_strlit("Runs");
            reveal_strlit("Follow active work and inspect its results.");
            reveal_strlit("Approvals");
            reveal_strlit("A place for decisions that need you.");
            reveal_strlit("Rooms & devices");
            reveal_strlit("Your connected home, organized by room.");
            reveal_strlit("Scenes");
            reveal_strlit("Bring familiar device settings together.");
            reveal_strlit("Activity");
            reveal_strlit("Recent changes from your home.");
            reveal_strlit("Agenda");
            reveal_strlit("Upcoming events from connected calendars.");
            reveal_strlit("Accounts");
            reveal_strlit("Choose which calendars appear here.");
            reveal_strlit("Planning");
            reveal_strlit("Make room for focused work and everyday life.");
            reveal_strlit("Collections");
            reveal_strlit("Organize the things you want to keep.");
            reveal_strlit("Photos");
            reveal_strlit("Browse connected photo libraries.");
            reveal_strlit("Search");
            reveal_strlit("Find items across your library.");
            reveal_strlit("Your apps");
            reveal_strlit("Open the tools you use most.");
            reveal_strlit("Personal tools");
            reveal_strlit("A place for small apps made for you.");
            reveal_strlit("Connections");
            reveal_strlit("Manage the services those tools use.");
            reveal_strlit("Conversations");
            reveal_strlit("Return to conversations with your assistant.");
            reveal_strlit("Context");
            reveal_strlit("Choose what Evee can help you with.");
            reveal_strlit("Actions");
            reveal_strlit("Review proposed actions before they run.");
        }
        let mut v: Vec<(&'static str, &'static str)> = Vec::new();
        match self {
            Route::Tickets => {
                v.push(("Capture & organize", "Tickets, assignees and their work log."));
                v.push(("Priorities & due dates", "Keep upcoming work in view."));
                v.push(("Reviews", "Review work completed with your agents."));
            },
            Route::Agents => {
                v.push(("Your agents", "Connected agents and their capabilities."));
                v.push(("Runs", "Follow active work and inspect its results."));
                v.push(("Approvals", "A place for decisions that need you."));
            },
            Route::Home => {
                v.push(("Rooms & devices", "Your connected home, organized by room."));
                v.push(("Scenes", "Bring familiar device settings together."));
                v.push(("Activity", "Recent changes from your home."));
            },
            Route::Calendar => {
                v.push(("Agenda", "Upcoming events from connected calendars."));
                v.push(("Accounts", "Choose which calendars appear here."));
                v.push(("Planning", "Make room for focused work and everyday life."));
            },
            Route::Library => {
                v.push(("Collections", "Organize the things you want to keep."));
                v.push(("Photos", "Browse connected photo libraries."));
                v.push(("Search", "Find items across your library."));
            },
            Route::Apps => {
                v.push(("Your apps", "Open the tools you use most."));
                v.push(("Personal tools", "A place for small apps made for you."));
                v.push(("Connections", "Manage the services those tools use."));
            },
            Route::Assistant => {
                v.push(("Conversations", "Return to conversations with your assistant."));
                v.push(("Context", "Choose what Evee can help you with."));
                v.push(("Actions", "Review proposed actions before they run."));
            },
            _ => {},
        }
        v
    }
}

fn string_of_chars(v: &Vec<char>) -> (s: String)
    ensures
        s@ == v@,
{
    crate::text::string_of(v)
}

proof fn lemma_sidebar_found(ps: Seq<PageSpec>, i: int)
    requires
        0 <= i < ps.len(),
        ps[i].in_sidebar,
    ensures
        sidebar_of(ps.take(i)).len() < sidebar_of(ps).len(),
        sidebar_of(ps)[sidebar_of(ps.take(i)).len() as int] == ps[i].route,
{
    assert(ps.take(i + 1).drop_last() == ps.take(i));
    assert(sidebar_of(ps.take(i + 1)) == sidebar_of(ps.take(i)).push(ps[i].route));
    lemma_sidebar_prefix(ps, i + 1, ps.len() as int);
    assert(ps.take(ps.len() as int) == ps);
    assert(sidebar_of(ps.take(i + 1))[sidebar_of(ps.take(i)).len() as int] == ps[i].route);
}

proof fn lemma_sidebar_prefix(ps: Seq<PageSpec>, i: int, j: int)
    requires
        0 <= i <= j <= ps.len(),
    ensures
        sidebar_of(ps.take(i)).len() <= sidebar_of(ps.take(j)).len(),
        forall|k: int|
            0 <= k < sidebar_of(ps.take(i)).len() ==> #[trigger] sidebar_of(ps.take(i))[k]
                == sidebar_of(ps.take(j))[k],
    decreases j - i,
{
    if i < j {
        lemma_sidebar_prefix(ps, i, j - 1);
        assert(ps.take(j).drop_last() == ps.take(j - 1));
    }
}

/// The navigation history: the current route, what Back returns to (most
/// recent last) and what Forward returns to (most recent last).
#[derive(Clone, Debug, PartialEq)]
pub struct Router {
    current: Route,
    back: Vec<Route>,
    forward: Vec<Route>,
}

pub struct RouterView {
    pub current: Route,
    pub back: Seq<Route>,
    pub forward: Seq<Route>,
}

impl View for Router {
    type V = RouterView;

    closed spec fn view(&self) -> RouterView {
        RouterView { current: self.current, back: self.back@, forward: self.forward@ }
    }
}

/// Going to `to`: the current route joins the back history and forward history ends.
pub open spec fn spec_navigate(r: RouterView, to: Route) -> RouterView {
    if to != r.current {
        RouterView { current: to, back: r.back.push(r.current), forward: Seq::empty() }
    } else {
        r
    }
}

/// One step back (or forward), when there is somewhere to go.
pub open spec fn spec_go(r: RouterView, forward: bool) -> RouterView {
    if forward {
        if r.forward.len() > 0 {
            RouterView {
                current: r.forward.last(),
                back: r.back.push(r.current),
                forward: r.forward.drop_last(),
            }
        } else {
            r
        }
    } else {
        if r.back.len() > 0 {
            RouterView {
                current: r.back.last(),
                back: r.back.drop_last(),
                forward: r.forward.push(r.current),
            }
        } else {
            r
        }
    }
}

impl Router {
    /// A fresh history on Today.
    pub fn new() -> (r: Router)
        ensures
            r@ == (RouterView { current: Route::Today, back: Seq::empty(), forward: Seq::empty() }),
    {
        Router { current: Route::Today, back: Vec::new(), forward: Vec::new() }
    }

    /// A history as it was saved.
    pub fn from_parts(current: Route, back: Vec<Route>, forward: Vec<Route>) -> (r: Router)
        ensures
            r@ == (RouterView { current, back: back@, forward: forward@ }),
    {
        Router { current, back, forward }
    }

    /// The saved form: current route, back history, forward history.
    pub fn parts(&self) -> (r: (Route, Vec<Route>, Vec<Route>))
        ensures
            r.0 == self@.current,
            r.1@ == self@.back,
            r.2@ == self@.forward,
    {
        (self.current, self.back.clone(), self.forward.clone())
    }

    pub fn current(&self) -> (r: Route)
        ensures
            r == self@.current,
    {
        self.current
    }

    pub fn navigate(&mut self, to: Route)
        ensures
            final(self)@ == spec_navigate(old(self)@, to),
    {
        if to != self.current {
            self.back.push(self.current);
            self.current = to;
            self.forward.clear();
        }
    }

    pub fn can_go(&self, forward: bool) -> (r: bool)
        ensures
            r == (if forward {
                self@.forward.len() > 0
            } else {
                self@.back.len() > 0
            }),
    {
        if forward {
            !self.forward.is_empty()
        } else {
            !self.back.is_empty()
        }
    }

    pub fn go(&mut self, forward: bool)
        ensures
            final(self)@ == spec_go(old(self)@, forward),
    {
        if forward {
            if let Some(next) = self.forward.pop() {
                self.back.push(self.current);
                self.current = next;
            }
        } else if let Some(previous) = self.back.pop() {
            self.forward.push(self.current);
            self.current = previous;
        }
    }
}

/// Going back after going forward, or forward after going back, returns to
/// the same place with the same history.
pub proof fn law_go_undoes(r: RouterView, forward: bool)
    requires
        if forward {
            r.forward.len() > 0
        } else {
            r.back.len() > 0
        },
    ensures
        spec_go(spec_go(r, forward), !forward) == r,
{
    if forward {
        assert(spec_go(spec_go(r, true), false).back =~= r.back);
        assert(spec_go(spec_go(r, true), false).forward =~= r.forward);
    } else {
        assert(spec_go(spec_go(r, false), true).back =~= r.back);
        assert(spec_go(spec_go(r, false), true).forward =~= r.forward);
    }
}

/// Going somewhere new ends the forward history, and Back then returns to
/// where navigation started.
pub proof fn law_navigate_then_back(r: RouterView, to: Route)
    requires
        to != r.current,
    ensures
        spec_navigate(r, to).forward.len() == 0,
        spec_go(spec_navigate(r, to), false).current == r.current,
        spec_go(spec_navigate(r, to), false).back == r.back,
        spec_go(spec_navigate(r, to), false).forward == seq![to],
{
    assert(spec_navigate(r, to).back.drop_last() =~= r.back);
    assert(Seq::<Route>::empty().push(to) =~= seq![to]);
}

/// Stepping through history never loses a route: back, current and forward
/// together keep their number.
pub proof fn law_go_keeps_history(r: RouterView, forward: bool)
    ensures
        spec_go(r, forward).back.len() + spec_go(r, forward).forward.len() == r.back.len()
            + r.forward.len(),
{
}

#[derive(Clone, Copy, Debug, Eq, PartialEq, Structural)]
pub enum FontChoice {
    System,
    HelveticaNeue,
}

impl FontChoice {
    /// The name a session file stores this choice under.
    pub fn key(self) -> (r: &'static str)
        ensures
            r@ == (match self {
                FontChoice::System => "system"@,
                FontChoice::HelveticaNeue => "helvetica_neue"@,
            }),
    {
        match self {
            FontChoice::System => "system",
            FontChoice::HelveticaNeue => "helvetica_neue",
        }
    }

    /// The choice a session file names, if it is one this app knows.
    pub fn from_key(key: &str) -> (r: Option<FontChoice>)
        ensures
            r == (if key@ == "system"@ {
                Some(FontChoice::System)
            } else if key@ == "helvetica_neue"@ {
                Some(FontChoice::HelveticaNeue)
            } else {
                None
            }),
    {
        let k = chars_of(key);
        if vec_eq(&k, &chars_of("system")) {
            Some(FontChoice::System)
        } else if vec_eq(&k, &chars_of("helvetica_neue")) {
            Some(FontChoice::HelveticaNeue)
        } else {
            None
        }
    }

    pub fn family(self) -> (r: &'static str)
        ensures
            r@ == (match self {
                FontChoice::System => ".AppleSystemUIFont"@,
                FontChoice::HelveticaNeue => "Helvetica Neue"@,
            }),
    {
        match self {
            FontChoice::System => ".AppleSystemUIFont",
            FontChoice::HelveticaNeue => "Helvetica Neue",
        }
    }
}

#[derive(Clone, Copy, Debug, Eq, PartialEq, Structural)]
pub enum FontSize {
    Small,
    Default,
    Large,
    Larger,
}

impl FontSize {
    /// The name a session file stores this size under.
    pub fn key(self) -> (r: &'static str)
        ensures
            r@ == font_size_key(self),
    {
        match self {
            FontSize::Small => "small",
            FontSize::Default => "default",
            FontSize::Large => "large",
            FontSize::Larger => "larger",
        }
    }

    /// The size a session file names, if it is one this app knows.
    pub fn from_key(key: &str) -> (r: Option<FontSize>)
        ensures
            r matches Some(size) ==> key@ == font_size_key(size),
            r is None ==> forall|size: FontSize| key@ != #[trigger] font_size_key(size),
    {
        let k = chars_of(key);
        if vec_eq(&k, &chars_of("small")) {
            Some(FontSize::Small)
        } else if vec_eq(&k, &chars_of("default")) {
            Some(FontSize::Default)
        } else if vec_eq(&k, &chars_of("large")) {
            Some(FontSize::Large)
        } else if vec_eq(&k, &chars_of("larger")) {
            Some(FontSize::Larger)
        } else {
            None
        }
    }

    /// Every size with its menu label, smallest first.
    pub fn all() -> (v: Vec<(FontSize, &'static str)>)
        ensures
            v@.len() == 4,
            v@[0].0 == FontSize::Small && v@[1].0 == FontSize::Default && v@[2].0
                == FontSize::Large && v@[3].0 == FontSize::Larger,
            v@[0].1@ == "Small"@ && v@[1].1@ == "Default"@ && v@[2].1@ == "Large"@ && v@[3].1@
                == "Larger"@,
    {
        let mut v: Vec<(FontSize, &'static str)> = Vec::new();
        v.push((FontSize::Small, "Small"));
        v.push((FontSize::Default, "Default"));
        v.push((FontSize::Large, "Large"));
        v.push((FontSize::Larger, "Larger"));
        v
    }
}

/// The name a session file stores a font size under.
pub open spec fn font_size_key(size: FontSize) -> Seq<char> {
    match size {
        FontSize::Small => "small"@,
        FontSize::Default => "default"@,
        FontSize::Large => "large"@,
        FontSize::Larger => "larger"@,
    }
}

/// A route saved under its name is read back as the same route.
pub proof fn law_route_keys_round_trip(route: Route)
    ensures
        route_named(route_key(route)) == Some(route),
{
    reveal_strlit("today");
    reveal_strlit("tickets");
    reveal_strlit("tasks");
    reveal_strlit("agents");
    reveal_strlit("automations");
    reveal_strlit("home");
    reveal_strlit("calendar");
    reveal_strlit("library");
    reveal_strlit("apps");
    reveal_strlit("evee");
    reveal_strlit("assistant");
    reveal_strlit("settings");
    // Keys of one length differ in an early letter; the rest in length.
    assert("tickets"@[0] != "library"@[0]);
    assert("tasks"@[1] != "today"@[1]);
    assert("home"@[0] != "apps"@[0] && "home"@[0] != "evee"@[0] && "apps"@[0] != "evee"@[0]);
    assert("calendar"@[0] != "settings"@[0]);
    assert("today"@.len() == 5 && "tickets"@.len() == 7 && "tasks"@.len() == 5);
    assert("agents"@.len() == 6 && "automations"@.len() == 11 && "home"@.len() == 4);
    assert("calendar"@.len() == 8 && "library"@.len() == 7 && "apps"@.len() == 4);
    assert("evee"@.len() == 4 && "assistant"@.len() == 9 && "settings"@.len() == 8);
}

/// No two font sizes are saved under one name, so a saved size is read
/// back as itself.
pub proof fn law_font_size_keys_differ(a: FontSize, b: FontSize)
    ensures
        font_size_key(a) == font_size_key(b) ==> a == b,
{
    reveal_strlit("small");
    reveal_strlit("default");
    reveal_strlit("large");
    reveal_strlit("larger");
    assert("small"@[0] != "large"@[0]);
    assert("small"@.len() == 5 && "default"@.len() == 7 && "large"@.len() == 5);
    assert("larger"@.len() == 6);
}

/// One tab's history as the tabbed sessions stored it: every route it
/// visited, and which of them was showing. A route this app no longer knows
/// reads as `None`.
pub struct LegacyHistory {
    pub entries: Option<Vec<Option<Route>>>,
    pub cursor: Option<u64>,
}

/// What a tabbed session stored about navigation: its tabs, the active one,
/// and each tab's history.
pub struct LegacySession {
    pub tabs: Vec<Option<Route>>,
    pub active: Option<u64>,
    pub histories: Vec<Option<LegacyHistory>>,
}

pub open spec fn all_known(s: Seq<Option<Route>>) -> bool {
    forall|i: int| 0 <= i < s.len() ==> (#[trigger] s[i]) is Some
}

pub open spec fn known(s: Seq<Option<Route>>) -> Seq<Route> {
    s.map_values(|r: Option<Route>| r->0)
}

/// The first tab that names a known route.
pub open spec fn first_known(tabs: Seq<Option<Route>>, from: int) -> Option<int>
    decreases tabs.len() - from,
{
    if from < 0 || from >= tabs.len() {
        None
    } else if tabs[from] is Some {
        Some(from)
    } else {
        first_known(tabs, from + 1)
    }
}

/// The tab a tabbed session reopens: the active one when its route is
/// known, else the first tab whose route is.
pub open spec fn selected_tab(legacy: LegacySessionView) -> Option<int> {
    let active = match legacy.active {
        Some(a) => a as int,
        None => 0,
    };
    if active < legacy.tabs.len() && legacy.tabs[active] is Some {
        Some(active)
    } else {
        first_known(legacy.tabs, 0)
    }
}

pub struct LegacyHistoryView {
    pub entries: Option<Seq<Option<Route>>>,
    pub cursor: Option<u64>,
}

pub struct LegacySessionView {
    pub tabs: Seq<Option<Route>>,
    pub active: Option<u64>,
    pub histories: Seq<Option<LegacyHistoryView>>,
}

impl View for LegacyHistory {
    type V = LegacyHistoryView;

    open spec fn view(&self) -> LegacyHistoryView {
        LegacyHistoryView {
            entries: match &self.entries {
                Some(e) => Some(e@),
                None => None,
            },
            cursor: self.cursor,
        }
    }
}

impl View for LegacySession {
    type V = LegacySessionView;

    open spec fn view(&self) -> LegacySessionView {
        LegacySessionView {
            tabs: self.tabs@,
            active: self.active,
            histories: self.histories@.map_values(
                |h: Option<LegacyHistory>|
                    match h {
                        Some(h) => Some(h@),
                        None => None,
                    },
            ),
        }
    }
}

/// The back and forward history a tab's saved entries give, when every
/// entry is known and the cursor points at the tab's route.
pub open spec fn history_of(h: LegacyHistoryView, route: Route) -> Option<(Seq<Route>, Seq<Route>)> {
    match (h.entries, h.cursor) {
        (Some(entries), Some(cursor)) => {
            let c = cursor as int;
            let before = entries.subrange(0, if c < entries.len() { c } else { entries.len() as int });
            let after = if c + 1 <= entries.len() {
                entries.subrange(c + 1, entries.len() as int)
            } else {
                Seq::empty()
            };
            if c < entries.len() && entries[c] == Some(route) && all_known(before) && all_known(
                after,
            ) {
                Some((known(before), known(after).reverse()))
            } else {
                None
            }
        },
        _ => None,
    }
}

/// What a session file says of the panes' visibility and the fonts.
#[derive(Clone, Copy, Debug, PartialEq, Eq, Structural)]
pub struct SessionChoices {
    pub sidebar_open: bool,
    pub evee_open: bool,
    pub font: FontChoice,
    pub font_size: FontSize,
}

/// Whether pane `i` is open: from the `panes` list where the file has one
/// (a missing entry or flag keeps it open), else from the older key of
/// that pane, else open.
pub open spec fn pane_open(panes: Option<Seq<Option<bool>>>, i: int, legacy: Option<bool>) -> bool {
    match panes {
        Some(p) => if i < p.len() && p[i] is Some {
            p[i]->0
        } else {
            true
        },
        None => match legacy {
            Some(b) => b,
            None => true,
        },
    }
}

/// The font a session file names, or the system font.
pub open spec fn font_chosen(key: Option<Seq<char>>) -> FontChoice {
    if key == Some("helvetica_neue"@) {
        FontChoice::HelveticaNeue
    } else {
        FontChoice::System
    }
}

/// The type size a session file names, or the default size.
pub open spec fn size_chosen(key: Option<Seq<char>>) -> FontSize {
    match key {
        Some(k) => if k == font_size_key(FontSize::Small) {
            FontSize::Small
        } else if k == font_size_key(FontSize::Large) {
            FontSize::Large
        } else if k == font_size_key(FontSize::Larger) {
            FontSize::Larger
        } else {
            FontSize::Default
        },
        None => FontSize::Default,
    }
}

pub open spec fn opt_view(o: Option<String>) -> Option<Seq<char>> {
    match o {
        Some(s) => Some(s@),
        None => None,
    }
}

/// What a session file's fields choose, read leniently: `panes` holds each
/// pane's `open` flag where the file has a `panes` list, `sidebar` and
/// `evee` the older flags, `font` and `font_size` the names stored.
pub fn session_choices(
    panes: &Option<Vec<Option<bool>>>,
    sidebar: Option<bool>,
    evee: Option<bool>,
    font: &Option<String>,
    font_size: &Option<String>,
) -> (r: SessionChoices)
    ensures
        r.sidebar_open == pane_open(
            match panes {
                Some(p) => Some(p@),
                None => None,
            },
            0,
            sidebar,
        ),
        r.evee_open == pane_open(
            match panes {
                Some(p) => Some(p@),
                None => None,
            },
            1,
            evee,
        ),
        r.font == font_chosen(opt_view(*font)),
        r.font_size == size_chosen(opt_view(*font_size)),
{
    let (sidebar_open, evee_open) = match panes {
        Some(p) => {
            let first = if p.len() > 0 {
                match p[0] {
                    Some(b) => b,
                    None => true,
                }
            } else {
                true
            };
            let second = if p.len() > 1 {
                match p[1] {
                    Some(b) => b,
                    None => true,
                }
            } else {
                true
            };
            (first, second)
        },
        None => (
            match sidebar {
                Some(b) => b,
                None => true,
            },
            match evee {
                Some(b) => b,
                None => true,
            },
        ),
    };
    let chosen_font = match font {
        Some(k) => match FontChoice::from_key(k.as_str()) {
            Some(f) => f,
            None => FontChoice::System,
        },
        None => FontChoice::System,
    };
    let chosen_size = match font_size {
        Some(k) => match FontSize::from_key(k.as_str()) {
            Some(size) => size,
            None => FontSize::Default,
        },
        None => FontSize::Default,
    };
    proof {
        reveal_strlit("small");
        reveal_strlit("default");
        reveal_strlit("large");
        reveal_strlit("larger");
        reveal_strlit("system");
        reveal_strlit("helvetica_neue");
        assert("small"@.len() == 5 && "default"@.len() == 7 && "large"@.len() == 5);
        assert("larger"@.len() == 6 && "small"@[0] == 's' && "large"@[0] == 'l');
        assert(font_size_key(FontSize::Small) != font_size_key(FontSize::Default));
        assert(font_size_key(FontSize::Large) != font_size_key(FontSize::Default));
        assert(font_size_key(FontSize::Larger) != font_size_key(FontSize::Default));
        assert(font_size_key(FontSize::Small) != font_size_key(FontSize::Large));
        assert(font_size_key(FontSize::Small) != font_size_key(FontSize::Larger));
        assert(font_size_key(FontSize::Large) != font_size_key(FontSize::Larger));
        assert("system"@.len() == 6 && "helvetica_neue"@.len() == 14);
    }
    SessionChoices { sidebar_open, evee_open, font: chosen_font, font_size: chosen_size }
}

/// The newest session file layout this app reads.
pub const SCHEMA_VERSION: u64 = 1;

/// Whether a session file was written by a newer app: its `schema_version`
/// (0 when missing) is past the one this app reads.
pub fn needs_newer_app(version: Option<u64>) -> (r: bool)
    ensures
        r == (version matches Some(v) && v > SCHEMA_VERSION),
{
    match version {
        Some(v) => v > SCHEMA_VERSION,
        None => false,
    }
}

/// The history a session restores: the saved router when there is one;
/// else the selected tab of a tabbed session with that tab's history; else
/// a fresh history on Today.
pub open spec fn spec_restore(saved: Option<RouterView>, legacy: Option<LegacySessionView>) -> RouterView {
    let fresh = RouterView { current: Route::Today, back: Seq::empty(), forward: Seq::empty() };
    match saved {
        Some(r) => r,
        None => match legacy {
            None => fresh,
            Some(l) => match selected_tab(l) {
                None => fresh,
                Some(index) => {
                    let route = l.tabs[index]->0;
                    let history = if index < l.histories.len() {
                        match l.histories[index] {
                            Some(h) => history_of(h, route),
                            None => None,
                        }
                    } else {
                        None
                    };
                    match history {
                        Some((back, forward)) => RouterView { current: route, back, forward },
                        None => RouterView { current: route, back: Seq::empty(), forward: Seq::empty() },
                    }
                },
            },
        },
    }
}

fn find_known(tabs: &Vec<Option<Route>>) -> (r: Option<usize>)
    ensures
        match r {
            Some(i) => first_known(tabs@, 0) == Some(i as int) && i < tabs.len() && tabs@[i as int] is Some,
            None => first_known(tabs@, 0) is None,
        },
{
    let mut i: usize = 0;
    while i < tabs.len()
        invariant
            i <= tabs.len(),
            first_known(tabs@, 0) == first_known(tabs@, i as int),
        decreases tabs.len() - i,
    {
        if tabs[i].is_some() {
            return Some(i);
        }
        i += 1;
    }
    None
}

/// The known routes of `entries[from..to]`, or `None` if one is unknown.
fn known_range(entries: &Vec<Option<Route>>, from: usize, to: usize) -> (r: Option<Vec<Route>>)
    requires
        from <= to <= entries.len(),
    ensures
        match r {
            Some(v) => all_known(entries@.subrange(from as int, to as int)) && v@ == known(
                entries@.subrange(from as int, to as int),
            ),
            None => !all_known(entries@.subrange(from as int, to as int)),
        },
{
    let mut out: Vec<Route> = Vec::new();
    let mut i = from;
    while i < to
        invariant
            from <= i <= to <= entries.len(),
            all_known(entries@.subrange(from as int, i as int)),
            out@ == known(entries@.subrange(from as int, i as int)),
        decreases to - i,
    {
        match entries[i] {
            Some(route) => out.push(route),
            None => {
                assert(entries@.subrange(from as int, to as int)[i - from] is None);
                return None;
            },
        }
        proof {
            assert(entries@.subrange(from as int, i + 1) == entries@.subrange(from as int, i as int).push(
                entries@[i as int],
            ));
            assert(known(entries@.subrange(from as int, i + 1)) =~= known(
                entries@.subrange(from as int, i as int),
            ).push(route_of(entries@[i as int])));
        }
        i += 1;
    }
    Some(out)
}

spec fn route_of(r: Option<Route>) -> Route {
    r->0
}

fn reversed(v: &Vec<Route>) -> (r: Vec<Route>)
    ensures
        r@ == v@.reverse(),
{
    let mut out: Vec<Route> = Vec::new();
    let mut i = v.len();
    while i > 0
        invariant
            i <= v.len(),
            out@ == v@.subrange(i as int, v.len() as int).reverse(),
        decreases i,
    {
        i -= 1;
        out.push(v[i]);
        proof {
            assert(v@.subrange(i as int, v.len() as int).reverse() =~= v@.subrange(
                (i + 1) as int,
                v.len() as int,
            ).reverse().push(v@[i as int]));
        }
    }
    proof {
        assert(v@.subrange(0, v.len() as int) == v@);
    }
    out
}

fn restore_history(h: &LegacyHistory, route: Route) -> (r: Option<(Vec<Route>, Vec<Route>)>)
    ensures
        match r {
            Some((b, f)) => history_of(h@, route) == Some((b@, f@)),
            None => history_of(h@, route) is None,
        },
{
    let (entries, cursor) = match (&h.entries, h.cursor) {
        (Some(e), Some(c)) => (e, c),
        _ => return None,
    };
    let len = entries.len();
    let c = if cursor < len as u64 {
        cursor as usize
    } else {
        len
    };
    let before = known_range(entries, 0, c);
    let after = if (c as u64) == cursor && c < len {
        known_range(entries, c + 1, len)
    } else {
        assert(entries@.subrange(0, 0) =~= Seq::<Option<Route>>::empty());
        Some(Vec::new())
    };
    if (c as u64) != cursor || c >= len {
        return None;
    }
    let at_cursor = entries[c];
    match (at_cursor, before, after) {
        (Some(r), Some(b), Some(a)) => {
            if r == route {
                proof {
                    assert(entries@.subrange(c + 1, len as int) =~= entries@.subrange(
                        c + 1,
                        len as int,
                    ));
                }
                Some((b, reversed(&a)))
            } else {
                None
            }
        },
        _ => None,
    }
}

/// The history a session restores: the saved router when there is one;
/// else the selected tab of a tabbed session, with that tab's history when
/// it is complete and consistent; else a fresh history on Today.
pub fn restore_router(saved: Option<Router>, legacy: Option<LegacySession>) -> (r: Router)
    ensures
        r@ == spec_restore(
            match saved {
                Some(s) => Some(s@),
                None => None,
            },
            match legacy {
                Some(l) => Some(l@),
                None => None,
            },
        ),
{
    if let Some(router) = saved {
        return router;
    }
    let legacy = match legacy {
        Some(l) => l,
        None => return Router::new(),
    };
    let active: u64 = match legacy.active {
        Some(a) => a,
        None => 0,
    };
    let index = if active < legacy.tabs.len() as u64 && legacy.tabs[active as usize].is_some() {
        active as usize
    } else {
        match find_known(&legacy.tabs) {
            Some(i) => i,
            None => return Router::new(),
        }
    };
    let route = match legacy.tabs[index] {
        Some(route) => route,
        None => return Router::new(),
    };
    if index < legacy.histories.len() {
        if let Some(history) = &legacy.histories[index] {
            if let Some((back, forward)) = restore_history(history, route) {
                return Router { current: route, back, forward };
            }
        }
    }
    Router { current: route, back: Vec::new(), forward: Vec::new() }
}

} // verus!

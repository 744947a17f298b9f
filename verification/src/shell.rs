//! What the window's shell decides: which pane a side is, what the search
//! palette lists for a query, whether a new workspace's fields are usable,
//! which commands an open dialog lets through, and what each command does
//! to the shell's state.
use crate::model::{
    lowercase, routes_matching, spec_go, spec_navigate, spec_pages, unicode_lowercase, FontChoice,
    FontSize, Route, Router,
};
use crate::overlay::Overlay;
use crate::text::{chars_of, contains, contains_seq, string_of, trim, trimmed, vec_eq};
use vstd::prelude::*;

verus! {

/// A side pane of the window.
#[derive(Clone, Copy, Debug, PartialEq, Eq, Structural)]
pub enum Side {
    Left,
    Right,
}

impl Side {
    /// Where the side's preferences are kept: 0 for the left, 1 for the right.
    pub fn index(self) -> (r: usize)
        ensures
            r == (if self == Side::Left {
                0usize
            } else {
                1usize
            }),
    {
        match self {
            Side::Left => 0,
            Side::Right => 1,
        }
    }

    /// The side across the window.
    pub fn other(self) -> (r: Side)
        ensures
            r != self,
    {
        match self {
            Side::Left => Side::Right,
            Side::Right => Side::Left,
        }
    }
}

/// A workspace as the palette lists it.
#[derive(Clone, Debug, PartialEq, Eq)]
pub struct Workspace {
    pub id: String,
    pub name: String,
    pub icon: Option<String>,
}

/// A choice in the search palette.
#[derive(Clone, Debug, PartialEq, Eq)]
pub enum PaletteItem {
    Route(Route),
    Workspace { id: String, name: String, icon: Option<String> },
    CreateWorkspace,
}

/// A palette choice as plain values: a route, a workspace's id, or "create".
pub enum ItemView {
    Route(Route),
    Workspace(Seq<char>),
    CreateWorkspace,
}

/// A palette choice as plain values.
pub open spec fn item_view(item: PaletteItem) -> ItemView {
    match item {
        PaletteItem::Route(r) => ItemView::Route(r),
        PaletteItem::Workspace { id, .. } => ItemView::Workspace(id@),
        PaletteItem::CreateWorkspace => ItemView::CreateWorkspace,
    }
}

/// Whether a query lists every workspace.
pub open spec fn lists_all(q: Seq<char>) -> bool {
    q.len() == 0 || q == "workspace"@ || q == "switch workspace"@
}

/// The workspaces a query lists, as their ids.
pub open spec fn workspaces_listed(workspaces: Seq<Workspace>, q: Seq<char>) -> Seq<ItemView>
    decreases workspaces.len(),
{
    if workspaces.len() == 0 {
        Seq::empty()
    } else {
        let rest = workspaces_listed(workspaces.drop_last(), q);
        let w = workspaces.last();
        if lists_all(q) || contains_seq(unicode_lowercase(w.name@), q) {
            rest.push(ItemView::Workspace(w.id@))
        } else {
            rest
        }
    }
}

/// The palette for a query, which is trimmed and lower-cased: the pages
/// whose titles hold it (unless only workspaces are wanted), then the
/// workspaces whose names hold it, then "Create workspace" when it fits.
pub open spec fn spec_palette(
    query: Seq<char>,
    workspace_only: bool,
    workspaces: Seq<Workspace>,
) -> Seq<ItemView> {
    let q = unicode_lowercase(trim(query));
    let pages = if workspace_only {
        Seq::empty()
    } else {
        routes_matching(spec_pages(), unicode_lowercase(trim(q))).map_values(
            |r: Route| ItemView::Route(r),
        )
    };
    let listed = pages + workspaces_listed(workspaces, q);
    if lists_all(q) || contains_seq("create workspace"@, q) || contains_seq("new workspace"@, q) {
        listed.push(ItemView::CreateWorkspace)
    } else {
        listed
    }
}

/// What the search palette lists for `query`.
pub fn palette_items(query: &str, workspace_only: bool, workspaces: &Vec<Workspace>) -> (r: Vec<
    PaletteItem,
>)
    ensures
        r@.map_values(|i: PaletteItem| item_view(i)) == spec_palette(query@, workspace_only, workspaces@),
{
    let q = lowercase(string_of(&trimmed(&chars_of(query))).as_str());
    let needle = chars_of(q.as_str());
    let mut items: Vec<PaletteItem> = Vec::new();
    if !workspace_only {
        let routes = Route::matching(q.as_str());
        let mut i: usize = 0;
        while i < routes.len()
            invariant
                i <= routes.len(),
                items@.map_values(|it: PaletteItem| item_view(it)) == routes@.take(i as int).map_values(
                    |r: Route| ItemView::Route(r),
                ),
            decreases routes.len() - i,
        {
            let ghost before = items@;
            items.push(PaletteItem::Route(routes[i]));
            proof {
                assert(items@.map_values(|it: PaletteItem| item_view(it)) =~= before.map_values(
                    |it: PaletteItem| item_view(it),
                ).push(ItemView::Route(routes@[i as int])));
                assert(routes@.take(i + 1).map_values(|r: Route| ItemView::Route(r)) =~= routes@.take(
                    i as int,
                ).map_values(|r: Route| ItemView::Route(r)).push(ItemView::Route(routes@[i as int])));
            }
            i += 1;
        }
        proof {
            assert(routes@.take(routes.len() as int) =~= routes@);
        }
    } else {
        proof {
            assert(items@.map_values(|it: PaletteItem| item_view(it)) =~= Seq::<ItemView>::empty());
        }
    }
    let all = needle.len() == 0 || vec_eq(&needle, &chars_of("workspace")) || vec_eq(
        &needle,
        &chars_of("switch workspace"),
    );
    let ghost head = items@.map_values(|it: PaletteItem| item_view(it));
    let mut k: usize = 0;
    while k < workspaces.len()
        invariant
            k <= workspaces.len(),
            needle@ == unicode_lowercase(trim(query@)),
            all == lists_all(needle@),
            items@.map_values(|it: PaletteItem| item_view(it)) == head + workspaces_listed(
                workspaces@.take(k as int),
                needle@,
            ),
        decreases workspaces.len() - k,
    {
        proof {
            assert(workspaces@.take(k + 1).drop_last() =~= workspaces@.take(k as int));
        }
        let w = &workspaces[k];
        let name = chars_of(lowercase(w.name.as_str()).as_str());
        if all || contains(&name, &needle) {
            let ghost before = items@;
            items.push(
                PaletteItem::Workspace { id: w.id.clone(), name: w.name.clone(), icon: w.icon.clone() },
            );
            proof {
                assert(items@.map_values(|it: PaletteItem| item_view(it)) =~= before.map_values(
                    |it: PaletteItem| item_view(it),
                ).push(ItemView::Workspace(w.id@)));
            }
        }
        k += 1;
    }
    proof {
        assert(workspaces@.take(workspaces.len() as int) =~= workspaces@);
    }
    if all || contains(&chars_of("create workspace"), &needle) || contains(
        &chars_of("new workspace"),
        &needle,
    ) {
        let ghost before = items@;
        items.push(PaletteItem::CreateWorkspace);
        proof {
            assert(items@.map_values(|it: PaletteItem| item_view(it)) =~= before.map_values(
                |it: PaletteItem| item_view(it),
            ).push(ItemView::CreateWorkspace));
        }
    }
    items
}

/// A change of workspace the shell asks for.
#[derive(Clone, Debug, PartialEq, Eq)]
pub enum WorkspaceCommand {
    Switch { id: String },
    Create { name: String, icon: Option<String>, color: Option<String> },
}

/// A hexadecimal digit.
pub open spec fn hex_digit(c: char) -> bool {
    ('0' <= c <= '9') || ('a' <= c <= 'f') || ('A' <= c <= 'F')
}

/// An optional colour: nothing, or `#RRGGBB`.
pub open spec fn color_ok(c: Seq<char>) -> bool {
    c.len() == 0 || (c.len() == 7 && c[0] == '#' && forall|i: int| 1 <= i < 7 ==> hex_digit(#[trigger] c[i]))
}

/// Whether a new workspace's fields, trimmed, can be used: a name of at
/// most 120 characters, an icon of at most four, and an optional colour.
pub open spec fn workspace_fields_ok(name: Seq<char>, icon: Seq<char>, color: Seq<char>) -> bool {
    &&& trim(name).len() > 0
    &&& trim(name).len() <= 120
    &&& trim(icon).len() <= 4
    &&& color_ok(trim(color))
}

/// A trimmed field, or nothing when it is blank.
pub open spec fn given(text: Seq<char>) -> Option<Seq<char>> {
    if trim(text).len() == 0 {
        None
    } else {
        Some(trim(text))
    }
}

/// An optional text as plain characters.
pub open spec fn opt_chars(t: Option<String>) -> Option<Seq<char>> {
    match t {
        Some(s) => Some(s@),
        None => None,
    }
}

fn is_hex(c: char) -> (r: bool)
    ensures
        r == hex_digit(c),
{
    ('0' <= c && c <= '9') || ('a' <= c && c <= 'f') || ('A' <= c && c <= 'F')
}

/// A field trimmed, or nothing when it is blank.
fn given_text(chars: &Vec<char>) -> (r: Option<String>)
    ensures
        opt_chars(r) == (if chars@.len() == 0 {
            None
        } else {
            Some(chars@)
        }),
{
    if chars.len() == 0 {
        None
    } else {
        Some(string_of(chars))
    }
}

/// The workspace the creation form asks for, or why it cannot be made.
pub fn new_workspace(name: &str, icon: &str, color: &str) -> (r: Result<WorkspaceCommand, String>)
    ensures
        match r {
            Ok(WorkspaceCommand::Create { name: n, icon: i, color: c }) => {
                &&& workspace_fields_ok(name@, icon@, color@)
                &&& n@ == trim(name@)
                &&& opt_chars(i) == given(icon@)
                &&& opt_chars(c) == given(color@)
            },
            Ok(_) => false,
            Err(m) => !workspace_fields_ok(name@, icon@, color@) && m@
                == "Enter a name, up to four icon characters, and an optional #RRGGBB color."@,
        },
{
    let n = trimmed(&chars_of(name));
    let i = trimmed(&chars_of(icon));
    let c = trimmed(&chars_of(color));
    let mut hex = true;
    if c.len() == 7 {
        let mut k: usize = 1;
        while k < 7
            invariant
                c.len() == 7,
                1 <= k <= 7,
                hex == (forall|j: int| 1 <= j < k ==> hex_digit(#[trigger] c@[j])),
            decreases 7 - k,
        {
            hex = hex && is_hex(c[k]);
            k += 1;
        }
    }
    let color_fits = c.len() == 0 || (c.len() == 7 && c[0] == '#' && hex);
    if n.len() == 0 || n.len() > 120 || i.len() > 4 || !color_fits {
        return Err(
            String::from_str("Enter a name, up to four icon characters, and an optional #RRGGBB color."),
        );
    }
    Ok(WorkspaceCommand::Create { name: string_of(&n), icon: given_text(&i), color: given_text(&c) })
}

/// While a dialog is open, only Dismiss reaches the shell.
pub fn lets_through(active: Option<Overlay>, dismiss: bool) -> (r: bool)
    ensures
        r == (dismiss || !(active matches Some(o) && o.dialog())),
{
    match active {
        Some(o) => dismiss || !o.is_dialog(),
        None => true,
    }
}

/// A palette row: what it does, what it reads, its icon, a note beside
/// it, its shortcut, and which characters the query matched.
#[derive(Clone, Debug, PartialEq, Eq)]
pub struct PaletteEntry {
    pub id: String,
    pub label: String,
    pub icon: Option<&'static str>,
    pub detail: Option<String>,
    pub shortcut: Option<String>,
    pub positions: Vec<usize>,
}

/// An entry copied for display with the query's match positions; an empty
/// note is left out.
pub fn clone_entry(entry: &PaletteEntry, positions: Vec<usize>) -> (r: PaletteEntry)
    ensures
        r.id@ == entry.id@,
        r.label@ == entry.label@,
        r.icon == entry.icon,
        r.positions@ == positions@,
        opt_chars(r.detail) == (match entry.detail {
            Some(d) => if d@.len() > 0 {
                Some(d@)
            } else {
                None
            },
            None => None,
        }),
        opt_chars(r.shortcut) == opt_chars(entry.shortcut),
{
    let detail = match &entry.detail {
        Some(d) => if d.as_str().as_bytes().len() > 0 {
            Some(d.clone())
        } else {
            proof {
                if d@.len() > 0 {
                    vstd::utf8::encode_utf8_valid_utf8(d@);
                    crate::text::lemma_byte_len_step(d@, 0);
                    crate::text::lemma_byte_len_bound(d@, 1);
                    assert(d@.take(0) =~= Seq::<char>::empty());
                }
            }
            None
        },
        None => None,
    };
    PaletteEntry {
        id: entry.id.clone(),
        label: entry.label.clone(),
        icon: entry.icon,
        detail,
        shortcut: match &entry.shortcut {
            Some(s) => Some(s.clone()),
            None => None,
        },
        positions,
    }
}

// ----- Commands ---------------------------------------------------------------

/// A command the shell carries out, from a key, a menu or a button.
pub enum Control {
    Open(Route),
    Navigate(Route),
    Back,
    Forward,
    Search,
    WorkspacePicker,
    SwitchWorkspace(String),
    NewWorkspace,
    CreateWorkspace,
    Sidebar,
    Notifications,
    MarkAllRead,
    Dismiss,
    Font(FontChoice),
    FontSize(FontSize),
}

/// What the app does after a command, beyond the state the shell keeps.
pub struct Effects {
    /// Close the open overlay.
    pub dismiss: bool,
    /// Open the notification panel.
    pub open_notifications: bool,
    /// Give the shell focus.
    pub focus_shell: bool,
    /// Start the palette's transition and focus its query.
    pub open_picker: bool,
    /// Show the Assistant's conversation list.
    pub show_conversations: bool,
    /// Clear the new-workspace form and focus its name.
    pub reset_form: bool,
    /// Ask the store for this change of workspace.
    pub workspace: Option<WorkspaceCommand>,
    /// Redraw the pages at a new type size.
    pub rescale: bool,
}

/// A command that does nothing.
pub open spec fn no_effects(e: Effects) -> bool {
    &&& !e.dismiss && !e.open_notifications && !e.focus_shell && !e.open_picker
    &&& !e.show_conversations && !e.reset_form && e.workspace is None && !e.rescale
}

fn nothing() -> (e: Effects)
    ensures
        no_effects(e),
{
    Effects {
        dismiss: false,
        open_notifications: false,
        focus_shell: false,
        open_picker: false,
        show_conversations: false,
        reset_form: false,
        workspace: None,
        rescale: false,
    }
}

/// The text shown when a change of workspace fails.
pub open spec fn workspace_unavailable(e: Seq<char>) -> Seq<char> {
    "Workspace unavailable: "@ + e
}

/// What a key pressed in the palette asks for.
#[derive(Clone, Copy, Debug, PartialEq, Eq, Structural)]
pub enum PaletteKey {
    /// Not a palette key.
    Ignored,
    /// The palette used the key.
    Handled,
    /// Create the workspace the form describes.
    CreateWorkspace,
    /// Choose this row.
    Choose(usize),
}

/// The state the shell's commands change.
pub struct Shell {
    pub router: Router,
    /// The palette lists workspaces only.
    pub workspace_only: bool,
    /// The new-workspace form is open.
    pub creating_workspace: bool,
    /// The highlighted palette row.
    pub selected: usize,
    pub workspace_error: Option<String>,
    /// A change of workspace is with the store.
    pub workspace_pending: bool,
    /// The left pane is open.
    pub sidebar_open: bool,
    pub font: FontChoice,
    pub font_size: FontSize,
    /// Which notifications are unread.
    pub unread: Vec<bool>,
}

/// The two shells agree on everything but the route history.
pub open spec fn same_besides_router(a: Shell, b: Shell) -> bool {
    &&& a.workspace_only == b.workspace_only
    &&& a.creating_workspace == b.creating_workspace
    &&& a.selected == b.selected
    &&& a.workspace_error == b.workspace_error
    &&& a.workspace_pending == b.workspace_pending
    &&& a.sidebar_open == b.sidebar_open
    &&& a.font == b.font
    &&& a.font_size == b.font_size
    &&& a.unread@ == b.unread@
}

/// The two shells agree on everything.
pub open spec fn same_shell(a: Shell, b: Shell) -> bool {
    a.router@ == b.router@ && same_besides_router(a, b)
}

impl Shell {
    /// Hand a change of workspace to the store, unless one is under way or
    /// there is no store. Gives back the command to send.
    pub fn change_workspace(&mut self, command: WorkspaceCommand, has_store: bool) -> (r: Option<
        WorkspaceCommand,
    >)
        ensures
            r is Some == (has_store && !old(self).workspace_pending),
            r is Some ==> r == Some(command) && final(self).workspace_pending && final(self).workspace_error is None,
            r is None ==> final(self).workspace_pending == old(self).workspace_pending && final(self).workspace_error == old(self).workspace_error,
            final(self).router@ == old(self).router@,
            final(self).creating_workspace == old(self).creating_workspace,
            final(self).workspace_only == old(self).workspace_only,
            final(self).selected == old(self).selected,
            final(self).sidebar_open == old(self).sidebar_open,
            final(self).font == old(self).font,
            final(self).font_size == old(self).font_size,
            final(self).unread@ == old(self).unread@,
    {
        if self.workspace_pending || !has_store {
            return None;
        }
        self.workspace_pending = true;
        self.workspace_error = None;
        Some(command)
    }

    /// The store answered a change of workspace. Says whether the pages
    /// should drop what they showed of the old one.
    pub fn workspace_settled(&mut self, result: Result<(), String>) -> (r: bool)
        ensures
            !final(self).workspace_pending,
            r == result is Ok,
            match result {
                Ok(()) => final(self).workspace_error == old(self).workspace_error,
                Err(e) => final(self).workspace_error matches Some(m) && m@ == workspace_unavailable(e@),
            },
            final(self).router@ == old(self).router@,
            final(self).creating_workspace == old(self).creating_workspace,
            final(self).unread@ == old(self).unread@,
    {
        self.workspace_pending = false;
        match result {
            Ok(()) => true,
            Err(e) => {
                let mut v: Vec<char> = Vec::new();
                crate::text::push_str(&mut v, "Workspace unavailable: ");
                crate::text::push_str(&mut v, e.as_str());
                self.workspace_error = Some(string_of(&v));
                false
            },
        }
    }

    /// The palette opens afresh: the first row highlighted, no form, no error.
    fn focus_picker(&mut self)
        ensures
            final(self).selected == 0,
            !final(self).creating_workspace,
            final(self).workspace_error is None,
            final(self).router@ == old(self).router@,
            final(self).workspace_only == old(self).workspace_only,
            final(self).workspace_pending == old(self).workspace_pending,
            final(self).sidebar_open == old(self).sidebar_open,
            final(self).font == old(self).font,
            final(self).font_size == old(self).font_size,
            final(self).unread@ == old(self).unread@,
    {
        self.selected = 0;
        self.creating_workspace = false;
        self.workspace_error = None;
    }

    /// A key pressed while the palette is open. Down and Up move the
    /// highlight among `matches` rows (not while the creation form is
    /// open); Enter creates the workspace the form describes, or chooses
    /// the highlighted row.
    pub fn palette_key(&mut self, key: &str, matches: usize) -> (r: PaletteKey)
        requires
            old(self).selected < usize::MAX,
        ensures
            key@ == "down"@ && !old(self).creating_workspace ==> final(self).selected == (if old(self).selected + 1 < matches {
                old(self).selected + 1
            } else if matches > 0 {
                matches - 1
            } else {
                0
            }),
            key@ == "up"@ && !old(self).creating_workspace ==> final(self).selected == (if old(self).selected > 0 {
                old(self).selected - 1
            } else {
                0
            }),
            !(key@ == "down"@ || key@ == "up"@) || old(self).creating_workspace ==> final(self).selected
                == old(self).selected,
            r == (if key@ == "enter"@ {
                if old(self).creating_workspace {
                    PaletteKey::CreateWorkspace
                } else if old(self).selected < matches {
                    PaletteKey::Choose(old(self).selected)
                } else {
                    PaletteKey::Handled
                }
            } else if key@ == "down"@ || key@ == "up"@ {
                PaletteKey::Handled
            } else {
                PaletteKey::Ignored
            }),
            final(self).creating_workspace == old(self).creating_workspace,
            final(self).router@ == old(self).router@,
    {
        proof {
            reveal_strlit("down");
            reveal_strlit("up");
            reveal_strlit("enter");
            assert("down"@.len() == 4 && "up"@.len() == 2 && "enter"@.len() == 5);
        }
        let k = chars_of(key);
        if vec_eq(&k, &chars_of("down")) {
            if !self.creating_workspace {
                let last = if matches > 0 {
                    matches - 1
                } else {
                    0
                };
                self.selected = if self.selected + 1 <= last {
                    self.selected + 1
                } else {
                    last
                };
            }
            PaletteKey::Handled
        } else if vec_eq(&k, &chars_of("up")) {
            if !self.creating_workspace && self.selected > 0 {
                self.selected = self.selected - 1;
            }
            PaletteKey::Handled
        } else if vec_eq(&k, &chars_of("enter")) {
            if self.creating_workspace {
                PaletteKey::CreateWorkspace
            } else if self.selected < matches {
                PaletteKey::Choose(self.selected)
            } else {
                PaletteKey::Handled
            }
        } else {
            PaletteKey::Ignored
        }
    }

    /// Carry out a command. `active` is the open overlay, `has_store`
    /// whether workspaces can be changed, and `form` the new-workspace
    /// form's name, icon and colour. While a dialog is open every command
    /// but Dismiss is ignored.
    pub fn dispatch(
        &mut self,
        control: Control,
        active: Option<Overlay>,
        has_store: bool,
        form: (&str, &str, &str),
    ) -> (e: Effects)
        ensures
            (active matches Some(o) && o.dialog()) && !(control is Dismiss) ==> no_effects(e)
                && same_shell(*final(self), *old(self)),
            old(self).router@.current != final(self).router@.current ==> e.dismiss,
            !((active matches Some(o) && o.dialog()) && !(control is Dismiss)) ==> match control {
                Control::Back | Control::Forward => {
                    &&& final(self).router@ == spec_go(old(self).router@, control is Forward)
                    &&& same_besides_router(*final(self), *old(self))
                    &&& e.dismiss && e.focus_shell && !e.open_picker && e.workspace is None
                },
                Control::Navigate(route) => {
                    &&& final(self).router@ == spec_navigate(old(self).router@, route)
                    &&& same_besides_router(*final(self), *old(self))
                    &&& e.dismiss && e.focus_shell && e.show_conversations == (route
                        == Route::Assistant)
                },
                Control::Open(route) => {
                    &&& final(self).router@ == spec_navigate(old(self).router@, route)
                    &&& same_besides_router(*final(self), *old(self))
                    &&& e.dismiss && e.focus_shell && !e.show_conversations
                },
                Control::Search | Control::WorkspacePicker => {
                    &&& final(self).workspace_only == (control is WorkspacePicker)
                    &&& final(self).router@ == old(self).router@
                    &&& final(self).selected == 0 && !final(self).creating_workspace
                    &&& final(self).workspace_error is None
                    &&& e.open_picker && !e.dismiss && e.workspace is None
                },
                Control::SwitchWorkspace(id) => {
                    &&& final(self).router@ == old(self).router@
                    &&& if has_store && !old(self).workspace_pending {
                        &&& e.workspace matches Some(WorkspaceCommand::Switch { id: i }) && i@ == id@
                        &&& e.dismiss && final(self).workspace_pending
                        &&& final(self).workspace_error is None
                    } else {
                        e.workspace is None && final(self).workspace_pending == old(self).workspace_pending
                    }
                },
                Control::NewWorkspace => {
                    &&& final(self).creating_workspace && final(self).selected == 0
                    &&& e.reset_form && e.workspace is None
                    &&& final(self).router@ == old(self).router@
                },
                Control::CreateWorkspace => {
                    &&& final(self).router@ == old(self).router@
                    &&& if !workspace_fields_ok(form.0@, form.1@, form.2@) {
                        &&& e.workspace is None
                        &&& final(self).workspace_error matches Some(m) && m@
                            == "Enter a name, up to four icon characters, and an optional #RRGGBB color."@
                        &&& final(self).workspace_pending == old(self).workspace_pending
                    } else if has_store && !old(self).workspace_pending {
                        &&& e.workspace matches Some(
                            WorkspaceCommand::Create { name, icon, color },
                        )
                        &&& name@ == trim(form.0@) && opt_chars(icon) == given(form.1@)
                            && opt_chars(color) == given(form.2@)
                        &&& e.dismiss && final(self).workspace_pending
                        &&& final(self).workspace_error is None
                    } else {
                        e.workspace is None && final(self).workspace_pending == old(self).workspace_pending
                    }
                },
                Control::Sidebar => {
                    &&& final(self).sidebar_open == !old(self).sidebar_open
                    &&& final(self).router@ == old(self).router@
                    &&& no_effects(e)
                },
                Control::Notifications => {
                    &&& same_shell(*final(self), *old(self))
                    &&& e.dismiss == (active == Some(Overlay::Notifications))
                    &&& e.open_notifications == (active != Some(Overlay::Notifications))
                },
                Control::MarkAllRead => {
                    &&& unread_count_of(final(self).unread@) == 0
                    &&& final(self).unread@.len() == old(self).unread@.len()
                    &&& forall|k: int| 0 <= k < final(self).unread@.len() ==> !#[trigger] final(self).unread@[k]
                    &&& final(self).router@ == old(self).router@
                    &&& no_effects(e)
                },
                Control::Dismiss => {
                    &&& same_shell(*final(self), *old(self))
                    &&& e.dismiss && !e.open_notifications && e.workspace is None
                },
                Control::Font(font) => {
                    &&& final(self).font == font
                    &&& final(self).router@ == old(self).router@
                    &&& no_effects(e)
                },
                Control::FontSize(size) => {
                    &&& final(self).font_size == size
                    &&& final(self).router@ == old(self).router@
                    &&& e.rescale && !e.dismiss && e.workspace is None
                },
            },
    {
        let before = self.router.current();
        let dialog = match active {
            Some(o) => o.is_dialog(),
            None => false,
        };
        let dismissing = match control {
            Control::Dismiss => true,
            _ => false,
        };
        if dialog && !dismissing {
            return nothing();
        }
        let mut e = nothing();
        match control {
            Control::Back => {
                self.router.go(false);
                e.dismiss = true;
                e.focus_shell = true;
            },
            Control::Forward => {
                self.router.go(true);
                e.dismiss = true;
                e.focus_shell = true;
            },
            Control::Navigate(route) => {
                e.show_conversations = route == Route::Assistant;
                self.router.navigate(route);
                e.dismiss = true;
                e.focus_shell = true;
            },
            Control::Open(route) => {
                self.router.navigate(route);
                e.dismiss = true;
                e.focus_shell = true;
            },
            Control::Search => {
                self.workspace_only = false;
                self.focus_picker();
                e.open_picker = true;
            },
            Control::WorkspacePicker => {
                self.workspace_only = true;
                self.focus_picker();
                e.open_picker = true;
            },
            Control::SwitchWorkspace(id) => {
                let sent = self.change_workspace(WorkspaceCommand::Switch { id }, has_store);
                e.dismiss = sent.is_some();
                e.workspace = sent;
            },
            Control::NewWorkspace => {
                self.creating_workspace = true;
                self.selected = 0;
                e.reset_form = true;
            },
            Control::CreateWorkspace => {
                match new_workspace(form.0, form.1, form.2) {
                    Ok(command) => {
                        let sent = self.change_workspace(command, has_store);
                        e.dismiss = sent.is_some();
                        e.workspace = sent;
                    },
                    Err(message) => {
                        self.workspace_error = Some(message);
                    },
                }
            },
            Control::Sidebar => {
                self.sidebar_open = !self.sidebar_open;
            },
            Control::Notifications => {
                if active == Some(Overlay::Notifications) {
                    e.dismiss = true;
                } else {
                    e.open_notifications = true;
                }
            },
            Control::MarkAllRead => {
                let n = self.unread.len();
                let mut read: Vec<bool> = Vec::new();
                let mut k: usize = 0;
                while k < n
                    invariant
                        k <= n,
                        read.len() == k,
                        forall|j: int| 0 <= j < k ==> !#[trigger] read@[j],
                    decreases n - k,
                {
                    read.push(false);
                    k += 1;
                }
                proof {
                    lemma_none_unread(read@);
                }
                self.unread = read;
            },
            Control::Dismiss => {
                e.dismiss = true;
            },
            Control::Font(font) => {
                self.font = font;
            },
            Control::FontSize(size) => {
                self.font_size = size;
                e.rescale = true;
            },
        }
        if before != self.router.current() {
            e.dismiss = true;
        }
        e
    }
}

// ----- Notifications ----------------------------------------------------------

/// How many notifications are unread.
pub open spec fn unread_count_of(unread: Seq<bool>) -> nat
    decreases unread.len(),
{
    if unread.len() == 0 {
        0
    } else {
        unread_count_of(unread.drop_last()) + if unread.last() {
            1nat
        } else {
            0nat
        }
    }
}

/// How many notifications are unread: the panel's badge, and whether it
/// offers "Mark all read".
pub fn unread_count(unread: &Vec<bool>) -> (r: usize)
    ensures
        r == unread_count_of(unread@),
{
    let mut n: usize = 0;
    let mut i: usize = 0;
    while i < unread.len()
        invariant
            i <= unread.len(),
            n == unread_count_of(unread@.take(i as int)),
            n <= i,
        decreases unread.len() - i,
    {
        proof {
            assert(unread@.take(i + 1).drop_last() =~= unread@.take(i as int));
        }
        if unread[i] {
            n += 1;
        }
        i += 1;
    }
    proof {
        assert(unread@.take(unread.len() as int) =~= unread@);
    }
    n
}

proof fn lemma_none_unread(s: Seq<bool>)
    requires
        forall|k: int| 0 <= k < s.len() ==> !#[trigger] s[k],
    ensures
        unread_count_of(s) == 0,
    decreases s.len(),
{
    if s.len() > 0 {
        assert(!s[s.len() - 1]);
        assert forall|k: int| 0 <= k < s.drop_last().len() implies !#[trigger] s.drop_last()[k] by {
            assert(s.drop_last()[k] == s[k]);
        }
        lemma_none_unread(s.drop_last());
    }
}

} // verus!

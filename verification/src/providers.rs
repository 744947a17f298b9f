//! Model providers as Settings and the Evee page show them: what each row
//! says and offers, the key and code a sign-in needs, the hosts an HTTP
//! policy names, and how the settings follow the daemon's answers. The
//! daemon owns every credential; the app calls it.
use crate::model_menu::{spec_close, ModelMenu};
use crate::text::{chars_of, push_str, string_of, trim, trimmed};
use vstd::prelude::*;

verus! {

/// A provider the daemon can connect.
#[derive(Clone, Copy, Debug, PartialEq, Eq, Structural)]
pub enum ProviderId {
    Claude,
    Codex,
    Openrouter,
}

/// How a provider is connected.
#[derive(Clone, Copy, Debug, PartialEq, Eq, Structural)]
pub enum ConnectMethod {
    /// Sign in in the browser.
    Browser,
    /// Sign in in the browser, then paste a code back.
    BrowserCode,
    /// Paste an API key.
    ApiKey,
}

impl ProviderId {
    /// How a provider connects before the daemon has said.
    pub fn default_connect(self) -> (r: ConnectMethod)
        ensures
            r == spec_default_connect(self),
    {
        match self {
            ProviderId::Claude => ConnectMethod::BrowserCode,
            ProviderId::Codex => ConnectMethod::Browser,
            ProviderId::Openrouter => ConnectMethod::ApiKey,
        }
    }
}

/// How a provider connects before the daemon has said.
pub open spec fn spec_default_connect(id: ProviderId) -> ConnectMethod {
    match id {
        ProviderId::Claude => ConnectMethod::BrowserCode,
        ProviderId::Codex => ConnectMethod::Browser,
        ProviderId::Openrouter => ConnectMethod::ApiKey,
    }
}

/// A model a provider offers.
pub struct ProviderModel {
    pub id: String,
    pub name: String,
}

/// A model provider as the daemon reports it.
pub struct ProviderStatus {
    pub id: ProviderId,
    pub name: String,
    pub connected: bool,
    pub signing_in: bool,
    pub awaiting_code: bool,
    pub account: Option<String>,
    pub description: String,
    pub error: Option<String>,
    pub connect: ConnectMethod,
    pub models: Vec<ProviderModel>,
}

/// Every provider the daemon knows, and the model new replies use.
pub struct ProvidersState {
    pub providers: Vec<ProviderStatus>,
    pub default_model: Option<String>,
}

/// An optional text as plain characters.
pub open spec fn opt_chars(t: Option<String>) -> Option<Seq<char>> {
    match t {
        Some(s) => Some(s@),
        None => None,
    }
}

fn copy_opt(t: &Option<String>) -> (r: Option<String>)
    ensures
        opt_chars(r) == opt_chars(*t),
{
    match t {
        Some(s) => Some(s.clone()),
        None => None,
    }
}

/// The position of the first provider with this ID.
pub open spec fn first_provider(ps: Seq<ProviderStatus>, id: ProviderId) -> Option<int>
    decreases ps.len(),
{
    if ps.len() == 0 {
        None
    } else {
        match first_provider(ps.drop_last(), id) {
            Some(k) => Some(k),
            None => if ps.last().id == id {
                Some(ps.len() - 1)
            } else {
                None
            },
        }
    }
}

/// The first provider with this ID.
pub fn provider(state: &ProvidersState, id: ProviderId) -> (r: Option<usize>)
    ensures
        match r {
            Some(k) => first_provider(state.providers@, id) == Some(k as int) && k
                < state.providers.len(),
            None => first_provider(state.providers@, id) is None,
        },
{
    let ps = &state.providers;
    let mut i: usize = 0;
    while i < ps.len()
        invariant
            i <= ps.len(),
            ps@ == state.providers@,
            first_provider(ps@.take(i as int), id) is None,
        decreases ps.len() - i,
    {
        proof {
            assert(ps@.take(i + 1).drop_last() =~= ps@.take(i as int));
        }
        if ps[i].id == id {
            proof {
                lemma_first_provider(ps@, id, i as int);
            }
            return Some(i);
        }
        i += 1;
    }
    proof {
        assert(ps@.take(ps.len() as int) =~= ps@);
    }
    None
}

proof fn lemma_first_provider(ps: Seq<ProviderStatus>, id: ProviderId, j: int)
    requires
        0 <= j < ps.len(),
        first_provider(ps.take(j), id) is None,
        ps[j].id == id,
    ensures
        first_provider(ps, id) == Some(j),
    decreases ps.len(),
{
    if j < ps.len() - 1 {
        assert(ps.drop_last().take(j) =~= ps.take(j));
        lemma_first_provider(ps.drop_last(), id, j);
    } else {
        assert(ps.drop_last() =~= ps.take(j));
    }
}

// ----- A provider's row ------------------------------------------------------------

/// What a provider's row says: working on it, its error, the sign-in step
/// it waits for, its account once connected, or its description; before
/// the daemon has answered, whether it is being checked.
pub open spec fn spec_row_line(status: Option<ProviderStatus>, working: bool, busy: bool) -> Seq<char> {
    if working {
        "Working…"@
    } else {
        match status {
            Some(s) => match s.error {
                Some(e) => e@,
                None => if s.awaiting_code {
                    "Paste the code from your browser to finish signing in."@
                } else if s.signing_in {
                    "Complete the sign-in in your browser."@
                } else if s.connected {
                    "Connected · "@ + match s.account {
                        Some(a) => a@,
                        None => "Ready"@,
                    }
                } else {
                    s.description@
                },
            },
            None => if busy {
                "Checking…"@
            } else {
                "Not checked yet."@
            },
        }
    }
}

/// What a provider's row says. `working` is whether this provider is
/// being changed, `busy` whether any is.
pub fn row_line(status: Option<&ProviderStatus>, working: bool, busy: bool) -> (r: String)
    ensures
        r@ == spec_row_line(
            match status {
                Some(s) => Some(*s),
                None => None,
            },
            working,
            busy,
        ),
{
    let mut v: Vec<char> = Vec::new();
    if working {
        push_str(&mut v, "Working…");
    } else {
        match status {
            Some(s) => match &s.error {
                Some(e) => push_str(&mut v, e.as_str()),
                None => {
                    if s.awaiting_code {
                        push_str(&mut v, "Paste the code from your browser to finish signing in.");
                    } else if s.signing_in {
                        push_str(&mut v, "Complete the sign-in in your browser.");
                    } else if s.connected {
                        push_str(&mut v, "Connected · ");
                        match &s.account {
                            Some(a) => push_str(&mut v, a.as_str()),
                            None => push_str(&mut v, "Ready"),
                        }
                    } else {
                        push_str(&mut v, s.description.as_str());
                    }
                },
            },
            None => {
                if busy {
                    push_str(&mut v, "Checking…");
                } else {
                    push_str(&mut v, "Not checked yet.");
                }
            },
        }
    }
    string_of(&v)
}

/// The controls a provider's row offers.
#[derive(Clone, Copy, Debug, PartialEq, Eq)]
pub enum RowControls {
    /// Connected: a Test button, and this way to disconnect, if any.
    Connected { disconnect: Option<&'static str> },
    /// The sign-in waits for a pasted code: the code field, Finish and Cancel.
    CodeEntry,
    /// The sign-in runs in the browser: Cancel.
    SigningIn,
    /// Not connected: this way to connect.
    Connect { method: ConnectMethod },
}

/// How a row disconnects: browser sign-ins sign out, keys are removed, and
/// a code sign-in, which another tool shares, is left alone.
pub open spec fn disconnect_label(method: ConnectMethod) -> Option<&'static str> {
    match method {
        ConnectMethod::Browser => Some("Sign out"),
        ConnectMethod::ApiKey => Some("Remove key"),
        ConnectMethod::BrowserCode => None,
    }
}

/// The controls a provider's row offers, given what the daemon reports of
/// it (if anything) and the provider's ID.
pub fn row_controls(status: Option<&ProviderStatus>, id: ProviderId) -> (r: RowControls)
    ensures
        r == match status {
            Some(s) => if s.connected {
                RowControls::Connected { disconnect: disconnect_label(s.connect) }
            } else if s.awaiting_code {
                RowControls::CodeEntry
            } else if s.signing_in {
                RowControls::SigningIn
            } else {
                RowControls::Connect { method: s.connect }
            },
            None => RowControls::Connect { method: spec_default_connect(id) },
        },
{
    let method = match status {
        Some(s) => s.connect,
        None => id.default_connect(),
    };
    match status {
        Some(s) if s.connected => RowControls::Connected {
            disconnect: match s.connect {
                ConnectMethod::Browser => Some("Sign out"),
                ConnectMethod::ApiKey => Some("Remove key"),
                ConnectMethod::BrowserCode => None,
            },
        },
        Some(s) if s.awaiting_code => RowControls::CodeEntry,
        Some(s) if s.signing_in => RowControls::SigningIn,
        _ => RowControls::Connect { method },
    }
}

// ----- What the settings send ---------------------------------------------------------

/// The account the composer speaks as: the first connected provider's
/// account, or its name.
pub open spec fn spec_account(ps: Seq<ProviderStatus>) -> Option<Seq<char>>
    decreases ps.len(),
{
    if ps.len() == 0 {
        None
    } else if ps[0].connected {
        Some(
            match ps[0].account {
                Some(a) => a@,
                None => ps[0].name@,
            },
        )
    } else {
        spec_account(ps.drop_first())
    }
}

/// The account the composer speaks as, from what the daemon reports.
pub fn account(state: &ProvidersState) -> (r: Option<String>)
    ensures
        opt_chars(r) == spec_account(state.providers@),
{
    let ps = &state.providers;
    let mut i: usize = 0;
    proof {
        assert(ps@.skip(0) =~= ps@);
    }
    while i < ps.len()
        invariant
            i <= ps.len(),
            ps@ == state.providers@,
            spec_account(ps@) == spec_account(ps@.skip(i as int)),
        decreases ps.len() - i,
    {
        proof {
            assert(ps@.skip(i as int).drop_first() =~= ps@.skip(i + 1));
            assert(ps@.skip(i as int)[0] == ps@[i as int]);
        }
        if ps[i].connected {
            return match &ps[i].account {
                Some(a) => Some(a.clone()),
                None => Some(ps[i].name.clone()),
            };
        }
        i += 1;
    }
    None
}

/// The model a provider's test asks: the chosen model, when it is one of
/// this provider's (its ID starts with the provider's key, as the daemon
/// names it, and a colon).
pub open spec fn spec_test_model(model: Option<Seq<char>>, key: Seq<char>) -> Option<Seq<char>> {
    match model {
        Some(m) => if crate::text::is_prefix(key + ":"@, m) {
            Some(m)
        } else {
            None
        },
        None => None,
    }
}

/// The model a provider's test asks; `key` is the provider's key as the
/// daemon names it.
pub fn test_model(model: &Option<String>, key: &str) -> (r: Option<String>)
    ensures
        opt_chars(r) == spec_test_model(opt_chars(*model), key@),
{
    match model {
        Some(m) => {
            let mut prefix: Vec<char> = Vec::new();
            push_str(&mut prefix, key);
            push_str(&mut prefix, ":");
            if crate::text::starts_with(&chars_of(m.as_str()), &prefix) {
                Some(m.clone())
            } else {
                None
            }
        },
        None => None,
    }
}

/// The line beside Refresh: the error, the check under way, the last
/// notice, or what Refresh does.
pub open spec fn spec_status_line(error: Option<Seq<char>>, notice: Option<Seq<char>>, busy: bool) -> Seq<char> {
    match error {
        Some(e) => e,
        None => if busy {
            "Checking providers…"@
        } else {
            match notice {
                Some(n) => n,
                None => "Re-check every sign-in, key and model list."@,
            }
        },
    }
}

/// The line beside Refresh.
pub fn status_line(error: &Option<String>, notice: &Option<String>, busy: bool) -> (r: String)
    ensures
        r@ == spec_status_line(opt_chars(*error), opt_chars(*notice), busy),
{
    match error {
        Some(e) => e.clone(),
        None => if busy {
            String::from_str("Checking providers…")
        } else {
            match notice {
                Some(n) => n.clone(),
                None => String::from_str("Re-check every sign-in, key and model list."),
            }
        },
    }
}

/// A separator in a list of hosts: a comma, a space or a line break.
pub open spec fn host_separator(c: char) -> bool {
    c == ',' || c == ' ' || c == '\n'
}

/// The pieces of `s` between separators, as `str::split` gives them.
pub open spec fn pieces(s: Seq<char>) -> Seq<Seq<char>>
    decreases s.len(),
{
    if s.len() == 0 {
        seq![Seq::empty()]
    } else {
        let rest = pieces(s.drop_last());
        if host_separator(s.last()) {
            rest.push(Seq::empty())
        } else {
            rest.update(rest.len() - 1, rest.last().push(s.last()))
        }
    }
}

proof fn lemma_pieces_nonempty(s: Seq<char>)
    ensures
        pieces(s).len() >= 1,
    decreases s.len(),
{
    if s.len() > 0 {
        lemma_pieces_nonempty(s.drop_last());
    }
}

/// The hosts a policy field names: its pieces trimmed and lower-cased,
/// blank ones dropped.
pub open spec fn spec_hosts(text: Seq<char>) -> Seq<Seq<char>> {
    pieces(text).map_values(|p: Seq<char>| crate::text::ascii_lower(trim(p))).filter(
        |h: Seq<char>| h.len() > 0,
    )
}

/// The hosts a policy field names.
pub fn hosts(text: &str) -> (r: Vec<String>)
    ensures
        r@.map_values(|h: String| h@) == spec_hosts(text@),
{
    let c = chars_of(text);
    // The pieces so far: the finished ones, then the one being read.
    let mut done: Vec<Vec<char>> = Vec::new();
    let mut current: Vec<char> = Vec::new();
    let mut i: usize = 0;
    while i < c.len()
        invariant
            i <= c.len(),
            c@ == text@,
            done@.map_values(|p: Vec<char>| p@).push(current@) == pieces(c@.take(i as int)),
        decreases c.len() - i,
    {
        let ghost before = pieces(c@.take(i as int));
        proof {
            assert(c@.take(i + 1).drop_last() =~= c@.take(i as int));
            assert(c@.take(i + 1).last() == c@[i as int]);
        }
        let ch = c[i];
        if ch == ',' || ch == ' ' || ch == '\n' {
            let finished = current;
            done.push(finished);
            current = Vec::new();
            proof {
                assert(done@.map_values(|p: Vec<char>| p@).push(current@) =~= before.push(
                    Seq::empty(),
                ));
            }
        } else {
            current.push(ch);
            proof {
                assert(done@.map_values(|p: Vec<char>| p@).push(current@) =~= before.update(
                    before.len() - 1,
                    before.last().push(ch),
                ));
            }
        }
        i += 1;
    }
    proof {
        assert(c@.take(c.len() as int) =~= c@);
    }
    done.push(current);
    let ghost all = pieces(text@);
    proof {
        assert(done@.map_values(|p: Vec<char>| p@) =~= all);
    }
    let mut r: Vec<String> = Vec::new();
    let mut k: usize = 0;
    while k < done.len()
        invariant
            k <= done.len(),
            done@.map_values(|p: Vec<char>| p@) == all,
            r@.map_values(|h: String| h@) == all.take(k as int).map_values(
                |p: Seq<char>| crate::text::ascii_lower(trim(p)),
            ).filter(|h: Seq<char>| h.len() > 0),
        decreases done.len() - k,
    {
        let host = crate::text::lowered(&trimmed(&done[k]));
        proof {
            assert(done@[k as int]@ == all[k as int]);
            let m = all.take(k + 1).map_values(|p: Seq<char>| crate::text::ascii_lower(trim(p)));
            assert(m =~= all.take(k as int).map_values(
                |p: Seq<char>| crate::text::ascii_lower(trim(p)),
            ).push(host@));
            reveal(Seq::filter);
            assert(m.drop_last() =~= all.take(k as int).map_values(
                |p: Seq<char>| crate::text::ascii_lower(trim(p)),
            ));
        }
        if host.len() > 0 {
            r.push(string_of(&host));
            proof {
                assert(r@.map_values(|h: String| h@) =~= all.take(k as int).map_values(
                    |p: Seq<char>| crate::text::ascii_lower(trim(p)),
                ).filter(|h: Seq<char>| h.len() > 0).push(host@));
            }
        }
        k += 1;
    }
    proof {
        assert(all.take(done.len() as int) =~= all);
    }
    r
}

/// A trimmed field, or `message` when it is blank.
fn required(text: &str, message: &str) -> (r: Result<String, String>)
    ensures
        match r {
            Ok(t) => trim(text@).len() > 0 && t@ == trim(text@),
            Err(m) => trim(text@).len() == 0 && m@ == message@,
        },
{
    let t = trimmed(&chars_of(text));
    if t.len() == 0 {
        Err(String::from_str(message))
    } else {
        Ok(string_of(&t))
    }
}

/// The API key typed for OpenRouter, trimmed, or why it cannot be sent.
pub fn api_key(text: &str) -> (r: Result<String, String>)
    ensures
        match r {
            Ok(t) => trim(text@).len() > 0 && t@ == trim(text@),
            Err(m) => trim(text@).len() == 0 && m@ == "Paste your OpenRouter API key first."@,
        },
{
    required(text, "Paste your OpenRouter API key first.")
}

/// The code pasted after a browser sign-in, trimmed, or why it cannot be sent.
pub fn sign_in_code(text: &str) -> (r: Result<String, String>)
    ensures
        match r {
            Ok(t) => trim(text@).len() > 0 && t@ == trim(text@),
            Err(m) => trim(text@).len() == 0 && m@ == "Paste the code shown after signing in."@,
        },
{
    required(text, "Paste the code shown after signing in.")
}

// ----- The settings' state ---------------------------------------------------------

/// What a provider test found.
pub struct ProviderTest {
    pub ok: bool,
    pub reply: Option<String>,
    pub elapsed_ms: u64,
    pub error: Option<String>,
}

/// What the Providers settings hold between frames.
pub struct ProvidersSettings {
    pub providers: Option<ProvidersState>,
    /// The model new replies use.
    pub model: Option<String>,
    pub menu: ModelMenu,
    /// A provider call is under way.
    pub busy: bool,
    /// The provider it concerns.
    pub busy_provider: Option<ProviderId>,
    pub error: Option<String>,
    /// The last test, and the provider it tested.
    pub test: Option<(ProviderId, ProviderTest)>,
    pub notice: Option<String>,
    /// A settings command is with the store.
    pub pending: bool,
}

impl ProvidersSettings {
    /// Settings with nothing read yet.
    pub fn new() -> (r: ProvidersSettings)
        ensures
            r.providers is None && r.model is None && !r.busy && r.busy_provider is None,
            r.error is None && r.test is None && r.notice is None && !r.pending,
            r.menu == (ModelMenu { open: false, closing: false, generation: 0 }),
    {
        ProvidersSettings {
            providers: None,
            model: None,
            menu: ModelMenu { open: false, closing: false, generation: 0 },
            busy: false,
            busy_provider: None,
            error: None,
            test: None,
            notice: None,
            pending: false,
        }
    }

    /// Start a provider call for `id` (or all), unless one is under way.
    pub fn start_run(&mut self, id: Option<ProviderId>) -> (r: bool)
        ensures
            r == !old(self).busy,
            r ==> final(self).busy && final(self).busy_provider == id && final(self).error is None,
            !r ==> final(self).busy_provider == old(self).busy_provider && final(self).error
                == old(self).error,
            final(self).busy,
            final(self).pending == old(self).pending,
            final(self).model == old(self).model,
            final(self).test == old(self).test,
            final(self).menu == old(self).menu,
    {
        if self.busy {
            return false;
        }
        self.busy = true;
        self.busy_provider = id;
        self.error = None;
        true
    }

    /// The daemon answered a provider call: the providers as they now
    /// stand, or why it could not.
    pub fn apply(&mut self, result: Result<ProvidersState, String>)
        ensures
            !final(self).busy && final(self).busy_provider is None,
            match result {
                Ok(state) => final(self).providers == Some(state) && opt_chars(final(self).model)
                    == opt_chars(state.default_model) && final(self).error is None,
                Err(e) => final(self).providers == old(self).providers && final(self).model
                    == old(self).model && opt_chars(final(self).error) == Some(e@),
            },
            final(self).pending == old(self).pending,
    {
        self.busy = false;
        self.busy_provider = None;
        match result {
            Ok(state) => {
                self.model = copy_opt(&state.default_model);
                self.error = None;
                self.providers = Some(state);
            },
            Err(e) => {
                self.error = Some(e);
            },
        }
    }

    /// Start testing a provider (`key` is its key as the daemon names it),
    /// unless a call is under way. Gives back the model the test asks, if
    /// the chosen one is this provider's.
    pub fn start_test(&mut self, id: ProviderId, key: &str) -> (r: Option<Option<String>>)
        ensures
            r is Some == !old(self).busy,
            r matches Some(m) ==> opt_chars(m) == spec_test_model(opt_chars(old(self).model), key@)
                && final(self).busy && final(self).busy_provider == Some(id) && final(self).test is None,
            r is None ==> final(self).busy_provider == old(self).busy_provider,
            final(self).busy,
            final(self).model == old(self).model,
    {
        if self.busy {
            return None;
        }
        self.busy = true;
        self.busy_provider = Some(id);
        self.test = None;
        Some(test_model(&self.model, key))
    }

    /// A test finished.
    pub fn tested(&mut self, id: ProviderId, result: Result<ProviderTest, String>)
        ensures
            !final(self).busy && final(self).busy_provider is None,
            match result {
                Ok(t) => final(self).test == Some((id, t)),
                Err(e) => opt_chars(final(self).error) == Some(e@) && final(self).test == old(self).test,
            },
            final(self).providers == old(self).providers,
            final(self).model == old(self).model,
    {
        self.busy = false;
        self.busy_provider = None;
        match result {
            Ok(t) => self.test = Some((id, t)),
            Err(e) => self.error = Some(e),
        }
    }

    /// A cancelled sign-in came back, with the providers if the daemon sent them.
    pub fn cancelled(&mut self, result: Result<ProvidersState, String>)
        ensures
            !final(self).busy && final(self).busy_provider is None,
            match result {
                Ok(state) => final(self).providers == Some(state),
                Err(_) => final(self).providers == old(self).providers,
            },
            final(self).error == old(self).error,
            final(self).model == old(self).model,
    {
        if let Ok(state) = result {
            self.providers = Some(state);
        }
        self.busy = false;
        self.busy_provider = None;
    }

    /// Disconnecting drops the last test first.
    pub fn disconnect(&mut self, id: ProviderId) -> (r: bool)
        ensures
            final(self).test is None,
            r == !old(self).busy,
            r ==> final(self).busy && final(self).busy_provider == Some(id),
    {
        self.test = None;
        self.start_run(Some(id))
    }

    /// Hand a settings command to the store, unless one is under way or
    /// there is no store.
    pub fn start_command(&mut self, has_store: bool) -> (r: bool)
        ensures
            r == (has_store && !old(self).pending),
            final(self).pending == (old(self).pending || r),
            final(self).busy == old(self).busy,
            final(self).model == old(self).model,
            final(self).error == old(self).error,
            final(self).notice == old(self).notice,
            final(self).menu == old(self).menu,
    {
        if !has_store || self.pending {
            return false;
        }
        self.pending = true;
        true
    }

    /// The store answered a command; `done` is what success reads.
    pub fn command_done(&mut self, result: Result<(), String>, done: &str)
        ensures
            !final(self).pending,
            match result {
                Ok(()) => opt_chars(final(self).notice) == Some(done@) && final(self).error
                    == old(self).error,
                Err(e) => opt_chars(final(self).error) == Some(e@) && final(self).notice
                    == old(self).notice,
            },
            final(self).model == old(self).model,
    {
        self.pending = false;
        match result {
            Ok(()) => self.notice = Some(String::from_str(done)),
            Err(e) => self.error = Some(e),
        }
    }

    /// Choose the model new replies use: the menu closes (giving the fade
    /// timer's generation, if it was open) and the choice is saved, if the
    /// store can take it. Gives back whether the command was started.
    pub fn select_model(&mut self, model: Option<String>, has_store: bool) -> (r: (Option<u64>, bool))
        requires
            old(self).menu.generation < u64::MAX,
        ensures
            final(self).menu == spec_close(old(self).menu),
            r.0 == (if old(self).menu.open {
                Some(final(self).menu.generation)
            } else {
                None
            }),
            opt_chars(final(self).model) == opt_chars(model),
            r.1 == (has_store && !old(self).pending),
            final(self).pending == (old(self).pending || r.1),
    {
        let fade = self.menu.close();
        self.model = model;
        let started = self.start_command(has_store);
        (fade, started)
    }

    /// The test line under a provider's row when it failed: its error, or
    /// that nothing came back. A passing test's line shows seconds, which
    /// the app formats.
    pub fn failed_test_line(&self, id: ProviderId) -> (r: Option<String>)
        ensures
            match (self.test, r) {
                (Some((tested, t)), Some(line)) => tested == id && !t.ok && line@ == "Test failed: "@
                    + match t.error {
                    Some(e) => e@,
                    None => "no reply"@,
                },
                (Some((tested, t)), None) => tested != id || t.ok,
                (None, r) => r is None,
            },
    {
        match &self.test {
            Some((tested, t)) => {
                if *tested != id || t.ok {
                    return None;
                }
                let mut v: Vec<char> = Vec::new();
                push_str(&mut v, "Test failed: ");
                match &t.error {
                    Some(e) => push_str(&mut v, e.as_str()),
                    None => push_str(&mut v, "no reply"),
                }
                Some(string_of(&v))
            },
            None => None,
        }
    }
}

} // verus!

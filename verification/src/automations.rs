//! Automations: recurring rules that create and assign Tickets. This is
//! what the page decides: how a rule reads, what the editor sends, and how
//! the page's state follows the store's answers. The store is called, and
//! the page drawn, by the app.
use crate::home::Tone;
use crate::text::{chars_of, is_white, push_signed, push_str, signed_decimal, string_of, trim};
use vstd::prelude::*;

verus! {

/// A rule as the store reports it.
pub struct Automation {
    pub id: String,
    pub name: String,
    pub prompt: String,
    pub agent_id: String,
    pub every_minutes: i64,
    pub revision: i64,
    pub applied_revision: i64,
    pub paused: bool,
    pub error: Option<String>,
}

/// How a rule stands: broken, waiting for the daemon to apply an edit,
/// paused, or running on schedule.
pub open spec fn spec_rule_state(rule: Automation) -> (Seq<char>, Tone) {
    if rule.error is Some {
        ("Needs attention"@, Tone::Danger)
    } else if rule.revision != rule.applied_revision {
        ("Pending"@, Tone::Warning)
    } else if rule.paused {
        ("Paused"@, Tone::Neutral)
    } else {
        ("Active"@, Tone::Success)
    }
}

/// How a rule stands, as its badge reads.
pub fn rule_state(rule: &Automation) -> (r: (&'static str, Tone))
    ensures
        (r.0@, r.1) == spec_rule_state(*rule),
{
    if rule.error.is_some() {
        ("Needs attention", Tone::Danger)
    } else if rule.revision != rule.applied_revision {
        ("Pending", Tone::Warning)
    } else if rule.paused {
        ("Paused", Tone::Neutral)
    } else {
        ("Active", Tone::Success)
    }
}

/// "Every 1 minute", "Every 30 minutes".
pub open spec fn spec_every(minutes: int) -> Seq<char> {
    "Every "@ + signed_decimal(minutes) + if minutes == 1 {
        " minute"@
    } else {
        " minutes"@
    }
}

/// A rule's interval in words.
pub fn every(minutes: i64) -> (r: String)
    ensures
        r@ == spec_every(minutes as int),
{
    let mut v: Vec<char> = Vec::new();
    push_str(&mut v, "Every ");
    push_signed(&mut v, minutes);
    if minutes == 1 {
        push_str(&mut v, " minute");
    } else {
        push_str(&mut v, " minutes");
    }
    string_of(&v)
}

// ----- Whole numbers as people type them ----------------------------------------

/// An ASCII digit.
pub open spec fn is_digit(c: char) -> bool {
    '0' <= c <= '9'
}

/// The number a run of digits spells.
pub open spec fn digits_value(d: Seq<char>) -> int
    decreases d.len(),
{
    if d.len() == 0 {
        0
    } else {
        digits_value(d.drop_last()) * 10 + (d.last() as int - '0' as int)
    }
}

/// The text after an optional leading sign.
pub open spec fn unsigned_part(s: Seq<char>) -> Seq<char> {
    if s.len() > 0 && (s[0] == '-' || s[0] == '+') {
        s.drop_first()
    } else {
        s
    }
}

/// Every character is an ASCII digit.
pub open spec fn all_digits(d: Seq<char>) -> bool {
    forall|k: int| 0 <= k < d.len() ==> is_digit(#[trigger] d[k])
}

/// A whole number as `str::parse::<i64>` reads it: an optional sign, then
/// one or more digits, within the range of `i64`.
pub open spec fn spec_parse_int(s: Seq<char>) -> Option<int> {
    let digits = unsigned_part(s);
    if digits.len() == 0 || !all_digits(digits) {
        None
    } else {
        let v = if s[0] == '-' {
            -digits_value(digits)
        } else {
            digits_value(digits)
        };
        if i64::MIN <= v <= i64::MAX {
            Some(v)
        } else {
            None
        }
    }
}

proof fn lemma_digits_grow(d: Seq<char>)
    requires
        d.len() > 0,
        forall|k: int| 0 <= k < d.len() ==> is_digit(#[trigger] d[k]),
    ensures
        digits_value(d) >= digits_value(d.drop_last()),
        digits_value(d.drop_last()) >= 0,
    decreases d.len(),
{
    if d.len() > 1 {
        lemma_digits_grow(d.drop_last());
    }
    assert(is_digit(d[d.len() - 1]));
}

/// A whole number as `str::parse::<i64>` reads it.
pub fn parse_int(s: &str) -> (r: Option<i64>)
    ensures
        match r {
            Some(v) => spec_parse_int(s@) == Some(v as int),
            None => spec_parse_int(s@) is None,
        },
{
    let c = chars_of(s);
    let negative = c.len() > 0 && c[0] == '-';
    let start: usize = if c.len() > 0 && (c[0] == '-' || c[0] == '+') {
        1
    } else {
        0
    };
    let ghost digits = s@.subrange(start as int, s@.len() as int);
    proof {
        if start == 1 {
            assert(digits =~= s@.drop_first());
        } else {
            assert(digits =~= s@);
        }
    }
    if start == c.len() {
        return None;
    }
    // The magnitude, or `None` once it no longer fits in a `u64`.
    let mut mag: Option<u64> = Some(0);
    let mut i: usize = start;
    while i < c.len()
        invariant
            start <= i <= c.len(),
            c@ == s@,
            digits == s@.subrange(start as int, s@.len() as int),
            forall|k: int| 0 <= k < i - start ==> is_digit(#[trigger] digits[k]),
            digits == unsigned_part(s@),
            negative == (s@.len() > 0 && s@[0] == '-'),
            match mag {
                Some(m) => m as int == digits_value(digits.take(i - start)),
                None => digits_value(digits.take(i - start)) > u64::MAX,
            },
        decreases c.len() - i,
    {
        let ch = c[i];
        if !('0' <= ch && ch <= '9') {
            proof {
                assert(digits[i - start] == ch);
                assert(!is_digit(digits[i - start]));
            }
            return None;
        }
        let ghost before = digits.take(i - start);
        let ghost after = digits.take(i - start + 1);
        proof {
            assert(after.drop_last() =~= before);
            assert(after.last() == ch);
            assert forall|k: int| 0 <= k < after.len() implies is_digit(#[trigger] after[k]) by {
                if k < after.len() - 1 {
                    assert(after[k] == digits[k]);
                }
            }
            lemma_digits_grow(after);
        }
        let d: u64 = (ch as u32 - '0' as u32) as u64;
        mag = match mag {
            Some(m) => match m.checked_mul(10) {
                Some(t) => t.checked_add(d),
                None => None,
            },
            None => None,
        };
        i += 1;
    }
    proof {
        assert(digits.take(i - start) =~= digits);
    }
    match mag {
        Some(m) => {
            if negative {
                if m <= 9_223_372_036_854_775_808u64 {
                    if m == 9_223_372_036_854_775_808u64 {
                        Some(i64::MIN)
                    } else {
                        Some(-(m as i64))
                    }
                } else {
                    None
                }
            } else if m <= i64::MAX as u64 {
                Some(m as i64)
            } else {
                None
            }
        },
        None => None,
    }
}

/// The interval typed into the editor: whole minutes, spaces around it
/// allowed.
pub fn interval(text: &str) -> (r: Option<i64>)
    ensures
        match r {
            Some(v) => spec_parse_int(trim(text@)) == Some(v as int),
            None => spec_parse_int(trim(text@)) is None,
        },
{
    let t = string_of(&crate::text::trimmed(&chars_of(text)));
    parse_int(t.as_str())
}

// ----- Commands ----------------------------------------------------------------

/// A change the page asks the store to make.
#[allow(inconsistent_fields)]
pub enum AutomationCommand {
    /// Create a rule (`id` is `None`) or replace one at `revision`.
    Save {
        id: Option<String>,
        revision: Option<i64>,
        name: String,
        title: String,
        agent_id: String,
        every_minutes: i64,
    },
    /// Run a rule once now.
    RunNow { id: String, revision: i64 },
    /// Pause or resume a rule.
    Pause { id: String, revision: i64, paused: bool },
}

/// Run this rule once now.
pub fn run_now(rule: &Automation) -> (r: AutomationCommand)
    ensures
        r matches AutomationCommand::RunNow { id, revision } && id@ == rule.id@ && revision
            == rule.revision,
{
    AutomationCommand::RunNow { id: rule.id.clone(), revision: rule.revision }
}

/// Pause a running rule, or resume a paused one.
pub fn toggle_pause(rule: &Automation) -> (r: AutomationCommand)
    ensures
        r matches AutomationCommand::Pause { id, revision, paused } && id@ == rule.id@ && revision
            == rule.revision && paused == !rule.paused,
{
    AutomationCommand::Pause { id: rule.id.clone(), revision: rule.revision, paused: !rule.paused }
}

/// A copy of an optional text.
fn copy_text(t: &Option<String>) -> (r: Option<String>)
    ensures
        match (*t, r) {
            (Some(a), Some(b)) => a@ == b@,
            (None, None) => true,
            _ => false,
        },
{
    match t {
        Some(s) => Some(s.clone()),
        None => None,
    }
}

/// Whether two texts are the same.
fn same_text(a: &str, b: &str) -> (r: bool)
    ensures
        r == (a@ == b@),
{
    crate::text::vec_eq(&chars_of(a), &chars_of(b))
}

/// The IDs of a list of rules.
pub open spec fn rule_ids(rules: Seq<Automation>) -> Seq<Seq<char>> {
    rules.map_values(|r: Automation| r.id@)
}

/// Whether an optional text is there and reads `t`.
pub open spec fn has_text(o: Option<String>, t: Seq<char>) -> bool {
    o matches Some(m) && m@ == t
}

/// The text shown when the store cannot be read.
pub open spec fn unavailable(e: Seq<char>) -> Seq<char> {
    "Automations unavailable: "@ + e
}

/// The message when the interval is not a whole number.
pub open spec fn bad_interval() -> Seq<char> {
    "Enter an interval in whole minutes."@
}

/// The message when no agent is chosen.
pub open spec fn no_agent() -> Seq<char> {
    "Choose an agent. Register one on the Agents page first."@
}

/// What the Automations page holds between frames: the rules, the last
/// error, what is under way, and what the editor works on.
pub struct AutomationsPage {
    pub rules: Vec<Automation>,
    pub error: Option<String>,
    /// A command is with the store.
    pub pending: bool,
    /// A refresh is with the store.
    pub refreshing: bool,
    /// A refresh has succeeded at least once.
    pub loaded: bool,
    pub editing: bool,
    /// The rule shown in detail, or edited.
    pub selected: Option<String>,
    /// The revision the editor started from.
    pub editing_revision: Option<i64>,
    /// The agent the editor assigns.
    pub agent: Option<String>,
    /// Move focus back to the page on the next frame.
    pub restore_focus: bool,
    /// Move focus into the editor on the next frame.
    pub focus_editor: bool,
}

impl AutomationsPage {
    /// A page showing `rules`, with the error the store gave when it opened.
    pub fn new(rules: Vec<Automation>, error: Option<String>) -> (r: AutomationsPage)
        ensures
            r.rules@ == rules@,
            r.error == error,
            !r.pending && !r.refreshing && !r.loaded && !r.editing,
            r.selected is None && r.editing_revision is None && r.agent is None,
            !r.restore_focus && !r.focus_editor,
    {
        AutomationsPage {
            rules,
            error,
            pending: false,
            refreshing: false,
            loaded: false,
            editing: false,
            selected: None,
            editing_revision: None,
            agent: None,
            restore_focus: false,
            focus_editor: false,
        }
    }

    /// Another workspace was opened: drop the editor and show its rules.
    pub fn workspace_changed(&mut self, rules: Vec<Automation>)
        ensures
            final(self).rules@ == rules@,
            !final(self).editing,
            final(self).selected is None && final(self).editing_revision is None && final(self).agent is None,
            final(self).error == old(self).error,
            final(self).pending == old(self).pending,
            final(self).refreshing == old(self).refreshing,
            final(self).loaded == old(self).loaded,
    {
        self.editing = false;
        self.selected = None;
        self.editing_revision = None;
        self.agent = None;
        self.rules = rules;
    }

    /// Start a refresh, unless a command or a refresh is under way or
    /// there is no store. Says whether the app should ask the store.
    pub fn start_refresh(&mut self, has_store: bool) -> (r: bool)
        ensures
            r == (has_store && !old(self).pending && !old(self).refreshing),
            final(self).refreshing == (old(self).refreshing || r),
            final(self).rules@ == old(self).rules@,
            final(self).error == old(self).error,
            final(self).pending == old(self).pending,
            final(self).loaded == old(self).loaded,
            final(self).editing == old(self).editing,
            final(self).selected == old(self).selected,
    {
        if self.pending || self.refreshing || !has_store {
            return false;
        }
        self.refreshing = true;
        true
    }

    /// The store answered a refresh: its rules, or why it could not.
    pub fn refreshed(&mut self, result: Result<Vec<Automation>, String>)
        ensures
            !final(self).refreshing,
            match result {
                Ok(rules) => final(self).rules@ == rules@ && final(self).loaded && final(self).error is None,
                Err(e) => final(self).rules@ == old(self).rules@ && final(self).loaded == old(self).loaded && has_text(final(self).error, unavailable(e@)),
            },
            final(self).pending == old(self).pending,
            final(self).editing == old(self).editing,
            final(self).selected == old(self).selected,
    {
        self.refreshing = false;
        match result {
            Ok(rules) => {
                self.rules = rules;
                self.loaded = true;
                self.error = None;
            },
            Err(e) => {
                let mut v: Vec<char> = Vec::new();
                push_str(&mut v, "Automations unavailable: ");
                push_str(&mut v, e.as_str());
                self.error = Some(string_of(&v));
            },
        }
    }

    /// Hand a command to the store, unless one is under way or there is no
    /// store. Gives back the command to send, if any.
    pub fn start_command(&mut self, has_store: bool, command: AutomationCommand) -> (r: Option<
        AutomationCommand,
    >)
        ensures
            r is Some == (has_store && !old(self).pending),
            r is Some ==> r == Some(command),
            final(self).pending == (old(self).pending || r is Some),
            final(self).rules@ == old(self).rules@,
            final(self).error == old(self).error,
            final(self).refreshing == old(self).refreshing,
            final(self).editing == old(self).editing,
            final(self).selected == old(self).selected,
    {
        if self.pending || !has_store {
            return None;
        }
        self.pending = true;
        Some(command)
    }

    /// The store answered a command: the ID of the rule it touched and the
    /// rules as they now stand, or why it refused.
    pub fn command_settled(&mut self, result: Result<String, String>, rules: Vec<Automation>)
        ensures
            !final(self).pending,
            match result {
                Ok(id) => {
                    &&& final(self).rules@ == rules@
                    &&& final(self).error is None
                    &&& !final(self).editing
                    &&& final(self).restore_focus
                    &&& if rule_ids(rules@).contains(id@) {
                        final(self).selected matches Some(s) && s@ == id@
                    } else {
                        final(self).selected == old(self).selected
                    }
                },
                Err(e) => {
                    &&& final(self).rules@ == old(self).rules@
                    &&& has_text(final(self).error, e@)
                    &&& final(self).editing == old(self).editing
                    &&& final(self).selected == old(self).selected
                    &&& final(self).restore_focus == old(self).restore_focus
                },
            },
            final(self).refreshing == old(self).refreshing,
            final(self).loaded == old(self).loaded,
    {
        self.pending = false;
        match result {
            Ok(id) => {
                let mut found = false;
                let mut i: usize = 0;
                while i < rules.len()
                    invariant
                        i <= rules.len(),
                        found == rule_ids(rules@).take(i as int).contains(id@),
                    decreases rules.len() - i,
                {
                    proof {
                        assert(rule_ids(rules@).take(i + 1) =~= rule_ids(rules@).take(i as int).push(
                            rules@[i as int].id@,
                        ));
                    }
                    let ghost ids = rule_ids(rules@);
                    let ghost was = found;
                    let same = same_text(rules[i].id.as_str(), id.as_str());
                    if same {
                        found = true;
                    }
                    proof {
                        let next = ids.take(i + 1);
                        assert(next[i as int] == rules@[i as int].id@);
                        if same {
                            assert(next.contains(id@));
                        } else if was {
                            let k = choose|k: int| 0 <= k < i && ids.take(i as int)[k] == id@;
                            assert(next[k] == id@);
                        } else {
                            assert forall|k: int| 0 <= k < i + 1 implies next[k] != id@ by {
                                if k < i {
                                    assert(next[k] == ids.take(i as int)[k]);
                                }
                            }
                        }
                    }
                    i += 1;
                }
                proof {
                    assert(rule_ids(rules@).take(rules.len() as int) =~= rule_ids(rules@));
                }
                self.rules = rules;
                self.error = None;
                self.editing = false;
                self.restore_focus = true;
                if found {
                    self.selected = Some(id);
                }
            },
            Err(e) => {
                self.error = Some(e);
            },
        }
    }

    /// Open the editor on a rule, or on a new one. Gives back what the
    /// name, prompt and interval fields start with.
    pub fn edit(&mut self, rule: Option<&Automation>) -> (r: (String, String, String))
        ensures
            final(self).editing && final(self).focus_editor,
            match rule {
                Some(rule) => {
                    &&& final(self).selected matches Some(s) && s@ == rule.id@
                    &&& final(self).editing_revision == Some(rule.revision)
                    &&& final(self).agent matches Some(a) && a@ == rule.agent_id@
                    &&& r.0@ == rule.name@ && r.1@ == rule.prompt@
                    &&& r.2@ == signed_decimal(rule.every_minutes as int)
                },
                None => {
                    &&& final(self).selected is None
                    &&& final(self).editing_revision is None
                    &&& final(self).agent is None
                    &&& r.0@ == ""@ && r.1@ == ""@ && r.2@ == "30"@
                },
            },
            final(self).rules@ == old(self).rules@,
            final(self).error == old(self).error,
            final(self).pending == old(self).pending,
            final(self).refreshing == old(self).refreshing,
    {
        self.editing = true;
        self.focus_editor = true;
        match rule {
            Some(rule) => {
                self.selected = Some(rule.id.clone());
                self.editing_revision = Some(rule.revision);
                self.agent = Some(rule.agent_id.clone());
                let mut m: Vec<char> = Vec::new();
                push_signed(&mut m, rule.every_minutes);
                proof {
                    assert(m@ =~= signed_decimal(rule.every_minutes as int));
                }
                (rule.name.clone(), rule.prompt.clone(), string_of(&m))
            },
            None => {
                self.selected = None;
                self.editing_revision = None;
                self.agent = None;
                (String::from_str(""), String::from_str(""), String::from_str("30"))
            },
        }
    }

    /// The editor's Save: the command to send, or the reason in `error`.
    pub fn save(&mut self, name: &str, prompt: &str, minutes: &str) -> (r: Option<AutomationCommand>)
        ensures
            spec_parse_int(trim(minutes@)) is None ==> r is None && has_text(final(self).error, bad_interval()),
            spec_parse_int(trim(minutes@)) is Some && old(self).agent is None ==> r is None && has_text(final(self).error, no_agent()),
            spec_parse_int(trim(minutes@)) is Some && old(self).agent is Some ==> {
                &&& final(self).error == old(self).error
                &&& r matches Some(
                    AutomationCommand::Save { id, revision, name: n, title, agent_id, every_minutes },
                )
                &&& n@ == name@ && title@ == prompt@
                &&& Some(every_minutes as int) == spec_parse_int(trim(minutes@))
                &&& revision == old(self).editing_revision
                &&& old(self).agent matches Some(a) && agent_id@ == a@
                &&& match (id, old(self).selected) {
                    (Some(a), Some(b)) => a@ == b@,
                    (None, None) => true,
                    _ => false,
                }
            },
            final(self).rules@ == old(self).rules@,
            final(self).pending == old(self).pending,
            final(self).refreshing == old(self).refreshing,
            final(self).editing == old(self).editing,
            final(self).selected == old(self).selected,
            final(self).agent == old(self).agent,
    {
        let every_minutes = match interval(minutes) {
            Some(n) => n,
            None => {
                self.error = Some(String::from_str("Enter an interval in whole minutes."));
                return None;
            },
        };
        let agent_id = match &self.agent {
            Some(a) => a.clone(),
            None => {
                self.error = Some(
                    String::from_str("Choose an agent. Register one on the Agents page first."),
                );
                return None;
            },
        };
        Some(
            AutomationCommand::Save {
                id: copy_text(&self.selected),
                revision: self.editing_revision,
                name: String::from_str(name),
                title: String::from_str(prompt),
                agent_id,
                every_minutes,
            },
        )
    }

    /// The rule shown in detail: the first whose ID is the selected one.
    pub fn selected_rule(&self) -> (r: Option<usize>)
        ensures
            match r {
                Some(k) => k < self.rules.len() && (self.selected matches Some(s) && self.rules@[k as int].id@
                    == s@ && !rule_ids(self.rules@).take(k as int).contains(s@)),
                None => self.selected is None || (self.selected matches Some(s) && !rule_ids(
                    self.rules@,
                ).contains(s@)),
            },
    {
        let s = match &self.selected {
            Some(s) => s,
            None => return None,
        };
        let mut i: usize = 0;
        while i < self.rules.len()
            invariant
                i <= self.rules.len(),
                self.selected matches Some(t) && t@ == s@,
                !rule_ids(self.rules@).take(i as int).contains(s@),
            decreases self.rules.len() - i,
        {
            proof {
                assert(rule_ids(self.rules@).take(i + 1) =~= rule_ids(self.rules@).take(i as int).push(
                    self.rules@[i as int].id@,
                ));
            }
            if same_text(self.rules[i].id.as_str(), s.as_str()) {
                return Some(i);
            }
            i += 1;
        }
        proof {
            assert(rule_ids(self.rules@).take(self.rules.len() as int) =~= rule_ids(self.rules@));
        }
        None
    }
}

// ----- A rule's runs ------------------------------------------------------------

/// A store word with its underscores read as spaces: "needs_review" reads
/// "needs review".
pub open spec fn spaced(s: Seq<char>) -> Seq<char> {
    s.map_values(|c: char| if c == '_' { ' ' } else { c })
}

fn push_spaced(v: &mut Vec<char>, s: &str)
    ensures
        final(v)@ == old(v)@ + spaced(s@),
{
    let chars = chars_of(s);
    let ghost start = v@;
    let mut i: usize = 0;
    while i < chars.len()
        invariant
            i <= chars.len(),
            chars@ == s@,
            v@ == start + spaced(chars@.take(i as int)),
        decreases chars.len() - i,
    {
        let c = chars[i];
        v.push(if c == '_' { ' ' } else { c });
        proof {
            assert(spaced(chars@.take(i + 1)) =~= spaced(chars@.take(i as int)).push(
                if c == '_' { ' ' } else { c },
            ));
        }
        i += 1;
    }
    proof {
        assert(chars@.take(chars.len() as int) =~= chars@);
    }
}

/// The tone of a run's state: done runs succeed, running ones inform,
/// skipped or missed ones warn, failed ones are dangers.
pub open spec fn spec_run_tone(state: Seq<char>) -> Tone {
    if state == "completed"@ || state == "done"@ {
        Tone::Success
    } else if state == "running"@ || state == "dispatched"@ {
        Tone::Info
    } else if state == "skipped"@ || state == "missed"@ {
        Tone::Warning
    } else if state == "failed"@ {
        Tone::Danger
    } else {
        Tone::Neutral
    }
}

/// How a run's state pill reads: the state with spaces, and its tone.
pub fn run_pill(state: &str) -> (r: (String, Tone))
    ensures
        r.0@ == spaced(state@),
        r.1 == spec_run_tone(state@),
{
    let mut v: Vec<char> = Vec::new();
    push_spaced(&mut v, state);
    let s = chars_of(state);
    let is = |w: &str| -> (b: bool)
        ensures
            b == (s@ == w@),
        { crate::text::vec_eq(&s, &chars_of(w)) };
    let tone = if is("completed") || is("done") {
        Tone::Success
    } else if is("running") || is("dispatched") {
        Tone::Info
    } else if is("skipped") || is("missed") {
        Tone::Warning
    } else if is("failed") {
        Tone::Danger
    } else {
        Tone::Neutral
    };
    (string_of(&v), tone)
}

/// A line of a rule's history: "Sep 26, 14:05 · 3 tickets created" from
/// the time as shown, the count and the kind.
pub open spec fn spec_history_caption(time: Seq<char>, count: int, kind: Seq<char>) -> Seq<char> {
    time + " · "@ + signed_decimal(count) + " "@ + spaced(kind)
}

/// A line of a rule's history, from the time as shown, the count and the
/// kind.
pub fn history_caption(time: &str, count: i64, kind: &str) -> (r: String)
    ensures
        r@ == spec_history_caption(time@, count as int, kind@),
{
    let mut v: Vec<char> = Vec::new();
    push_str(&mut v, time);
    push_str(&mut v, " · ");
    push_signed(&mut v, count);
    push_str(&mut v, " ");
    push_spaced(&mut v, kind);
    string_of(&v)
}

/// The positions of the runs or history entries that belong to rule `id`,
/// given each one's rule, in order.
pub open spec fn of_rule(owners: Seq<String>, id: Seq<char>) -> Seq<usize>
    decreases owners.len(),
{
    if owners.len() == 0 {
        Seq::empty()
    } else if owners.last()@ == id {
        of_rule(owners.drop_last(), id).push((owners.len() - 1) as usize)
    } else {
        of_rule(owners.drop_last(), id)
    }
}

/// The positions of the entries that belong to rule `id`, in order.
pub fn entries_of_rule(owners: &Vec<String>, id: &str) -> (r: Vec<usize>)
    ensures
        r@ == of_rule(owners@, id@),
{
    let target = chars_of(id);
    let mut out: Vec<usize> = Vec::new();
    let mut i: usize = 0;
    while i < owners.len()
        invariant
            i <= owners.len(),
            target@ == id@,
            out@ == of_rule(owners@.take(i as int), id@),
        decreases owners.len() - i,
    {
        proof {
            assert(owners@.take(i + 1).drop_last() =~= owners@.take(i as int));
        }
        if crate::text::vec_eq(&chars_of(owners[i].as_str()), &target) {
            out.push(i);
        }
        i += 1;
    }
    proof {
        assert(owners@.take(owners.len() as int) =~= owners@);
    }
    out
}

// ----- Times ------------------------------------------------------------------

/// How a run's time reads: the local time, or that there is none.
pub fn time_label(stamp: Option<String>) -> (r: String)
    ensures
        r@ == time_label_of(stamp),
{
    match stamp {
        Some(t) => t,
        None => String::from_str("Time unavailable"),
    }
}

/// A run's time as the history lists it: "Sep 26, 14:05" on the Mac's
/// clock, or "Time unavailable" where chrono has no such moment. What it
/// reads depends on the machine's time zone; the reading lies within a day
/// of the moment.
pub fn display_time(seconds: i64) -> (r: String)
    ensures
        !crate::dates::holds_moment(seconds as int) ==> r@ == "Time unavailable"@,
        crate::dates::holds_moment(seconds as int) ==> exists|t: crate::dates::LocalTime|
            t.hour < 24 && t.minute < 60 && r@ == #[trigger] crate::dates::stamp_text(t, "%b %-d, %H:%M"@)
                && (-8_000_000_000_000 <= seconds <= 8_000_000_000_000 ==> crate::dates::reads_moment(
                t,
                seconds as int,
            )),
{
    proof {
        reveal_strlit("%b %-d, %H:%M");
    }
    match crate::dates::local_stamp(seconds, "%b %-d, %H:%M") {
        Some((text, t)) => {
            let r = time_label(Some(text));
            assert(r@ == crate::dates::stamp_text(t, "%b %-d, %H:%M"@));
            r
        },
        None => time_label(None),
    }
}

/// How a run's time reads, as a spec.
pub open spec fn time_label_of(stamp: Option<String>) -> Seq<char> {
    match stamp {
        Some(t) => t@,
        None => "Time unavailable"@,
    }
}

} // verus!

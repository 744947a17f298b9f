//! What the Evee page decides: how the conversation list dates its
//! entries, how tool calls and results read, and what the composer does
//! with what was typed.
use crate::commands::{parse, spec_parse, Parsed, ParsedView, SlashCommand};
use crate::dates::{local_stamp, reads_moment, stamp_text, LocalTime};
use crate::model_menu::{find, spec_find};
use crate::providers::ProvidersState;
use crate::text::{get_slice, piece, push_str, string_of};
use vstd::prelude::*;

verus! {

/// `s` with every `-` written as `/`.
pub open spec fn slashed(s: Seq<char>) -> Seq<char> {
    s.map_values(|c: char| if c == '-' { '/' } else { c })
}

/// The label for a conversation last updated `age` seconds ago, from its
/// "YYYY-MM-DD HH:MM" stamp: "Today, HH:MM", "Yesterday", or "MM/DD/YY".
pub open spec fn spec_conversation_label(stamp: Seq<char>, age: int) -> Seq<char> {
    if age < 86_400 {
        "Today, "@ + piece(stamp, 11, 16)
    } else if age < 172_800 {
        "Yesterday"@
    } else {
        slashed(piece(stamp, 5, 10)) + "/"@ + piece(stamp, 2, 4)
    }
}

/// `now.saturating_sub(then)`.
pub open spec fn saturating_age(now: int, then: int) -> int {
    if now - then < i64::MIN {
        i64::MIN as int
    } else if now - then > i64::MAX {
        i64::MAX as int
    } else {
        now - then
    }
}

/// Append `p`, writing each `-` as `/`.
fn push_slashed(v: &mut Vec<char>, p: &str)
    ensures
        final(v)@ == old(v)@ + slashed(p@),
{
    let ghost start = v@;
    for c in it: p.chars()
        invariant
            it.seq() == p@,
            v@ == start + slashed(p@.take(it.index() as int)),
    {
        v.push(if c == '-' { '/' } else { c });
        proof {
            assert(slashed(p@.take(it.index() + 1)) =~= slashed(p@.take(it.index() as int)).push(
                if c == '-' { '/' } else { c },
            ));
        }
    }
    proof {
        assert(p@.take(p@.len() as int) =~= p@);
    }
}

/// Append the bytes `from..to` of `s`, or nothing.
fn push_piece(v: &mut Vec<char>, s: &str, from: usize, to: usize, slash: bool)
    ensures
        final(v)@ == old(v)@ + (if slash {
            slashed(piece(s@, from as int, to as int))
        } else {
            piece(s@, from as int, to as int)
        }),
{
    match get_slice(s, from, to) {
        Some(p) => {
            if slash {
                push_slashed(v, p);
            } else {
                push_str(v, p);
            }
        },
        None => {
            assert(slashed(Seq::<char>::empty()) =~= Seq::<char>::empty());
            assert(v@ =~= v@ + Seq::<char>::empty());
        },
    }
}

/// The label for a conversation last updated `age` seconds ago, from its
/// "YYYY-MM-DD HH:MM" stamp.
pub fn conversation_label(stamp: &str, age: i64) -> (r: String)
    ensures
        r@ == spec_conversation_label(stamp@, age as int),
{
    let mut v: Vec<char> = Vec::new();
    if age < 86_400 {
        push_str(&mut v, "Today, ");
        push_piece(&mut v, stamp, 11, 16, false);
    } else if age < 172_800 {
        push_str(&mut v, "Yesterday");
    } else {
        push_piece(&mut v, stamp, 5, 10, true);
        push_str(&mut v, "/");
        push_piece(&mut v, stamp, 2, 4, false);
    }
    string_of(&v)
}

/// How the conversation list dates an entry updated at `updated_at` (with
/// `updated` as stored), seen at `now`. The stamp is the local time of
/// `updated_at` as `"%Y-%m-%d %H:%M"` prints it, which depends on the
/// machine's time zone (it lies within a day of the moment); where chrono
/// has no such moment the stored text is used.
pub fn conversation_date(updated: &str, updated_at: i64, now: i64) -> (r: String)
    ensures
        exists|stamp: Seq<char>|
            r@ == spec_conversation_label(stamp, saturating_age(now as int, updated_at as int)),
        86_400 <= saturating_age(now as int, updated_at as int) < 172_800 ==> r@ == "Yesterday"@,
        !crate::dates::holds_moment(updated_at as int) ==> r@ == spec_conversation_label(
            updated@,
            saturating_age(now as int, updated_at as int),
        ),
        crate::dates::holds_moment(updated_at as int) ==> exists|t: LocalTime|
            t.hour < 24 && t.minute < 60 && r@ == spec_conversation_label(
                #[trigger] stamp_text(t, "%Y-%m-%d %H:%M"@),
                saturating_age(now as int, updated_at as int),
            ) && (-8_000_000_000_000 <= updated_at <= 8_000_000_000_000 ==> reads_moment(
                t,
                updated_at as int,
            )),
{
    let wide: i128 = (now as i128) - (updated_at as i128);
    let age: i64 = if wide < (i64::MIN as i128) {
        i64::MIN
    } else if wide > (i64::MAX as i128) {
        i64::MAX
    } else {
        wide as i64
    };
    assert(age as int == saturating_age(now as int, updated_at as int));
    proof {
        reveal_strlit("%Y-%m-%d %H:%M");
    }
    match local_stamp(updated_at, "%Y-%m-%d %H:%M") {
        Some((stamp, t)) => {
            let r = conversation_label(stamp.as_str(), age);
            assert(r@ == spec_conversation_label(stamp_text(t, "%Y-%m-%d %H:%M"@), age as int));
            r
        },
        None => conversation_label(updated, age),
    }
}

/// The text with each run of whitespace written as one space.
pub open spec fn squeeze(s: Seq<char>) -> Seq<char>
    decreases s.len(),
{
    if s.len() == 0 {
        Seq::empty()
    } else {
        let r = squeeze(s.drop_last());
        if !crate::text::is_white(s.last()) {
            r.push(s.last())
        } else if r.len() > 0 && r.last() == ' ' {
            r
        } else {
            r.push(' ')
        }
    }
}

/// The line under a conversation in the list: its words one space apart,
/// or "No messages yet" when it has none.
pub open spec fn spec_snippet(snippet: Seq<char>) -> Seq<char> {
    if crate::text::trim(snippet).len() == 0 {
        "No messages yet"@
    } else {
        crate::text::trim(squeeze(snippet))
    }
}

/// The line under a conversation in the list: its words one space apart,
/// or "No messages yet" when it has none.
pub fn conversation_snippet(snippet: &str) -> (r: String)
    ensures
        r@ == spec_snippet(snippet@),
{
    let chars = crate::text::chars_of(snippet);
    if crate::text::trimmed(&chars).len() == 0 {
        return String::from_str("No messages yet");
    }
    let mut out: Vec<char> = Vec::new();
    let mut i: usize = 0;
    while i < chars.len()
        invariant
            i <= chars.len(),
            chars@ == snippet@,
            out@ == squeeze(chars@.take(i as int)),
        decreases chars.len() - i,
    {
        proof {
            assert(chars@.take(i + 1).drop_last() =~= chars@.take(i as int));
        }
        let c = chars[i];
        if !crate::text::is_whitespace(c) {
            out.push(c);
        } else if out.len() == 0 || out[out.len() - 1] != ' ' {
            out.push(' ');
        }
        i += 1;
    }
    proof {
        assert(chars@.take(chars.len() as int) =~= chars@);
    }
    string_of(&crate::text::trimmed(&out))
}

/// The Send button is live: signed in, no credential change or reply under
/// way, nothing waiting on the store, a store to send to, and some text.
pub open spec fn spec_send_enabled(
    has_account: bool,
    credentials_busy: bool,
    replying: bool,
    pending: bool,
    has_store: bool,
    text: Seq<char>,
) -> bool {
    has_account && !credentials_busy && !replying && !pending && has_store && crate::text::trim(
        text,
    ).len() > 0
}

/// Whether the Send button is live.
pub fn send_enabled(
    has_account: bool,
    credentials_busy: bool,
    replying: bool,
    pending: bool,
    has_store: bool,
    text: &str,
) -> (r: bool)
    ensures
        r == spec_send_enabled(has_account, credentials_busy, replying, pending, has_store, text@),
{
    has_account && !credentials_busy && !replying && !pending && has_store
        && crate::text::trimmed(&crate::text::chars_of(text)).len() > 0
}

// ----- Tool calls in a reply ------------------------------------------------------

/// What a tool call's input says, as far as its summary reads it: each a
/// string in the input, or nothing.
pub struct ToolInput {
    pub method: Option<String>,
    pub url: Option<String>,
    pub command_kind: Option<String>,
    pub command_title: Option<String>,
    pub status: Option<String>,
}

/// A field's text, or `fallback` when it is missing.
pub open spec fn or_else(t: Option<String>, fallback: Seq<char>) -> Seq<char> {
    match t {
        Some(s) => s@,
        None => fallback,
    }
}

/// What a tool call did, in one line: the request for HTTP, the command for
/// Tickets, the filter for runs, nothing otherwise.
pub open spec fn spec_tool_summary(name: Seq<char>, input: ToolInput) -> Seq<char> {
    if name == "http_request"@ {
        or_else(input.method, "GET"@) + " "@ + or_else(input.url, ""@)
    } else if name == "ticket_command"@ {
        crate::text::trim(
            or_else(input.command_kind, "command"@) + " "@ + or_else(input.command_title, ""@),
        )
    } else if name == "list_runs"@ {
        match input.status {
            Some(s) => "status "@ + s@,
            None => "latest runs"@,
        }
    } else {
        ""@
    }
}

/// Append a field, or `fallback` when it is missing.
fn push_or(v: &mut Vec<char>, t: &Option<String>, fallback: &str)
    ensures
        final(v)@ == old(v)@ + or_else(*t, fallback@),
{
    match t {
        Some(s) => push_str(v, s.as_str()),
        None => push_str(v, fallback),
    }
}

/// What a tool call did, in one line.
pub fn tool_summary(name: &str, input: &ToolInput) -> (r: String)
    ensures
        r@ == spec_tool_summary(name@, *input),
{
    let n = crate::text::chars_of(name);
    let mut v: Vec<char> = Vec::new();
    if crate::text::vec_eq(&n, &crate::text::chars_of("http_request")) {
        push_or(&mut v, &input.method, "GET");
        push_str(&mut v, " ");
        push_or(&mut v, &input.url, "");
    } else if crate::text::vec_eq(&n, &crate::text::chars_of("ticket_command")) {
        let mut w: Vec<char> = Vec::new();
        push_or(&mut w, &input.command_kind, "command");
        push_str(&mut w, " ");
        push_or(&mut w, &input.command_title, "");
        v = crate::text::trimmed(&w);
    } else if crate::text::vec_eq(&n, &crate::text::chars_of("list_runs")) {
        match &input.status {
            Some(s) => {
                push_str(&mut v, "status ");
                push_str(&mut v, s.as_str());
            },
            None => push_str(&mut v, "latest runs"),
        }
    } else {
        proof {
            reveal_strlit("");
            assert(v@ =~= ""@);
        }
    }
    string_of(&v)
}

/// The first `n` characters of `s`.
pub open spec fn first_chars(s: Seq<char>, n: int) -> Seq<char> {
    if s.len() <= n {
        s
    } else {
        s.take(n)
    }
}

/// A tool's result in one line: an error's first 80 characters, an HTTP
/// status and timing, or the size of the result.
pub open spec fn spec_result_summary(
    name: Seq<char>,
    is_error: bool,
    error_text: Option<Seq<char>>,
    http: Option<(u64, u64)>,
    size: nat,
) -> Seq<char> {
    if is_error {
        match error_text {
            Some(t) => first_chars(t, 80),
            None => "failed"@,
        }
    } else if name == "http_request"@ && http is Some {
        let (status, ms) = http->0;
        crate::text::decimal(status as nat) + " · "@ + crate::text::decimal(ms as nat) + " ms"@
    } else if size > 1024 {
        crate::text::decimal(size / 1024) + " KB"@
    } else {
        crate::text::decimal(size) + " B"@
    }
}

/// A tool's result in one line. `error_text` is the result's content when
/// it is text, `http` the status and milliseconds of an HTTP response, and
/// `size` the length of the result as JSON.
pub fn result_summary(
    name: &str,
    is_error: bool,
    error_text: Option<&str>,
    http: Option<(u64, u64)>,
    size: usize,
) -> (r: String)
    ensures
        r@ == spec_result_summary(
            name@,
            is_error,
            match error_text {
                Some(t) => Some(t@),
                None => None,
            },
            http,
            size as nat,
        ),
{
    let mut v: Vec<char> = Vec::new();
    if is_error {
        match error_text {
            Some(t) => {
                let chars = crate::text::chars_of(t);
                let n = if chars.len() <= 80 {
                    chars.len()
                } else {
                    80
                };
                crate::text::push_range(&mut v, &chars, 0, n);
                proof {
                    assert(chars@.subrange(0, n as int) =~= first_chars(t@, 80));
                }
            },
            None => push_str(&mut v, "failed"),
        }
        return string_of(&v);
    }
    let http_call = crate::text::vec_eq(
        &crate::text::chars_of(name),
        &crate::text::chars_of("http_request"),
    );
    match http {
        Some((status, ms)) if http_call => {
            crate::text::push_decimal(&mut v, status);
            push_str(&mut v, " · ");
            crate::text::push_decimal(&mut v, ms);
            push_str(&mut v, " ms");
        },
        _ => {
            if size > 1024 {
                crate::text::push_decimal(&mut v, (size / 1024) as u64);
                push_str(&mut v, " KB");
            } else {
                crate::text::push_decimal(&mut v, size as u64);
                push_str(&mut v, " B");
            }
        },
    }
    string_of(&v)
}

/// Tool input and output shown in full up to 4000 characters, then cut
/// with an ellipsis on a line of its own.
pub fn clipped(text: &str) -> (r: String)
    ensures
        r@ == (if text@.len() > 4000 {
            text@.take(4000) + "\n…"@
        } else {
            text@
        }),
{
    let chars = crate::text::chars_of(text);
    if chars.len() > 4000 {
        let mut v: Vec<char> = Vec::new();
        crate::text::push_range(&mut v, &chars, 0, 4000);
        push_str(&mut v, "\n…");
        proof {
            assert(chars@.subrange(0, 4000) =~= text@.take(4000));
        }
        string_of(&v)
    } else {
        string_of(&chars)
    }
}

/// The line beside the typing indicator while a turn runs: queued, running
/// a tool (by name, else "tool"), or thinking.
pub fn activity_label(state: &str, last_step_kind: Option<&str>, tool_name: Option<&str>) -> (r: String)
    ensures
        r@ == (if state@ == "queued"@ {
            "Queued…"@
        } else if last_step_kind matches Some(k) && k@ == "tool_use"@ {
            "Running "@ + match tool_name {
                Some(t) => t@,
                None => "tool"@,
            } + "…"@
        } else {
            "Evee is thinking…"@
        }),
{
    let mut v: Vec<char> = Vec::new();
    if crate::text::vec_eq(&crate::text::chars_of(state), &crate::text::chars_of("queued")) {
        push_str(&mut v, "Queued…");
        return string_of(&v);
    }
    let tool = match last_step_kind {
        Some(k) => crate::text::vec_eq(&crate::text::chars_of(k), &crate::text::chars_of("tool_use")),
        None => false,
    };
    if tool {
        push_str(&mut v, "Running ");
        match tool_name {
            Some(t) => push_str(&mut v, t),
            None => push_str(&mut v, "tool"),
        }
        push_str(&mut v, "…");
    } else {
        push_str(&mut v, "Evee is thinking…");
    }
    string_of(&v)
}

// ----- The composer -------------------------------------------------------------

/// What sending the composer's text does.
pub enum SendOutcome {
    /// Nothing: a reply or a change is under way, credentials are being
    /// entered, or the text is blank.
    Ignored,
    NewConversation,
    ClearConversation,
    ShowHelp,
    ToggleModelMenu,
    SelectModel(String),
    /// Show a notice; `reset` says whether the composer is emptied first.
    Notice { text: String, reset: bool },
    /// There is no account yet: open Settings instead.
    OpenSettings,
    /// Start a turn with this prompt, and the command it came from.
    Submit { prompt: String, command: Option<String> },
}

/// The notice when `/model` names no connected model.
pub open spec fn no_model_notice(name: Seq<char>) -> Seq<char> {
    "No connected model matches “"@ + name + "”. Type /model to choose one."@
}

/// The notice for a command the composer does not know.
pub open spec fn unknown_notice(command: Seq<char>) -> Seq<char> {
    "Unknown command "@ + command + ". Type / to see commands."@
}

/// What a turn's prompt and command become: Settings without an account.
pub open spec fn submits(r: SendOutcome, has_account: bool, prompt: Seq<char>, command: Option<Seq<char>>) -> bool {
    if has_account {
        r matches SendOutcome::Submit { prompt: p, command: c } && p@ == prompt && match (c, command) {
            (Some(a), Some(b)) => a@ == b,
            (None, None) => true,
            _ => false,
        }
    } else {
        r is OpenSettings
    }
}

/// What sending does, given whether something is under way (`busy`), the
/// composer's text, whether there is an account, and the providers.
pub open spec fn sends(
    r: SendOutcome,
    busy: bool,
    text: Seq<char>,
    has_account: bool,
    providers: Option<ProvidersState>,
) -> bool {
    if busy || crate::text::trim(text).len() == 0 {
        r is Ignored
    } else {
        match spec_parse(crate::text::trim(text)) {
            ParsedView::New => r is NewConversation,
            ParsedView::Clear => r is ClearConversation,
            ParsedView::Help => r is ShowHelp,
            ParsedView::Model(None) => r is ToggleModelMenu,
            ParsedView::Model(Some(name)) => match spec_find(providers, name) {
                Some(id) => r matches SendOutcome::SelectModel(m) && m@ == id,
                None => r matches SendOutcome::Notice { text: t, reset } && reset && t@
                    == no_model_notice(name),
            },
            ParsedView::Unknown(command) => r matches SendOutcome::Notice { text: t, reset } && !reset
                && t@ == unknown_notice(command),
            ParsedView::Prompt { command, prompt } => submits(r, has_account, prompt, Some(command)),
            ParsedView::Plain(prompt) => submits(r, has_account, prompt, None),
        }
    }
}

/// Start a turn, or open Settings when there is no account.
fn submit(has_account: bool, prompt: String, command: Option<String>) -> (r: SendOutcome)
    ensures
        submits(
            r,
            has_account,
            prompt@,
            match command {
                Some(c) => Some(c@),
                None => None,
            },
        ),
{
    if has_account {
        SendOutcome::Submit { prompt, command }
    } else {
        SendOutcome::OpenSettings
    }
}

/// What sending the composer's text does.
pub fn send_outcome(
    busy: bool,
    text: &str,
    has_account: bool,
    providers: &Option<ProvidersState>,
) -> (r: SendOutcome)
    ensures
        sends(r, busy, text@, has_account, *providers),
{
    if busy {
        return SendOutcome::Ignored;
    }
    let trimmed = string_of(&crate::text::trimmed(&crate::text::chars_of(text)));
    if trimmed.as_str().unicode_len() == 0 {
        return SendOutcome::Ignored;
    }
    match parse(trimmed.as_str()) {
        Parsed::New => SendOutcome::NewConversation,
        Parsed::Clear => SendOutcome::ClearConversation,
        Parsed::Help => SendOutcome::ShowHelp,
        Parsed::Model(None) => SendOutcome::ToggleModelMenu,
        Parsed::Model(Some(name)) => match find(providers, name.as_str()) {
            Some(id) => SendOutcome::SelectModel(id),
            None => {
                let mut v: Vec<char> = Vec::new();
                push_str(&mut v, "No connected model matches “");
                push_str(&mut v, name.as_str());
                push_str(&mut v, "”. Type /model to choose one.");
                SendOutcome::Notice { text: string_of(&v), reset: true }
            },
        },
        Parsed::Unknown(command) => {
            let mut v: Vec<char> = Vec::new();
            push_str(&mut v, "Unknown command ");
            push_str(&mut v, command.as_str());
            push_str(&mut v, ". Type / to see commands.");
            SendOutcome::Notice { text: string_of(&v), reset: false }
        },
        Parsed::Prompt { command, prompt } => submit(has_account, prompt, Some(command)),
        Parsed::Plain(prompt) => submit(has_account, prompt, None),
    }
}

/// Accepting the highlighted suggestion: the composer's new text, and
/// whether it is sent at once (a command that takes no argument).
pub open spec fn spec_accept(items: Seq<SlashCommand>, index: int) -> Option<(Seq<char>, bool)> {
    if items.len() == 0 {
        None
    } else {
        let c = items[if index < items.len() - 1 {
            index
        } else {
            items.len() - 1
        }];
        if c.argument is Some {
            Some(("/"@ + c.name@ + " "@, false))
        } else {
            Some(("/"@ + c.name@, true))
        }
    }
}

/// Accept the highlighted suggestion (the last one when the highlight is
/// past the end).
pub fn accept_suggestion(items: &Vec<SlashCommand>, index: usize) -> (r: Option<(String, bool)>)
    ensures
        match (r, spec_accept(items@, index as int)) {
            (Some((t, send)), Some((u, s))) => t@ == u && send == s,
            (None, None) => true,
            _ => false,
        },
{
    if items.len() == 0 {
        return None;
    }
    let k = if index < items.len() - 1 {
        index
    } else {
        items.len() - 1
    };
    let c = items[k];
    let mut v: Vec<char> = Vec::new();
    push_str(&mut v, "/");
    push_str(&mut v, c.name);
    if c.argument.is_some() {
        push_str(&mut v, " ");
        Some((string_of(&v), false))
    } else {
        Some((string_of(&v), true))
    }
}

// ----- Reloading the conversation ---------------------------------------------------

/// The conversation the page shows after a reload: the current one while
/// it still exists, else the one the settings select if it exists, else
/// the first.
pub open spec fn spec_pick_conversation(current: Option<i64>, ids: Seq<i64>, selected: Option<i64>) -> Option<i64> {
    if current matches Some(c) && ids.contains(c) {
        current
    } else if selected matches Some(s) && ids.contains(s) {
        selected
    } else if ids.len() > 0 {
        Some(ids[0])
    } else {
        None
    }
}

/// Whether `ids` holds `id`.
fn holds(ids: &Vec<i64>, id: i64) -> (r: bool)
    ensures
        r == ids@.contains(id),
{
    let mut i: usize = 0;
    while i < ids.len()
        invariant
            i <= ids.len(),
            forall|k: int| 0 <= k < i ==> ids@[k] != id,
        decreases ids.len() - i,
    {
        if ids[i] == id {
            return true;
        }
        i += 1;
    }
    false
}

/// The conversation the page shows after a reload.
pub fn pick_conversation(current: Option<i64>, ids: &Vec<i64>, selected: Option<i64>) -> (r: Option<i64>)
    ensures
        r == spec_pick_conversation(current, ids@, selected),
{
    if let Some(c) = current {
        if holds(ids, c) {
            return current;
        }
    }
    if let Some(s) = selected {
        if holds(ids, s) {
            return selected;
        }
    }
    if ids.len() > 0 {
        Some(ids[0])
    } else {
        None
    }
}

/// A turn still waiting for its reply.
pub open spec fn busy_turn(state: Seq<char>) -> bool {
    state == "queued"@ || state == "running"@
}

/// The positions of the turns that belong to `conversation`, in order.
pub open spec fn spec_turns_of(conversation: Option<i64>, owners: Seq<i64>) -> Seq<int>
    decreases owners.len(),
{
    if owners.len() == 0 {
        Seq::empty()
    } else if Some(owners.last()) == conversation {
        spec_turns_of(conversation, owners.drop_last()).push(owners.len() - 1)
    } else {
        spec_turns_of(conversation, owners.drop_last())
    }
}

/// The positions of the turns that belong to `conversation`, given each
/// turn's conversation.
pub fn turns_of(conversation: Option<i64>, owners: &Vec<i64>) -> (r: Vec<usize>)
    ensures
        r@.len() == spec_turns_of(conversation, owners@).len(),
        forall|k: int| 0 <= k < r@.len() ==> #[trigger] r@[k] as int == spec_turns_of(conversation, owners@)[k],
{
    let mut r: Vec<usize> = Vec::new();
    let mut i: usize = 0;
    while i < owners.len()
        invariant
            i <= owners.len(),
            r@.len() == spec_turns_of(conversation, owners@.take(i as int)).len(),
            forall|k: int|
                0 <= k < r@.len() ==> #[trigger] r@[k] as int == spec_turns_of(
                    conversation,
                    owners@.take(i as int),
                )[k],
        decreases owners.len() - i,
    {
        proof {
            assert(owners@.take(i + 1).drop_last() =~= owners@.take(i as int));
        }
        let mine = match conversation {
            Some(c) => owners[i] == c,
            None => false,
        };
        if mine {
            r.push(i);
        }
        i += 1;
    }
    proof {
        assert(owners@.take(owners.len() as int) =~= owners@);
    }
    r
}

/// The first of the shown turns that still waits for its reply.
pub open spec fn spec_active(ids: Seq<i64>, states: Seq<Seq<char>>) -> Option<i64>
    decreases ids.len(),
{
    if ids.len() == 0 || states.len() == 0 {
        None
    } else if busy_turn(states[0]) {
        Some(ids[0])
    } else {
        spec_active(ids.drop_first(), states.drop_first())
    }
}

/// The turn a reply is being waited for: the first shown turn still
/// queued or running. `ids` and `states` describe the shown turns in order.
pub fn active_turn(ids: &Vec<i64>, states: &Vec<String>) -> (r: Option<i64>)
    requires
        ids.len() == states.len(),
    ensures
        r == spec_active(ids@, states@.map_values(|s: String| s@)),
{
    let ghost all = states@.map_values(|s: String| s@);
    let mut i: usize = 0;
    proof {
        assert(ids@.skip(0) =~= ids@);
        assert(all.skip(0) =~= all);
    }
    while i < ids.len()
        invariant
            i <= ids.len() == states.len(),
            all == states@.map_values(|s: String| s@),
            spec_active(ids@, all) == spec_active(ids@.skip(i as int), all.skip(i as int)),
        decreases ids.len() - i,
    {
        proof {
            assert(ids@.skip(i as int).drop_first() =~= ids@.skip(i + 1));
            assert(all.skip(i as int).drop_first() =~= all.skip(i + 1));
            assert(all.skip(i as int)[0] == states@[i as int]@);
        }
        if crate::calendar::import_running(states[i].as_str()) {
            return Some(ids[i]);
        }
        i += 1;
    }
    None
}

/// Whether watching a turn can stop: it is gone, or it no longer waits.
pub open spec fn spec_turn_done(ids: Seq<i64>, states: Seq<Seq<char>>, id: i64) -> bool
    decreases ids.len(),
{
    if ids.len() == 0 || states.len() == 0 {
        true
    } else if ids[0] == id {
        !busy_turn(states[0])
    } else {
        spec_turn_done(ids.drop_first(), states.drop_first(), id)
    }
}

/// Whether watching turn `id` can stop, given every turn's ID and state.
pub fn turn_done(ids: &Vec<i64>, states: &Vec<String>, id: i64) -> (r: bool)
    requires
        ids.len() == states.len(),
    ensures
        r == spec_turn_done(ids@, states@.map_values(|s: String| s@), id),
{
    let ghost all = states@.map_values(|s: String| s@);
    let mut i: usize = 0;
    proof {
        assert(ids@.skip(0) =~= ids@);
        assert(all.skip(0) =~= all);
    }
    while i < ids.len()
        invariant
            i <= ids.len() == states.len(),
            all == states@.map_values(|s: String| s@),
            spec_turn_done(ids@, all, id) == spec_turn_done(ids@.skip(i as int), all.skip(i as int), id),
        decreases ids.len() - i,
    {
        proof {
            assert(ids@.skip(i as int).drop_first() =~= ids@.skip(i + 1));
            assert(all.skip(i as int).drop_first() =~= all.skip(i + 1));
            assert(all.skip(i as int)[0] == states@[i as int]@);
        }
        if ids[i] == id {
            return !crate::calendar::import_running(states[i].as_str());
        }
        i += 1;
    }
    true
}

/// The model the settings choose, unless it is blank.
pub fn chosen_model(model: Option<String>) -> (r: Option<String>)
    ensures
        match (model, r) {
            (Some(m), Some(x)) => m@.len() > 0 && x@ == m@,
            (Some(m), None) => m@.len() == 0,
            (None, r) => r is None,
        },
{
    match model {
        Some(m) => if m.as_str().unicode_len() > 0 {
            Some(m)
        } else {
            None
        },
        None => None,
    }
}

// ----- The conversation page's state -------------------------------------------------

/// What the Evee page holds about its conversations between frames.
pub struct ConversationState {
    /// The conversation shown.
    pub conversation: Option<i64>,
    /// The chat is shown rather than the list.
    pub show_chat: bool,
    /// A change is with the store.
    pub pending: bool,
    pub error: Option<String>,
    /// The error shown in an open dialog.
    pub form_error: Option<String>,
    pub help_open: bool,
    pub notice: Option<String>,
    /// The highlighted command suggestion.
    pub palette_index: usize,
}

/// Whether an optional text is there and reads `t`.
pub open spec fn reads(o: Option<String>, t: Seq<char>) -> bool {
    o matches Some(x) && x@ == t
}

impl ConversationState {
    /// Nothing shown yet.
    pub fn new() -> (r: ConversationState)
        ensures
            r.conversation is None && !r.show_chat && !r.pending && r.error is None,
            r.form_error is None && !r.help_open && r.notice is None && r.palette_index == 0,
    {
        ConversationState {
            conversation: None,
            show_chat: false,
            pending: false,
            error: None,
            form_error: None,
            help_open: false,
            notice: None,
            palette_index: 0,
        }
    }

    /// Start a change, unless one is under way or there is no store. Says
    /// whether the app should make it.
    pub fn start_change(&mut self, has_store: bool) -> (r: bool)
        ensures
            r == (has_store && !old(self).pending),
            r ==> final(self).pending && final(self).error is None,
            !r ==> final(self).pending == old(self).pending && final(self).error == old(self).error,
            final(self).conversation == old(self).conversation,
            final(self).show_chat == old(self).show_chat,
    {
        if self.pending || !has_store {
            return false;
        }
        self.pending = true;
        self.error = None;
        true
    }

    /// A change failed: the error shows on the page and in any open dialog.
    pub fn change_failed(&mut self, e: String)
        ensures
            !final(self).pending,
            reads(final(self).error, e@) && reads(final(self).form_error, e@),
            final(self).conversation == old(self).conversation,
            final(self).show_chat == old(self).show_chat,
    {
        self.pending = false;
        self.form_error = Some(e.clone());
        self.error = Some(e);
    }

    /// A conversation was opened or started: the chat shows it.
    pub fn opened(&mut self, id: i64)
        ensures
            !final(self).pending,
            final(self).conversation == Some(id) && final(self).show_chat,
            final(self).error == old(self).error,
    {
        self.pending = false;
        self.conversation = Some(id);
        self.show_chat = true;
    }

    /// The conversation was cleared: a fresh one replaces it.
    pub fn cleared(&mut self, id: i64)
        ensures
            !final(self).pending,
            final(self).conversation == Some(id) && final(self).show_chat,
            reads(final(self).notice, "Conversation cleared."@),
    {
        self.pending = false;
        self.conversation = Some(id);
        self.show_chat = true;
        self.notice = Some(String::from_str("Conversation cleared."));
    }

    /// A conversation was renamed or deleted; deleting returns to the list.
    pub fn dialog_done(&mut self, deleted: bool)
        ensures
            !final(self).pending,
            final(self).form_error is None,
            final(self).show_chat == (old(self).show_chat && !deleted),
            final(self).conversation == old(self).conversation,
    {
        self.pending = false;
        self.form_error = None;
        if deleted {
            self.show_chat = false;
        }
    }

    /// A turn is about to be sent: help, notices and the highlight reset.
    pub fn submitting(&mut self)
        ensures
            !final(self).help_open && final(self).notice is None && final(self).palette_index == 0,
            final(self).conversation == old(self).conversation,
            final(self).pending == old(self).pending,
    {
        self.help_open = false;
        self.notice = None;
        self.palette_index = 0;
    }

    /// Another workspace was opened: nothing of the old one stays shown.
    pub fn workspace_changed(&mut self)
        ensures
            final(self).conversation is None && final(self).form_error is None,
            !final(self).help_open && final(self).notice is None,
            final(self).pending == old(self).pending,
    {
        self.conversation = None;
        self.form_error = None;
        self.help_open = false;
        self.notice = None;
    }

    /// The title a rename sends: the field trimmed, unless it is blank or
    /// the dialog shows an error.
    pub fn rename_title(&self, text: &str) -> (r: Option<String>)
        ensures
            match r {
                Some(t) => t@ == crate::text::trim(text@) && t@.len() > 0 && self.form_error is None,
                None => crate::text::trim(text@).len() == 0 || self.form_error is Some,
            },
    {
        let t = crate::text::trimmed(&crate::text::chars_of(text));
        if t.len() == 0 || self.form_error.is_some() {
            None
        } else {
            Some(string_of(&t))
        }
    }
}

} // verus!

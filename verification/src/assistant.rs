//! What the Codex stdio client decides: which earlier turns go back to
//! Codex as context, how streamed reply events end in a reply or an error,
//! and how accounts, models, sign-in links and failed calls read.
use crate::text::{byte_size, chars_of, push_str, starts_with, string_of, vec_eq};
use vstd::prelude::*;
use vstd::utf8::encode_utf8;

verus! {

/// A model Codex offers.
#[derive(Clone, Debug, PartialEq, Eq)]
pub struct Model {
    pub id: String,
    pub name: String,
}

/// One exchange of a conversation: the prompt, and the reply or the error.
#[derive(Clone, Debug, PartialEq, Eq)]
pub struct Turn {
    pub id: i64,
    pub prompt: String,
    pub response: Option<String>,
    pub error: Option<String>,
}

/// How many earlier turns go back to Codex as context.
pub const CONTEXT_TURNS: usize = 20;

/// A turn that can serve as context for turn `current`: earlier, answered,
/// and not failed.
pub open spec fn context_turn(t: Turn, current: i64) -> bool {
    t.id < current && t.response is Some && t.error is None
}

/// The turns of `history` that can serve as context, in order.
pub open spec fn context_turns(history: Seq<Turn>, current: i64) -> Seq<Turn>
    decreases history.len(),
{
    if history.len() == 0 {
        Seq::empty()
    } else {
        let rest = context_turns(history.drop_last(), current);
        if context_turn(history.last(), current) {
            rest.push(history.last())
        } else {
            rest
        }
    }
}

/// `s` without its first `k` elements; nothing if it has no more.
pub open spec fn tail<A>(s: Seq<A>, k: int) -> Seq<A> {
    if k >= s.len() {
        Seq::empty()
    } else if k <= 0 {
        s
    } else {
        s.skip(k)
    }
}

/// The last `CONTEXT_TURNS` of them.
pub open spec fn recent(turns: Seq<Turn>) -> Seq<Turn> {
    tail(turns, turns.len() - CONTEXT_TURNS)
}

/// Each turn as the user's prompt and the assistant's reply.
pub open spec fn turn_messages(turns: Seq<Turn>) -> Seq<(Seq<char>, Seq<char>)>
    decreases turns.len(),
{
    if turns.len() == 0 {
        Seq::empty()
    } else {
        turn_messages(turns.drop_last()) + seq![
            ("user"@, turns.last().prompt@),
            ("assistant"@, match turns.last().response {
                Some(r) => r@,
                None => Seq::empty(),
            }),
        ]
    }
}

/// The conversation sent with turn `current`: the last twenty earlier
/// answered turns as prompt and reply, then the new prompt.
pub open spec fn spec_messages(history: Seq<Turn>, current: Turn) -> Seq<(Seq<char>, Seq<char>)> {
    turn_messages(recent(context_turns(history, current.id))).push(("user"@, current.prompt@))
}

/// `(role, content)` as plain characters.
pub open spec fn message_view(m: (String, String)) -> (Seq<char>, Seq<char>) {
    (m.0@, m.1@)
}

fn qualifies(t: &Turn, current: i64) -> (r: bool)
    ensures
        r == context_turn(*t, current),
{
    t.id < current && t.response.is_some() && t.error.is_none()
}

/// The messages sent with turn `current`, as `(role, content)`.
pub fn conversation_messages(history: &Vec<Turn>, current: &Turn) -> (r: Vec<(String, String)>)
    ensures
        r@.map_values(|m: (String, String)| message_view(m)) == spec_messages(history@, *current),
{
    let mut n: usize = 0;
    let mut i: usize = 0;
    while i < history.len()
        invariant
            i <= history.len(),
            n == context_turns(history@.take(i as int), current.id).len(),
            n <= i,
        decreases history.len() - i,
    {
        proof {
            assert(history@.take(i + 1).drop_last() =~= history@.take(i as int));
        }
        if qualifies(&history[i], current.id) {
            n += 1;
        }
        i += 1;
    }
    proof {
        assert(history@.take(history.len() as int) =~= history@);
    }
    let skip: usize = if n > CONTEXT_TURNS {
        n - CONTEXT_TURNS
    } else {
        0
    };
    let mut out: Vec<(String, String)> = Vec::new();
    let mut seen: usize = 0;
    let mut i: usize = 0;
    while i < history.len()
        invariant
            i <= history.len(),
            seen == context_turns(history@.take(i as int), current.id).len(),
            seen <= i,
            out@.map_values(|m: (String, String)| message_view(m)) == turn_messages(
                tail(context_turns(history@.take(i as int), current.id), skip as int),
            ),
        decreases history.len() - i,
    {
        let ghost before = context_turns(history@.take(i as int), current.id);
        proof {
            assert(history@.take(i + 1).drop_last() =~= history@.take(i as int));
        }
        let t = &history[i];
        if qualifies(t, current.id) {
            let ghost after = before.push(*t);
            if seen >= skip {
                let ghost old_out = out@;
                let reply = match &t.response {
                    Some(r) => r.clone(),
                    None => String::new(),
                };
                out.push((String::from_str("user"), t.prompt.clone()));
                out.push((String::from_str("assistant"), reply));
                proof {
                    reveal_strlit("user");
                    reveal_strlit("assistant");
                    if skip == 0 {
                        assert(tail(after, 0) == after);
                        assert(tail(before, 0) == before);
                    } else {
                        assert(tail(after, skip as int) =~= tail(before, skip as int).push(*t));
                    }
                    assert(tail(after, skip as int).drop_last() == tail(before, skip as int));
                    assert(out@.map_values(|m: (String, String)| message_view(m)) =~= old_out.map_values(
                        |m: (String, String)| message_view(m),
                    ) + seq![
                        ("user"@, t.prompt@),
                        ("assistant"@, match t.response {
                            Some(r) => r@,
                            None => Seq::empty(),
                        }),
                    ]);
                }
            } else {
                proof {
                    assert(tail(after, skip as int) =~= Seq::<Turn>::empty());
                    assert(tail(before, skip as int) =~= Seq::<Turn>::empty());
                }
            }
            seen += 1;
        }
        i += 1;
    }
    proof {
        assert(history@.take(history.len() as int) =~= history@);
        let all = context_turns(history@, current.id);
        if n > CONTEXT_TURNS {
            assert(recent(all) == tail(all, skip as int));
        } else {
            assert(recent(all) == tail(all, skip as int));
        }
    }
    let ghost old_out = out@;
    out.push((String::from_str("user"), current.prompt.clone()));
    proof {
        reveal_strlit("user");
        assert(out@.map_values(|m: (String, String)| message_view(m)) =~= old_out.map_values(
            |m: (String, String)| message_view(m),
        ).push(("user"@, current.prompt@)));
    }
    out
}

/// The JSON serde_json writes for an object whose one key `root` holds an
/// array of the messages, each an object of its role under `role_key` and
/// its content under `content_key`.
pub uninterp spec fn conversation_text(
    root: Seq<char>,
    role_key: Seq<char>,
    content_key: Seq<char>,
    messages: Seq<(Seq<char>, Seq<char>)>,
) -> Seq<char>;

/// serde_json's `Value::to_string` of an object whose one key `root` holds
/// the messages, each an object of its role and content under the keys
/// given. The text is named, not stated.
#[verifier::external_body]
fn conversation_json(root: &str, role_key: &str, content_key: &str, messages: &Vec<(String, String)>) -> (r: String)
    ensures
        r@ == conversation_text(
            root@,
            role_key@,
            content_key@,
            messages@.map_values(|m: (String, String)| message_view(m)),
        ),
{
    let list = messages.iter().map(|(role, content)| {
        let mut message = serde_json::Map::new();
        message.insert(role_key.to_string(), serde_json::Value::String(role.clone()));
        message.insert(content_key.to_string(), serde_json::Value::String(content.clone()));
        serde_json::Value::Object(message)
    }).collect();
    let mut object = serde_json::Map::new();
    object.insert(root.to_string(), serde_json::Value::Array(list));
    serde_json::Value::Object(object).to_string()
}

/// The input sent to Codex with turn `current`: the conversation so far as
/// JSON, `{"conversation": [{"role": .., "content": ..}, ..]}`, so that
/// roles stay as they were.
pub fn conversation_input(history: &Vec<Turn>, current: &Turn) -> (r: String)
    ensures
        r@ == conversation_text(
            "conversation"@,
            "role"@,
            "content"@,
            spec_messages(history@, *current),
        ),
{
    conversation_json("conversation", "role", "content", &conversation_messages(history, current))
}


// ----- A reply as it streams in ------------------------------------------------

/// The most reply text Codex may send, in bytes.
pub const REPLY_LIMIT: usize = 1048576;

/// What the client reads from one event while a turn runs.
#[derive(Clone, Debug, PartialEq, Eq)]
pub enum ReplyEvent {
    /// An agent message item completed, with its text.
    AgentMessage(String),
    /// The turn completed; whether its status says it completed.
    TurnCompleted(bool),
    Other,
}

/// Where a reply stands after an event.
#[derive(Clone, Debug, PartialEq, Eq)]
pub enum ReplyOutcome {
    Waiting,
    Reply(String),
    Failed(String),
}

/// The text of all `parts` in bytes.
pub open spec fn total_bytes(parts: Seq<Seq<char>>) -> int
    decreases parts.len(),
{
    if parts.len() == 0 {
        0
    } else {
        total_bytes(parts.drop_last()) + encode_utf8(parts.last()).len()
    }
}

/// `parts` joined with `sep` between them.
pub open spec fn joined(parts: Seq<Seq<char>>, sep: Seq<char>) -> Seq<char>
    decreases parts.len(),
{
    if parts.len() == 0 {
        Seq::empty()
    } else if parts.len() == 1 {
        parts[0]
    } else {
        joined(parts.drop_last(), sep) + sep + parts.last()
    }
}

/// Where a reply stands, as plain characters.
pub enum ReplyView {
    Waiting,
    Reply(Seq<char>),
    Failed(Seq<char>),
}

impl View for ReplyOutcome {
    type V = ReplyView;

    open spec fn view(&self) -> ReplyView {
        match self {
            ReplyOutcome::Waiting => ReplyView::Waiting,
            ReplyOutcome::Reply(t) => ReplyView::Reply(t@),
            ReplyOutcome::Failed(m) => ReplyView::Failed(m@),
        }
    }
}

/// Where a reply stands after `event`, the replies `gathered` before it.
pub open spec fn reply_outcome(gathered: Seq<Seq<char>>, event: ReplyEvent) -> ReplyView {
    match event {
        ReplyEvent::AgentMessage(text) => if total_bytes(gathered) + encode_utf8(text@).len()
            > REPLY_LIMIT {
            ReplyView::Failed("Codex reply was too large. Try a shorter request."@)
        } else {
            ReplyView::Waiting
        },
        ReplyEvent::TurnCompleted(done) => if !done {
            ReplyView::Failed(
                "Codex could not finish this reply. Check your subscription or retry."@,
            )
        } else if gathered.len() == 0 {
            ReplyView::Failed("Codex returned no text. Retry when ready."@)
        } else {
            ReplyView::Reply(joined(gathered, "\n\n"@))
        },
        ReplyEvent::Other => ReplyView::Waiting,
    }
}

/// The replies gathered after `event`.
pub open spec fn gathered_after(gathered: Seq<Seq<char>>, event: ReplyEvent) -> Seq<Seq<char>> {
    match event {
        ReplyEvent::AgentMessage(text) => if total_bytes(gathered) + encode_utf8(text@).len()
            <= REPLY_LIMIT {
            gathered.push(text@)
        } else {
            gathered
        },
        _ => gathered,
    }
}

/// The replies gathered so far, while they stay within the limit.
pub struct ReplyCollector {
    replies: Vec<String>,
    total: usize,
}

impl ReplyCollector {
    /// The replies gathered so far.
    pub closed spec fn gathered(&self) -> Seq<Seq<char>> {
        self.replies@.map_values(|r: String| r@)
    }

    /// Nothing gathered yet.
    pub fn new() -> (r: Self)
        ensures
            r.gathered().len() == 0,
            r.fits(),
    {
        let r = ReplyCollector { replies: Vec::new(), total: 0 };
        proof {
            assert(r.gathered() =~= Seq::<Seq<char>>::empty());
        }
        r
    }

    /// The running total matches the replies, within the limit.
    pub closed spec fn fits(&self) -> bool {
        self.total == total_bytes(self.gathered()) && self.total <= REPLY_LIMIT
    }

    /// Take one event: a message is gathered unless the reply would pass
    /// 1 MiB; a completed turn ends in the replies joined by blank lines,
    /// or in why there is none.
    pub fn take(&mut self, event: &ReplyEvent) -> (r: ReplyOutcome)
        requires
            old(self).fits(),
        ensures
            r@ == reply_outcome(old(self).gathered(), *event),
            final(self).gathered() == gathered_after(old(self).gathered(), *event),
            final(self).fits(),
    {
        match event {
            ReplyEvent::AgentMessage(text) => {
                let size = byte_size(text);
                if size > REPLY_LIMIT - self.total {
                    return ReplyOutcome::Failed(
                        String::from_str("Codex reply was too large. Try a shorter request."),
                    );
                }
                let ghost before = self.replies@;
                self.replies.push(text.clone());
                self.total = self.total + size;
                proof {
                    assert(self.gathered() =~= before.map_values(|r: String| r@).push(text@));
                    assert(self.gathered().drop_last() =~= before.map_values(|r: String| r@));
                }
                ReplyOutcome::Waiting
            },
            ReplyEvent::TurnCompleted(done) => {
                if !*done {
                    return ReplyOutcome::Failed(
                        String::from_str(
                            "Codex could not finish this reply. Check your subscription or retry.",
                        ),
                    );
                }
                if self.replies.len() == 0 {
                    return ReplyOutcome::Failed(
                        String::from_str("Codex returned no text. Retry when ready."),
                    );
                }
                let mut out: Vec<char> = Vec::new();
                let mut k: usize = 0;
                proof {
                    reveal_strlit("\n\n");
                    assert(self.gathered().take(0) =~= Seq::<Seq<char>>::empty());
                }
                while k < self.replies.len()
                    invariant
                        k <= self.replies.len(),
                        out@ == joined(self.gathered().take(k as int), "\n\n"@),
                    decreases self.replies.len() - k,
                {
                    let ghost parts = self.gathered().take(k + 1);
                    proof {
                        assert(parts.drop_last() =~= self.gathered().take(k as int));
                        assert(parts.last() == self.replies@[k as int]@);
                    }
                    if k > 0 {
                        push_str(&mut out, "\n\n");
                    } else {
                        assert(out@ =~= Seq::<char>::empty());
                    }
                    push_str(&mut out, self.replies[k].as_str());
                    proof {
                        if k == 0 {
                            assert(out@ =~= parts[0]);
                        }
                    }
                    k += 1;
                }
                proof {
                    assert(self.gathered().take(self.replies.len() as int) =~= self.gathered());
                }
                ReplyOutcome::Reply(string_of(&out))
            },
            ReplyEvent::Other => ReplyOutcome::Waiting,
        }
    }
}

// ----- Accounts, models, links and failures -----------------------------------

/// How a signed-in ChatGPT account reads: its email and plan.
pub open spec fn spec_account_label(
    kind: Seq<char>,
    email: Option<Seq<char>>,
    plan: Option<Seq<char>>,
) -> Option<Seq<char>> {
    if kind == "chatgpt"@ {
        Some(
            match email {
                Some(e) => e,
                None => "ChatGPT"@,
            } + " · "@ + match plan {
                Some(p) => p,
                None => "Connected"@,
            },
        )
    } else {
        None
    }
}

/// An optional text as plain characters.
pub open spec fn opt_view(t: Option<&str>) -> Option<Seq<char>> {
    match t {
        Some(s) => Some(s@),
        None => None,
    }
}

/// The account line for Codex's `account/read` answer: "email · plan" for
/// a ChatGPT account, nothing otherwise.
pub fn account_label(kind: &str, email: Option<&str>, plan: Option<&str>) -> (r: Option<String>)
    ensures
        match r {
            Some(t) => spec_account_label(kind@, opt_view(email), opt_view(plan)) == Some(t@),
            None => spec_account_label(kind@, opt_view(email), opt_view(plan)) is None,
        },
{
    if !vec_eq(&chars_of(kind), &chars_of("chatgpt")) {
        return None;
    }
    let mut line: Vec<char> = Vec::new();
    match email {
        Some(e) => push_str(&mut line, e),
        None => push_str(&mut line, "ChatGPT"),
    }
    push_str(&mut line, " · ");
    match plan {
        Some(p) => push_str(&mut line, p),
        None => push_str(&mut line, "Connected"),
    }
    Some(string_of(&line))
}

/// The sign-in link Codex returned, if it is one to open: it must be there
/// and use HTTPS.
pub fn sign_in_link(url: Option<&str>) -> (r: Result<String, String>)
    ensures
        match url {
            None => r matches Err(m) && m@ == "Codex did not return a sign-in link"@,
            Some(u) => if u@.len() >= 8 && u@.take(8) == "https://"@ {
                r matches Ok(l) && l@ == u@
            } else {
                r matches Err(m) && m@ == "Codex returned an invalid sign-in link"@
            },
        },
{
    match url {
        None => Err(String::from_str("Codex did not return a sign-in link")),
        Some(u) => {
            proof {
                reveal_strlit("https://");
            }
            let chars = chars_of(u);
            if starts_with(&chars, &chars_of("https://")) {
                proof {
                    assert(u@.len() >= 8 ==> u@.take(8) =~= u@.subrange(0, 8));
                }
                Ok(String::from_str(u))
            } else {
                proof {
                    assert(u@.len() >= 8 ==> u@.take(8) =~= u@.subrange(0, 8));
                }
                Err(String::from_str("Codex returned an invalid sign-in link"))
            }
        },
    }
}

/// Why a call failed, naming the method only: what Codex said stays out.
pub fn call_failed(method: &str) -> (r: String)
    ensures
        r@ == "Codex could not complete "@ + method@ + ". Check your connection and Codex version."@,
{
    let mut line: Vec<char> = Vec::new();
    push_str(&mut line, "Codex could not complete ");
    push_str(&mut line, method);
    push_str(&mut line, ". Check your connection and Codex version.");
    string_of(&line)
}

/// What a call does with a message that arrives while it waits.
#[derive(Clone, Copy, Debug, PartialEq, Eq, Structural)]
pub enum CallStep {
    /// Not the answer to this call: keep waiting.
    Wait,
    /// The answer, with a result.
    Answered,
    /// The answer, with an error.
    Refused,
}

/// What a call numbered `id` does with a message whose `id` reads as
/// `message_id` (when it is a whole number) and which holds an `error` or
/// not: only its own answer ends the wait.
pub fn call_step(id: u64, message_id: Option<u64>, has_error: bool) -> (r: CallStep)
    ensures
        r == (if message_id != Some(id) {
            CallStep::Wait
        } else if has_error {
            CallStep::Refused
        } else {
            CallStep::Answered
        }),
{
    match message_id {
        Some(m) if m == id => if has_error {
            CallStep::Refused
        } else {
            CallStep::Answered
        },
        _ => CallStep::Wait,
    }
}

/// Whether a message is a request from the agent, with a method and an
/// id, which this client answers with a refusal: it grants no approvals
/// and supplies no credentials.
pub fn refuses(has_method: bool, has_id: bool) -> (r: bool)
    ensures
        r == (has_method && has_id),
{
    has_method && has_id
}

/// The models of one `model/list` page that have both an id and a name.
pub fn models_of_page(page: &Vec<(Option<String>, Option<String>)>) -> (r: Vec<Model>)
    ensures
        r@.map_values(|m: Model| (m.id@, m.name@)) == named_models(page@),
{
    let mut models: Vec<Model> = Vec::new();
    let mut i: usize = 0;
    while i < page.len()
        invariant
            i <= page.len(),
            models@.map_values(|m: Model| (m.id@, m.name@)) == named_models(page@.take(i as int)),
        decreases page.len() - i,
    {
        proof {
            assert(page@.take(i + 1).drop_last() =~= page@.take(i as int));
        }
        let ghost before = models@;
        match (&page[i].0, &page[i].1) {
            (Some(id), Some(name)) => {
                models.push(Model { id: id.clone(), name: name.clone() });
                proof {
                    assert(models@.map_values(|m: Model| (m.id@, m.name@)) =~= before.map_values(
                        |m: Model| (m.id@, m.name@),
                    ).push((id@, name@)));
                }
            },
            _ => {},
        }
        i += 1;
    }
    proof {
        assert(page@.take(page.len() as int) =~= page@);
    }
    models
}

/// The `(id, name)` of the entries that have both.
pub open spec fn named_models(page: Seq<(Option<String>, Option<String>)>) -> Seq<(Seq<char>, Seq<char>)>
    decreases page.len(),
{
    if page.len() == 0 {
        Seq::empty()
    } else {
        let rest = named_models(page.drop_last());
        match page.last() {
            (Some(id), Some(name)) => rest.push((id@, name@)),
            _ => rest,
        }
    }
}

// ----- Signing in ------------------------------------------------------------

/// What happened while waiting for a browser sign-in to finish.
pub enum LoginEvent {
    /// The person cancelled, or the wait ran out.
    Cancelled,
    /// Nothing arrived for a moment.
    Quiet,
    /// The agent process stopped answering.
    Stopped,
    /// A notification arrived: whether it reports the sign-in finished,
    /// and whether it succeeded.
    Notification { completed: bool, success: bool },
}

/// What the sign-in does next.
pub enum LoginStep {
    /// Keep waiting.
    Wait,
    /// Signed in.
    Done,
    /// Ask the agent to cancel, then read the account again: a sign-in that
    /// finished meanwhile still counts.
    CancelAndRecheck,
    Failed(String),
}

/// What the sign-in does after an event.
pub fn login_step(event: &LoginEvent) -> (r: LoginStep)
    ensures
        match *event {
            LoginEvent::Cancelled => r is CancelAndRecheck,
            LoginEvent::Quiet => r is Wait,
            LoginEvent::Stopped => r matches LoginStep::Failed(m) && m@ == "Codex sign-in stopped. Try again."@,
            LoginEvent::Notification { completed, success } => if !completed {
                r is Wait
            } else if success {
                r is Done
            } else {
                r matches LoginStep::Failed(m) && m@ == "Sign-in was not completed. Try again."@
            },
        },
{
    match event {
        LoginEvent::Cancelled => LoginStep::CancelAndRecheck,
        LoginEvent::Quiet => LoginStep::Wait,
        LoginEvent::Stopped => LoginStep::Failed(String::from_str("Codex sign-in stopped. Try again.")),
        LoginEvent::Notification { completed, success } => {
            if !*completed {
                LoginStep::Wait
            } else if *success {
                LoginStep::Done
            } else {
                LoginStep::Failed(String::from_str("Sign-in was not completed. Try again."))
            }
        },
    }
}

/// A cancelled sign-in: done if an account is there after all.
pub fn after_cancel(signed_in: bool) -> (r: Result<(), String>)
    ensures
        signed_in ==> r is Ok,
        !signed_in ==> (r matches Err(m) && m@ == "Sign-in cancelled. You can try again when ready."@),
{
    if signed_in {
        Ok(())
    } else {
        Err(String::from_str("Sign-in cancelled. You can try again when ready."))
    }
}

/// A reply needs a signed-in account.
pub fn require_account(signed_in: bool) -> (r: Result<(), String>)
    ensures
        signed_in ==> r is Ok,
        !signed_in ==> (r matches Err(m) && m@ == "Connect your ChatGPT subscription in Settings."@),
{
    if signed_in {
        Ok(())
    } else {
        Err(String::from_str("Connect your ChatGPT subscription in Settings."))
    }
}

} // verus!

//! Slash commands in the composer. Local commands act in the app; prompt
//! commands expand to an instruction for Evee and show as a chip in the transcript.
use crate::text::{
    ascii_lower, chars_of, contains_white, find_white, is_prefix, is_white, lowered, push_range,
    push_str, starts_with, string_of, trim, trimmed, vec_eq,
};
use vstd::prelude::*;

verus! {

#[derive(Clone, Copy, Debug, PartialEq, Eq)]
pub enum Kind {
    Local,
    Prompt,
}

#[derive(Clone, Copy, Debug, PartialEq, Eq)]
pub struct SlashCommand {
    pub name: &'static str,
    pub argument: Option<&'static str>,
    pub summary: &'static str,
    pub kind: Kind,
}

pub open spec fn cmd(
    name: &'static str,
    argument: Option<&'static str>,
    summary: &'static str,
    kind: Kind,
) -> SlashCommand {
    SlashCommand { name, argument, summary, kind }
}

/// The command catalogue, in the order the palette lists it.
pub open spec fn spec_commands() -> Seq<SlashCommand> {
    seq![
        cmd("new", None, "Start a new conversation", Kind::Local),
        cmd("model", Some("name"), "Choose the model for new replies", Kind::Local),
        cmd("clear", None, "Clear this conversation and start over", Kind::Local),
        cmd("help", None, "Show what Evee can do", Kind::Local),
        cmd("tickets", None, "List your Tickets and their states", Kind::Prompt),
        cmd("ticket", Some("title"), "Create a Ticket", Kind::Prompt),
        cmd("runs", None, "Show the latest runs", Kind::Prompt),
        cmd("automations", None, "List your Automations", Kind::Prompt),
        cmd("http", Some("url"), "Fetch a URL with http_request", Kind::Prompt),
    ]
}

/// The command catalogue, in the order the palette lists it.
pub fn commands() -> (v: Vec<SlashCommand>)
    ensures
        v@ == spec_commands(),
{
    let mut v: Vec<SlashCommand> = Vec::new();
    v.push(SlashCommand { name: "new", argument: None, summary: "Start a new conversation", kind: Kind::Local });
    v.push(SlashCommand { name: "model", argument: Some("name"), summary: "Choose the model for new replies", kind: Kind::Local });
    v.push(SlashCommand { name: "clear", argument: None, summary: "Clear this conversation and start over", kind: Kind::Local });
    v.push(SlashCommand { name: "help", argument: None, summary: "Show what Evee can do", kind: Kind::Local });
    v.push(SlashCommand { name: "tickets", argument: None, summary: "List your Tickets and their states", kind: Kind::Prompt });
    v.push(SlashCommand { name: "ticket", argument: Some("title"), summary: "Create a Ticket", kind: Kind::Prompt });
    v.push(SlashCommand { name: "runs", argument: None, summary: "Show the latest runs", kind: Kind::Prompt });
    v.push(SlashCommand { name: "automations", argument: None, summary: "List your Automations", kind: Kind::Prompt });
    v.push(SlashCommand { name: "http", argument: Some("url"), summary: "Fetch a URL with http_request", kind: Kind::Prompt });
    assert(v@ =~= spec_commands());
    v
}

/// The commands whose name starts with `needle`, in catalogue order.
pub open spec fn with_prefix(cmds: Seq<SlashCommand>, needle: Seq<char>) -> Seq<SlashCommand>
    decreases cmds.len(),
{
    if cmds.len() == 0 {
        Seq::empty()
    } else {
        let before = with_prefix(cmds.drop_last(), needle);
        if is_prefix(needle, cmds.last().name@) {
            before.push(cmds.last())
        } else {
            before
        }
    }
}

/// What is typed after the leading `/`, when the text is a command in progress.
pub open spec fn command_in_progress(input: Seq<char>) -> bool {
    input.len() > 0 && input[0] == '/' && !contains_white(input.drop_first())
}

/// The suggestions for what the user has typed so far.
pub open spec fn spec_suggestions(input: Seq<char>) -> Seq<SlashCommand> {
    if command_in_progress(input) {
        with_prefix(spec_commands(), ascii_lower(input.drop_first()))
    } else {
        Seq::empty()
    }
}

/// Commands matching what the user has typed so far, or none when the text
/// is not a command in progress.
pub fn suggestions(input: &str) -> (r: Vec<SlashCommand>)
    ensures
        r@ == spec_suggestions(input@),
{
    let chars = chars_of(input);
    if chars.len() == 0 || chars[0] != '/' {
        return Vec::new();
    }
    let mut rest: Vec<char> = Vec::new();
    push_range(&mut rest, &chars, 1, chars.len());
    assert(rest@ == input@.drop_first());
    if let Some(k) = find_white(&rest, 0) {
        assert(is_white(rest@[k as int]));
        return Vec::new();
    }
    let needle = lowered(&rest);
    let all = commands();
    let mut out: Vec<SlashCommand> = Vec::new();
    let mut i: usize = 0;
    while i < all.len()
        invariant
            i <= all.len(),
            all@ == spec_commands(),
            needle@ == ascii_lower(input@.drop_first()),
            out@ == with_prefix(all@.take(i as int), needle@),
        decreases all.len() - i,
    {
        let name = chars_of(all[i].name);
        if starts_with(&name, &needle) {
            out.push(all[i]);
        }
        proof {
            assert(all@.take(i + 1).drop_last() == all@.take(i as int));
        }
        i += 1;
    }
    proof {
        assert(all@.take(all.len() as int) == all@);
    }
    out
}

/// What the composer's text asks for once it is sent.
#[derive(Clone, Debug, PartialEq, Eq)]
pub enum Parsed {
    New,
    Clear,
    Help,
    Model(Option<String>),
    Prompt { command: String, prompt: String },
    Plain(String),
    Unknown(String),
}

pub enum ParsedView {
    New,
    Clear,
    Help,
    Model(Option<Seq<char>>),
    Prompt { command: Seq<char>, prompt: Seq<char> },
    Plain(Seq<char>),
    Unknown(Seq<char>),
}

impl View for Parsed {
    type V = ParsedView;

    open spec fn view(&self) -> ParsedView {
        match self {
            Parsed::New => ParsedView::New,
            Parsed::Clear => ParsedView::Clear,
            Parsed::Help => ParsedView::Help,
            Parsed::Model(None) => ParsedView::Model(None),
            Parsed::Model(Some(name)) => ParsedView::Model(Some(name@)),
            Parsed::Prompt { command, prompt } => ParsedView::Prompt {
                command: command@,
                prompt: prompt@,
            },
            Parsed::Plain(text) => ParsedView::Plain(text@),
            Parsed::Unknown(text) => ParsedView::Unknown(text@),
        }
    }
}

/// The index of the first whitespace character, or the length when there is none.
pub open spec fn first_white(s: Seq<char>) -> int {
    if contains_white(s) {
        choose|k: int|
            0 <= k < s.len() && is_white(s[k]) && forall|m: int| 0 <= m < k ==> !is_white(#[trigger] s[m])
    } else {
        s.len() as int
    }
}

/// The command word: everything before the first whitespace.
pub open spec fn command_name(rest: Seq<char>) -> Seq<char> {
    rest.subrange(0, first_white(rest))
}

/// The argument: what follows the first whitespace, trimmed.
pub open spec fn command_argument(rest: Seq<char>) -> Seq<char> {
    if contains_white(rest) {
        trim(rest.subrange(first_white(rest) + 1, rest.len() as int))
    } else {
        Seq::empty()
    }
}

/// The first catalogue entry at or after `i` whose name equals `name`,
/// ignoring ASCII case.
pub open spec fn find_from(cmds: Seq<SlashCommand>, name: Seq<char>, i: int) -> Option<int>
    decreases cmds.len() - i,
{
    if i < 0 || i >= cmds.len() {
        None
    } else if ascii_lower(cmds[i].name@) == ascii_lower(name) {
        Some(i)
    } else {
        find_from(cmds, name, i + 1)
    }
}

pub open spec fn tickets_prompt() -> Seq<char> {
    "List my Tickets grouped by state, with assignees, and point out anything blocked or overdue."@
}

pub open spec fn ticket_ask_prompt() -> Seq<char> {
    "Ask me for a title, then create a Ticket in Backlog."@
}

pub open spec fn ticket_prompt(title: Seq<char>) -> Seq<char> {
    "Create a Ticket titled \""@ + title + "\" in Backlog and confirm its ID."@
}

pub open spec fn runs_prompt() -> Seq<char> {
    "List the latest runs with their status and timing, and flag any failures."@
}

pub open spec fn automations_prompt() -> Seq<char> {
    "List my Automations with their schedules and the last time each fired."@
}

pub open spec fn http_ask_prompt() -> Seq<char> {
    "Ask me which URL to fetch, then fetch it with http_request and summarize the response."@
}

pub open spec fn http_prompt(url: Seq<char>) -> Seq<char> {
    "Fetch "@ + url
        + " with http_request and summarize the response, including the status code."@
}

/// How the command is echoed in the transcript: `/name` or `/name argument`.
pub open spec fn shown(name: Seq<char>, argument: Seq<char>) -> Seq<char> {
    if argument.len() == 0 {
        seq!['/'] + name
    } else {
        seq!['/'] + name + seq![' '] + argument
    }
}

/// What the command at catalogue index `i` does with `argument`.
pub open spec fn command_meaning(i: int, argument: Seq<char>) -> ParsedView {
    let echo = shown(spec_commands()[i].name@, argument);
    if i == 0 {
        ParsedView::New
    } else if i == 1 {
        ParsedView::Model(if argument.len() == 0 { None } else { Some(argument) })
    } else if i == 2 {
        ParsedView::Clear
    } else if i == 3 {
        ParsedView::Help
    } else if i == 4 {
        ParsedView::Prompt { command: echo, prompt: tickets_prompt() }
    } else if i == 5 {
        ParsedView::Prompt {
            command: echo,
            prompt: if argument.len() == 0 {
                ticket_ask_prompt()
            } else {
                ticket_prompt(argument)
            },
        }
    } else if i == 6 {
        ParsedView::Prompt { command: echo, prompt: runs_prompt() }
    } else if i == 7 {
        ParsedView::Prompt { command: echo, prompt: automations_prompt() }
    } else {
        ParsedView::Prompt {
            command: echo,
            prompt: if argument.len() == 0 {
                http_ask_prompt()
            } else {
                http_prompt(argument)
            },
        }
    }
}

/// What a message means: plain text, a known command, or an unknown one.
pub open spec fn spec_parse(input: Seq<char>) -> ParsedView {
    let text = trim(input);
    if text.len() == 0 || text[0] != '/' {
        ParsedView::Plain(text)
    } else {
        let rest = text.drop_first();
        let name = command_name(rest);
        match find_from(spec_commands(), name, 0) {
            None => ParsedView::Unknown(seq!['/'] + name),
            Some(i) => command_meaning(i, command_argument(rest)),
        }
    }
}

proof fn lemma_first_white(s: Seq<char>, k: int)
    requires
        0 <= k < s.len(),
        is_white(s[k]),
        forall|m: int| 0 <= m < k ==> !is_white(#[trigger] s[m]),
    ensures
        contains_white(s),
        first_white(s) == k,
{
    assert(contains_white(s));
    let c = first_white(s);
    assert(0 <= c < s.len() && is_white(s[c]) && forall|m: int| 0 <= m < c ==> !is_white(#[trigger] s[m]));
    if c < k {
        assert(!is_white(s[c]));
    } else if c > k {
        assert(!is_white(s[k]));
    }
}

fn find_command(all: &Vec<SlashCommand>, name: &Vec<char>) -> (r: Option<usize>)
    requires
        all@ == spec_commands(),
    ensures
        r matches Some(i) ==> i < all.len() && find_from(spec_commands(), name@, 0) == Some(
            i as int,
        ),
        r is None ==> find_from(spec_commands(), name@, 0) is None,
{
    let wanted = lowered(name);
    let mut i: usize = 0;
    while i < all.len()
        invariant
            all@ == spec_commands(),
            i <= all.len(),
            wanted@ == ascii_lower(name@),
            find_from(spec_commands(), name@, 0) == find_from(spec_commands(), name@, i as int),
        decreases all.len() - i,
    {
        let candidate = lowered(&chars_of(all[i].name));
        if vec_eq(&candidate, &wanted) {
            return Some(i);
        }
        i += 1;
    }
    None
}

fn from_literal(s: &str) -> (r: String)
    ensures
        r@ == s@,
{
    s.to_owned()
}

/// `/name` or `/name argument`.
fn echo(name: &str, argument: &Vec<char>) -> (r: String)
    ensures
        r@ == shown(name@, argument@),
{
    let mut out: Vec<char> = Vec::new();
    out.push('/');
    push_str(&mut out, name);
    if argument.len() > 0 {
        out.push(' ');
        push_range(&mut out, argument, 0, argument.len());
        assert(argument@.subrange(0, argument.len() as int) == argument@);
    }
    string_of(&out)
}

/// `before` + `middle` + `after`.
fn around(before: &str, middle: &Vec<char>, after: &str) -> (r: String)
    ensures
        r@ == before@ + middle@ + after@,
{
    let mut out: Vec<char> = Vec::new();
    push_str(&mut out, before);
    push_range(&mut out, middle, 0, middle.len());
    assert(middle@.subrange(0, middle.len() as int) == middle@);
    push_str(&mut out, after);
    string_of(&out)
}

/// What the composer's text means once it is sent.
pub fn parse(input: &str) -> (r: Parsed)
    ensures
        r@ == spec_parse(input@),
{
    let text = trimmed(&chars_of(input));
    if text.len() == 0 || text[0] != '/' {
        return Parsed::Plain(string_of(&text));
    }
    let mut rest: Vec<char> = Vec::new();
    push_range(&mut rest, &text, 1, text.len());
    assert(rest@ == text@.drop_first());
    let split = find_white(&rest, 0);
    let (name, argument) = match split {
        Some(k) => {
            proof {
                lemma_first_white(rest@, k as int);
            }
            let mut name: Vec<char> = Vec::new();
            push_range(&mut name, &rest, 0, k);
            let mut after: Vec<char> = Vec::new();
            push_range(&mut after, &rest, k + 1, rest.len());
            (name, trimmed(&after))
        },
        None => {
            assert(!contains_white(rest@));
            let mut name: Vec<char> = Vec::new();
            push_range(&mut name, &rest, 0, rest.len());
            (name, Vec::new())
        },
    };
    assert(name@ == command_name(rest@));
    assert(argument@ == command_argument(rest@));
    let all = commands();
    let index = match find_command(&all, &name) {
        Some(i) => i,
        None => {
            let mut unknown: Vec<char> = Vec::new();
            unknown.push('/');
            push_range(&mut unknown, &name, 0, name.len());
            assert(name@.subrange(0, name.len() as int) == name@);
            return Parsed::Unknown(string_of(&unknown));
        },
    };
    let command = echo(all[index].name, &argument);
    let no_argument = argument.len() == 0;
    if index == 0 {
        Parsed::New
    } else if index == 1 {
        if no_argument {
            Parsed::Model(None)
        } else {
            Parsed::Model(Some(string_of(&argument)))
        }
    } else if index == 2 {
        Parsed::Clear
    } else if index == 3 {
        Parsed::Help
    } else if index == 4 {
        Parsed::Prompt {
            command,
            prompt: from_literal(
                "List my Tickets grouped by state, with assignees, and point out anything blocked or overdue.",
            ),
        }
    } else if index == 5 {
        let prompt = if no_argument {
            from_literal("Ask me for a title, then create a Ticket in Backlog.")
        } else {
            around("Create a Ticket titled \"", &argument, "\" in Backlog and confirm its ID.")
        };
        Parsed::Prompt { command, prompt }
    } else if index == 6 {
        Parsed::Prompt {
            command,
            prompt: from_literal(
                "List the latest runs with their status and timing, and flag any failures.",
            ),
        }
    } else if index == 7 {
        Parsed::Prompt {
            command,
            prompt: from_literal(
                "List my Automations with their schedules and the last time each fired.",
            ),
        }
    } else {
        let prompt = if no_argument {
            from_literal(
                "Ask me which URL to fetch, then fetch it with http_request and summarize the response.",
            )
        } else {
            around(
                "Fetch ",
                &argument,
                " with http_request and summarize the response, including the status code.",
            )
        };
        Parsed::Prompt { command, prompt }
    }
}

/// The help text the `/help` command shows.
pub const HELP: &'static str = "**Evee** coordinates your AgentInc: Tickets, Automations, Runs and the web.\n\nType a message, or start with `/` for commands:\n\n- `/tickets`, `/ticket <title>`, `/runs`, `/automations`, `/http <url>` ask Evee to use a tool\n- `/model` picks the model, `/new` starts fresh, `/clear` clears this conversation\n\nEvery reply, tool call and result is stored and runs durably, so closing the window never loses work.";

/// The prompt a catalogue command expands to, if it is a prompt command.
pub open spec fn prompt_of(i: int, argument: Seq<char>) -> Option<Seq<char>> {
    match command_meaning(i, argument) {
        ParsedView::Prompt { prompt, .. } => Some(prompt),
        _ => None,
    }
}

/// Each prompt command expands to its own instruction: two different
/// prompt commands of the catalogue never give the same prompt, whatever
/// their arguments.
pub proof fn law_prompt_commands_differ(i: int, j: int, x: Seq<char>, y: Seq<char>)
    requires
        0 <= i < j < spec_commands().len(),
        spec_commands()[i].kind == Kind::Prompt,
        spec_commands()[j].kind == Kind::Prompt,
    ensures
        prompt_of(i, x) is Some,
        prompt_of(j, y) is Some,
        prompt_of(i, x)->0 != prompt_of(j, y)->0,
{
    reveal_strlit("List my Tickets grouped by state, with assignees, and point out anything blocked or overdue.");
    reveal_strlit("Ask me for a title, then create a Ticket in Backlog.");
    reveal_strlit("Create a Ticket titled \"");
    reveal_strlit("\" in Backlog and confirm its ID.");
    reveal_strlit("List the latest runs with their status and timing, and flag any failures.");
    reveal_strlit("List my Automations with their schedules and the last time each fired.");
    reveal_strlit("Ask me which URL to fetch, then fetch it with http_request and summarize the response.");
    reveal_strlit("Fetch ");
    reveal_strlit(" with http_request and summarize the response, including the status code.");
    assert(4 <= i && j <= 8);
    let p = prompt_of(i, x)->0;
    let q = prompt_of(j, y)->0;
    if i == 4 && j == 6 || i == 6 && j == 7 {
        assert(p[5] != q[5]);
    } else if i == 4 && j == 7 {
        assert(p[8] != q[8]);
    } else if i == 5 && j == 8 && x.len() == 0 && y.len() == 0 {
        assert(p[7] != q[7]);
    } else {
        assert(p[0] != q[0]);
    }
}

/// Each prompt command's instruction names what the command is for: its
/// prompt, folded to lower case, holds the command's own name, whatever
/// the argument.
pub proof fn law_prompt_names_its_command(i: int, x: Seq<char>)
    requires
        0 <= i < spec_commands().len(),
        spec_commands()[i].kind == Kind::Prompt,
    ensures
        prompt_of(i, x) is Some,
        exists|at: int|
            #[trigger] crate::model::holds_at(ascii_lower(prompt_of(i, x)->0), spec_commands()[i].name@, at),
{
    reveal_strlit("List my Tickets grouped by state, with assignees, and point out anything blocked or overdue.");
    reveal_strlit("Ask me for a title, then create a Ticket in Backlog.");
    reveal_strlit("Create a Ticket titled \"");
    reveal_strlit("\" in Backlog and confirm its ID.");
    reveal_strlit("List the latest runs with their status and timing, and flag any failures.");
    reveal_strlit("List my Automations with their schedules and the last time each fired.");
    reveal_strlit("Ask me which URL to fetch, then fetch it with http_request and summarize the response.");
    reveal_strlit("Fetch ");
    reveal_strlit(" with http_request and summarize the response, including the status code.");
    assert(4 <= i <= 8);
    reveal_strlit("tickets");
    reveal_strlit("ticket");
    reveal_strlit("runs");
    reveal_strlit("automations");
    reveal_strlit("http");
    let p = prompt_of(i, x)->0;
    let n = spec_commands()[i].name@;
    let at: int = if i == 4 {
        8
    } else if i == 5 {
        if x.len() == 0 {
            34
        } else {
            9
        }
    } else if i == 6 {
        16
    } else if i == 7 {
        8
    } else if x.len() == 0 {
        46
    } else {
        12 + x.len() as int
    };
    assert(ascii_lower(p).subrange(at, at + n.len()) =~= n);
    assert(crate::model::holds_at(ascii_lower(p), n, at));
}

/// Different catalogue commands mean different things: whatever their
/// arguments, two different commands never read as the same request.
pub proof fn law_commands_mean_different_things(i: int, j: int, x: Seq<char>, y: Seq<char>)
    requires
        0 <= i < j < spec_commands().len(),
    ensures
        command_meaning(i, x) != command_meaning(j, y),
{
    if spec_commands()[i].kind == Kind::Prompt && spec_commands()[j].kind == Kind::Prompt {
        law_prompt_commands_differ(i, j, x, y);
    }
}

/// Typing a command's name after a slash asks for that command: `/name`
/// reads as what the catalogue's command of that name means, with no
/// argument.
pub proof fn law_commands_are_found_by_name(i: int)
    requires
        0 <= i < spec_commands().len(),
    ensures
        spec_parse(seq!['/'] + spec_commands()[i].name@) == command_meaning(i, Seq::empty()),
{
    reveal_strlit("new");
    reveal_strlit("model");
    reveal_strlit("clear");
    reveal_strlit("help");
    reveal_strlit("tickets");
    reveal_strlit("ticket");
    reveal_strlit("runs");
    reveal_strlit("automations");
    reveal_strlit("http");
    let cmds = spec_commands();
    let name = cmds[i].name@;
    let text = seq!['/'] + name;
    assert(forall|k: int| 0 <= k < name.len() ==> 'a' <= #[trigger] name[k] <= 'z');
    assert(text.drop_first() =~= name);
    assert(crate::text::trim_start(text) == text);
    assert(text.last() == name.last());
    assert(crate::text::trim_end(text) == text);
    assert(!contains_white(name));
    assert(command_name(name) =~= name);
    assert(command_argument(name) == Seq::<char>::empty());
    assert forall|j: int| 0 <= j < cmds.len() && j != i implies ascii_lower(#[trigger] cmds[j].name@)
        != ascii_lower(name) by {
        let a = ascii_lower(cmds[j].name@);
        let b = ascii_lower(name);
        if a.len() == b.len() {
            assert(a[0] != b[0] || a[1] != b[1]);
        }
    }
    lemma_find_from_first(cmds, name, 0, i);
}

/// Searching from `from`, the entry found is the first at or after `from`
/// whose name matches.
proof fn lemma_find_from_first(cmds: Seq<SlashCommand>, name: Seq<char>, from: int, i: int)
    requires
        0 <= from <= i < cmds.len(),
        ascii_lower(cmds[i].name@) == ascii_lower(name),
        forall|j: int| from <= j < i ==> ascii_lower(#[trigger] cmds[j].name@) != ascii_lower(name),
    ensures
        find_from(cmds, name, from) == Some(i),
    decreases i - from,
{
    if from < i {
        lemma_find_from_first(cmds, name, from + 1, i);
    }
}

} // verus!

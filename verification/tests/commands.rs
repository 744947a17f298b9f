use ainc_mac::commands::{commands, parse, suggestions, Kind, Parsed};

#[test]
fn suggestions_follow_the_typed_prefix() {
    assert_eq!(suggestions("hello").len(), 0);
    assert_eq!(suggestions("/").len(), commands().len());
    let matched: Vec<_> = suggestions("/ti").iter().map(|c| c.name).collect();
    assert_eq!(matched, vec!["tickets", "ticket"]);
    assert_eq!(suggestions("/tickets now").len(), 0);
    assert_eq!(suggestions("/HT").len(), 1);
}

#[test]
fn commands_parse_into_actions_and_prompts() {
    assert_eq!(parse("/new"), Parsed::New);
    assert_eq!(parse("/model sonnet"), Parsed::Model(Some("sonnet".into())));
    assert_eq!(parse("/model"), Parsed::Model(None));
    assert_eq!(parse("/nope"), Parsed::Unknown("/nope".into()));
    assert_eq!(parse("plain text"), Parsed::Plain("plain text".into()));
    let Parsed::Prompt { command, prompt } = parse("/http https://example.test/x") else {
        panic!("prompt")
    };
    assert_eq!(command, "/http https://example.test/x");
    assert!(prompt.contains("https://example.test/x"));
    let Parsed::Prompt { command, .. } = parse("/ticket  Fix the login  ") else {
        panic!("prompt")
    };
    assert_eq!(command, "/ticket Fix the login");
}

#[test]
fn catalogue_lists_every_command_once_in_order() {
    let names: Vec<_> = commands().iter().map(|c| c.name).collect();
    assert_eq!(
        names,
        vec!["new", "model", "clear", "help", "tickets", "ticket", "runs", "automations", "http"]
    );
    assert_eq!(commands()[1].argument, Some("name"));
    assert_eq!(commands()[4].kind, Kind::Prompt);
    assert_eq!(commands()[0].kind, Kind::Local);
}

#[test]
fn commands_ignore_ascii_case_and_surrounding_space() {
    assert_eq!(parse("  /CLEAR  "), Parsed::Clear);
    assert_eq!(parse("/Help"), Parsed::Help);
    assert_eq!(parse("   "), Parsed::Plain(String::new()));
    assert_eq!(parse("/"), Parsed::Unknown("/".into()));
    assert_eq!(suggestions("/NE").len(), 1);
    assert_eq!(suggestions(" /ne").len(), 0);
    assert_eq!(suggestions("/ne\u{3000}").len(), 0);
}

#[test]
fn prompt_commands_expand_to_instructions() {
    assert_eq!(
        parse("/tickets"),
        Parsed::Prompt {
            command: "/tickets".into(),
            prompt: "List my Tickets grouped by state, with assignees, and point out anything blocked or overdue.".into(),
        }
    );
    assert_eq!(
        parse("/ticket Ship it"),
        Parsed::Prompt {
            command: "/ticket Ship it".into(),
            prompt: "Create a Ticket titled \"Ship it\" in Backlog and confirm its ID.".into(),
        }
    );
    assert_eq!(
        parse("/ticket"),
        Parsed::Prompt {
            command: "/ticket".into(),
            prompt: "Ask me for a title, then create a Ticket in Backlog.".into(),
        }
    );
    assert_eq!(
        parse("/http"),
        Parsed::Prompt {
            command: "/http".into(),
            prompt: "Ask me which URL to fetch, then fetch it with http_request and summarize the response.".into(),
        }
    );
    let Parsed::Prompt { command, .. } = parse("/RUNS") else { panic!("prompt") };
    assert_eq!(command, "/runs");
    let Parsed::Prompt { prompt, .. } = parse("/automations") else { panic!("prompt") };
    assert_eq!(prompt, "List my Automations with their schedules and the last time each fired.");
}

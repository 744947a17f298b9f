use ainc_mac::evee::{activity_label, clipped, result_summary, tool_summary, ToolInput};

fn input() -> ToolInput {
    ToolInput { method: None, url: None, command_kind: None, command_title: None, status: None }
}

#[test]
fn http_calls_read_as_method_and_address() {
    let mut i = input();
    i.url = Some("https://example.com/a".to_string());
    assert_eq!(tool_summary("http_request", &i), "GET https://example.com/a");
    i.method = Some("POST".to_string());
    assert_eq!(tool_summary("http_request", &i), "POST https://example.com/a");
    assert_eq!(tool_summary("http_request", &input()), "GET ");
}

#[test]
fn ticket_commands_are_trimmed() {
    let mut i = input();
    assert_eq!(tool_summary("ticket_command", &i), "command");
    i.command_kind = Some("create".to_string());
    i.command_title = Some("Fix the sink".to_string());
    assert_eq!(tool_summary("ticket_command", &i), "create Fix the sink");
}

#[test]
fn run_lists_name_their_filter() {
    let mut i = input();
    assert_eq!(tool_summary("list_runs", &i), "latest runs");
    i.status = Some("failed".to_string());
    assert_eq!(tool_summary("list_runs", &i), "status failed");
    assert_eq!(tool_summary("something_else", &i), "");
}

#[test]
fn results_summarise_errors_status_and_size() {
    assert_eq!(result_summary("x", true, None, None, 10), "failed");
    let long = "e".repeat(100);
    assert_eq!(result_summary("x", true, Some(&long), None, 10), "e".repeat(80));
    assert_eq!(result_summary("x", true, Some("boom"), None, 10), "boom");
    assert_eq!(result_summary("http_request", false, None, Some((200, 35)), 10), "200 · 35 ms");
    // The status only counts for HTTP calls.
    assert_eq!(result_summary("list_runs", false, None, Some((200, 35)), 10), "10 B");
    assert_eq!(result_summary("x", false, None, None, 1024), "1024 B");
    assert_eq!(result_summary("x", false, None, None, 4096), "4 KB");
}

#[test]
fn long_text_is_clipped_with_an_ellipsis() {
    assert_eq!(clipped("short"), "short");
    let long = "a".repeat(4001);
    let cut = clipped(&long);
    assert_eq!(cut, format!("{}\n…", "a".repeat(4000)));
    let exact = "b".repeat(4000);
    assert_eq!(clipped(&exact), exact);
}

#[test]
fn activity_reads_queued_tool_or_thinking() {
    assert_eq!(activity_label("queued", Some("tool_use"), Some("x")), "Queued…");
    assert_eq!(activity_label("running", Some("tool_use"), Some("http_request")), "Running http_request…");
    assert_eq!(activity_label("running", Some("tool_use"), None), "Running tool…");
    assert_eq!(activity_label("running", Some("text"), None), "Evee is thinking…");
    assert_eq!(activity_label("running", None, None), "Evee is thinking…");
}

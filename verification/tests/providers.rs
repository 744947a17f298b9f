use ainc_mac::providers::{
    account, api_key, hosts, provider, row_controls, row_line, sign_in_code, status_line,
    test_model, ConnectMethod, ProviderId, ProviderStatus, ProviderTest, ProvidersSettings,
    ProvidersState, RowControls,
};

fn status(id: ProviderId, connect: ConnectMethod) -> ProviderStatus {
    ProviderStatus {
        id,
        name: "Provider".to_string(),
        connected: false,
        signing_in: false,
        awaiting_code: false,
        account: None,
        description: "Not connected.".to_string(),
        error: None,
        connect,
        models: vec![],
    }
}

#[test]
fn rows_say_where_a_provider_stands() {
    let mut s = status(ProviderId::Codex, ConnectMethod::Browser);
    assert_eq!(row_line(None, false, false), "Not checked yet.");
    assert_eq!(row_line(None, false, true), "Checking…");
    assert_eq!(row_line(Some(&s), true, true), "Working…");
    assert_eq!(row_line(Some(&s), false, false), "Not connected.");
    s.connected = true;
    assert_eq!(row_line(Some(&s), false, false), "Connected · Ready");
    s.account = Some("me@example.test".to_string());
    assert_eq!(row_line(Some(&s), false, false), "Connected · me@example.test");
    s.signing_in = true;
    assert_eq!(row_line(Some(&s), false, false), "Complete the sign-in in your browser.");
    s.awaiting_code = true;
    assert_eq!(row_line(Some(&s), false, false), "Paste the code from your browser to finish signing in.");
    s.error = Some("Expired".to_string());
    assert_eq!(row_line(Some(&s), false, false), "Expired");
}

#[test]
fn rows_offer_the_right_controls() {
    assert_eq!(
        row_controls(None, ProviderId::Claude),
        RowControls::Connect { method: ConnectMethod::BrowserCode }
    );
    assert_eq!(
        row_controls(None, ProviderId::Openrouter),
        RowControls::Connect { method: ConnectMethod::ApiKey }
    );
    let mut s = status(ProviderId::Codex, ConnectMethod::Browser);
    assert_eq!(
        row_controls(Some(&s), ProviderId::Codex),
        RowControls::Connect { method: ConnectMethod::Browser }
    );
    s.signing_in = true;
    assert_eq!(row_controls(Some(&s), ProviderId::Codex), RowControls::SigningIn);
    s.awaiting_code = true;
    assert_eq!(row_controls(Some(&s), ProviderId::Codex), RowControls::CodeEntry);
    s.connected = true;
    assert_eq!(row_controls(Some(&s), ProviderId::Codex), RowControls::Connected { disconnect: Some("Sign out") });
    s.connect = ConnectMethod::ApiKey;
    assert_eq!(row_controls(Some(&s), ProviderId::Codex), RowControls::Connected { disconnect: Some("Remove key") });
    s.connect = ConnectMethod::BrowserCode;
    assert_eq!(row_controls(Some(&s), ProviderId::Codex), RowControls::Connected { disconnect: None });
}

#[test]
fn the_account_is_the_first_connected_provider() {
    let mut a = status(ProviderId::Claude, ConnectMethod::BrowserCode);
    let mut b = status(ProviderId::Codex, ConnectMethod::Browser);
    b.connected = true;
    b.name = "ChatGPT".to_string();
    let state = ProvidersState { providers: vec![a, b], default_model: None };
    assert_eq!(account(&state), Some("ChatGPT".to_string()));
    assert_eq!(provider(&state, ProviderId::Codex), Some(1));
    assert_eq!(provider(&state, ProviderId::Openrouter), None);
    a = status(ProviderId::Claude, ConnectMethod::BrowserCode);
    a.connected = true;
    a.account = Some("me@example.test".to_string());
    let state = ProvidersState { providers: vec![a], default_model: None };
    assert_eq!(account(&state), Some("me@example.test".to_string()));
    assert_eq!(account(&ProvidersState { providers: vec![], default_model: None }), None);
}

#[test]
fn tests_ask_the_chosen_model_only_of_its_provider() {
    let chosen = Some("openrouter:large".to_string());
    assert_eq!(test_model(&chosen, "openrouter"), chosen);
    assert_eq!(test_model(&chosen, "codex"), None);
    assert_eq!(test_model(&chosen, "openrouter:large"), None);
    assert_eq!(test_model(&None, "codex"), None);
}

#[test]
fn host_lists_split_trim_and_lower() {
    assert_eq!(hosts("Example.COM, api.test\n\n  *.Foo.org"), vec!["example.com", "api.test", "*.foo.org"]);
    assert!(hosts("").is_empty());
    assert!(hosts(" , ,\n").is_empty());
}

#[test]
fn keys_and_codes_must_be_given() {
    assert_eq!(api_key("  sk-123 "), Ok("sk-123".to_string()));
    assert_eq!(api_key("   "), Err("Paste your OpenRouter API key first.".to_string()));
    assert_eq!(sign_in_code(""), Err("Paste the code shown after signing in.".to_string()));
    assert_eq!(sign_in_code(" abc "), Ok("abc".to_string()));
}

#[test]
fn settings_follow_calls_tests_and_commands() {
    let mut s = ProvidersSettings::new();
    assert_eq!(status_line(&s.error, &s.notice, s.busy), "Re-check every sign-in, key and model list.");
    assert!(s.start_run(None));
    assert!(!s.start_run(Some(ProviderId::Claude)));
    assert_eq!(status_line(&s.error, &s.notice, s.busy), "Checking providers…");
    s.apply(Ok(ProvidersState { providers: vec![], default_model: Some("codex:fast".to_string()) }));
    assert_eq!(s.model.as_deref(), Some("codex:fast"));
    assert!(!s.busy);
    assert_eq!(s.start_test(ProviderId::Codex, "codex"), Some(Some("codex:fast".to_string())));
    assert_eq!(s.start_test(ProviderId::Codex, "codex"), None);
    s.tested(
        ProviderId::Codex,
        Ok(ProviderTest { ok: false, reply: None, elapsed_ms: 120, error: None }),
    );
    assert_eq!(s.failed_test_line(ProviderId::Codex).as_deref(), Some("Test failed: no reply"));
    assert_eq!(s.failed_test_line(ProviderId::Claude), None);
    assert!(s.disconnect(ProviderId::Codex));
    assert!(s.test.is_none());
    s.apply(Err("daemon down".to_string()));
    assert_eq!(status_line(&s.error, &s.notice, s.busy), "daemon down");
    let (fade, started) = s.select_model(Some("openrouter:large".to_string()), true);
    assert_eq!((fade, started), (None, true));
    s.command_done(Ok(()), "Model saved.");
    assert_eq!(s.notice.as_deref(), Some("Model saved."));
    assert!(!s.start_command(false));
}

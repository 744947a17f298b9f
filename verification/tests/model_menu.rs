use ainc_mac::commands::suggestions;
use ainc_mac::evee::{accept_suggestion, send_outcome, SendOutcome};
use ainc_mac::model_menu::{find, label, models, ModelMenu};
use ainc_mac::providers::{ConnectMethod, ProviderId, ProviderModel, ProviderStatus, ProvidersState};

fn model(id: &str, name: &str) -> ProviderModel {
    ProviderModel { id: id.to_string(), name: name.to_string() }
}

fn status(name: &str, connected: bool, models: Vec<ProviderModel>) -> ProviderStatus {
    ProviderStatus {
        id: ProviderId::Openrouter,
        name: name.to_string(),
        connected,
        signing_in: false,
        awaiting_code: false,
        account: None,
        description: String::new(),
        error: None,
        connect: ConnectMethod::ApiKey,
        models,
    }
}

fn providers() -> Option<ProvidersState> {
    Some(ProvidersState {
        providers: vec![
            status("Offline", false, vec![model("off-swift", "Swift Offline")]),
            status("Acme", true, vec![model("acme-swift", "Swift"), model("acme-deep", "Deep")]),
            status("Empty", true, vec![]),
            status("Globex", true, vec![model("bolt-5", "Bolt-5")]),
        ],
        default_model: None,
    })
}

#[test]
fn the_picker_lists_every_model_in_order() {
    assert_eq!(models(&providers()), vec![(0, 0), (1, 0), (1, 1), (3, 0)]);
    assert!(models(&None).is_empty());
}

#[test]
fn the_trigger_names_the_model_and_its_provider() {
    assert_eq!(label(&providers(), &Some("acme-deep".to_string())), "Deep · Acme");
    assert_eq!(label(&providers(), &Some("nope".to_string())), "Choose a model");
    assert_eq!(label(&providers(), &None), "Choose a model");
    assert_eq!(label(&None, &Some("bolt-5".to_string())), "Choose a model");
}

#[test]
fn typed_names_pick_the_first_connected_match() {
    assert_eq!(find(&providers(), "  SWIFT "), Some("acme-swift".to_string()));
    assert_eq!(find(&providers(), "bolt"), Some("bolt-5".to_string()));
    assert_eq!(find(&providers(), "offline"), None);
    assert_eq!(find(&providers(), "llama"), None);
    assert_eq!(find(&None, "bolt"), None);
}

#[test]
fn only_the_latest_fade_hides_the_menu() {
    let mut menu = ModelMenu::default();
    assert_eq!(menu.toggle(), None);
    assert!(menu.open);
    let fade = menu.toggle().unwrap();
    assert!(!menu.open && menu.closing);
    menu.toggle();
    menu.faded(fade);
    assert!(menu.open);
    let fade = menu.close().unwrap();
    menu.faded(fade);
    assert!(!menu.closing);
    assert_eq!(menu.close(), None);
}

#[test]
fn sending_follows_the_command() {
    let p = providers();
    assert!(matches!(send_outcome(true, "hello", true, &p), SendOutcome::Ignored));
    assert!(matches!(send_outcome(false, "   ", true, &p), SendOutcome::Ignored));
    assert!(matches!(send_outcome(false, "/new", true, &p), SendOutcome::NewConversation));
    assert!(matches!(send_outcome(false, "/model", true, &p), SendOutcome::ToggleModelMenu));
    match send_outcome(false, "/model deep", true, &p) {
        SendOutcome::SelectModel(id) => assert_eq!(id, "acme-deep"),
        _ => panic!("expected a model"),
    }
    match send_outcome(false, "/model llama", true, &p) {
        SendOutcome::Notice { text, reset } => {
            assert!(reset);
            assert_eq!(text, "No connected model matches “llama”. Type /model to choose one.");
        }
        _ => panic!("expected a notice"),
    }
    match send_outcome(false, "/nope", true, &p) {
        SendOutcome::Notice { text, reset } => {
            assert!(!reset);
            assert_eq!(text, "Unknown command /nope. Type / to see commands.");
        }
        _ => panic!("expected a notice"),
    }
    match send_outcome(false, "  plain text ", true, &p) {
        SendOutcome::Submit { prompt, command } => {
            assert_eq!(prompt, "plain text");
            assert!(command.is_none());
        }
        _ => panic!("expected a turn"),
    }
    assert!(matches!(send_outcome(false, "plain text", false, &p), SendOutcome::OpenSettings));
}

#[test]
fn accepting_a_suggestion_fills_or_sends() {
    let items = suggestions("/ti");
    assert_eq!(accept_suggestion(&items, 0), Some(("/tickets".to_string(), true)));
    assert_eq!(accept_suggestion(&items, 9), Some(("/ticket ".to_string(), false)));
    assert_eq!(accept_suggestion(&vec![], 0), None);
}
